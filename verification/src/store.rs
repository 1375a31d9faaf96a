//! The configuration store's mutation rules: what each control request does
//! to the settings, stated as a specification-level transition function and
//! implemented by a verified dispatcher.

use crate::protocol::SocketFailure;
use crate::protocol::SocketRequest;
use crate::protocol::SocketRequestView;
use crate::protocol::SocketResponse;
use crate::protocol::SocketResponseView;
use crate::protocol::outcome_view;
use crate::settings::Application;
use crate::settings::ApplicationView;
use crate::settings::Settings;
use crate::settings::SettingsView;
use crate::settings::duplicate_apps;
use crate::settings::first_idx_with_name;
use crate::settings::lemma_first_idx_with_name;
use crate::settings::lemma_first_idx_with_name_is;
use crate::settings::lemma_views_push;
use crate::settings::lemma_views_remove;
use crate::settings::lemma_views_update;
use crate::settings::views_of;
use vstd::prelude::*;

verus! {

/// What one request does to the settings, and what it answers: the
/// specification the dispatcher is proved against.
///
/// Policy choices, fixed here rather than left ambiguous: editing or
/// deleting a name that is not present succeeds and changes nothing, and
/// renaming an application to a name another application already carries
/// fails with `NameInUse`, so names stay unique.
pub open spec fn apply_spec(s: SettingsView, req: SocketRequestView) -> (SettingsView, Result<
    SocketResponseView,
    SocketFailure,
>) {
    match req {
        SocketRequestView::CreateApplication { name, hostname } => {
            if s.has_name(name) {
                (s, Err(SocketFailure::NameInUse))
            } else {
                let created = ApplicationView { name, hostname, address: None };
                (
                    SettingsView { applications: s.applications.push(created), ..s },
                    Ok(SocketResponseView::CreatedApplication),
                )
            }
        },
        SocketRequestView::GetApplication { name } => {
            let i = first_idx_with_name(s.applications, name);
            if i < s.applications.len() {
                (s, Ok(SocketResponseView::Application(s.applications[i])))
            } else {
                (s, Err(SocketFailure::ApplicationNotFound))
            }
        },
        SocketRequestView::GetApplications => {
            (s, Ok(SocketResponseView::Applications(s.applications)))
        },
        SocketRequestView::EditApplication { name, new_name, new_hostname } => {
            let i = first_idx_with_name(s.applications, name);
            if i == s.applications.len() {
                (s, Ok(SocketResponseView::EditedApplication))
            } else {
                let collision = match new_name {
                    Some(n) => n != name && s.has_name(n),
                    None => false,
                };
                if collision {
                    (s, Err(SocketFailure::NameInUse))
                } else {
                    let before = s.applications[i];
                    let updated = ApplicationView {
                        name: match new_name {
                            Some(n) => n,
                            None => before.name,
                        },
                        hostname: match new_hostname {
                            Some(h) => h,
                            None => before.hostname,
                        },
                        address: before.address,
                    };
                    (
                        SettingsView { applications: s.applications.update(i, updated), ..s },
                        Ok(SocketResponseView::EditedApplication),
                    )
                }
            }
        },
        SocketRequestView::DeleteApplication { name } => {
            let i = first_idx_with_name(s.applications, name);
            if i == s.applications.len() {
                (s, Ok(SocketResponseView::DeletedApplication))
            } else {
                (
                    SettingsView { applications: s.applications.remove(i), ..s },
                    Ok(SocketResponseView::DeletedApplication),
                )
            }
        },
        SocketRequestView::GetDashboardHost => {
            (s, Ok(SocketResponseView::DashboardHost(s.dashboard_hostname)))
        },
        SocketRequestView::GetRegistryHost => {
            (s, Ok(SocketResponseView::RegistryHost(s.registry_hostname)))
        },
        SocketRequestView::EditDashboardHost { hostname } => {
            (
                SettingsView { dashboard_hostname: hostname, ..s },
                Ok(SocketResponseView::EditedDashboardHost),
            )
        },
        SocketRequestView::EditRegistryHost { hostname } => {
            (
                SettingsView { registry_hostname: hostname, ..s },
                Ok(SocketResponseView::EditedRegistryHost),
            )
        },
    }
}

/// Finds the first application with the given name, returning the list
/// length when there is none.
pub fn find_name(apps: &Vec<Application>, name: &String) -> (i: usize)
    ensures
        i as int == first_idx_with_name(views_of(apps@), name@),
        i <= apps@.len(),
{
    let mut k: usize = 0;
    while k < apps.len()
        invariant
            0 <= k <= apps@.len(),
            forall|q: int| 0 <= q < k ==> views_of(apps@)[q].name != name@,
        decreases apps@.len() - k,
    {
        if apps[k].name == *name {
            proof {
                assert(views_of(apps@)[k as int].name == name@);
                lemma_first_idx_with_name_is(views_of(apps@), name@, k as int);
            }
            return k;
        }
        proof {
            assert(views_of(apps@)[k as int].name != name@);
        }
        k = k + 1;
    }
    proof {
        lemma_first_idx_with_name_is(views_of(apps@), name@, k as int);
    }
    k
}

/// The scan index witnesses `has_name` exactly.
proof fn lemma_idx_vs_has_name(s: SettingsView, name: Seq<char>)
    ensures
        s.has_name(name) <==> first_idx_with_name(s.applications, name) < s.applications.len(),
{
    lemma_first_idx_with_name(s.applications, name);
    let i = first_idx_with_name(s.applications, name);
    if i < s.applications.len() {
        assert(s.applications[i].name == name);
    }
    if s.has_name(name) {
        let w = choose|q: int|
            0 <= q < s.applications.len() && s.applications[q].name == name;
        assert(i <= w);
    }
}

/// Applies one control request to the settings, returning the reply payload.
/// The new settings and the outcome are exactly what [`apply_spec`] says.
pub fn apply_request(settings: &mut Settings, request: &SocketRequest) -> (r: Result<
    SocketResponse,
    SocketFailure,
>)
    ensures
        final(settings)@ == apply_spec(old(settings)@, request@).0,
        outcome_view(r) == apply_spec(old(settings)@, request@).1,
{
    proof {
        lemma_idx_vs_has_name(old(settings)@, match request@ {
            SocketRequestView::CreateApplication { name, .. } => name,
            SocketRequestView::GetApplication { name } => name,
            SocketRequestView::EditApplication { name, .. } => name,
            SocketRequestView::DeleteApplication { name } => name,
            _ => Seq::empty(),
        });
    }
    match request {
        SocketRequest::CreateApplication { name, hostname } => {
            let i = find_name(&settings.applications, name);
            if i < settings.applications.len() {
                Err(SocketFailure::NameInUse)
            } else {
                let created = Application {
                    name: name.clone(),
                    hostname: hostname.clone(),
                    address: None,
                };
                proof {
                    lemma_views_push(settings.applications@, created);
                }
                settings.applications.push(created);
                proof {
                    assert(settings@ =~= apply_spec(old(settings)@, request@).0);
                }
                Ok(SocketResponse::CreatedApplication)
            }
        },
        SocketRequest::GetApplication { name } => {
            let i = find_name(&settings.applications, name);
            if i < settings.applications.len() {
                Ok(SocketResponse::Application(settings.applications[i].duplicate()))
            } else {
                Err(SocketFailure::ApplicationNotFound)
            }
        },
        SocketRequest::GetApplications => {
            Ok(SocketResponse::Applications(duplicate_apps(&settings.applications)))
        },
        SocketRequest::EditApplication { name, new_name, new_hostname } => {
            let i = find_name(&settings.applications, name);
            if i == settings.applications.len() {
                return Ok(SocketResponse::EditedApplication);
            }
            let mut collision = false;
            match new_name {
                Some(n) => {
                    proof {
                        lemma_idx_vs_has_name(settings@, n@);
                    }
                    if !(*n == *name) {
                        let j = find_name(&settings.applications, n);
                        if j < settings.applications.len() {
                            collision = true;
                        }
                    }
                },
                None => {},
            }
            if collision {
                return Err(SocketFailure::NameInUse);
            }
            let updated = Application {
                name: match new_name {
                    Some(n) => n.clone(),
                    None => settings.applications[i].name.clone(),
                },
                hostname: match new_hostname {
                    Some(h) => h.clone(),
                    None => settings.applications[i].hostname.clone(),
                },
                address: settings.applications[i].address,
            };
            proof {
                lemma_views_update(settings.applications@, i as int, updated);
            }
            settings.applications.set(i, updated);
            proof {
                assert(settings@ =~= apply_spec(old(settings)@, request@).0);
            }
            Ok(SocketResponse::EditedApplication)
        },
        SocketRequest::DeleteApplication { name } => {
            let i = find_name(&settings.applications, name);
            if i == settings.applications.len() {
                return Ok(SocketResponse::DeletedApplication);
            }
            proof {
                lemma_views_remove(settings.applications@, i as int);
            }
            settings.applications.remove(i);
            proof {
                assert(settings@ =~= apply_spec(old(settings)@, request@).0);
            }
            Ok(SocketResponse::DeletedApplication)
        },
        SocketRequest::GetDashboardHost => {
            Ok(SocketResponse::DashboardHost(settings.dashboard.hostname.clone()))
        },
        SocketRequest::GetRegistryHost => {
            Ok(SocketResponse::RegistryHost(settings.registry.hostname.clone()))
        },
        SocketRequest::EditDashboardHost { hostname } => {
            settings.dashboard.hostname = hostname.clone();
            proof {
                assert(settings@ =~= apply_spec(old(settings)@, request@).0);
            }
            Ok(SocketResponse::EditedDashboardHost)
        },
        SocketRequest::EditRegistryHost { hostname } => {
            settings.registry.hostname = hostname.clone();
            proof {
                assert(settings@ =~= apply_spec(old(settings)@, request@).0);
            }
            Ok(SocketResponse::EditedRegistryHost)
        },
    }
}

// ---------------------------------------------------------------------------
// Laws
// ---------------------------------------------------------------------------

/// The names of a list of applications, in order.
pub open spec fn name_seq(apps: Seq<ApplicationView>) -> Seq<Seq<char>> {
    apps.map(|i: int, a: ApplicationView| a.name)
}

/// Uniqueness of names is exactly the name sequence having no duplicates.
pub proof fn lemma_wf_is_no_duplicates(s: SettingsView)
    ensures
        s.wf() <==> name_seq(s.applications).no_duplicates(),
{
    if s.wf() {
        assert forall|i: int, j: int|
            0 <= i < name_seq(s.applications).len() && 0 <= j < name_seq(s.applications).len() && i
                != j implies name_seq(s.applications)[i] != name_seq(s.applications)[j] by {
            assert(name_seq(s.applications)[i] == s.applications[i].name);
            assert(name_seq(s.applications)[j] == s.applications[j].name);
        }
    }
    if name_seq(s.applications).no_duplicates() {
        assert forall|i: int, j: int|
            0 <= i < j < s.applications.len() implies s.applications[i].name
            != s.applications[j].name by {
            assert(name_seq(s.applications)[i] == s.applications[i].name);
            assert(name_seq(s.applications)[j] == s.applications[j].name);
        }
    }
}

/// Every request preserves the uniqueness of application names.
pub proof fn law_wf_preserved(s: SettingsView, req: SocketRequestView)
    requires
        s.wf(),
    ensures
        apply_spec(s, req).0.wf(),
{
    let s1 = apply_spec(s, req).0;
    match req {
        SocketRequestView::CreateApplication { name, hostname } => {
            if !s.has_name(name) {
                let apps1 = s1.applications;
                assert forall|i: int, j: int| 0 <= i < j < apps1.len() implies apps1[i].name
                    != apps1[j].name by {
                    if j < s.applications.len() {
                        assert(apps1[i] == s.applications[i] && apps1[j] == s.applications[j]);
                    } else {
                        assert(apps1[j].name == name);
                        assert(apps1[i] == s.applications[i]);
                        if s.applications[i].name == name {
                            assert(s.has_name(name));
                        }
                    }
                }
            }
        },
        SocketRequestView::EditApplication { name, new_name, new_hostname } => {
            let i = first_idx_with_name(s.applications, name);
            lemma_first_idx_with_name(s.applications, name);
            if i < s.applications.len() {
                let collision = match new_name {
                    Some(n) => n != name && s.has_name(n),
                    None => false,
                };
                if !collision {
                    let apps1 = s1.applications;
                    assert forall|p: int, q: int| 0 <= p < q < apps1.len() implies apps1[p].name
                        != apps1[q].name by {
                        if p != i && q != i {
                            assert(apps1[p] == s.applications[p] && apps1[q] == s.applications[q]);
                        } else {
                            let other = if p == i {
                                q
                            } else {
                                p
                            };
                            assert(apps1[other] == s.applications[other]);
                            match new_name {
                                Some(n) => {
                                    if n == name {
                                        assert(apps1[i].name == s.applications[i].name);
                                    } else {
                                        if s.applications[other].name == n {
                                            assert(s.has_name(n));
                                        }
                                    }
                                },
                                None => {
                                    assert(apps1[i].name == s.applications[i].name);
                                },
                            }
                        }
                    }
                }
            }
        },
        SocketRequestView::DeleteApplication { name } => {
            let i = first_idx_with_name(s.applications, name);
            lemma_first_idx_with_name(s.applications, name);
            if i < s.applications.len() {
                let apps1 = s1.applications;
                assert forall|p: int, q: int| 0 <= p < q < apps1.len() implies apps1[p].name
                    != apps1[q].name by {
                    let p0 = if p < i {
                        p
                    } else {
                        p + 1
                    };
                    let q0 = if q < i {
                        q
                    } else {
                        q + 1
                    };
                    assert(apps1[p] == s.applications[p0]);
                    assert(apps1[q] == s.applications[q0]);
                }
            }
        },
        _ => {},
    }
}

/// Editing with only a new hostname changes nothing but that one hostname:
/// every other application, and every other field of the edited one, is left
/// exactly as it was; a name that is not present changes nothing at all.
pub proof fn law_edit_hostname_only(s: SettingsView, name: Seq<char>, h: Seq<char>)
    ensures
        ({
            let req = SocketRequestView::EditApplication {
                name,
                new_name: None,
                new_hostname: Some(h),
            };
            let s1 = apply_spec(s, req).0;
            let i = first_idx_with_name(s.applications, name);
            &&& s1.server_port == s.server_port
            &&& s1.dashboard_hostname == s.dashboard_hostname
            &&& s1.registry_hostname == s.registry_hostname
            &&& s1.applications.len() == s.applications.len()
            &&& forall|k: int|
                0 <= k < s.applications.len() && k != i ==> s1.applications[k] == s.applications[k]
            &&& i < s.applications.len() ==> s1.applications[i].name == s.applications[i].name
            &&& i < s.applications.len() ==> s1.applications[i].address
                == s.applications[i].address
            &&& i < s.applications.len() ==> s1.applications[i].hostname == h
        }),
{
    lemma_first_idx_with_name(s.applications, name);
}

/// Editing with only a new name changes nothing but that one name, and is
/// refused outright when the new name is already in use by another
/// application.
pub proof fn law_edit_name_only(s: SettingsView, name: Seq<char>, n: Seq<char>)
    ensures
        ({
            let req = SocketRequestView::EditApplication {
                name,
                new_name: Some(n),
                new_hostname: None,
            };
            let s1 = apply_spec(s, req).0;
            let i = first_idx_with_name(s.applications, name);
            &&& s1.server_port == s.server_port
            &&& s1.dashboard_hostname == s.dashboard_hostname
            &&& s1.registry_hostname == s.registry_hostname
            &&& s1.applications.len() == s.applications.len()
            &&& forall|k: int|
                0 <= k < s.applications.len() && k != i ==> s1.applications[k] == s.applications[k]
            &&& i < s.applications.len() ==> s1.applications[i].hostname
                == s.applications[i].hostname
            &&& i < s.applications.len() ==> s1.applications[i].address
                == s.applications[i].address
        }),
{
    lemma_first_idx_with_name(s.applications, name);
}

/// Deleting a name that is not present succeeds and leaves the settings,
/// application list included, exactly unchanged.
pub proof fn law_delete_absent_is_noop(s: SettingsView, name: Seq<char>)
    requires
        !s.has_name(name),
    ensures
        apply_spec(s, SocketRequestView::DeleteApplication { name }).0 == s,
        apply_spec(s, SocketRequestView::DeleteApplication { name }).1 == Ok::<
            SocketResponseView,
            SocketFailure,
        >(SocketResponseView::DeletedApplication),
{
    lemma_idx_vs_has_name(s, name);
    lemma_first_idx_with_name(s.applications, name);
}

/// The settings after a whole sequence of requests has been applied, in
/// order.
pub open spec fn apply_all(s: SettingsView, reqs: Seq<SocketRequestView>) -> SettingsView
    decreases reqs.len(),
{
    if reqs.len() == 0 {
        s
    } else {
        apply_all(apply_spec(s, reqs[0]).0, reqs.skip(1))
    }
}

/// The name a creation request submits.
pub open spec fn submitted_name(r: SocketRequestView) -> Seq<char> {
    match r {
        SocketRequestView::CreateApplication { name, .. } => name,
        _ => Seq::empty(),
    }
}

/// The set of distinct names a sequence of creation requests submits.
pub open spec fn submitted_names(reqs: Seq<SocketRequestView>) -> Set<Seq<char>> {
    reqs.map(|k: int, r: SocketRequestView| submitted_name(r)).to_set()
}

/// After any sequence of creation requests, names stay unique and every
/// name in the store was there before or was submitted.
pub proof fn law_creates_bounded(s: SettingsView, reqs: Seq<SocketRequestView>)
    requires
        s.wf(),
        forall|k: int| 0 <= k < reqs.len() ==> reqs[k] is CreateApplication,
    ensures
        apply_all(s, reqs).wf(),
        name_seq(apply_all(s, reqs).applications).to_set().subset_of(
            name_seq(s.applications).to_set().union(submitted_names(reqs)),
        ),
    decreases reqs.len(),
{
    if reqs.len() == 0 {
        assert(name_seq(apply_all(s, reqs).applications).to_set().subset_of(
            name_seq(s.applications).to_set().union(submitted_names(reqs)),
        ));
    } else {
        let r0 = reqs[0];
        let s1 = apply_spec(s, r0).0;
        law_wf_preserved(s, r0);
        law_creates_bounded(s1, reqs.skip(1));
        let lhs = name_seq(apply_all(s, reqs).applications).to_set();
        let rhs = name_seq(s.applications).to_set().union(submitted_names(reqs));
        assert forall|x: Seq<char>| lhs.contains(x) implies rhs.contains(x) by {
            assert(name_seq(s1.applications).to_set().union(
                submitted_names(reqs.skip(1)),
            ).contains(x));
            if name_seq(s1.applications).to_set().contains(x) {
                let w = choose|w: int|
                    0 <= w < name_seq(s1.applications).len() && name_seq(s1.applications)[w] == x;
                assert(name_seq(s1.applications)[w] == s1.applications[w].name);
                match r0 {
                    SocketRequestView::CreateApplication { name, hostname } => {
                        if !s.has_name(name) && w == s.applications.len() {
                            assert(s1.applications[w].name == name);
                            assert(reqs.map(
                                |k: int, r: SocketRequestView| submitted_name(r),
                            )[0] == name);
                            assert(reqs.map(
                                |k: int, r: SocketRequestView| submitted_name(r),
                            ).contains(x));
                        } else {
                            assert(s1.applications[w] == s.applications[w]);
                            assert(name_seq(s.applications)[w] == x);
                            assert(name_seq(s.applications).contains(x));
                        }
                    },
                    _ => {
                        assert(s1 == s);
                        assert(name_seq(s.applications)[w] == x);
                        assert(name_seq(s.applications).contains(x));
                    },
                }
            } else {
                let m1 = reqs.skip(1).map(|k: int, r: SocketRequestView| submitted_name(r));
                let w = choose|w: int| 0 <= w < m1.len() && m1[w] == x;
                assert(m1[w] == submitted_name(reqs.skip(1)[w]));
                assert(reqs.skip(1)[w] == reqs[w + 1]);
                assert(reqs.map(|k: int, r: SocketRequestView| submitted_name(r))[w + 1] == x);
                assert(reqs.map(|k: int, r: SocketRequestView| submitted_name(r)).contains(x));
            }
        }
    }
}

/// Starting from the defaults, a sequence of creation requests leaves no
/// duplicate names behind: the store never holds more applications than
/// distinct names were submitted, however many creations repeated a name.
pub proof fn law_create_count_bound(reqs: Seq<SocketRequestView>)
    requires
        forall|k: int| 0 <= k < reqs.len() ==> reqs[k] is CreateApplication,
    ensures
        apply_all(crate::settings::default_settings(), reqs).applications.len()
            <= submitted_names(reqs).len(),
{
    let s0 = crate::settings::default_settings();
    assert(s0.wf());
    law_creates_bounded(s0, reqs);
    let apps = apply_all(s0, reqs).applications;
    let result = apply_all(s0, reqs);
    lemma_wf_is_no_duplicates(result);
    name_seq(apps).unique_seq_to_set();
    assert(name_seq(apps).len() == apps.len());
    assert(name_seq(s0.applications).len() == 0);
    assert(name_seq(s0.applications).to_set() =~= Set::<Seq<char>>::empty()) by {
        assert forall|x: Seq<char>|
            !name_seq(s0.applications).to_set().contains(x) by {
            if name_seq(s0.applications).contains(x) {
                let w = choose|w: int|
                    0 <= w < name_seq(s0.applications).len() && name_seq(s0.applications)[w] == x;
            }
        }
    }
    assert(name_seq(s0.applications).to_set().union(submitted_names(reqs)) =~= submitted_names(
        reqs,
    ));
    let mapped = reqs.map(|k: int, r: SocketRequestView| submitted_name(r));
    vstd::seq_lib::seq_to_set_is_finite(mapped);
    vstd::set_lib::lemma_len_subset(name_seq(apps).to_set(), submitted_names(reqs));
}

} // verus!
