//! The configuration model: the list of hosted applications, the public
//! listen port, and the dashboard and registry hostnames.

use vstd::prelude::*;

verus! {

/// An IPv4 socket address, held as four octets and a port so that the
/// routing and persistence logic can reason about it as plain values.
#[derive(Clone, Copy, PartialEq, Eq, Structural, Debug)]
pub struct Address {
    pub octet_a: u8,
    pub octet_b: u8,
    pub octet_c: u8,
    pub octet_d: u8,
    pub port: u16,
}

/// One hosted application. `name` is the unique key, `hostname` is the
/// routing key, and `address` stays absent until an external process
/// resolves a backend for the application; while absent, the router
/// serves a placeholder page.
#[derive(Clone, Debug, PartialEq, Eq)]
pub struct Application {
    pub name: String,
    pub hostname: String,
    pub address: Option<Address>,
}

/// The mathematical value of an [`Application`].
#[verifier::ext_equal]
pub struct ApplicationView {
    pub name: Seq<char>,
    pub hostname: Seq<char>,
    pub address: Option<Address>,
}

impl View for Application {
    type V = ApplicationView;

    open spec fn view(&self) -> ApplicationView {
        ApplicationView { name: self.name@, hostname: self.hostname@, address: self.address }
    }
}

/// Settings of the dashboard sub-application: the hostname it is served on.
#[derive(Clone, Debug, PartialEq, Eq)]
pub struct DashboardSettings {
    pub hostname: String,
}

/// Settings of the registry sub-application: the hostname it is served on.
#[derive(Clone, Debug, PartialEq, Eq)]
pub struct RegistrySettings {
    pub hostname: String,
}

/// The daemon's settings: everything the control channel can read or change.
#[derive(Clone, Debug, PartialEq, Eq)]
pub struct Settings {
    pub applications: Vec<Application>,
    pub server_port: u16,
    pub dashboard: DashboardSettings,
    pub registry: RegistrySettings,
}

/// The mathematical value of [`Settings`].
#[verifier::ext_equal]
pub struct SettingsView {
    pub applications: Seq<ApplicationView>,
    pub server_port: u16,
    pub dashboard_hostname: Seq<char>,
    pub registry_hostname: Seq<char>,
}

/// The views of a list of applications, in order.
pub open spec fn views_of(apps: Seq<Application>) -> Seq<ApplicationView> {
    apps.map(|i: int, a: Application| a@)
}

impl View for Settings {
    type V = SettingsView;

    open spec fn view(&self) -> SettingsView {
        SettingsView {
            applications: views_of(self.applications@),
            server_port: self.server_port,
            dashboard_hostname: self.dashboard.hostname@,
            registry_hostname: self.registry.hostname@,
        }
    }
}

impl SettingsView {
    /// Application names are unique: the invariant every mutation preserves.
    pub open spec fn wf(self) -> bool {
        forall|i: int, j: int|
            0 <= i < j < self.applications.len() ==> self.applications[i].name
                != self.applications[j].name
    }

    /// Whether some application carries the given name.
    pub open spec fn has_name(self, name: Seq<char>) -> bool {
        exists|i: int| 0 <= i < self.applications.len() && self.applications[i].name == name
    }
}

/// The position of the first application carrying `name`, or the list's
/// length when no application does.
pub open spec fn first_idx_with_name(apps: Seq<ApplicationView>, name: Seq<char>) -> int
    decreases apps.len(),
{
    if apps.len() == 0 {
        0
    } else if apps[0].name == name {
        0
    } else {
        1 + first_idx_with_name(apps.skip(1), name)
    }
}

/// The position of the first application carrying `hostname`, or the list's
/// length when no application does. The router uses list order to break ties.
pub open spec fn first_idx_with_hostname(apps: Seq<ApplicationView>, hostname: Seq<char>) -> int
    decreases apps.len(),
{
    if apps.len() == 0 {
        0
    } else if apps[0].hostname == hostname {
        0
    } else {
        1 + first_idx_with_hostname(apps.skip(1), hostname)
    }
}

/// `first_idx_with_name` returns exactly the position that a front-to-back
/// scan finds: everything before it misses, and it hits unless it is the
/// length.
pub proof fn lemma_first_idx_with_name(apps: Seq<ApplicationView>, name: Seq<char>)
    ensures
        0 <= first_idx_with_name(apps, name) <= apps.len(),
        first_idx_with_name(apps, name) < apps.len() ==> apps[first_idx_with_name(apps, name)].name
            == name,
        forall|q: int|
            0 <= q < first_idx_with_name(apps, name) ==> apps[q].name != name,
    decreases apps.len(),
{
    if apps.len() > 0 && apps[0].name != name {
        lemma_first_idx_with_name(apps.skip(1), name);
        assert forall|q: int| 0 <= q < first_idx_with_name(apps, name) implies apps[q].name
            != name by {
            if q > 0 {
                assert(apps.skip(1)[q - 1] == apps[q]);
            }
        }
    }
}

/// A scan that stopped at `i` stopped at `first_idx_with_name`.
pub proof fn lemma_first_idx_with_name_is(apps: Seq<ApplicationView>, name: Seq<char>, i: int)
    requires
        0 <= i <= apps.len(),
        i < apps.len() ==> apps[i].name == name,
        forall|q: int| 0 <= q < i ==> apps[q].name != name,
    ensures
        first_idx_with_name(apps, name) == i,
    decreases apps.len(),
{
    if apps.len() > 0 && apps[0].name != name {
        assert(i > 0);
        lemma_first_idx_with_name_is(apps.skip(1), name, i - 1);
    }
}

/// The same, for hostnames.
pub proof fn lemma_first_idx_with_hostname_is(apps: Seq<ApplicationView>, h: Seq<char>, i: int)
    requires
        0 <= i <= apps.len(),
        i < apps.len() ==> apps[i].hostname == h,
        forall|q: int| 0 <= q < i ==> apps[q].hostname != h,
    ensures
        first_idx_with_hostname(apps, h) == i,
    decreases apps.len(),
{
    if apps.len() > 0 && apps[0].hostname != h {
        assert(i > 0);
        lemma_first_idx_with_hostname_is(apps.skip(1), h, i - 1);
    }
}

/// Taking views commutes with appending an application.
pub proof fn lemma_views_push(apps: Seq<Application>, x: Application)
    ensures
        views_of(apps.push(x)) == views_of(apps).push(x@),
{
    assert(views_of(apps.push(x)) =~= views_of(apps).push(x@));
}

/// Taking views commutes with replacing an application.
pub proof fn lemma_views_update(apps: Seq<Application>, i: int, x: Application)
    requires
        0 <= i < apps.len(),
    ensures
        views_of(apps.update(i, x)) == views_of(apps).update(i, x@),
{
    assert(views_of(apps.update(i, x)) =~= views_of(apps).update(i, x@));
}

/// Taking views commutes with removing an application.
pub proof fn lemma_views_remove(apps: Seq<Application>, i: int)
    requires
        0 <= i < apps.len(),
    ensures
        views_of(apps.remove(i)) == views_of(apps).remove(i),
{
    assert(views_of(apps.remove(i)) =~= views_of(apps).remove(i));
}

impl Application {
    /// A deep copy, so callers never share live references with the store.
    pub fn duplicate(&self) -> (r: Application)
        ensures
            r@ == self@,
    {
        Application {
            name: self.name.clone(),
            hostname: self.hostname.clone(),
            address: self.address,
        }
    }
}

impl Settings {
    /// A deep copy of the whole settings value: what the store's readers get,
    /// so that no reader ever observes a later mutation.
    pub fn snapshot(&self) -> (r: Settings)
        ensures
            r@ == self@,
    {
        let applications = duplicate_apps(&self.applications);
        let r = Settings {
            applications,
            server_port: self.server_port,
            dashboard: DashboardSettings { hostname: self.dashboard.hostname.clone() },
            registry: RegistrySettings { hostname: self.registry.hostname.clone() },
        };
        proof {
            assert(r@ =~= self@);
        }
        r
    }
}

/// A deep copy of a list of applications, preserving its view.
pub fn duplicate_apps(apps: &Vec<Application>) -> (r: Vec<Application>)
    ensures
        views_of(r@) == views_of(apps@),
{
    let mut out: Vec<Application> = Vec::new();
    let mut k: usize = 0;
    while k < apps.len()
        invariant
            0 <= k <= apps.len(),
            views_of(out@) =~= views_of(apps@).take(k as int),
        decreases apps.len() - k,
    {
        let ghost prev = out@;
        let copy = apps[k].duplicate();
        proof {
            assert(copy@ == views_of(apps@)[k as int]);
        }
        out.push(copy);
        proof {
            assert(out@ == prev.push(copy));
            assert(views_of(prev).len() == prev.len());
            assert(prev.len() == k);
            assert forall|q: int| 0 <= q < k + 1 implies #[trigger] views_of(out@)[q] == views_of(
                apps@,
            ).take(k + 1)[q] by {
                assert(views_of(out@)[q] == out@[q]@);
                if q < k {
                    assert(out@[q] == prev[q]);
                    assert(views_of(prev)[q] == prev[q]@);
                } else {
                    assert(out@[q] == copy);
                }
            }
            assert(views_of(out@).len() == out@.len() == k + 1);
            assert(views_of(out@) =~= views_of(apps@).take(k + 1));
        }
        k = k + 1;
    }
    proof {
        assert(views_of(apps@).take(apps@.len() as int) =~= views_of(apps@));
    }
    out
}

/// The hard-coded fallback used when no configuration file exists yet.
pub open spec fn default_settings() -> SettingsView {
    SettingsView {
        applications: Seq::empty(),
        server_port: 4250,
        dashboard_hostname: "sail.jensmeindertsma.com"@,
        registry_hostname: "registry.jensmeindertsma.com"@,
    }
}

impl Default for Settings {
    /// The defaults: no applications, the default port, and the two
    /// built-in hostnames.
    fn default() -> (r: Self)
        ensures
            r@ == default_settings(),
            r@.wf(),
    {
        let r = Settings {
            applications: Vec::new(),
            server_port: 4250,
            dashboard: DashboardSettings { hostname: "sail.jensmeindertsma.com".to_owned() },
            registry: RegistrySettings { hostname: "registry.jensmeindertsma.com".to_owned() },
        };
        proof {
            assert(r@.applications =~= default_settings().applications);
            assert(r@ =~= default_settings());
        }
        r
    }
}

} // verus!
