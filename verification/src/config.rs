//! The configuration file format.
//!
//! Settings are persisted as a single JSON-shaped text record. The printer
//! emits a canonical compact form; the parser tolerates whitespace between
//! tokens, so the file stays human-editable. The round-trip law proves that
//! a settings value persisted and reloaded is reproduced exactly.

use crate::settings::Address;
use crate::settings::Application;
use crate::settings::ApplicationView;
use crate::settings::DashboardSettings;
use crate::settings::RegistrySettings;
use crate::settings::Settings;
use crate::settings::SettingsView;
use crate::wire::dec_digits;
use crate::wire::enc_string;
use crate::wire::eat_lit;
use crate::wire::p_string;
use crate::wire::p_u64;
use crate::wire::skip_ws;
use crate::wire::skip_ws_at;
use crate::wire::sp_lit;
use crate::wire::sp_string;
use crate::wire::sp_u64;
use crate::wire::write_string;
use crate::wire::write_u64;
use vstd::prelude::*;

verus! {

// ---------------------------------------------------------------------------
// Printers (specification level)
// ---------------------------------------------------------------------------

/// An attached backend address is printed as a five-element array.
pub open spec fn enc_address(ad: Address) -> Seq<char> {
    "["@ + dec_digits(ad.octet_a as nat) + ","@ + dec_digits(ad.octet_b as nat) + ","@
        + dec_digits(ad.octet_c as nat) + ","@ + dec_digits(ad.octet_d as nat) + ","@ + dec_digits(
        ad.port as nat,
    ) + "]"@
}

/// An absent address is printed as `null`.
pub open spec fn enc_opt_address(a: Option<Address>) -> Seq<char> {
    match a {
        None => "null"@,
        Some(ad) => enc_address(ad),
    }
}

/// One application record.
pub open spec fn enc_app(a: ApplicationView) -> Seq<char> {
    "{\"name\":"@ + enc_string(a.name) + ",\"hostname\":"@ + enc_string(a.hostname)
        + ",\"address\":"@ + enc_opt_address(a.address) + "}"@
}

/// The elements after the first of an application list, each preceded by a
/// comma, up to and including the closing bracket.
pub open spec fn enc_apps_rest(list: Seq<ApplicationView>) -> Seq<char>
    decreases list.len(),
{
    if list.len() == 0 {
        "]"@
    } else {
        ","@ + enc_app(list[0]) + enc_apps_rest(list.skip(1))
    }
}

/// A full application list.
pub open spec fn enc_apps(list: Seq<ApplicationView>) -> Seq<char> {
    if list.len() == 0 {
        "[]"@
    } else {
        "["@ + enc_app(list[0]) + enc_apps_rest(list.skip(1))
    }
}

/// The whole settings record.
pub open spec fn enc_settings(s: SettingsView) -> Seq<char> {
    "{\"applications\":"@ + enc_apps(s.applications) + ",\"server_port\":"@ + dec_digits(
        s.server_port as nat,
    ) + ",\"dashboard\":{\"hostname\":"@ + enc_string(s.dashboard_hostname)
        + "},\"registry\":{\"hostname\":"@ + enc_string(s.registry_hostname) + "}}"@
}

// ---------------------------------------------------------------------------
// Parsers (specification level)
// ---------------------------------------------------------------------------

/// Parses a number no larger than `max`, then the literal `delim`.
pub open spec fn sp_bounded_then(t: Seq<char>, max: u64, delim: Seq<char>) -> Option<
    (u64, Seq<char>),
> {
    match sp_u64(skip_ws(t)) {
        Some((v, r)) => if v <= max {
            match sp_lit(skip_ws(r), delim) {
                Some(r2) => Some((v, r2)),
                None => None,
            }
        } else {
            None
        },
        None => None,
    }
}

/// Parses an optional address: `null` or a five-element array.
pub open spec fn sp_opt_address(t: Seq<char>) -> Option<(Option<Address>, Seq<char>)> {
    let t0 = skip_ws(t);
    if t0.len() > 0 && t0[0] == 'n' {
        match sp_lit(t0, "null"@) {
            Some(r) => Some((None, r)),
            None => None,
        }
    } else {
        match sp_lit(t0, "["@) {
            Some(r1) => match sp_bounded_then(r1, 255, ","@) {
                Some((a, r2)) => match sp_bounded_then(r2, 255, ","@) {
                    Some((b, r3)) => match sp_bounded_then(r3, 255, ","@) {
                        Some((c, r4)) => match sp_bounded_then(r4, 255, ","@) {
                            Some((d, r5)) => match sp_bounded_then(r5, 65535, "]"@) {
                                Some((p, r6)) => Some(
                                    (
                                        Some(
                                            Address {
                                                octet_a: a as u8,
                                                octet_b: b as u8,
                                                octet_c: c as u8,
                                                octet_d: d as u8,
                                                port: p as u16,
                                            },
                                        ),
                                        r6,
                                    ),
                                ),
                                None => None,
                            },
                            None => None,
                        },
                        None => None,
                    },
                    None => None,
                },
                None => None,
            },
            None => None,
        }
    }
}

/// Parses one application record.
pub open spec fn sp_app(t: Seq<char>) -> Option<(ApplicationView, Seq<char>)> {
    match sp_lit(skip_ws(t), "{\"name\":"@) {
        Some(r1) => match sp_string(skip_ws(r1)) {
            Some((name, r2)) => match sp_lit(skip_ws(r2), ",\"hostname\":"@) {
                Some(r3) => match sp_string(skip_ws(r3)) {
                    Some((hostname, r4)) => match sp_lit(skip_ws(r4), ",\"address\":"@) {
                        Some(r5) => match sp_opt_address(r5) {
                            Some((address, r6)) => match sp_lit(skip_ws(r6), "}"@) {
                                Some(r7) => Some(
                                    (ApplicationView { name, hostname, address }, r7),
                                ),
                                None => None,
                            },
                            None => None,
                        },
                        None => None,
                    },
                    None => None,
                },
                None => None,
            },
            None => None,
        },
        None => None,
    }
}

/// Parses the elements after the first of an application list: either the
/// closing bracket, or a comma and a further record.
pub open spec fn sp_apps_rest(t: Seq<char>) -> Option<(Seq<ApplicationView>, Seq<char>)>
    decreases t.len(),
{
    let t0 = skip_ws(t);
    if t0.len() > 0 && t0[0] == ']' {
        Some((Seq::empty(), t0.skip(1)))
    } else if t0.len() > 0 && t0[0] == ',' {
        match sp_app(t0.skip(1)) {
            Some((a, r)) => if r.len() < t.len() {
                match sp_apps_rest(r) {
                    Some((more, rr)) => Some((seq![a] + more, rr)),
                    None => None,
                }
            } else {
                None
            },
            None => None,
        }
    } else {
        None
    }
}

/// Parses a full application list.
pub open spec fn sp_apps(t: Seq<char>) -> Option<(Seq<ApplicationView>, Seq<char>)> {
    match sp_lit(skip_ws(t), "["@) {
        Some(r) => {
            let r0 = skip_ws(r);
            if r0.len() > 0 && r0[0] == ']' {
                Some((Seq::empty(), r0.skip(1)))
            } else {
                match sp_app(r) {
                    Some((a, r1)) => match sp_apps_rest(r1) {
                        Some((more, rr)) => Some((seq![a] + more, rr)),
                        None => None,
                    },
                    None => None,
                }
            }
        },
        None => None,
    }
}

/// Parses the whole settings record.
pub open spec fn sp_settings(t: Seq<char>) -> Option<(SettingsView, Seq<char>)> {
    match sp_lit(skip_ws(t), "{\"applications\":"@) {
        Some(r1) => match sp_apps(r1) {
            Some((apps, r2)) => match sp_lit(skip_ws(r2), ",\"server_port\":"@) {
                Some(r3) => match sp_u64(skip_ws(r3)) {
                    Some((port, r4)) => if port <= 65535 {
                        match sp_lit(skip_ws(r4), ",\"dashboard\":{\"hostname\":"@) {
                            Some(r5) => match sp_string(skip_ws(r5)) {
                                Some((dash, r6)) => match sp_lit(
                                    skip_ws(r6),
                                    "},\"registry\":{\"hostname\":"@,
                                ) {
                                    Some(r7) => match sp_string(skip_ws(r7)) {
                                        Some((reg, r8)) => match sp_lit(skip_ws(r8), "}}"@) {
                                            Some(r9) => Some(
                                                (
                                                    SettingsView {
                                                        applications: apps,
                                                        server_port: port as u16,
                                                        dashboard_hostname: dash,
                                                        registry_hostname: reg,
                                                    },
                                                    r9,
                                                ),
                                            ),
                                            None => None,
                                        },
                                        None => None,
                                    },
                                    None => None,
                                },
                                None => None,
                            },
                            None => None,
                        }
                    } else {
                        None
                    },
                    None => None,
                },
                None => None,
            },
            None => None,
        },
        None => None,
    }
}

/// Parses a whole configuration file: one settings record and then nothing
/// but whitespace.
pub open spec fn sp_settings_text(t: Seq<char>) -> Option<SettingsView> {
    match sp_settings(t) {
        Some((s, rest)) => if skip_ws(rest).len() == 0 {
            Some(s)
        } else {
            None
        },
        None => None,
    }
}

// ---------------------------------------------------------------------------
// Printers (executable)
// ---------------------------------------------------------------------------

/// Appends the printed form of an optional address.
pub(crate) fn write_opt_address(out: &mut String, a: &Option<Address>)
    ensures
        final(out)@ == old(out)@ + enc_opt_address(*a),
{
    match a {
        None => out.append("null"),
        Some(ad) => {
            out.append("[");
            write_u64(out, ad.octet_a as u64);
            out.append(",");
            write_u64(out, ad.octet_b as u64);
            out.append(",");
            write_u64(out, ad.octet_c as u64);
            out.append(",");
            write_u64(out, ad.octet_d as u64);
            out.append(",");
            write_u64(out, ad.port as u64);
            out.append("]");
            proof {
                assert(out@ =~= old(out)@ + enc_address(*ad));
            }
        },
    }
}

/// Appends the printed form of one application record.
pub(crate) fn write_app(out: &mut String, a: &Application)
    ensures
        final(out)@ == old(out)@ + enc_app(a@),
{
    out.append("{\"name\":");
    write_string(out, a.name.as_str());
    out.append(",\"hostname\":");
    write_string(out, a.hostname.as_str());
    out.append(",\"address\":");
    write_opt_address(out, &a.address);
    out.append("}");
    proof {
        assert(out@ =~= old(out)@ + enc_app(a@));
    }
}

/// Appends the printed form of an application list.
#[verifier::loop_isolation(false)]
pub(crate) fn write_apps(out: &mut String, list: &Vec<Application>)
    ensures
        final(out)@ == old(out)@ + enc_apps(crate::settings::views_of(list@)),
{
    let ghost view_list = crate::settings::views_of(list@);
    if list.len() == 0 {
        out.append("[]");
        return ;
    }
    out.append("[");
    write_app(out, &list[0]);
    let mut k: usize = 1;
    while k < list.len()
        invariant
            1 <= k <= list.len(),
            out@ == old(out)@ + "["@ + enc_app(view_list[0]) + middle_of(view_list, k as int),
        decreases list.len() - k,
    {
        out.append(",");
        write_app(out, &list[k]);
        proof {
            assert(out@ =~= old(out)@ + "["@ + enc_app(view_list[0]) + middle_of(
                view_list,
                k + 1,
            ));
        }
        k = k + 1;
    }
    out.append("]");
    proof {
        lemma_middle_closes(view_list, k as int);
        assert(out@ =~= old(out)@ + enc_apps(view_list));
    }
}

/// The printed form of elements `1..k` of a list, commas included, without
/// the closing bracket.
pub open spec fn middle_of(list: Seq<ApplicationView>, k: int) -> Seq<char>
    decreases k,
{
    if k <= 1 {
        Seq::empty()
    } else {
        middle_of(list, k - 1) + ","@ + enc_app(list[k - 1])
    }
}

/// Closing the printed middle of a list yields the printed rest of the list.
proof fn lemma_middle_closes(list: Seq<ApplicationView>, k: int)
    requires
        1 <= k == list.len(),
    ensures
        middle_of(list, k) + "]"@ == enc_apps_rest(list.skip(1)),
{
    lemma_middle_general(list, 1);
}

/// `enc_apps_rest` of a tail equals the remaining middle plus the bracket.
proof fn lemma_middle_general(list: Seq<ApplicationView>, j: int)
    requires
        1 <= j <= list.len(),
    ensures
        middle_of(list, list.len() as int) + "]"@ == middle_of(list, j) + enc_apps_rest(
            list.skip(j),
        ),
    decreases list.len() - j,
{
    if j == list.len() {
        assert(list.skip(j).len() == 0);
        assert(middle_of(list, j) + enc_apps_rest(list.skip(j)) =~= middle_of(list, j) + "]"@);
    } else {
        lemma_middle_general(list, j + 1);
        assert(list.skip(j)[0] == list[j]);
        assert(list.skip(j).skip(1) =~= list.skip(j + 1));
        assert(middle_of(list, j + 1) =~= middle_of(list, j) + ","@ + enc_app(list[j]));
        assert(middle_of(list, j) + (","@ + enc_app(list[j]) + enc_apps_rest(list.skip(j + 1)))
            =~= (middle_of(list, j) + ","@ + enc_app(list[j])) + enc_apps_rest(list.skip(j + 1)));
    }
}

/// Prints the whole settings record.
pub fn render_settings(settings: &Settings) -> (r: String)
    ensures
        r@ == enc_settings(settings@),
{
    let mut out = String::new();
    out.append("{\"applications\":");
    write_apps(&mut out, &settings.applications);
    out.append(",\"server_port\":");
    write_u64(&mut out, settings.server_port as u64);
    out.append(",\"dashboard\":{\"hostname\":");
    write_string(&mut out, settings.dashboard.hostname.as_str());
    out.append("},\"registry\":{\"hostname\":");
    write_string(&mut out, settings.registry.hostname.as_str());
    out.append("}}");
    proof {
        assert(out@ =~= enc_settings(settings@));
    }
    out
}

// ---------------------------------------------------------------------------
// Round trip: the parser inverts the printer
// ---------------------------------------------------------------------------

/// A printed bounded number and its delimiter parse back exactly.
proof fn lemma_bounded_step(n: u64, max: u64, delim: Seq<char>, x: Seq<char>)
    requires
        n <= max,
        delim.len() > 0,
        !crate::wire::is_ws(delim[0]),
        !crate::wire::is_digit(delim[0]),
    ensures
        sp_bounded_then(dec_digits(n as nat) + delim + x, max, delim) == Some((n, x)),
{
    let tail = delim + x;
    assert(dec_digits(n as nat) + delim + x =~= dec_digits(n as nat) + tail);
    assert(tail[0] == delim[0]);
    crate::wire::lemma_u64_step(n, tail);
    crate::wire::lemma_lit_step(delim, x);
}

/// A printed optional address parses back exactly.
#[verifier::rlimit(60)]
pub proof fn lemma_opt_address_roundtrip(a: Option<Address>, rest: Seq<char>)
    ensures
        sp_opt_address(enc_opt_address(a) + rest) == Some((a, rest)),
{
    reveal_strlit("null");
    reveal_strlit("[");
    reveal_strlit(",");
    reveal_strlit("]");
    match a {
        None => {
            let t = "null"@ + rest;
            assert(t[0] == 'n');
            crate::wire::lemma_skip_ws_no_ws(t);
            crate::wire::lemma_sp_lit_roundtrip("null"@, rest);
        },
        Some(ad) => {
            let da = dec_digits(ad.octet_a as nat);
            let db = dec_digits(ad.octet_b as nat);
            let dc = dec_digits(ad.octet_c as nat);
            let dd = dec_digits(ad.octet_d as nat);
            let dp = dec_digits(ad.port as nat);
            let t5 = dp + "]"@ + rest;
            let t4 = dd + ","@ + t5;
            let t3 = dc + ","@ + t4;
            let t2 = db + ","@ + t3;
            let t1 = da + ","@ + t2;
            let t0 = "["@ + t1;
            assert(enc_opt_address(a) + rest =~= t0);
            assert(t0[0] == '[');
            crate::wire::lemma_skip_ws_no_ws(t0);
            crate::wire::lemma_sp_lit_roundtrip("["@, t1);
            lemma_bounded_step(ad.octet_a as u64, 255, ","@, t2);
            lemma_bounded_step(ad.octet_b as u64, 255, ","@, t3);
            lemma_bounded_step(ad.octet_c as u64, 255, ","@, t4);
            lemma_bounded_step(ad.octet_d as u64, 255, ","@, t5);
            lemma_bounded_step(ad.port as u64, 65535, "]"@, rest);
        },
    }
}

/// A printed application record parses back exactly.
pub proof fn lemma_app_roundtrip(a: ApplicationView, rest: Seq<char>)
    ensures
        sp_app(enc_app(a) + rest) == Some((a, rest)),
{
    reveal_strlit("{\"name\":");
    reveal_strlit(",\"hostname\":");
    reveal_strlit(",\"address\":");
    reveal_strlit("}");
    let t6 = "}"@ + rest;
    let t5 = enc_opt_address(a.address) + t6;
    let t4 = ",\"address\":"@ + t5;
    let t3 = enc_string(a.hostname) + t4;
    let t2 = ",\"hostname\":"@ + t3;
    let t1 = enc_string(a.name) + t2;
    let t0 = "{\"name\":"@ + t1;
    assert(enc_app(a) + rest =~= t0);
    crate::wire::lemma_lit_step("{\"name\":"@, t1);
    crate::wire::lemma_string_step(a.name, t2);
    crate::wire::lemma_lit_step(",\"hostname\":"@, t3);
    crate::wire::lemma_string_step(a.hostname, t4);
    crate::wire::lemma_lit_step(",\"address\":"@, t5);
    lemma_opt_address_roundtrip(a.address, t6);
    crate::wire::lemma_lit_step("}"@, rest);
    assert(sp_app(t0).unwrap().0 =~= a);
}

/// The tail of a printed application list parses back exactly.
#[verifier::rlimit(60)]
pub proof fn lemma_apps_rest_roundtrip(list: Seq<ApplicationView>, rest: Seq<char>)
    ensures
        sp_apps_rest(enc_apps_rest(list) + rest) == Some((list, rest)),
    decreases list.len(),
{
    reveal_strlit("]");
    reveal_strlit(",");
    reveal_strlit("{\"name\":");
    if list.len() == 0 {
        let t = "]"@ + rest;
        assert(t[0] == ']');
        crate::wire::lemma_skip_ws_no_ws(t);
        assert(t.skip(1) =~= rest);
        assert(sp_apps_rest(enc_apps_rest(list) + rest) == Some(
            (Seq::<ApplicationView>::empty(), rest),
        ));
        assert(Seq::<ApplicationView>::empty() =~= list);
    } else {
        let tail = enc_apps_rest(list.skip(1)) + rest;
        let t = ","@ + (enc_app(list[0]) + tail);
        assert(enc_apps_rest(list) + rest =~= t);
        assert(t[0] == ',');
        crate::wire::lemma_skip_ws_no_ws(t);
        assert(t.skip(1) =~= enc_app(list[0]) + tail);
        lemma_app_roundtrip(list[0], tail);
        assert(tail.len() < t.len());
        lemma_apps_rest_roundtrip(list.skip(1), rest);
        assert(seq![list[0]] + list.skip(1) =~= list);
    }
}

/// A printed application list parses back exactly.
pub proof fn lemma_apps_roundtrip(list: Seq<ApplicationView>, rest: Seq<char>)
    ensures
        sp_apps(enc_apps(list) + rest) == Some((list, rest)),
{
    reveal_strlit("[");
    reveal_strlit("[]");
    reveal_strlit("]");
    reveal_strlit("{\"name\":");
    if list.len() == 0 {
        let t = "[]"@ + rest;
        assert(t[0] == '[');
        crate::wire::lemma_skip_ws_no_ws(t);
        assert(t.take(1) =~= "["@);
        assert(t.skip(1) =~= "]"@ + rest);
        let r = "]"@ + rest;
        assert(r[0] == ']');
        crate::wire::lemma_skip_ws_no_ws(r);
        assert(r.skip(1) =~= rest);
        assert(sp_apps(enc_apps(list) + rest) == Some((Seq::<ApplicationView>::empty(), rest)));
        assert(Seq::<ApplicationView>::empty() =~= list);
    } else {
        let tail = enc_apps_rest(list.skip(1)) + rest;
        let t1 = enc_app(list[0]) + tail;
        let t = "["@ + t1;
        assert(enc_apps(list) + rest =~= t);
        crate::wire::lemma_lit_step("["@, t1);
        assert(t1[0] == '{');
        crate::wire::lemma_skip_ws_no_ws(t1);
        lemma_app_roundtrip(list[0], tail);
        lemma_apps_rest_roundtrip(list.skip(1), rest);
        assert(seq![list[0]] + list.skip(1) =~= list);
    }
}

/// A printed settings record parses back exactly.
pub proof fn lemma_settings_roundtrip(s: SettingsView, rest: Seq<char>)
    ensures
        sp_settings(enc_settings(s) + rest) == Some((s, rest)),
{
    reveal_strlit("{\"applications\":");
    reveal_strlit(",\"server_port\":");
    reveal_strlit(",\"dashboard\":{\"hostname\":");
    reveal_strlit("},\"registry\":{\"hostname\":");
    reveal_strlit("}}");
    let t8 = "}}"@ + rest;
    let t7 = enc_string(s.registry_hostname) + t8;
    let t6 = "},\"registry\":{\"hostname\":"@ + t7;
    let t5 = enc_string(s.dashboard_hostname) + t6;
    let t4 = ",\"dashboard\":{\"hostname\":"@ + t5;
    let t3 = dec_digits(s.server_port as nat) + t4;
    let t2 = ",\"server_port\":"@ + t3;
    let t1 = enc_apps(s.applications) + t2;
    let t0 = "{\"applications\":"@ + t1;
    assert(enc_settings(s) + rest =~= t0);
    crate::wire::lemma_lit_step("{\"applications\":"@, t1);
    lemma_apps_roundtrip(s.applications, t2);
    crate::wire::lemma_lit_step(",\"server_port\":"@, t3);
    assert(t4[0] == ',');
    crate::wire::lemma_u64_step(s.server_port as u64, t4);
    crate::wire::lemma_lit_step(",\"dashboard\":{\"hostname\":"@, t5);
    crate::wire::lemma_string_step(s.dashboard_hostname, t6);
    crate::wire::lemma_lit_step("},\"registry\":{\"hostname\":"@, t7);
    crate::wire::lemma_string_step(s.registry_hostname, t8);
    crate::wire::lemma_lit_step("}}"@, rest);
    assert(sp_settings(t0).unwrap().0 =~= s);
}

/// Round trip: a settings value persisted and then reloaded is reproduced
/// exactly — the parsed configuration file equals the settings it was
/// rendered from.
pub proof fn lemma_settings_text_roundtrip(s: SettingsView)
    ensures
        sp_settings_text(enc_settings(s)) == Some(s),
{
    lemma_settings_roundtrip(s, Seq::empty());
    assert(enc_settings(s) + Seq::<char>::empty() =~= enc_settings(s));
    assert(skip_ws(Seq::<char>::empty()).len() == 0);
}

// ---------------------------------------------------------------------------
// Parsers (executable)
// ---------------------------------------------------------------------------

/// Parses a number no larger than `max` and the delimiter after it.
fn p_bounded_then(s: &str, i: usize, max: u64, delim: &str) -> (r: Option<(u64, usize)>)
    requires
        i <= s@.len(),
    ensures
        match r {
            Some((v, j)) => i < j <= s@.len() && sp_bounded_then(s@.skip(i as int), max, delim@)
                == Some((v, s@.skip(j as int))),
            None => sp_bounded_then(s@.skip(i as int), max, delim@) is None,
        },
{
    match p_u64(s, i) {
        Some((v, j1)) => {
            if v > max {
                return None;
            }
            match eat_lit(s, j1, delim) {
                Some(j2) => Some((v, j2)),
                None => None,
            }
        },
        None => None,
    }
}

/// Parses an optional address.
pub(crate) fn p_opt_address(s: &str, i: usize) -> (r: Option<(Option<Address>, usize)>)
    requires
        i <= s@.len(),
    ensures
        match r {
            Some((v, j)) => i < j <= s@.len() && sp_opt_address(s@.skip(i as int)) == Some(
                (v, s@.skip(j as int)),
            ),
            None => sp_opt_address(s@.skip(i as int)) is None,
        },
{
    let start = skip_ws_at(s, i);
    let n = s.unicode_len();
    let is_null = start < n && s.get_char(start) == 'n';
    proof {
        if start < n {
            assert(s@.skip(start as int)[0] == s@[start as int]);
        }
    }
    if is_null {
        proof {
            reveal_strlit("null");
        }
        match eat_lit(s, i, "null") {
            Some(j) => Some((None, j)),
            None => None,
        }
    } else {
        let j1 = match eat_lit(s, i, "[") {
            Some(j) => j,
            None => {
                return None;
            },
        };
        let (a, j2) = match p_bounded_then(s, j1, 255, ",") {
            Some(x) => x,
            None => {
                return None;
            },
        };
        let (b, j3) = match p_bounded_then(s, j2, 255, ",") {
            Some(x) => x,
            None => {
                return None;
            },
        };
        let (c, j4) = match p_bounded_then(s, j3, 255, ",") {
            Some(x) => x,
            None => {
                return None;
            },
        };
        let (d, j5) = match p_bounded_then(s, j4, 255, ",") {
            Some(x) => x,
            None => {
                return None;
            },
        };
        let (p, j6) = match p_bounded_then(s, j5, 65535, "]") {
            Some(x) => x,
            None => {
                return None;
            },
        };
        Some(
            (
                Some(
                    Address {
                        octet_a: a as u8,
                        octet_b: b as u8,
                        octet_c: c as u8,
                        octet_d: d as u8,
                        port: p as u16,
                    },
                ),
                j6,
            ),
        )
    }
}

/// Parses one application record.
pub(crate) fn p_app(s: &str, i: usize) -> (r: Option<(Application, usize)>)
    requires
        i <= s@.len(),
    ensures
        match r {
            Some((v, j)) => i < j <= s@.len() && sp_app(s@.skip(i as int)) == Some(
                (v@, s@.skip(j as int)),
            ),
            None => sp_app(s@.skip(i as int)) is None,
        },
{
    let j1 = match eat_lit(s, i, "{\"name\":") {
        Some(j) => j,
        None => {
            return None;
        },
    };
    let (name, j2) = match p_string(s, j1) {
        Some(x) => x,
        None => {
            return None;
        },
    };
    let j3 = match eat_lit(s, j2, ",\"hostname\":") {
        Some(j) => j,
        None => {
            return None;
        },
    };
    let (hostname, j4) = match p_string(s, j3) {
        Some(x) => x,
        None => {
            return None;
        },
    };
    let j5 = match eat_lit(s, j4, ",\"address\":") {
        Some(j) => j,
        None => {
            return None;
        },
    };
    let (address, j6) = match p_opt_address(s, j5) {
        Some(x) => x,
        None => {
            return None;
        },
    };
    let j7 = match eat_lit(s, j6, "}") {
        Some(j) => j,
        None => {
            return None;
        },
    };
    Some((Application { name, hostname, address }, j7))
}

/// Parses a full application list.
#[verifier::loop_isolation(false)]
pub(crate) fn p_apps(s: &str, i: usize) -> (r: Option<(Vec<Application>, usize)>)
    requires
        i <= s@.len(),
    ensures
        match r {
            Some((v, j)) => i < j <= s@.len() && sp_apps(s@.skip(i as int)) == Some(
                (crate::settings::views_of(v@), s@.skip(j as int)),
            ),
            None => sp_apps(s@.skip(i as int)) is None,
        },
{
    let j1 = match eat_lit(s, i, "[") {
        Some(j) => j,
        None => {
            return None;
        },
    };
    let start = skip_ws_at(s, j1);
    let n = s.unicode_len();
    proof {
        if start < n {
            assert(s@.skip(start as int)[0] == s@[start as int]);
        }
    }
    if start < n && s.get_char(start) == ']' {
        let mut list: Vec<Application> = Vec::new();
        proof {
            assert(s@.skip(start as int).skip(1) =~= s@.skip(start + 1));
            assert(crate::settings::views_of(list@) =~= Seq::<ApplicationView>::empty());
        }
        return Some((list, start + 1));
    }
    let (first, j2) = match p_app(s, j1) {
        Some(x) => x,
        None => {
            return None;
        },
    };
    let mut list: Vec<Application> = Vec::new();
    list.push(first);
    let mut k = j2;
    loop
        invariant
            j2 <= k <= s@.len(),
            list@.len() >= 1,
            sp_apps(s@.skip(i as int)) == match sp_apps_rest(s@.skip(k as int)) {
                Some((more, rr)) => Some((crate::settings::views_of(list@) + more, rr)),
                None => None::<(Seq<ApplicationView>, Seq<char>)>,
            },
        decreases s@.len() - k,
    {
        let ghost t = s@.skip(k as int);
        let here = skip_ws_at(s, k);
        proof {
            if here < n {
                assert(s@.skip(here as int)[0] == s@[here as int]);
            }
        }
        if here >= n {
            return None;
        }
        let c = s.get_char(here);
        if c == ']' {
            proof {
                assert(s@.skip(here as int).skip(1) =~= s@.skip(here + 1));
                assert(crate::settings::views_of(list@) + Seq::<ApplicationView>::empty()
                    =~= crate::settings::views_of(list@));
            }
            return Some((list, here + 1));
        }
        if c != ',' {
            return None;
        }
        proof {
            assert(s@.skip(here as int).skip(1) =~= s@.skip(here + 1));
        }
        let (next, k2) = match p_app(s, here + 1) {
            Some(x) => x,
            None => {
                return None;
            },
        };
        let ghost prev_views = crate::settings::views_of(list@);
        list.push(next);
        proof {
            assert(s@.skip(k2 as int).len() < t.len());
            assert(crate::settings::views_of(list@) =~= prev_views + seq![next@]);
            assert forall|more: Seq<ApplicationView>|
                prev_views + (seq![next@] + more) =~= (prev_views + seq![next@]) + more by {}
        }
        k = k2;
    }
}

/// Parses a whole configuration file: one settings record and then nothing
/// but whitespace.
pub fn parse_settings(s: &str) -> (r: Option<Settings>)
    ensures
        match r {
            Some(v) => sp_settings_text(s@) == Some(v@),
            None => sp_settings_text(s@) is None,
        },
{
    proof {
        assert(s@.skip(0) =~= s@);
    }
    let j1 = match eat_lit(s, 0, "{\"applications\":") {
        Some(j) => j,
        None => {
            return None;
        },
    };
    let (applications, j2) = match p_apps(s, j1) {
        Some(x) => x,
        None => {
            return None;
        },
    };
    let j3 = match eat_lit(s, j2, ",\"server_port\":") {
        Some(j) => j,
        None => {
            return None;
        },
    };
    let (port, j4) = match p_u64(s, j3) {
        Some(x) => x,
        None => {
            return None;
        },
    };
    if port > 65535 {
        return None;
    }
    let j5 = match eat_lit(s, j4, ",\"dashboard\":{\"hostname\":") {
        Some(j) => j,
        None => {
            return None;
        },
    };
    let (dash, j6) = match p_string(s, j5) {
        Some(x) => x,
        None => {
            return None;
        },
    };
    let j7 = match eat_lit(s, j6, "},\"registry\":{\"hostname\":") {
        Some(j) => j,
        None => {
            return None;
        },
    };
    let (reg, j8) = match p_string(s, j7) {
        Some(x) => x,
        None => {
            return None;
        },
    };
    let j9 = match eat_lit(s, j8, "}}") {
        Some(j) => j,
        None => {
            return None;
        },
    };
    let end = skip_ws_at(s, j9);
    let n = s.unicode_len();
    if end < n {
        proof {
            assert(skip_ws(s@.skip(j9 as int)).len() > 0);
        }
        return None;
    }
    let settings = Settings {
        applications,
        server_port: port as u16,
        dashboard: DashboardSettings { hostname: dash },
        registry: RegistrySettings { hostname: reg },
    };
    proof {
        assert(skip_ws(s@.skip(j9 as int)).len() == 0);
        assert(settings@ =~= sp_settings(s@).unwrap().0);
    }
    Some(settings)
}

// ---------------------------------------------------------------------------
// Startup policy
// ---------------------------------------------------------------------------

/// What reading the configuration file at startup yields.
#[derive(Debug, PartialEq, Eq)]
pub enum LoadOutcome {
    /// The file was present and parsed: these are its settings.
    Loaded(Settings),
    /// No file was present: the defaults are used, and should be persisted
    /// at once so the file reflects the truth from then on.
    Defaults(Settings),
    /// The file was present but does not parse. A corrupt but present file
    /// is a fatal condition reported to the caller, never silently replaced
    /// by defaults.
    Corrupt,
}

/// Interprets what the disk held at startup: the parsed settings, the
/// defaults to persist when no file exists, or a fatal corruption report.
pub fn load_settings(contents: Option<&String>) -> (r: LoadOutcome)
    ensures
        match contents {
            Some(text) => match sp_settings_text(text@) {
                Some(v) => r matches LoadOutcome::Loaded(s) && s@ == v,
                None => r matches LoadOutcome::Corrupt,
            },
            None => r matches LoadOutcome::Defaults(s) && s@
                == crate::settings::default_settings(),
        },
{
    match contents {
        Some(text) => match parse_settings(text.as_str()) {
            Some(settings) => LoadOutcome::Loaded(settings),
            None => LoadOutcome::Corrupt,
        },
        None => LoadOutcome::Defaults(Settings::default()),
    }
}

} // verus!
