//! Host-based request routing.
//!
//! Given a settings snapshot and the inbound request's `Host` header, the
//! router picks the backend: the dashboard, the registry, a reverse-proxied
//! application, a placeholder page, or an error response. The decision is
//! evaluated fresh per request; ties between applications sharing a hostname
//! go to the first match in list order.

use crate::settings::Address;
use crate::settings::Settings;
use crate::settings::SettingsView;
use crate::settings::first_idx_with_hostname;
use crate::settings::lemma_first_idx_with_hostname_is;
use crate::settings::views_of;
use vstd::prelude::*;

verus! {

/// The `Host` header of an inbound request, as the HTTP layer saw it:
/// absent, present but not valid text, or a hostname.
#[derive(Clone, Debug, PartialEq, Eq)]
pub enum HostHeader {
    Missing,
    Invalid,
    Value(String),
}

/// The mathematical value of a [`HostHeader`].
#[verifier::ext_equal]
pub enum HostHeaderView {
    Missing,
    Invalid,
    Value(Seq<char>),
}

impl View for HostHeader {
    type V = HostHeaderView;

    open spec fn view(&self) -> HostHeaderView {
        match *self {
            HostHeader::Missing => HostHeaderView::Missing,
            HostHeader::Invalid => HostHeaderView::Invalid,
            HostHeader::Value(h) => HostHeaderView::Value(h@),
        }
    }
}

/// Which backend handles a request.
#[derive(Clone, Debug, PartialEq, Eq)]
pub enum Route {
    /// No or invalid `Host` header: answer 400 directly.
    BadRequest,
    /// Delegate to the dashboard sub-application.
    Dashboard,
    /// Delegate to the registry sub-application.
    Registry,
    /// Open an outbound connection and forward the request.
    Proxy(Address),
    /// A known hostname with no backend attached yet: serve the placeholder
    /// page naming the application.
    Placeholder(String),
    /// An unknown hostname: answer 421 directly.
    NotFound,
}

/// The mathematical value of a [`Route`].
#[verifier::ext_equal]
pub enum RouteView {
    BadRequest,
    Dashboard,
    Registry,
    Proxy(Address),
    Placeholder(Seq<char>),
    NotFound,
}

impl View for Route {
    type V = RouteView;

    open spec fn view(&self) -> RouteView {
        match *self {
            Route::BadRequest => RouteView::BadRequest,
            Route::Dashboard => RouteView::Dashboard,
            Route::Registry => RouteView::Registry,
            Route::Proxy(ad) => RouteView::Proxy(ad),
            Route::Placeholder(name) => RouteView::Placeholder(name@),
            Route::NotFound => RouteView::NotFound,
        }
    }
}

/// The routing decision: the dashboard hostname first, then the registry
/// hostname, then the first application whose hostname matches, in list
/// order.
pub open spec fn route_spec(s: SettingsView, host: HostHeaderView) -> RouteView {
    match host {
        HostHeaderView::Missing => RouteView::BadRequest,
        HostHeaderView::Invalid => RouteView::BadRequest,
        HostHeaderView::Value(h) => {
            if h == s.dashboard_hostname {
                RouteView::Dashboard
            } else if h == s.registry_hostname {
                RouteView::Registry
            } else {
                let i = first_idx_with_hostname(s.applications, h);
                if i == s.applications.len() {
                    RouteView::NotFound
                } else {
                    match s.applications[i].address {
                        Some(ad) => RouteView::Proxy(ad),
                        None => RouteView::Placeholder(s.applications[i].name),
                    }
                }
            }
        },
    }
}

/// Decides which backend handles a request with the given `Host` header.
#[verifier::loop_isolation(false)]
pub fn route(settings: &Settings, host: &HostHeader) -> (r: Route)
    ensures
        r@ == route_spec(settings@, host@),
{
    match host {
        HostHeader::Missing => Route::BadRequest,
        HostHeader::Invalid => Route::BadRequest,
        HostHeader::Value(h) => {
            if *h == settings.dashboard.hostname {
                return Route::Dashboard;
            }
            if *h == settings.registry.hostname {
                return Route::Registry;
            }
            let ghost apps = views_of(settings.applications@);
            let mut k: usize = 0;
            while k < settings.applications.len()
                invariant
                    0 <= k <= settings.applications.len(),
                    forall|q: int| 0 <= q < k ==> apps[q].hostname != h@,
                decreases settings.applications.len() - k,
            {
                if settings.applications[k].hostname == *h {
                    proof {
                        assert(apps[k as int].hostname == h@);
                        lemma_first_idx_with_hostname_is(apps, h@, k as int);
                    }
                    return match settings.applications[k].address {
                        Some(ad) => Route::Proxy(ad),
                        None => Route::Placeholder(settings.applications[k].name.clone()),
                    };
                }
                proof {
                    assert(apps[k as int].hostname != h@);
                }
                k = k + 1;
            }
            proof {
                lemma_first_idx_with_hostname_is(apps, h@, k as int);
            }
            Route::NotFound
        },
    }
}

// ---------------------------------------------------------------------------
// Locally produced responses
// ---------------------------------------------------------------------------

/// An HTTP response the daemon writes itself: a status code and a body.
#[derive(Clone, Debug, PartialEq, Eq)]
pub struct HttpResponse {
    pub status: u16,
    pub body: String,
}

/// The body of the placeholder page for an application with no backend.
pub open spec fn placeholder_body(name: Seq<char>) -> Seq<char> {
    "<h1>Coming soon!</h1><p>The application '"@ + name
        + "' is not reachable yet: no backend address is attached.</p>"@
}

/// The body answering a request without a usable `Host` header.
pub open spec fn bad_request_body() -> Seq<char> {
    "Bad request: a Host header is required."@
}

/// The body answering a request for a hostname nothing is served on.
pub open spec fn not_found_body() -> Seq<char> {
    "Misdirected request: no application is served on this hostname."@
}

/// What the daemon answers itself for a routing decision, where it does not
/// delegate: the status code and the body.
pub open spec fn local_response_spec(r: RouteView) -> Option<(u16, Seq<char>)> {
    match r {
        RouteView::BadRequest => Some((400u16, bad_request_body())),
        RouteView::NotFound => Some((421u16, not_found_body())),
        RouteView::Placeholder(name) => Some((200u16, placeholder_body(name))),
        _ => None,
    }
}

/// Produces the response for the routing decisions the daemon answers
/// itself; delegated decisions (dashboard, registry, proxy) yield `None`.
pub fn local_response(r: &Route) -> (resp: Option<HttpResponse>)
    ensures
        match resp {
            Some(p) => local_response_spec(r@) == Some((p.status, p.body@)),
            None => local_response_spec(r@) is None,
        },
{
    match r {
        Route::BadRequest => {
            let body: String = "Bad request: a Host header is required.".to_owned();
            Some(HttpResponse { status: 400, body })
        },
        Route::NotFound => {
            let body: String =
                "Misdirected request: no application is served on this hostname.".to_owned();
            Some(HttpResponse { status: 421, body })
        },
        Route::Placeholder(name) => {
            let mut body: String = "<h1>Coming soon!</h1><p>The application '".to_owned();
            body.append(name.as_str());
            body.append("' is not reachable yet: no backend address is attached.</p>");
            Some(HttpResponse { status: 200, body })
        },
        _ => None,
    }
}

/// A failure on the proxy path: all three translate to a 502 answer rather
/// than a dropped connection.
#[derive(Clone, Copy, Debug, PartialEq, Eq, Structural)]
pub enum ProxyError {
    /// The outbound connection to the backend could not be opened.
    Connect,
    /// The HTTP handshake with the backend failed.
    Handshake,
    /// Forwarding the request to the backend failed.
    SendRequest,
}

/// The body of the 502 answer for each proxy failure.
pub open spec fn proxy_error_body(e: ProxyError) -> Seq<char> {
    match e {
        ProxyError::Connect => "Bad gateway: the backend did not accept a connection."@,
        ProxyError::Handshake => "Bad gateway: the backend handshake failed."@,
        ProxyError::SendRequest => "Bad gateway: the backend did not take the request."@,
    }
}

/// Translates a proxy failure into the 502 response the client receives;
/// backend failures never abort the public-facing connection.
pub fn proxy_error_response(e: &ProxyError) -> (resp: HttpResponse)
    ensures
        resp.status == 502,
        resp.body@ == proxy_error_body(*e),
{
    match e {
        ProxyError::Connect => HttpResponse {
            status: 502,
            body: "Bad gateway: the backend did not accept a connection.".to_owned(),
        },
        ProxyError::Handshake => HttpResponse {
            status: 502,
            body: "Bad gateway: the backend handshake failed.".to_owned(),
        },
        ProxyError::SendRequest => HttpResponse {
            status: 502,
            body: "Bad gateway: the backend did not take the request.".to_owned(),
        },
    }
}

// ---------------------------------------------------------------------------
// Laws
// ---------------------------------------------------------------------------

/// A request for the dashboard hostname always reaches the dashboard, never
/// the application-matching branch, whatever applications exist — even one
/// with the same hostname.
pub proof fn law_dashboard_wins(s: SettingsView, h: Seq<char>)
    requires
        h == s.dashboard_hostname,
    ensures
        route_spec(s, HostHeaderView::Value(h)) == RouteView::Dashboard,
{
}

/// A request without a `Host` header is answered 400, whatever the
/// configuration holds.
pub proof fn law_missing_host_is_rejected(s: SettingsView)
    ensures
        route_spec(s, HostHeaderView::Missing) == RouteView::BadRequest,
        local_response_spec(RouteView::BadRequest).unwrap().0 == 400,
{
}

/// A request for a hostname whose first matching application has no backend
/// address is answered 200 with a placeholder body that names that
/// application.
pub proof fn law_placeholder_names_application(s: SettingsView, h: Seq<char>)
    requires
        h != s.dashboard_hostname,
        h != s.registry_hostname,
        first_idx_with_hostname(s.applications, h) < s.applications.len(),
        s.applications[first_idx_with_hostname(s.applications, h)].address is None,
    ensures
        ({
            let name = s.applications[first_idx_with_hostname(s.applications, h)].name;
            let resp = local_response_spec(route_spec(s, HostHeaderView::Value(h)));
            &&& route_spec(s, HostHeaderView::Value(h)) == RouteView::Placeholder(name)
            &&& resp is Some
            &&& resp.unwrap().0 == 200
            &&& exists|pre: Seq<char>, post: Seq<char>| resp.unwrap().1 == pre + name + post
        }),
{
    let name = s.applications[first_idx_with_hostname(s.applications, h)].name;
    let pre = "<h1>Coming soon!</h1><p>The application '"@;
    let post = "' is not reachable yet: no backend address is attached.</p>"@;
    assert(placeholder_body(name) == pre + name + post);
}

} // verus!
