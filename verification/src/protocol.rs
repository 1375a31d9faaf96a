//! The control-channel vocabulary: requests, responses, domain failures and
//! the request/reply envelopes that correlate them.

use crate::settings::Application;
use crate::settings::ApplicationView;
use crate::settings::views_of;
use crate::wire::eat_lit;
use crate::wire::p_string;
use crate::wire::p_u64;
use crate::wire::skip_ws;
use crate::wire::skip_ws_at;
use crate::wire::sp_lit;
use crate::wire::sp_string;
use crate::wire::sp_u64;
use vstd::prelude::*;

verus! {

/// One administrative request, as carried over the control channel.
#[derive(Clone, Debug, PartialEq, Eq)]
pub enum SocketRequest {
    CreateApplication { name: String, hostname: String },
    GetApplication { name: String },
    GetApplications,
    EditApplication { name: String, new_name: Option<String>, new_hostname: Option<String> },
    DeleteApplication { name: String },
    GetDashboardHost,
    GetRegistryHost,
    EditDashboardHost { hostname: String },
    EditRegistryHost { hostname: String },
}

/// The mathematical value of a [`SocketRequest`].
#[verifier::ext_equal]
pub enum SocketRequestView {
    CreateApplication { name: Seq<char>, hostname: Seq<char> },
    GetApplication { name: Seq<char> },
    GetApplications,
    EditApplication {
        name: Seq<char>,
        new_name: Option<Seq<char>>,
        new_hostname: Option<Seq<char>>,
    },
    DeleteApplication { name: Seq<char> },
    GetDashboardHost,
    GetRegistryHost,
    EditDashboardHost { hostname: Seq<char> },
    EditRegistryHost { hostname: Seq<char> },
}

/// The view of an optional string.
pub open spec fn opt_view(o: Option<String>) -> Option<Seq<char>> {
    match o {
        Some(s) => Some(s@),
        None => None,
    }
}

impl View for SocketRequest {
    type V = SocketRequestView;

    open spec fn view(&self) -> SocketRequestView {
        match *self {
            SocketRequest::CreateApplication { name, hostname } => {
                SocketRequestView::CreateApplication { name: name@, hostname: hostname@ }
            },
            SocketRequest::GetApplication { name } => {
                SocketRequestView::GetApplication { name: name@ }
            },
            SocketRequest::GetApplications => SocketRequestView::GetApplications,
            SocketRequest::EditApplication { name, new_name, new_hostname } => {
                SocketRequestView::EditApplication {
                    name: name@,
                    new_name: opt_view(new_name),
                    new_hostname: opt_view(new_hostname),
                }
            },
            SocketRequest::DeleteApplication { name } => {
                SocketRequestView::DeleteApplication { name: name@ }
            },
            SocketRequest::GetDashboardHost => SocketRequestView::GetDashboardHost,
            SocketRequest::GetRegistryHost => SocketRequestView::GetRegistryHost,
            SocketRequest::EditDashboardHost { hostname } => {
                SocketRequestView::EditDashboardHost { hostname: hostname@ }
            },
            SocketRequest::EditRegistryHost { hostname } => {
                SocketRequestView::EditRegistryHost { hostname: hostname@ }
            },
        }
    }
}

/// A domain failure, carried inside the reply envelope; never a transport
/// error.
#[derive(Clone, Copy, Debug, PartialEq, Eq, Structural)]
pub enum SocketFailure {
    /// The submitted application name is already taken.
    NameInUse,
    /// No application carries the requested name.
    ApplicationNotFound,
    /// Part of the wire vocabulary for clients; the engine routes colliding
    /// hostnames by list order instead of refusing them.
    HostnameInUse,
    /// The server had to drop the connection while cleaning up.
    ConnectionClosed,
}

/// A successful outcome, one kind per request kind.
#[derive(Clone, Debug, PartialEq, Eq)]
pub enum SocketResponse {
    CreatedApplication,
    Application(Application),
    Applications(Vec<Application>),
    EditedApplication,
    DeletedApplication,
    DashboardHost(String),
    RegistryHost(String),
    EditedDashboardHost,
    EditedRegistryHost,
}

/// The mathematical value of a [`SocketResponse`].
#[verifier::ext_equal]
pub enum SocketResponseView {
    CreatedApplication,
    Application(ApplicationView),
    Applications(Seq<ApplicationView>),
    EditedApplication,
    DeletedApplication,
    DashboardHost(Seq<char>),
    RegistryHost(Seq<char>),
    EditedDashboardHost,
    EditedRegistryHost,
}

impl View for SocketResponse {
    type V = SocketResponseView;

    open spec fn view(&self) -> SocketResponseView {
        match *self {
            SocketResponse::CreatedApplication => SocketResponseView::CreatedApplication,
            SocketResponse::Application(a) => SocketResponseView::Application(a@),
            SocketResponse::Applications(list) => SocketResponseView::Applications(views_of(list@)),
            SocketResponse::EditedApplication => SocketResponseView::EditedApplication,
            SocketResponse::DeletedApplication => SocketResponseView::DeletedApplication,
            SocketResponse::DashboardHost(h) => SocketResponseView::DashboardHost(h@),
            SocketResponse::RegistryHost(h) => SocketResponseView::RegistryHost(h@),
            SocketResponse::EditedDashboardHost => SocketResponseView::EditedDashboardHost,
            SocketResponse::EditedRegistryHost => SocketResponseView::EditedRegistryHost,
        }
    }
}

/// The view of a dispatch outcome.
pub open spec fn outcome_view(r: Result<SocketResponse, SocketFailure>) -> Result<
    SocketResponseView,
    SocketFailure,
> {
    match r {
        Ok(resp) => Ok(resp@),
        Err(e) => Err(e),
    }
}

/// An inbound envelope: the client-chosen correlation id and the request.
#[derive(Clone, Debug, PartialEq, Eq)]
pub struct ControlMessage {
    pub id: u64,
    pub request: SocketRequest,
}

/// The mathematical value of a [`ControlMessage`].
#[verifier::ext_equal]
pub struct ControlMessageView {
    pub id: u64,
    pub request: SocketRequestView,
}

impl View for ControlMessage {
    type V = ControlMessageView;

    open spec fn view(&self) -> ControlMessageView {
        ControlMessageView { id: self.id, request: self.request@ }
    }
}

/// An outbound envelope: the id of the request it answers and the outcome.
#[derive(Debug)]
pub struct SocketReply {
    pub regarding: u64,
    pub response: Result<SocketResponse, SocketFailure>,
}

/// The mathematical value of a [`SocketReply`].
#[verifier::ext_equal]
pub struct SocketReplyView {
    pub regarding: u64,
    pub response: Result<SocketResponseView, SocketFailure>,
}

impl View for SocketReply {
    type V = SocketReplyView;

    open spec fn view(&self) -> SocketReplyView {
        SocketReplyView { regarding: self.regarding, response: outcome_view(self.response) }
    }
}

// ---------------------------------------------------------------------------
// Wire form of requests (parsing)
// ---------------------------------------------------------------------------

/// Parses an optional string: `null` or a quoted string.
pub open spec fn sp_opt_string(t: Seq<char>) -> Option<(Option<Seq<char>>, Seq<char>)> {
    let t0 = skip_ws(t);
    if t0.len() > 0 && t0[0] == 'n' {
        match sp_lit(t0, "null"@) {
            Some(r) => Some((None, r)),
            None => None,
        }
    } else {
        match sp_string(t0) {
            Some((v, r)) => Some((Some(v), r)),
            None => None,
        }
    }
}

/// Parses the body and closing brace of a tagged request, by tag.
pub open spec fn sp_request_body(tag: Seq<char>, t: Seq<char>) -> Option<
    (SocketRequestView, Seq<char>),
> {
    if tag == "CreateApplication"@ {
        match sp_lit(skip_ws(t), "{\"name\":"@) {
            Some(r1) => match sp_string(skip_ws(r1)) {
                Some((name, r2)) => match sp_lit(skip_ws(r2), ",\"hostname\":"@) {
                    Some(r3) => match sp_string(skip_ws(r3)) {
                        Some((hostname, r4)) => match sp_lit(skip_ws(r4), "}"@) {
                            Some(r5) => Some(
                                (SocketRequestView::CreateApplication { name, hostname }, r5),
                            ),
                            None => None,
                        },
                        None => None,
                    },
                    None => None,
                },
                None => None,
            },
            None => None,
        }
    } else if tag == "GetApplication"@ || tag == "DeleteApplication"@ {
        match sp_lit(skip_ws(t), "{\"name\":"@) {
            Some(r1) => match sp_string(skip_ws(r1)) {
                Some((name, r2)) => match sp_lit(skip_ws(r2), "}"@) {
                    Some(r3) => if tag == "GetApplication"@ {
                        Some((SocketRequestView::GetApplication { name }, r3))
                    } else {
                        Some((SocketRequestView::DeleteApplication { name }, r3))
                    },
                    None => None,
                },
                None => None,
            },
            None => None,
        }
    } else if tag == "EditApplication"@ {
        match sp_lit(skip_ws(t), "{\"name\":"@) {
            Some(r1) => match sp_string(skip_ws(r1)) {
                Some((name, r2)) => match sp_lit(skip_ws(r2), ",\"new_name\":"@) {
                    Some(r3) => match sp_opt_string(r3) {
                        Some((new_name, r4)) => match sp_lit(skip_ws(r4), ",\"new_hostname\":"@) {
                            Some(r5) => match sp_opt_string(r5) {
                                Some((new_hostname, r6)) => match sp_lit(skip_ws(r6), "}"@) {
                                    Some(r7) => Some(
                                        (
                                            SocketRequestView::EditApplication {
                                                name,
                                                new_name,
                                                new_hostname,
                                            },
                                            r7,
                                        ),
                                    ),
                                    None => None,
                                },
                                None => None,
                            },
                            None => None,
                        },
                        None => None,
                    },
                    None => None,
                },
                None => None,
            },
            None => None,
        }
    } else if tag == "EditDashboardHost"@ || tag == "EditRegistryHost"@ {
        match sp_lit(skip_ws(t), "{\"hostname\":"@) {
            Some(r1) => match sp_string(skip_ws(r1)) {
                Some((hostname, r2)) => match sp_lit(skip_ws(r2), "}"@) {
                    Some(r3) => if tag == "EditDashboardHost"@ {
                        Some((SocketRequestView::EditDashboardHost { hostname }, r3))
                    } else {
                        Some((SocketRequestView::EditRegistryHost { hostname }, r3))
                    },
                    None => None,
                },
                None => None,
            },
            None => None,
        }
    } else {
        None
    }
}

/// Parses one request: a bare tag string for the parameterless kinds, or a
/// single-key object whose key is the tag.
pub open spec fn sp_request(t: Seq<char>) -> Option<(SocketRequestView, Seq<char>)> {
    let t0 = skip_ws(t);
    if t0.len() > 0 && t0[0] == '"' {
        match sp_string(t0) {
            Some((tag, r)) => if tag == "GetApplications"@ {
                Some((SocketRequestView::GetApplications, r))
            } else if tag == "GetDashboardHost"@ {
                Some((SocketRequestView::GetDashboardHost, r))
            } else if tag == "GetRegistryHost"@ {
                Some((SocketRequestView::GetRegistryHost, r))
            } else {
                None
            },
            None => None,
        }
    } else if t0.len() > 0 && t0[0] == '{' {
        let r1 = t0.skip(1);
        match sp_string(skip_ws(r1)) {
            Some((tag, r2)) => match sp_lit(skip_ws(r2), ":"@) {
                Some(r3) => match sp_request_body(tag, r3) {
                    Some((req, r4)) => match sp_lit(skip_ws(r4), "}"@) {
                        Some(r5) => Some((req, r5)),
                        None => None,
                    },
                    None => None,
                },
                None => None,
            },
            None => None,
        }
    } else {
        None
    }
}

/// Parses one whole control-channel record: the envelope with the
/// correlation id and the request, and then nothing but whitespace.
pub open spec fn sp_message(t: Seq<char>) -> Option<ControlMessageView> {
    match sp_lit(skip_ws(t), "{\"id\":"@) {
        Some(r1) => match sp_u64(skip_ws(r1)) {
            Some((id, r2)) => match sp_lit(skip_ws(r2), ",\"request\":"@) {
                Some(r3) => match sp_request(r3) {
                    Some((request, r4)) => match sp_lit(skip_ws(r4), "}"@) {
                        Some(r5) => if skip_ws(r5).len() == 0 {
                            Some(ControlMessageView { id, request })
                        } else {
                            None
                        },
                        None => None,
                    },
                    None => None,
                },
                None => None,
            },
            None => None,
        },
        None => None,
    }
}

// ---------------------------------------------------------------------------
// Wire form of requests (printing, for the administrative client)
// ---------------------------------------------------------------------------

/// The wire form of an optional string.
pub open spec fn enc_opt_string(o: Option<Seq<char>>) -> Seq<char> {
    match o {
        None => "null"@,
        Some(s) => crate::wire::enc_string(s),
    }
}

/// The wire form of one request: a bare tag string for the parameterless
/// kinds, a single-key object for the carrying ones.
pub open spec fn enc_request(r: SocketRequestView) -> Seq<char> {
    match r {
        SocketRequestView::CreateApplication { name, hostname } => "{"@ + crate::wire::enc_string(
            "CreateApplication"@,
        ) + ":"@ + "{\"name\":"@ + crate::wire::enc_string(name) + ",\"hostname\":"@
            + crate::wire::enc_string(hostname) + "}"@ + "}"@,
        SocketRequestView::GetApplication { name } => "{"@ + crate::wire::enc_string(
            "GetApplication"@,
        ) + ":"@ + "{\"name\":"@ + crate::wire::enc_string(name) + "}"@ + "}"@,
        SocketRequestView::GetApplications => crate::wire::enc_string("GetApplications"@),
        SocketRequestView::EditApplication { name, new_name, new_hostname } => "{"@
            + crate::wire::enc_string("EditApplication"@) + ":"@ + "{\"name\":"@
            + crate::wire::enc_string(name) + ",\"new_name\":"@ + enc_opt_string(new_name)
            + ",\"new_hostname\":"@ + enc_opt_string(new_hostname) + "}"@ + "}"@,
        SocketRequestView::DeleteApplication { name } => "{"@ + crate::wire::enc_string(
            "DeleteApplication"@,
        ) + ":"@ + "{\"name\":"@ + crate::wire::enc_string(name) + "}"@ + "}"@,
        SocketRequestView::GetDashboardHost => crate::wire::enc_string("GetDashboardHost"@),
        SocketRequestView::GetRegistryHost => crate::wire::enc_string("GetRegistryHost"@),
        SocketRequestView::EditDashboardHost { hostname } => "{"@ + crate::wire::enc_string(
            "EditDashboardHost"@,
        ) + ":"@ + "{\"hostname\":"@ + crate::wire::enc_string(hostname) + "}"@ + "}"@,
        SocketRequestView::EditRegistryHost { hostname } => "{"@ + crate::wire::enc_string(
            "EditRegistryHost"@,
        ) + ":"@ + "{\"hostname\":"@ + crate::wire::enc_string(hostname) + "}"@ + "}"@,
    }
}

/// The wire form of a whole inbound envelope.
pub open spec fn enc_message(m: ControlMessageView) -> Seq<char> {
    "{\"id\":"@ + crate::wire::dec_digits(m.id as nat) + ",\"request\":"@ + enc_request(m.request)
        + "}"@
}

/// Appends the wire form of an optional string.
fn write_opt_string(out: &mut String, o: &Option<String>)
    ensures
        final(out)@ == old(out)@ + enc_opt_string(opt_view(*o)),
{
    match o {
        None => out.append("null"),
        Some(s) => crate::wire::write_string(out, s.as_str()),
    }
}

/// Appends the wire form of one request.
fn write_request(out: &mut String, r: &SocketRequest)
    ensures
        final(out)@ == old(out)@ + enc_request(r@),
{
    match r {
        SocketRequest::CreateApplication { name, hostname } => {
            out.append("{");
            crate::wire::write_string(out, "CreateApplication");
            out.append(":");
            out.append("{\"name\":");
            crate::wire::write_string(out, name.as_str());
            out.append(",\"hostname\":");
            crate::wire::write_string(out, hostname.as_str());
            out.append("}");
            out.append("}");
            proof {
                assert(out@ =~= old(out)@ + enc_request(r@));
            }
        },
        SocketRequest::GetApplication { name } => {
            out.append("{");
            crate::wire::write_string(out, "GetApplication");
            out.append(":");
            out.append("{\"name\":");
            crate::wire::write_string(out, name.as_str());
            out.append("}");
            out.append("}");
            proof {
                assert(out@ =~= old(out)@ + enc_request(r@));
            }
        },
        SocketRequest::GetApplications => {
            crate::wire::write_string(out, "GetApplications");
        },
        SocketRequest::EditApplication { name, new_name, new_hostname } => {
            out.append("{");
            crate::wire::write_string(out, "EditApplication");
            out.append(":");
            out.append("{\"name\":");
            crate::wire::write_string(out, name.as_str());
            out.append(",\"new_name\":");
            write_opt_string(out, new_name);
            out.append(",\"new_hostname\":");
            write_opt_string(out, new_hostname);
            out.append("}");
            out.append("}");
            proof {
                assert(out@ =~= old(out)@ + enc_request(r@));
            }
        },
        SocketRequest::DeleteApplication { name } => {
            out.append("{");
            crate::wire::write_string(out, "DeleteApplication");
            out.append(":");
            out.append("{\"name\":");
            crate::wire::write_string(out, name.as_str());
            out.append("}");
            out.append("}");
            proof {
                assert(out@ =~= old(out)@ + enc_request(r@));
            }
        },
        SocketRequest::GetDashboardHost => {
            crate::wire::write_string(out, "GetDashboardHost");
        },
        SocketRequest::GetRegistryHost => {
            crate::wire::write_string(out, "GetRegistryHost");
        },
        SocketRequest::EditDashboardHost { hostname } => {
            out.append("{");
            crate::wire::write_string(out, "EditDashboardHost");
            out.append(":");
            out.append("{\"hostname\":");
            crate::wire::write_string(out, hostname.as_str());
            out.append("}");
            out.append("}");
            proof {
                assert(out@ =~= old(out)@ + enc_request(r@));
            }
        },
        SocketRequest::EditRegistryHost { hostname } => {
            out.append("{");
            crate::wire::write_string(out, "EditRegistryHost");
            out.append(":");
            out.append("{\"hostname\":");
            crate::wire::write_string(out, hostname.as_str());
            out.append("}");
            out.append("}");
            proof {
                assert(out@ =~= old(out)@ + enc_request(r@));
            }
        },
    }
}

/// Prints one whole inbound envelope, as the administrative client writes it
/// to the wire.
pub fn encode_message(m: &ControlMessage) -> (r: String)
    ensures
        r@ == enc_message(m@),
{
    let mut out = String::new();
    out.append("{\"id\":");
    crate::wire::write_u64(&mut out, m.id);
    out.append(",\"request\":");
    write_request(&mut out, &m.request);
    out.append("}");
    proof {
        assert(out@ =~= enc_message(m@));
    }
    out
}

// ---------------------------------------------------------------------------
// Wire form of replies (printing)
// ---------------------------------------------------------------------------

/// The wire tag of a domain failure.
pub open spec fn enc_failure(e: SocketFailure) -> Seq<char> {
    match e {
        SocketFailure::NameInUse => crate::wire::enc_string("NameInUse"@),
        SocketFailure::ApplicationNotFound => crate::wire::enc_string("ApplicationNotFound"@),
        SocketFailure::HostnameInUse => crate::wire::enc_string("HostnameInUse"@),
        SocketFailure::ConnectionClosed => crate::wire::enc_string("ConnectionClosed"@),
    }
}

/// The wire form of a successful outcome: a bare tag for the parameterless
/// kinds, a single-key object for the carrying ones.
pub open spec fn enc_response(v: SocketResponseView) -> Seq<char> {
    match v {
        SocketResponseView::CreatedApplication => crate::wire::enc_string("CreatedApplication"@),
        SocketResponseView::Application(a) => "{"@ + crate::wire::enc_string("Application"@)
            + ":"@ + crate::config::enc_app(a) + "}"@,
        SocketResponseView::Applications(list) => "{"@ + crate::wire::enc_string("Applications"@)
            + ":"@ + crate::config::enc_apps(list) + "}"@,
        SocketResponseView::EditedApplication => crate::wire::enc_string("EditedApplication"@),
        SocketResponseView::DeletedApplication => crate::wire::enc_string("DeletedApplication"@),
        SocketResponseView::DashboardHost(h) => "{"@ + crate::wire::enc_string("DashboardHost"@)
            + ":"@ + crate::wire::enc_string(h) + "}"@,
        SocketResponseView::RegistryHost(h) => "{"@ + crate::wire::enc_string("RegistryHost"@)
            + ":"@ + crate::wire::enc_string(h) + "}"@,
        SocketResponseView::EditedDashboardHost => crate::wire::enc_string("EditedDashboardHost"@),
        SocketResponseView::EditedRegistryHost => crate::wire::enc_string("EditedRegistryHost"@),
    }
}

/// The wire form of an outcome.
pub open spec fn enc_outcome(r: Result<SocketResponseView, SocketFailure>) -> Seq<char> {
    match r {
        Ok(v) => "{"@ + crate::wire::enc_string("Ok"@) + ":"@ + enc_response(v) + "}"@,
        Err(e) => "{"@ + crate::wire::enc_string("Err"@) + ":"@ + enc_failure(e) + "}"@,
    }
}

/// The wire form of a whole reply envelope.
pub open spec fn enc_reply(rv: SocketReplyView) -> Seq<char> {
    "{\"regarding\":"@ + crate::wire::dec_digits(rv.regarding as nat) + ",\"response\":"@
        + enc_outcome(rv.response) + "}"@
}

/// Appends the wire form of a successful outcome.
#[verifier::rlimit(60)]
fn write_response(out: &mut String, v: &SocketResponse)
    ensures
        final(out)@ == old(out)@ + enc_response(v@),
{
    match v {
        SocketResponse::CreatedApplication => crate::wire::write_string(out, "CreatedApplication"),
        SocketResponse::Application(a) => {
            out.append("{");
            crate::wire::write_string(out, "Application");
            out.append(":");
            crate::config::write_app(out, a);
            out.append("}");
            proof {
                assert(out@ =~= old(out)@ + enc_response(v@));
            }
        },
        SocketResponse::Applications(list) => {
            out.append("{");
            crate::wire::write_string(out, "Applications");
            out.append(":");
            crate::config::write_apps(out, list);
            out.append("}");
            proof {
                assert(out@ =~= old(out)@ + enc_response(v@));
            }
        },
        SocketResponse::EditedApplication => crate::wire::write_string(out, "EditedApplication"),
        SocketResponse::DeletedApplication => crate::wire::write_string(out, "DeletedApplication"),
        SocketResponse::DashboardHost(h) => {
            out.append("{");
            crate::wire::write_string(out, "DashboardHost");
            out.append(":");
            crate::wire::write_string(out, h.as_str());
            out.append("}");
            proof {
                assert(out@ =~= old(out)@ + enc_response(v@));
            }
        },
        SocketResponse::RegistryHost(h) => {
            out.append("{");
            crate::wire::write_string(out, "RegistryHost");
            out.append(":");
            crate::wire::write_string(out, h.as_str());
            out.append("}");
            proof {
                assert(out@ =~= old(out)@ + enc_response(v@));
            }
        },
        SocketResponse::EditedDashboardHost => crate::wire::write_string(out, "EditedDashboardHost"),
        SocketResponse::EditedRegistryHost => crate::wire::write_string(out, "EditedRegistryHost"),
    }
}

/// Prints one whole reply envelope, as written to the wire.
pub fn encode_reply(reply: &SocketReply) -> (r: String)
    ensures
        r@ == enc_reply(reply@),
{
    let mut out = String::new();
    out.append("{\"regarding\":");
    crate::wire::write_u64(&mut out, reply.regarding);
    out.append(",\"response\":");
    match &reply.response {
        Ok(v) => {
            out.append("{");
            crate::wire::write_string(&mut out, "Ok");
            out.append(":");
            write_response(&mut out, v);
            out.append("}");
        },
        Err(e) => {
            out.append("{");
            crate::wire::write_string(&mut out, "Err");
            out.append(":");
            match e {
                SocketFailure::NameInUse => crate::wire::write_string(&mut out, "NameInUse"),
                SocketFailure::ApplicationNotFound => crate::wire::write_string(
                    &mut out,
                    "ApplicationNotFound",
                ),
                SocketFailure::HostnameInUse => crate::wire::write_string(&mut out, "HostnameInUse"),
                SocketFailure::ConnectionClosed => crate::wire::write_string(
                    &mut out,
                    "ConnectionClosed",
                ),
            }
            out.append("}");
        },
    }
    out.append("}");
    proof {
        assert(out@ =~= enc_reply(reply@));
    }
    out
}

// ---------------------------------------------------------------------------
// Wire form of replies (parsing, for the administrative client)
// ---------------------------------------------------------------------------

/// The domain failure a wire tag names.
pub open spec fn sp_failure_name(tag: Seq<char>) -> Option<SocketFailure> {
    if tag == "NameInUse"@ {
        Some(SocketFailure::NameInUse)
    } else if tag == "ApplicationNotFound"@ {
        Some(SocketFailure::ApplicationNotFound)
    } else if tag == "HostnameInUse"@ {
        Some(SocketFailure::HostnameInUse)
    } else if tag == "ConnectionClosed"@ {
        Some(SocketFailure::ConnectionClosed)
    } else {
        None
    }
}

/// Parses a successful outcome: a bare tag string for the parameterless
/// kinds, a single-key object for the carrying ones.
pub open spec fn sp_response(t: Seq<char>) -> Option<(SocketResponseView, Seq<char>)> {
    let t0 = skip_ws(t);
    if t0.len() > 0 && t0[0] == '"' {
        match sp_string(t0) {
            Some((tag, r)) => if tag == "CreatedApplication"@ {
                Some((SocketResponseView::CreatedApplication, r))
            } else if tag == "EditedApplication"@ {
                Some((SocketResponseView::EditedApplication, r))
            } else if tag == "DeletedApplication"@ {
                Some((SocketResponseView::DeletedApplication, r))
            } else if tag == "EditedDashboardHost"@ {
                Some((SocketResponseView::EditedDashboardHost, r))
            } else if tag == "EditedRegistryHost"@ {
                Some((SocketResponseView::EditedRegistryHost, r))
            } else {
                None
            },
            None => None,
        }
    } else if t0.len() > 0 && t0[0] == '{' {
        let r1 = t0.skip(1);
        match sp_string(skip_ws(r1)) {
            Some((tag, r2)) => match sp_lit(skip_ws(r2), ":"@) {
                Some(r3) => if tag == "Application"@ {
                    match crate::config::sp_app(r3) {
                        Some((a, r4)) => match sp_lit(skip_ws(r4), "}"@) {
                            Some(r5) => Some((SocketResponseView::Application(a), r5)),
                            None => None,
                        },
                        None => None,
                    }
                } else if tag == "Applications"@ {
                    match crate::config::sp_apps(r3) {
                        Some((list, r4)) => match sp_lit(skip_ws(r4), "}"@) {
                            Some(r5) => Some((SocketResponseView::Applications(list), r5)),
                            None => None,
                        },
                        None => None,
                    }
                } else if tag == "DashboardHost"@ || tag == "RegistryHost"@ {
                    match sp_string(skip_ws(r3)) {
                        Some((h, r4)) => match sp_lit(skip_ws(r4), "}"@) {
                            Some(r5) => if tag == "DashboardHost"@ {
                                Some((SocketResponseView::DashboardHost(h), r5))
                            } else {
                                Some((SocketResponseView::RegistryHost(h), r5))
                            },
                            None => None,
                        },
                        None => None,
                    }
                } else {
                    None
                },
                None => None,
            },
            None => None,
        }
    } else {
        None
    }
}

/// Parses an outcome: an `Ok` object carrying a response, or an `Err` object
/// carrying a failure tag.
pub open spec fn sp_outcome(t: Seq<char>) -> Option<
    (Result<SocketResponseView, SocketFailure>, Seq<char>),
> {
    let t0 = skip_ws(t);
    if t0.len() > 0 && t0[0] == '{' {
        let r1 = t0.skip(1);
        match sp_string(skip_ws(r1)) {
            Some((tag, r2)) => match sp_lit(skip_ws(r2), ":"@) {
                Some(r3) => if tag == "Ok"@ {
                    match sp_response(r3) {
                        Some((v, r4)) => match sp_lit(skip_ws(r4), "}"@) {
                            Some(r5) => Some((Ok(v), r5)),
                            None => None,
                        },
                        None => None,
                    }
                } else if tag == "Err"@ {
                    match sp_string(skip_ws(r3)) {
                        Some((name, r4)) => match sp_failure_name(name) {
                            Some(e) => match sp_lit(skip_ws(r4), "}"@) {
                                Some(r5) => Some((Err(e), r5)),
                                None => None,
                            },
                            None => None,
                        },
                        None => None,
                    }
                } else {
                    None
                },
                None => None,
            },
            None => None,
        }
    } else {
        None
    }
}

/// Parses one whole reply record: the envelope with the id it answers and
/// the outcome, and then nothing but whitespace.
pub open spec fn sp_reply(t: Seq<char>) -> Option<SocketReplyView> {
    match sp_lit(skip_ws(t), "{\"regarding\":"@) {
        Some(r1) => match sp_u64(skip_ws(r1)) {
            Some((regarding, r2)) => match sp_lit(skip_ws(r2), ",\"response\":"@) {
                Some(r3) => match sp_outcome(r3) {
                    Some((response, r4)) => match sp_lit(skip_ws(r4), "}"@) {
                        Some(r5) => if skip_ws(r5).len() == 0 {
                            Some(SocketReplyView { regarding, response })
                        } else {
                            None
                        },
                        None => None,
                    },
                    None => None,
                },
                None => None,
            },
            None => None,
        },
        None => None,
    }
}

/// Whether the string equals the literal.
fn tag_is(tag: &String, lit: &str) -> (r: bool)
    ensures
        r == (tag@ == lit@),
{
    let other: String = lit.to_owned();
    *tag == other
}

/// Parses an optional string at position `i`.
fn p_opt_string(s: &str, i: usize) -> (r: Option<(Option<String>, usize)>)
    requires
        i <= s@.len(),
    ensures
        match r {
            Some((v, j)) => i < j <= s@.len() && sp_opt_string(s@.skip(i as int)) == Some(
                (opt_view(v), s@.skip(j as int)),
            ),
            None => sp_opt_string(s@.skip(i as int)) is None,
        },
{
    let start = skip_ws_at(s, i);
    let n = s.unicode_len();
    let is_null = start < n && s.get_char(start) == 'n';
    proof {
        if start < n {
            assert(s@.skip(start as int)[0] == s@[start as int]);
        }
    }
    if is_null {
        proof {
            reveal_strlit("null");
        }
        match eat_lit(s, i, "null") {
            Some(j) => Some((None, j)),
            None => None,
        }
    } else {
        match p_string(s, i) {
            Some((v, j)) => {
                proof {
                    crate::wire::lemma_skip_ws_head(s@.skip(i as int));
                }
                Some((Some(v), j))
            },
            None => {
                proof {
                    crate::wire::lemma_skip_ws_head(s@.skip(i as int));
                }
                None
            },
        }
    }
}

/// Parses the body and closing brace of a tagged request.
fn p_request_body(s: &str, i: usize, tag: &String) -> (r: Option<(SocketRequest, usize)>)
    requires
        i <= s@.len(),
    ensures
        match r {
            Some((v, j)) => j <= s@.len() && sp_request_body(tag@, s@.skip(i as int)) == Some(
                (v@, s@.skip(j as int)),
            ),
            None => sp_request_body(tag@, s@.skip(i as int)) is None,
        },
{
    if tag_is(tag, "CreateApplication") {
        let j1 = match eat_lit(s, i, "{\"name\":") {
            Some(j) => j,
            None => {
                return None;
            },
        };
        let (name, j2) = match p_string(s, j1) {
            Some(x) => x,
            None => {
                return None;
            },
        };
        let j3 = match eat_lit(s, j2, ",\"hostname\":") {
            Some(j) => j,
            None => {
                return None;
            },
        };
        let (hostname, j4) = match p_string(s, j3) {
            Some(x) => x,
            None => {
                return None;
            },
        };
        let j5 = match eat_lit(s, j4, "}") {
            Some(j) => j,
            None => {
                return None;
            },
        };
        Some((SocketRequest::CreateApplication { name, hostname }, j5))
    } else if tag_is(tag, "GetApplication") || tag_is(tag, "DeleteApplication") {
        let j1 = match eat_lit(s, i, "{\"name\":") {
            Some(j) => j,
            None => {
                return None;
            },
        };
        let (name, j2) = match p_string(s, j1) {
            Some(x) => x,
            None => {
                return None;
            },
        };
        let j3 = match eat_lit(s, j2, "}") {
            Some(j) => j,
            None => {
                return None;
            },
        };
        if tag_is(tag, "GetApplication") {
            Some((SocketRequest::GetApplication { name }, j3))
        } else {
            Some((SocketRequest::DeleteApplication { name }, j3))
        }
    } else if tag_is(tag, "EditApplication") {
        let j1 = match eat_lit(s, i, "{\"name\":") {
            Some(j) => j,
            None => {
                return None;
            },
        };
        let (name, j2) = match p_string(s, j1) {
            Some(x) => x,
            None => {
                return None;
            },
        };
        let j3 = match eat_lit(s, j2, ",\"new_name\":") {
            Some(j) => j,
            None => {
                return None;
            },
        };
        let (new_name, j4) = match p_opt_string(s, j3) {
            Some(x) => x,
            None => {
                return None;
            },
        };
        let j5 = match eat_lit(s, j4, ",\"new_hostname\":") {
            Some(j) => j,
            None => {
                return None;
            },
        };
        let (new_hostname, j6) = match p_opt_string(s, j5) {
            Some(x) => x,
            None => {
                return None;
            },
        };
        let j7 = match eat_lit(s, j6, "}") {
            Some(j) => j,
            None => {
                return None;
            },
        };
        Some((SocketRequest::EditApplication { name, new_name, new_hostname }, j7))
    } else if tag_is(tag, "EditDashboardHost") || tag_is(tag, "EditRegistryHost") {
        let j1 = match eat_lit(s, i, "{\"hostname\":") {
            Some(j) => j,
            None => {
                return None;
            },
        };
        let (hostname, j2) = match p_string(s, j1) {
            Some(x) => x,
            None => {
                return None;
            },
        };
        let j3 = match eat_lit(s, j2, "}") {
            Some(j) => j,
            None => {
                return None;
            },
        };
        if tag_is(tag, "EditDashboardHost") {
            Some((SocketRequest::EditDashboardHost { hostname }, j3))
        } else {
            Some((SocketRequest::EditRegistryHost { hostname }, j3))
        }
    } else {
        None
    }
}

/// Parses one request.
fn p_request(s: &str, i: usize) -> (r: Option<(SocketRequest, usize)>)
    requires
        i <= s@.len(),
    ensures
        match r {
            Some((v, j)) => j <= s@.len() && sp_request(s@.skip(i as int)) == Some(
                (v@, s@.skip(j as int)),
            ),
            None => sp_request(s@.skip(i as int)) is None,
        },
{
    let start = skip_ws_at(s, i);
    let n = s.unicode_len();
    proof {
        if start < n {
            assert(s@.skip(start as int)[0] == s@[start as int]);
        }
        crate::wire::lemma_skip_ws_head(s@.skip(i as int));
    }
    if start >= n {
        return None;
    }
    let c = s.get_char(start);
    if c == '"' {
        let (tag, j) = match p_string(s, i) {
            Some(x) => x,
            None => {
                return None;
            },
        };
        if tag_is(&tag, "GetApplications") {
            Some((SocketRequest::GetApplications, j))
        } else if tag_is(&tag, "GetDashboardHost") {
            Some((SocketRequest::GetDashboardHost, j))
        } else if tag_is(&tag, "GetRegistryHost") {
            Some((SocketRequest::GetRegistryHost, j))
        } else {
            None
        }
    } else if c == '{' {
        proof {
            assert(s@.skip(start as int).skip(1) =~= s@.skip(start + 1));
        }
        let (tag, j2) = match p_string(s, start + 1) {
            Some(x) => x,
            None => {
                return None;
            },
        };
        let j3 = match eat_lit(s, j2, ":") {
            Some(j) => j,
            None => {
                return None;
            },
        };
        let (req, j4) = match p_request_body(s, j3, &tag) {
            Some(x) => x,
            None => {
                return None;
            },
        };
        let j5 = match eat_lit(s, j4, "}") {
            Some(j) => j,
            None => {
                return None;
            },
        };
        Some((req, j5))
    } else {
        None
    }
}

/// Parses one whole control-channel record, as read off the wire.
pub fn decode_message(s: &str) -> (r: Option<ControlMessage>)
    ensures
        match r {
            Some(m) => sp_message(s@) == Some(m@),
            None => sp_message(s@) is None,
        },
{
    proof {
        assert(s@.skip(0) =~= s@);
    }
    let j1 = match eat_lit(s, 0, "{\"id\":") {
        Some(j) => j,
        None => {
            return None;
        },
    };
    let (id, j2) = match p_u64(s, j1) {
        Some(x) => x,
        None => {
            return None;
        },
    };
    let j3 = match eat_lit(s, j2, ",\"request\":") {
        Some(j) => j,
        None => {
            return None;
        },
    };
    let (request, j4) = match p_request(s, j3) {
        Some(x) => x,
        None => {
            return None;
        },
    };
    let j5 = match eat_lit(s, j4, "}") {
        Some(j) => j,
        None => {
            return None;
        },
    };
    let end = skip_ws_at(s, j5);
    let n = s.unicode_len();
    if end < n {
        proof {
            assert(skip_ws(s@.skip(j5 as int)).len() > 0);
        }
        return None;
    }
    proof {
        assert(skip_ws(s@.skip(j5 as int)).len() == 0);
    }
    Some(ControlMessage { id, request })
}

/// Parses a successful outcome off the wire.
fn p_response(s: &str, i: usize) -> (r: Option<(SocketResponse, usize)>)
    requires
        i <= s@.len(),
    ensures
        match r {
            Some((v, j)) => j <= s@.len() && sp_response(s@.skip(i as int)) == Some(
                (v@, s@.skip(j as int)),
            ),
            None => sp_response(s@.skip(i as int)) is None,
        },
{
    let start = skip_ws_at(s, i);
    let n = s.unicode_len();
    proof {
        if start < n {
            assert(s@.skip(start as int)[0] == s@[start as int]);
        }
        crate::wire::lemma_skip_ws_head(s@.skip(i as int));
    }
    if start >= n {
        return None;
    }
    let c = s.get_char(start);
    if c == '"' {
        let (tag, j) = match p_string(s, i) {
            Some(x) => x,
            None => {
                return None;
            },
        };
        if tag_is(&tag, "CreatedApplication") {
            Some((SocketResponse::CreatedApplication, j))
        } else if tag_is(&tag, "EditedApplication") {
            Some((SocketResponse::EditedApplication, j))
        } else if tag_is(&tag, "DeletedApplication") {
            Some((SocketResponse::DeletedApplication, j))
        } else if tag_is(&tag, "EditedDashboardHost") {
            Some((SocketResponse::EditedDashboardHost, j))
        } else if tag_is(&tag, "EditedRegistryHost") {
            Some((SocketResponse::EditedRegistryHost, j))
        } else {
            None
        }
    } else if c == '{' {
        proof {
            assert(s@.skip(start as int).skip(1) =~= s@.skip(start + 1));
        }
        let (tag, j2) = match p_string(s, start + 1) {
            Some(x) => x,
            None => {
                return None;
            },
        };
        let j3 = match eat_lit(s, j2, ":") {
            Some(j) => j,
            None => {
                return None;
            },
        };
        if tag_is(&tag, "Application") {
            let (a, j4) = match crate::config::p_app(s, j3) {
                Some(x) => x,
                None => {
                    return None;
                },
            };
            let j5 = match eat_lit(s, j4, "}") {
                Some(j) => j,
                None => {
                    return None;
                },
            };
            Some((SocketResponse::Application(a), j5))
        } else if tag_is(&tag, "Applications") {
            let (list, j4) = match crate::config::p_apps(s, j3) {
                Some(x) => x,
                None => {
                    return None;
                },
            };
            let j5 = match eat_lit(s, j4, "}") {
                Some(j) => j,
                None => {
                    return None;
                },
            };
            Some((SocketResponse::Applications(list), j5))
        } else if tag_is(&tag, "DashboardHost") || tag_is(&tag, "RegistryHost") {
            let (h, j4) = match p_string(s, j3) {
                Some(x) => x,
                None => {
                    return None;
                },
            };
            let j5 = match eat_lit(s, j4, "}") {
                Some(j) => j,
                None => {
                    return None;
                },
            };
            if tag_is(&tag, "DashboardHost") {
                Some((SocketResponse::DashboardHost(h), j5))
            } else {
                Some((SocketResponse::RegistryHost(h), j5))
            }
        } else {
            None
        }
    } else {
        None
    }
}

/// Parses an outcome off the wire.
fn p_outcome(s: &str, i: usize) -> (r: Option<(Result<SocketResponse, SocketFailure>, usize)>)
    requires
        i <= s@.len(),
    ensures
        match r {
            Some((v, j)) => j <= s@.len() && sp_outcome(s@.skip(i as int)) == Some(
                (outcome_view(v), s@.skip(j as int)),
            ),
            None => sp_outcome(s@.skip(i as int)) is None,
        },
{
    let start = skip_ws_at(s, i);
    let n = s.unicode_len();
    proof {
        if start < n {
            assert(s@.skip(start as int)[0] == s@[start as int]);
        }
        crate::wire::lemma_skip_ws_head(s@.skip(i as int));
    }
    if start >= n || s.get_char(start) != '{' {
        return None;
    }
    proof {
        assert(s@.skip(start as int).skip(1) =~= s@.skip(start + 1));
    }
    let (tag, j2) = match p_string(s, start + 1) {
        Some(x) => x,
        None => {
            return None;
        },
    };
    let j3 = match eat_lit(s, j2, ":") {
        Some(j) => j,
        None => {
            return None;
        },
    };
    if tag_is(&tag, "Ok") {
        let (v, j4) = match p_response(s, j3) {
            Some(x) => x,
            None => {
                return None;
            },
        };
        let j5 = match eat_lit(s, j4, "}") {
            Some(j) => j,
            None => {
                return None;
            },
        };
        Some((Ok(v), j5))
    } else if tag_is(&tag, "Err") {
        let (name, j4) = match p_string(s, j3) {
            Some(x) => x,
            None => {
                return None;
            },
        };
        let e = if tag_is(&name, "NameInUse") {
            SocketFailure::NameInUse
        } else if tag_is(&name, "ApplicationNotFound") {
            SocketFailure::ApplicationNotFound
        } else if tag_is(&name, "HostnameInUse") {
            SocketFailure::HostnameInUse
        } else if tag_is(&name, "ConnectionClosed") {
            SocketFailure::ConnectionClosed
        } else {
            return None;
        };
        let j5 = match eat_lit(s, j4, "}") {
            Some(j) => j,
            None => {
                return None;
            },
        };
        Some((Err(e), j5))
    } else {
        None
    }
}

/// Parses one whole reply record, as the administrative client reads it off
/// the wire.
pub fn decode_reply(s: &str) -> (r: Option<SocketReply>)
    ensures
        match r {
            Some(reply) => sp_reply(s@) == Some(reply@),
            None => sp_reply(s@) is None,
        },
{
    proof {
        assert(s@.skip(0) =~= s@);
    }
    let j1 = match eat_lit(s, 0, "{\"regarding\":") {
        Some(j) => j,
        None => {
            return None;
        },
    };
    let (regarding, j2) = match p_u64(s, j1) {
        Some(x) => x,
        None => {
            return None;
        },
    };
    let j3 = match eat_lit(s, j2, ",\"response\":") {
        Some(j) => j,
        None => {
            return None;
        },
    };
    let (response, j4) = match p_outcome(s, j3) {
        Some(x) => x,
        None => {
            return None;
        },
    };
    let j5 = match eat_lit(s, j4, "}") {
        Some(j) => j,
        None => {
            return None;
        },
    };
    let end = skip_ws_at(s, j5);
    let n = s.unicode_len();
    if end < n {
        proof {
            assert(skip_ws(s@.skip(j5 as int)).len() > 0);
        }
        return None;
    }
    proof {
        assert(skip_ws(s@.skip(j5 as int)).len() == 0);
    }
    Some(SocketReply { regarding, response })
}

// ---------------------------------------------------------------------------
// Round trip: each side of the channel reads back what the other printed
// ---------------------------------------------------------------------------

/// A printed optional string parses back exactly.
pub proof fn lemma_opt_string_roundtrip(o: Option<Seq<char>>, rest: Seq<char>)
    ensures
        sp_opt_string(enc_opt_string(o) + rest) == Some((o, rest)),
{
    reveal_strlit("null");
    match o {
        None => {
            let t = "null"@ + rest;
            assert(t[0] == 'n');
            crate::wire::lemma_skip_ws_no_ws(t);
            crate::wire::lemma_sp_lit_roundtrip("null"@, rest);
        },
        Some(s) => {
            let t = crate::wire::enc_string(s) + rest;
            assert(t[0] == '"');
            crate::wire::lemma_skip_ws_no_ws(t);
            crate::wire::lemma_string_roundtrip(s, rest);
        },
    }
}

/// A printed request parses back exactly, whatever follows it.
#[verifier::rlimit(100)]
pub proof fn lemma_request_roundtrip(r: SocketRequestView, rest: Seq<char>)
    ensures
        sp_request(enc_request(r) + rest) == Some((r, rest)),
{
    reveal_strlit("CreateApplication");
    reveal_strlit("GetApplication");
    reveal_strlit("GetApplications");
    reveal_strlit("EditApplication");
    reveal_strlit("DeleteApplication");
    reveal_strlit("GetDashboardHost");
    reveal_strlit("GetRegistryHost");
    reveal_strlit("EditDashboardHost");
    reveal_strlit("EditRegistryHost");
    reveal_strlit("{");
    reveal_strlit(":");
    reveal_strlit("}");
    reveal_strlit("{\"name\":");
    reveal_strlit(",\"hostname\":");
    reveal_strlit(",\"new_name\":");
    reveal_strlit(",\"new_hostname\":");
    reveal_strlit("{\"hostname\":");
    match r {
        SocketRequestView::GetApplications => {
            let t = crate::wire::enc_string("GetApplications"@) + rest;
            assert(enc_request(r) + rest =~= t);
            assert(t[0] == '"');
            crate::wire::lemma_skip_ws_no_ws(t);
            crate::wire::lemma_string_roundtrip("GetApplications"@, rest);
            assert(skip_ws(t) == t);
            assert(sp_string(skip_ws(t)) == Some(("GetApplications"@, rest)));
            assert(sp_request(t) == Some((r, rest)));
        },
        SocketRequestView::GetDashboardHost => {
            let t = crate::wire::enc_string("GetDashboardHost"@) + rest;
            assert(enc_request(r) + rest =~= t);
            assert(t[0] == '"');
            crate::wire::lemma_skip_ws_no_ws(t);
            crate::wire::lemma_string_roundtrip("GetDashboardHost"@, rest);
            assert(skip_ws(t) == t);
            assert(sp_string(skip_ws(t)) == Some(("GetDashboardHost"@, rest)));
            assert("GetDashboardHost"@ != "GetApplications"@) by {
                assert("GetDashboardHost"@.len() == 16);
                assert("GetApplications"@.len() == 15);
            }
            assert(sp_request(t) == Some((r, rest)));
        },
        SocketRequestView::GetRegistryHost => {
            let t = crate::wire::enc_string("GetRegistryHost"@) + rest;
            assert(enc_request(r) + rest =~= t);
            assert(t[0] == '"');
            crate::wire::lemma_skip_ws_no_ws(t);
            crate::wire::lemma_string_roundtrip("GetRegistryHost"@, rest);
            assert(skip_ws(t) == t);
            assert(sp_string(skip_ws(t)) == Some(("GetRegistryHost"@, rest)));
            assert("GetRegistryHost"@ != "GetApplications"@) by {
                assert("GetRegistryHost"@[3] == 'R');
                assert("GetApplications"@[3] == 'A');
            }
            assert("GetRegistryHost"@ != "GetDashboardHost"@) by {
                assert("GetRegistryHost"@.len() == 15);
                assert("GetDashboardHost"@.len() == 16);
            }
            assert(sp_request(t) == Some((r, rest)));
        },
        SocketRequestView::CreateApplication { name, hostname } => {
            let t8 = "}"@ + rest;
            let t7 = "}"@ + t8;
            let t6 = crate::wire::enc_string(hostname) + t7;
            let t5 = ",\"hostname\":"@ + t6;
            let t4 = crate::wire::enc_string(name) + t5;
            let t3 = "{\"name\":"@ + t4;
            let t2 = ":"@ + t3;
            let t1 = crate::wire::enc_string("CreateApplication"@) + t2;
            let t = "{"@ + t1;
            assert(enc_request(r) + rest =~= t);
            assert(t[0] == '{');
            crate::wire::lemma_skip_ws_no_ws(t);
            assert(t.skip(1) =~= t1);
            crate::wire::lemma_string_step("CreateApplication"@, t2);
            crate::wire::lemma_lit_step(":"@, t3);
            crate::wire::lemma_lit_step("{\"name\":"@, t4);
            crate::wire::lemma_string_step(name, t5);
            crate::wire::lemma_lit_step(",\"hostname\":"@, t6);
            crate::wire::lemma_string_step(hostname, t7);
            crate::wire::lemma_lit_step("}"@, t8);
            crate::wire::lemma_lit_step("}"@, rest);
        },
        SocketRequestView::GetApplication { name } => {
            let t6 = "}"@ + rest;
            let t5 = "}"@ + t6;
            let t4 = crate::wire::enc_string(name) + t5;
            let t3 = "{\"name\":"@ + t4;
            let t2 = ":"@ + t3;
            let t1 = crate::wire::enc_string("GetApplication"@) + t2;
            let t = "{"@ + t1;
            assert(enc_request(r) + rest =~= t);
            assert(t[0] == '{');
            crate::wire::lemma_skip_ws_no_ws(t);
            assert(t.skip(1) =~= t1);
            crate::wire::lemma_string_step("GetApplication"@, t2);
            crate::wire::lemma_lit_step(":"@, t3);
            crate::wire::lemma_lit_step("{\"name\":"@, t4);
            crate::wire::lemma_string_step(name, t5);
            crate::wire::lemma_lit_step("}"@, t6);
            crate::wire::lemma_lit_step("}"@, rest);
        },
        SocketRequestView::DeleteApplication { name } => {
            let t6 = "}"@ + rest;
            let t5 = "}"@ + t6;
            let t4 = crate::wire::enc_string(name) + t5;
            let t3 = "{\"name\":"@ + t4;
            let t2 = ":"@ + t3;
            let t1 = crate::wire::enc_string("DeleteApplication"@) + t2;
            let t = "{"@ + t1;
            assert(enc_request(r) + rest =~= t);
            assert(t[0] == '{');
            crate::wire::lemma_skip_ws_no_ws(t);
            assert(t.skip(1) =~= t1);
            crate::wire::lemma_string_step("DeleteApplication"@, t2);
            crate::wire::lemma_lit_step(":"@, t3);
            crate::wire::lemma_lit_step("{\"name\":"@, t4);
            crate::wire::lemma_string_step(name, t5);
            crate::wire::lemma_lit_step("}"@, t6);
            crate::wire::lemma_lit_step("}"@, rest);
        },
        SocketRequestView::EditApplication { name, new_name, new_hostname } => {
            let t10 = "}"@ + rest;
            let t9 = "}"@ + t10;
            let t8 = enc_opt_string(new_hostname) + t9;
            let t7 = ",\"new_hostname\":"@ + t8;
            let t6 = enc_opt_string(new_name) + t7;
            let t5 = ",\"new_name\":"@ + t6;
            let t4 = crate::wire::enc_string(name) + t5;
            let t3 = "{\"name\":"@ + t4;
            let t2 = ":"@ + t3;
            let t1 = crate::wire::enc_string("EditApplication"@) + t2;
            let t = "{"@ + t1;
            assert(enc_request(r) + rest =~= t);
            assert(t[0] == '{');
            crate::wire::lemma_skip_ws_no_ws(t);
            assert(t.skip(1) =~= t1);
            crate::wire::lemma_string_step("EditApplication"@, t2);
            crate::wire::lemma_lit_step(":"@, t3);
            crate::wire::lemma_lit_step("{\"name\":"@, t4);
            crate::wire::lemma_string_step(name, t5);
            crate::wire::lemma_lit_step(",\"new_name\":"@, t6);
            lemma_opt_string_roundtrip(new_name, t7);
            crate::wire::lemma_lit_step(",\"new_hostname\":"@, t8);
            lemma_opt_string_roundtrip(new_hostname, t9);
            crate::wire::lemma_lit_step("}"@, t10);
            crate::wire::lemma_lit_step("}"@, rest);
        },
        SocketRequestView::EditDashboardHost { hostname } => {
            let t6 = "}"@ + rest;
            let t5 = "}"@ + t6;
            let t4 = crate::wire::enc_string(hostname) + t5;
            let t3 = "{\"hostname\":"@ + t4;
            let t2 = ":"@ + t3;
            let t1 = crate::wire::enc_string("EditDashboardHost"@) + t2;
            let t = "{"@ + t1;
            assert(enc_request(r) + rest =~= t);
            assert(t[0] == '{');
            crate::wire::lemma_skip_ws_no_ws(t);
            assert(t.skip(1) =~= t1);
            crate::wire::lemma_string_step("EditDashboardHost"@, t2);
            crate::wire::lemma_lit_step(":"@, t3);
            crate::wire::lemma_lit_step("{\"hostname\":"@, t4);
            crate::wire::lemma_string_step(hostname, t5);
            crate::wire::lemma_lit_step("}"@, t6);
            crate::wire::lemma_lit_step("}"@, rest);
        },
        SocketRequestView::EditRegistryHost { hostname } => {
            let t6 = "}"@ + rest;
            let t5 = "}"@ + t6;
            let t4 = crate::wire::enc_string(hostname) + t5;
            let t3 = "{\"hostname\":"@ + t4;
            let t2 = ":"@ + t3;
            let t1 = crate::wire::enc_string("EditRegistryHost"@) + t2;
            let t = "{"@ + t1;
            assert(enc_request(r) + rest =~= t);
            assert(t[0] == '{');
            crate::wire::lemma_skip_ws_no_ws(t);
            assert(t.skip(1) =~= t1);
            crate::wire::lemma_string_step("EditRegistryHost"@, t2);
            crate::wire::lemma_lit_step(":"@, t3);
            crate::wire::lemma_lit_step("{\"hostname\":"@, t4);
            crate::wire::lemma_string_step(hostname, t5);
            crate::wire::lemma_lit_step("}"@, t6);
            crate::wire::lemma_lit_step("}"@, rest);
        },
    }
}

/// A whole envelope printed by the client decodes on the daemon's side to
/// the same id and the same request.
pub proof fn lemma_message_roundtrip(m: ControlMessageView)
    ensures
        sp_message(enc_message(m)) == Some(m),
{
    reveal_strlit("{\"id\":");
    reveal_strlit(",\"request\":");
    reveal_strlit("}");
    let t4 = "}"@ + Seq::<char>::empty();
    let t3 = enc_request(m.request) + t4;
    let t2 = ",\"request\":"@ + t3;
    let t1 = crate::wire::dec_digits(m.id as nat) + t2;
    let t = "{\"id\":"@ + t1;
    assert(enc_message(m) =~= t);
    crate::wire::lemma_lit_step("{\"id\":"@, t1);
    assert(t2[0] == ',');
    crate::wire::lemma_u64_step(m.id, t2);
    crate::wire::lemma_lit_step(",\"request\":"@, t3);
    lemma_request_roundtrip(m.request, t4);
    crate::wire::lemma_lit_step("}"@, Seq::<char>::empty());
    assert(skip_ws(Seq::<char>::empty()).len() == 0);
    assert(sp_message(enc_message(m)).unwrap() =~= m);
}

/// A printed successful outcome parses back exactly.
#[verifier::rlimit(100)]
pub proof fn lemma_response_roundtrip(v: SocketResponseView, rest: Seq<char>)
    ensures
        sp_response(enc_response(v) + rest) == Some((v, rest)),
{
    reveal_strlit("CreatedApplication");
    reveal_strlit("EditedApplication");
    reveal_strlit("DeletedApplication");
    reveal_strlit("EditedDashboardHost");
    reveal_strlit("EditedRegistryHost");
    reveal_strlit("Application");
    reveal_strlit("Applications");
    reveal_strlit("DashboardHost");
    reveal_strlit("RegistryHost");
    reveal_strlit("{");
    reveal_strlit(":");
    reveal_strlit("}");
    match v {
        SocketResponseView::CreatedApplication => {
            let t = crate::wire::enc_string("CreatedApplication"@) + rest;
            assert(t[0] == '"');
            crate::wire::lemma_skip_ws_no_ws(t);
            crate::wire::lemma_string_roundtrip("CreatedApplication"@, rest);
        },
        SocketResponseView::EditedApplication => {
            let t = crate::wire::enc_string("EditedApplication"@) + rest;
            assert(t[0] == '"');
            crate::wire::lemma_skip_ws_no_ws(t);
            crate::wire::lemma_string_roundtrip("EditedApplication"@, rest);
        },
        SocketResponseView::DeletedApplication => {
            let t = crate::wire::enc_string("DeletedApplication"@) + rest;
            assert(t[0] == '"');
            crate::wire::lemma_skip_ws_no_ws(t);
            crate::wire::lemma_string_roundtrip("DeletedApplication"@, rest);
        },
        SocketResponseView::EditedDashboardHost => {
            let t = crate::wire::enc_string("EditedDashboardHost"@) + rest;
            assert(t[0] == '"');
            crate::wire::lemma_skip_ws_no_ws(t);
            crate::wire::lemma_string_roundtrip("EditedDashboardHost"@, rest);
        },
        SocketResponseView::EditedRegistryHost => {
            let t = crate::wire::enc_string("EditedRegistryHost"@) + rest;
            assert(t[0] == '"');
            crate::wire::lemma_skip_ws_no_ws(t);
            crate::wire::lemma_string_roundtrip("EditedRegistryHost"@, rest);
        },
        SocketResponseView::Application(a) => {
            let t5 = "}"@ + rest;
            let t4 = crate::config::enc_app(a) + t5;
            let t2 = ":"@ + t4;
            let t1 = crate::wire::enc_string("Application"@) + t2;
            let t = "{"@ + t1;
            assert(enc_response(v) + rest =~= t);
            assert(t[0] == '{');
            crate::wire::lemma_skip_ws_no_ws(t);
            assert(t.skip(1) =~= t1);
            crate::wire::lemma_string_step("Application"@, t2);
            crate::wire::lemma_lit_step(":"@, t4);
            crate::config::lemma_app_roundtrip(a, t5);
            crate::wire::lemma_lit_step("}"@, rest);
        },
        SocketResponseView::Applications(list) => {
            let t5 = "}"@ + rest;
            let t4 = crate::config::enc_apps(list) + t5;
            let t2 = ":"@ + t4;
            let t1 = crate::wire::enc_string("Applications"@) + t2;
            let t = "{"@ + t1;
            assert(enc_response(v) + rest =~= t);
            assert(t[0] == '{');
            crate::wire::lemma_skip_ws_no_ws(t);
            assert(t.skip(1) =~= t1);
            crate::wire::lemma_string_step("Applications"@, t2);
            crate::wire::lemma_lit_step(":"@, t4);
            crate::config::lemma_apps_roundtrip(list, t5);
            crate::wire::lemma_lit_step("}"@, rest);
        },
        SocketResponseView::DashboardHost(h) => {
            let t5 = "}"@ + rest;
            let t4 = crate::wire::enc_string(h) + t5;
            let t2 = ":"@ + t4;
            let t1 = crate::wire::enc_string("DashboardHost"@) + t2;
            let t = "{"@ + t1;
            assert(enc_response(v) + rest =~= t);
            assert(t[0] == '{');
            crate::wire::lemma_skip_ws_no_ws(t);
            assert(t.skip(1) =~= t1);
            crate::wire::lemma_string_step("DashboardHost"@, t2);
            crate::wire::lemma_lit_step(":"@, t4);
            crate::wire::lemma_string_step(h, t5);
            crate::wire::lemma_lit_step("}"@, rest);
        },
        SocketResponseView::RegistryHost(h) => {
            let t5 = "}"@ + rest;
            let t4 = crate::wire::enc_string(h) + t5;
            let t2 = ":"@ + t4;
            let t1 = crate::wire::enc_string("RegistryHost"@) + t2;
            let t = "{"@ + t1;
            assert(enc_response(v) + rest =~= t);
            assert(t[0] == '{');
            crate::wire::lemma_skip_ws_no_ws(t);
            assert(t.skip(1) =~= t1);
            crate::wire::lemma_string_step("RegistryHost"@, t2);
            crate::wire::lemma_lit_step(":"@, t4);
            crate::wire::lemma_string_step(h, t5);
            crate::wire::lemma_lit_step("}"@, rest);
        },
    }
}

/// A printed outcome parses back exactly.
pub proof fn lemma_outcome_roundtrip(
    o: Result<SocketResponseView, SocketFailure>,
    rest: Seq<char>,
)
    ensures
        sp_outcome(enc_outcome(o) + rest) == Some((o, rest)),
{
    reveal_strlit("Ok");
    reveal_strlit("Err");
    reveal_strlit("NameInUse");
    reveal_strlit("ApplicationNotFound");
    reveal_strlit("HostnameInUse");
    reveal_strlit("ConnectionClosed");
    reveal_strlit("{");
    reveal_strlit(":");
    reveal_strlit("}");
    match o {
        Ok(v) => {
            let t5 = "}"@ + rest;
            let t4 = enc_response(v) + t5;
            let t2 = ":"@ + t4;
            let t1 = crate::wire::enc_string("Ok"@) + t2;
            let t = "{"@ + t1;
            assert(enc_outcome(o) + rest =~= t);
            assert(t[0] == '{');
            crate::wire::lemma_skip_ws_no_ws(t);
            assert(t.skip(1) =~= t1);
            crate::wire::lemma_string_step("Ok"@, t2);
            crate::wire::lemma_lit_step(":"@, t4);
            lemma_response_roundtrip(v, t5);
            crate::wire::lemma_lit_step("}"@, rest);
        },
        Err(e) => {
            let name: Seq<char> = match e {
                SocketFailure::NameInUse => "NameInUse"@,
                SocketFailure::ApplicationNotFound => "ApplicationNotFound"@,
                SocketFailure::HostnameInUse => "HostnameInUse"@,
                SocketFailure::ConnectionClosed => "ConnectionClosed"@,
            };
            let t5 = "}"@ + rest;
            let t4 = crate::wire::enc_string(name) + t5;
            let t2 = ":"@ + t4;
            let t1 = crate::wire::enc_string("Err"@) + t2;
            let t = "{"@ + t1;
            assert(enc_outcome(o) + rest =~= t);
            assert(t[0] == '{');
            crate::wire::lemma_skip_ws_no_ws(t);
            assert(t.skip(1) =~= t1);
            crate::wire::lemma_string_step("Err"@, t2);
            crate::wire::lemma_lit_step(":"@, t4);
            crate::wire::lemma_string_step(name, t5);
            crate::wire::lemma_lit_step("}"@, rest);
        },
    }
}

/// A whole reply printed by the daemon decodes on the client's side to the
/// same id and the same outcome: the correlation id round-trips unchanged.
pub proof fn lemma_reply_roundtrip(rv: SocketReplyView)
    ensures
        sp_reply(enc_reply(rv)) == Some(rv),
{
    reveal_strlit("{\"regarding\":");
    reveal_strlit(",\"response\":");
    reveal_strlit("}");
    let t4 = "}"@ + Seq::<char>::empty();
    let t3 = enc_outcome(rv.response) + t4;
    let t2 = ",\"response\":"@ + t3;
    let t1 = crate::wire::dec_digits(rv.regarding as nat) + t2;
    let t = "{\"regarding\":"@ + t1;
    assert(enc_reply(rv) =~= t);
    crate::wire::lemma_lit_step("{\"regarding\":"@, t1);
    assert(t2[0] == ',');
    crate::wire::lemma_u64_step(rv.regarding, t2);
    crate::wire::lemma_lit_step(",\"response\":"@, t3);
    lemma_outcome_roundtrip(rv.response, t4);
    crate::wire::lemma_lit_step("}"@, Seq::<char>::empty());
    assert(skip_ws(Seq::<char>::empty()).len() == 0);
    assert(sp_reply(enc_reply(rv)).unwrap() =~= rv);
}

} // verus!\n