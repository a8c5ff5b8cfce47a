//! The rules of the remote API: what events it publishes, how requests are
//! authorized and refused, and how it is configured from the environment.

use vstd::prelude::*;
use vstd::string::StringExecFns;
use crate::models::opt_view;
use crate::text::{chars_of, chars_eq, contains, occurs_at, owned, string_of, trim, trim_chars};

verus! {

/// The kinds of change that the remote API announces to its listeners.
#[derive(Clone, Copy, Debug, PartialEq, Eq, Structural)]
pub enum RemoteEventKind {
    Settings,
    Presets,
    History,
    Process,
    Logs,
    Downloads,
    Chat,
}

/// The name under which an event of `kind` is sent.
pub open spec fn event_name(kind: RemoteEventKind) -> Seq<char> {
    match kind {
        RemoteEventKind::Settings => "settings"@,
        RemoteEventKind::Presets => "presets"@,
        RemoteEventKind::History => "history"@,
        RemoteEventKind::Process => "process"@,
        RemoteEventKind::Logs => "logs"@,
        RemoteEventKind::Downloads => "downloads"@,
        RemoteEventKind::Chat => "chat"@,
    }
}

impl RemoteEventKind {
    pub fn as_str(&self) -> (r: &'static str)
        ensures
            r@ == event_name(*self),
    {
        match self {
            RemoteEventKind::Settings => "settings",
            RemoteEventKind::Presets => "presets",
            RemoteEventKind::History => "history",
            RemoteEventKind::Process => "process",
            RemoteEventKind::Logs => "logs",
            RemoteEventKind::Downloads => "downloads",
            RemoteEventKind::Chat => "chat",
        }
    }
}

/// No two kinds of event share a name.
pub proof fn law_event_names_distinct(a: RemoteEventKind, b: RemoteEventKind)
    ensures
        event_name(a) == event_name(b) ==> a == b,
{
    reveal_strlit("settings");
    reveal_strlit("presets");
    reveal_strlit("history");
    reveal_strlit("process");
    reveal_strlit("logs");
    reveal_strlit("downloads");
    reveal_strlit("chat");
    if event_name(a) == event_name(b) {
        assert(event_name(a)[0] == event_name(b)[0]);
        assert(event_name(a)[2] == event_name(b)[2]);
    }
}

/// `401 Unauthorized`.
pub const UNAUTHORIZED: u16 = 401;

/// `400 Bad Request`.
pub const BAD_REQUEST: u16 = 400;

/// `500 Internal Server Error`.
pub const INTERNAL_SERVER_ERROR: u16 = 500;

/// A refused remote request: the HTTP status and the message sent back.
pub struct ApiError {
    pub status: u16,
    pub message: String,
}

impl ApiError {
    pub fn unauthorized(message: String) -> (e: ApiError)
        ensures
            e.status == UNAUTHORIZED,
            e.message@ == message@,
    {
        ApiError { status: UNAUTHORIZED, message }
    }

    pub fn bad_request(message: String) -> (e: ApiError)
        ensures
            e.status == BAD_REQUEST,
            e.message@ == message@,
    {
        ApiError { status: BAD_REQUEST, message }
    }

    pub fn internal(message: String) -> (e: ApiError)
        ensures
            e.status == INTERNAL_SERVER_ERROR,
            e.message@ == message@,
    {
        ApiError { status: INTERNAL_SERVER_ERROR, message }
    }
}

/// An operation behind a remote request failed: `context`, a colon and the
/// error, as an internal error.
pub fn internal_error(context: &str, err: &str) -> (e: ApiError)
    ensures
        e.status == INTERNAL_SERVER_ERROR,
        e.message@ == context@ + ": "@ + err@,
{
    let mut m = owned(context);
    m.append(": ");
    m.append(err);
    ApiError::internal(m)
}

/// The `Authorization` header of a request, as far as it matters here.
pub enum AuthHeader {
    Missing,
    /// Present, but not visible ASCII text.
    NotText,
    Text(String),
}

/// Why a request is refused, if it is: the header must be present, be text,
/// and, trimmed, be `Bearer ` followed by the configured token.
pub open spec fn auth_refusal(header: AuthHeader, token: Seq<char>) -> Option<Seq<char>> {
    match header {
        AuthHeader::Missing => Some("missing Authorization header"@),
        AuthHeader::NotText => Some("invalid Authorization header"@),
        AuthHeader::Text(v) => if trim(v@) == "Bearer "@ + token {
            None
        } else {
            Some("invalid bearer token"@)
        },
    }
}

/// Checks the credentials of a remote request against `bearer_token`.
pub fn authorize(header: &AuthHeader, bearer_token: &str) -> (r: Result<(), ApiError>)
    ensures
        match auth_refusal(*header, bearer_token@) {
            None => r is Ok,
            Some(m) => r matches Err(e) && e.status == UNAUTHORIZED && e.message@ == m,
        },
{
    match header {
        AuthHeader::Missing => Err(ApiError::unauthorized(owned("missing Authorization header"))),
        AuthHeader::NotText => Err(ApiError::unauthorized(owned("invalid Authorization header"))),
        AuthHeader::Text(v) => {
            let hv = chars_of(v.as_str());
            let t = trim_chars(hv.as_slice());
            let mut expected = owned("Bearer ");
            expected.append(bearer_token);
            let ev = chars_of(expected.as_str());
            if chars_eq(t.as_slice(), ev.as_slice()) {
                Ok(())
            } else {
                Err(ApiError::unauthorized(owned("invalid bearer token")))
            }
        },
    }
}

/// Only the configured token opens the API: a request is let in exactly
/// when its trimmed header is that token after `Bearer `.
pub proof fn law_only_the_token_opens(value: String, token: Seq<char>)
    ensures
        auth_refusal(AuthHeader::Text(value), token) is None <==> trim(value@) == "Bearer "@ + token,
        auth_refusal(AuthHeader::Missing, token) is Some,
        auth_refusal(AuthHeader::NotText, token) is Some,
{
}

/// An id taken from a request, trimmed; a blank one is refused with
/// `<field> cannot be empty`.
pub fn required_id(value: &str, field: &str) -> (r: Result<String, ApiError>)
    ensures
        if trim(value@).len() > 0 {
            r matches Ok(s) && s@ == trim(value@)
        } else {
            r matches Err(e) && e.status == BAD_REQUEST && e.message@ == field@ + " cannot be empty"@
        },
{
    let v = chars_of(value);
    let t = trim_chars(v.as_slice());
    if t.len() == 0 {
        let mut m = owned(field);
        m.append(" cannot be empty");
        Err(ApiError::bad_request(m))
    } else {
        Ok(string_of(t.as_slice()))
    }
}

/// The message printed when the remote API starts on `addr`: a bind to a
/// loopback address stays local, any other is a warning.
pub open spec fn access_message(is_loopback: bool, addr: Seq<char>) -> Seq<char> {
    if is_loopback {
        "remote API listening on local address "@ + addr
    } else {
        "warning: remote API listening on "@ + addr
            + "; keep the bearer token private and only expose it to trusted LAN clients"@
    }
}

/// Only a bind to an address other than loopback draws the warning: the
/// message holds `warning:` exactly then, for any address text that does
/// not itself hold it (no rendering of a socket address does).
pub proof fn law_warning_only_off_loopback(is_loopback: bool, addr: Seq<char>)
    requires
        !contains(addr, "warning:"@),
    ensures
        contains(access_message(is_loopback, addr), "warning:"@) <==> !is_loopback,
{
    let w = "warning:"@;
    let local = "remote API listening on local address "@;
    let warn = "warning: remote API listening on "@;
    reveal_strlit("warning:");
    reveal_strlit("remote API listening on local address ");
    reveal_strlit("warning: remote API listening on ");
    let m = access_message(is_loopback, addr);
    if is_loopback {
        assert(m == local + addr);
        assert forall|i: int| !occurs_at(m, w, i) by {
            if occurs_at(m, w, i) {
                assert(m.subrange(i, i + 8)[0] == w[0]);
                assert(m[i] == 'w');
                if i < local.len() {
                    assert(m[i] == local[i]);
                    assert(local[i] != 'w');
                } else {
                    let j = i - local.len();
                    assert(addr.subrange(j, j + 8) =~= m.subrange(i, i + 8));
                    assert(occurs_at(addr, w, j));
                }
            }
        }
    } else {
        assert(m.subrange(0, 8) =~= warn.subrange(0, 8));
        assert(warn.subrange(0, 8) =~= w);
        assert(occurs_at(m, w, 0));
    }
}

pub fn startup_access_message(is_loopback: bool, addr: &str) -> (r: String)
    ensures
        r@ == access_message(is_loopback, addr@),
{
    if is_loopback {
        let mut m = owned("remote API listening on local address ");
        m.append(addr);
        m
    } else {
        let mut m = owned("warning: remote API listening on ");
        m.append(addr);
        m.append("; keep the bearer token private and only expose it to trusted LAN clients");
        m
    }
}

/// The variable that names the address to serve the remote API on.
pub open spec fn bind_env() -> Seq<char> {
    "LLAMACPPDESK_REMOTE_BIND"@
}

/// The variable that holds the remote API's bearer token.
pub open spec fn token_env() -> Seq<char> {
    "LLAMACPPDESK_REMOTE_TOKEN"@
}

/// An environment variable as it was read.
#[derive(Clone, Debug)]
pub enum EnvValue {
    NotPresent,
    /// Present but unreadable; the error's text.
    Unreadable(String),
    Present(String),
}

/// The address to bind, from the bind variable: none when the variable is
/// missing or blank (the remote API stays off), else the trimmed value.
pub open spec fn bind_setting(v: EnvValue) -> Result<Option<Seq<char>>, Seq<char>> {
    match v {
        EnvValue::NotPresent => Ok(None),
        EnvValue::Unreadable(e) => Err("failed to read "@ + bind_env() + ": "@ + e@),
        EnvValue::Present(s) => if trim(s@).len() == 0 {
            Ok(None)
        } else {
            Ok(Some(trim(s@)))
        },
    }
}

pub fn remote_bind_value(v: EnvValue) -> (r: Result<Option<String>, String>)
    ensures
        match bind_setting(v) {
            Ok(None) => r matches Ok(None),
            Ok(Some(a)) => r matches Ok(Some(s)) && s@ == a,
            Err(m) => r matches Err(e) && e@ == m,
        },
{
    match v {
        EnvValue::NotPresent => Ok(None),
        EnvValue::Unreadable(e) => {
            let mut m = owned("failed to read ");
            m.append("LLAMACPPDESK_REMOTE_BIND");
            m.append(": ");
            m.append(e.as_str());
            Err(m)
        },
        EnvValue::Present(s) => {
            let c = chars_of(s.as_str());
            let t = trim_chars(c.as_slice());
            if t.len() == 0 {
                Ok(None)
            } else {
                Ok(Some(string_of(t.as_slice())))
            }
        },
    }
}

/// The error for a bind value that is not a socket address.
pub fn invalid_bind_message(value: &str, err: &str) -> (r: String)
    ensures
        r@ == "invalid "@ + bind_env() + " value '"@ + value@ + "': "@ + err@,
{
    let mut m = owned("invalid ");
    m.append("LLAMACPPDESK_REMOTE_BIND");
    m.append(" value '");
    m.append(value);
    m.append("': ");
    m.append(err);
    m
}

/// The bearer token, from the token variable (read as text, if it could
/// be): it must be set and not blank once trimmed.
pub open spec fn token_setting(v: Option<Seq<char>>) -> Result<Seq<char>, Seq<char>> {
    match v {
        None => Err(token_env() + " must be set when "@ + bind_env() + " is configured"@),
        Some(s) => if trim(s).len() == 0 {
            Err(token_env() + " cannot be empty"@)
        } else {
            Ok(trim(s))
        },
    }
}

pub fn remote_token_value(v: Option<String>) -> (r: Result<String, String>)
    ensures
        match token_setting(match v { Some(s) => Some(s@), None => None }) {
            Ok(t) => r matches Ok(s) && s@ == t,
            Err(m) => r matches Err(e) && e@ == m,
        },
{
    match v {
        None => {
            let mut m = owned("LLAMACPPDESK_REMOTE_TOKEN");
            m.append(" must be set when ");
            m.append("LLAMACPPDESK_REMOTE_BIND");
            m.append(" is configured");
            Err(m)
        },
        Some(s) => {
            let c = chars_of(s.as_str());
            let t = trim_chars(c.as_slice());
            if t.len() == 0 {
                let mut m = owned("LLAMACPPDESK_REMOTE_TOKEN");
                m.append(" cannot be empty");
                Err(m)
            } else {
                Ok(string_of(t.as_slice()))
            }
        },
    }
}

/// The remote API's setting from its two variables, checked in this order:
/// the bind variable (missing or blank: the remote API stays off); then the
/// address, where `parse_error` is what parsing the trimmed bind value as a
/// socket address reported (`None` when it parsed); then the token. On
/// success, the bearer token to serve with at the parsed address.
pub open spec fn remote_setup(bind: EnvValue, parse_error: Option<Seq<char>>, token: Option<Seq<char>>) -> Result<
    Option<Seq<char>>,
    Seq<char>,
> {
    match bind_setting(bind) {
        Err(m) => Err(m),
        Ok(None) => Ok(None),
        Ok(Some(a)) => match parse_error {
            Some(e) => Err("invalid "@ + bind_env() + " value '"@ + a + "': "@ + e),
            None => match token_setting(token) {
                Ok(t) => Ok(Some(t)),
                Err(m) => Err(m),
            },
        },
    }
}

/// Decides the remote API's setting from the bind variable, the outcome of
/// parsing its trimmed value as a socket address, and the token variable.
pub fn remote_config_outcome(bind: EnvValue, parse_error: Option<String>, token: Option<String>) -> (r: Result<
    Option<String>,
    String,
>)
    ensures
        match remote_setup(bind, opt_view(parse_error), opt_view(token)) {
            Ok(None) => r matches Ok(None),
            Ok(Some(t)) => r matches Ok(Some(s)) && s@ == t,
            Err(m) => r matches Err(e) && e@ == m,
        },
{
    match remote_bind_value(bind) {
        Err(e) => Err(e),
        Ok(None) => Ok(None),
        Ok(Some(a)) => match parse_error {
            Some(e) => Err(invalid_bind_message(a.as_str(), e.as_str())),
            None => match remote_token_value(token) {
                Ok(t) => Ok(Some(t)),
                Err(e) => Err(e),
            },
        },
    }
}

} // verus!

