//! Health checks of the `llama-server` process and the wait for it to become
//! ready.

use vstd::prelude::*;
use vstd::string::StringExecFns;
use crate::failure::{classify_reqwest_failure, connect_failed, kind_from_flags, timed_out, FailureKind, HealthFailureKind};
use crate::models::LlamaServerHealthStatus;
use crate::text::{chars_of, decimal, decimal_string, owned, string_of, trim, trim_end_char, trim_end_char_exec, trim_str};

verus! {

/// Health endpoint checked when none is given.
pub open spec fn default_health_url() -> Seq<char> {
    "http://127.0.0.1:8080/health"@
}

/// The URL to check: the given one, trimmed, unless it is missing or blank.
pub open spec fn normalized_health_url(url: Option<Seq<char>>) -> Seq<char> {
    match url {
        Some(u) => if trim(u).len() > 0 { trim(u) } else { default_health_url() },
        None => default_health_url(),
    }
}

pub fn normalize_health_url(url: Option<String>) -> (r: String)
    ensures
        r@ == normalized_health_url(match url { Some(u) => Some(u@), None => None }),
{
    match url {
        Some(u) => {
            let t = trim_str(u.as_str());
            if t.as_str().is_empty() {
                owned("http://127.0.0.1:8080/health")
            } else {
                t
            }
        },
        None => owned("http://127.0.0.1:8080/health"),
    }
}

/// The message that describes a failed health check of `url`.
pub open spec fn health_error_text(url: Seq<char>, kind: FailureKind, err: Seq<char>) -> Seq<char> {
    match kind {
        FailureKind::Timeout => "timed out waiting for llama-server at "@ + url + ": "@ + err,
        FailureKind::Unavailable => "llama-server at "@ + url + " is unavailable: "@ + err,
        FailureKind::Other => "failed to reach llama-server at "@ + url + ": "@ + err,
    }
}

pub fn health_error_message(url: &str, kind: HealthFailureKind, err: &str) -> (r: String)
    ensures
        r@ == health_error_text(url@, kind, err@),
{
    match kind {
        FailureKind::Timeout => {
            let mut s = owned("timed out waiting for llama-server at ");
            s.append(url);
            s.append(": ");
            s.append(err);
            s
        },
        FailureKind::Unavailable => {
            let mut s = owned("llama-server at ");
            s.append(url);
            s.append(" is unavailable: ");
            s.append(err);
            s
        },
        FailureKind::Other => {
            let mut s = owned("failed to reach llama-server at ");
            s.append(url);
            s.append(": ");
            s.append(err);
            s
        },
    }
}

/// The status reported when the health request itself failed.
pub fn health_status_from_error(url: String, kind: HealthFailureKind, err: &str) -> (r:
    LlamaServerHealthStatus)
    ensures
        !r.healthy,
        r.status_code is None,
        r.message matches Some(m) && m@ == health_error_text(url@, kind, err@),
        r.url@ == url@,
{
    let message = health_error_message(url.as_str(), kind, err);
    LlamaServerHealthStatus { healthy: false, status_code: None, message: Some(message), url }
}

/// The category of a failed health request.
pub fn classify_health_failure(err: &reqwest::Error) -> (k: HealthFailureKind)
    ensures
        k == kind_from_flags(timed_out(*err), connect_failed(*err)),
{
    classify_reqwest_failure(err)
}

/// `StatusCode::is_success`: the status is in `200..300`.
pub open spec fn is_success_status(code: u16) -> bool {
    200 <= code < 300
}

/// `StatusCode::is_success`.
pub fn is_success_code(code: u16) -> (b: bool)
    ensures
        b == is_success_status(code),
{
    200 <= code && code < 300
}

/// The canonical reason phrase that `http::StatusCode::canonical_reason`
/// gives for `code`, if it has one.
pub uninterp spec fn canonical_reason(code: u16) -> Option<Seq<char>>;

/// Trusted: `http::StatusCode::from_u16(code)` followed by
/// `canonical_reason`; the phrase is a fixed function of the code.
/// `from_u16` refuses codes outside `100..=999`, hence the precondition.
#[verifier::external_body]
fn status_reason(code: u16) -> (r: Option<String>)
    requires
        100 <= code <= 999,
    ensures
        match r {
            Some(s) => canonical_reason(code) == Some(s@),
            None => canonical_reason(code) is None,
        },
{
    let status = match reqwest::StatusCode::from_u16(code) {
        Ok(status) => status,
        Err(_) => return None,
    };
    match status.canonical_reason() {
        Some(reason) => Some(reason.to_string()),
        None => None,
    }
}

/// How `Display for StatusCode` writes a status: the code, a space and the
/// reason phrase (a placeholder when the code has none).
pub open spec fn status_text(code: u16) -> Seq<char> {
    decimal(code as nat) + " "@ + match canonical_reason(code) {
        Some(r) => r,
        None => "<unknown status code>"@,
    }
}

/// `StatusCode` as `Display` writes it.
pub fn status_display(code: u16) -> (r: String)
    requires
        100 <= code <= 999,
    ensures
        r@ == status_text(code),
{
    let mut s = decimal_string(code as u64);
    s.append(" ");
    match status_reason(code) {
        Some(reason) => s.append(reason.as_str()),
        None => s.append("<unknown status code>"),
    }
    s
}

/// The status reported when the health endpoint answered with `code`.
pub fn health_status_from_response(url: String, code: u16) -> (r: LlamaServerHealthStatus)
    requires
        100 <= code <= 999,
    ensures
        r.healthy == is_success_status(code),
        r.status_code == Some(code),
        r.message matches Some(m) && m@ == (if is_success_status(code) {
            "llama-server is healthy"@
        } else {
            "health check failed with HTTP status "@ + status_text(code)
        }),
        r.url@ == url@,
{
    let healthy = 200 <= code && code < 300;
    let message = if healthy {
        owned("llama-server is healthy")
    } else {
        let mut m = owned("health check failed with HTTP status ");
        let st = status_display(code);
        m.append(st.as_str());
        m
    };
    LlamaServerHealthStatus { healthy, status_code: Some(code), message: Some(message), url }
}

/// Number of log lines returned when no limit is given.
pub const DEFAULT_LOG_LIMIT: usize = 200;

/// Largest number of log lines returned at once.
pub const MAX_LOG_LIMIT: usize = 2000;

/// The number of log lines to return for a requested `limit`: 200 when none
/// is given, and always within `1..=2000`.
pub fn log_limit(limit: Option<usize>) -> (r: usize)
    ensures
        r == ({
            let l = match limit {
                Some(l) => l,
                None => 200usize,
            };
            if l < 1 { 1usize } else if l > 2000 { 2000usize } else { l }
        }),
{
    let l = match limit {
        Some(l) => l,
        None => DEFAULT_LOG_LIMIT,
    };
    if l < 1 {
        1
    } else if l > MAX_LOG_LIMIT {
        MAX_LOG_LIMIT
    } else {
        l
    }
}

/// Seconds to wait for readiness when no timeout is given.
pub const DEFAULT_READY_TIMEOUT_SECS: u64 = 45;

/// Milliseconds between two rounds of readiness probes.
pub const READY_POLL_INTERVAL_MS: u64 = 600;

/// Timeout of each readiness probe, in seconds.
pub const READY_REQUEST_TIMEOUT_SECS: u64 = 5;

/// What the readiness wait does next.
pub enum ReadyAction {
    /// Compare the time elapsed since the start with the timeout.
    CheckElapsed,
    /// Send a GET request to the URL.
    Probe(String),
    /// Sleep for `READY_POLL_INTERVAL_MS`, then check the elapsed time.
    Sleep,
    /// The wait is over, with this result.
    Finish(Result<LlamaServerHealthStatus, String>),
}

/// What happened since the last action.
pub enum ReadyEvent {
    /// Whether less time than the timeout has elapsed.
    Elapsed { within_timeout: bool },
    /// The probe's response status, or `None` when the request failed.
    Probed { status: Option<u16> },
    /// The sleep is over.
    Slept,
}

/// The phase of the readiness wait.
#[derive(Clone, Copy, Debug, PartialEq, Eq, Structural)]
pub enum ReadyPhase {
    Elapsing,
    ProbingHealth,
    ProbingModels,
    Sleeping,
    Done,
}

/// The wait for `llama-server` to answer on `/health` or `/v1/models`.
pub struct ReadinessWait {
    pub health_url: String,
    pub models_url: String,
    pub timeout_secs: u64,
    pub phase: ReadyPhase,
}

/// The base URL of a server, without trailing slashes.
pub open spec fn server_base(server_url: Seq<char>) -> Seq<char> {
    trim_end_char(server_url, '/')
}

pub open spec fn ready_message() -> Seq<char> {
    "Server is ready"@
}

pub open spec fn ready_timeout_text(secs: u64) -> Seq<char> {
    "Timed out waiting for server to be ready ("@ + decimal(secs as nat) + "s)"@
}

/// `a` is a probe of `url`.
pub open spec fn probes(a: ReadyAction, url: Seq<char>) -> bool {
    &&& a matches ReadyAction::Probe(u)
    &&& u@ == url
}

/// `a` ends the wait: healthy, with the probe's status, on `url`.
pub open spec fn finishes_ready(a: ReadyAction, status: Option<u16>, url: Seq<char>) -> bool {
    &&& a matches ReadyAction::Finish(Ok(s))
    &&& s.healthy
    &&& s.status_code == status
    &&& s.message is Some
    &&& s.message->0@ == ready_message()
    &&& s.url@ == url
}

/// `a` ends the wait with the timeout error.
pub open spec fn finishes_timed_out(a: ReadyAction, secs: u64) -> bool {
    &&& a matches ReadyAction::Finish(Err(e))
    &&& e@ == ready_timeout_text(secs)
}

/// The action awaited in `phase`, repeated when an event does not fit it.
pub open spec fn awaited(w: ReadinessWait, a: ReadyAction) -> bool {
    match w.phase {
        ReadyPhase::Elapsing => a is CheckElapsed,
        ReadyPhase::ProbingHealth => probes(a, w.health_url@),
        ReadyPhase::ProbingModels => probes(a, w.models_url@),
        _ => a is Sleep,
    }
}

/// One step of the readiness wait: from `w` on `ev` to `phase`, doing `a`.
pub open spec fn ready_step(w: ReadinessWait, ev: ReadyEvent, phase: ReadyPhase, a: ReadyAction) -> bool {
    match (w.phase, ev) {
        (ReadyPhase::Elapsing, ReadyEvent::Elapsed { within_timeout }) => if within_timeout {
            phase == ReadyPhase::ProbingHealth && probes(a, w.health_url@)
        } else {
            phase == ReadyPhase::Done && finishes_timed_out(a, w.timeout_secs)
        },
        (ReadyPhase::ProbingHealth, ReadyEvent::Probed { status }) => if status is Some
            && is_success_status(status->0) {
            phase == ReadyPhase::Done && finishes_ready(a, status, w.health_url@)
        } else {
            phase == ReadyPhase::ProbingModels && probes(a, w.models_url@)
        },
        (ReadyPhase::ProbingModels, ReadyEvent::Probed { status }) => if status is Some
            && is_success_status(status->0) {
            phase == ReadyPhase::Done && finishes_ready(a, status, w.models_url@)
        } else {
            phase == ReadyPhase::Sleeping && a is Sleep
        },
        (ReadyPhase::Sleeping, ReadyEvent::Slept) => phase == ReadyPhase::Elapsing
            && a is CheckElapsed,
        _ => phase == w.phase && awaited(w, a),
    }
}

/// A probe answered with a status in `200..300`.
pub open spec fn answered_success(status: Option<u16>) -> bool {
    match status {
        Some(c) => 200 <= c && c < 300,
        None => false,
    }
}

/// The wait ends ready only on a probe answered with a success status: a
/// ready result carries that probe's status, which lies in `200..300`; a
/// probe that failed or answered otherwise never ends the wait ready (on
/// `/v1/models` the wait then sleeps and polls again).
pub proof fn law_ready_only_on_success(w: ReadinessWait, ev: ReadyEvent, phase: ReadyPhase, a: ReadyAction)
    requires
        ready_step(w, ev, phase, a),
    ensures
        a matches ReadyAction::Finish(Ok(s)) ==> {
            &&& s.healthy
            &&& answered_success(s.status_code)
            &&& ev == (ReadyEvent::Probed { status: s.status_code })
            &&& phase == ReadyPhase::Done
        },
        (ev matches ReadyEvent::Probed { status } && !answered_success(status)) ==> !(a matches ReadyAction::Finish(
            Ok(_),
        )),
        w.phase == ReadyPhase::ProbingModels ==> ((ev matches ReadyEvent::Probed { status } && !answered_success(
            status,
        )) ==> (a is Sleep && phase == ReadyPhase::Sleeping)),
{
}

impl ReadinessWait {
    /// Starts the wait for the server at `server_url`, with the timeout in
    /// seconds (45 when none is given). The first action is a time check.
    pub fn start(server_url: &str, timeout_secs: Option<u64>) -> (r: (ReadinessWait, ReadyAction))
        ensures
            r.0.health_url@ == server_base(server_url@) + "/health"@,
            r.0.models_url@ == server_base(server_url@) + "/v1/models"@,
            r.0.timeout_secs == match timeout_secs {
                Some(t) => t,
                None => 45u64,
            },
            r.0.phase == ReadyPhase::Elapsing,
            r.1 is CheckElapsed,
    {
        let v = chars_of(server_url);
        let base_chars = trim_end_char_exec(v.as_slice(), '/');
        let base = string_of(base_chars.as_slice());
        let mut health_url = base.clone();
        health_url.append("/health");
        let mut models_url = base;
        models_url.append("/v1/models");
        let secs = match timeout_secs {
            Some(t) => t,
            None => DEFAULT_READY_TIMEOUT_SECS,
        };
        (
            ReadinessWait { health_url, models_url, timeout_secs: secs, phase: ReadyPhase::Elapsing },
            ReadyAction::CheckElapsed,
        )
    }

    /// Advances the wait on `event`.
    ///
    /// Within the timeout, `/health` is probed first and then `/v1/models`;
    /// the first that answers with a success status ends the wait, healthy,
    /// with that URL and status. When neither does, the wait sleeps and
    /// checks the time again; past the timeout it ends with an error.
    pub fn step(&mut self, event: ReadyEvent) -> (action: ReadyAction)
        requires
            old(self).phase != ReadyPhase::Done,
        ensures
            final(self).health_url@ == old(self).health_url@,
            final(self).models_url@ == old(self).models_url@,
            final(self).timeout_secs == old(self).timeout_secs,
            ready_step(*old(self), event, final(self).phase, action),
    {
        match (self.phase, event) {
            (ReadyPhase::Elapsing, ReadyEvent::Elapsed { within_timeout }) => {
                if within_timeout {
                    self.phase = ReadyPhase::ProbingHealth;
                    ReadyAction::Probe(self.health_url.clone())
                } else {
                    self.phase = ReadyPhase::Done;
                    let mut e = owned("Timed out waiting for server to be ready (");
                    let n = decimal_string(self.timeout_secs);
                    e.append(n.as_str());
                    e.append("s)");
                    ReadyAction::Finish(Err(e))
                }
            },
            (ReadyPhase::ProbingHealth, ReadyEvent::Probed { status }) => {
                match status {
                    Some(c) if 200 <= c && c < 300 => {
                        self.phase = ReadyPhase::Done;
                        ReadyAction::Finish(
                            Ok(
                                LlamaServerHealthStatus {
                                    healthy: true,
                                    status_code: Some(c),
                                    message: Some(owned("Server is ready")),
                                    url: self.health_url.clone(),
                                },
                            ),
                        )
                    },
                    _ => {
                        self.phase = ReadyPhase::ProbingModels;
                        ReadyAction::Probe(self.models_url.clone())
                    },
                }
            },
            (ReadyPhase::ProbingModels, ReadyEvent::Probed { status }) => {
                match status {
                    Some(c) if 200 <= c && c < 300 => {
                        self.phase = ReadyPhase::Done;
                        ReadyAction::Finish(
                            Ok(
                                LlamaServerHealthStatus {
                                    healthy: true,
                                    status_code: Some(c),
                                    message: Some(owned("Server is ready")),
                                    url: self.models_url.clone(),
                                },
                            ),
                        )
                    },
                    _ => {
                        self.phase = ReadyPhase::Sleeping;
                        ReadyAction::Sleep
                    },
                }
            },
            (ReadyPhase::Sleeping, ReadyEvent::Slept) => {
                self.phase = ReadyPhase::Elapsing;
                ReadyAction::CheckElapsed
            },
            (phase, _) => {
                match phase {
                    ReadyPhase::Elapsing => ReadyAction::CheckElapsed,
                    ReadyPhase::ProbingHealth => ReadyAction::Probe(self.health_url.clone()),
                    ReadyPhase::ProbingModels => ReadyAction::Probe(self.models_url.clone()),
                    _ => ReadyAction::Sleep,
                }
            },
        }
    }
}

} // verus!
