//! Classification of transport failures into the three categories that the
//! application reports differently: timeouts, unreachable servers, and the
//! rest.

use vstd::prelude::*;

verus! {

/// Category of a failed request or read.
#[derive(Clone, Copy, Debug, PartialEq, Eq, Structural)]
pub enum FailureKind {
    Timeout,
    Unavailable,
    Other,
}

/// Failure category of a chat stream.
pub type ChatFailureKind = FailureKind;

/// Failure category of a download.
pub type DownloadFailureKind = FailureKind;

/// Failure category of a health check.
pub type HealthFailureKind = FailureKind;

/// The category of a request failure, given whether it timed out and
/// whether connecting failed: a timeout wins over a connection failure.
pub open spec fn kind_from_flags(timed_out: bool, connect_failed: bool) -> FailureKind {
    if timed_out {
        FailureKind::Timeout
    } else if connect_failed {
        FailureKind::Unavailable
    } else {
        FailureKind::Other
    }
}

pub fn failure_kind_from_flags(timed_out: bool, connect_failed: bool) -> (k: FailureKind)
    ensures
        k == kind_from_flags(timed_out, connect_failed),
{
    if timed_out {
        FailureKind::Timeout
    } else if connect_failed {
        FailureKind::Unavailable
    } else {
        FailureKind::Other
    }
}

#[verifier::external_type_specification]
#[verifier::external_body]
pub struct ExReqwestError(reqwest::Error);

#[verifier::external_type_specification]
#[verifier::external_body]
pub struct ExIoError(std::io::Error);

/// What `reqwest::Error::is_timeout` reports of an error: whether a timeout
/// occurs in its chain of sources.
pub uninterp spec fn timed_out(err: reqwest::Error) -> bool;

/// What `reqwest::Error::is_connect` reports of an error: whether its chain
/// holds a failure to connect.
pub uninterp spec fn connect_failed(err: reqwest::Error) -> bool;

/// Trusted: `reqwest::Error::is_timeout`; its answer depends on the error
/// alone (its kind and chain of sources), which `timed_out` names.
#[verifier::external_body]
fn reqwest_error_is_timeout(err: &reqwest::Error) -> (b: bool)
    ensures
        b == timed_out(*err),
{
    err.is_timeout()
}

/// Trusted: `reqwest::Error::is_connect`; its answer depends on the error
/// alone, which `connect_failed` names.
#[verifier::external_body]
fn reqwest_error_is_connect(err: &reqwest::Error) -> (b: bool)
    ensures
        b == connect_failed(*err),
{
    err.is_connect()
}

/// The category of a failed HTTP request: `Timeout` when it timed out,
/// otherwise `Unavailable` when connecting failed, otherwise `Other`.
pub fn classify_reqwest_failure(err: &reqwest::Error) -> (k: FailureKind)
    ensures
        k == kind_from_flags(timed_out(*err), connect_failed(*err)),
{
    let timed_out = reqwest_error_is_timeout(err);
    let connect_failed = reqwest_error_is_connect(err);
    failure_kind_from_flags(timed_out, connect_failed)
}

/// The kinds of I/O error that the classification distinguishes; every
/// other `std::io::ErrorKind` is `Other`.
#[derive(Clone, Copy, Debug, PartialEq, Eq, Structural)]
pub enum IoErrorKind {
    TimedOut,
    ConnectionRefused,
    ConnectionAborted,
    ConnectionReset,
    NotConnected,
    BrokenPipe,
    UnexpectedEof,
    Other,
}

/// The kind of an I/O error, as `std::io::Error::kind` reports it, reduced
/// to the kinds listed in `IoErrorKind`.
pub uninterp spec fn io_kind(err: std::io::Error) -> IoErrorKind;

/// Trusted: `std::io::Error::kind`, with each listed `ErrorKind` mapped to
/// the variant of the same name and all others to `Other`. The kind is a
/// property of the error value alone, which `io_kind` names.
#[verifier::external_body]
fn io_error_kind(err: &std::io::Error) -> (k: IoErrorKind)
    ensures
        k == io_kind(*err),
{
    match err.kind() {
        std::io::ErrorKind::TimedOut => IoErrorKind::TimedOut,
        std::io::ErrorKind::ConnectionRefused => IoErrorKind::ConnectionRefused,
        std::io::ErrorKind::ConnectionAborted => IoErrorKind::ConnectionAborted,
        std::io::ErrorKind::ConnectionReset => IoErrorKind::ConnectionReset,
        std::io::ErrorKind::NotConnected => IoErrorKind::NotConnected,
        std::io::ErrorKind::BrokenPipe => IoErrorKind::BrokenPipe,
        std::io::ErrorKind::UnexpectedEof => IoErrorKind::UnexpectedEof,
        _ => IoErrorKind::Other,
    }
}

/// The category of a failed read: a timeout, a lost or refused connection,
/// or anything else.
pub open spec fn io_failure_kind(kind: IoErrorKind) -> FailureKind {
    match kind {
        IoErrorKind::TimedOut => FailureKind::Timeout,
        IoErrorKind::Other => FailureKind::Other,
        _ => FailureKind::Unavailable,
    }
}

pub fn failure_kind_for_io(kind: IoErrorKind) -> (k: FailureKind)
    ensures
        k == io_failure_kind(kind),
{
    match kind {
        IoErrorKind::TimedOut => FailureKind::Timeout,
        IoErrorKind::ConnectionRefused | IoErrorKind::ConnectionAborted
        | IoErrorKind::ConnectionReset | IoErrorKind::NotConnected | IoErrorKind::BrokenPipe
        | IoErrorKind::UnexpectedEof => FailureKind::Unavailable,
        IoErrorKind::Other => FailureKind::Other,
    }
}

/// The category of an error met while reading a download body.
pub fn classify_read_failure(err: &std::io::Error) -> (k: FailureKind)
    ensures
        k == io_failure_kind(io_kind(*err)),
{
    failure_kind_for_io(io_error_kind(err))
}

/// The category of an error met while reading a chat stream.
pub fn classify_stream_read_failure(err: &std::io::Error) -> (k: FailureKind)
    ensures
        k == io_failure_kind(io_kind(*err)),
{
    failure_kind_for_io(io_error_kind(err))
}

} // verus!
