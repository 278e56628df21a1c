//! Error taxonomy of the binding layer, and the fixed mapping from the
//! platform's embedded result codes to domain error kinds.

use vstd::prelude::*;

verus! {

/// The platform's result code that signals success; every other code maps to
/// an error kind via [`spec_error_for_code`].
pub const RESULT_OK: u32 = 1;

/// Outcome taxonomy of an asynchronous operation.
///
/// `IOFailure` is a platform-reported transport failure, `Timeout` means no
/// completion was observed within the entry's budget, and the remaining kinds
/// are decoded embedded result codes. The dispatch machinery never maps a
/// decoded result code to `IOFailure` or `Timeout`, so an outcome tells which
/// of the three resolution paths produced it.
#[derive(Clone, Copy, Debug, PartialEq, Eq, Structural)]
pub enum SteamError {
    /// The platform reported a transport-level failure for the call, or the
    /// result payload did not have the expected fixed layout.
    IOFailure,
    /// No completion or failure record arrived before the entry's deadline.
    Timeout,
    /// A non-success result code with no more specific mapping.
    Generic,
    /// The platform reported that it has no connection to its backend.
    NoConnection,
    /// A parameter of the request was rejected by the platform.
    InvalidParam,
    /// The platform or the resource is busy; the request can be retried.
    Busy,
    /// The platform denied access to the requested resource.
    AccessDenied,
    /// A limit on the resource was exceeded.
    LimitExceeded,
    /// The caller is being rate-limited by the platform.
    RateLimitExceeded,
}

/// The fixed mapping table from a non-success platform result code to the
/// domain error kind.
pub open spec fn spec_error_for_code(code: u32) -> SteamError
    recommends
        code != RESULT_OK,
{
    if code == 3 {
        SteamError::NoConnection
    } else if code == 8 {
        SteamError::InvalidParam
    } else if code == 10 {
        SteamError::Busy
    } else if code == 15 {
        SteamError::AccessDenied
    } else if code == 25 {
        SteamError::LimitExceeded
    } else if code == 84 {
        SteamError::RateLimitExceeded
    } else {
        SteamError::Generic
    }
}

/// Maps a non-success platform result code to its domain error kind, per the
/// fixed mapping table.
pub fn error_from_code(code: u32) -> (r: SteamError)
    ensures
        r == spec_error_for_code(code),
{
    if code == 3 {
        SteamError::NoConnection
    } else if code == 8 {
        SteamError::InvalidParam
    } else if code == 10 {
        SteamError::Busy
    } else if code == 15 {
        SteamError::AccessDenied
    } else if code == 25 {
        SteamError::LimitExceeded
    } else if code == 84 {
        SteamError::RateLimitExceeded
    } else {
        SteamError::Generic
    }
}

/// A decoded result code never maps to the two transport-level kinds: those
/// are reserved for the I/O-failure and timeout resolution paths.
pub proof fn lemma_mapped_code_is_not_transport_kind(code: u32)
    ensures
        spec_error_for_code(code) != SteamError::IOFailure,
        spec_error_for_code(code) != SteamError::Timeout,
{
}

} // verus!
