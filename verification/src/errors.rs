use vstd::prelude::*;

verus! {

/// Error kinds surfaced by the capture engine.
///
/// Transient network failures are retried inside the capture loop and never
/// surface through these values; everything else is returned synchronously
/// to the caller of the triggering operation.
#[derive(Debug, Clone, PartialEq, Eq)]
pub enum RecorderError {
    /// The (platform, room id) pair is already registered.
    AlreadyExists,
    /// No recorder is registered under the given room id.
    NotFound,
    /// The named live session does not exist in the recorder's archive.
    SessionNotFound,
    /// The platform adapter refused to validate the room or its credentials.
    PlatformRejected,
    /// A retryable network failure; bounded backoff applies.
    TransientNetworkError,
    /// A segment write failed; fatal for the current session only.
    SegmentWriteError,
    /// A clip range with start >= end, or lying outside the recorded span.
    InvalidRange,
    /// A clip range that crosses a recorded discontinuity marker.
    DiscontinuousRange,
    /// The requested clip output path already exists.
    OutputExists,
    /// An opaque failure message forwarded from the external transcoder.
    TranscodeFailure(String),
}

/// Error kinds for account creation from raw platform cookies.
#[derive(Debug, Clone, PartialEq, Eq)]
pub enum AccountError {
    /// The platform name is not one of the supported platforms.
    UnknownPlatform,
    /// The cookie string lacks a required credential field.
    InvalidCookies,
}

impl RecorderError {
    /// A short stable name for the error kind, for logs and user messages.
    pub fn kind_name(&self) -> (r: &'static str)
        ensures
            r@ == self.spec_kind_name(),
    {
        match self {
            RecorderError::AlreadyExists => "already exists",
            RecorderError::NotFound => "not found",
            RecorderError::SessionNotFound => "session not found",
            RecorderError::PlatformRejected => "platform rejected",
            RecorderError::TransientNetworkError => "transient network error",
            RecorderError::SegmentWriteError => "segment write error",
            RecorderError::InvalidRange => "invalid range",
            RecorderError::DiscontinuousRange => "discontinuous range",
            RecorderError::OutputExists => "output exists",
            RecorderError::TranscodeFailure(_) => "transcode failure",
        }
    }

    /// The name `kind_name` returns for each kind.
    pub open spec fn spec_kind_name(&self) -> Seq<char> {
        match self {
            RecorderError::AlreadyExists => "already exists"@,
            RecorderError::NotFound => "not found"@,
            RecorderError::SessionNotFound => "session not found"@,
            RecorderError::PlatformRejected => "platform rejected"@,
            RecorderError::TransientNetworkError => "transient network error"@,
            RecorderError::SegmentWriteError => "segment write error"@,
            RecorderError::InvalidRange => "invalid range"@,
            RecorderError::DiscontinuousRange => "discontinuous range"@,
            RecorderError::OutputExists => "output exists"@,
            RecorderError::TranscodeFailure(_) => "transcode failure"@,
        }
    }
}

} // verus!
