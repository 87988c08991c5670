//! Failures surfaced to callers of the on-demand path.

use vstd::prelude::*;

verus! {

/// What went wrong while serving a request.
#[derive(Debug, Clone, PartialEq, Eq)]
pub enum AppError {
    BeatmapNotFound(i32),
    InvalidGameMode(u32),
    /// The rejected accuracy, as its IEEE-754 binary64 bit pattern.
    InvalidAccuracy(u64),
    ExternalService(String),
    Internal(String),
    BadRequest(String),
}

/// The body sent back for a failed request.
#[derive(Debug, Clone, PartialEq, Eq)]
pub struct ErrorResponse {
    pub success: bool,
    pub error: String,
    pub code: u16,
}

impl AppError {
    /// The HTTP status that reports this failure.
    pub open spec fn spec_status_code(&self) -> u16 {
        match self {
            AppError::BeatmapNotFound(_) => 404,
            AppError::InvalidGameMode(_) => 400,
            AppError::InvalidAccuracy(_) => 400,
            AppError::BadRequest(_) => 400,
            AppError::ExternalService(_) => 502,
            AppError::Internal(_) => 500,
        }
    }

    /// Whether the failure is a rejection of the request's shape.
    pub open spec fn is_validation(&self) -> bool {
        self is InvalidAccuracy || self is BadRequest
    }

    pub fn status_code(&self) -> (r: u16)
        ensures
            r == self.spec_status_code(),
    {
        match self {
            AppError::BeatmapNotFound(_) => 404,
            AppError::InvalidGameMode(_) => 400,
            AppError::InvalidAccuracy(_) => 400,
            AppError::BadRequest(_) => 400,
            AppError::ExternalService(_) => 502,
            AppError::Internal(_) => 500,
        }
    }

    /// The failure body for this error, carrying `message` as its text.
    pub fn to_response(&self, message: String) -> (r: ErrorResponse)
        ensures
            !r.success,
            r.error == message,
            r.code == self.spec_status_code(),
    {
        ErrorResponse { success: false, error: message, code: self.status_code() }
    }
}

} // verus!
