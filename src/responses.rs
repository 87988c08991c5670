//! Bodies sent back to callers.

use vstd::prelude::*;

verus! {

/// The envelope of every successful or failed reply.
#[derive(Debug, Clone, PartialEq, Eq)]
pub struct ApiResponse<T> {
    pub success: bool,
    pub data: Option<T>,
    pub error: Option<String>,
}

impl<T> ApiResponse<T> {
    pub fn success(data: T) -> (r: Self)
        ensures
            r.success,
            r.data == Some(data),
            r.error is None,
    {
        ApiResponse { success: true, data: Some(data), error: None }
    }

    pub fn error(message: String) -> (r: Self)
        ensures
            !r.success,
            r.data is None,
            r.error == Some(message),
    {
        ApiResponse { success: false, data: None, error: Some(message) }
    }
}

/// The state of a running service.
#[derive(Debug, Clone, PartialEq, Eq)]
pub struct HealthResponse {
    pub status: String,
    pub version: String,
    pub uptime_seconds: u64,
}

impl HealthResponse {
    /// The report of a service that is up: status `ok`.
    pub fn ok(version: String, uptime_seconds: u64) -> (r: Self)
        ensures
            r.status@ == "ok"@,
            r.version == version,
            r.uptime_seconds == uptime_seconds,
    {
        proof {
            reveal_strlit("ok");
        }
        HealthResponse { status: "ok".to_string(), version, uptime_seconds }
    }
}

} // verus!
