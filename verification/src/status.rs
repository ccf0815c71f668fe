//! Liveness and readiness answers, audit log queries and XR sessions.
use vstd::prelude::*;
use crate::text::{push_str, string_of};

verus! {

/// The liveness answer.
#[derive(Debug, Clone, Copy, PartialEq, Eq)]
pub struct HealthResponse {
    pub status: &'static str,
    pub version: &'static str,
    pub uptime_seconds: u64,
    pub timestamp: u64,
}

/// The server is alive: status `ok`, with its version, its uptime and the
/// current Unix time (each 0 when unknown).
pub fn health_response(version: &'static str, uptime_seconds: Option<u64>, timestamp: Option<u64>) -> (r: HealthResponse)
    ensures
        r.status@ == "ok"@,
        r.version == version,
        r.uptime_seconds == (match uptime_seconds { Some(u) => u, None => 0 }),
        r.timestamp == (match timestamp { Some(t) => t, None => 0 }),
{
    HealthResponse {
        status: "ok",
        version,
        uptime_seconds: match uptime_seconds { Some(u) => u, None => 0 },
        timestamp: match timestamp { Some(t) => t, None => 0 },
    }
}

/// What readiness depends on.
#[derive(Debug, Clone, PartialEq, Eq)]
pub struct ReadinessChecks {
    pub gpu_available: bool,
    pub license_valid: bool,
    pub license_status: String,
    pub storage_accessible: bool,
}

/// The readiness answer.
#[derive(Debug, Clone, PartialEq, Eq)]
pub struct ReadinessResponse {
    pub status: &'static str,
    pub checks: ReadinessChecks,
}

/// The server is ready when the GPU is available, the licence is valid and
/// storage is reachable; the flag says whether it is.
pub fn readiness(checks: ReadinessChecks) -> (r: (ReadinessResponse, bool))
    ensures
        r.1 == (checks.gpu_available && checks.license_valid && checks.storage_accessible),
        r.0.status@ == (if r.1 { "ready"@ } else { "not_ready"@ }),
        r.0.checks == checks,
{
    let ready = checks.gpu_available && checks.license_valid && checks.storage_accessible;
    (ReadinessResponse { status: if ready { "ready" } else { "not_ready" }, checks }, ready)
}

/// Which audit records to read and what to verify.
#[derive(Debug, Clone, Copy, PartialEq, Eq, Structural)]
pub struct AuditQuery {
    pub limit: Option<usize>,
    pub verify: Option<bool>,
    pub verify_anchor: Option<bool>,
}

/// An audit read returns 200 records by default and never more than 5000;
/// the chain and its anchor are verified only when asked.
pub fn audit_read_plan(query: AuditQuery) -> (r: (usize, bool, bool))
    ensures
        r.0 == (match query.limit { Some(l) => if l < 5000 { l } else { 5000 }, None => 200 }),
        r.1 == (match query.verify { Some(b) => b, None => false }),
        r.2 == (match query.verify_anchor { Some(b) => b, None => false }),
{
    let limit = match query.limit { Some(l) => if l < 5000 { l } else { 5000 }, None => 200 };
    (
        limit,
        match query.verify { Some(b) => b, None => false },
        match query.verify_anchor { Some(b) => b, None => false },
    )
}

/// Starts a WebXR scanning session.
#[derive(Debug, Clone, PartialEq, Eq)]
pub struct XrSessionStartRequest {
    pub mode: String,
    pub device: Option<String>,
    pub notes: Option<String>,
}

/// The new session's id.
#[derive(Debug, Clone, PartialEq, Eq)]
pub struct XrSessionStartResponse {
    pub session_id: String,
}

/// The audit target of an XR session: `xr/session/<id>`.
pub fn xr_session_target(session_id: &str) -> (r: String)
    ensures
        r@ == "xr/session/"@ + session_id@,
{
    let mut v: Vec<char> = Vec::new();
    push_str(&mut v, "xr/session/");
    push_str(&mut v, session_id);
    string_of(v.as_slice())
}

/// A new XR session gets a random version 4 UUID.
pub fn start_xr_session() -> (r: XrSessionStartResponse)
    ensures
        crate::crypto::is_uuid_v4_text(r.session_id@),
{
    XrSessionStartResponse { session_id: crate::crypto::random_uuid() }
}

} // verus!
