//! The in-band health probe: a snapshot of the daemon's limits, answered
//! without touching the mediation pipeline or the audit log.

use vstd::prelude::*;
use crate::config::PepConfig;
use crate::text::str_eq;

verus! {

/// The answer to a health probe.
#[derive(Debug)]
pub struct HealthStatus {
    pub status: String,
    pub version: String,
    pub allowed_domains_count: usize,
    pub max_request_bytes: usize,
    pub max_response_bytes: usize,
}

/// The reserved pseudo-method that asks for a health snapshot instead of
/// a mediated request.
pub fn is_health_method(method: &str) -> (r: bool)
    ensures
        r == (method@ == "HEALTH"@),
{
    str_eq(method, "HEALTH")
}

/// Builds a health snapshot from the current configuration.
pub fn health_check(config: &PepConfig) -> (r: HealthStatus)
    ensures
        r.status@ == "ok"@,
        r.version@ == "0.1.0"@,
        r.allowed_domains_count == config.allowed_domains@.len(),
        r.max_request_bytes == config.max_request_bytes,
        r.max_response_bytes == config.max_response_bytes,
{
    HealthStatus {
        status: "ok".to_owned(),
        version: "0.1.0".to_owned(),
        allowed_domains_count: config.allowed_domains.len(),
        max_request_bytes: config.max_request_bytes,
        max_response_bytes: config.max_response_bytes,
    }
}

} // verus!
