//! Audit records: one per terminated request attempt.
//!
//! The library builds the record; the binary appends it to the audit file
//! as one JSON line.  The `decision` field is `allow` exactly when no
//! error code is present.

use vstd::prelude::*;
use crate::clock::now_unix_millis;
use crate::policy::PolicyDecision;

verus! {

/// One line of the audit log.
#[derive(Debug)]
pub struct AuditEntry {
    pub ts_unix_ms: u64,
    pub method: String,
    pub url: String,
    pub status: u16,
    pub error_code: Option<String>,
    pub request_bytes: usize,
    pub response_bytes: usize,
    pub redirects: u32,
    pub decision: String,
    pub policy_hash: Option<String>,
    pub decision_id: Option<String>,
}

/// The record's internal consistency: `decision` says `deny` exactly when
/// an error code is present, and `allow` otherwise.
pub open spec fn audit_entry_consistent(e: AuditEntry) -> bool {
    &&& e.decision@ == if e.error_code is Some {
        "deny"@
    } else {
        "allow"@
    }
    &&& (e.error_code is Some ==> e.decision@ != "allow"@)
    &&& (e.error_code is None ==> e.decision@ != "deny"@)
}

/// Builds one audit record.  The timestamp is read from the clock; every
/// other field is pinned by the arguments, and the decision is derived
/// from the presence of an error code.
pub fn make_audit_entry(
    method: &str,
    url: String,
    status: u16,
    error_code: Option<&str>,
    request_bytes: usize,
    response_bytes: usize,
    redirects: u32,
    policy: Option<&PolicyDecision>,
) -> (e: AuditEntry)
    ensures
        e.method@ == method@,
        e.url@ == url@,
        e.status == status,
        match (e.error_code, error_code) {
            (Some(c), Some(given)) => c@ == given@,
            (None, None) => true,
            _ => false,
        },
        e.request_bytes == request_bytes,
        e.response_bytes == response_bytes,
        e.redirects == redirects,
        audit_entry_consistent(e),
        match (e.policy_hash, policy) {
            (Some(h), Some(d)) => h@ == d.policy_hash@,
            (None, None) => true,
            _ => false,
        },
        match (e.decision_id, policy) {
            (Some(i), Some(d)) => i@ == d.decision_id@,
            (None, None) => true,
            _ => false,
        },
{
    let ts_unix_ms = now_unix_millis();
    let decision = if error_code.is_some() {
        "deny".to_owned()
    } else {
        "allow".to_owned()
    };
    proof {
        reveal_strlit("deny");
        reveal_strlit("allow");
        assert("deny"@.len() == 4);
        assert("allow"@.len() == 5);
        assert("deny"@ != "allow"@);
    }
    AuditEntry {
        ts_unix_ms,
        method: method.to_owned(),
        url,
        status,
        error_code: match error_code {
            Some(c) => Some(c.to_owned()),
            None => None,
        },
        request_bytes,
        response_bytes,
        redirects,
        decision,
        policy_hash: match policy {
            Some(d) => Some(d.policy_hash.clone()),
            None => None,
        },
        decision_id: match policy {
            Some(d) => Some(d.decision_id.clone()),
            None => None,
        },
    }
}

} // verus!
