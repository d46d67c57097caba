//! The request mediation pipeline, as a state machine.
//!
//! The library decides; the binary acts.  `start` runs the validation
//! stages that need no I/O and either finishes with an `Outcome` or hands
//! back a state and an action: resolve a host, dispatch the request, or
//! read a response body under a cap.  The binary performs the action and
//! reports its result through `on_event`, until a terminal `Outcome`
//! carries the response envelope and exactly one audit record.

use vstd::prelude::*;
use crate::audit::{AuditEntry, audit_entry_consistent, make_audit_entry};
use crate::b64::{b64_decode, b64_decoding_of, b64_encode, b64_encoding_of};
use crate::config::PepConfig;
use crate::ipaddr::{IpAddress, spec_public_ip};
use crate::ssrf::{blocked_ip_message, ensure_addresses_public, is_host_allowed, is_scheme_allowed,
    spec_all_public, spec_host_allowed, spec_scheme_allowed};
use crate::text::{sanitize_spec, sanitize_url_string, str_eq};
use crate::types::{ErrorEnvelope, HttpRequest, HttpResponse};
use crate::url_model::{UrlParts, join_url, parse_url, url_join_of, url_parse_of};

verus! {

// ---------------------------------------------------------------------------
// HTTP method tokens.
// ---------------------------------------------------------------------------

/// A character allowed in an HTTP method token.
pub open spec fn is_method_char(c: char) -> bool {
    ||| c == '!'
    ||| c == '#'
    ||| c == '$'
    ||| c == '%'
    ||| c == '&'
    ||| c == '\''
    ||| c == '*'
    ||| c == '+'
    ||| c == '-'
    ||| c == '.'
    ||| '0' <= c && c <= '9'
    ||| 'A' <= c && c <= 'Z'
    ||| c == '^'
    ||| c == '_'
    ||| c == '`'
    ||| 'a' <= c && c <= 'z'
    ||| c == '|'
    ||| c == '~'
}

/// A well-formed method: nonempty, token characters only.
pub open spec fn spec_valid_method(s: Seq<char>) -> bool {
    s.len() > 0 && forall|i: int| 0 <= i < s.len() ==> is_method_char(s[i])
}

/// Checks a method string against the token grammar of HTTP.
pub fn is_valid_method(s: &str) -> (r: bool)
    ensures
        r == spec_valid_method(s@),
{
    let n = s.unicode_len();
    if n == 0 {
        return false;
    }
    let mut i: usize = 0;
    while i < n
        invariant
            i <= n,
            n == s@.len(),
            forall|j: int| 0 <= j < i ==> is_method_char(s@[j]),
        decreases n - i,
    {
        let c = s.get_char(i);
        let ok = c == '!' || c == '#' || c == '$' || c == '%' || c == '&' || c == '\'' || c == '*'
            || c == '+' || c == '-' || c == '.' || ('0' <= c && c <= '9') || ('A' <= c && c <= 'Z')
            || c == '^' || c == '_' || c == '`' || ('a' <= c && c <= 'z') || c == '|' || c == '~';
        if !ok {
            return false;
        }
        i = i + 1;
    }
    true
}

// ---------------------------------------------------------------------------
// States, actions, events, outcomes.
// ---------------------------------------------------------------------------

/// What the binary must do next on the mediator's behalf.
pub enum MediatorAction {
    /// Resolve the host at this port and report every address it stands
    /// for.
    Resolve { host: String, port: u16 },
    /// Send the request upstream, without following redirects, and report
    /// the status line and the headers.
    Dispatch { method: String, url: String, headers: Vec<(String, String)>, body: Option<Vec<u8>> },
    /// Read the response body through `read_with_cap` with this cap.
    ReadBody { cap: usize },
}

/// Status line and headers of one upstream response.
pub struct UpstreamHead {
    pub status: u16,
    pub headers: Vec<(String, String)>,
}

/// What the binary reports back.
pub enum MediatorEvent {
    Resolved(Result<Vec<IpAddress>, String>),
    Dispatched(Result<UpstreamHead, String>),
    BodyRead(Result<Vec<u8>, String>),
}

/// A terminated request: the reply envelope and its one audit record.
pub struct Outcome {
    pub response: HttpResponse,
    pub audit: AuditEntry,
}

/// Where the mediator stands while it waits for an event.
pub enum MediatorPhase {
    /// Waiting for the addresses of the initial host.
    InitialResolve,
    /// Ready to dispatch to the current URL.
    AwaitDispatch,
    /// Waiting for the addresses of a redirect target.
    RedirectResolve { next: UrlParts, status: u16 },
    /// Waiting for the capped body of the final response.
    ReadingBody { status: u16, resp_headers: Vec<(String, String)> },
}

/// The mediation state between events.
pub struct Mediator {
    pub method: String,
    pub headers: Vec<(String, String)>,
    pub body_b64: Option<String>,
    pub body: Option<Vec<u8>>,
    pub request_bytes: usize,
    pub allowed_domains: Vec<String>,
    pub max_redirects: u32,
    pub max_request_bytes: usize,
    pub max_response_bytes: usize,
    pub url: UrlParts,
    pub redirects: u32,
    pub phase: MediatorPhase,
}

impl Mediator {
    /// What every state the mediator hands out satisfies.
    pub open spec fn wf(&self) -> bool {
        &&& self.redirects <= self.max_redirects
        &&& self.url.host is Some
        &&& spec_scheme_allowed(self.url.scheme@)
        &&& match self.phase {
            MediatorPhase::RedirectResolve { next, status } => {
                &&& self.redirects < self.max_redirects
                &&& next.host is Some
                &&& spec_scheme_allowed(next.scheme@)
            },
            _ => true,
        }
    }
}

/// One step of the machine: either a new state with the action the binary
/// owes, or a terminal outcome.
pub enum Step {
    Continue(Mediator, MediatorAction),
    Done(Outcome),
}

// ---------------------------------------------------------------------------
// Outcome shapes.
// ---------------------------------------------------------------------------

/// The message inside the response's error envelope, empty when there is
/// none.
pub open spec fn outcome_msg(o: Outcome) -> Seq<char> {
    match o.response.error {
        Some(e) => e.message@,
        None => Seq::<char>::empty(),
    }
}

/// A rejection outcome: the response carries the error code and the last
/// observed upstream status, and the one audit record denies with the same
/// code, URL and counters.
pub open spec fn spec_denied(
    o: Outcome,
    method: Seq<char>,
    url_sanitized: Seq<char>,
    status: u16,
    code: Seq<char>,
    request_bytes: int,
    redirects: u32,
) -> bool {
    &&& o.response.status == status
    &&& o.response.headers@.len() == 0
    &&& o.response.body_base64 is None
    &&& match o.response.error {
        Some(e) => e.code@ == code,
        None => false,
    }
    &&& o.audit.method@ == method
    &&& o.audit.url@ == url_sanitized
    &&& o.audit.status == status
    &&& match o.audit.error_code {
        Some(c) => c@ == code,
        None => false,
    }
    &&& o.audit.request_bytes == request_bytes
    &&& o.audit.response_bytes == 0
    &&& o.audit.redirects == redirects
    &&& o.audit.decision@ == "deny"@
    &&& o.audit.policy_hash is None
    &&& o.audit.decision_id is None
    &&& audit_entry_consistent(o.audit)
}

/// A success outcome: the upstream status and headers pass through, the
/// body returns base64-encoded, and the one audit record allows.
pub open spec fn spec_allowed(
    o: Outcome,
    method: Seq<char>,
    url_sanitized: Seq<char>,
    status: u16,
    resp_headers: Seq<(String, String)>,
    body: Seq<u8>,
    request_bytes: int,
    redirects: u32,
) -> bool {
    &&& o.response.status == status
    &&& o.response.headers@ == resp_headers
    &&& match o.response.body_base64 {
        Some(b) => b@ == b64_encoding_of(body),
        None => false,
    }
    &&& o.response.error is None
    &&& o.audit.method@ == method
    &&& o.audit.url@ == url_sanitized
    &&& o.audit.status == status
    &&& o.audit.error_code is None
    &&& o.audit.request_bytes == request_bytes
    &&& o.audit.response_bytes == body.len()
    &&& o.audit.redirects == redirects
    &&& o.audit.decision@ == "allow"@
    &&& o.audit.policy_hash is None
    &&& o.audit.decision_id is None
    &&& audit_entry_consistent(o.audit)
}

/// Builds a rejection outcome.
fn finish_deny(
    method: &str,
    url_sanitized: String,
    status: u16,
    code: &str,
    msg: &str,
    request_bytes: usize,
    redirects: u32,
) -> (o: Outcome)
    ensures
        spec_denied(o, method@, url_sanitized@, status, code@, request_bytes as int, redirects),
        outcome_msg(o) == msg@,
{
    let response = HttpResponse {
        status,
        headers: Vec::new(),
        body_base64: None,
        error: Some(ErrorEnvelope { code: code.to_owned(), message: msg.to_owned() }),
    };
    let audit = make_audit_entry(
        method,
        url_sanitized,
        status,
        Some(code),
        request_bytes,
        0,
        redirects,
        None,
    );
    Outcome { response, audit }
}

/// Builds a success outcome.
fn finish_allow(
    method: &str,
    url_sanitized: String,
    status: u16,
    resp_headers: Vec<(String, String)>,
    body: &Vec<u8>,
    request_bytes: usize,
    redirects: u32,
) -> (o: Outcome)
    ensures
        spec_allowed(
            o,
            method@,
            url_sanitized@,
            status,
            resp_headers@,
            body@,
            request_bytes as int,
            redirects,
        ),
{
    let encoded = b64_encode(body);
    let response = HttpResponse {
        status,
        headers: resp_headers,
        body_base64: Some(encoded),
        error: None,
    };
    let audit = make_audit_entry(
        method,
        url_sanitized,
        status,
        None,
        request_bytes,
        body.len(),
        redirects,
        None,
    );
    Outcome { response, audit }
}

/// Clones a vector of strings, keeping its view.
fn clone_string_vec(v: &Vec<String>) -> (r: Vec<String>)
    ensures
        r@ == v@,
{
    let mut out: Vec<String> = Vec::new();
    let mut i: usize = 0;
    while i < v.len()
        invariant
            i <= v@.len(),
            out@.len() == i,
            forall|j: int| 0 <= j < i ==> out@[j] == v@[j],
        decreases v@.len() - i,
    {
        out.push(v[i].clone());
        i = i + 1;
    }
    proof {
        assert(out@ =~= v@);
    }
    out
}

/// Clones a header list, keeping its view.
fn clone_header_vec(v: &Vec<(String, String)>) -> (r: Vec<(String, String)>)
    ensures
        r@ == v@,
{
    let mut out: Vec<(String, String)> = Vec::new();
    let mut i: usize = 0;
    while i < v.len()
        invariant
            i <= v@.len(),
            out@.len() == i,
            forall|j: int| 0 <= j < i ==> out@[j] == v@[j],
        decreases v@.len() - i,
    {
        let name = v[i].0.clone();
        let value = v[i].1.clone();
        out.push((name, value));
        i = i + 1;
    }
    proof {
        assert(out@ =~= v@);
    }
    out
}

/// Copies a byte buffer, keeping its view.
fn copy_byte_vec(v: &Vec<u8>) -> (r: Vec<u8>)
    ensures
        r@ == v@,
{
    let mut out: Vec<u8> = Vec::new();
    let mut i: usize = 0;
    while i < v.len()
        invariant
            i <= v@.len(),
            out@.len() == i,
            forall|j: int| 0 <= j < i ==> out@[j] == v@[j],
        decreases v@.len() - i,
    {
        out.push(v[i]);
        i = i + 1;
    }
    proof {
        assert(out@ =~= v@);
    }
    out
}

/// Clones an optional body, keeping its view.
fn clone_opt_bytes(v: &Option<Vec<u8>>) -> (r: Option<Vec<u8>>)
    ensures
        match (r, *v) {
            (Some(a), Some(b)) => a@ == b@,
            (None, None) => true,
            _ => false,
        },
{
    match v {
        Some(b) => Some(copy_byte_vec(b)),
        None => None,
    }
}

// ---------------------------------------------------------------------------
// The entry stage.
// ---------------------------------------------------------------------------

/// Runs the validation stages that need no I/O: method grammar, URL parse,
/// scheme allowlist, host presence, domain allowlist.  A request that
/// clears them waits for the addresses of its host.
pub fn start(request: HttpRequest, config: &PepConfig) -> (r: Step)
    ensures
        !spec_valid_method(request.method@) ==> (r matches Step::Done(o) && spec_denied(
            o,
            request.method@,
            sanitize_spec(request.url@),
            0,
            "invalid_method"@,
            0,
            0,
        ) && outcome_msg(o) == "invalid HTTP method"@),
        spec_valid_method(request.method@) ==> match url_parse_of(request.url@) {
            None => r matches Step::Done(o) && spec_denied(
                o,
                request.method@,
                sanitize_spec(request.url@),
                0,
                "invalid_url"@,
                0,
                0,
            ),
            Some(u) => {
                if !spec_scheme_allowed(u.scheme) {
                    r matches Step::Done(o) && spec_denied(
                        o,
                        request.method@,
                        sanitize_spec(u.full),
                        0,
                        "invalid_url"@,
                        0,
                        0,
                    ) && outcome_msg(o) == "unsupported URL scheme"@
                } else {
                    match u.host {
                        None => r matches Step::Done(o) && spec_denied(
                            o,
                            request.method@,
                            sanitize_spec(u.full),
                            0,
                            "invalid_url"@,
                            0,
                            0,
                        ) && outcome_msg(o) == "missing host"@,
                        Some(h) => {
                            if !spec_host_allowed(h, config.allowed_domains@) {
                                r matches Step::Done(o) && spec_denied(
                                    o,
                                    request.method@,
                                    sanitize_spec(u.full),
                                    0,
                                    "denied_by_policy"@,
                                    0,
                                    0,
                                ) && outcome_msg(o) == "domain not allowlisted"@
                            } else if u.port is None {
                                r matches Step::Done(o) && spec_denied(
                                    o,
                                    request.method@,
                                    sanitize_spec(u.full),
                                    0,
                                    "ssrf_blocked"@,
                                    0,
                                    0,
                                ) && outcome_msg(o) == "missing port"@
                            } else {
                                r matches Step::Continue(m, a) && {
                                    &&& m.wf()
                                    &&& m.method@ == request.method@
                                    &&& m.url.model() == u
                                    &&& m.redirects == 0
                                    &&& m.request_bytes == 0
                                    &&& m.body is None
                                    &&& match (m.body_b64, request.body_base64) {
                                        (Some(a1), Some(b1)) => a1@ == b1@,
                                        (None, None) => true,
                                        _ => false,
                                    }
                                    &&& m.allowed_domains@ == config.allowed_domains@
                                    &&& m.max_redirects == config.max_redirects
                                    &&& m.max_request_bytes == config.max_request_bytes
                                    &&& m.max_response_bytes == config.max_response_bytes
                                    &&& m.phase is InitialResolve
                                    &&& match a {
                                        MediatorAction::Resolve { host, port } => host@ == h
                                            && Some(port) == u.port,
                                        _ => false,
                                    }
                                }
                            }
                        },
                    }
                }
            },
        },
{
    if !is_valid_method(request.method.as_str()) {
        let su = sanitize_url_string(request.url.as_str());
        return Step::Done(
            finish_deny(
                request.method.as_str(),
                su,
                0,
                "invalid_method",
                "invalid HTTP method",
                0,
                0,
            ),
        );
    }
    let url = match parse_url(request.url.as_str()) {
        Ok(u) => u,
        Err(e) => {
            let su = sanitize_url_string(request.url.as_str());
            return Step::Done(
                finish_deny(request.method.as_str(), su, 0, "invalid_url", e.as_str(), 0, 0),
            );
        },
    };
    if !is_scheme_allowed(url.scheme.as_str()) {
        let su = sanitize_url_string(url.full.as_str());
        return Step::Done(
            finish_deny(
                request.method.as_str(),
                su,
                0,
                "invalid_url",
                "unsupported URL scheme",
                0,
                0,
            ),
        );
    }
    let host: String = match &url.host {
        Some(h) => h.clone(),
        None => {
            let su = sanitize_url_string(url.full.as_str());
            return Step::Done(
                finish_deny(request.method.as_str(), su, 0, "invalid_url", "missing host", 0, 0),
            );
        },
    };
    if !is_host_allowed(host.as_str(), config.allowed_domains.as_slice()) {
        let su = sanitize_url_string(url.full.as_str());
        return Step::Done(
            finish_deny(
                request.method.as_str(),
                su,
                0,
                "denied_by_policy",
                "domain not allowlisted",
                0,
                0,
            ),
        );
    }
    let port: u16 = match url.port {
        Some(p) => p,
        None => {
            let su = sanitize_url_string(url.full.as_str());
            return Step::Done(
                finish_deny(request.method.as_str(), su, 0, "ssrf_blocked", "missing port", 0, 0),
            );
        },
    };
    let m = Mediator {
        method: request.method,
        headers: request.headers,
        body_b64: request.body_base64,
        body: None,
        request_bytes: 0,
        allowed_domains: clone_string_vec(&config.allowed_domains),
        max_redirects: config.max_redirects,
        max_request_bytes: config.max_request_bytes,
        max_response_bytes: config.max_response_bytes,
        url,
        redirects: 0,
        phase: MediatorPhase::InitialResolve,
    };
    Step::Continue(m, MediatorAction::Resolve { host, port })
}

// ---------------------------------------------------------------------------
// Event handling.
// ---------------------------------------------------------------------------

/// A redirection status.
pub open spec fn spec_is_redirect(status: u16) -> bool {
    300 <= status && status <= 399
}

/// The value of the first header with this (already lowercased) name.
pub open spec fn header_lookup(hs: Seq<(String, String)>, name: Seq<char>) -> Option<Seq<char>>
    decreases hs.len(),
{
    if hs.len() == 0 {
        None
    } else if hs[0].0@ == name {
        Some(hs[0].1@)
    } else {
        header_lookup(hs.skip(1), name)
    }
}

/// Finds the first header with this name, compared exactly.
fn find_header(hs: &Vec<(String, String)>, name: &str) -> (r: Option<String>)
    ensures
        match r {
            Some(v) => header_lookup(hs@, name@) == Some(v@),
            None => header_lookup(hs@, name@) is None,
        },
{
    let mut i: usize = 0;
    proof {
        assert(hs@.skip(0) =~= hs@);
    }
    while i < hs.len()
        invariant
            i <= hs@.len(),
            header_lookup(hs@, name@) == header_lookup(hs@.skip(i as int), name@),
        decreases hs@.len() - i,
    {
        proof {
            assert(hs@.skip(i as int)[0] == hs@[i as int]);
            assert(hs@.skip(i as int).skip(1) =~= hs@.skip(i + 1));
        }
        if str_eq(hs[i].0.as_str(), name) {
            return Some(hs[i].1.clone());
        }
        i = i + 1;
    }
    None
}

/// The continuation fields every `Continue` step preserves.
pub open spec fn preserves_request(m: Mediator, m2: Mediator) -> bool {
    &&& m2.method@ == m.method@
    &&& m2.headers@ == m.headers@
    &&& m2.allowed_domains@ == m.allowed_domains@
    &&& m2.max_redirects == m.max_redirects
    &&& m2.max_request_bytes == m.max_request_bytes
    &&& m2.max_response_bytes == m.max_response_bytes
}

/// The decoded request body and its size, carried unchanged by every step
/// after the decode stage.
pub open spec fn preserves_payload(m: Mediator, m2: Mediator) -> bool {
    &&& m2.request_bytes == m.request_bytes
    &&& m2.body == m.body
}

/// Feeds the result of the last action back in and takes the next step.
///
/// The caller hands in the event the pending action produced: the resolved
/// addresses of a host, the head of an upstream response, or the capped
/// body.  Every rejection and every completed response is a `Done` with
/// its single audit record; `redirects` never decreases along a request
/// and never exceeds the configured bound.
pub fn on_event(m: Mediator, ev: MediatorEvent) -> (r: Step)
    requires
        m.wf(),
        match (m.phase, ev) {
            (MediatorPhase::InitialResolve, MediatorEvent::Resolved(_)) => true,
            (MediatorPhase::AwaitDispatch, MediatorEvent::Dispatched(_)) => true,
            (MediatorPhase::RedirectResolve { .. }, MediatorEvent::Resolved(_)) => true,
            (MediatorPhase::ReadingBody { .. }, MediatorEvent::BodyRead(_)) => true,
            _ => false,
        },
    ensures
        r matches Step::Continue(m2, a) ==> m2.wf() && m2.redirects >= m.redirects
            && preserves_request(m, m2),
        r matches Step::Done(o) ==> o.audit.redirects <= m.max_redirects
            && audit_entry_consistent(o.audit) && o.audit.method@ == m.method@,
        match (m.phase, ev) {
            (MediatorPhase::InitialResolve, MediatorEvent::Resolved(res)) => match res {
                Err(e) => r matches Step::Done(o) && spec_denied(
                    o,
                    m.method@,
                    sanitize_spec(m.url.full@),
                    0,
                    "ssrf_blocked"@,
                    0,
                    0,
                ) && outcome_msg(o) == "dns failed: "@ + e@,
                Ok(addrs) => {
                    if !spec_all_public(addrs@) {
                        r matches Step::Done(o) && spec_denied(
                            o,
                            m.method@,
                            sanitize_spec(m.url.full@),
                            0,
                            "ssrf_blocked"@,
                            0,
                            0,
                        ) && exists|k: int|
                            0 <= k < addrs@.len() && !spec_public_ip(addrs@[k]) && outcome_msg(o)
                                == blocked_ip_message(addrs@[k]) && (forall|j: int|
                                0 <= j < k ==> spec_public_ip(addrs@[j]))
                    } else {
                        match m.body_b64 {
                            Some(b) => match b64_decoding_of(b@) {
                                None => r matches Step::Done(o) && spec_denied(
                                    o,
                                    m.method@,
                                    sanitize_spec(m.url.full@),
                                    0,
                                    "invalid_body"@,
                                    0,
                                    0,
                                ),
                                Some(bytes) => {
                                    if bytes.len() > m.max_request_bytes {
                                        r matches Step::Done(o) && spec_denied(
                                            o,
                                            m.method@,
                                            sanitize_spec(m.url.full@),
                                            0,
                                            "constraint_violation"@,
                                            0,
                                            0,
                                        ) && outcome_msg(o) == "request body exceeds max bytes"@
                                    } else {
                                        r matches Step::Continue(m2, a) && {
                                            &&& m2.request_bytes == bytes.len()
                                            &&& match m2.body {
                                                Some(bv) => bv@ == bytes,
                                                None => false,
                                            }
                                            &&& m2.url.model() == m.url.model()
                                            &&& m2.redirects == m.redirects
                                            &&& m2.phase is AwaitDispatch
                                            &&& a matches MediatorAction::Dispatch {
                                                method: am,
                                                url: au,
                                                headers: ah,
                                                body: ab,
                                            } && am@ == m.method@ && au@ == m.url.full@ && ah@
                                                == m.headers@ && match ab {
                                                Some(b) => b@ == bytes,
                                                None => false,
                                            }
                                        }
                                    }
                                },
                            },
                            None => r matches Step::Continue(m2, a) && {
                                &&& m2.request_bytes == 0
                                &&& m2.body is None
                                &&& m2.url.model() == m.url.model()
                                &&& m2.redirects == m.redirects
                                &&& m2.phase is AwaitDispatch
                                &&& a matches MediatorAction::Dispatch {
                                    method: am,
                                    url: au,
                                    headers: ah,
                                    body: ab,
                                } && am@ == m.method@ && au@ == m.url.full@ && ah@ == m.headers@
                                    && ab is None
                            },
                        }
                    }
                },
            },
            (MediatorPhase::AwaitDispatch, MediatorEvent::Dispatched(res)) => match res {
                Err(e) => r matches Step::Done(o) && spec_denied(
                    o,
                    m.method@,
                    sanitize_spec(m.url.full@),
                    0,
                    "http_error"@,
                    m.request_bytes as int,
                    m.redirects,
                ) && outcome_msg(o) == e@,
                Ok(head) => {
                    if spec_is_redirect(head.status) {
                        if m.redirects >= m.max_redirects {
                            r matches Step::Done(o) && spec_denied(
                                o,
                                m.method@,
                                sanitize_spec(m.url.full@),
                                head.status,
                                "redirect_blocked"@,
                                m.request_bytes as int,
                                m.redirects,
                            ) && outcome_msg(o) == "redirect limit exceeded"@
                        } else {
                            match header_lookup(head.headers@, "location"@) {
                                None => r matches Step::Done(o) && spec_denied(
                                    o,
                                    m.method@,
                                    sanitize_spec(m.url.full@),
                                    head.status,
                                    "redirect_blocked"@,
                                    m.request_bytes as int,
                                    m.redirects,
                                ) && outcome_msg(o) == "missing Location header"@,
                                Some(loc) => match url_join_of(m.url.full@, loc) {
                                    None => r matches Step::Done(o) && spec_denied(
                                        o,
                                        m.method@,
                                        sanitize_spec(m.url.full@),
                                        head.status,
                                        "redirect_blocked"@,
                                        m.request_bytes as int,
                                        m.redirects,
                                    ) && outcome_msg(o) == "invalid redirect URL"@,
                                    Some(nu) => {
                                        if nu.scheme != m.url.scheme@ {
                                            r matches Step::Done(o) && spec_denied(
                                                o,
                                                m.method@,
                                                sanitize_spec(m.url.full@),
                                                head.status,
                                                "redirect_blocked"@,
                                                m.request_bytes as int,
                                                m.redirects,
                                            ) && outcome_msg(o) == "scheme change blocked"@
                                        } else {
                                            match nu.host {
                                                None => r matches Step::Done(o) && spec_denied(
                                                    o,
                                                    m.method@,
                                                    sanitize_spec(m.url.full@),
                                                    head.status,
                                                    "redirect_blocked"@,
                                                    m.request_bytes as int,
                                                    m.redirects,
                                                ) && outcome_msg(o) == "redirect missing host"@,
                                                Some(nh) => {
                                                    if !spec_host_allowed(
                                                        nh,
                                                        m.allowed_domains@,
                                                    ) {
                                                        r matches Step::Done(o) && spec_denied(
                                                            o,
                                                            m.method@,
                                                            sanitize_spec(m.url.full@),
                                                            head.status,
                                                            "redirect_blocked"@,
                                                            m.request_bytes as int,
                                                            m.redirects,
                                                        ) && outcome_msg(o)
                                                            == "redirect domain not allowlisted"@
                                                    } else if nu.port is None {
                                                        r matches Step::Done(o) && spec_denied(
                                                            o,
                                                            m.method@,
                                                            sanitize_spec(m.url.full@),
                                                            head.status,
                                                            "ssrf_blocked"@,
                                                            m.request_bytes as int,
                                                            m.redirects,
                                                        ) && outcome_msg(o) == "missing port"@
                                                    } else {
                                                        r matches Step::Continue(m2, a) && {
                                                            &&& m2.redirects == m.redirects
                                                            &&& preserves_payload(m, m2)
                                                            &&& m2.phase matches
                                                                MediatorPhase::RedirectResolve {
                                                                next,
                                                                status,
                                                            } && next.model() == nu && status
                                                                == head.status
                                                            &&& m2.url.model() == m.url.model()
                                                            &&& a matches MediatorAction::Resolve {
                                                                host,
                                                                port,
                                                            } && host@ == nh && Some(port)
                                                                == nu.port
                                                        }
                                                    }
                                                },
                                            }
                                        }
                                    },
                                },
                            }
                        }
                    } else {
                        r matches Step::Continue(m2, a) && {
                            &&& m2.redirects == m.redirects
                            &&& preserves_payload(m, m2)
                            &&& m2.url.model() == m.url.model()
                            &&& m2.phase matches MediatorPhase::ReadingBody { status, resp_headers }
                                && status == head.status && resp_headers@ == head.headers@
                            &&& a matches MediatorAction::ReadBody { cap } && cap
                                == m.max_response_bytes
                        }
                    }
                },
            },
            (
                MediatorPhase::RedirectResolve { next, status },
                MediatorEvent::Resolved(res),
            ) => match res {
                Err(e) => r matches Step::Done(o) && spec_denied(
                    o,
                    m.method@,
                    sanitize_spec(m.url.full@),
                    status,
                    "ssrf_blocked"@,
                    m.request_bytes as int,
                    m.redirects,
                ) && outcome_msg(o) == "dns failed: "@ + e@,
                Ok(addrs) => {
                    if !spec_all_public(addrs@) {
                        r matches Step::Done(o) && spec_denied(
                            o,
                            m.method@,
                            sanitize_spec(m.url.full@),
                            status,
                            "ssrf_blocked"@,
                            m.request_bytes as int,
                            m.redirects,
                        ) && exists|k: int|
                            0 <= k < addrs@.len() && !spec_public_ip(addrs@[k]) && outcome_msg(o)
                                == blocked_ip_message(addrs@[k]) && (forall|j: int|
                                0 <= j < k ==> spec_public_ip(addrs@[j]))
                    } else {
                        r matches Step::Continue(m2, a) && {
                            &&& m2.redirects == m.redirects + 1
                            &&& preserves_payload(m, m2)
                            &&& m2.url.model() == next.model()
                            &&& m2.phase is AwaitDispatch
                            &&& a matches MediatorAction::Dispatch {
                                method: am,
                                url: au,
                                headers: ah,
                                body: ab,
                            } && am@ == m.method@ && au@ == next.full@ && ah@ == m.headers@
                                && match (ab, m.body) {
                                (Some(x), Some(y)) => x@ == y@,
                                (None, None) => true,
                                _ => false,
                            }
                        }
                    }
                },
            },
            (
                MediatorPhase::ReadingBody { status, resp_headers },
                MediatorEvent::BodyRead(res),
            ) => match res {
                Err(e) => r matches Step::Done(o) && spec_denied(
                    o,
                    m.method@,
                    sanitize_spec(m.url.full@),
                    status,
                    "constraint_violation"@,
                    m.request_bytes as int,
                    m.redirects,
                ) && outcome_msg(o) == e@,
                Ok(bytes) => r matches Step::Done(o) && spec_allowed(
                    o,
                    m.method@,
                    sanitize_spec(m.url.full@),
                    status,
                    resp_headers@,
                    bytes@,
                    m.request_bytes as int,
                    m.redirects,
                ),
            },
            _ => true,
        },
{
    let Mediator {
        method,
        headers,
        body_b64,
        body,
        request_bytes,
        allowed_domains,
        max_redirects,
        max_request_bytes,
        max_response_bytes,
        url,
        redirects,
        phase,
    } = m;
    match (phase, ev) {
        (MediatorPhase::InitialResolve, MediatorEvent::Resolved(res)) => {
            let addrs = match res {
                Ok(a) => a,
                Err(e) => {
                    let mut msg = String::new();
                    msg.append("dns failed: ");
                    msg.append(e.as_str());
                    let su = sanitize_url_string(url.full.as_str());
                    return Step::Done(
                        finish_deny(method.as_str(), su, 0, "ssrf_blocked", msg.as_str(), 0, 0),
                    );
                },
            };
            match ensure_addresses_public(&addrs) {
                Ok(()) => (),
                Err(blocked) => {
                    let su = sanitize_url_string(url.full.as_str());
                    return Step::Done(
                        finish_deny(method.as_str(), su, 0, "ssrf_blocked", blocked.as_str(), 0, 0),
                    );
                },
            }
            let decoded: Option<Vec<u8>> = match &body_b64 {
                Some(b) => {
                    let bytes = match b64_decode(b.as_str()) {
                        Ok(bytes) => bytes,
                        Err(e) => {
                            let mut msg = String::new();
                            msg.append("base64 decode: ");
                            msg.append(e.as_str());
                            let su = sanitize_url_string(url.full.as_str());
                            return Step::Done(
                                finish_deny(
                                    method.as_str(),
                                    su,
                                    0,
                                    "invalid_body",
                                    msg.as_str(),
                                    0,
                                    0,
                                ),
                            );
                        },
                    };
                    if bytes.len() > max_request_bytes {
                        let su = sanitize_url_string(url.full.as_str());
                        return Step::Done(
                            finish_deny(
                                method.as_str(),
                                su,
                                0,
                                "constraint_violation",
                                "request body exceeds max bytes",
                                0,
                                0,
                            ),
                        );
                    }
                    Some(bytes)
                },
                None => None,
            };
            let req_bytes: usize = match &decoded {
                Some(b) => b.len(),
                None => 0,
            };
            let action = MediatorAction::Dispatch {
                method: method.clone(),
                url: url.full.clone(),
                headers: clone_header_vec(&headers),
                body: clone_opt_bytes(&decoded),
            };
            let m2 = Mediator {
                method,
                headers,
                body_b64,
                body: decoded,
                request_bytes: req_bytes,
                allowed_domains,
                max_redirects,
                max_request_bytes,
                max_response_bytes,
                url,
                redirects,
                phase: MediatorPhase::AwaitDispatch,
            };
            Step::Continue(m2, action)
        },
        (MediatorPhase::AwaitDispatch, MediatorEvent::Dispatched(res)) => {
            let head = match res {
                Ok(h) => h,
                Err(e) => {
                    let su = sanitize_url_string(url.full.as_str());
                    return Step::Done(
                        finish_deny(
                            method.as_str(),
                            su,
                            0,
                            "http_error",
                            e.as_str(),
                            request_bytes,
                            redirects,
                        ),
                    );
                },
            };
            if 300 <= head.status && head.status <= 399 {
                if redirects >= max_redirects {
                    let su = sanitize_url_string(url.full.as_str());
                    return Step::Done(
                        finish_deny(
                            method.as_str(),
                            su,
                            head.status,
                            "redirect_blocked",
                            "redirect limit exceeded",
                            request_bytes,
                            redirects,
                        ),
                    );
                }
                let location = match find_header(&head.headers, "location") {
                    Some(l) => l,
                    None => {
                        let su = sanitize_url_string(url.full.as_str());
                        return Step::Done(
                            finish_deny(
                                method.as_str(),
                                su,
                                head.status,
                                "redirect_blocked",
                                "missing Location header",
                                request_bytes,
                                redirects,
                            ),
                        );
                    },
                };
                let next = match join_url(url.full.as_str(), location.as_str()) {
                    Some(n) => n,
                    None => {
                        let su = sanitize_url_string(url.full.as_str());
                        return Step::Done(
                            finish_deny(
                                method.as_str(),
                                su,
                                head.status,
                                "redirect_blocked",
                                "invalid redirect URL",
                                request_bytes,
                                redirects,
                            ),
                        );
                    },
                };
                if !str_eq(next.scheme.as_str(), url.scheme.as_str()) {
                    let su = sanitize_url_string(url.full.as_str());
                    return Step::Done(
                        finish_deny(
                            method.as_str(),
                            su,
                            head.status,
                            "redirect_blocked",
                            "scheme change blocked",
                            request_bytes,
                            redirects,
                        ),
                    );
                }
                let next_host: String = match &next.host {
                    Some(h) => h.clone(),
                    None => {
                        let su = sanitize_url_string(url.full.as_str());
                        return Step::Done(
                            finish_deny(
                                method.as_str(),
                                su,
                                head.status,
                                "redirect_blocked",
                                "redirect missing host",
                                request_bytes,
                                redirects,
                            ),
                        );
                    },
                };
                if !is_host_allowed(next_host.as_str(), allowed_domains.as_slice()) {
                    let su = sanitize_url_string(url.full.as_str());
                    return Step::Done(
                        finish_deny(
                            method.as_str(),
                            su,
                            head.status,
                            "redirect_blocked",
                            "redirect domain not allowlisted",
                            request_bytes,
                            redirects,
                        ),
                    );
                }
                let next_port: u16 = match next.port {
                    Some(p) => p,
                    None => {
                        let su = sanitize_url_string(url.full.as_str());
                        return Step::Done(
                            finish_deny(
                                method.as_str(),
                                su,
                                head.status,
                                "ssrf_blocked",
                                "missing port",
                                request_bytes,
                                redirects,
                            ),
                        );
                    },
                };
                let m2 = Mediator {
                    method,
                    headers,
                    body_b64,
                    body,
                    request_bytes,
                    allowed_domains,
                    max_redirects,
                    max_request_bytes,
                    max_response_bytes,
                    url,
                    redirects,
                    phase: MediatorPhase::RedirectResolve { next, status: head.status },
                };
                Step::Continue(m2, MediatorAction::Resolve { host: next_host, port: next_port })
            } else {
                let m2 = Mediator {
                    method,
                    headers,
                    body_b64,
                    body,
                    request_bytes,
                    allowed_domains,
                    max_redirects,
                    max_request_bytes,
                    max_response_bytes,
                    url,
                    redirects,
                    phase: MediatorPhase::ReadingBody {
                        status: head.status,
                        resp_headers: head.headers,
                    },
                };
                Step::Continue(m2, MediatorAction::ReadBody { cap: max_response_bytes })
            }
        },
        (MediatorPhase::RedirectResolve { next, status }, MediatorEvent::Resolved(res)) => {
            let addrs = match res {
                Ok(a) => a,
                Err(e) => {
                    let mut msg = String::new();
                    msg.append("dns failed: ");
                    msg.append(e.as_str());
                    let su = sanitize_url_string(url.full.as_str());
                    return Step::Done(
                        finish_deny(
                            method.as_str(),
                            su,
                            status,
                            "ssrf_blocked",
                            msg.as_str(),
                            request_bytes,
                            redirects,
                        ),
                    );
                },
            };
            match ensure_addresses_public(&addrs) {
                Ok(()) => (),
                Err(blocked) => {
                    let su = sanitize_url_string(url.full.as_str());
                    return Step::Done(
                        finish_deny(
                            method.as_str(),
                            su,
                            status,
                            "ssrf_blocked",
                            blocked.as_str(),
                            request_bytes,
                            redirects,
                        ),
                    );
                },
            }
            let action = MediatorAction::Dispatch {
                method: method.clone(),
                url: next.full.clone(),
                headers: clone_header_vec(&headers),
                body: clone_opt_bytes(&body),
            };
            let m2 = Mediator {
                method,
                headers,
                body_b64,
                body,
                request_bytes,
                allowed_domains,
                max_redirects,
                max_request_bytes,
                max_response_bytes,
                url: next,
                redirects: redirects + 1,
                phase: MediatorPhase::AwaitDispatch,
            };
            Step::Continue(m2, action)
        },
        (MediatorPhase::ReadingBody { status, resp_headers }, MediatorEvent::BodyRead(res)) => {
            match res {
                Ok(bytes) => {
                    let su = sanitize_url_string(url.full.as_str());
                    Step::Done(
                        finish_allow(
                            method.as_str(),
                            su,
                            status,
                            resp_headers,
                            &bytes,
                            request_bytes,
                            redirects,
                        ),
                    )
                },
                Err(e) => {
                    let su = sanitize_url_string(url.full.as_str());
                    Step::Done(
                        finish_deny(
                            method.as_str(),
                            su,
                            status,
                            "constraint_violation",
                            e.as_str(),
                            request_bytes,
                            redirects,
                        ),
                    )
                },
            }
        },
        _ => {
            proof {
                assert(false);
            }
            vstd::pervasive::unreached()
        },
    }
}

} // verus!
