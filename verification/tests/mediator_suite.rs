use pep_daemon::audit::make_audit_entry;
use pep_daemon::config::PepConfig;
use pep_daemon::ipaddr::{IpAddress, Ipv4Address};
use pep_daemon::mediator::{Mediator, MediatorAction, MediatorEvent, Outcome, Step, UpstreamHead,
    on_event, start};
use pep_daemon::policy::PolicyInput;
use pep_daemon::stream::{SliceSource, read_with_cap};
use pep_daemon::types::{HttpRequest, error_response};
use pep_daemon::url_model::parse_url;

fn config(domains: &[&str]) -> PepConfig {
    PepConfig {
        allowed_domains: domains.iter().map(|d| d.to_string()).collect(),
        max_request_bytes: 5 * 1024 * 1024,
        max_response_bytes: 10 * 1024 * 1024,
        max_redirects: 5,
        audit_log_path: "audit.jsonl".to_string(),
    }
}

fn get_request(url: &str) -> HttpRequest {
    HttpRequest {
        method: "GET".to_string(),
        url: url.to_string(),
        headers: Vec::new(),
        body_base64: None,
    }
}

fn public_ip() -> IpAddress {
    IpAddress::V4(Ipv4Address { a: 93, b: 184, c: 216, d: 34 })
}

fn expect_continue(step: Step) -> (Mediator, MediatorAction) {
    match step {
        Step::Continue(m, a) => (m, a),
        Step::Done(o) => panic!("expected a next action, got outcome {:?}", o.response),
    }
}

fn expect_done(step: Step) -> Outcome {
    match step {
        Step::Done(o) => o,
        Step::Continue(_, _) => panic!("expected an outcome, got a next action"),
    }
}

fn error_code(o: &Outcome) -> String {
    o.response.error.as_ref().expect("expected an error envelope").code.clone()
}

fn error_message(o: &Outcome) -> String {
    o.response.error.as_ref().expect("expected an error envelope").message.clone()
}

/// Drives one request to the dispatch action, resolving its host to a
/// public address.
fn to_dispatch(request: HttpRequest, cfg: &PepConfig) -> (Mediator, MediatorAction) {
    let (m, a) = expect_continue(start(request, cfg));
    assert!(matches!(a, MediatorAction::Resolve { .. }));
    let step = on_event(m, MediatorEvent::Resolved(Ok(vec![public_ip()])));
    expect_continue(step)
}

#[test]
fn allowlisted_get_returns_body_and_allow_audit() {
    let cfg = config(&["example.com"]);
    let (m, a) = expect_continue(start(get_request("https://example.com/"), &cfg));
    match &a {
        MediatorAction::Resolve { host, port } => {
            assert_eq!(host, "example.com");
            assert_eq!(*port, 443);
        },
        _ => panic!("expected a resolve action"),
    }
    let (m, a) = expect_continue(on_event(m, MediatorEvent::Resolved(Ok(vec![public_ip()]))));
    match &a {
        MediatorAction::Dispatch { method, url, .. } => {
            assert_eq!(method, "GET");
            assert_eq!(url, "https://example.com/");
        },
        _ => panic!("expected a dispatch action"),
    }
    let head = UpstreamHead { status: 200, headers: vec![("content-type".to_string(), "text/plain".to_string())] };
    let (m, a) = expect_continue(on_event(m, MediatorEvent::Dispatched(Ok(head))));
    match &a {
        MediatorAction::ReadBody { cap } => assert_eq!(*cap, 10 * 1024 * 1024),
        _ => panic!("expected a read-body action"),
    }
    let outcome = expect_done(on_event(m, MediatorEvent::BodyRead(Ok(b"hi".to_vec()))));
    assert_eq!(outcome.response.status, 200);
    assert!(outcome.response.error.is_none());
    assert_eq!(outcome.response.body_base64.as_deref(), Some("aGk="));
    assert_eq!(outcome.response.headers.len(), 1);
    assert_eq!(outcome.audit.decision, "allow");
    assert_eq!(outcome.audit.redirects, 0);
    assert_eq!(outcome.audit.response_bytes, 2);
    assert_eq!(outcome.audit.status, 200);
    assert!(outcome.audit.error_code.is_none());
}

#[test]
fn unlisted_domain_is_denied_by_policy() {
    let cfg = config(&["example.com"]);
    let outcome = expect_done(start(get_request("https://evil.example/"), &cfg));
    assert_eq!(outcome.response.status, 0);
    assert_eq!(error_code(&outcome), "denied_by_policy");
    assert_eq!(error_message(&outcome), "domain not allowlisted");
    assert_eq!(outcome.audit.decision, "deny");
    assert_eq!(outcome.audit.url, "https://evil.example/");
}

#[test]
fn literal_private_ip_is_ssrf_blocked() {
    let cfg = config(&["10.0.0.1"]);
    let (m, a) = expect_continue(start(get_request("https://10.0.0.1/"), &cfg));
    match &a {
        MediatorAction::Resolve { host, .. } => assert_eq!(host, "10.0.0.1"),
        _ => panic!("expected a resolve action"),
    }
    let private = IpAddress::V4(Ipv4Address { a: 10, b: 0, c: 0, d: 1 });
    let outcome = expect_done(on_event(m, MediatorEvent::Resolved(Ok(vec![private]))));
    assert_eq!(error_code(&outcome), "ssrf_blocked");
    assert!(error_message(&outcome).contains("10.0.0.1"));
    assert_eq!(outcome.audit.decision, "deny");
}

fn redirect_head(location: &str) -> UpstreamHead {
    UpstreamHead {
        status: 302,
        headers: vec![("location".to_string(), location.to_string())],
    }
}

#[test]
fn redirect_cap_blocks_the_second_hop() {
    let mut cfg = config(&["example.com"]);
    cfg.max_redirects = 1;
    let (m, _) = to_dispatch(get_request("https://example.com/"), &cfg);
    let step = on_event(m, MediatorEvent::Dispatched(Ok(redirect_head("https://example.com/a"))));
    let (m, a) = expect_continue(step);
    assert!(matches!(a, MediatorAction::Resolve { .. }));
    let (m, a) = expect_continue(on_event(m, MediatorEvent::Resolved(Ok(vec![public_ip()]))));
    match &a {
        MediatorAction::Dispatch { url, .. } => assert_eq!(url, "https://example.com/a"),
        _ => panic!("expected a dispatch action"),
    }
    let outcome = expect_done(
        on_event(m, MediatorEvent::Dispatched(Ok(redirect_head("https://example.com/b")))),
    );
    assert_eq!(error_code(&outcome), "redirect_blocked");
    assert_eq!(error_message(&outcome), "redirect limit exceeded");
    assert_eq!(outcome.audit.redirects, 1);
    assert_eq!(outcome.audit.decision, "deny");
}

#[test]
fn cross_scheme_redirect_is_blocked() {
    let cfg = config(&["example.com"]);
    let (m, _) = to_dispatch(get_request("https://example.com/"), &cfg);
    let outcome = expect_done(
        on_event(m, MediatorEvent::Dispatched(Ok(redirect_head("http://example.com/")))),
    );
    assert_eq!(error_code(&outcome), "redirect_blocked");
    assert_eq!(error_message(&outcome), "scheme change blocked");
}

#[test]
fn redirect_to_unlisted_domain_is_blocked() {
    let cfg = config(&["example.com"]);
    let (m, _) = to_dispatch(get_request("https://example.com/"), &cfg);
    let outcome = expect_done(
        on_event(m, MediatorEvent::Dispatched(Ok(redirect_head("https://other.example/")))),
    );
    assert_eq!(error_code(&outcome), "redirect_blocked");
    assert_eq!(error_message(&outcome), "redirect domain not allowlisted");
}

#[test]
fn redirect_without_location_is_blocked() {
    let cfg = config(&["example.com"]);
    let (m, _) = to_dispatch(get_request("https://example.com/"), &cfg);
    let head = UpstreamHead { status: 302, headers: Vec::new() };
    let outcome = expect_done(on_event(m, MediatorEvent::Dispatched(Ok(head))));
    assert_eq!(error_code(&outcome), "redirect_blocked");
    assert_eq!(error_message(&outcome), "missing Location header");
    assert_eq!(outcome.audit.status, 302);
}

#[test]
fn unresolvable_redirect_target_is_blocked() {
    let cfg = config(&["example.com"]);
    let (m, _) = to_dispatch(get_request("https://example.com/"), &cfg);
    let outcome = expect_done(
        on_event(m, MediatorEvent::Dispatched(Ok(redirect_head("http://[")))),
    );
    assert_eq!(error_code(&outcome), "redirect_blocked");
    assert_eq!(error_message(&outcome), "invalid redirect URL");
}

#[test]
fn oversize_response_is_a_constraint_violation() {
    let mut cfg = config(&["example.com"]);
    cfg.max_response_bytes = 5;
    let (m, _) = to_dispatch(get_request("https://example.com/"), &cfg);
    let head = UpstreamHead { status: 200, headers: Vec::new() };
    let (m, a) = expect_continue(on_event(m, MediatorEvent::Dispatched(Ok(head))));
    let cap = match a {
        MediatorAction::ReadBody { cap } => cap,
        _ => panic!("expected a read-body action"),
    };
    assert_eq!(cap, 5);
    let mut body_stream = SliceSource::new(vec![7u8; 10]);
    let read = read_with_cap(&mut body_stream, cap);
    let err = read.expect_err("ten bytes must not pass a cap of five");
    let outcome = expect_done(on_event(m, MediatorEvent::BodyRead(Err(err))));
    assert_eq!(error_code(&outcome), "constraint_violation");
    assert!(error_message(&outcome).contains("exceeds max bytes"));
    assert_eq!(outcome.audit.status, 200);
    assert_eq!(outcome.audit.decision, "deny");
    assert_eq!(outcome.response.status, 200);
}

#[test]
fn audit_url_is_scrubbed_of_query_and_fragment() {
    let cfg = config(&["example.com"]);
    let (m, _) = to_dispatch(get_request("https://example.com/x?token=secret#frag"), &cfg);
    let head = UpstreamHead { status: 200, headers: Vec::new() };
    let (m, _) = expect_continue(on_event(m, MediatorEvent::Dispatched(Ok(head))));
    let outcome = expect_done(on_event(m, MediatorEvent::BodyRead(Ok(Vec::new()))));
    assert_eq!(outcome.audit.url, "https://example.com/x");
    assert_eq!(outcome.audit.decision, "allow");
}

#[test]
fn invalid_method_is_rejected_before_anything_else() {
    let cfg = config(&["example.com"]);
    let request = HttpRequest {
        method: "BAD METHOD".to_string(),
        url: "https://example.com/?q=1".to_string(),
        headers: Vec::new(),
        body_base64: None,
    };
    let outcome = expect_done(start(request, &cfg));
    assert_eq!(error_code(&outcome), "invalid_method");
    assert_eq!(error_message(&outcome), "invalid HTTP method");
    assert_eq!(outcome.audit.url, "https://example.com/");
}

#[test]
fn unparseable_url_is_rejected() {
    let cfg = config(&["example.com"]);
    let outcome = expect_done(start(get_request("notaurl"), &cfg));
    assert_eq!(error_code(&outcome), "invalid_url");
}

#[test]
fn non_http_scheme_is_rejected() {
    let cfg = config(&["example.com"]);
    let outcome = expect_done(start(get_request("ftp://example.com/"), &cfg));
    assert_eq!(error_code(&outcome), "invalid_url");
    assert_eq!(error_message(&outcome), "unsupported URL scheme");
}

#[test]
fn undecodable_body_is_rejected() {
    let cfg = config(&["example.com"]);
    let request = HttpRequest {
        method: "POST".to_string(),
        url: "https://example.com/".to_string(),
        headers: Vec::new(),
        body_base64: Some("!!!not-base64!!!".to_string()),
    };
    let (m, _) = expect_continue(start(request, &cfg));
    let outcome = expect_done(on_event(m, MediatorEvent::Resolved(Ok(vec![public_ip()]))));
    assert_eq!(error_code(&outcome), "invalid_body");
    assert!(error_message(&outcome).starts_with("base64 decode: "));
}

#[test]
fn oversized_request_body_is_a_constraint_violation() {
    let mut cfg = config(&["example.com"]);
    cfg.max_request_bytes = 3;
    let request = HttpRequest {
        method: "POST".to_string(),
        url: "https://example.com/".to_string(),
        headers: Vec::new(),
        body_base64: Some("aGVsbG8=".to_string()),
    };
    let (m, _) = expect_continue(start(request, &cfg));
    let outcome = expect_done(on_event(m, MediatorEvent::Resolved(Ok(vec![public_ip()]))));
    assert_eq!(error_code(&outcome), "constraint_violation");
    assert_eq!(error_message(&outcome), "request body exceeds max bytes");
}

#[test]
fn request_body_is_decoded_and_counted() {
    let cfg = config(&["example.com"]);
    let request = HttpRequest {
        method: "POST".to_string(),
        url: "https://example.com/".to_string(),
        headers: Vec::new(),
        body_base64: Some("aGVsbG8=".to_string()),
    };
    let (m, _) = expect_continue(start(request, &cfg));
    let (m, a) = expect_continue(on_event(m, MediatorEvent::Resolved(Ok(vec![public_ip()]))));
    match &a {
        MediatorAction::Dispatch { body, .. } => {
            assert_eq!(body.as_deref(), Some(b"hello".as_slice()));
        },
        _ => panic!("expected a dispatch action"),
    }
    let head = UpstreamHead { status: 204, headers: Vec::new() };
    let (m, _) = expect_continue(on_event(m, MediatorEvent::Dispatched(Ok(head))));
    let outcome = expect_done(on_event(m, MediatorEvent::BodyRead(Ok(Vec::new()))));
    assert_eq!(outcome.audit.request_bytes, 5);
    assert_eq!(outcome.audit.response_bytes, 0);
}

#[test]
fn transport_failure_is_an_http_error() {
    let cfg = config(&["example.com"]);
    let (m, _) = to_dispatch(get_request("https://example.com/"), &cfg);
    let outcome = expect_done(
        on_event(m, MediatorEvent::Dispatched(Err("connection refused".to_string()))),
    );
    assert_eq!(error_code(&outcome), "http_error");
    assert_eq!(error_message(&outcome), "connection refused");
    assert_eq!(outcome.response.status, 0);
}

#[test]
fn dns_failure_is_ssrf_blocked() {
    let cfg = config(&["example.com"]);
    let (m, _) = expect_continue(start(get_request("https://example.com/"), &cfg));
    let outcome = expect_done(
        on_event(m, MediatorEvent::Resolved(Err("name not found".to_string()))),
    );
    assert_eq!(error_code(&outcome), "ssrf_blocked");
    assert_eq!(error_message(&outcome), "dns failed: name not found");
}

#[test]
fn every_terminal_step_carries_exactly_one_audit_record() {
    let cfg = config(&["example.com"]);
    let denied = expect_done(start(get_request("https://evil.example/"), &cfg));
    assert_eq!(denied.audit.decision, "deny");
    assert_eq!(denied.audit.error_code.as_deref(), Some("denied_by_policy"));

    let (m, _) = to_dispatch(get_request("https://example.com/"), &cfg);
    let head = UpstreamHead { status: 200, headers: Vec::new() };
    let (m, _) = expect_continue(on_event(m, MediatorEvent::Dispatched(Ok(head))));
    let allowed = expect_done(on_event(m, MediatorEvent::BodyRead(Ok(Vec::new()))));
    assert_eq!(allowed.audit.decision, "allow");
    assert!(allowed.audit.error_code.is_none());
}

#[test]
fn error_response_has_no_status_and_no_body() {
    let r = error_response("invalid_url", "missing host");
    assert_eq!(r.status, 0);
    assert!(r.headers.is_empty());
    assert!(r.body_base64.is_none());
    let e = r.error.expect("expected the error envelope");
    assert_eq!(e.code, "invalid_url");
    assert_eq!(e.message, "missing host");
}

#[test]
fn audit_entry_decision_follows_error_code() {
    let denied = make_audit_entry("GET", "https://h/".to_string(), 0, Some("invalid_url"), 1, 2, 3, None);
    assert_eq!(denied.decision, "deny");
    assert_eq!(denied.error_code.as_deref(), Some("invalid_url"));
    assert_eq!(denied.request_bytes, 1);
    assert_eq!(denied.response_bytes, 2);
    assert_eq!(denied.redirects, 3);
    let allowed = make_audit_entry("GET", "https://h/".to_string(), 200, None, 0, 0, 0, None);
    assert_eq!(allowed.decision, "allow");
    assert!(allowed.error_code.is_none());
    assert!(allowed.policy_hash.is_none());
    assert!(allowed.decision_id.is_none());
}

#[test]
fn policy_input_uppercases_method_and_lowercases_host() {
    let url = parse_url("https://Example.COM/a/b?q=1").expect("parse");
    let input = PolicyInput::from_http_url(&url, "get");
    assert_eq!(input.action.action_type, "http.request");
    assert_eq!(input.action.resource.method, "GET");
    assert_eq!(input.action.resource.host, "example.com");
    assert_eq!(input.action.resource.scheme, "https");
    assert_eq!(input.action.resource.path, "/a/b");
    assert_eq!(input.subject.user_id, "default");
    assert_eq!(input.subject.workspace_id, "default");
    assert_eq!(input.context.mode, "interactive");
}
