use pep_daemon::policy::{ActionInput, ContextInput, NullEvaluator, PolicyEvaluator, PolicyInput,
    ResourceInput, SubjectInput};
use pep_daemon::rego::{PolicyFile, RegorusEvaluator};

fn sample_policy() -> &'static str {
    r#"package pep
import rego.v1

default decision := {
    "allow": false,
    "reason": "denied by default policy",
}

decision := result if {
    input.action.type == "http.request"
    input.action.resource.scheme in {"http", "https"}
    host := input.action.resource.host
    host_allowed(host)
    result := {
        "allow": true,
        "reason": "domain allowlisted",
        "constraints": object.get(data.config, "constraints", {}),
    }
}

host_allowed(host) if {
    some domain in data.config.allowed_domains
    host == domain
}

host_allowed(host) if {
    some domain in data.config.allowed_domains
    endswith(host, concat("", [".", domain]))
}
"#
}

fn sample_data() -> &'static str {
    r#"{
  "config": {
    "allowed_domains": ["example.com", "api.openai.com"],
    "constraints": { "max_bytes": 1048576 }
  }
}"#
}

fn make_input(host: &str, scheme: &str) -> PolicyInput {
    PolicyInput {
        action: ActionInput {
            action_type: "http.request".to_string(),
            resource: ResourceInput {
                url: format!("{scheme}://{host}/"),
                host: host.to_string(),
                path: "/".to_string(),
                method: "GET".to_string(),
                scheme: scheme.to_string(),
            },
        },
        subject: SubjectInput {
            user_id: "test".to_string(),
            workspace_id: "test".to_string(),
        },
        context: ContextInput {
            time: "0".to_string(),
            stage: "test".to_string(),
            mode: "test".to_string(),
        },
    }
}

fn bundle() -> Vec<PolicyFile> {
    vec![
        PolicyFile { name: "pep.rego".to_string(), content: sample_policy().to_string() },
        PolicyFile { name: "data.json".to_string(), content: sample_data().to_string() },
    ]
}

fn setup_evaluator() -> RegorusEvaluator {
    RegorusEvaluator::from_files(&bundle()).expect("from_files")
}

#[test]
fn policy_input_serializes_action_type_correctly() {
    let input = make_input("example.com", "https");
    let json: serde_json::Value = serde_json::from_str(&input.to_json()).expect("parse");
    assert_eq!(json["action"]["type"], "http.request");
    assert_eq!(json["action"]["resource"]["host"], "example.com");
}

#[test]
fn regorus_allows_listed_domain() {
    let mut eval = setup_evaluator();
    let input = make_input("example.com", "https");
    let decision = eval.evaluate(&input).expect("evaluate");
    assert!(decision.allow, "expected allow for example.com");
    assert!(!decision.policy_hash.is_empty());
}

#[test]
fn regorus_allows_subdomain() {
    let mut eval = setup_evaluator();
    let input = make_input("sub.api.openai.com", "https");
    let decision = eval.evaluate(&input).expect("evaluate");
    assert!(decision.allow, "expected allow for sub.api.openai.com");
}

#[test]
fn regorus_denies_unlisted_domain() {
    let mut eval = setup_evaluator();
    let input = make_input("evil.com", "https");
    let decision = eval.evaluate(&input).expect("evaluate");
    assert!(!decision.allow, "expected deny for evil.com");
}

#[test]
fn regorus_denies_non_http_scheme() {
    let mut eval = setup_evaluator();
    let input = make_input("example.com", "ftp");
    let decision = eval.evaluate(&input).expect("evaluate");
    assert!(!decision.allow, "expected deny for ftp scheme");
}

#[test]
fn regorus_returns_constraints() {
    let mut eval = setup_evaluator();
    let input = make_input("example.com", "https");
    let decision = eval.evaluate(&input).expect("evaluate");
    let constraints = decision.constraints.expect("constraints should be present");
    assert_eq!(constraints.max_bytes, Some(1_048_576));
}

#[test]
fn regorus_decision_has_unique_id() {
    let mut eval = setup_evaluator();
    let input = make_input("example.com", "https");
    let d1 = eval.evaluate(&input).expect("evaluate");
    let d2 = eval.evaluate(&input).expect("evaluate");
    assert_ne!(d1.decision_id, d2.decision_id);
    assert_eq!(d1.decision_id.len(), 36);
    assert_eq!(d2.decision_id.len(), 36);
}

#[test]
fn unparseable_rule_file_fails_the_load() {
    let files = vec![PolicyFile {
        name: "bad.rego".to_string(),
        content: "this is ( not rego".to_string(),
    }];
    let err = match RegorusEvaluator::from_files(&files) {
        Ok(_) => panic!("a rule file that does not parse must fail the load"),
        Err(e) => e,
    };
    assert!(err.message().starts_with("parsing bad.rego: "));
}

#[test]
fn unparseable_data_file_fails_the_load() {
    let mut files = bundle();
    files.push(PolicyFile { name: "broken.json".to_string(), content: "{not json".to_string() });
    let err = match RegorusEvaluator::from_files(&files) {
        Ok(_) => panic!("a data file that does not parse must fail the load"),
        Err(e) => e,
    };
    assert!(err.message().starts_with("adding data broken.json: "));
}

#[test]
fn conflicting_data_documents_fail_the_load() {
    let files = vec![
        PolicyFile { name: "pep.rego".to_string(), content: sample_policy().to_string() },
        PolicyFile { name: "a.json".to_string(), content: "{\"k\": 1}".to_string() },
        PolicyFile { name: "b.json".to_string(), content: "{\"k\": 2}".to_string() },
    ];
    let err = match RegorusEvaluator::from_files(&files) {
        Ok(_) => panic!("conflicting data documents must fail the load"),
        Err(e) => e,
    };
    assert!(err.message().starts_with("adding data b.json: "));
}

#[test]
fn regorus_policy_hash_is_deterministic() {
    let e1 = RegorusEvaluator::from_files(&bundle()).expect("from_files");
    let e2 = RegorusEvaluator::from_files(&bundle()).expect("from_files");
    assert_eq!(e1.policy_hash(), e2.policy_hash());
}

#[test]
fn regorus_rejects_empty_policy_dir() {
    let files: Vec<PolicyFile> = Vec::new();
    let result = RegorusEvaluator::from_files(&files);
    let err = match result {
        Ok(_) => panic!("an empty bundle must be rejected"),
        Err(e) => e,
    };
    assert_eq!(err.message(), "no .rego files found in policy directory");
}

#[test]
fn policy_hash_changes_with_rule_bytes_and_ignores_tests() {
    let base = RegorusEvaluator::from_files(&bundle()).expect("from_files");

    let mut altered = bundle();
    altered[0].content.push('\n');
    let changed = RegorusEvaluator::from_files(&altered).expect("from_files");
    assert_ne!(base.policy_hash(), changed.policy_hash());
    assert_eq!(base.policy_hash().len(), 64);

    let mut with_test = bundle();
    with_test.push(PolicyFile {
        name: "pep_test.rego".to_string(),
        content: "package pep_test".to_string(),
    });
    let same = RegorusEvaluator::from_files(&with_test).expect("from_files");
    assert_eq!(base.policy_hash(), same.policy_hash());
}

#[test]
fn policy_hash_is_independent_of_file_order() {
    let mut reordered = vec![
        PolicyFile { name: "b.rego".to_string(), content: "package pep".to_string() },
        PolicyFile { name: "a.rego".to_string(), content: "package pep".to_string() },
    ];
    let h1 = RegorusEvaluator::from_files(&reordered).expect("from_files").policy_hash().to_string();
    reordered.reverse();
    let h2 = RegorusEvaluator::from_files(&reordered).expect("from_files").policy_hash().to_string();
    assert_eq!(h1, h2);
}

#[test]
fn null_evaluator_allows_listed_domain() {
    let mut eval = NullEvaluator::new(vec!["example.com".to_string()]);
    let input = make_input("example.com", "https");
    let decision = eval.evaluate(&input).expect("evaluate");
    assert!(decision.allow);
}

#[test]
fn null_evaluator_denies_unlisted_domain() {
    let mut eval = NullEvaluator::new(vec!["example.com".to_string()]);
    let input = make_input("evil.com", "https");
    let decision = eval.evaluate(&input).expect("evaluate");
    assert!(!decision.allow);
}

#[test]
fn null_evaluator_reports_reason_and_empty_hash() {
    let mut eval = NullEvaluator::new(vec!["example.com".to_string()]);
    let allowed = eval.evaluate(&make_input("example.com", "https")).expect("evaluate");
    assert_eq!(allowed.reason.as_deref(), Some("domain allowlisted (static)"));
    assert_eq!(allowed.decision_id.len(), 36);
    assert_eq!(allowed.policy_hash, "");
    assert!(allowed.constraints.is_none());
    let denied = eval.evaluate(&make_input("evil.com", "https")).expect("evaluate");
    assert_eq!(denied.reason.as_deref(), Some("domain not allowlisted"));
    assert_eq!(eval.policy_hash(), "");
}
