//! The policy decision interface: the structured input a policy evaluator
//! receives, the decision it returns, and the static allowlist evaluator
//! used when no rule bundle is configured.

use vstd::prelude::*;
use crate::clock::now_unix_millis;
use crate::json::{json_str, push_json_string};
use crate::ssrf::{is_host_allowed, spec_host_allowed};
use crate::text::{lower_of, lowercase, u64_to_dec_string, upper_of, uppercase, dec_str_of};
use crate::types::PepError;
use crate::url_model::UrlParts;

verus! {

// ---------------------------------------------------------------------------
// Structured input.
// ---------------------------------------------------------------------------

/// The resource of one action: the request's URL and its components.
pub struct ResourceInput {
    pub url: String,
    pub host: String,
    pub path: String,
    pub method: String,
    pub scheme: String,
}

/// One action under decision; its type is always `http.request` here.
pub struct ActionInput {
    pub action_type: String,
    pub resource: ResourceInput,
}

/// The caller on whose behalf the action runs; reserved, both fields are
/// `default` in the current interface.
pub struct SubjectInput {
    pub user_id: String,
    pub workspace_id: String,
}

/// Evaluation context: wall-clock seconds as a decimal string, a stage and
/// a mode label.
pub struct ContextInput {
    pub time: String,
    pub stage: String,
    pub mode: String,
}

/// Everything a policy evaluator gets to see for one request.
pub struct PolicyInput {
    pub action: ActionInput,
    pub subject: SubjectInput,
    pub context: ContextInput,
}

/// The JSON document for a policy input, fields in wire order, the action
/// type under the key `type`.
pub open spec fn policy_input_json(p: PolicyInput) -> Seq<char> {
    "{\"action\":{\"type\":"@ + json_str(p.action.action_type@) + ",\"resource\":{\"url\":"@
        + json_str(p.action.resource.url@) + ",\"host\":"@ + json_str(p.action.resource.host@)
        + ",\"path\":"@ + json_str(p.action.resource.path@) + ",\"method\":"@ + json_str(
        p.action.resource.method@,
    ) + ",\"scheme\":"@ + json_str(p.action.resource.scheme@) + "}},\"subject\":{\"user_id\":"@
        + json_str(p.subject.user_id@) + ",\"workspace_id\":"@ + json_str(p.subject.workspace_id@)
        + "},\"context\":{\"time\":"@ + json_str(p.context.time@) + ",\"stage\":"@ + json_str(
        p.context.stage@,
    ) + ",\"mode\":"@ + json_str(p.context.mode@) + "}}"@
}

impl PolicyInput {
    /// Builds the evaluator input for one request: the URL's components,
    /// the method uppercased, the host lowercased, and the current time in
    /// whole seconds as a decimal string.
    pub fn from_http_url(url: &UrlParts, method: &str) -> (r: PolicyInput)
        ensures
            r.action.action_type@ == "http.request"@,
            r.action.resource.url@ == url.full@,
            r.action.resource.host@ == lower_of(
                match url.host {
                    Some(h) => h@,
                    None => Seq::<char>::empty(),
                },
            ),
            r.action.resource.path@ == url.path@,
            r.action.resource.method@ == upper_of(method@),
            r.action.resource.scheme@ == url.scheme@,
            r.subject.user_id@ == "default"@,
            r.subject.workspace_id@ == "default"@,
            exists|t: u64| r.context.time@ == dec_str_of(t as nat),
            r.context.stage@ == "default"@,
            r.context.mode@ == "interactive"@,
    {
        let secs: u64 = now_unix_millis() / 1000;
        let time = u64_to_dec_string(secs);
        let host = match &url.host {
            Some(h) => lowercase(h.as_str()),
            None => lowercase(""),
        };
        proof {
            reveal_strlit("");
            assert(""@ =~= Seq::<char>::empty());
        }
        PolicyInput {
            action: ActionInput {
                action_type: "http.request".to_owned(),
                resource: ResourceInput {
                    url: url.full.clone(),
                    host,
                    path: url.path.clone(),
                    method: uppercase(method),
                    scheme: url.scheme.clone(),
                },
            },
            subject: SubjectInput {
                user_id: "default".to_owned(),
                workspace_id: "default".to_owned(),
            },
            context: ContextInput {
                time,
                stage: "default".to_owned(),
                mode: "interactive".to_owned(),
            },
        }
    }

    /// Renders the input as the JSON document handed to the rule engine.
    pub fn to_json(&self) -> (r: String)
        ensures
            r@ == policy_input_json(*self),
    {
        let mut out = String::new();
        out.append("{\"action\":{\"type\":");
        push_json_string(&mut out, self.action.action_type.as_str());
        out.append(",\"resource\":{\"url\":");
        push_json_string(&mut out, self.action.resource.url.as_str());
        out.append(",\"host\":");
        push_json_string(&mut out, self.action.resource.host.as_str());
        out.append(",\"path\":");
        push_json_string(&mut out, self.action.resource.path.as_str());
        out.append(",\"method\":");
        push_json_string(&mut out, self.action.resource.method.as_str());
        out.append(",\"scheme\":");
        push_json_string(&mut out, self.action.resource.scheme.as_str());
        out.append("}},\"subject\":{\"user_id\":");
        push_json_string(&mut out, self.subject.user_id.as_str());
        out.append(",\"workspace_id\":");
        push_json_string(&mut out, self.subject.workspace_id.as_str());
        out.append("},\"context\":{\"time\":");
        push_json_string(&mut out, self.context.time.as_str());
        out.append(",\"stage\":");
        push_json_string(&mut out, self.context.stage.as_str());
        out.append(",\"mode\":");
        push_json_string(&mut out, self.context.mode.as_str());
        out.append("}}");
        proof {
            assert(out@ =~= policy_input_json(*self));
        }
        out
    }
}

// ---------------------------------------------------------------------------
// Decisions.
// ---------------------------------------------------------------------------

/// Optional bounds a policy may attach to an allowed request.
#[derive(Debug, Clone)]
pub struct Constraints {
    pub max_bytes: Option<usize>,
    pub allowed_domains: Option<Vec<String>>,
    pub rate_limit_per_min: Option<u32>,
}

/// One evaluator verdict.
#[derive(Debug, Clone)]
pub struct PolicyDecision {
    pub allow: bool,
    pub reason: Option<String>,
    pub constraints: Option<Constraints>,
    pub decision_id: String,
    pub policy_hash: String,
}

/// Relies on `uuid::Uuid::new_v4` and its hyphenated `Display` form: a
/// fresh random identifier of thirty-six characters; nothing can be
/// promised of its value.
#[verifier::external_body]
pub fn new_decision_id() -> (r: String)
    ensures
        r@.len() == 36,
{
    uuid::Uuid::new_v4().to_string()
}

/// The uniform face of the two evaluator variants.
pub trait PolicyEvaluator: Sized {
    /// The fingerprint of the loaded policy bundle; empty for the static
    /// evaluator.
    spec fn hash_model(&self) -> Seq<char>;

    /// Decides one request.  Every successful decision carries the
    /// bundle's fingerprint.
    fn evaluate(&mut self, input: &PolicyInput) -> (r: Result<PolicyDecision, PepError>)
        ensures
            final(self).hash_model() == old(self).hash_model(),
            match r {
                Ok(d) => d.policy_hash@ == old(self).hash_model(),
                Err(_) => true,
            },
    ;

    /// The bundle fingerprint by itself.
    fn policy_hash(&self) -> (r: &str)
        ensures
            r@ == self.hash_model(),
    ;
}

/// The static fallback evaluator: allow iff the host is on the allowlist.
pub struct NullEvaluator {
    pub allowed_domains: Vec<String>,
}

impl NullEvaluator {
    pub fn new(allowed_domains: Vec<String>) -> (r: NullEvaluator)
        ensures
            r.allowed_domains == allowed_domains,
    {
        NullEvaluator { allowed_domains }
    }
}

impl PolicyEvaluator for NullEvaluator {
    open spec fn hash_model(&self) -> Seq<char> {
        Seq::<char>::empty()
    }

    /// Allows exactly the hosts of the allowlist; never fails; carries an
    /// empty fingerprint and a fresh decision identifier.
    fn evaluate(&mut self, input: &PolicyInput) -> (r: Result<PolicyDecision, PepError>)
        ensures
            r is Ok,
            match r {
                Ok(d) => {
                    &&& d.allow == spec_host_allowed(
                        input.action.resource.host@,
                        old(self).allowed_domains@,
                    )
                    &&& match d.reason {
                        Some(m) => m@ == if d.allow {
                            "domain allowlisted (static)"@
                        } else {
                            "domain not allowlisted"@
                        },
                        None => false,
                    }
                    &&& d.constraints is None
                    &&& d.policy_hash@.len() == 0
                    &&& d.decision_id@.len() == 36
                },
                Err(_) => false,
            },
            final(self).allowed_domains == old(self).allowed_domains,
    {
        let allow = is_host_allowed(
            self.action_host(input),
            self.allowed_domains.as_slice(),
        );
        let reason = if allow {
            "domain allowlisted (static)".to_owned()
        } else {
            "domain not allowlisted".to_owned()
        };
        proof {
            reveal_strlit("");
            assert(Seq::<char>::empty() =~= ""@);
        }
        Ok(
            PolicyDecision {
                allow,
                reason: Some(reason),
                constraints: None,
                decision_id: new_decision_id(),
                policy_hash: "".to_owned(),
            },
        )
    }

    fn policy_hash(&self) -> (r: &str)
    {
        proof {
            reveal_strlit("");
            assert(""@ =~= Seq::<char>::empty());
        }
        ""
    }
}

impl NullEvaluator {
    /// The host component of the input, borrowed.
    fn action_host<'a>(&self, input: &'a PolicyInput) -> (r: &'a str)
        ensures
            r@ == input.action.resource.host@,
    {
        input.action.resource.host.as_str()
    }
}

} // verus!
