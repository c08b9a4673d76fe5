//! Tool execution receipts: the auditable record of one tool attempt that
//! crosses the worker/host boundary, and its JSON form.
//!
//! `input_summary` holds only a redacted, human-readable summary; the exact
//! input is bound by `input_digest`. A receipt counts as a verified success
//! only with status `succeeded`, result `success` and a passed verification.

use vstd::prelude::*;

use crate::domain::{opt_i64_json, opt_text_json, verification_json, VerificationRecord};
use crate::json::{
    items_view, json_integer, members_view, push_member, push_optional, JsonValue, JsonView,
};
use crate::vocabulary::{
    policy_decision_name, result_type_name, tool_attempt_status_name, tool_risk_level_name,
    PolicyDecision, ResultType, ToolAttemptStatus, ToolRiskLevel, VerificationStatus,
};

verus! {

/// What a tool acts on.
#[derive(Debug, Clone, PartialEq, Eq)]
pub struct ToolTarget {
    pub kind: String,
    pub display_name: String,
    pub canonical_reference: Option<String>,
}

/// The approval an attempt ran under, bound to the digest of its payload.
#[derive(Debug, Clone, PartialEq, Eq)]
pub struct ApprovalBinding {
    pub approval_id: String,
    pub payload_digest: String,
    pub approved_at_ms: i64,
}

/// An artifact produced by a tool attempt.
#[derive(Debug, Clone, PartialEq, Eq)]
pub struct ArtifactReference {
    pub artifact_id: String,
    pub kind: String,
    pub uri: String,
    pub digest: Option<String>,
}

/// The receipt of one tool attempt.
#[derive(Debug, Clone, PartialEq)]
pub struct ToolExecutionReceipt {
    pub attempt_id: String,
    pub task_id: String,
    pub tool_name: String,
    pub idempotency_key: String,
    pub attempt_number: i64,
    pub status: ToolAttemptStatus,
    pub risk_level: ToolRiskLevel,
    pub input_summary: String,
    pub input_digest: String,
    pub target: Option<ToolTarget>,
    pub policy_decision: PolicyDecision,
    pub approval: Option<ApprovalBinding>,
    pub started_at_ms: i64,
    pub finished_at_ms: Option<i64>,
    pub duration_ms: Option<i64>,
    pub result_type: Option<ResultType>,
    pub output_summary: Option<String>,
    pub verification: Option<VerificationRecord>,
    pub artifacts: Vec<ArtifactReference>,
}

/// A verified success: the attempt succeeded, its result is a success and a
/// verification of it passed.
pub open spec fn verified_success(r: ToolExecutionReceipt) -> bool {
    &&& r.status is Succeeded
    &&& r.result_type == Some(ResultType::Success)
    &&& r.verification matches Some(v) && v.status is Passed
}

impl ToolExecutionReceipt {
    /// Whether this receipt records a verified success.
    pub fn is_verified_success(&self) -> (r: bool)
        ensures
            r == verified_success(*self),
    {
        let succeeded = match self.status {
            ToolAttemptStatus::Succeeded => true,
            _ => false,
        };
        let success = match self.result_type {
            Some(ResultType::Success) => true,
            _ => false,
        };
        let passed = match &self.verification {
            Some(v) => match v.status {
                VerificationStatus::Passed => true,
                _ => false,
            },
            None => false,
        };
        succeeded && success && passed
    }
}

// ---------------------------------------------------------------------------
// Views

/// Model of a verification record.
pub struct VerificationView {
    pub status: VerificationStatus,
    pub method: Seq<char>,
    pub summary: Seq<char>,
    pub evidence: Seq<(Seq<char>, Seq<char>)>,
    pub verified_at_ms: Option<i64>,
}

pub open spec fn verification_view(v: VerificationRecord) -> VerificationView {
    VerificationView {
        status: v.status,
        method: v.method@,
        summary: v.summary@,
        evidence: Seq::new(v.evidence@.len(), |i: int| (v.evidence@[i].kind@, v.evidence@[i].reference@)),
        verified_at_ms: v.verified_at_ms,
    }
}

/// Model of a tool target.
pub struct TargetView {
    pub kind: Seq<char>,
    pub display_name: Seq<char>,
    pub canonical_reference: Option<Seq<char>>,
}

/// Model of an approval binding.
pub struct ApprovalView {
    pub approval_id: Seq<char>,
    pub payload_digest: Seq<char>,
    pub approved_at_ms: i64,
}

/// Model of an artifact reference.
pub struct ArtifactView {
    pub artifact_id: Seq<char>,
    pub kind: Seq<char>,
    pub uri: Seq<char>,
    pub digest: Option<Seq<char>>,
}

/// Model of a receipt.
pub struct ReceiptView {
    pub attempt_id: Seq<char>,
    pub task_id: Seq<char>,
    pub tool_name: Seq<char>,
    pub idempotency_key: Seq<char>,
    pub attempt_number: i64,
    pub status: ToolAttemptStatus,
    pub risk_level: ToolRiskLevel,
    pub input_summary: Seq<char>,
    pub input_digest: Seq<char>,
    pub target: Option<TargetView>,
    pub policy_decision: PolicyDecision,
    pub approval: Option<ApprovalView>,
    pub started_at_ms: i64,
    pub finished_at_ms: Option<i64>,
    pub duration_ms: Option<i64>,
    pub result_type: Option<ResultType>,
    pub output_summary: Option<Seq<char>>,
    pub verification: Option<VerificationView>,
    pub artifacts: Seq<ArtifactView>,
}

pub open spec fn opt_seq(o: Option<String>) -> Option<Seq<char>> {
    match o {
        Some(s) => Some(s@),
        None => None,
    }
}

impl ToolTarget {
    pub open spec fn view(&self) -> TargetView {
        TargetView {
            kind: self.kind@,
            display_name: self.display_name@,
            canonical_reference: opt_seq(self.canonical_reference),
        }
    }
}

impl ApprovalBinding {
    pub open spec fn view(&self) -> ApprovalView {
        ApprovalView {
            approval_id: self.approval_id@,
            payload_digest: self.payload_digest@,
            approved_at_ms: self.approved_at_ms,
        }
    }
}

impl ArtifactReference {
    pub open spec fn view(&self) -> ArtifactView {
        ArtifactView {
            artifact_id: self.artifact_id@,
            kind: self.kind@,
            uri: self.uri@,
            digest: opt_seq(self.digest),
        }
    }
}

impl ToolExecutionReceipt {
    pub open spec fn view(&self) -> ReceiptView {
        ReceiptView {
            attempt_id: self.attempt_id@,
            task_id: self.task_id@,
            tool_name: self.tool_name@,
            idempotency_key: self.idempotency_key@,
            attempt_number: self.attempt_number,
            status: self.status,
            risk_level: self.risk_level,
            input_summary: self.input_summary@,
            input_digest: self.input_digest@,
            target: match self.target {
                Some(t) => Some(t.view()),
                None => None,
            },
            policy_decision: self.policy_decision,
            approval: match self.approval {
                Some(a) => Some(a.view()),
                None => None,
            },
            started_at_ms: self.started_at_ms,
            finished_at_ms: self.finished_at_ms,
            duration_ms: self.duration_ms,
            result_type: self.result_type,
            output_summary: opt_seq(self.output_summary),
            verification: match self.verification {
                Some(v) => Some(verification_view(v)),
                None => None,
            },
            artifacts: Seq::new(self.artifacts@.len(), |i: int| self.artifacts@[i].view()),
        }
    }
}

// ---------------------------------------------------------------------------
// JSON form

/// JSON form of a target.
pub open spec fn target_json(t: ToolTarget) -> JsonView {
    JsonView::Object(
        push_optional(
            seq![("kind"@, JsonView::Str(t.kind@)), ("displayName"@, JsonView::Str(t.display_name@))],
            "canonicalReference"@,
            opt_text_json(t.canonical_reference),
        ),
    )
}

/// JSON form of an approval binding.
pub open spec fn approval_json(a: ApprovalBinding) -> JsonView {
    JsonView::Object(
        seq![
            ("approvalId"@, JsonView::Str(a.approval_id@)),
            ("payloadDigest"@, JsonView::Str(a.payload_digest@)),
            ("approvedAtMs"@, json_integer(a.approved_at_ms as int)),
        ],
    )
}

/// JSON form of an artifact reference.
pub open spec fn artifact_json(a: ArtifactReference) -> JsonView {
    JsonView::Object(
        push_optional(
            seq![
                ("artifactId"@, JsonView::Str(a.artifact_id@)),
                ("kind"@, JsonView::Str(a.kind@)),
                ("uri"@, JsonView::Str(a.uri@)),
            ],
            "digest"@,
            opt_text_json(a.digest),
        ),
    )
}

/// JSON forms of a list of artifact references.
pub open spec fn artifact_list_json(v: Seq<ArtifactReference>) -> Seq<JsonView> {
    Seq::new(v.len(), |i: int| artifact_json(v[i]))
}

/// JSON members of a receipt, in order; absent optional fields are left out.
pub open spec fn receipt_members(r: ToolExecutionReceipt) -> Seq<(Seq<char>, JsonView)> {
    let m1 = seq![
        ("attemptId"@, JsonView::Str(r.attempt_id@)),
        ("taskId"@, JsonView::Str(r.task_id@)),
        ("toolName"@, JsonView::Str(r.tool_name@)),
        ("idempotencyKey"@, JsonView::Str(r.idempotency_key@)),
        ("attemptNumber"@, json_integer(r.attempt_number as int)),
        ("status"@, JsonView::Str(tool_attempt_status_name(r.status))),
        ("riskLevel"@, JsonView::Str(tool_risk_level_name(r.risk_level))),
        ("inputSummary"@, JsonView::Str(r.input_summary@)),
        ("inputDigest"@, JsonView::Str(r.input_digest@)),
    ];
    let m2 = push_optional(
        m1,
        "target"@,
        match r.target {
            Some(t) => Some(target_json(t)),
            None => None,
        },
    ).push(("policyDecision"@, JsonView::Str(policy_decision_name(r.policy_decision))));
    let m3 = push_optional(
        m2,
        "approval"@,
        match r.approval {
            Some(a) => Some(approval_json(a)),
            None => None,
        },
    ).push(("startedAtMs"@, json_integer(r.started_at_ms as int)));
    let m4 = push_optional(
        push_optional(
            push_optional(
                push_optional(m3, "finishedAtMs"@, opt_i64_json(r.finished_at_ms)),
                "durationMs"@,
                opt_i64_json(r.duration_ms),
            ),
            "resultType"@,
            match r.result_type {
                Some(t) => Some(JsonView::Str(result_type_name(t))),
                None => None,
            },
        ),
        "outputSummary"@,
        opt_text_json(r.output_summary),
    );
    push_optional(
        m4,
        "verification"@,
        match r.verification {
            Some(v) => Some(verification_json(v)),
            None => None,
        },
    ).push(("artifacts"@, JsonView::Array(artifact_list_json(r.artifacts@))))
}

/// JSON form of a receipt.
pub open spec fn receipt_json(r: ToolExecutionReceipt) -> JsonView {
    JsonView::Object(receipt_members(r))
}

fn text(s: &str) -> (r: JsonValue)
    ensures
        r.view() == JsonView::Str(s@),
{
    JsonValue::string(s)
}

fn push_optional_text(members: &mut Vec<(String, JsonValue)>, key: &str, value: &Option<String>)
    ensures
        members_view(final(members)@) == push_optional(
            members_view(old(members)@),
            key@,
            opt_text_json(*value),
        ),
{
    match value {
        Some(s) => push_member(members, key, JsonValue::String(s.clone())),
        None => {},
    }
}

fn push_optional_i64(members: &mut Vec<(String, JsonValue)>, key: &str, value: Option<i64>)
    ensures
        members_view(final(members)@) == push_optional(
            members_view(old(members)@),
            key@,
            opt_i64_json(value),
        ),
{
    match value {
        Some(n) => push_member(members, key, JsonValue::integer(n)),
        None => {},
    }
}

impl ToolTarget {
    /// JSON form of this target.
    pub fn to_json(&self) -> (r: JsonValue)
        ensures
            r.view() == target_json(*self),
    {
        let mut m: Vec<(String, JsonValue)> = Vec::new();
        push_member(&mut m, "kind", JsonValue::String(self.kind.clone()));
        push_member(&mut m, "displayName", JsonValue::String(self.display_name.clone()));
        push_optional_text(&mut m, "canonicalReference", &self.canonical_reference);
        proof {
            assert(members_view(m@) =~= push_optional(
                seq![("kind"@, JsonView::Str(self.kind@)), ("displayName"@, JsonView::Str(self.display_name@))],
                "canonicalReference"@,
                opt_text_json(self.canonical_reference),
            ));
        }
        JsonValue::object(m)
    }
}

impl ApprovalBinding {
    /// JSON form of this binding.
    pub fn to_json(&self) -> (r: JsonValue)
        ensures
            r.view() == approval_json(*self),
    {
        let mut m: Vec<(String, JsonValue)> = Vec::new();
        push_member(&mut m, "approvalId", JsonValue::String(self.approval_id.clone()));
        push_member(&mut m, "payloadDigest", JsonValue::String(self.payload_digest.clone()));
        push_member(&mut m, "approvedAtMs", JsonValue::integer(self.approved_at_ms));
        proof {
            assert(members_view(m@) =~= seq![
                ("approvalId"@, JsonView::Str(self.approval_id@)),
                ("payloadDigest"@, JsonView::Str(self.payload_digest@)),
                ("approvedAtMs"@, json_integer(self.approved_at_ms as int)),
            ]);
        }
        JsonValue::object(m)
    }
}

impl ArtifactReference {
    /// JSON form of this reference.
    pub fn to_json(&self) -> (r: JsonValue)
        ensures
            r.view() == artifact_json(*self),
    {
        let mut m: Vec<(String, JsonValue)> = Vec::new();
        push_member(&mut m, "artifactId", JsonValue::String(self.artifact_id.clone()));
        push_member(&mut m, "kind", JsonValue::String(self.kind.clone()));
        push_member(&mut m, "uri", JsonValue::String(self.uri.clone()));
        push_optional_text(&mut m, "digest", &self.digest);
        proof {
            assert(members_view(m@) =~= push_optional(
                seq![
                    ("artifactId"@, JsonView::Str(self.artifact_id@)),
                    ("kind"@, JsonView::Str(self.kind@)),
                    ("uri"@, JsonView::Str(self.uri@)),
                ],
                "digest"@,
                opt_text_json(self.digest),
            ));
        }
        JsonValue::object(m)
    }
}

impl ToolExecutionReceipt {
    /// JSON form of this receipt.
    pub fn to_json(&self) -> (r: JsonValue)
        ensures
            r.view() == receipt_json(*self),
    {
        let mut m: Vec<(String, JsonValue)> = Vec::new();
        push_member(&mut m, "attemptId", JsonValue::String(self.attempt_id.clone()));
        push_member(&mut m, "taskId", JsonValue::String(self.task_id.clone()));
        push_member(&mut m, "toolName", JsonValue::String(self.tool_name.clone()));
        push_member(&mut m, "idempotencyKey", JsonValue::String(self.idempotency_key.clone()));
        push_member(&mut m, "attemptNumber", JsonValue::integer(self.attempt_number));
        push_member(&mut m, "status", text(self.status.as_str()));
        push_member(&mut m, "riskLevel", text(self.risk_level.as_str()));
        push_member(&mut m, "inputSummary", JsonValue::String(self.input_summary.clone()));
        push_member(&mut m, "inputDigest", JsonValue::String(self.input_digest.clone()));
        match &self.target {
            Some(t) => push_member(&mut m, "target", t.to_json()),
            None => {},
        }
        push_member(&mut m, "policyDecision", text(self.policy_decision.as_str()));
        match &self.approval {
            Some(a) => push_member(&mut m, "approval", a.to_json()),
            None => {},
        }
        push_member(&mut m, "startedAtMs", JsonValue::integer(self.started_at_ms));
        push_optional_i64(&mut m, "finishedAtMs", self.finished_at_ms);
        push_optional_i64(&mut m, "durationMs", self.duration_ms);
        match self.result_type {
            Some(t) => push_member(&mut m, "resultType", text(t.as_str())),
            None => {},
        }
        push_optional_text(&mut m, "outputSummary", &self.output_summary);
        match &self.verification {
            Some(v) => push_member(&mut m, "verification", v.to_json()),
            None => {},
        }
        let mut items: Vec<JsonValue> = Vec::new();
        let mut i: usize = 0;
        while i < self.artifacts.len()
            invariant
                i <= self.artifacts@.len(),
                items_view(items@) =~= artifact_list_json(self.artifacts@.take(i as int)),
            decreases self.artifacts@.len() - i,
        {
            let ghost before = items@;
            items.push(self.artifacts[i].to_json());
            proof {
                assert(items_view(items@) =~= items_view(before).push(artifact_json(self.artifacts@[i as int])));
                assert(artifact_list_json(self.artifacts@.take(i + 1)) =~= artifact_list_json(
                    self.artifacts@.take(i as int),
                ).push(artifact_json(self.artifacts@[i as int])));
            }
            i = i + 1;
        }
        proof {
            assert(self.artifacts@.take(self.artifacts@.len() as int) =~= self.artifacts@);
        }
        push_member(&mut m, "artifacts", JsonValue::array(items));
        proof {
            assert(members_view(m@) =~= receipt_members(*self));
        }
        JsonValue::object(m)
    }
}

} // verus!
