//! Reading a receipt back from its JSON form.
//!
//! A field is looked up by name (the first member with that name); members
//! with unknown names are ignored. A required field must be present with the
//! right type; an optional field may be absent or `null`. Integers must be
//! whole numbers that fit in 64 signed bits; vocabulary fields must hold a
//! known wire name.

use vstd::prelude::*;

use crate::domain::{EvidenceReference, VerificationRecord};
use crate::json::{json_get, JsonNumber, JsonValue, JsonView, NumberView};
use crate::receipt::{
    ApprovalBinding, ApprovalView, ArtifactReference, ArtifactView, ReceiptView, TargetView,
    ToolExecutionReceipt, ToolTarget, VerificationView,
};
use crate::vocabulary::{
    policy_decision_from_name, result_type_from_name, tool_attempt_status_from_name,
    tool_risk_level_from_name, verification_status_from_name, PolicyDecision, ResultType,
    ToolAttemptStatus, ToolRiskLevel, VerificationStatus,
};

verus! {

/// A required text field.
pub open spec fn text_at(o: JsonView, key: Seq<char>) -> Option<Seq<char>> {
    match json_get(o, key) {
        Some(JsonView::Str(s)) => Some(s),
        _ => None,
    }
}

/// An optional text field: `Some(None)` when absent or null, `None` when of another type.
pub open spec fn opt_text_at(o: JsonView, key: Seq<char>) -> Option<Option<Seq<char>>> {
    match json_get(o, key) {
        None => Some(None),
        Some(JsonView::Null) => Some(None),
        Some(JsonView::Str(s)) => Some(Some(s)),
        _ => None,
    }
}

/// The 64-bit signed integer a JSON value holds, if any.
pub open spec fn i64_of(v: JsonView) -> Option<i64> {
    match v {
        JsonView::Number(NumberView::PosInt(u)) => if u <= i64::MAX {
            Some(u as i64)
        } else {
            None
        },
        JsonView::Number(NumberView::NegInt(i)) => Some(i),
        _ => None,
    }
}

/// A required integer field.
pub open spec fn i64_at(o: JsonView, key: Seq<char>) -> Option<i64> {
    match json_get(o, key) {
        Some(v) => i64_of(v),
        None => None,
    }
}

/// An optional integer field.
pub open spec fn opt_i64_at(o: JsonView, key: Seq<char>) -> Option<Option<i64>> {
    match json_get(o, key) {
        None => Some(None),
        Some(JsonView::Null) => Some(None),
        Some(v) => match i64_of(v) {
            Some(n) => Some(Some(n)),
            None => None,
        },
    }
}

/// Model of decoding an evidence reference.
pub open spec fn evidence_model(v: JsonView) -> Option<(Seq<char>, Seq<char>)> {
    match (text_at(v, "kind"@), text_at(v, "reference"@)) {
        (Some(k), Some(r)) => Some((k, r)),
        _ => None,
    }
}

/// Model of decoding a verification record.
pub open spec fn verification_model(v: JsonView) -> Option<VerificationView> {
    let status = match text_at(v, "status"@) {
        Some(s) => verification_status_from_name(s),
        None => None,
    };
    let method = text_at(v, "method"@);
    let summary = text_at(v, "summary"@);
    let verified_at = opt_i64_at(v, "verifiedAtMs"@);
    match json_get(v, "evidence"@) {
        Some(JsonView::Array(items)) => if status is Some && method is Some && summary is Some
            && verified_at is Some && forall|i: int| 0 <= i < items.len() ==> #[trigger] evidence_model(items[i]) is Some {
            Some(
                VerificationView {
                    status: status->0,
                    method: method->0,
                    summary: summary->0,
                    evidence: Seq::new(items.len(), |i: int| evidence_model(items[i])->0),
                    verified_at_ms: verified_at->0,
                },
            )
        } else {
            None
        },
        _ => None,
    }
}

/// Model of decoding a target.
pub open spec fn target_model(v: JsonView) -> Option<TargetView> {
    match (text_at(v, "kind"@), text_at(v, "displayName"@), opt_text_at(v, "canonicalReference"@)) {
        (Some(k), Some(d), Some(c)) => Some(TargetView { kind: k, display_name: d, canonical_reference: c }),
        _ => None,
    }
}

/// Model of decoding an approval binding.
pub open spec fn approval_model(v: JsonView) -> Option<ApprovalView> {
    match (text_at(v, "approvalId"@), text_at(v, "payloadDigest"@), i64_at(v, "approvedAtMs"@)) {
        (Some(a), Some(p), Some(t)) => Some(ApprovalView { approval_id: a, payload_digest: p, approved_at_ms: t }),
        _ => None,
    }
}

/// Model of decoding an artifact reference.
pub open spec fn artifact_model(v: JsonView) -> Option<ArtifactView> {
    match (
        text_at(v, "artifactId"@),
        text_at(v, "kind"@),
        text_at(v, "uri"@),
        opt_text_at(v, "digest"@),
    ) {
        (Some(a), Some(k), Some(u), Some(d)) => Some(ArtifactView { artifact_id: a, kind: k, uri: u, digest: d }),
        _ => None,
    }
}

/// An optional nested field decoded by `model`.
pub open spec fn opt_nested<T>(o: JsonView, key: Seq<char>, model: spec_fn(JsonView) -> Option<T>) -> Option<Option<T>> {
    match json_get(o, key) {
        None => Some(None),
        Some(JsonView::Null) => Some(None),
        Some(v) => match model(v) {
            Some(x) => Some(Some(x)),
            None => None,
        },
    }
}

/// An optional result type field.
pub open spec fn opt_result_type_at(o: JsonView, key: Seq<char>) -> Option<Option<ResultType>> {
    match json_get(o, key) {
        None => Some(None),
        Some(JsonView::Null) => Some(None),
        Some(JsonView::Str(s)) => match result_type_from_name(s) {
            Some(t) => Some(Some(t)),
            None => None,
        },
        _ => None,
    }
}

/// A required vocabulary field read by `from_name`.
pub open spec fn named_at<T>(o: JsonView, key: Seq<char>, from_name: spec_fn(Seq<char>) -> Option<T>) -> Option<T> {
    match text_at(o, key) {
        Some(s) => from_name(s),
        None => None,
    }
}

/// Model of decoding the artifact list.
pub open spec fn artifacts_model(o: JsonView) -> Option<Seq<ArtifactView>> {
    match json_get(o, "artifacts"@) {
        Some(JsonView::Array(items)) => if forall|i: int|
            0 <= i < items.len() ==> #[trigger] artifact_model(items[i]) is Some {
            Some(Seq::new(items.len(), |i: int| artifact_model(items[i])->0))
        } else {
            None
        },
        _ => None,
    }
}

/// Model of decoding a receipt.
pub open spec fn receipt_model(o: JsonView) -> Option<ReceiptView> {
    let attempt_id = text_at(o, "attemptId"@);
    let task_id = text_at(o, "taskId"@);
    let tool_name = text_at(o, "toolName"@);
    let idempotency_key = text_at(o, "idempotencyKey"@);
    let attempt_number = i64_at(o, "attemptNumber"@);
    let status = named_at(o, "status"@, |s: Seq<char>| tool_attempt_status_from_name(s));
    let risk_level = named_at(o, "riskLevel"@, |s: Seq<char>| tool_risk_level_from_name(s));
    let input_summary = text_at(o, "inputSummary"@);
    let input_digest = text_at(o, "inputDigest"@);
    let target = opt_nested(o, "target"@, |v: JsonView| target_model(v));
    let policy_decision = named_at(o, "policyDecision"@, |s: Seq<char>| policy_decision_from_name(s));
    let approval = opt_nested(o, "approval"@, |v: JsonView| approval_model(v));
    let started_at_ms = i64_at(o, "startedAtMs"@);
    let finished_at_ms = opt_i64_at(o, "finishedAtMs"@);
    let duration_ms = opt_i64_at(o, "durationMs"@);
    let result_type = opt_result_type_at(o, "resultType"@);
    let output_summary = opt_text_at(o, "outputSummary"@);
    let verification = opt_nested(o, "verification"@, |v: JsonView| verification_model(v));
    let artifacts = artifacts_model(o);
    if attempt_id is Some && task_id is Some && tool_name is Some && idempotency_key is Some
        && attempt_number is Some && status is Some && risk_level is Some && input_summary is Some
        && input_digest is Some && target is Some && policy_decision is Some && approval is Some
        && started_at_ms is Some && finished_at_ms is Some && duration_ms is Some && result_type is Some
        && output_summary is Some && verification is Some && artifacts is Some {
        Some(
            ReceiptView {
                attempt_id: attempt_id->0,
                task_id: task_id->0,
                tool_name: tool_name->0,
                idempotency_key: idempotency_key->0,
                attempt_number: attempt_number->0,
                status: status->0,
                risk_level: risk_level->0,
                input_summary: input_summary->0,
                input_digest: input_digest->0,
                target: target->0,
                policy_decision: policy_decision->0,
                approval: approval->0,
                started_at_ms: started_at_ms->0,
                finished_at_ms: finished_at_ms->0,
                duration_ms: duration_ms->0,
                result_type: result_type->0,
                output_summary: output_summary->0,
                verification: verification->0,
                artifacts: artifacts->0,
            },
        )
    } else {
        None
    }
}

// ---------------------------------------------------------------------------
// Executable field readers

fn text_field(o: &JsonValue, key: &str) -> (r: Option<String>)
    ensures
        match text_at(o.view(), key@) {
            Some(s) => r matches Some(x) && x@ == s,
            None => r is None,
        },
{
    match o.get(key) {
        Some(JsonValue::String(s)) => Some(s.clone()),
        _ => None,
    }
}

fn opt_text_field(o: &JsonValue, key: &str) -> (r: Option<Option<String>>)
    ensures
        match opt_text_at(o.view(), key@) {
            Some(Some(s)) => r matches Some(Some(x)) && x@ == s,
            Some(None) => r matches Some(None),
            None => r is None,
        },
{
    match o.get(key) {
        None => Some(None),
        Some(JsonValue::Null) => Some(None),
        Some(JsonValue::String(s)) => Some(Some(s.clone())),
        _ => None,
    }
}

fn i64_value(v: &JsonValue) -> (r: Option<i64>)
    ensures
        r == i64_of(v.view()),
{
    match v {
        JsonValue::Number(JsonNumber::PosInt(u)) => if *u <= 0x7fff_ffff_ffff_ffffu64 {
            Some(*u as i64)
        } else {
            None
        },
        JsonValue::Number(JsonNumber::NegInt(i)) => Some(*i),
        _ => None,
    }
}

fn i64_field(o: &JsonValue, key: &str) -> (r: Option<i64>)
    ensures
        r == i64_at(o.view(), key@),
{
    match o.get(key) {
        Some(v) => i64_value(v),
        None => None,
    }
}

fn opt_i64_field(o: &JsonValue, key: &str) -> (r: Option<Option<i64>>)
    ensures
        r == opt_i64_at(o.view(), key@),
{
    match o.get(key) {
        None => Some(None),
        Some(JsonValue::Null) => Some(None),
        Some(v) => match i64_value(v) {
            Some(n) => Some(Some(n)),
            None => None,
        },
    }
}

// ---------------------------------------------------------------------------
// Executable decoders

/// Reads an evidence reference.
pub fn decode_evidence(v: &JsonValue) -> (r: Option<EvidenceReference>)
    ensures
        match evidence_model(v.view()) {
            Some(m) => r matches Some(x) && (x.kind@, x.reference@) == m,
            None => r is None,
        },
{
    let kind = match text_field(v, "kind") {
        Some(s) => s,
        None => return None,
    };
    let reference = match text_field(v, "reference") {
        Some(s) => s,
        None => return None,
    };
    Some(EvidenceReference { kind, reference })
}

/// Reads a verification record.
pub fn decode_verification(v: &JsonValue) -> (r: Option<VerificationRecord>)
    ensures
        match verification_model(v.view()) {
            Some(m) => r matches Some(x) && crate::receipt::verification_view(x) == m,
            None => r is None,
        },
{
    let status_text = match text_field(v, "status") {
        Some(s) => s,
        None => return None,
    };
    let status = match VerificationStatus::from_name(status_text.as_str()) {
        Some(s) => s,
        None => return None,
    };
    let method = match text_field(v, "method") {
        Some(s) => s,
        None => return None,
    };
    let summary = match text_field(v, "summary") {
        Some(s) => s,
        None => return None,
    };
    let verified_at_ms = match opt_i64_field(v, "verifiedAtMs") {
        Some(t) => t,
        None => return None,
    };
    let items = match v.get("evidence") {
        Some(JsonValue::Array(items)) => items,
        _ => return None,
    };
    proof {
        crate::json::lemma_array_view(*items);
    }
    let ghost model_items = crate::json::items_view(items@);
    let mut evidence: Vec<EvidenceReference> = Vec::new();
    let mut i: usize = 0;
    while i < items.len()
        invariant
            i <= items@.len(),
            model_items == crate::json::items_view(items@),
            json_get(v.view(), "evidence"@) == Some(JsonView::Array(model_items)),
            evidence@.len() == i,
            forall|j: int| 0 <= j < i ==> #[trigger] evidence_model(model_items[j]) is Some,
            forall|j: int|
                0 <= j < i ==> (evidence@[j].kind@, evidence@[j].reference@) == #[trigger] evidence_model(
                    model_items[j],
                )->0,
        decreases items@.len() - i,
    {
        match decode_evidence(&items[i]) {
            Some(e) => {
                evidence.push(e);
            },
            None => {
                proof {
                    assert(evidence_model(model_items[i as int]) is None);
                    assert(json_get(v.view(), "evidence"@) == Some(JsonView::Array(model_items)));
                    assert(!(forall|j: int| 0 <= j < model_items.len() ==> #[trigger] evidence_model(model_items[j]) is Some));
                }
                return None;
            },
        }
        i = i + 1;
    }
    let r = VerificationRecord { status, method, summary, evidence, verified_at_ms };
    proof {
        let m = verification_model(v.view())->0;
        assert(crate::receipt::verification_view(r).evidence =~= m.evidence);
    }
    Some(r)
}

/// Reads a target.
pub fn decode_target(v: &JsonValue) -> (r: Option<ToolTarget>)
    ensures
        match target_model(v.view()) {
            Some(m) => r matches Some(x) && x.view() == m,
            None => r is None,
        },
{
    let kind = match text_field(v, "kind") {
        Some(s) => s,
        None => return None,
    };
    let display_name = match text_field(v, "displayName") {
        Some(s) => s,
        None => return None,
    };
    let canonical_reference = match opt_text_field(v, "canonicalReference") {
        Some(c) => c,
        None => return None,
    };
    Some(ToolTarget { kind, display_name, canonical_reference })
}

/// Reads an approval binding.
pub fn decode_approval(v: &JsonValue) -> (r: Option<ApprovalBinding>)
    ensures
        match approval_model(v.view()) {
            Some(m) => r matches Some(x) && x.view() == m,
            None => r is None,
        },
{
    let approval_id = match text_field(v, "approvalId") {
        Some(s) => s,
        None => return None,
    };
    let payload_digest = match text_field(v, "payloadDigest") {
        Some(s) => s,
        None => return None,
    };
    let approved_at_ms = match i64_field(v, "approvedAtMs") {
        Some(t) => t,
        None => return None,
    };
    Some(ApprovalBinding { approval_id, payload_digest, approved_at_ms })
}

/// Reads an artifact reference.
pub fn decode_artifact(v: &JsonValue) -> (r: Option<ArtifactReference>)
    ensures
        match artifact_model(v.view()) {
            Some(m) => r matches Some(x) && x.view() == m,
            None => r is None,
        },
{
    let artifact_id = match text_field(v, "artifactId") {
        Some(s) => s,
        None => return None,
    };
    let kind = match text_field(v, "kind") {
        Some(s) => s,
        None => return None,
    };
    let uri = match text_field(v, "uri") {
        Some(s) => s,
        None => return None,
    };
    let digest = match opt_text_field(v, "digest") {
        Some(d) => d,
        None => return None,
    };
    Some(ArtifactReference { artifact_id, kind, uri, digest })
}

/// Reads a receipt; `None` when the JSON is not a receipt.
pub fn decode_receipt(o: &JsonValue) -> (r: Option<ToolExecutionReceipt>)
    ensures
        match receipt_model(o.view()) {
            Some(m) => r matches Some(x) && x.view() == m,
            None => r is None,
        },
{
    let attempt_id = match text_field(o, "attemptId") {
        Some(s) => s,
        None => return None,
    };
    let task_id = match text_field(o, "taskId") {
        Some(s) => s,
        None => return None,
    };
    let tool_name = match text_field(o, "toolName") {
        Some(s) => s,
        None => return None,
    };
    let idempotency_key = match text_field(o, "idempotencyKey") {
        Some(s) => s,
        None => return None,
    };
    let attempt_number = match i64_field(o, "attemptNumber") {
        Some(n) => n,
        None => return None,
    };
    let status = match text_field(o, "status") {
        Some(s) => match ToolAttemptStatus::from_name(s.as_str()) {
            Some(x) => x,
            None => return None,
        },
        None => return None,
    };
    let risk_level = match text_field(o, "riskLevel") {
        Some(s) => match ToolRiskLevel::from_name(s.as_str()) {
            Some(x) => x,
            None => return None,
        },
        None => return None,
    };
    let input_summary = match text_field(o, "inputSummary") {
        Some(s) => s,
        None => return None,
    };
    let input_digest = match text_field(o, "inputDigest") {
        Some(s) => s,
        None => return None,
    };
    let target = match o.get("target") {
        None => None,
        Some(JsonValue::Null) => None,
        Some(v) => match decode_target(v) {
            Some(t) => Some(t),
            None => return None,
        },
    };
    let policy_decision = match text_field(o, "policyDecision") {
        Some(s) => match PolicyDecision::from_name(s.as_str()) {
            Some(x) => x,
            None => return None,
        },
        None => return None,
    };
    let approval = match o.get("approval") {
        None => None,
        Some(JsonValue::Null) => None,
        Some(v) => match decode_approval(v) {
            Some(a) => Some(a),
            None => return None,
        },
    };
    let started_at_ms = match i64_field(o, "startedAtMs") {
        Some(n) => n,
        None => return None,
    };
    let finished_at_ms = match opt_i64_field(o, "finishedAtMs") {
        Some(n) => n,
        None => return None,
    };
    let duration_ms = match opt_i64_field(o, "durationMs") {
        Some(n) => n,
        None => return None,
    };
    let result_type = match o.get("resultType") {
        None => None,
        Some(JsonValue::Null) => None,
        Some(JsonValue::String(s)) => match ResultType::from_name(s.as_str()) {
            Some(t) => Some(t),
            None => return None,
        },
        _ => return None,
    };
    let output_summary = match opt_text_field(o, "outputSummary") {
        Some(s) => s,
        None => return None,
    };
    let verification = match o.get("verification") {
        None => None,
        Some(JsonValue::Null) => None,
        Some(v) => match decode_verification(v) {
            Some(x) => Some(x),
            None => return None,
        },
    };
    let items = match o.get("artifacts") {
        Some(JsonValue::Array(items)) => items,
        _ => return None,
    };
    proof {
        crate::json::lemma_array_view(*items);
    }
    let ghost model_items = crate::json::items_view(items@);
    let mut artifacts: Vec<ArtifactReference> = Vec::new();
    let mut i: usize = 0;
    while i < items.len()
        invariant
            i <= items@.len(),
            model_items == crate::json::items_view(items@),
            json_get(o.view(), "artifacts"@) == Some(JsonView::Array(model_items)),
            artifacts@.len() == i,
            forall|j: int| 0 <= j < i ==> #[trigger] artifact_model(model_items[j]) is Some,
            forall|j: int|
                0 <= j < i ==> artifacts@[j].view() == #[trigger] artifact_model(model_items[j])->0,
        decreases items@.len() - i,
    {
        match decode_artifact(&items[i]) {
            Some(a) => {
                artifacts.push(a);
            },
            None => {
                proof {
                    assert(artifact_model(model_items[i as int]) is None);
                    assert(json_get(o.view(), "artifacts"@) == Some(JsonView::Array(model_items)));
                    assert(!(forall|j: int| 0 <= j < model_items.len() ==> #[trigger] artifact_model(model_items[j]) is Some));
                    assert(artifacts_model(o.view()) is None);
                }
                return None;
            },
        }
        i = i + 1;
    }
    let r = ToolExecutionReceipt {
        attempt_id,
        task_id,
        tool_name,
        idempotency_key,
        attempt_number,
        status,
        risk_level,
        input_summary,
        input_digest,
        target,
        policy_decision,
        approval,
        started_at_ms,
        finished_at_ms,
        duration_ms,
        result_type,
        output_summary,
        verification,
        artifacts,
    };
    proof {
        let m = receipt_model(o.view())->0;
        assert(r.view().artifacts =~= m.artifacts);
    }
    Some(r)
}

} // verus!

verus! {

// ---------------------------------------------------------------------------
// Reading back what was written

/// An integer written as JSON reads back as itself.
pub proof fn lemma_i64_round_trip(x: i64)
    ensures
        i64_of(crate::json::json_integer(x as int)) == Some(x),
{
}

proof fn lemma_opt_i64_round_trip(x: Option<i64>)
    ensures
        match crate::domain::opt_i64_json(x) {
            Some(v) => i64_of(v) == x,
            None => x is None,
        },
{
}

/// An evidence reference written as JSON reads back as itself.
pub proof fn lemma_evidence_round_trip(e: EvidenceReference)
    ensures
        evidence_model(crate::domain::evidence_json(e)) == Some((e.kind@, e.reference@)),
{
    broadcast use crate::json::lemma_get_push, crate::json::lemma_get_push_optional, crate::json::lemma_get_empty;
    reveal_strlit("kind");
    reveal_strlit("reference");
    assert("reference"@.len() != "kind"@.len());
    let a = ("kind"@, JsonView::Str(e.kind@));
    let b = ("reference"@, JsonView::Str(e.reference@));
    let ms0 = Seq::<(Seq<char>, JsonView)>::empty();
    assert(seq![a, b] == ms0.push(a).push(b));
    assert(json_get(JsonView::Object(ms0), "kind"@) is None);
    assert(json_get(JsonView::Object(ms0.push(a)), "kind"@) == Some(a.1));
    assert(json_get(JsonView::Object(ms0.push(a).push(b)), "kind"@) == Some(a.1));
    assert(json_get(JsonView::Object(ms0.push(a).push(b)), "reference"@) == Some(b.1));
}

/// A verification record written as JSON reads back as itself.
pub proof fn lemma_verification_round_trip(v: VerificationRecord)
    ensures
        verification_model(crate::domain::verification_json(v)) == Some(crate::receipt::verification_view(v)),
{
    broadcast use crate::json::lemma_get_push, crate::json::lemma_get_push_optional, crate::json::lemma_get_empty;
    reveal_strlit("status");
    reveal_strlit("method");
    reveal_strlit("summary");
    reveal_strlit("evidence");
    reveal_strlit("verifiedAtMs");
    assert("method"@[0] != "status"@[0]);
    assert("summary"@.len() != "status"@.len());
    assert("summary"@.len() != "method"@.len());
    assert("evidence"@.len() != "status"@.len());
    assert("evidence"@.len() != "method"@.len());
    assert("evidence"@.len() != "summary"@.len());
    assert("verifiedAtMs"@.len() != "status"@.len());
    assert("verifiedAtMs"@.len() != "method"@.len());
    assert("verifiedAtMs"@.len() != "summary"@.len());
    assert("verifiedAtMs"@.len() != "evidence"@.len());
    let x0 = ("status"@, JsonView::Str(crate::vocabulary::verification_status_name(v.status)));
    let x1 = ("method"@, JsonView::Str(v.method@));
    let x2 = ("summary"@, JsonView::Str(v.summary@));
    let x3 = ("evidence"@, JsonView::Array(crate::domain::evidence_list_json(v.evidence@)));
    let ms0 = Seq::<(Seq<char>, JsonView)>::empty();
    assert(seq![x0, x1, x2, x3] == ms0.push(x0).push(x1).push(x2).push(x3));
    crate::vocabulary::lemma_verification_status_name_round_trip(v.status);
    lemma_opt_i64_round_trip(v.verified_at_ms);
    let items = crate::domain::evidence_list_json(v.evidence@);
    assert forall|i: int| 0 <= i < items.len() implies #[trigger] evidence_model(items[i]) == Some(
        (v.evidence@[i].kind@, v.evidence@[i].reference@),
    ) by {
        lemma_evidence_round_trip(v.evidence@[i]);
    }
    let o = crate::domain::verification_json(v);
    assert(json_get(o, "evidence"@) == Some(JsonView::Array(items)));
    let m = verification_model(o);
    assert(m is Some);
    assert(m->0.evidence =~= crate::receipt::verification_view(v).evidence);
}

/// A target written as JSON reads back as itself.
pub proof fn lemma_target_round_trip(t: ToolTarget)
    ensures
        target_model(crate::receipt::target_json(t)) == Some(t.view()),
{
    broadcast use crate::json::lemma_get_push, crate::json::lemma_get_push_optional, crate::json::lemma_get_empty;
    reveal_strlit("kind");
    reveal_strlit("displayName");
    reveal_strlit("canonicalReference");
    assert("displayName"@.len() != "kind"@.len());
    assert("canonicalReference"@.len() != "kind"@.len());
    assert("canonicalReference"@.len() != "displayName"@.len());
    let a = ("kind"@, JsonView::Str(t.kind@));
    let b = ("displayName"@, JsonView::Str(t.display_name@));
    let ms0 = Seq::<(Seq<char>, JsonView)>::empty();
    assert(seq![a, b] == ms0.push(a).push(b));
}

/// An approval binding written as JSON reads back as itself.
pub proof fn lemma_approval_round_trip(a: ApprovalBinding)
    ensures
        approval_model(crate::receipt::approval_json(a)) == Some(a.view()),
{
    broadcast use crate::json::lemma_get_push, crate::json::lemma_get_push_optional, crate::json::lemma_get_empty;
    reveal_strlit("approvalId");
    reveal_strlit("payloadDigest");
    reveal_strlit("approvedAtMs");
    assert("payloadDigest"@.len() != "approvalId"@.len());
    assert("approvedAtMs"@.len() != "approvalId"@.len());
    assert("approvedAtMs"@.len() != "payloadDigest"@.len());
    let x0 = ("approvalId"@, JsonView::Str(a.approval_id@));
    let x1 = ("payloadDigest"@, JsonView::Str(a.payload_digest@));
    let x2 = ("approvedAtMs"@, crate::json::json_integer(a.approved_at_ms as int));
    let ms0 = Seq::<(Seq<char>, JsonView)>::empty();
    assert(seq![x0, x1, x2] == ms0.push(x0).push(x1).push(x2));
    lemma_i64_round_trip(a.approved_at_ms);
}

/// An artifact reference written as JSON reads back as itself.
pub proof fn lemma_artifact_round_trip(a: ArtifactReference)
    ensures
        artifact_model(crate::receipt::artifact_json(a)) == Some(a.view()),
{
    broadcast use crate::json::lemma_get_push, crate::json::lemma_get_push_optional, crate::json::lemma_get_empty;
    reveal_strlit("artifactId");
    reveal_strlit("kind");
    reveal_strlit("uri");
    reveal_strlit("digest");
    assert("kind"@.len() != "artifactId"@.len());
    assert("uri"@.len() != "artifactId"@.len());
    assert("uri"@.len() != "kind"@.len());
    assert("digest"@.len() != "artifactId"@.len());
    assert("digest"@.len() != "kind"@.len());
    assert("digest"@.len() != "uri"@.len());
    let x0 = ("artifactId"@, JsonView::Str(a.artifact_id@));
    let x1 = ("kind"@, JsonView::Str(a.kind@));
    let x2 = ("uri"@, JsonView::Str(a.uri@));
    let ms0 = Seq::<(Seq<char>, JsonView)>::empty();
    assert(seq![x0, x1, x2] == ms0.push(x0).push(x1).push(x2));
}

/// A receipt written as JSON reads back as the same receipt.
#[verifier::rlimit(50)]
pub proof fn lemma_receipt_round_trip(r: ToolExecutionReceipt)
    ensures
        receipt_model(crate::receipt::receipt_json(r)) == Some(r.view()),
{
    broadcast use crate::json::lemma_get_push, crate::json::lemma_get_push_optional, crate::json::lemma_get_empty;
    reveal_strlit("attemptId");
    reveal_strlit("taskId");
    reveal_strlit("toolName");
    reveal_strlit("idempotencyKey");
    reveal_strlit("attemptNumber");
    reveal_strlit("status");
    reveal_strlit("riskLevel");
    reveal_strlit("inputSummary");
    reveal_strlit("inputDigest");
    reveal_strlit("target");
    reveal_strlit("policyDecision");
    reveal_strlit("approval");
    reveal_strlit("startedAtMs");
    reveal_strlit("finishedAtMs");
    reveal_strlit("durationMs");
    reveal_strlit("resultType");
    reveal_strlit("outputSummary");
    reveal_strlit("verification");
    reveal_strlit("artifacts");
    assert("taskId"@.len() != "attemptId"@.len());
    assert("toolName"@.len() != "attemptId"@.len());
    assert("toolName"@.len() != "taskId"@.len());
    assert("idempotencyKey"@.len() != "attemptId"@.len());
    assert("idempotencyKey"@.len() != "taskId"@.len());
    assert("idempotencyKey"@.len() != "toolName"@.len());
    assert("attemptNumber"@.len() != "attemptId"@.len());
    assert("attemptNumber"@.len() != "taskId"@.len());
    assert("attemptNumber"@.len() != "toolName"@.len());
    assert("attemptNumber"@.len() != "idempotencyKey"@.len());
    assert("status"@.len() != "attemptId"@.len());
    assert("status"@[0] != "taskId"@[0]);
    assert("status"@.len() != "toolName"@.len());
    assert("status"@.len() != "idempotencyKey"@.len());
    assert("status"@.len() != "attemptNumber"@.len());
    assert("riskLevel"@[0] != "attemptId"@[0]);
    assert("riskLevel"@.len() != "taskId"@.len());
    assert("riskLevel"@.len() != "toolName"@.len());
    assert("riskLevel"@.len() != "idempotencyKey"@.len());
    assert("riskLevel"@.len() != "attemptNumber"@.len());
    assert("riskLevel"@.len() != "status"@.len());
    assert("inputSummary"@.len() != "attemptId"@.len());
    assert("inputSummary"@.len() != "taskId"@.len());
    assert("inputSummary"@.len() != "toolName"@.len());
    assert("inputSummary"@.len() != "idempotencyKey"@.len());
    assert("inputSummary"@.len() != "attemptNumber"@.len());
    assert("inputSummary"@.len() != "status"@.len());
    assert("inputSummary"@.len() != "riskLevel"@.len());
    assert("inputDigest"@.len() != "attemptId"@.len());
    assert("inputDigest"@.len() != "taskId"@.len());
    assert("inputDigest"@.len() != "toolName"@.len());
    assert("inputDigest"@.len() != "idempotencyKey"@.len());
    assert("inputDigest"@.len() != "attemptNumber"@.len());
    assert("inputDigest"@.len() != "status"@.len());
    assert("inputDigest"@.len() != "riskLevel"@.len());
    assert("inputDigest"@.len() != "inputSummary"@.len());
    assert("target"@.len() != "attemptId"@.len());
    assert("target"@[2] != "taskId"@[2]);
    assert("target"@.len() != "toolName"@.len());
    assert("target"@.len() != "idempotencyKey"@.len());
    assert("target"@.len() != "attemptNumber"@.len());
    assert("target"@[0] != "status"@[0]);
    assert("target"@.len() != "riskLevel"@.len());
    assert("target"@.len() != "inputSummary"@.len());
    assert("target"@.len() != "inputDigest"@.len());
    assert("policyDecision"@.len() != "attemptId"@.len());
    assert("policyDecision"@.len() != "taskId"@.len());
    assert("policyDecision"@.len() != "toolName"@.len());
    assert("policyDecision"@[0] != "idempotencyKey"@[0]);
    assert("policyDecision"@.len() != "attemptNumber"@.len());
    assert("policyDecision"@.len() != "status"@.len());
    assert("policyDecision"@.len() != "riskLevel"@.len());
    assert("policyDecision"@.len() != "inputSummary"@.len());
    assert("policyDecision"@.len() != "inputDigest"@.len());
    assert("policyDecision"@.len() != "target"@.len());
    assert("approval"@.len() != "attemptId"@.len());
    assert("approval"@.len() != "taskId"@.len());
    assert("approval"@[0] != "toolName"@[0]);
    assert("approval"@.len() != "idempotencyKey"@.len());
    assert("approval"@.len() != "attemptNumber"@.len());
    assert("approval"@.len() != "status"@.len());
    assert("approval"@.len() != "riskLevel"@.len());
    assert("approval"@.len() != "inputSummary"@.len());
    assert("approval"@.len() != "inputDigest"@.len());
    assert("approval"@.len() != "target"@.len());
    assert("approval"@.len() != "policyDecision"@.len());
    assert("startedAtMs"@.len() != "attemptId"@.len());
    assert("startedAtMs"@.len() != "taskId"@.len());
    assert("startedAtMs"@.len() != "toolName"@.len());
    assert("startedAtMs"@.len() != "idempotencyKey"@.len());
    assert("startedAtMs"@.len() != "attemptNumber"@.len());
    assert("startedAtMs"@.len() != "status"@.len());
    assert("startedAtMs"@.len() != "riskLevel"@.len());
    assert("startedAtMs"@.len() != "inputSummary"@.len());
    assert("startedAtMs"@[0] != "inputDigest"@[0]);
    assert("startedAtMs"@.len() != "target"@.len());
    assert("startedAtMs"@.len() != "policyDecision"@.len());
    assert("startedAtMs"@.len() != "approval"@.len());
    assert("finishedAtMs"@.len() != "attemptId"@.len());
    assert("finishedAtMs"@.len() != "taskId"@.len());
    assert("finishedAtMs"@.len() != "toolName"@.len());
    assert("finishedAtMs"@.len() != "idempotencyKey"@.len());
    assert("finishedAtMs"@.len() != "attemptNumber"@.len());
    assert("finishedAtMs"@.len() != "status"@.len());
    assert("finishedAtMs"@.len() != "riskLevel"@.len());
    assert("finishedAtMs"@[0] != "inputSummary"@[0]);
    assert("finishedAtMs"@.len() != "inputDigest"@.len());
    assert("finishedAtMs"@.len() != "target"@.len());
    assert("finishedAtMs"@.len() != "policyDecision"@.len());
    assert("finishedAtMs"@.len() != "approval"@.len());
    assert("finishedAtMs"@.len() != "startedAtMs"@.len());
    assert("durationMs"@.len() != "attemptId"@.len());
    assert("durationMs"@.len() != "taskId"@.len());
    assert("durationMs"@.len() != "toolName"@.len());
    assert("durationMs"@.len() != "idempotencyKey"@.len());
    assert("durationMs"@.len() != "attemptNumber"@.len());
    assert("durationMs"@.len() != "status"@.len());
    assert("durationMs"@.len() != "riskLevel"@.len());
    assert("durationMs"@.len() != "inputSummary"@.len());
    assert("durationMs"@.len() != "inputDigest"@.len());
    assert("durationMs"@.len() != "target"@.len());
    assert("durationMs"@.len() != "policyDecision"@.len());
    assert("durationMs"@.len() != "approval"@.len());
    assert("durationMs"@.len() != "startedAtMs"@.len());
    assert("durationMs"@.len() != "finishedAtMs"@.len());
    assert("resultType"@.len() != "attemptId"@.len());
    assert("resultType"@.len() != "taskId"@.len());
    assert("resultType"@.len() != "toolName"@.len());
    assert("resultType"@.len() != "idempotencyKey"@.len());
    assert("resultType"@.len() != "attemptNumber"@.len());
    assert("resultType"@.len() != "status"@.len());
    assert("resultType"@.len() != "riskLevel"@.len());
    assert("resultType"@.len() != "inputSummary"@.len());
    assert("resultType"@.len() != "inputDigest"@.len());
    assert("resultType"@.len() != "target"@.len());
    assert("resultType"@.len() != "policyDecision"@.len());
    assert("resultType"@.len() != "approval"@.len());
    assert("resultType"@.len() != "startedAtMs"@.len());
    assert("resultType"@.len() != "finishedAtMs"@.len());
    assert("resultType"@[0] != "durationMs"@[0]);
    assert("outputSummary"@.len() != "attemptId"@.len());
    assert("outputSummary"@.len() != "taskId"@.len());
    assert("outputSummary"@.len() != "toolName"@.len());
    assert("outputSummary"@.len() != "idempotencyKey"@.len());
    assert("outputSummary"@[0] != "attemptNumber"@[0]);
    assert("outputSummary"@.len() != "status"@.len());
    assert("outputSummary"@.len() != "riskLevel"@.len());
    assert("outputSummary"@.len() != "inputSummary"@.len());
    assert("outputSummary"@.len() != "inputDigest"@.len());
    assert("outputSummary"@.len() != "target"@.len());
    assert("outputSummary"@.len() != "policyDecision"@.len());
    assert("outputSummary"@.len() != "approval"@.len());
    assert("outputSummary"@.len() != "startedAtMs"@.len());
    assert("outputSummary"@.len() != "finishedAtMs"@.len());
    assert("outputSummary"@.len() != "durationMs"@.len());
    assert("outputSummary"@.len() != "resultType"@.len());
    assert("verification"@.len() != "attemptId"@.len());
    assert("verification"@.len() != "taskId"@.len());
    assert("verification"@.len() != "toolName"@.len());
    assert("verification"@.len() != "idempotencyKey"@.len());
    assert("verification"@.len() != "attemptNumber"@.len());
    assert("verification"@.len() != "status"@.len());
    assert("verification"@.len() != "riskLevel"@.len());
    assert("verification"@[0] != "inputSummary"@[0]);
    assert("verification"@.len() != "inputDigest"@.len());
    assert("verification"@.len() != "target"@.len());
    assert("verification"@.len() != "policyDecision"@.len());
    assert("verification"@.len() != "approval"@.len());
    assert("verification"@.len() != "startedAtMs"@.len());
    assert("verification"@[0] != "finishedAtMs"@[0]);
    assert("verification"@.len() != "durationMs"@.len());
    assert("verification"@.len() != "resultType"@.len());
    assert("verification"@.len() != "outputSummary"@.len());
    assert("artifacts"@[1] != "attemptId"@[1]);
    assert("artifacts"@.len() != "taskId"@.len());
    assert("artifacts"@.len() != "toolName"@.len());
    assert("artifacts"@.len() != "idempotencyKey"@.len());
    assert("artifacts"@.len() != "attemptNumber"@.len());
    assert("artifacts"@.len() != "status"@.len());
    assert("artifacts"@[0] != "riskLevel"@[0]);
    assert("artifacts"@.len() != "inputSummary"@.len());
    assert("artifacts"@.len() != "inputDigest"@.len());
    assert("artifacts"@.len() != "target"@.len());
    assert("artifacts"@.len() != "policyDecision"@.len());
    assert("artifacts"@.len() != "approval"@.len());
    assert("artifacts"@.len() != "startedAtMs"@.len());
    assert("artifacts"@.len() != "finishedAtMs"@.len());
    assert("artifacts"@.len() != "durationMs"@.len());
    assert("artifacts"@.len() != "resultType"@.len());
    assert("artifacts"@.len() != "outputSummary"@.len());
    assert("artifacts"@.len() != "verification"@.len());
    let x0 = ("attemptId"@, JsonView::Str(r.attempt_id@));
    let x1 = ("taskId"@, JsonView::Str(r.task_id@));
    let x2 = ("toolName"@, JsonView::Str(r.tool_name@));
    let x3 = ("idempotencyKey"@, JsonView::Str(r.idempotency_key@));
    let x4 = ("attemptNumber"@, crate::json::json_integer(r.attempt_number as int));
    let x5 = ("status"@, JsonView::Str(crate::vocabulary::tool_attempt_status_name(r.status)));
    let x6 = ("riskLevel"@, JsonView::Str(crate::vocabulary::tool_risk_level_name(r.risk_level)));
    let x7 = ("inputSummary"@, JsonView::Str(r.input_summary@));
    let x8 = ("inputDigest"@, JsonView::Str(r.input_digest@));
    let ms0 = Seq::<(Seq<char>, JsonView)>::empty();
    assert(seq![x0, x1, x2, x3, x4, x5, x6, x7, x8] == ms0.push(x0).push(x1).push(x2).push(x3).push(x4).push(x5).push(x6).push(x7).push(x8));
    crate::vocabulary::lemma_tool_attempt_status_name_round_trip(r.status);
    crate::vocabulary::lemma_tool_risk_level_name_round_trip(r.risk_level);
    crate::vocabulary::lemma_policy_decision_name_round_trip(r.policy_decision);
    lemma_i64_round_trip(r.attempt_number);
    lemma_i64_round_trip(r.started_at_ms);
    lemma_opt_i64_round_trip(r.finished_at_ms);
    lemma_opt_i64_round_trip(r.duration_ms);
    match r.result_type {
        Some(t) => crate::vocabulary::lemma_result_type_name_round_trip(t),
        None => {},
    }
    match r.target {
        Some(t) => lemma_target_round_trip(t),
        None => {},
    }
    match r.approval {
        Some(a) => lemma_approval_round_trip(a),
        None => {},
    }
    match r.verification {
        Some(v) => lemma_verification_round_trip(v),
        None => {},
    }
    let items = crate::receipt::artifact_list_json(r.artifacts@);
    assert forall|i: int| 0 <= i < items.len() implies #[trigger] artifact_model(items[i]) == Some(
        r.artifacts@[i].view(),
    ) by {
        lemma_artifact_round_trip(r.artifacts@[i]);
    }
    let o = crate::receipt::receipt_json(r);
    assert(json_get(o, "artifacts"@) == Some(JsonView::Array(items)));
    assert(artifacts_model(o) is Some);
    assert(artifacts_model(o)->0 =~= r.view().artifacts);
}

} // verus!
