//! Saving tool receipts and deciding, after a restart, whether a tool call may
//! run again.
//!
//! The full receipt is stored as JSON next to the attempt's indexed columns.
//! A receipt is only stored when its fields agree: a success must carry a
//! passed verification that does not rest on model prose and points at
//! evidence; other statuses must carry the matching result type; an approved
//! attempt must name its approval. A recovery must ask `decide_execution`
//! first: `Reconcile` forbids calling the real tool again.

use vstd::prelude::*;

use crate::domain::{opt_text_json, verification_json};
use crate::json::{members_view, push_member, JsonValue, JsonView};
use crate::receipt::{approval_json, receipt_json, target_json, ReceiptView, ToolExecutionReceipt, verified_success};
use crate::receipt_decode::{decode_receipt, receipt_model};
use crate::store::{replay_decision, upsert_attempt, DecisionView, Storage, StorageError, StorageView};
use crate::store_models::{AttemptView, ToolAttempt};
use crate::vocabulary::{policy_decision_name, PolicyDecision, ResultType, ToolAttemptStatus, VerificationStatus};

verus! {

/// What a recovering worker may do about a tool call.
#[derive(Debug, Clone, PartialEq)]
pub enum ToolExecutionDecision {
    /// Nothing blocks running the tool.
    Execute,
    /// The call already succeeded with a verified receipt; reuse it.
    ReuseVerified(ToolExecutionReceipt),
    /// The last attempt has no definite end; reconcile it before any retry.
    Reconcile(ToolExecutionReceipt),
}

/// Why a receipt was refused or could not be used.
#[derive(Debug, Clone, PartialEq)]
pub enum ToolExecutionError {
    /// A success without a passed, evidence-backed, non-prose verification.
    UnverifiedSuccess,
    /// An unknown outcome must be reconciled before a retry.
    ReconciliationRequired,
    /// The receipt's status, result type and approval disagree, or no receipt was stored.
    InconsistentReceipt,
    /// The store refused the operation.
    Storage(StorageError),
    /// A stored receipt is not a valid receipt.
    Json(String),
}

/// Kinds of receipt refusal.
pub enum ReceiptFault {
    UnverifiedSuccess,
    Inconsistent,
}

/// The refusal a receipt's status and result fields call for, if any.
pub open spec fn status_fault(r: ToolExecutionReceipt) -> Option<ReceiptFault> {
    match r.status {
        ToolAttemptStatus::Succeeded => if !verified_success(r) || match r.verification {
            Some(v) => v.method@ == "model_prose"@ || v.evidence@.len() == 0,
            None => true,
        } {
            Some(ReceiptFault::UnverifiedSuccess)
        } else {
            None
        },
        ToolAttemptStatus::Unknown => if r.result_type != Some(ResultType::Unknown) || (
        r.verification matches Some(v) && v.status is Passed) {
            Some(ReceiptFault::Inconsistent)
        } else {
            None
        },
        ToolAttemptStatus::Failed => if r.result_type != Some(ResultType::Failure) {
            Some(ReceiptFault::Inconsistent)
        } else {
            None
        },
        ToolAttemptStatus::Cancelled => if r.result_type != Some(ResultType::Cancelled) {
            Some(ReceiptFault::Inconsistent)
        } else {
            None
        },
        ToolAttemptStatus::NeedsUser => if r.result_type != Some(ResultType::NeedsUser) {
            Some(ReceiptFault::Inconsistent)
        } else {
            None
        },
        ToolAttemptStatus::Started => if r.result_type is Some {
            Some(ReceiptFault::Inconsistent)
        } else {
            None
        },
    }
}

/// The refusal a receipt calls for, if any: first its status fields, then an
/// approved attempt that names no approval.
pub open spec fn receipt_fault(r: ToolExecutionReceipt) -> Option<ReceiptFault> {
    match status_fault(r) {
        Some(f) => Some(f),
        None => if r.policy_decision is Approved && r.approval is None {
            Some(ReceiptFault::Inconsistent)
        } else {
            None
        },
    }
}

/// The policy column of a stored attempt: the decision, the approval binding
/// (or `null`) and the redacted input summary.
pub open spec fn policy_json(r: ToolExecutionReceipt) -> JsonView {
    JsonView::Object(
        seq![
            ("decision"@, JsonView::Str(policy_decision_name(r.policy_decision))),
            ("approval"@, match r.approval {
                Some(a) => approval_json(a),
                None => JsonView::Null,
            }),
            ("inputSummary"@, JsonView::Str(r.input_summary@)),
        ],
    )
}

/// The attempt row a receipt is stored as.
pub open spec fn attempt_of(r: ToolExecutionReceipt) -> AttemptView {
    AttemptView {
        attempt_id: r.attempt_id@,
        task_id: r.task_id@,
        tool_name: r.tool_name@,
        idempotency_key: r.idempotency_key@,
        attempt_number: r.attempt_number,
        status: r.status,
        risk_level: r.risk_level,
        input_digest: r.input_digest@,
        target: match r.target {
            Some(t) => Some(target_json(t)),
            None => None,
        },
        policy: Some(policy_json(r)),
        result_type: r.result_type,
        receipt: Some(receipt_json(r)),
        verification: match r.verification {
            Some(v) => Some(verification_json(v)),
            None => None,
        },
        started_at_ms: r.started_at_ms,
        finished_at_ms: r.finished_at_ms,
    }
}

/// A receipt model records a verified success.
pub open spec fn model_verified_success(m: ReceiptView) -> bool {
    &&& m.status is Succeeded
    &&& m.result_type == Some(ResultType::Success)
    &&& m.verification matches Some(v) && v.status is Passed
}

/// Checks that a receipt's fields agree; see `receipt_fault`.
pub fn validate_receipt(receipt: &ToolExecutionReceipt) -> (r: Result<(), ToolExecutionError>)
    ensures
        match receipt_fault(*receipt) {
            None => r is Ok,
            Some(ReceiptFault::UnverifiedSuccess) => r matches Err(ToolExecutionError::UnverifiedSuccess),
            Some(ReceiptFault::Inconsistent) => r matches Err(ToolExecutionError::InconsistentReceipt),
        },
{
    let result = receipt.result_type;
    match receipt.status {
        ToolAttemptStatus::Succeeded => {
            let weak = match &receipt.verification {
                Some(v) => v.method == String::from_str("model_prose") || v.evidence.len() == 0,
                None => true,
            };
            if !receipt.is_verified_success() || weak {
                return Err(ToolExecutionError::UnverifiedSuccess);
            }
        },
        ToolAttemptStatus::Unknown => {
            let is_unknown = match result {
                Some(ResultType::Unknown) => true,
                _ => false,
            };
            let passed = match &receipt.verification {
                Some(v) => match v.status {
                    crate::vocabulary::VerificationStatus::Passed => true,
                    _ => false,
                },
                None => false,
            };
            if !is_unknown || passed {
                return Err(ToolExecutionError::InconsistentReceipt);
            }
        },
        ToolAttemptStatus::Failed => {
            let ok = match result {
                Some(ResultType::Failure) => true,
                _ => false,
            };
            if !ok {
                return Err(ToolExecutionError::InconsistentReceipt);
            }
        },
        ToolAttemptStatus::Cancelled => {
            let ok = match result {
                Some(ResultType::Cancelled) => true,
                _ => false,
            };
            if !ok {
                return Err(ToolExecutionError::InconsistentReceipt);
            }
        },
        ToolAttemptStatus::NeedsUser => {
            let ok = match result {
                Some(ResultType::NeedsUser) => true,
                _ => false,
            };
            if !ok {
                return Err(ToolExecutionError::InconsistentReceipt);
            }
        },
        ToolAttemptStatus::Started => {
            if result.is_some() {
                return Err(ToolExecutionError::InconsistentReceipt);
            }
        },
    }
    let approved = match receipt.policy_decision {
        PolicyDecision::Approved => true,
        _ => false,
    };
    if approved && receipt.approval.is_none() {
        return Err(ToolExecutionError::InconsistentReceipt);
    }
    Ok(())
}

/// The attempt row a receipt is stored as; see `attempt_of`.
pub fn receipt_to_attempt(receipt: &ToolExecutionReceipt) -> (r: ToolAttempt)
    ensures
        r.view() == attempt_of(*receipt),
{
    let mut policy: Vec<(String, JsonValue)> = Vec::new();
    push_member(&mut policy, "decision", JsonValue::string(receipt.policy_decision.as_str()));
    let approval = match &receipt.approval {
        Some(a) => a.to_json(),
        None => JsonValue::Null,
    };
    push_member(&mut policy, "approval", approval);
    push_member(&mut policy, "inputSummary", JsonValue::String(receipt.input_summary.clone()));
    proof {
        assert(members_view(policy@) =~= seq![
            ("decision"@, JsonView::Str(policy_decision_name(receipt.policy_decision))),
            ("approval"@, match receipt.approval {
                Some(a) => approval_json(a),
                None => JsonView::Null,
            }),
            ("inputSummary"@, JsonView::Str(receipt.input_summary@)),
        ]);
    }
    ToolAttempt {
        attempt_id: receipt.attempt_id.clone(),
        task_id: receipt.task_id.clone(),
        tool_name: receipt.tool_name.clone(),
        idempotency_key: receipt.idempotency_key.clone(),
        attempt_number: receipt.attempt_number,
        status: receipt.status,
        risk_level: receipt.risk_level,
        input_digest: receipt.input_digest.clone(),
        target: match &receipt.target {
            Some(t) => Some(t.to_json()),
            None => None,
        },
        policy: Some(JsonValue::object(policy)),
        result_type: receipt.result_type,
        receipt: Some(receipt.to_json()),
        verification: match &receipt.verification {
            Some(v) => Some(v.to_json()),
            None => None,
        },
        started_at_ms: receipt.started_at_ms,
        finished_at_ms: receipt.finished_at_ms,
    }
}

/// The receipt stored with an attempt.
pub fn receipt_from_attempt(attempt: &ToolAttempt) -> (r: Result<ToolExecutionReceipt, ToolExecutionError>)
    ensures
        match attempt.view().receipt {
            None => r matches Err(ToolExecutionError::InconsistentReceipt),
            Some(j) => match receipt_model(j) {
                Some(m) => r matches Ok(x) && x.view() == m,
                None => r matches Err(ToolExecutionError::Json(_)),
            },
        },
{
    match &attempt.receipt {
        None => Err(ToolExecutionError::InconsistentReceipt),
        Some(j) => match decode_receipt(j) {
            Some(x) => Ok(x),
            None => Err(ToolExecutionError::Json(String::from_str("stored receipt is not a valid receipt"))),
        },
    }
}

/// Stores a receipt after checking that its fields agree.
pub fn save_execution_receipt(storage: &mut Storage, receipt: &ToolExecutionReceipt) -> (r: Result<(), ToolExecutionError>)
    ensures
        match receipt_fault(*receipt) {
            Some(ReceiptFault::UnverifiedSuccess) => r matches Err(ToolExecutionError::UnverifiedSuccess)
                && final(storage).view() == old(storage).view(),
            Some(ReceiptFault::Inconsistent) => r matches Err(ToolExecutionError::InconsistentReceipt)
                && final(storage).view() == old(storage).view(),
            None => r is Ok && final(storage).view() == (StorageView {
                attempts: upsert_attempt(old(storage).view().attempts, attempt_of(*receipt)),
                ..old(storage).view()
            }),
        },
        r is Ok && receipt.status is Succeeded ==> receipt.result_type == Some(ResultType::Success) && match receipt.verification {
            Some(v) => v.status is Passed && v.method@ != "model_prose"@ && v.evidence@.len() > 0,
            None => false,
        },
        r is Err ==> final(storage).view() == old(storage).view(),
{
    match validate_receipt(receipt) {
        Ok(()) => {},
        Err(e) => return Err(e),
    }
    let attempt = receipt_to_attempt(receipt);
    match storage.save_tool_attempt(&attempt) {
        Ok(()) => Ok(()),
        Err(e) => Err(ToolExecutionError::Storage(e)),
    }
}

/// The outcome of `decide_execution` for a store decision.
pub open spec fn execution_outcome(d: DecisionView, r: Result<ToolExecutionDecision, ToolExecutionError>) -> bool {
    match d {
        DecisionView::Execute => r matches Ok(ToolExecutionDecision::Execute),
        DecisionView::ReuseCompleted(a) => match a.receipt {
            None => r matches Err(ToolExecutionError::InconsistentReceipt),
            Some(j) => match receipt_model(j) {
                None => r matches Err(ToolExecutionError::Json(_)),
                Some(m) => if model_verified_success(m) {
                    r matches Ok(ToolExecutionDecision::ReuseVerified(x)) && x.view() == m
                } else {
                    r matches Err(ToolExecutionError::UnverifiedSuccess)
                },
            },
        },
        DecisionView::ReconcileIncomplete(a) => match a.receipt {
            None => r matches Err(ToolExecutionError::InconsistentReceipt),
            Some(j) => match receipt_model(j) {
                None => r matches Err(ToolExecutionError::Json(_)),
                Some(m) => r matches Ok(ToolExecutionDecision::Reconcile(x)) && x.view() == m,
            },
        },
    }
}

/// Decides what a recovering worker may do about `(task_id, idempotency_key)`:
/// reuse a verified receipt, reconcile an attempt without definite end, or run.
pub fn decide_execution(storage: &Storage, task_id: &str, idempotency_key: &str) -> (r: Result<
    ToolExecutionDecision,
    ToolExecutionError,
>)
    ensures
        execution_outcome(replay_decision(storage.view().attempts, task_id@, idempotency_key@), r),
{
    let decision = match storage.tool_replay_decision(task_id, idempotency_key) {
        Ok(d) => d,
        Err(e) => return Err(ToolExecutionError::Storage(e)),
    };
    match decision {
        crate::store_models::ToolReplayDecision::Execute => Ok(ToolExecutionDecision::Execute),
        crate::store_models::ToolReplayDecision::ReuseCompleted(attempt) => {
            let receipt = match receipt_from_attempt(&attempt) {
                Ok(x) => x,
                Err(e) => return Err(e),
            };
            if !receipt.is_verified_success() {
                return Err(ToolExecutionError::UnverifiedSuccess);
            }
            Ok(ToolExecutionDecision::ReuseVerified(receipt))
        },
        crate::store_models::ToolReplayDecision::ReconcileIncomplete(attempt) => {
            match receipt_from_attempt(&attempt) {
                Ok(x) => Ok(ToolExecutionDecision::Reconcile(x)),
                Err(e) => Err(e),
            }
        },
    }
}

} // verus!

verus! {

/// The first attempt recorded for a call decides what a restarted worker does
/// about it: a succeeded receipt is reused exactly as it was saved; a receipt
/// without definite end (started, unknown, needs the user) must be reconciled,
/// again exactly as saved; a failed or cancelled one lets the call run again.
pub proof fn lemma_saved_receipt_decides_replay(
    attempts: Seq<AttemptView>,
    r: ToolExecutionReceipt,
    outcome: Result<ToolExecutionDecision, ToolExecutionError>,
)
    requires
        receipt_fault(r) is None,
        crate::store::attempt_row(attempts, r.attempt_id@) is None,
        forall|j: int|
            0 <= j < attempts.len() ==> !crate::store::attempt_matches(
                #[trigger] attempts[j],
                r.task_id@,
                r.idempotency_key@,
                false,
            ),
        execution_outcome(
            replay_decision(upsert_attempt(attempts, attempt_of(r)), r.task_id@, r.idempotency_key@),
            outcome,
        ),
    ensures
        r.status is Succeeded ==> (outcome matches Ok(ToolExecutionDecision::ReuseVerified(x)) && x.view()
            == r.view()),
        crate::store::is_incomplete(r.status) ==> (outcome matches Ok(ToolExecutionDecision::Reconcile(x))
            && x.view() == r.view()),
        (r.status is Failed || r.status is Cancelled) ==> (outcome matches Ok(ToolExecutionDecision::Execute)),
{
    let after = upsert_attempt(attempts, attempt_of(r));
    let n = attempts.len() as int;
    assert(after == attempts.push(attempt_of(r)));
    let t = r.task_id@;
    let k = r.idempotency_key@;
    assert forall|j: int| 0 <= j < n implies !crate::store::attempt_matches(#[trigger] after[j], t, k, false) by {
        assert(after[j] == attempts[j]);
    }
    assert forall|j: int| 0 <= j < n implies !crate::store::attempt_matches(#[trigger] after[j], t, k, true) by {
        assert(after[j] == attempts[j]);
        assert(!crate::store::attempt_matches(after[j], t, k, false));
    }
    crate::store::lemma_latest_attempt_none(after, t, k, false, n);
    crate::store::lemma_latest_attempt_none(after, t, k, true, n);
    assert(after[n] == attempt_of(r));
    crate::receipt_decode::lemma_receipt_round_trip(r);
}

/// Which receipts are stored, field by field. A success is stored only with
/// a success result and a verification that passed, was not obtained by
/// reading model prose, and points at evidence; anything short of that is an
/// unverified success. An unknown outcome carries the unknown result and no
/// passed verification; a failure, a cancellation and a hand-over to the
/// user carry their own result; a started attempt has no result yet. A
/// receipt that claims an approval must name it.
pub proof fn lemma_receipt_acceptance(r: ToolExecutionReceipt)
    ensures
        receipt_fault(r) is None <==> {
            &&& r.status is Succeeded ==> r.result_type == Some(ResultType::Success) && match r.verification {
                Some(v) => v.status is Passed && v.method@ != "model_prose"@ && v.evidence@.len() > 0,
                None => false,
            }
            &&& r.status is Unknown ==> r.result_type == Some(ResultType::Unknown) && match r.verification {
                Some(v) => !(v.status is Passed),
                None => true,
            }
            &&& r.status is Failed ==> r.result_type == Some(ResultType::Failure)
            &&& r.status is Cancelled ==> r.result_type == Some(ResultType::Cancelled)
            &&& r.status is NeedsUser ==> r.result_type == Some(ResultType::NeedsUser)
            &&& r.status is Started ==> r.result_type is None
            &&& r.policy_decision is Approved ==> r.approval is Some
        },
        r.status is Succeeded && !(r.result_type == Some(ResultType::Success) && match r.verification {
            Some(v) => v.status is Passed && v.method@ != "model_prose"@ && v.evidence@.len() > 0,
            None => false,
        }) ==> receipt_fault(r) == Some(ReceiptFault::UnverifiedSuccess),
{
}

} // verus!
