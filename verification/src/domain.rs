//! Domain events shared by the host, the worker and the UI, and their JSON form.
//!
//! Each event carries its full task context so it can be ordered and traced on
//! its own after crossing a process boundary. The JSON form is flat: the
//! context fields, a `kind` tag, and the fields of the payload, in camelCase;
//! absent optional fields are left out.

use vstd::prelude::*;

use crate::json::{
    items_view, json_get, json_integer, json_unsigned, lemma_get_empty, lemma_get_push,
    lemma_get_push_optional, members_view, push_member, push_optional, JsonValue, JsonView,
};
use crate::vocabulary::{
    policy_decision_name, result_type_name, task_lifecycle_name, tool_attempt_status_name,
    verification_status_name, voice_state_name, worker_state_name, PolicyDecision, ResultType,
    TaskId, TaskLifecycle, TaskRunId, ToolAttemptStatus, TraceId, VerificationStatus, VoiceState,
    WorkerState,
};

verus! {

/// Context carried by every domain event.
#[derive(Debug, Clone, PartialEq, Eq)]
pub struct DomainEventContext {
    pub event_id: String,
    pub task_id: TaskId,
    pub task_run_id: TaskRunId,
    pub trace_id: TraceId,
    pub occurred_at_ms: i64,
}

/// A pointer to a piece of evidence that can be checked again.
#[derive(Debug, Clone, PartialEq, Eq)]
pub struct EvidenceReference {
    pub kind: String,
    pub reference: String,
}

/// A verification states only observations that can be re-checked; model
/// generated prose is never evidence.
#[derive(Debug, Clone, PartialEq, Eq)]
pub struct VerificationRecord {
    pub status: VerificationStatus,
    pub method: String,
    pub summary: String,
    pub evidence: Vec<EvidenceReference>,
    pub verified_at_ms: Option<i64>,
}

/// A domain event: its context and its payload.
#[derive(Debug, Clone, PartialEq)]
pub struct DomainEvent {
    pub context: DomainEventContext,
    pub payload: DomainEventPayload,
}

/// The payloads of domain events.
#[derive(Debug, Clone, PartialEq)]
pub enum DomainEventPayload {
    TaskLifecycleChanged { from: Option<TaskLifecycle>, to: TaskLifecycle, reason: Option<String> },
    TaskProgressUpdated { step: String, completed_units: Option<u64>, total_units: Option<u64> },
    VoiceStateChanged { state: VoiceState },
    ToolAttemptUpdated {
        attempt_id: String,
        tool_name: String,
        status: ToolAttemptStatus,
        result_type: Option<ResultType>,
    },
    ApprovalRequested {
        approval_id: String,
        attempt_id: String,
        action: String,
        payload_digest: String,
    },
    ApprovalResolved { approval_id: String, attempt_id: String, decision: PolicyDecision },
    WorkerStateChanged { state: WorkerState, reason: Option<String> },
    VerificationRecorded { attempt_id: String, verification: VerificationRecord },
    TaskResultRecorded { result_type: ResultType, summary: String },
}

/// The `kind` tag of a payload.
pub open spec fn payload_kind(p: DomainEventPayload) -> Seq<char> {
    match p {
        DomainEventPayload::TaskLifecycleChanged { .. } => "task.lifecycle_changed"@,
        DomainEventPayload::TaskProgressUpdated { .. } => "task.progress_updated"@,
        DomainEventPayload::VoiceStateChanged { .. } => "voice.state_changed"@,
        DomainEventPayload::ToolAttemptUpdated { .. } => "tool.attempt_updated"@,
        DomainEventPayload::ApprovalRequested { .. } => "approval.requested"@,
        DomainEventPayload::ApprovalResolved { .. } => "approval.resolved"@,
        DomainEventPayload::WorkerStateChanged { .. } => "worker.state_changed"@,
        DomainEventPayload::VerificationRecorded { .. } => "verification.recorded"@,
        DomainEventPayload::TaskResultRecorded { .. } => "task.result_recorded"@,
    }
}

impl DomainEventPayload {
    /// The `kind` tag of this payload.
    pub fn kind(&self) -> (r: &'static str)
        ensures
            r@ == payload_kind(*self),
    {
        match self {
            DomainEventPayload::TaskLifecycleChanged { .. } => "task.lifecycle_changed",
            DomainEventPayload::TaskProgressUpdated { .. } => "task.progress_updated",
            DomainEventPayload::VoiceStateChanged { .. } => "voice.state_changed",
            DomainEventPayload::ToolAttemptUpdated { .. } => "tool.attempt_updated",
            DomainEventPayload::ApprovalRequested { .. } => "approval.requested",
            DomainEventPayload::ApprovalResolved { .. } => "approval.resolved",
            DomainEventPayload::WorkerStateChanged { .. } => "worker.state_changed",
            DomainEventPayload::VerificationRecorded { .. } => "verification.recorded",
            DomainEventPayload::TaskResultRecorded { .. } => "task.result_recorded",
        }
    }
}

impl DomainEvent {
    /// The `kind` tag of this event.
    pub fn kind(&self) -> (r: &'static str)
        ensures
            r@ == payload_kind(self.payload),
    {
        self.payload.kind()
    }
}

pub open spec fn opt_text_json(o: Option<String>) -> Option<JsonView> {
    match o {
        Some(s) => Some(JsonView::Str(s@)),
        None => None,
    }
}

pub open spec fn opt_i64_json(o: Option<i64>) -> Option<JsonView> {
    match o {
        Some(n) => Some(json_integer(n as int)),
        None => None,
    }
}

pub open spec fn opt_u64_json(o: Option<u64>) -> Option<JsonView> {
    match o {
        Some(n) => Some(json_unsigned(n)),
        None => None,
    }
}

/// JSON form of an evidence reference.
pub open spec fn evidence_json(e: EvidenceReference) -> JsonView {
    JsonView::Object(seq![("kind"@, JsonView::Str(e.kind@)), ("reference"@, JsonView::Str(e.reference@))])
}

/// JSON forms of a list of evidence references.
pub open spec fn evidence_list_json(v: Seq<EvidenceReference>) -> Seq<JsonView> {
    Seq::new(v.len(), |i: int| evidence_json(v[i]))
}

/// JSON form of a verification record.
pub open spec fn verification_json(r: VerificationRecord) -> JsonView {
    JsonView::Object(
        push_optional(
            seq![
                ("status"@, JsonView::Str(verification_status_name(r.status))),
                ("method"@, JsonView::Str(r.method@)),
                ("summary"@, JsonView::Str(r.summary@)),
                ("evidence"@, JsonView::Array(evidence_list_json(r.evidence@))),
            ],
            "verifiedAtMs"@,
            opt_i64_json(r.verified_at_ms),
        ),
    )
}

/// JSON members of an event context.
pub open spec fn context_members(c: DomainEventContext) -> Seq<(Seq<char>, JsonView)> {
    seq![
        ("eventId"@, JsonView::Str(c.event_id@)),
        ("taskId"@, JsonView::Str(c.task_id.0@)),
        ("taskRunId"@, JsonView::Str(c.task_run_id.0@)),
        ("traceId"@, JsonView::Str(c.trace_id.0@)),
        ("occurredAtMs"@, json_integer(c.occurred_at_ms as int)),
    ]
}

/// JSON members of a payload appended to `m`, starting with its `kind` tag.
pub open spec fn payload_members(m: Seq<(Seq<char>, JsonView)>, p: DomainEventPayload) -> Seq<
    (Seq<char>, JsonView),
> {
    let m = m.push(("kind"@, JsonView::Str(payload_kind(p))));
    match p {
        DomainEventPayload::TaskLifecycleChanged { from, to, reason } => push_optional(
            push_optional(
                m,
                "from"@,
                match from {
                    Some(f) => Some(JsonView::Str(task_lifecycle_name(f))),
                    None => None,
                },
            ).push(("to"@, JsonView::Str(task_lifecycle_name(to)))),
            "reason"@,
            opt_text_json(reason),
        ),
        DomainEventPayload::TaskProgressUpdated { step, completed_units, total_units } => push_optional(
            push_optional(
                m.push(("step"@, JsonView::Str(step@))),
                "completedUnits"@,
                opt_u64_json(completed_units),
            ),
            "totalUnits"@,
            opt_u64_json(total_units),
        ),
        DomainEventPayload::VoiceStateChanged { state } => m.push(
            ("state"@, JsonView::Str(voice_state_name(state))),
        ),
        DomainEventPayload::ToolAttemptUpdated { attempt_id, tool_name, status, result_type } =>
            push_optional(
            m.push(("attemptId"@, JsonView::Str(attempt_id@))).push(
                ("toolName"@, JsonView::Str(tool_name@)),
            ).push(("status"@, JsonView::Str(tool_attempt_status_name(status)))),
            "resultType"@,
            match result_type {
                Some(t) => Some(JsonView::Str(result_type_name(t))),
                None => None,
            },
        ),
        DomainEventPayload::ApprovalRequested { approval_id, attempt_id, action, payload_digest } =>
            m.push(("approvalId"@, JsonView::Str(approval_id@))).push(
            ("attemptId"@, JsonView::Str(attempt_id@)),
        ).push(("action"@, JsonView::Str(action@))).push(
            ("payloadDigest"@, JsonView::Str(payload_digest@)),
        ),
        DomainEventPayload::ApprovalResolved { approval_id, attempt_id, decision } => m.push(
            ("approvalId"@, JsonView::Str(approval_id@)),
        ).push(("attemptId"@, JsonView::Str(attempt_id@))).push(
            ("decision"@, JsonView::Str(policy_decision_name(decision))),
        ),
        DomainEventPayload::WorkerStateChanged { state, reason } => push_optional(
            m.push(("state"@, JsonView::Str(worker_state_name(state)))),
            "reason"@,
            opt_text_json(reason),
        ),
        DomainEventPayload::VerificationRecorded { attempt_id, verification } => m.push(
            ("attemptId"@, JsonView::Str(attempt_id@)),
        ).push(("verification"@, verification_json(verification))),
        DomainEventPayload::TaskResultRecorded { result_type, summary } => m.push(
            ("resultType"@, JsonView::Str(result_type_name(result_type))),
        ).push(("summary"@, JsonView::Str(summary@))),
    }
}

/// JSON form of a domain event.
pub open spec fn event_json(e: DomainEvent) -> JsonView {
    JsonView::Object(payload_members(context_members(e.context), e.payload))
}

fn push_optional_text(members: &mut Vec<(String, JsonValue)>, key: &str, value: &Option<String>)
    ensures
        members_view(final(members)@) == push_optional(
            members_view(old(members)@),
            key@,
            opt_text_json(*value),
        ),
{
    match value {
        Some(s) => push_member(members, key, JsonValue::String(s.clone())),
        None => {},
    }
}

fn push_optional_u64(members: &mut Vec<(String, JsonValue)>, key: &str, value: Option<u64>)
    ensures
        members_view(final(members)@) == push_optional(
            members_view(old(members)@),
            key@,
            opt_u64_json(value),
        ),
{
    match value {
        Some(n) => push_member(members, key, JsonValue::Number(crate::json::JsonNumber::PosInt(n))),
        None => {},
    }
}

fn text(s: &str) -> (r: JsonValue)
    ensures
        r.view() == JsonView::Str(s@),
{
    JsonValue::string(s)
}

impl EvidenceReference {
    /// JSON form of this reference.
    pub fn to_json(&self) -> (r: JsonValue)
        ensures
            r.view() == evidence_json(*self),
    {
        let mut m: Vec<(String, JsonValue)> = Vec::new();
        push_member(&mut m, "kind", JsonValue::String(self.kind.clone()));
        push_member(&mut m, "reference", JsonValue::String(self.reference.clone()));
        let r = JsonValue::object(m);
        proof {
            assert(members_view(m@) =~= seq![
                ("kind"@, JsonView::Str(self.kind@)),
                ("reference"@, JsonView::Str(self.reference@)),
            ]);
        }
        r
    }
}

impl VerificationRecord {
    /// JSON form of this record.
    pub fn to_json(&self) -> (r: JsonValue)
        ensures
            r.view() == verification_json(*self),
    {
        let mut items: Vec<JsonValue> = Vec::new();
        let mut i: usize = 0;
        while i < self.evidence.len()
            invariant
                i <= self.evidence@.len(),
                items_view(items@) =~= evidence_list_json(self.evidence@.take(i as int)),
            decreases self.evidence@.len() - i,
        {
            let ghost before = items@;
            items.push(self.evidence[i].to_json());
            proof {
                assert(items_view(items@) =~= items_view(before).push(evidence_json(self.evidence@[i as int])));
                assert(evidence_list_json(self.evidence@.take(i + 1)) =~= evidence_list_json(
                    self.evidence@.take(i as int),
                ).push(evidence_json(self.evidence@[i as int])));
            }
            i = i + 1;
        }
        proof {
            assert(self.evidence@.take(self.evidence@.len() as int) =~= self.evidence@);
        }
        let mut m: Vec<(String, JsonValue)> = Vec::new();
        push_member(&mut m, "status", text(self.status.as_str()));
        push_member(&mut m, "method", JsonValue::String(self.method.clone()));
        push_member(&mut m, "summary", JsonValue::String(self.summary.clone()));
        push_member(&mut m, "evidence", JsonValue::array(items));
        match self.verified_at_ms {
            Some(t) => push_member(&mut m, "verifiedAtMs", JsonValue::integer(t)),
            None => {},
        }
        let r = JsonValue::object(m);
        proof {
            assert(members_view(m@) =~= push_optional(
                seq![
                    ("status"@, JsonView::Str(verification_status_name(self.status))),
                    ("method"@, JsonView::Str(self.method@)),
                    ("summary"@, JsonView::Str(self.summary@)),
                    ("evidence"@, JsonView::Array(evidence_list_json(self.evidence@))),
                ],
                "verifiedAtMs"@,
                opt_i64_json(self.verified_at_ms),
            ));
        }
        r
    }
}

impl DomainEvent {
    /// JSON form of this event: context fields, `kind`, then payload fields.
    pub fn to_json(&self) -> (r: JsonValue)
        ensures
            r.view() == event_json(*self),
    {
        let c = &self.context;
        let mut m: Vec<(String, JsonValue)> = Vec::new();
        push_member(&mut m, "eventId", JsonValue::String(c.event_id.clone()));
        push_member(&mut m, "taskId", JsonValue::String(c.task_id.0.clone()));
        push_member(&mut m, "taskRunId", JsonValue::String(c.task_run_id.0.clone()));
        push_member(&mut m, "traceId", JsonValue::String(c.trace_id.0.clone()));
        push_member(&mut m, "occurredAtMs", JsonValue::integer(c.occurred_at_ms));
        proof {
            assert(members_view(m@) =~= context_members(self.context));
        }
        let ghost base = members_view(m@);
        push_member(&mut m, "kind", text(self.payload.kind()));
        match &self.payload {
            DomainEventPayload::TaskLifecycleChanged { from, to, reason } => {
                match from {
                    Some(f) => push_member(&mut m, "from", text(f.as_str())),
                    None => {},
                }
                push_member(&mut m, "to", text(to.as_str()));
                push_optional_text(&mut m, "reason", reason);
            },
            DomainEventPayload::TaskProgressUpdated { step, completed_units, total_units } => {
                push_member(&mut m, "step", JsonValue::String(step.clone()));
                push_optional_u64(&mut m, "completedUnits", *completed_units);
                push_optional_u64(&mut m, "totalUnits", *total_units);
            },
            DomainEventPayload::VoiceStateChanged { state } => {
                push_member(&mut m, "state", text(state.as_str()));
            },
            DomainEventPayload::ToolAttemptUpdated { attempt_id, tool_name, status, result_type } => {
                push_member(&mut m, "attemptId", JsonValue::String(attempt_id.clone()));
                push_member(&mut m, "toolName", JsonValue::String(tool_name.clone()));
                push_member(&mut m, "status", text(status.as_str()));
                match result_type {
                    Some(t) => push_member(&mut m, "resultType", text(t.as_str())),
                    None => {},
                }
            },
            DomainEventPayload::ApprovalRequested {
                approval_id,
                attempt_id,
                action,
                payload_digest,
            } => {
                push_member(&mut m, "approvalId", JsonValue::String(approval_id.clone()));
                push_member(&mut m, "attemptId", JsonValue::String(attempt_id.clone()));
                push_member(&mut m, "action", JsonValue::String(action.clone()));
                push_member(&mut m, "payloadDigest", JsonValue::String(payload_digest.clone()));
            },
            DomainEventPayload::ApprovalResolved { approval_id, attempt_id, decision } => {
                push_member(&mut m, "approvalId", JsonValue::String(approval_id.clone()));
                push_member(&mut m, "attemptId", JsonValue::String(attempt_id.clone()));
                push_member(&mut m, "decision", text(decision.as_str()));
            },
            DomainEventPayload::WorkerStateChanged { state, reason } => {
                push_member(&mut m, "state", text(state.as_str()));
                push_optional_text(&mut m, "reason", reason);
            },
            DomainEventPayload::VerificationRecorded { attempt_id, verification } => {
                push_member(&mut m, "attemptId", JsonValue::String(attempt_id.clone()));
                push_member(&mut m, "verification", verification.to_json());
            },
            DomainEventPayload::TaskResultRecorded { result_type, summary } => {
                push_member(&mut m, "resultType", text(result_type.as_str()));
                push_member(&mut m, "summary", JsonValue::String(summary.clone()));
            },
        }
        proof {
            assert(members_view(m@) =~= payload_members(base, self.payload));
        }
        JsonValue::object(m)
    }
}

} // verus!

verus! {

/// The position of a payload's variant in the declaration.
pub open spec fn payload_variant(p: DomainEventPayload) -> int {
    match p {
        DomainEventPayload::TaskLifecycleChanged { .. } => 0,
        DomainEventPayload::TaskProgressUpdated { .. } => 1,
        DomainEventPayload::VoiceStateChanged { .. } => 2,
        DomainEventPayload::ToolAttemptUpdated { .. } => 3,
        DomainEventPayload::ApprovalRequested { .. } => 4,
        DomainEventPayload::ApprovalResolved { .. } => 5,
        DomainEventPayload::WorkerStateChanged { .. } => 6,
        DomainEventPayload::VerificationRecorded { .. } => 7,
        DomainEventPayload::TaskResultRecorded { .. } => 8,
    }
}

/// Two payloads have the same `kind` tag exactly when they are of the same
/// variant, so the tag tells the variant.
pub proof fn lemma_payload_kinds_distinct(p: DomainEventPayload, q: DomainEventPayload)
    ensures
        payload_kind(p) == payload_kind(q) <==> payload_variant(p) == payload_variant(q),
{
    reveal_strlit("task.lifecycle_changed");
    reveal_strlit("task.progress_updated");
    reveal_strlit("voice.state_changed");
    reveal_strlit("tool.attempt_updated");
    reveal_strlit("approval.requested");
    reveal_strlit("approval.resolved");
    reveal_strlit("worker.state_changed");
    reveal_strlit("verification.recorded");
    reveal_strlit("task.result_recorded");
    let a = payload_kind(p);
    let b = payload_kind(q);
    if a == b {
        assert(a[0] == b[0] && a[1] == b[1] && a[5] == b[5] && a.len() == b.len());
    }
}

/// The JSON form of a domain event holds the payload's tag under `"kind"`:
/// the tag that `kind()` returns.
pub proof fn lemma_event_json_kind(e: DomainEvent)
    ensures
        json_get(event_json(e), "kind"@) == Some(JsonView::Str(payload_kind(e.payload))),
{
    broadcast use lemma_get_push, lemma_get_push_optional, lemma_get_empty;

    reveal_strlit("kind");
    reveal_strlit("eventId");
    reveal_strlit("taskId");
    reveal_strlit("taskRunId");
    reveal_strlit("traceId");
    reveal_strlit("occurredAtMs");
    let c = e.context;
    let ctx = context_members(c);
    let e0 = Seq::<(Seq<char>, JsonView)>::empty();
    assert(ctx =~= e0.push(ctx[0]).push(ctx[1]).push(ctx[2]).push(ctx[3]).push(ctx[4]));
    assert(json_get(JsonView::Object(e0), "kind"@) is None);
    assert("kind"@.len() == 4);
    assert(ctx[0].0 != "kind"@ && ctx[1].0 != "kind"@ && ctx[2].0 != "kind"@ && ctx[3].0 != "kind"@
        && ctx[4].0 != "kind"@) by {
        assert(ctx[0].0.len() == 7);
        assert(ctx[1].0.len() == 6);
        assert(ctx[2].0.len() == 9);
        assert(ctx[3].0.len() == 7);
        assert(ctx[4].0.len() == 12);
    }
    assert(json_get(JsonView::Object(e0.push(ctx[0])), "kind"@) is None);
    assert(json_get(JsonView::Object(e0.push(ctx[0]).push(ctx[1])), "kind"@) is None);
    assert(json_get(JsonView::Object(e0.push(ctx[0]).push(ctx[1]).push(ctx[2])), "kind"@) is None);
    assert(json_get(JsonView::Object(e0.push(ctx[0]).push(ctx[1]).push(ctx[2]).push(ctx[3])), "kind"@) is None);
    assert(json_get(JsonView::Object(ctx), "kind"@) is None);
    let m = ctx.push(("kind"@, JsonView::Str(payload_kind(e.payload))));
    assert(json_get(JsonView::Object(m), "kind"@) == Some(JsonView::Str(payload_kind(e.payload))));
}

} // verus!
