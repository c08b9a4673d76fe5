//! Rows of the durable task store and their mathematical views.

use vstd::prelude::*;

use crate::json::{JsonValue, JsonView};
use crate::vocabulary::{ResultType, TaskLifecycle, ToolAttemptStatus, ToolRiskLevel};

verus! {

/// The text of an optional string.
pub open spec fn opt_text(o: Option<String>) -> Option<Seq<char>> {
    match o {
        Some(s) => Some(s@),
        None => None,
    }
}

/// The view of an optional JSON value.
pub open spec fn opt_json(o: Option<JsonValue>) -> Option<JsonView> {
    match o {
        Some(v) => Some(v.view()),
        None => None,
    }
}

/// A copy of an optional string.
pub fn copy_opt_string(o: &Option<String>) -> (r: Option<String>)
    ensures
        r == *o,
{
    match o {
        Some(s) => Some(s.clone()),
        None => None,
    }
}

/// A copy of an optional JSON value.
pub fn copy_opt_json(o: &Option<JsonValue>) -> (r: Option<JsonValue>)
    ensures
        opt_json(r) == opt_json(*o),
{
    match o {
        Some(v) => Some(v.duplicate()),
        None => None,
    }
}

/// The current projection of a task, as kept in the `tasks` table.
///
/// `last_event_sequence` is the optimistic-concurrency version: the sequence
/// number of the last event appended for the task.
#[derive(Debug, Clone, PartialEq)]
pub struct TaskSnapshot {
    pub task_id: String,
    pub task_run_id: String,
    pub trace_id: String,
    pub lifecycle: TaskLifecycle,
    pub title: Option<String>,
    pub current_step: Option<String>,
    pub checkpoint: Option<JsonValue>,
    pub last_event_sequence: i64,
    pub created_at_ms: i64,
    pub updated_at_ms: i64,
}

/// Mathematical model of a task snapshot.
pub struct SnapshotView {
    pub task_id: Seq<char>,
    pub task_run_id: Seq<char>,
    pub trace_id: Seq<char>,
    pub lifecycle: TaskLifecycle,
    pub title: Option<Seq<char>>,
    pub current_step: Option<Seq<char>>,
    pub checkpoint: Option<JsonView>,
    pub last_event_sequence: i64,
    pub created_at_ms: i64,
    pub updated_at_ms: i64,
}

impl TaskSnapshot {
    pub open spec fn view(&self) -> SnapshotView {
        SnapshotView {
            task_id: self.task_id@,
            task_run_id: self.task_run_id@,
            trace_id: self.trace_id@,
            lifecycle: self.lifecycle,
            title: opt_text(self.title),
            current_step: opt_text(self.current_step),
            checkpoint: opt_json(self.checkpoint),
            last_event_sequence: self.last_event_sequence,
            created_at_ms: self.created_at_ms,
            updated_at_ms: self.updated_at_ms,
        }
    }

    /// A copy of this snapshot.
    pub fn duplicate(&self) -> (r: TaskSnapshot)
        ensures
            r.view() == self.view(),
    {
        TaskSnapshot {
            task_id: self.task_id.clone(),
            task_run_id: self.task_run_id.clone(),
            trace_id: self.trace_id.clone(),
            lifecycle: self.lifecycle,
            title: copy_opt_string(&self.title),
            current_step: copy_opt_string(&self.current_step),
            checkpoint: copy_opt_json(&self.checkpoint),
            last_event_sequence: self.last_event_sequence,
            created_at_ms: self.created_at_ms,
            updated_at_ms: self.updated_at_ms,
        }
    }
}

/// An event to append; its sequence number is assigned by the store.
#[derive(Debug, Clone, PartialEq)]
pub struct NewTaskEvent {
    pub event_id: String,
    pub event_kind: String,
    pub payload: JsonValue,
    pub occurred_at_ms: i64,
}

/// An appended event, with the projection that was committed together with it.
#[derive(Debug, Clone, PartialEq)]
pub struct TaskEvent {
    pub event_id: String,
    pub task_id: String,
    pub sequence: i64,
    pub event_kind: String,
    pub payload: JsonValue,
    pub projection: TaskSnapshot,
    pub occurred_at_ms: i64,
}

/// Mathematical model of an appended event.
pub struct EventView {
    pub event_id: Seq<char>,
    pub task_id: Seq<char>,
    pub sequence: i64,
    pub event_kind: Seq<char>,
    pub payload: JsonView,
    pub projection: SnapshotView,
    pub occurred_at_ms: i64,
}

impl TaskEvent {
    pub open spec fn view(&self) -> EventView {
        EventView {
            event_id: self.event_id@,
            task_id: self.task_id@,
            sequence: self.sequence,
            event_kind: self.event_kind@,
            payload: self.payload.view(),
            projection: self.projection.view(),
            occurred_at_ms: self.occurred_at_ms,
        }
    }

    /// A copy of this event.
    pub fn duplicate(&self) -> (r: TaskEvent)
        ensures
            r.view() == self.view(),
    {
        TaskEvent {
            event_id: self.event_id.clone(),
            task_id: self.task_id.clone(),
            sequence: self.sequence,
            event_kind: self.event_kind.clone(),
            payload: self.payload.duplicate(),
            projection: self.projection.duplicate(),
            occurred_at_ms: self.occurred_at_ms,
        }
    }
}

/// A saved agent session checkpoint.
#[derive(Debug, Clone, PartialEq)]
pub struct AgentSessionCheckpoint {
    pub session_id: String,
    pub task_id: Option<String>,
    pub runtime_kind: String,
    pub runtime_session_ref: Option<String>,
    pub checkpoint: Option<JsonValue>,
    pub checkpoint_sequence: i64,
    pub created_at_ms: i64,
    pub updated_at_ms: i64,
}

/// Mathematical model of an agent session checkpoint.
pub struct CheckpointView {
    pub session_id: Seq<char>,
    pub task_id: Option<Seq<char>>,
    pub runtime_kind: Seq<char>,
    pub runtime_session_ref: Option<Seq<char>>,
    pub checkpoint: Option<JsonView>,
    pub checkpoint_sequence: i64,
    pub created_at_ms: i64,
    pub updated_at_ms: i64,
}

impl AgentSessionCheckpoint {
    pub open spec fn view(&self) -> CheckpointView {
        CheckpointView {
            session_id: self.session_id@,
            task_id: opt_text(self.task_id),
            runtime_kind: self.runtime_kind@,
            runtime_session_ref: opt_text(self.runtime_session_ref),
            checkpoint: opt_json(self.checkpoint),
            checkpoint_sequence: self.checkpoint_sequence,
            created_at_ms: self.created_at_ms,
            updated_at_ms: self.updated_at_ms,
        }
    }

    /// A copy of this checkpoint.
    pub fn duplicate(&self) -> (r: AgentSessionCheckpoint)
        ensures
            r.view() == self.view(),
    {
        AgentSessionCheckpoint {
            session_id: self.session_id.clone(),
            task_id: copy_opt_string(&self.task_id),
            runtime_kind: self.runtime_kind.clone(),
            runtime_session_ref: copy_opt_string(&self.runtime_session_ref),
            checkpoint: copy_opt_json(&self.checkpoint),
            checkpoint_sequence: self.checkpoint_sequence,
            created_at_ms: self.created_at_ms,
            updated_at_ms: self.updated_at_ms,
        }
    }
}

/// One recorded attempt to run a tool.
#[derive(Debug, Clone, PartialEq)]
pub struct ToolAttempt {
    pub attempt_id: String,
    pub task_id: String,
    pub tool_name: String,
    pub idempotency_key: String,
    pub attempt_number: i64,
    pub status: ToolAttemptStatus,
    pub risk_level: ToolRiskLevel,
    pub input_digest: String,
    pub target: Option<JsonValue>,
    pub policy: Option<JsonValue>,
    pub result_type: Option<ResultType>,
    pub receipt: Option<JsonValue>,
    pub verification: Option<JsonValue>,
    pub started_at_ms: i64,
    pub finished_at_ms: Option<i64>,
}

/// Mathematical model of a tool attempt.
pub struct AttemptView {
    pub attempt_id: Seq<char>,
    pub task_id: Seq<char>,
    pub tool_name: Seq<char>,
    pub idempotency_key: Seq<char>,
    pub attempt_number: i64,
    pub status: ToolAttemptStatus,
    pub risk_level: ToolRiskLevel,
    pub input_digest: Seq<char>,
    pub target: Option<JsonView>,
    pub policy: Option<JsonView>,
    pub result_type: Option<ResultType>,
    pub receipt: Option<JsonView>,
    pub verification: Option<JsonView>,
    pub started_at_ms: i64,
    pub finished_at_ms: Option<i64>,
}

impl ToolAttempt {
    pub open spec fn view(&self) -> AttemptView {
        AttemptView {
            attempt_id: self.attempt_id@,
            task_id: self.task_id@,
            tool_name: self.tool_name@,
            idempotency_key: self.idempotency_key@,
            attempt_number: self.attempt_number,
            status: self.status,
            risk_level: self.risk_level,
            input_digest: self.input_digest@,
            target: opt_json(self.target),
            policy: opt_json(self.policy),
            result_type: self.result_type,
            receipt: opt_json(self.receipt),
            verification: opt_json(self.verification),
            started_at_ms: self.started_at_ms,
            finished_at_ms: self.finished_at_ms,
        }
    }

    /// A copy of this attempt.
    pub fn duplicate(&self) -> (r: ToolAttempt)
        ensures
            r.view() == self.view(),
    {
        ToolAttempt {
            attempt_id: self.attempt_id.clone(),
            task_id: self.task_id.clone(),
            tool_name: self.tool_name.clone(),
            idempotency_key: self.idempotency_key.clone(),
            attempt_number: self.attempt_number,
            status: self.status,
            risk_level: self.risk_level,
            input_digest: self.input_digest.clone(),
            target: copy_opt_json(&self.target),
            policy: copy_opt_json(&self.policy),
            result_type: self.result_type,
            receipt: copy_opt_json(&self.receipt),
            verification: copy_opt_json(&self.verification),
            started_at_ms: self.started_at_ms,
            finished_at_ms: self.finished_at_ms,
        }
    }
}

/// What a restarted worker may do about a tool call with a given idempotency key.
#[derive(Debug, Clone, PartialEq)]
pub enum ToolReplayDecision {
    /// No attempt blocks a new call.
    Execute,
    /// A succeeded attempt exists; its recorded result is reused.
    ReuseCompleted(ToolAttempt),
    /// The latest attempt has no definite end; it must be reconciled first.
    ReconcileIncomplete(ToolAttempt),
}

impl ToolAttemptStatus {
    /// The status with the given stored name, if any.
    pub fn parse(value: String) -> (r: Option<ToolAttemptStatus>)
        ensures
            r == crate::vocabulary::tool_attempt_status_from_name(value@),
    {
        ToolAttemptStatus::from_name(value.as_str())
    }
}

} // verus!
