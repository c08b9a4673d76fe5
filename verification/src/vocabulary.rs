//! Identifiers and closed vocabularies shared by the host, the worker and the UI.
//!
//! Every enum here has a fixed wire name (snake_case) used in JSON payloads and
//! in the durable store; `as_str` gives it and `from_name` is its exact inverse.

use vstd::prelude::*;

verus! {

/// Identifier of a task (`task_...`).
#[derive(Debug, Clone, PartialEq, Eq)]
pub struct TaskId(pub String);

/// Identifier of one run of a task.
#[derive(Debug, Clone, PartialEq, Eq)]
pub struct TaskRunId(pub String);

/// End-to-end trace identifier.
#[derive(Debug, Clone, PartialEq, Eq)]
pub struct TraceId(pub String);

/// Identifier of one request/response exchange (`req_...`).
#[derive(Debug, Clone, PartialEq, Eq)]
pub struct RequestId(pub String);

/// Lifecycle of a task run.
#[derive(Debug, Clone, Copy, PartialEq, Eq, Structural)]
pub enum TaskLifecycle {
    Created,
    Listening,
    Understanding,
    Running,
    Paused,
    WaitingConfirmation,
    Verifying,
    Completed,
    Failed,
    Unknown,
    Reconciling,
    NeedsUser,
    Cancelled,
}

/// State of the voice channel; independent from the task lifecycle.
#[derive(Debug, Clone, Copy, PartialEq, Eq, Structural)]
pub enum VoiceState {
    Idle,
    Listening,
    Transcribing,
    Speaking,
}

/// Risk class of a tool; decides whether a confirmation is needed.
#[derive(Debug, Clone, Copy, PartialEq, Eq, Structural)]
pub enum ToolRiskLevel {
    Read,
    LocalWrite,
    ExternalSideEffect,
}

/// Outcome class of a tool call or of a task.
#[derive(Debug, Clone, Copy, PartialEq, Eq, Structural)]
pub enum ResultType {
    Success,
    Failure,
    Unknown,
    Cancelled,
    NeedsUser,
}

/// Status of one tool attempt.
#[derive(Debug, Clone, Copy, PartialEq, Eq, Structural)]
pub enum ToolAttemptStatus {
    Started,
    Succeeded,
    Failed,
    Unknown,
    Cancelled,
    NeedsUser,
}

/// Decision of the risk policy for one tool attempt.
#[derive(Debug, Clone, Copy, PartialEq, Eq, Structural)]
pub enum PolicyDecision {
    Auto,
    RequiresConfirmation,
    Approved,
    Denied,
}

/// Status of a verification record.
#[derive(Debug, Clone, Copy, PartialEq, Eq, Structural)]
pub enum VerificationStatus {
    Passed,
    Failed,
    Inconclusive,
}

/// State of the agent worker process as seen by the host.
#[derive(Debug, Clone, Copy, PartialEq, Eq, Structural)]
pub enum WorkerState {
    Starting,
    Ready,
    Restarting,
    Stopped,
    Failed,
}

/// The wire name of a `TaskLifecycle`.
pub open spec fn task_lifecycle_name(v: TaskLifecycle) -> Seq<char> {
    match v {
        TaskLifecycle::Created => "created"@,
        TaskLifecycle::Listening => "listening"@,
        TaskLifecycle::Understanding => "understanding"@,
        TaskLifecycle::Running => "running"@,
        TaskLifecycle::Paused => "paused"@,
        TaskLifecycle::WaitingConfirmation => "waiting_confirmation"@,
        TaskLifecycle::Verifying => "verifying"@,
        TaskLifecycle::Completed => "completed"@,
        TaskLifecycle::Failed => "failed"@,
        TaskLifecycle::Unknown => "unknown"@,
        TaskLifecycle::Reconciling => "reconciling"@,
        TaskLifecycle::NeedsUser => "needs_user"@,
        TaskLifecycle::Cancelled => "cancelled"@,
    }
}

/// The `TaskLifecycle` a wire name denotes, if any.
pub open spec fn task_lifecycle_from_name(name: Seq<char>) -> Option<TaskLifecycle> {
    if name == "created"@ {
        Some(TaskLifecycle::Created)
    } else if name == "listening"@ {
        Some(TaskLifecycle::Listening)
    } else if name == "understanding"@ {
        Some(TaskLifecycle::Understanding)
    } else if name == "running"@ {
        Some(TaskLifecycle::Running)
    } else if name == "paused"@ {
        Some(TaskLifecycle::Paused)
    } else if name == "waiting_confirmation"@ {
        Some(TaskLifecycle::WaitingConfirmation)
    } else if name == "verifying"@ {
        Some(TaskLifecycle::Verifying)
    } else if name == "completed"@ {
        Some(TaskLifecycle::Completed)
    } else if name == "failed"@ {
        Some(TaskLifecycle::Failed)
    } else if name == "unknown"@ {
        Some(TaskLifecycle::Unknown)
    } else if name == "reconciling"@ {
        Some(TaskLifecycle::Reconciling)
    } else if name == "needs_user"@ {
        Some(TaskLifecycle::NeedsUser)
    } else if name == "cancelled"@ {
        Some(TaskLifecycle::Cancelled)
    } else {
        None
    }
}

impl TaskLifecycle {
    /// The wire name of this value.
    pub fn as_str(self) -> (r: &'static str)
        ensures
            r@ == task_lifecycle_name(self),
    {
        match self {
            TaskLifecycle::Created => "created",
            TaskLifecycle::Listening => "listening",
            TaskLifecycle::Understanding => "understanding",
            TaskLifecycle::Running => "running",
            TaskLifecycle::Paused => "paused",
            TaskLifecycle::WaitingConfirmation => "waiting_confirmation",
            TaskLifecycle::Verifying => "verifying",
            TaskLifecycle::Completed => "completed",
            TaskLifecycle::Failed => "failed",
            TaskLifecycle::Unknown => "unknown",
            TaskLifecycle::Reconciling => "reconciling",
            TaskLifecycle::NeedsUser => "needs_user",
            TaskLifecycle::Cancelled => "cancelled",
        }
    }

    /// The value with the given wire name, if any.
    pub fn from_name(name: &str) -> (r: Option<TaskLifecycle>)
        ensures
            r == task_lifecycle_from_name(name@),
    {
        let name = String::from_str(name);
        if name == String::from_str("created") {
            Some(TaskLifecycle::Created)
        } else if name == String::from_str("listening") {
            Some(TaskLifecycle::Listening)
        } else if name == String::from_str("understanding") {
            Some(TaskLifecycle::Understanding)
        } else if name == String::from_str("running") {
            Some(TaskLifecycle::Running)
        } else if name == String::from_str("paused") {
            Some(TaskLifecycle::Paused)
        } else if name == String::from_str("waiting_confirmation") {
            Some(TaskLifecycle::WaitingConfirmation)
        } else if name == String::from_str("verifying") {
            Some(TaskLifecycle::Verifying)
        } else if name == String::from_str("completed") {
            Some(TaskLifecycle::Completed)
        } else if name == String::from_str("failed") {
            Some(TaskLifecycle::Failed)
        } else if name == String::from_str("unknown") {
            Some(TaskLifecycle::Unknown)
        } else if name == String::from_str("reconciling") {
            Some(TaskLifecycle::Reconciling)
        } else if name == String::from_str("needs_user") {
            Some(TaskLifecycle::NeedsUser)
        } else if name == String::from_str("cancelled") {
            Some(TaskLifecycle::Cancelled)
        } else {
            None
        }
    }
}

/// Every `TaskLifecycle` reads back from its wire name.
pub proof fn lemma_task_lifecycle_name_round_trip(v: TaskLifecycle)
    ensures
        task_lifecycle_from_name(task_lifecycle_name(v)) == Some(v),
{
    reveal_strlit("created");
    reveal_strlit("listening");
    reveal_strlit("understanding");
    reveal_strlit("running");
    reveal_strlit("paused");
    reveal_strlit("waiting_confirmation");
    reveal_strlit("verifying");
    reveal_strlit("completed");
    reveal_strlit("failed");
    reveal_strlit("unknown");
    reveal_strlit("reconciling");
    reveal_strlit("needs_user");
    reveal_strlit("cancelled");
    assert("listening"@.len() != "created"@.len());
    assert("understanding"@.len() != "created"@.len());
    assert("understanding"@.len() != "listening"@.len());
    assert("running"@[0] != "created"@[0]);
    assert("running"@.len() != "listening"@.len());
    assert("running"@.len() != "understanding"@.len());
    assert("paused"@.len() != "created"@.len());
    assert("paused"@.len() != "listening"@.len());
    assert("paused"@.len() != "understanding"@.len());
    assert("paused"@.len() != "running"@.len());
    assert("waiting_confirmation"@.len() != "created"@.len());
    assert("waiting_confirmation"@.len() != "listening"@.len());
    assert("waiting_confirmation"@.len() != "understanding"@.len());
    assert("waiting_confirmation"@.len() != "running"@.len());
    assert("waiting_confirmation"@.len() != "paused"@.len());
    assert("verifying"@.len() != "created"@.len());
    assert("verifying"@[0] != "listening"@[0]);
    assert("verifying"@.len() != "understanding"@.len());
    assert("verifying"@.len() != "running"@.len());
    assert("verifying"@.len() != "paused"@.len());
    assert("verifying"@.len() != "waiting_confirmation"@.len());
    assert("completed"@.len() != "created"@.len());
    assert("completed"@[0] != "listening"@[0]);
    assert("completed"@.len() != "understanding"@.len());
    assert("completed"@.len() != "running"@.len());
    assert("completed"@.len() != "paused"@.len());
    assert("completed"@.len() != "waiting_confirmation"@.len());
    assert("completed"@[0] != "verifying"@[0]);
    assert("failed"@.len() != "created"@.len());
    assert("failed"@.len() != "listening"@.len());
    assert("failed"@.len() != "understanding"@.len());
    assert("failed"@.len() != "running"@.len());
    assert("failed"@[0] != "paused"@[0]);
    assert("failed"@.len() != "waiting_confirmation"@.len());
    assert("failed"@.len() != "verifying"@.len());
    assert("failed"@.len() != "completed"@.len());
    assert("unknown"@[0] != "created"@[0]);
    assert("unknown"@.len() != "listening"@.len());
    assert("unknown"@.len() != "understanding"@.len());
    assert("unknown"@[0] != "running"@[0]);
    assert("unknown"@.len() != "paused"@.len());
    assert("unknown"@.len() != "waiting_confirmation"@.len());
    assert("unknown"@.len() != "verifying"@.len());
    assert("unknown"@.len() != "completed"@.len());
    assert("unknown"@.len() != "failed"@.len());
    assert("reconciling"@.len() != "created"@.len());
    assert("reconciling"@.len() != "listening"@.len());
    assert("reconciling"@.len() != "understanding"@.len());
    assert("reconciling"@.len() != "running"@.len());
    assert("reconciling"@.len() != "paused"@.len());
    assert("reconciling"@.len() != "waiting_confirmation"@.len());
    assert("reconciling"@.len() != "verifying"@.len());
    assert("reconciling"@.len() != "completed"@.len());
    assert("reconciling"@.len() != "failed"@.len());
    assert("reconciling"@.len() != "unknown"@.len());
    assert("needs_user"@.len() != "created"@.len());
    assert("needs_user"@.len() != "listening"@.len());
    assert("needs_user"@.len() != "understanding"@.len());
    assert("needs_user"@.len() != "running"@.len());
    assert("needs_user"@.len() != "paused"@.len());
    assert("needs_user"@.len() != "waiting_confirmation"@.len());
    assert("needs_user"@.len() != "verifying"@.len());
    assert("needs_user"@.len() != "completed"@.len());
    assert("needs_user"@.len() != "failed"@.len());
    assert("needs_user"@.len() != "unknown"@.len());
    assert("needs_user"@.len() != "reconciling"@.len());
    assert("cancelled"@.len() != "created"@.len());
    assert("cancelled"@[0] != "listening"@[0]);
    assert("cancelled"@.len() != "understanding"@.len());
    assert("cancelled"@.len() != "running"@.len());
    assert("cancelled"@.len() != "paused"@.len());
    assert("cancelled"@.len() != "waiting_confirmation"@.len());
    assert("cancelled"@[0] != "verifying"@[0]);
    assert("cancelled"@[1] != "completed"@[1]);
    assert("cancelled"@.len() != "failed"@.len());
    assert("cancelled"@.len() != "unknown"@.len());
    assert("cancelled"@.len() != "reconciling"@.len());
    assert("cancelled"@.len() != "needs_user"@.len());
}

/// The wire name of a `VoiceState`.
pub open spec fn voice_state_name(v: VoiceState) -> Seq<char> {
    match v {
        VoiceState::Idle => "idle"@,
        VoiceState::Listening => "listening"@,
        VoiceState::Transcribing => "transcribing"@,
        VoiceState::Speaking => "speaking"@,
    }
}

/// The `VoiceState` a wire name denotes, if any.
pub open spec fn voice_state_from_name(name: Seq<char>) -> Option<VoiceState> {
    if name == "idle"@ {
        Some(VoiceState::Idle)
    } else if name == "listening"@ {
        Some(VoiceState::Listening)
    } else if name == "transcribing"@ {
        Some(VoiceState::Transcribing)
    } else if name == "speaking"@ {
        Some(VoiceState::Speaking)
    } else {
        None
    }
}

impl VoiceState {
    /// The wire name of this value.
    pub fn as_str(self) -> (r: &'static str)
        ensures
            r@ == voice_state_name(self),
    {
        match self {
            VoiceState::Idle => "idle",
            VoiceState::Listening => "listening",
            VoiceState::Transcribing => "transcribing",
            VoiceState::Speaking => "speaking",
        }
    }

    /// The value with the given wire name, if any.
    pub fn from_name(name: &str) -> (r: Option<VoiceState>)
        ensures
            r == voice_state_from_name(name@),
    {
        let name = String::from_str(name);
        if name == String::from_str("idle") {
            Some(VoiceState::Idle)
        } else if name == String::from_str("listening") {
            Some(VoiceState::Listening)
        } else if name == String::from_str("transcribing") {
            Some(VoiceState::Transcribing)
        } else if name == String::from_str("speaking") {
            Some(VoiceState::Speaking)
        } else {
            None
        }
    }
}

/// Every `VoiceState` reads back from its wire name.
pub proof fn lemma_voice_state_name_round_trip(v: VoiceState)
    ensures
        voice_state_from_name(voice_state_name(v)) == Some(v),
{
    reveal_strlit("idle");
    reveal_strlit("listening");
    reveal_strlit("transcribing");
    reveal_strlit("speaking");
    assert("listening"@.len() != "idle"@.len());
    assert("transcribing"@.len() != "idle"@.len());
    assert("transcribing"@.len() != "listening"@.len());
    assert("speaking"@.len() != "idle"@.len());
    assert("speaking"@.len() != "listening"@.len());
    assert("speaking"@.len() != "transcribing"@.len());
}

/// The wire name of a `ToolRiskLevel`.
pub open spec fn tool_risk_level_name(v: ToolRiskLevel) -> Seq<char> {
    match v {
        ToolRiskLevel::Read => "read"@,
        ToolRiskLevel::LocalWrite => "local_write"@,
        ToolRiskLevel::ExternalSideEffect => "external_side_effect"@,
    }
}

/// The `ToolRiskLevel` a wire name denotes, if any.
pub open spec fn tool_risk_level_from_name(name: Seq<char>) -> Option<ToolRiskLevel> {
    if name == "read"@ {
        Some(ToolRiskLevel::Read)
    } else if name == "local_write"@ {
        Some(ToolRiskLevel::LocalWrite)
    } else if name == "external_side_effect"@ {
        Some(ToolRiskLevel::ExternalSideEffect)
    } else {
        None
    }
}

impl ToolRiskLevel {
    /// The wire name of this value.
    pub fn as_str(self) -> (r: &'static str)
        ensures
            r@ == tool_risk_level_name(self),
    {
        match self {
            ToolRiskLevel::Read => "read",
            ToolRiskLevel::LocalWrite => "local_write",
            ToolRiskLevel::ExternalSideEffect => "external_side_effect",
        }
    }

    /// The value with the given wire name, if any.
    pub fn from_name(name: &str) -> (r: Option<ToolRiskLevel>)
        ensures
            r == tool_risk_level_from_name(name@),
    {
        let name = String::from_str(name);
        if name == String::from_str("read") {
            Some(ToolRiskLevel::Read)
        } else if name == String::from_str("local_write") {
            Some(ToolRiskLevel::LocalWrite)
        } else if name == String::from_str("external_side_effect") {
            Some(ToolRiskLevel::ExternalSideEffect)
        } else {
            None
        }
    }
}

/// Every `ToolRiskLevel` reads back from its wire name.
pub proof fn lemma_tool_risk_level_name_round_trip(v: ToolRiskLevel)
    ensures
        tool_risk_level_from_name(tool_risk_level_name(v)) == Some(v),
{
    reveal_strlit("read");
    reveal_strlit("local_write");
    reveal_strlit("external_side_effect");
    assert("local_write"@.len() != "read"@.len());
    assert("external_side_effect"@.len() != "read"@.len());
    assert("external_side_effect"@.len() != "local_write"@.len());
}

/// The wire name of a `ResultType`.
pub open spec fn result_type_name(v: ResultType) -> Seq<char> {
    match v {
        ResultType::Success => "success"@,
        ResultType::Failure => "failure"@,
        ResultType::Unknown => "unknown"@,
        ResultType::Cancelled => "cancelled"@,
        ResultType::NeedsUser => "needs_user"@,
    }
}

/// The `ResultType` a wire name denotes, if any.
pub open spec fn result_type_from_name(name: Seq<char>) -> Option<ResultType> {
    if name == "success"@ {
        Some(ResultType::Success)
    } else if name == "failure"@ {
        Some(ResultType::Failure)
    } else if name == "unknown"@ {
        Some(ResultType::Unknown)
    } else if name == "cancelled"@ {
        Some(ResultType::Cancelled)
    } else if name == "needs_user"@ {
        Some(ResultType::NeedsUser)
    } else {
        None
    }
}

impl ResultType {
    /// The wire name of this value.
    pub fn as_str(self) -> (r: &'static str)
        ensures
            r@ == result_type_name(self),
    {
        match self {
            ResultType::Success => "success",
            ResultType::Failure => "failure",
            ResultType::Unknown => "unknown",
            ResultType::Cancelled => "cancelled",
            ResultType::NeedsUser => "needs_user",
        }
    }

    /// The value with the given wire name, if any.
    pub fn from_name(name: &str) -> (r: Option<ResultType>)
        ensures
            r == result_type_from_name(name@),
    {
        let name = String::from_str(name);
        if name == String::from_str("success") {
            Some(ResultType::Success)
        } else if name == String::from_str("failure") {
            Some(ResultType::Failure)
        } else if name == String::from_str("unknown") {
            Some(ResultType::Unknown)
        } else if name == String::from_str("cancelled") {
            Some(ResultType::Cancelled)
        } else if name == String::from_str("needs_user") {
            Some(ResultType::NeedsUser)
        } else {
            None
        }
    }
}

/// Every `ResultType` reads back from its wire name.
pub proof fn lemma_result_type_name_round_trip(v: ResultType)
    ensures
        result_type_from_name(result_type_name(v)) == Some(v),
{
    reveal_strlit("success");
    reveal_strlit("failure");
    reveal_strlit("unknown");
    reveal_strlit("cancelled");
    reveal_strlit("needs_user");
    assert("failure"@[0] != "success"@[0]);
    assert("unknown"@[0] != "success"@[0]);
    assert("unknown"@[0] != "failure"@[0]);
    assert("cancelled"@.len() != "success"@.len());
    assert("cancelled"@.len() != "failure"@.len());
    assert("cancelled"@.len() != "unknown"@.len());
    assert("needs_user"@.len() != "success"@.len());
    assert("needs_user"@.len() != "failure"@.len());
    assert("needs_user"@.len() != "unknown"@.len());
    assert("needs_user"@.len() != "cancelled"@.len());
}

/// The wire name of a `ToolAttemptStatus`.
pub open spec fn tool_attempt_status_name(v: ToolAttemptStatus) -> Seq<char> {
    match v {
        ToolAttemptStatus::Started => "started"@,
        ToolAttemptStatus::Succeeded => "succeeded"@,
        ToolAttemptStatus::Failed => "failed"@,
        ToolAttemptStatus::Unknown => "unknown"@,
        ToolAttemptStatus::Cancelled => "cancelled"@,
        ToolAttemptStatus::NeedsUser => "needs_user"@,
    }
}

/// The `ToolAttemptStatus` a wire name denotes, if any.
pub open spec fn tool_attempt_status_from_name(name: Seq<char>) -> Option<ToolAttemptStatus> {
    if name == "started"@ {
        Some(ToolAttemptStatus::Started)
    } else if name == "succeeded"@ {
        Some(ToolAttemptStatus::Succeeded)
    } else if name == "failed"@ {
        Some(ToolAttemptStatus::Failed)
    } else if name == "unknown"@ {
        Some(ToolAttemptStatus::Unknown)
    } else if name == "cancelled"@ {
        Some(ToolAttemptStatus::Cancelled)
    } else if name == "needs_user"@ {
        Some(ToolAttemptStatus::NeedsUser)
    } else {
        None
    }
}

impl ToolAttemptStatus {
    /// The wire name of this value.
    pub fn as_str(self) -> (r: &'static str)
        ensures
            r@ == tool_attempt_status_name(self),
    {
        match self {
            ToolAttemptStatus::Started => "started",
            ToolAttemptStatus::Succeeded => "succeeded",
            ToolAttemptStatus::Failed => "failed",
            ToolAttemptStatus::Unknown => "unknown",
            ToolAttemptStatus::Cancelled => "cancelled",
            ToolAttemptStatus::NeedsUser => "needs_user",
        }
    }

    /// The value with the given wire name, if any.
    pub fn from_name(name: &str) -> (r: Option<ToolAttemptStatus>)
        ensures
            r == tool_attempt_status_from_name(name@),
    {
        let name = String::from_str(name);
        if name == String::from_str("started") {
            Some(ToolAttemptStatus::Started)
        } else if name == String::from_str("succeeded") {
            Some(ToolAttemptStatus::Succeeded)
        } else if name == String::from_str("failed") {
            Some(ToolAttemptStatus::Failed)
        } else if name == String::from_str("unknown") {
            Some(ToolAttemptStatus::Unknown)
        } else if name == String::from_str("cancelled") {
            Some(ToolAttemptStatus::Cancelled)
        } else if name == String::from_str("needs_user") {
            Some(ToolAttemptStatus::NeedsUser)
        } else {
            None
        }
    }
}

/// Every `ToolAttemptStatus` reads back from its wire name.
pub proof fn lemma_tool_attempt_status_name_round_trip(v: ToolAttemptStatus)
    ensures
        tool_attempt_status_from_name(tool_attempt_status_name(v)) == Some(v),
{
    reveal_strlit("started");
    reveal_strlit("succeeded");
    reveal_strlit("failed");
    reveal_strlit("unknown");
    reveal_strlit("cancelled");
    reveal_strlit("needs_user");
    assert("succeeded"@.len() != "started"@.len());
    assert("failed"@.len() != "started"@.len());
    assert("failed"@.len() != "succeeded"@.len());
    assert("unknown"@[0] != "started"@[0]);
    assert("unknown"@.len() != "succeeded"@.len());
    assert("unknown"@.len() != "failed"@.len());
    assert("cancelled"@.len() != "started"@.len());
    assert("cancelled"@[0] != "succeeded"@[0]);
    assert("cancelled"@.len() != "failed"@.len());
    assert("cancelled"@.len() != "unknown"@.len());
    assert("needs_user"@.len() != "started"@.len());
    assert("needs_user"@.len() != "succeeded"@.len());
    assert("needs_user"@.len() != "failed"@.len());
    assert("needs_user"@.len() != "unknown"@.len());
    assert("needs_user"@.len() != "cancelled"@.len());
}

/// The wire name of a `PolicyDecision`.
pub open spec fn policy_decision_name(v: PolicyDecision) -> Seq<char> {
    match v {
        PolicyDecision::Auto => "auto"@,
        PolicyDecision::RequiresConfirmation => "requires_confirmation"@,
        PolicyDecision::Approved => "approved"@,
        PolicyDecision::Denied => "denied"@,
    }
}

/// The `PolicyDecision` a wire name denotes, if any.
pub open spec fn policy_decision_from_name(name: Seq<char>) -> Option<PolicyDecision> {
    if name == "auto"@ {
        Some(PolicyDecision::Auto)
    } else if name == "requires_confirmation"@ {
        Some(PolicyDecision::RequiresConfirmation)
    } else if name == "approved"@ {
        Some(PolicyDecision::Approved)
    } else if name == "denied"@ {
        Some(PolicyDecision::Denied)
    } else {
        None
    }
}

impl PolicyDecision {
    /// The wire name of this value.
    pub fn as_str(self) -> (r: &'static str)
        ensures
            r@ == policy_decision_name(self),
    {
        match self {
            PolicyDecision::Auto => "auto",
            PolicyDecision::RequiresConfirmation => "requires_confirmation",
            PolicyDecision::Approved => "approved",
            PolicyDecision::Denied => "denied",
        }
    }

    /// The value with the given wire name, if any.
    pub fn from_name(name: &str) -> (r: Option<PolicyDecision>)
        ensures
            r == policy_decision_from_name(name@),
    {
        let name = String::from_str(name);
        if name == String::from_str("auto") {
            Some(PolicyDecision::Auto)
        } else if name == String::from_str("requires_confirmation") {
            Some(PolicyDecision::RequiresConfirmation)
        } else if name == String::from_str("approved") {
            Some(PolicyDecision::Approved)
        } else if name == String::from_str("denied") {
            Some(PolicyDecision::Denied)
        } else {
            None
        }
    }
}

/// Every `PolicyDecision` reads back from its wire name.
pub proof fn lemma_policy_decision_name_round_trip(v: PolicyDecision)
    ensures
        policy_decision_from_name(policy_decision_name(v)) == Some(v),
{
    reveal_strlit("auto");
    reveal_strlit("requires_confirmation");
    reveal_strlit("approved");
    reveal_strlit("denied");
    assert("requires_confirmation"@.len() != "auto"@.len());
    assert("approved"@.len() != "auto"@.len());
    assert("approved"@.len() != "requires_confirmation"@.len());
    assert("denied"@.len() != "auto"@.len());
    assert("denied"@.len() != "requires_confirmation"@.len());
    assert("denied"@.len() != "approved"@.len());
}

/// The wire name of a `VerificationStatus`.
pub open spec fn verification_status_name(v: VerificationStatus) -> Seq<char> {
    match v {
        VerificationStatus::Passed => "passed"@,
        VerificationStatus::Failed => "failed"@,
        VerificationStatus::Inconclusive => "inconclusive"@,
    }
}

/// The `VerificationStatus` a wire name denotes, if any.
pub open spec fn verification_status_from_name(name: Seq<char>) -> Option<VerificationStatus> {
    if name == "passed"@ {
        Some(VerificationStatus::Passed)
    } else if name == "failed"@ {
        Some(VerificationStatus::Failed)
    } else if name == "inconclusive"@ {
        Some(VerificationStatus::Inconclusive)
    } else {
        None
    }
}

impl VerificationStatus {
    /// The wire name of this value.
    pub fn as_str(self) -> (r: &'static str)
        ensures
            r@ == verification_status_name(self),
    {
        match self {
            VerificationStatus::Passed => "passed",
            VerificationStatus::Failed => "failed",
            VerificationStatus::Inconclusive => "inconclusive",
        }
    }

    /// The value with the given wire name, if any.
    pub fn from_name(name: &str) -> (r: Option<VerificationStatus>)
        ensures
            r == verification_status_from_name(name@),
    {
        let name = String::from_str(name);
        if name == String::from_str("passed") {
            Some(VerificationStatus::Passed)
        } else if name == String::from_str("failed") {
            Some(VerificationStatus::Failed)
        } else if name == String::from_str("inconclusive") {
            Some(VerificationStatus::Inconclusive)
        } else {
            None
        }
    }
}

/// Every `VerificationStatus` reads back from its wire name.
pub proof fn lemma_verification_status_name_round_trip(v: VerificationStatus)
    ensures
        verification_status_from_name(verification_status_name(v)) == Some(v),
{
    reveal_strlit("passed");
    reveal_strlit("failed");
    reveal_strlit("inconclusive");
    assert("failed"@[0] != "passed"@[0]);
    assert("inconclusive"@.len() != "passed"@.len());
    assert("inconclusive"@.len() != "failed"@.len());
}

/// The wire name of a `WorkerState`.
pub open spec fn worker_state_name(v: WorkerState) -> Seq<char> {
    match v {
        WorkerState::Starting => "starting"@,
        WorkerState::Ready => "ready"@,
        WorkerState::Restarting => "restarting"@,
        WorkerState::Stopped => "stopped"@,
        WorkerState::Failed => "failed"@,
    }
}

/// The `WorkerState` a wire name denotes, if any.
pub open spec fn worker_state_from_name(name: Seq<char>) -> Option<WorkerState> {
    if name == "starting"@ {
        Some(WorkerState::Starting)
    } else if name == "ready"@ {
        Some(WorkerState::Ready)
    } else if name == "restarting"@ {
        Some(WorkerState::Restarting)
    } else if name == "stopped"@ {
        Some(WorkerState::Stopped)
    } else if name == "failed"@ {
        Some(WorkerState::Failed)
    } else {
        None
    }
}

impl WorkerState {
    /// The wire name of this value.
    pub fn as_str(self) -> (r: &'static str)
        ensures
            r@ == worker_state_name(self),
    {
        match self {
            WorkerState::Starting => "starting",
            WorkerState::Ready => "ready",
            WorkerState::Restarting => "restarting",
            WorkerState::Stopped => "stopped",
            WorkerState::Failed => "failed",
        }
    }

    /// The value with the given wire name, if any.
    pub fn from_name(name: &str) -> (r: Option<WorkerState>)
        ensures
            r == worker_state_from_name(name@),
    {
        let name = String::from_str(name);
        if name == String::from_str("starting") {
            Some(WorkerState::Starting)
        } else if name == String::from_str("ready") {
            Some(WorkerState::Ready)
        } else if name == String::from_str("restarting") {
            Some(WorkerState::Restarting)
        } else if name == String::from_str("stopped") {
            Some(WorkerState::Stopped)
        } else if name == String::from_str("failed") {
            Some(WorkerState::Failed)
        } else {
            None
        }
    }
}

/// Every `WorkerState` reads back from its wire name.
pub proof fn lemma_worker_state_name_round_trip(v: WorkerState)
    ensures
        worker_state_from_name(worker_state_name(v)) == Some(v),
{
    reveal_strlit("starting");
    reveal_strlit("ready");
    reveal_strlit("restarting");
    reveal_strlit("stopped");
    reveal_strlit("failed");
    assert("ready"@.len() != "starting"@.len());
    assert("restarting"@.len() != "starting"@.len());
    assert("restarting"@.len() != "ready"@.len());
    assert("stopped"@.len() != "starting"@.len());
    assert("stopped"@.len() != "ready"@.len());
    assert("stopped"@.len() != "restarting"@.len());
    assert("failed"@.len() != "starting"@.len());
    assert("failed"@.len() != "ready"@.len());
    assert("failed"@.len() != "restarting"@.len());
    assert("failed"@.len() != "stopped"@.len());
}

} // verus!
