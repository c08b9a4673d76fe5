//! Semi-OS host core: the task lifecycle, the durable task store, tool
//! receipts, the host/worker protocol checks and the worker supervision rules.
//!
//! Everything here is plain data and decisions. Process spawning, files,
//! SQLite, clocks and the desktop shell live outside this crate: they hand
//! their observations to the functions below and carry out what comes back.

pub mod diagnostics;
pub mod domain;
pub mod envelope;
pub mod host_lifecycle;
pub mod json;
pub mod lifecycle_rules;
pub mod receipt;
pub mod receipt_decode;
pub mod store;
pub mod store_models;
pub mod supervisor;
pub mod task;
pub mod text;
pub mod tool_execution;
pub mod vocabulary;

pub use diagnostics::{DiagnosticRecord, DiagnosticStore};
pub use domain::{
    DomainEvent, DomainEventContext, DomainEventPayload, EvidenceReference, VerificationRecord,
};
pub use envelope::{
    validate_envelope, Envelope, EnvelopeContext, ErrorPayload, ProtocolValidationError,
    PROTOCOL_VERSION,
};
pub use host_lifecycle::{HostLifecycle, HostLifecycleSnapshot, HostPhase};
pub use json::{JsonNumber, JsonValue};
pub use lifecycle_rules::TaskStateMachine;
pub use receipt::{ApprovalBinding, ArtifactReference, ToolExecutionReceipt, ToolTarget};
pub use store::{Storage, StorageError, StorageResult};
pub use store_models::{
    AgentSessionCheckpoint, NewTaskEvent, TaskEvent, TaskSnapshot, ToolAttempt, ToolReplayDecision,
};
pub use supervisor::{
    DiagnosticNote, HandshakeObservation, HandshakeStep, MonitorObservation, MonitorOutcome,
    MonitorStep, RestartPolicy, SupervisorAction, SupervisorStep, WorkerCommand, WorkerEvent,
};
pub use task::{TaskRuntime, TaskRuntimeError};
pub use tool_execution::{
    decide_execution, save_execution_receipt, ToolExecutionDecision, ToolExecutionError,
};
pub use vocabulary::{
    PolicyDecision, RequestId, ResultType, TaskId, TaskLifecycle, TaskRunId, ToolAttemptStatus,
    ToolRiskLevel, TraceId, VerificationStatus, VoiceState, WorkerState,
};
