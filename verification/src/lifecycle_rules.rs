//! The pure lifecycle rules of a task run.

use vstd::prelude::*;

use crate::vocabulary::TaskLifecycle;

verus! {

/// The edges of the task lifecycle graph. Voice state is a separate event and
/// never takes part in these transitions.
pub open spec fn lifecycle_edge(from: TaskLifecycle, to: TaskLifecycle) -> bool {
    match from {
        TaskLifecycle::Created => to is Listening || to is Understanding || to is Cancelled || to is Failed,
        TaskLifecycle::Listening => to is Understanding || to is Cancelled || to is Failed,
        TaskLifecycle::Understanding => to is Running || to is WaitingConfirmation || to is Cancelled || to is Failed,
        TaskLifecycle::Running => to is Paused || to is WaitingConfirmation || to is Verifying || to is Unknown || to is Cancelled || to is Failed,
        TaskLifecycle::Paused => to is Running || to is Cancelled || to is Failed,
        TaskLifecycle::WaitingConfirmation => to is Running || to is NeedsUser || to is Cancelled || to is Failed,
        TaskLifecycle::Verifying => to is Completed || to is Failed || to is Unknown || to is NeedsUser || to is Cancelled,
        TaskLifecycle::Unknown => to is Reconciling || to is NeedsUser || to is Cancelled,
        TaskLifecycle::Reconciling => to is Completed || to is Failed || to is NeedsUser || to is Cancelled,
        TaskLifecycle::NeedsUser => to is Running || to is Reconciling || to is Cancelled || to is Failed,
        TaskLifecycle::Completed | TaskLifecycle::Failed | TaskLifecycle::Cancelled => false,
    }
}

/// The lifecycle rules of a task run, independent of any storage.
pub struct TaskStateMachine;

impl TaskStateMachine {
    /// Whether a task run may move from `from` to `to`.
    pub fn can_transition(from: TaskLifecycle, to: TaskLifecycle) -> (allowed: bool)
        ensures
            allowed == lifecycle_edge(from, to),
    {
        match from {
            TaskLifecycle::Created => matches!(to, TaskLifecycle::Listening
                | TaskLifecycle::Understanding | TaskLifecycle::Cancelled | TaskLifecycle::Failed),
            TaskLifecycle::Listening => matches!(to, TaskLifecycle::Understanding
                | TaskLifecycle::Cancelled | TaskLifecycle::Failed),
            TaskLifecycle::Understanding => matches!(to, TaskLifecycle::Running
                | TaskLifecycle::WaitingConfirmation | TaskLifecycle::Cancelled
                | TaskLifecycle::Failed),
            TaskLifecycle::Running => matches!(to, TaskLifecycle::Paused
                | TaskLifecycle::WaitingConfirmation | TaskLifecycle::Verifying
                | TaskLifecycle::Unknown | TaskLifecycle::Cancelled | TaskLifecycle::Failed),
            TaskLifecycle::Paused => matches!(to, TaskLifecycle::Running
                | TaskLifecycle::Cancelled | TaskLifecycle::Failed),
            TaskLifecycle::WaitingConfirmation => matches!(to, TaskLifecycle::Running
                | TaskLifecycle::NeedsUser | TaskLifecycle::Cancelled | TaskLifecycle::Failed),
            TaskLifecycle::Verifying => matches!(to, TaskLifecycle::Completed
                | TaskLifecycle::Failed | TaskLifecycle::Unknown | TaskLifecycle::NeedsUser
                | TaskLifecycle::Cancelled),
            TaskLifecycle::Unknown => matches!(to, TaskLifecycle::Reconciling
                | TaskLifecycle::NeedsUser | TaskLifecycle::Cancelled),
            TaskLifecycle::Reconciling => matches!(to, TaskLifecycle::Completed
                | TaskLifecycle::Failed | TaskLifecycle::NeedsUser | TaskLifecycle::Cancelled),
            TaskLifecycle::NeedsUser => matches!(to, TaskLifecycle::Running
                | TaskLifecycle::Reconciling | TaskLifecycle::Cancelled | TaskLifecycle::Failed),
            TaskLifecycle::Completed | TaskLifecycle::Failed | TaskLifecycle::Cancelled => false,
        }
    }
}

/// A task that completed, failed or was cancelled never changes lifecycle again.
pub proof fn lemma_terminal_states_are_final(from: TaskLifecycle, to: TaskLifecycle)
    requires
        from is Completed || from is Failed || from is Cancelled,
    ensures
        !lifecycle_edge(from, to),
{
}

/// An uncertain outcome is never resumed or resolved blindly: from `Unknown`
/// the only ways forward are reconciliation, asking the user, or cancelling.
pub proof fn lemma_unknown_requires_reconciliation(to: TaskLifecycle)
    ensures
        lifecycle_edge(TaskLifecycle::Unknown, to) <==> (to is Reconciling || to is NeedsUser
            || to is Cancelled),
{
}

/// Completion is reached only from verification or reconciliation.
pub proof fn lemma_completion_only_after_checking(from: TaskLifecycle)
    ensures
        lifecycle_edge(from, TaskLifecycle::Completed) <==> (from is Verifying
            || from is Reconciling),
{
}

/// No lifecycle state moves to itself: every recorded transition is a change.
pub proof fn lemma_no_self_transitions(state: TaskLifecycle)
    ensures
        !lifecycle_edge(state, state),
{
}

/// The lifecycle graph, edge by edge, as the task authority enforces it:
/// a created task may listen, understand, be cancelled or fail; listening
/// leads to understanding; understanding starts running or asks for a
/// confirmation; a running task may be paused, wait for a confirmation, be
/// verified, end in an unknown outcome, be cancelled or fail; a paused task
/// resumes running; a confirmation resumes running or hands over to the
/// user; verification completes, fails, is inconclusive (unknown) or needs
/// the user; an unknown outcome is reconciled or handed to the user;
/// reconciliation completes, fails or needs the user; the user resumes the
/// task or sends it to reconciliation. Every state that is not final may be
/// cancelled, and every one but unknown may fail. Completed, failed and
/// cancelled tasks never move.
pub proof fn lemma_lifecycle_graph(from: TaskLifecycle, to: TaskLifecycle)
    ensures
        lifecycle_edge(from, to) <==> {
            ||| from is Created && (to is Listening || to is Understanding || to is Cancelled || to is Failed)
            ||| from is Listening && (to is Understanding || to is Cancelled || to is Failed)
            ||| from is Understanding && (to is Running || to is WaitingConfirmation || to is Cancelled
                || to is Failed)
            ||| from is Running && (to is Paused || to is WaitingConfirmation || to is Verifying || to is Unknown
                || to is Cancelled || to is Failed)
            ||| from is Paused && (to is Running || to is Cancelled || to is Failed)
            ||| from is WaitingConfirmation && (to is Running || to is NeedsUser || to is Cancelled
                || to is Failed)
            ||| from is Verifying && (to is Completed || to is Failed || to is Unknown || to is NeedsUser
                || to is Cancelled)
            ||| from is Unknown && (to is Reconciling || to is NeedsUser || to is Cancelled)
            ||| from is Reconciling && (to is Completed || to is Failed || to is NeedsUser || to is Cancelled)
            ||| from is NeedsUser && (to is Running || to is Reconciling || to is Cancelled || to is Failed)
        },
{
}

/// The user can pause a running task, resume a paused one, and cancel
/// either: pause, resume and cancel are always available on running work.
pub proof fn lemma_pause_resume_cancel()
    ensures
        lifecycle_edge(TaskLifecycle::Running, TaskLifecycle::Paused),
        lifecycle_edge(TaskLifecycle::Paused, TaskLifecycle::Running),
        lifecycle_edge(TaskLifecycle::Running, TaskLifecycle::Cancelled),
        lifecycle_edge(TaskLifecycle::Paused, TaskLifecycle::Cancelled),
        lifecycle_edge(TaskLifecycle::Running, TaskLifecycle::Verifying),
        lifecycle_edge(TaskLifecycle::Verifying, TaskLifecycle::Completed),
{
}

} // verus!
