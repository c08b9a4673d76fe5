//! The task runtime: the single authority that moves task runs through their
//! lifecycle.
//!
//! Every change is committed as a snapshot together with its event in the task
//! store. Only after the commit succeeds is the domain event handed to the
//! outbox from which subscribers are served, so subscribers only ever observe
//! committed facts.

use vstd::prelude::*;

use crate::domain::{event_json, payload_kind, DomainEvent, DomainEventContext, DomainEventPayload, VerificationRecord};
use crate::lifecycle_rules::{lifecycle_edge, TaskStateMachine};
use crate::store::{
    committed_event, committed_projection, event_id_taken, sequence_conflict, task_row,
    upsert_task, NewEventView, Storage, StorageError, StorageView,
};
use crate::store_models::{EventView, NewTaskEvent, SnapshotView, TaskEvent, TaskSnapshot};
use crate::vocabulary::{TaskId, TaskLifecycle, TaskRunId, TraceId, VerificationStatus};

verus! {

/// Why the runtime refused a change.
#[derive(Debug, Clone, PartialEq)]
pub enum TaskRuntimeError {
    /// The lifecycle graph has no edge for this change.
    IllegalTransition { from: TaskLifecycle, to: TaskLifecycle },
    /// `Completed` is only reached through a positive verification.
    CompletionRequiresVerification,
    /// The verification is not positive, rests on model prose, or has no evidence.
    InvalidVerification,
    /// The event's context names another task, run or trace than the snapshot.
    ContextMismatch,
    /// The store refused the commit.
    Storage(StorageError),
}

/// A verification that may prove completion: it passed, was not obtained by
/// reading model prose, and points at evidence.
pub open spec fn positive_verification(v: VerificationRecord) -> bool {
    &&& v.status is Passed
    &&& v.method@ != "model_prose"@
    &&& v.evidence@.len() > 0
}

/// The stored event an append of domain event `ev` records.
pub open spec fn stored_form(ev: DomainEvent) -> NewEventView {
    NewEventView {
        event_id: ev.context.event_id@,
        event_kind: payload_kind(ev.payload),
        payload: event_json(ev),
        occurred_at_ms: ev.context.occurred_at_ms,
    }
}

/// The context of `ev` is that of the task `s`, with the given event id and time.
pub open spec fn context_of(ev: DomainEvent, s: SnapshotView, event_id: Seq<char>, at: i64) -> bool {
    &&& ev.context.event_id@ == event_id
    &&& ev.context.task_id.0@ == s.task_id
    &&& ev.context.task_run_id.0@ == s.task_run_id
    &&& ev.context.trace_id.0@ == s.trace_id
    &&& ev.context.occurred_at_ms == at
}

/// Store state after committing snapshot `s` with domain event `ev` as `e`.
pub open spec fn committed(old: StorageView, new: StorageView, s: SnapshotView, ev: DomainEvent, e: EventView) -> bool {
    &&& e == committed_event(s, stored_form(ev))
    &&& new == (StorageView {
        tasks: upsert_task(old.tasks, committed_projection(s)),
        events: old.events.push(e),
        ..old
    })
}

/// Whether the task `task_id` has a row from which the lifecycle graph has an
/// edge to `to`: the cases in which a transition goes on to number an event.
pub open spec fn transition_allowed(tasks: Seq<SnapshotView>, task_id: Seq<char>, to: TaskLifecycle) -> bool {
    match task_row(tasks, task_id) {
        Some(i) => lifecycle_edge(tasks[i].lifecycle, to),
        None => false,
    }
}

/// The row of `task_id`, if there is one, is below the largest version, so one
/// more event of that task can be numbered.
pub open spec fn version_below_max(tasks: Seq<SnapshotView>, task_id: Seq<char>) -> bool {
    match task_row(tasks, task_id) {
        Some(i) => tasks[i].last_event_sequence < i64::MAX,
        None => true,
    }
}

/// The task authority: a store and the outbox of committed domain events.
pub struct TaskRuntime {
    storage: Storage,
    published: Vec<DomainEvent>,
}

fn context_from_snapshot(snapshot: &TaskSnapshot, event_id: &str, occurred_at_ms: i64) -> (r:
    DomainEventContext)
    ensures
        r.event_id@ == event_id@,
        r.task_id.0@ == snapshot.task_id@,
        r.task_run_id.0@ == snapshot.task_run_id@,
        r.trace_id.0@ == snapshot.trace_id@,
        r.occurred_at_ms == occurred_at_ms,
{
    DomainEventContext {
        event_id: String::from_str(event_id),
        task_id: TaskId(snapshot.task_id.clone()),
        task_run_id: TaskRunId(snapshot.task_run_id.clone()),
        trace_id: TraceId(snapshot.trace_id.clone()),
        occurred_at_ms,
    }
}

/// Whether `v` may prove completion.
pub fn validate_positive_verification(v: &VerificationRecord) -> (r: Result<(), TaskRuntimeError>)
    ensures
        positive_verification(*v) ==> r is Ok,
        !positive_verification(*v) ==> r matches Err(TaskRuntimeError::InvalidVerification),
{
    let passed = match v.status {
        VerificationStatus::Passed => true,
        _ => false,
    };
    if !passed || v.method == String::from_str("model_prose") || v.evidence.len() == 0 {
        return Err(TaskRuntimeError::InvalidVerification);
    }
    Ok(())
}

impl TaskRuntime {
    /// The store's contents.
    pub closed spec fn storage_view(&self) -> StorageView {
        self.storage.view()
    }

    /// Domain events committed and not yet handed to subscribers, oldest first.
    pub closed spec fn published(&self) -> Seq<DomainEvent> {
        self.published@
    }

    /// A runtime over `storage` with an empty outbox.
    pub fn new(storage: Storage) -> (r: TaskRuntime)
        ensures
            r.storage_view() == storage.view(),
            r.published().len() == 0,
    {
        TaskRuntime { storage, published: Vec::new() }
    }

    /// The underlying store, for reading.
    pub fn storage(&self) -> (r: &Storage)
        ensures
            r.view() == self.storage_view(),
    {
        &self.storage
    }

    /// Hands out the committed events not yet delivered, oldest first, and
    /// empties the outbox.
    pub fn drain_published(&mut self) -> (r: Vec<DomainEvent>)
        ensures
            r@ == old(self).published(),
            final(self).published().len() == 0,
            final(self).storage_view() == old(self).storage_view(),
    {
        let mut out: Vec<DomainEvent> = Vec::new();
        std::mem::swap(&mut out, &mut self.published);
        out
    }

    /// Commits `snapshot` with `event`; on success the event joins the outbox.
    fn persist(&mut self, snapshot: TaskSnapshot, event: DomainEvent) -> (r: Result<TaskEvent, TaskRuntimeError>)
        requires
            snapshot.last_event_sequence < i64::MAX,
            context_of(event, snapshot.view(), event.context.event_id@, event.context.occurred_at_ms),
        ensures
            sequence_conflict(old(self).storage_view().tasks, snapshot.view()) matches Some(actual) ==> (r matches Err(
                TaskRuntimeError::Storage(StorageError::EventSequenceConflict { task_id, expected, actual: a }),
            ) && task_id@ == snapshot.task_id@ && expected == snapshot.last_event_sequence && a == actual),
            sequence_conflict(old(self).storage_view().tasks, snapshot.view()) is None && event_id_taken(
                old(self).storage_view().events,
                event.context.event_id@,
            ) ==> (r matches Err(TaskRuntimeError::Storage(StorageError::DuplicateEvent { event_id }))
                && event_id@ == event.context.event_id@),
            r is Err ==> final(self).storage_view() == old(self).storage_view() && final(self).published()
                == old(self).published(),
            sequence_conflict(old(self).storage_view().tasks, snapshot.view()) is None && !event_id_taken(
                old(self).storage_view().events,
                event.context.event_id@,
            ) ==> (r matches Ok(e) && committed(
                old(self).storage_view(),
                final(self).storage_view(),
                snapshot.view(),
                event,
                e.view(),
            ) && final(self).published() == old(self).published().push(event)),
    {
        if !(event.context.task_id.0 == snapshot.task_id) || !(event.context.task_run_id.0
            == snapshot.task_run_id) || !(event.context.trace_id.0 == snapshot.trace_id) {
            return Err(TaskRuntimeError::ContextMismatch);
        }
        let record = NewTaskEvent {
            event_id: event.context.event_id.clone(),
            event_kind: String::from_str(event.kind()),
            payload: event.to_json(),
            occurred_at_ms: event.context.occurred_at_ms,
        };
        match self.storage.persist_task_event(snapshot, record) {
            Ok(stored) => {
                self.published.push(event);
                Ok(stored)
            },
            Err(e) => Err(TaskRuntimeError::Storage(e)),
        }
    }

    /// Creates a task from its initial snapshot, which must be in `Created` at
    /// version 0 and must not exist yet; `source` is recorded as the reason.
    pub fn create(&mut self, snapshot: TaskSnapshot, event_id: &str, source: &str) -> (r: Result<
        TaskEvent,
        TaskRuntimeError,
    >)
        ensures
            !(snapshot.lifecycle is Created) || snapshot.last_event_sequence != 0 || task_row(
                old(self).storage_view().tasks,
                snapshot.task_id@,
            ) is Some ==> (r matches Err(TaskRuntimeError::IllegalTransition { from, to }) && from
                == snapshot.lifecycle && to is Created),
            r is Err ==> final(self).storage_view() == old(self).storage_view() && final(self).published()
                == old(self).published(),
            snapshot.lifecycle is Created && snapshot.last_event_sequence == 0 && task_row(
                old(self).storage_view().tasks,
                snapshot.task_id@,
            ) is None ==> (event_id_taken(old(self).storage_view().events, event_id@) ==> (r matches Err(
                TaskRuntimeError::Storage(StorageError::DuplicateEvent { event_id: id }),
            ) && id@ == event_id@)),
            snapshot.lifecycle is Created && snapshot.last_event_sequence == 0 && task_row(
                old(self).storage_view().tasks,
                snapshot.task_id@,
            ) is None && !event_id_taken(old(self).storage_view().events, event_id@) ==> (r matches Ok(
                e,
            ) && final(self).published().len() == old(self).published().len() + 1
                && final(self).published().drop_last() == old(self).published() && context_of(
                final(self).published().last(),
                snapshot.view(),
                event_id@,
                snapshot.created_at_ms,
            ) && (final(self).published().last().payload matches DomainEventPayload::TaskLifecycleChanged {
                from: None,
                to: TaskLifecycle::Created,
                reason: Some(why),
            } && why@ == source@) && committed(
                old(self).storage_view(),
                final(self).storage_view(),
                snapshot.view(),
                final(self).published().last(),
                e.view(),
            )),
    {
        let is_created = match snapshot.lifecycle {
            TaskLifecycle::Created => true,
            _ => false,
        };
        let exists = match self.storage.load_task(snapshot.task_id.as_str()) {
            Ok(Some(_)) => true,
            _ => false,
        };
        if !is_created || snapshot.last_event_sequence != 0 || exists {
            return Err(
                TaskRuntimeError::IllegalTransition {
                    from: snapshot.lifecycle,
                    to: TaskLifecycle::Created,
                },
            );
        }
        let event = DomainEvent {
            context: context_from_snapshot(&snapshot, event_id, snapshot.created_at_ms),
            payload: DomainEventPayload::TaskLifecycleChanged {
                from: None,
                to: TaskLifecycle::Created,
                reason: Some(String::from_str(source)),
            },
        };
        proof {
            assert(sequence_conflict(self.storage_view().tasks, snapshot.view()) is None);
        }
        let ghost before = self.published@;
        let r = self.persist(snapshot, event);
        proof {
            if r is Ok {
                assert(self.published@.drop_last() =~= before);
            }
        }
        r
    }

    /// Loads the row of a task with its position.
    fn load_row(&self, task_id: &str) -> (r: Result<TaskSnapshot, TaskRuntimeError>)
        ensures
            match task_row(self.storage_view().tasks, task_id@) {
                Some(i) => r matches Ok(s) && s.view() == self.storage_view().tasks[i],
                None => r matches Err(TaskRuntimeError::Storage(StorageError::TaskNotFound(t)))
                    && t@ == task_id@,
            },
    {
        match self.storage.load_task(task_id) {
            Ok(Some(s)) => Ok(s),
            _ => Err(TaskRuntimeError::Storage(StorageError::TaskNotFound(String::from_str(task_id)))),
        }
    }

    /// Moves a task to `to` along an edge of the lifecycle graph.
    fn transition_internal(
        &mut self,
        task_id: &str,
        to: TaskLifecycle,
        event_id: &str,
        occurred_at_ms: i64,
        reason: Option<String>,
    ) -> (r: Result<TaskEvent, TaskRuntimeError>)
        requires
            transition_allowed(old(self).storage_view().tasks, task_id@, to) ==> version_below_max(old(self).storage_view().tasks, task_id@),
        ensures
            r is Err ==> final(self).storage_view() == old(self).storage_view() && final(self).published()
                == old(self).published(),
            match task_row(old(self).storage_view().tasks, task_id@) {
                None => r matches Err(TaskRuntimeError::Storage(StorageError::TaskNotFound(t))) && t@
                    == task_id@,
                Some(i) => {
                    let row = old(self).storage_view().tasks[i];
                    &&& !lifecycle_edge(row.lifecycle, to) ==> (r matches Err(
                        TaskRuntimeError::IllegalTransition { from, to: t },
                    ) && from == row.lifecycle && t == to)
                    &&& lifecycle_edge(row.lifecycle, to) && event_id_taken(
                        old(self).storage_view().events,
                        event_id@,
                    ) ==> (r matches Err(TaskRuntimeError::Storage(StorageError::DuplicateEvent { event_id: id })) && id@
                        == event_id@)
                    &&& lifecycle_edge(row.lifecycle, to) && !event_id_taken(
                        old(self).storage_view().events,
                        event_id@,
                    ) ==> (r matches Ok(e) && final(self).published().len() == old(self).published().len()
                        + 1 && final(self).published().drop_last() == old(self).published()
                        && context_of(final(self).published().last(), row, event_id@, occurred_at_ms)
                        && final(self).published().last().payload == (DomainEventPayload::TaskLifecycleChanged {
                        from: Some(row.lifecycle),
                        to,
                        reason,
                    }) && committed(
                        old(self).storage_view(),
                        final(self).storage_view(),
                        SnapshotView { lifecycle: to, updated_at_ms: occurred_at_ms, ..row },
                        final(self).published().last(),
                        e.view(),
                    ))
                },
            },
    {
        let mut snapshot = match self.load_row(task_id) {
            Ok(s) => s,
            Err(e) => return Err(e),
        };
        let ghost i = task_row(self.storage_view().tasks, task_id@)->0;
        proof {
            crate::store::lemma_first_index_sound(self.storage_view().tasks, crate::store::is_task(task_id@));
        }
        let from = snapshot.lifecycle;
        if !TaskStateMachine::can_transition(from, to) {
            return Err(TaskRuntimeError::IllegalTransition { from, to });
        }
        snapshot.lifecycle = to;
        snapshot.updated_at_ms = occurred_at_ms;
        let event = DomainEvent {
            context: context_from_snapshot(&snapshot, event_id, occurred_at_ms),
            payload: DomainEventPayload::TaskLifecycleChanged { from: Some(from), to, reason },
        };
        proof {
            assert(snapshot.task_id@ == task_id@);
            assert(sequence_conflict(self.storage_view().tasks, snapshot.view()) is None);
        }
        let ghost before = self.published@;
        let r = self.persist(snapshot, event);
        proof {
            if r is Ok {
                assert(self.published@.drop_last() =~= before);
            }
        }
        r
    }

    /// Moves a task to `to`. `Completed` is refused here: it needs a positive
    /// verification, see `complete_verified`.
    pub fn transition(
        &mut self,
        task_id: &str,
        to: TaskLifecycle,
        event_id: &str,
        occurred_at_ms: i64,
        reason: Option<String>,
    ) -> (r: Result<TaskEvent, TaskRuntimeError>)
        requires
            !(to is Completed) && transition_allowed(old(self).storage_view().tasks, task_id@, to) ==> version_below_max(old(self).storage_view().tasks, task_id@),
        ensures
            to is Completed ==> r matches Err(TaskRuntimeError::CompletionRequiresVerification),
            r is Err ==> final(self).storage_view() == old(self).storage_view() && final(self).published()
                == old(self).published(),
            !(to is Completed) ==> match task_row(old(self).storage_view().tasks, task_id@) {
                None => r matches Err(TaskRuntimeError::Storage(StorageError::TaskNotFound(t))) && t@
                    == task_id@,
                Some(i) => {
                    let row = old(self).storage_view().tasks[i];
                    &&& !lifecycle_edge(row.lifecycle, to) ==> (r matches Err(
                        TaskRuntimeError::IllegalTransition { from, to: t },
                    ) && from == row.lifecycle && t == to)
                    &&& lifecycle_edge(row.lifecycle, to) && event_id_taken(
                        old(self).storage_view().events,
                        event_id@,
                    ) ==> (r matches Err(TaskRuntimeError::Storage(StorageError::DuplicateEvent { event_id: id })) && id@
                        == event_id@)
                    &&& lifecycle_edge(row.lifecycle, to) && !event_id_taken(
                        old(self).storage_view().events,
                        event_id@,
                    ) ==> (r matches Ok(e) && final(self).published().len() == old(self).published().len()
                        + 1 && final(self).published().drop_last() == old(self).published()
                        && context_of(final(self).published().last(), row, event_id@, occurred_at_ms)
                        && final(self).published().last().payload == (DomainEventPayload::TaskLifecycleChanged {
                        from: Some(row.lifecycle),
                        to,
                        reason,
                    }) && committed(
                        old(self).storage_view(),
                        final(self).storage_view(),
                        SnapshotView { lifecycle: to, updated_at_ms: occurred_at_ms, ..row },
                        final(self).published().last(),
                        e.view(),
                    ))
                },
            },
    {
        match to {
            TaskLifecycle::Completed => Err(TaskRuntimeError::CompletionRequiresVerification),
            _ => self.transition_internal(task_id, to, event_id, occurred_at_ms, reason),
        }
    }

    /// Completes a task with a positive verification; its summary becomes the
    /// reason of the lifecycle event.
    pub fn complete_verified(
        &mut self,
        task_id: &str,
        event_id: &str,
        occurred_at_ms: i64,
        verification: &VerificationRecord,
    ) -> (r: Result<TaskEvent, TaskRuntimeError>)
        requires
            positive_verification(*verification) && transition_allowed(old(self).storage_view().tasks, task_id@, TaskLifecycle::Completed) ==> version_below_max(old(self).storage_view().tasks, task_id@),
        ensures
            !positive_verification(*verification) ==> r matches Err(TaskRuntimeError::InvalidVerification),
            r is Err ==> final(self).storage_view() == old(self).storage_view() && final(self).published()
                == old(self).published(),
            positive_verification(*verification) ==> match task_row(old(self).storage_view().tasks, task_id@) {
                None => r matches Err(TaskRuntimeError::Storage(StorageError::TaskNotFound(t))) && t@
                    == task_id@,
                Some(i) => {
                    let row = old(self).storage_view().tasks[i];
                    &&& !lifecycle_edge(row.lifecycle, TaskLifecycle::Completed) ==> (r matches Err(
                        TaskRuntimeError::IllegalTransition { from, to: t },
                    ) && from == row.lifecycle && t is Completed)
                    &&& lifecycle_edge(row.lifecycle, TaskLifecycle::Completed) && event_id_taken(
                        old(self).storage_view().events,
                        event_id@,
                    ) ==> (r matches Err(TaskRuntimeError::Storage(StorageError::DuplicateEvent { event_id: id })) && id@
                        == event_id@)
                    &&& lifecycle_edge(row.lifecycle, TaskLifecycle::Completed) && !event_id_taken(
                        old(self).storage_view().events,
                        event_id@,
                    ) ==> (r matches Ok(e) && final(self).published().len() == old(self).published().len()
                        + 1 && final(self).published().drop_last() == old(self).published()
                        && context_of(final(self).published().last(), row, event_id@, occurred_at_ms)
                        && (final(self).published().last().payload matches DomainEventPayload::TaskLifecycleChanged {
                        from: Some(f),
                        to: TaskLifecycle::Completed,
                        reason: Some(why),
                    } && f == row.lifecycle && why@ == verification.summary@) && committed(
                        old(self).storage_view(),
                        final(self).storage_view(),
                        SnapshotView {
                            lifecycle: TaskLifecycle::Completed,
                            updated_at_ms: occurred_at_ms,
                            ..row
                        },
                        final(self).published().last(),
                        e.view(),
                    ))
                },
            },
    {
        match validate_positive_verification(verification) {
            Ok(()) => {},
            Err(e) => return Err(e),
        }
        self.transition_internal(
            task_id,
            TaskLifecycle::Completed,
            event_id,
            occurred_at_ms,
            Some(verification.summary.clone()),
        )
    }

    /// Records a non-lifecycle event in the task's ordered stream; the task's
    /// update time becomes the event time.
    pub fn record(&mut self, task_id: &str, event_id: &str, occurred_at_ms: i64, payload: DomainEventPayload) -> (r:
        Result<TaskEvent, TaskRuntimeError>)
        requires
            version_below_max(old(self).storage_view().tasks, task_id@),
        ensures
            r is Err ==> final(self).storage_view() == old(self).storage_view() && final(self).published()
                == old(self).published(),
            match task_row(old(self).storage_view().tasks, task_id@) {
                None => r matches Err(TaskRuntimeError::Storage(StorageError::TaskNotFound(t))) && t@
                    == task_id@,
                Some(i) => {
                    let row = old(self).storage_view().tasks[i];
                    &&& event_id_taken(old(self).storage_view().events, event_id@) ==> (r matches Err(
                        TaskRuntimeError::Storage(StorageError::DuplicateEvent { event_id: id }),
                    ) && id@ == event_id@)
                    &&& !event_id_taken(old(self).storage_view().events, event_id@) ==> (r matches Ok(e)
                        && final(self).published().len() == old(self).published().len() + 1
                        && final(self).published().drop_last() == old(self).published() && context_of(
                        final(self).published().last(),
                        row,
                        event_id@,
                        occurred_at_ms,
                    ) && final(self).published().last().payload == payload && committed(
                        old(self).storage_view(),
                        final(self).storage_view(),
                        SnapshotView { updated_at_ms: occurred_at_ms, ..row },
                        final(self).published().last(),
                        e.view(),
                    ))
                },
            },
    {
        let mut snapshot = match self.load_row(task_id) {
            Ok(s) => s,
            Err(e) => return Err(e),
        };
        proof {
            crate::store::lemma_first_index_sound(self.storage_view().tasks, crate::store::is_task(task_id@));
        }
        snapshot.updated_at_ms = occurred_at_ms;
        let event = DomainEvent {
            context: context_from_snapshot(&snapshot, event_id, occurred_at_ms),
            payload,
        };
        proof {
            assert(sequence_conflict(self.storage_view().tasks, snapshot.view()) is None);
        }
        let ghost before = self.published@;
        let r = self.persist(snapshot, event);
        proof {
            if r is Ok {
                assert(self.published@.drop_last() =~= before);
            }
        }
        r
    }
}

} // verus!

verus! {

/// Every change the runtime commits keeps each task of a consistent store
/// consistent with its event stream, so replay keeps rebuilding the rows.
pub proof fn lemma_runtime_commit_keeps_store_consistent(
    old: StorageView,
    new: StorageView,
    s: SnapshotView,
    ev: DomainEvent,
    e: EventView,
)
    requires
        crate::store::store_wf(old),
        sequence_conflict(old.tasks, s) is None,
        s.last_event_sequence < i64::MAX,
        committed(old, new, s, ev, e),
    ensures
        crate::store::store_wf(new),
{
    crate::store::lemma_persist_preserves_wf(old, s, stored_form(ev));
}

} // verus!
