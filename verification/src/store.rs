//! The durable task store: task snapshots, their append-only event streams,
//! agent session checkpoints and tool attempts.
//!
//! A snapshot and the event that produced it are committed together or not at
//! all. Every append names the version (`last_event_sequence`) it was computed
//! from; an append based on a stale version is refused instead of overwriting
//! newer state. Replaying a task's events rebuilds its projection and checks
//! that the stream is gap-free and belongs to the task.

use vstd::prelude::*;

use crate::json::JsonView;
use crate::store_models::{
    AgentSessionCheckpoint, AttemptView, CheckpointView, EventView, NewTaskEvent, SnapshotView,
    TaskEvent, TaskSnapshot, ToolAttempt, ToolReplayDecision,
};
use crate::text::{push_decimal as push_decimal_u64, push_signed_decimal, signed_decimal};
use crate::vocabulary::ToolAttemptStatus;

verus! {

/// Errors of the task store. They carry stable meanings; callers never need
/// to inspect message text to decide what to do.
#[derive(Debug, Clone, PartialEq)]
pub enum StorageError {
    /// No event was ever recorded for the task.
    TaskNotFound(String),
    /// The caller's snapshot was computed from another version of the task.
    EventSequenceConflict { task_id: String, expected: i64, actual: i64 },
    /// The stored event stream of a task is not gap-free or mixes tasks.
    InvalidEventStream { task_id: String, reason: String },
    /// A stored name does not denote any value of the named vocabulary.
    InvalidEnum { kind: &'static str, value: String },
    /// An event with the same id is already recorded.
    DuplicateEvent { event_id: String },
}

/// Result of a store operation.
pub type StorageResult<T> = Result<T, StorageError>;

/// View of an event about to be appended.
pub struct NewEventView {
    pub event_id: Seq<char>,
    pub event_kind: Seq<char>,
    pub payload: JsonView,
    pub occurred_at_ms: i64,
}

impl NewTaskEvent {
    pub open spec fn view(&self) -> NewEventView {
        NewEventView {
            event_id: self.event_id@,
            event_kind: self.event_kind@,
            payload: self.payload.view(),
            occurred_at_ms: self.occurred_at_ms,
        }
    }
}

/// Mathematical model of the store: its four tables, in row order.
pub struct StorageView {
    pub tasks: Seq<SnapshotView>,
    pub events: Seq<EventView>,
    pub sessions: Seq<CheckpointView>,
    pub attempts: Seq<AttemptView>,
}

pub open spec fn snapshots_view(v: Seq<TaskSnapshot>) -> Seq<SnapshotView> {
    Seq::new(v.len(), |i: int| v[i].view())
}

pub open spec fn events_view(v: Seq<TaskEvent>) -> Seq<EventView> {
    Seq::new(v.len(), |i: int| v[i].view())
}

pub open spec fn checkpoints_view(v: Seq<AgentSessionCheckpoint>) -> Seq<CheckpointView> {
    Seq::new(v.len(), |i: int| v[i].view())
}

pub open spec fn attempts_view(v: Seq<ToolAttempt>) -> Seq<AttemptView> {
    Seq::new(v.len(), |i: int| v[i].view())
}

/// Index of the first element at or after `from` that satisfies `p`.
pub open spec fn first_index_from<A>(s: Seq<A>, p: spec_fn(A) -> bool, from: int) -> Option<int>
    decreases s.len() - from,
{
    if from < 0 || from >= s.len() {
        None
    } else if p(s[from]) {
        Some(from)
    } else {
        first_index_from(s, p, from + 1)
    }
}

/// Index of the first element that satisfies `p`.
pub open spec fn first_index<A>(s: Seq<A>, p: spec_fn(A) -> bool) -> Option<int> {
    first_index_from(s, p, 0)
}

proof fn lemma_first_index_from<A>(s: Seq<A>, p: spec_fn(A) -> bool, from: int, i: int)
    requires
        0 <= from <= i < s.len(),
        p(s[i]),
        forall|j: int| from <= j < i ==> !p(#[trigger] s[j]),
    ensures
        first_index_from(s, p, from) == Some(i),
    decreases i - from,
{
    if from < i {
        lemma_first_index_from(s, p, from + 1, i);
    }
}

/// The first element satisfying `p` is at `i` when `s[i]` does and no earlier one does.
pub proof fn lemma_first_index_found<A>(s: Seq<A>, p: spec_fn(A) -> bool, i: int)
    requires
        0 <= i < s.len(),
        p(s[i]),
        forall|j: int| 0 <= j < i ==> !p(#[trigger] s[j]),
    ensures
        first_index(s, p) == Some(i),
{
    lemma_first_index_from(s, p, 0, i);
}

proof fn lemma_first_index_none_from<A>(s: Seq<A>, p: spec_fn(A) -> bool, from: int)
    requires
        0 <= from,
        forall|j: int| from <= j < s.len() ==> !p(#[trigger] s[j]),
    ensures
        first_index_from(s, p, from) is None,
    decreases s.len() - from,
{
    if from < s.len() {
        lemma_first_index_none_from(s, p, from + 1);
    }
}

/// No element satisfies `p`, so there is no first one.
pub proof fn lemma_first_index_none<A>(s: Seq<A>, p: spec_fn(A) -> bool)
    requires
        forall|j: int| 0 <= j < s.len() ==> !p(#[trigger] s[j]),
    ensures
        first_index(s, p) is None,
{
    lemma_first_index_none_from(s, p, 0);
}

proof fn lemma_first_index_from_sound<A>(s: Seq<A>, p: spec_fn(A) -> bool, from: int)
    requires
        0 <= from,
    ensures
        first_index_from(s, p, from) matches Some(i) ==> from <= i < s.len() && p(s[i]) && forall|
            j: int,
        | from <= j < i ==> !p(#[trigger] s[j]),
        first_index_from(s, p, from) is None ==> forall|j: int|
            from <= j < s.len() ==> !p(#[trigger] s[j]),
    decreases s.len() - from,
{
    if from < s.len() {
        lemma_first_index_from_sound(s, p, from + 1);
    }
}

/// What the first index means.
pub proof fn lemma_first_index_sound<A>(s: Seq<A>, p: spec_fn(A) -> bool)
    ensures
        first_index(s, p) matches Some(i) ==> 0 <= i < s.len() && p(s[i]) && forall|j: int|
            0 <= j < i ==> !p(#[trigger] s[j]),
        first_index(s, p) is None ==> forall|j: int| 0 <= j < s.len() ==> !p(#[trigger] s[j]),
{
    lemma_first_index_from_sound(s, p, 0);
}

/// Rows of the task `task_id`.
pub open spec fn is_task(task_id: Seq<char>) -> spec_fn(SnapshotView) -> bool {
    |t: SnapshotView| t.task_id == task_id
}

/// Row of the task `task_id`, if any.
pub open spec fn task_row(tasks: Seq<SnapshotView>, task_id: Seq<char>) -> Option<int> {
    first_index(tasks, is_task(task_id))
}

/// The stored sequence number of a task, if it has a row.
pub open spec fn current_sequence(tasks: Seq<SnapshotView>, task_id: Seq<char>) -> Option<i64> {
    match task_row(tasks, task_id) {
        Some(i) => Some(tasks[i].last_event_sequence),
        None => None,
    }
}

/// The stored sequence that conflicts with a snapshot computed from version
/// `s.last_event_sequence`, if any (a task without row is at version 0).
pub open spec fn sequence_conflict(tasks: Seq<SnapshotView>, s: SnapshotView) -> Option<i64> {
    match current_sequence(tasks, s.task_id) {
        Some(actual) => if actual != s.last_event_sequence {
            Some(actual)
        } else {
            None
        },
        None => if s.last_event_sequence != 0 {
            Some(0)
        } else {
            None
        },
    }
}

/// Whether an event with this id is already recorded.
pub open spec fn event_id_taken(events: Seq<EventView>, event_id: Seq<char>) -> bool {
    exists|i: int| 0 <= i < events.len() && #[trigger] events[i].event_id == event_id
}

/// The projection committed by an append: the caller's snapshot at the next version.
pub open spec fn committed_projection(s: SnapshotView) -> SnapshotView {
    SnapshotView { last_event_sequence: (s.last_event_sequence + 1) as i64, ..s }
}

/// The event row committed by an append.
pub open spec fn committed_event(s: SnapshotView, e: NewEventView) -> EventView {
    EventView {
        event_id: e.event_id,
        task_id: s.task_id,
        sequence: (s.last_event_sequence + 1) as i64,
        event_kind: e.event_kind,
        payload: e.payload,
        projection: committed_projection(s),
        occurred_at_ms: e.occurred_at_ms,
    }
}

/// Inserting or updating a task row; an existing row keeps its creation time.
pub open spec fn upsert_task(tasks: Seq<SnapshotView>, s: SnapshotView) -> Seq<SnapshotView> {
    match task_row(tasks, s.task_id) {
        Some(i) => tasks.update(i, SnapshotView { created_at_ms: tasks[i].created_at_ms, ..s }),
        None => tasks.push(s),
    }
}

/// Events recorded for the task `task_id`.
pub open spec fn of_task(task_id: Seq<char>) -> spec_fn(EventView) -> bool {
    |e: EventView| e.task_id == task_id
}

/// Events numbered higher than `e`.
pub open spec fn later_than(e: EventView) -> spec_fn(EventView) -> bool {
    |x: EventView| x.sequence > e.sequence
}

/// `sorted` with `e` placed right before its first event numbered higher than `e`.
pub open spec fn insert_by_sequence(sorted: Seq<EventView>, e: EventView) -> Seq<EventView> {
    match first_index(sorted, later_than(e)) {
        Some(i) => sorted.insert(i, e),
        None => sorted.push(e),
    }
}

/// Events ordered by sequence number; events with the same number keep
/// their relative order.
pub open spec fn by_sequence(events: Seq<EventView>) -> Seq<EventView>
    decreases events.len(),
{
    if events.len() == 0 {
        events
    } else {
        insert_by_sequence(by_sequence(events.drop_last()), events.last())
    }
}

/// The recorded events of one task, in order of their sequence numbers
/// (events with the same number in the order they were appended).
pub open spec fn task_events(events: Seq<EventView>, task_id: Seq<char>) -> Seq<EventView> {
    by_sequence(events.filter(of_task(task_id)))
}

/// Why the event at `index` of a task's stream is not what a gap-free stream
/// of that task holds there, if it is not.
pub open spec fn stream_defect(task_id: Seq<char>, index: int, e: EventView) -> Option<Seq<char>> {
    if e.sequence != index + 1 {
        Some(
            "expected sequence "@ + signed_decimal(index + 1) + ", found "@ + signed_decimal(
                e.sequence as int,
            ),
        )
    } else if e.task_id != task_id || e.projection.task_id != task_id {
        Some("event "@ + e.event_id + " belongs to another task"@)
    } else if e.projection.last_event_sequence != e.sequence {
        Some(
            "projection sequence "@ + signed_decimal(e.projection.last_event_sequence as int)
                + " does not match event sequence "@ + signed_decimal(e.sequence as int),
        )
    } else {
        None
    }
}

/// The defect of the first defective event at or after `from`, if any.
pub open spec fn first_stream_defect(task_id: Seq<char>, events: Seq<EventView>, from: int) -> Option<
    Seq<char>,
>
    decreases events.len() - from,
{
    if from < 0 || from >= events.len() {
        None
    } else {
        match stream_defect(task_id, from, events[from]) {
            Some(reason) => Some(reason),
            None => first_stream_defect(task_id, events, from + 1),
        }
    }
}

/// Rows of the session `session_id`.
pub open spec fn is_session(session_id: Seq<char>) -> spec_fn(CheckpointView) -> bool {
    |c: CheckpointView| c.session_id == session_id
}

/// Row of the session `session_id`, if any.
pub open spec fn session_row(sessions: Seq<CheckpointView>, session_id: Seq<char>) -> Option<int> {
    first_index(sessions, is_session(session_id))
}

/// Inserting or updating a checkpoint; an existing row keeps its creation time.
pub open spec fn upsert_checkpoint(sessions: Seq<CheckpointView>, c: CheckpointView) -> Seq<
    CheckpointView,
> {
    match session_row(sessions, c.session_id) {
        Some(i) => sessions.update(i, CheckpointView { created_at_ms: sessions[i].created_at_ms, ..c }),
        None => sessions.push(c),
    }
}

/// Rows of the attempt `attempt_id`.
pub open spec fn is_attempt(attempt_id: Seq<char>) -> spec_fn(AttemptView) -> bool {
    |a: AttemptView| a.attempt_id == attempt_id
}

/// Row of the attempt `attempt_id`, if any.
pub open spec fn attempt_row(attempts: Seq<AttemptView>, attempt_id: Seq<char>) -> Option<int> {
    first_index(attempts, is_attempt(attempt_id))
}

/// Inserting an attempt, or recording the outcome of an existing one: only its
/// status, result type, receipt, verification and finish time change.
pub open spec fn upsert_attempt(attempts: Seq<AttemptView>, a: AttemptView) -> Seq<AttemptView> {
    match attempt_row(attempts, a.attempt_id) {
        Some(i) => attempts.update(
            i,
            AttemptView {
                status: a.status,
                result_type: a.result_type,
                receipt: a.receipt,
                verification: a.verification,
                finished_at_ms: a.finished_at_ms,
                ..attempts[i]
            },
        ),
        None => attempts.push(a),
    }
}

/// Whether an attempt belongs to the call `(task_id, key)`, optionally only succeeded ones.
pub open spec fn attempt_matches(a: AttemptView, task_id: Seq<char>, key: Seq<char>, only_succeeded: bool) -> bool {
    a.task_id == task_id && a.idempotency_key == key && (!only_succeeded || a.status is Succeeded)
}

/// Among the first `n` attempts, the first one with the highest attempt number
/// among those matching the call.
pub open spec fn latest_attempt(
    attempts: Seq<AttemptView>,
    task_id: Seq<char>,
    key: Seq<char>,
    only_succeeded: bool,
    n: int,
) -> Option<int>
    decreases n,
{
    if n <= 0 {
        None
    } else {
        let best = latest_attempt(attempts, task_id, key, only_succeeded, n - 1);
        if attempt_matches(attempts[n - 1], task_id, key, only_succeeded) && (best is None
            || attempts[n - 1].attempt_number > attempts[best->0].attempt_number) {
            Some(n - 1)
        } else {
            best
        }
    }
}

/// Model of a replay decision.
pub enum DecisionView {
    Execute,
    ReuseCompleted(AttemptView),
    ReconcileIncomplete(AttemptView),
}

impl ToolReplayDecision {
    pub open spec fn view(&self) -> DecisionView {
        match self {
            ToolReplayDecision::Execute => DecisionView::Execute,
            ToolReplayDecision::ReuseCompleted(a) => DecisionView::ReuseCompleted(a.view()),
            ToolReplayDecision::ReconcileIncomplete(a) => DecisionView::ReconcileIncomplete(a.view()),
        }
    }
}

/// An attempt without a definite end: started, unknown outcome, or waiting for the user.
pub open spec fn is_incomplete(s: ToolAttemptStatus) -> bool {
    s is Started || s is Unknown || s is NeedsUser
}

/// The replay decision for the call `(task_id, key)`: reuse the latest
/// succeeded attempt; otherwise reconcile the latest attempt if it has no
/// definite end; otherwise execute.
pub open spec fn replay_decision(attempts: Seq<AttemptView>, task_id: Seq<char>, key: Seq<char>) -> DecisionView {
    match latest_attempt(attempts, task_id, key, true, attempts.len() as int) {
        Some(i) => DecisionView::ReuseCompleted(attempts[i]),
        None => match latest_attempt(attempts, task_id, key, false, attempts.len() as int) {
            Some(i) => if is_incomplete(attempts[i].status) {
                DecisionView::ReconcileIncomplete(attempts[i])
            } else {
                DecisionView::Execute
            },
            None => DecisionView::Execute,
        },
    }
}

/// The in-process task store. Its tables are kept in row order.
pub struct Storage {
    tasks: Vec<TaskSnapshot>,
    events: Vec<TaskEvent>,
    sessions: Vec<AgentSessionCheckpoint>,
    attempts: Vec<ToolAttempt>,
}

impl Storage {
    pub closed spec fn view(&self) -> StorageView {
        StorageView {
            tasks: snapshots_view(self.tasks@),
            events: events_view(self.events@),
            sessions: checkpoints_view(self.sessions@),
            attempts: attempts_view(self.attempts@),
        }
    }

    /// An empty store.
    pub fn new() -> (r: Storage)
        ensures
            r.view().tasks.len() == 0,
            r.view().events.len() == 0,
            r.view().sessions.len() == 0,
            r.view().attempts.len() == 0,
            store_wf(r.view()),
    {
        let r = Storage { tasks: Vec::new(), events: Vec::new(), sessions: Vec::new(), attempts: Vec::new() };
        proof {
            lemma_empty_store_wf(r.view());
        }
        r
    }

    /// An empty store that lives only in this process.
    pub fn open_in_memory() -> (r: StorageResult<Storage>)
        ensures
            r matches Ok(s) && s.view().tasks.len() == 0 && s.view().events.len() == 0
                && s.view().sessions.len() == 0 && s.view().attempts.len() == 0 && store_wf(s.view()),
    {
        Ok(Storage::new())
    }

    /// A store holding the given rows, as read back from durable storage.
    pub fn restore(
        tasks: Vec<TaskSnapshot>,
        events: Vec<TaskEvent>,
        sessions: Vec<AgentSessionCheckpoint>,
        attempts: Vec<ToolAttempt>,
    ) -> (r: Storage)
        ensures
            r.view().tasks == snapshots_view(tasks@),
            r.view().events == events_view(events@),
            r.view().sessions == checkpoints_view(sessions@),
            r.view().attempts == attempts_view(attempts@),
    {
        Storage { tasks, events, sessions, attempts }
    }

    fn find_task(&self, task_id: &str) -> (r: Option<usize>)
        ensures
            match r {
                Some(i) => i < self.tasks@.len() && task_row(self.view().tasks, task_id@) == Some(i as int),
                None => task_row(self.view().tasks, task_id@) is None,
            },
    {
        let wanted = String::from_str(task_id);
        let ghost p = is_task(task_id@);
        let mut i: usize = 0;
        while i < self.tasks.len()
            invariant
                i <= self.tasks@.len(),
                wanted@ == task_id@,
                p == is_task(task_id@),
                forall|j: int| 0 <= j < i ==> !p(#[trigger] self.view().tasks[j]),
            decreases self.tasks@.len() - i,
        {
            if self.tasks[i].task_id == wanted {
                proof {
                    lemma_first_index_found(self.view().tasks, p, i as int);
                }
                return Some(i);
            }
            i = i + 1;
        }
        proof {
            lemma_first_index_none(self.view().tasks, p);
        }
        None
    }

    /// The current snapshot of a task, if the task exists.
    pub fn load_task(&self, task_id: &str) -> (r: StorageResult<Option<TaskSnapshot>>)
        ensures
            r matches Ok(found) && match task_row(self.view().tasks, task_id@) {
                Some(i) => found matches Some(s) && s.view() == self.view().tasks[i],
                None => found is None,
            },
    {
        match self.find_task(task_id) {
            Some(i) => Ok(Some(self.tasks[i].duplicate())),
            None => Ok(None),
        }
    }

    fn event_id_exists(&self, event_id: &String) -> (r: bool)
        ensures
            r == event_id_taken(self.view().events, event_id@),
    {
        let mut i: usize = 0;
        while i < self.events.len()
            invariant
                i <= self.events@.len(),
                forall|j: int| 0 <= j < i ==> #[trigger] self.view().events[j].event_id != event_id@,
            decreases self.events@.len() - i,
        {
            if self.events[i].event_id == *event_id {
                proof {
                    assert(self.view().events[i as int].event_id == event_id@);
                }
                return true;
            }
            i = i + 1;
        }
        false
    }

    /// Appends `event` for the task of `snapshot` and replaces the task's row
    /// by `snapshot` at the next version, in one step.
    ///
    /// `snapshot.last_event_sequence` is the version the caller computed the
    /// new projection from (0 for a new task). If the stored version differs,
    /// nothing changes and the conflict is reported; an event id that is
    /// already recorded also leaves the store unchanged.
    pub fn persist_task_event(&mut self, snapshot: TaskSnapshot, event: NewTaskEvent) -> (r:
        StorageResult<TaskEvent>)
        requires
            sequence_conflict(old(self).view().tasks, snapshot.view()) is None ==> snapshot.last_event_sequence
                < i64::MAX,
        ensures
            sequence_conflict(old(self).view().tasks, snapshot.view()) matches Some(actual) ==> (r matches Err(
                StorageError::EventSequenceConflict { task_id, expected, actual: a },
            ) && task_id@ == snapshot.task_id@ && expected == snapshot.last_event_sequence && a
                == actual),
            sequence_conflict(old(self).view().tasks, snapshot.view()) is None && event_id_taken(
                old(self).view().events,
                event.event_id@,
            ) ==> (r matches Err(StorageError::DuplicateEvent { event_id }) && event_id@
                == event.event_id@),
            r is Err ==> final(self).view() == old(self).view(),
            sequence_conflict(old(self).view().tasks, snapshot.view()) is None && !event_id_taken(
                old(self).view().events,
                event.event_id@,
            ) ==> (r matches Ok(e) && e.view() == committed_event(snapshot.view(), event.view())
                && final(self).view() == (StorageView {
                tasks: upsert_task(old(self).view().tasks, committed_projection(snapshot.view())),
                events: old(self).view().events.push(e.view()),
                ..old(self).view()
            })),
            store_wf(old(self).view()) ==> store_wf(final(self).view()),
    {
        let ghost start = self.view();
        let ghost given = snapshot.view();
        let ghost appended = event.view();
        let mut snapshot = snapshot;
        let row = self.find_task(snapshot.task_id.as_str());
        match row {
            Some(i) => {
                let actual = self.tasks[i].last_event_sequence;
                if actual != snapshot.last_event_sequence {
                    let expected = snapshot.last_event_sequence;
                    return Err(
                        StorageError::EventSequenceConflict {
                            task_id: snapshot.task_id,
                            expected,
                            actual,
                        },
                    );
                }
            },
            None => {
                if snapshot.last_event_sequence != 0 {
                    let expected = snapshot.last_event_sequence;
                    return Err(
                        StorageError::EventSequenceConflict {
                            task_id: snapshot.task_id,
                            expected,
                            actual: 0,
                        },
                    );
                }
            },
        }
        if self.event_id_exists(&event.event_id) {
            return Err(StorageError::DuplicateEvent { event_id: event.event_id });
        }
        let next_sequence = snapshot.last_event_sequence + 1;
        snapshot.last_event_sequence = next_sequence;
        let ghost old_tasks = self.tasks@;
        let ghost old_events = self.events@;
        let mut stored = snapshot.duplicate();
        match row {
            Some(i) => {
                stored.created_at_ms = self.tasks[i].created_at_ms;
                self.tasks.set(i, stored);
                proof {
                    assert(snapshots_view(self.tasks@) =~= snapshots_view(old_tasks).update(
                        i as int,
                        SnapshotView {
                            created_at_ms: snapshots_view(old_tasks)[i as int].created_at_ms,
                            ..snapshot.view()
                        },
                    ));
                }
            },
            None => {
                self.tasks.push(stored);
                proof {
                    assert(snapshots_view(self.tasks@) =~= snapshots_view(old_tasks).push(
                        snapshot.view(),
                    ));
                }
            },
        }
        let task_id = snapshot.task_id.clone();
        let record = TaskEvent {
            event_id: event.event_id.clone(),
            task_id: snapshot.task_id.clone(),
            sequence: next_sequence,
            event_kind: event.event_kind.clone(),
            payload: event.payload.duplicate(),
            projection: snapshot.duplicate(),
            occurred_at_ms: event.occurred_at_ms,
        };
        self.events.push(record);
        let result = TaskEvent {
            event_id: event.event_id,
            task_id,
            sequence: next_sequence,
            event_kind: event.event_kind,
            payload: event.payload,
            projection: snapshot,
            occurred_at_ms: event.occurred_at_ms,
        };
        proof {
            assert(events_view(self.events@) =~= events_view(old_events).push(result.view()));
            if store_wf(start) {
                lemma_persist_preserves_wf(start, given, appended);
            }
        }
        Ok(result)
    }

    /// The events of a task, in order of their sequence numbers.
    pub fn load_task_events(&self, task_id: &str) -> (r: StorageResult<Vec<TaskEvent>>)
        ensures
            r matches Ok(v) && events_view(v@) == task_events(self.view().events, task_id@),
    {
        let wanted = String::from_str(task_id);
        let ghost p = of_task(task_id@);
        let mut out: Vec<TaskEvent> = Vec::new();
        let mut i: usize = 0;
        while i < self.events.len()
            invariant
                i <= self.events@.len(),
                wanted@ == task_id@,
                p == of_task(task_id@),
                events_view(out@) == self.view().events.take(i as int).filter(p),
            decreases self.events@.len() - i,
        {
            let ghost before = out@;
            proof {
                assert(self.view().events.take(i + 1) =~= self.view().events.take(i as int).push(
                    self.view().events[i as int],
                ));
                self.view().events.take(i as int).lemma_filter_push(self.view().events[i as int], p);
            }
            if self.events[i].task_id == wanted {
                out.push(self.events[i].duplicate());
                proof {
                    assert(events_view(out@) =~= events_view(before).push(self.view().events[i as int]));
                }
            }
            i = i + 1;
        }
        proof {
            assert(self.view().events.take(self.events@.len() as int) =~= self.view().events);
        }
        Ok(sort_by_sequence(out))
    }

    /// Rebuilds the projection of a task from its recorded events, checking that
    /// the stream is numbered 1, 2, ... without gaps and belongs to the task.
    pub fn replay_task(&self, task_id: &str) -> (r: StorageResult<TaskSnapshot>)
        ensures
            task_events(self.view().events, task_id@).len() == 0 ==> (r matches Err(
                StorageError::TaskNotFound(t),
            ) && t@ == task_id@),
            task_events(self.view().events, task_id@).len() > 0 ==> (first_stream_defect(
                task_id@,
                task_events(self.view().events, task_id@),
                0,
            ) matches Some(reason) ==> (r matches Err(
                StorageError::InvalidEventStream { task_id: t, reason: m },
            ) && t@ == task_id@ && m@ == reason)),
            task_events(self.view().events, task_id@).len() > 0 && first_stream_defect(
                task_id@,
                task_events(self.view().events, task_id@),
                0,
            ) is None ==> (r matches Ok(s) && s.view() == task_events(
                self.view().events,
                task_id@,
            ).last().projection),
            store_wf(self.view()) && task_events(self.view().events, task_id@).len() > 0 ==> (r matches Ok(s)
                && task_row(self.view().tasks, task_id@) matches Some(i) && s.view() == (SnapshotView {
                created_at_ms: s.view().created_at_ms,
                ..self.view().tasks[i]
            })),
    {
        proof {
            if store_wf(self.view()) && task_events(self.view().events, task_id@).len() > 0 {
                lemma_replay_matches_snapshot(self.view(), task_id@);
            }
        }
        let events = self.load_task_events(task_id)?;
        replay_events(task_id, &events)
    }

    fn find_session(&self, session_id: &str) -> (r: Option<usize>)
        ensures
            match r {
                Some(i) => i < self.sessions@.len() && session_row(self.view().sessions, session_id@)
                    == Some(i as int),
                None => session_row(self.view().sessions, session_id@) is None,
            },
    {
        let wanted = String::from_str(session_id);
        let ghost p = is_session(session_id@);
        let mut i: usize = 0;
        while i < self.sessions.len()
            invariant
                i <= self.sessions@.len(),
                wanted@ == session_id@,
                p == is_session(session_id@),
                forall|j: int| 0 <= j < i ==> !p(#[trigger] self.view().sessions[j]),
            decreases self.sessions@.len() - i,
        {
            if self.sessions[i].session_id == wanted {
                proof {
                    lemma_first_index_found(self.view().sessions, p, i as int);
                }
                return Some(i);
            }
            i = i + 1;
        }
        proof {
            lemma_first_index_none(self.view().sessions, p);
        }
        None
    }

    /// Saves an agent session checkpoint, replacing an earlier one of the same
    /// session (whose creation time is kept).
    pub fn save_agent_checkpoint(&mut self, checkpoint: &AgentSessionCheckpoint) -> (r: StorageResult<()>)
        ensures
            r is Ok,
            final(self).view() == (StorageView {
                sessions: upsert_checkpoint(old(self).view().sessions, checkpoint.view()),
                ..old(self).view()
            }),
            store_wf(old(self).view()) ==> store_wf(final(self).view()),
    {
        let ghost start = self.view();
        let ghost before = self.sessions@;
        let mut row = checkpoint.duplicate();
        match self.find_session(checkpoint.session_id.as_str()) {
            Some(i) => {
                row.created_at_ms = self.sessions[i].created_at_ms;
                self.sessions.set(i, row);
                proof {
                    assert(checkpoints_view(self.sessions@) =~= checkpoints_view(before).update(
                        i as int,
                        CheckpointView {
                            created_at_ms: checkpoints_view(before)[i as int].created_at_ms,
                            ..checkpoint.view()
                        },
                    ));
                }
            },
            None => {
                self.sessions.push(row);
                proof {
                    assert(checkpoints_view(self.sessions@) =~= checkpoints_view(before).push(
                        checkpoint.view(),
                    ));
                }
            },
        }
        proof {
            lemma_wf_rests_on_tasks_and_events(start, self.view());
        }
        Ok(())
    }

    /// The saved checkpoint of a session, if any.
    pub fn load_agent_checkpoint(&self, session_id: &str) -> (r: StorageResult<Option<AgentSessionCheckpoint>>)
        ensures
            r matches Ok(found) && match session_row(self.view().sessions, session_id@) {
                Some(i) => found matches Some(c) && c.view() == self.view().sessions[i],
                None => found is None,
            },
    {
        match self.find_session(session_id) {
            Some(i) => Ok(Some(self.sessions[i].duplicate())),
            None => Ok(None),
        }
    }

    fn find_attempt(&self, attempt_id: &str) -> (r: Option<usize>)
        ensures
            match r {
                Some(i) => i < self.attempts@.len() && attempt_row(self.view().attempts, attempt_id@)
                    == Some(i as int),
                None => attempt_row(self.view().attempts, attempt_id@) is None,
            },
    {
        let wanted = String::from_str(attempt_id);
        let ghost p = is_attempt(attempt_id@);
        let mut i: usize = 0;
        while i < self.attempts.len()
            invariant
                i <= self.attempts@.len(),
                wanted@ == attempt_id@,
                p == is_attempt(attempt_id@),
                forall|j: int| 0 <= j < i ==> !p(#[trigger] self.view().attempts[j]),
            decreases self.attempts@.len() - i,
        {
            if self.attempts[i].attempt_id == wanted {
                proof {
                    lemma_first_index_found(self.view().attempts, p, i as int);
                }
                return Some(i);
            }
            i = i + 1;
        }
        proof {
            lemma_first_index_none(self.view().attempts, p);
        }
        None
    }

    /// Records a tool attempt. For an attempt already recorded, only its
    /// status, result type, receipt, verification and finish time are updated.
    pub fn save_tool_attempt(&mut self, attempt: &ToolAttempt) -> (r: StorageResult<()>)
        ensures
            r is Ok,
            final(self).view() == (StorageView {
                attempts: upsert_attempt(old(self).view().attempts, attempt.view()),
                ..old(self).view()
            }),
            store_wf(old(self).view()) ==> store_wf(final(self).view()),
            attempt_row(final(self).view().attempts, attempt.attempt_id@) matches Some(i) && {
                let row = final(self).view().attempts[i];
                &&& row.status == attempt.status
                &&& row.result_type == attempt.result_type
                &&& row.receipt == attempt.view().receipt
                &&& row.verification == attempt.view().verification
                &&& row.finished_at_ms == attempt.finished_at_ms
            },
    {
        let ghost start = self.view();
        let ghost before = self.attempts@;
        match self.find_attempt(attempt.attempt_id.as_str()) {
            Some(i) => {
                let mut row = self.attempts[i].duplicate();
                row.status = attempt.status;
                row.result_type = attempt.result_type;
                row.receipt = crate::store_models::copy_opt_json(&attempt.receipt);
                row.verification = crate::store_models::copy_opt_json(&attempt.verification);
                row.finished_at_ms = attempt.finished_at_ms;
                self.attempts.set(i, row);
                proof {
                    let a = attempt.view();
                    assert(attempts_view(self.attempts@) =~= attempts_view(before).update(
                        i as int,
                        AttemptView {
                            status: a.status,
                            result_type: a.result_type,
                            receipt: a.receipt,
                            verification: a.verification,
                            finished_at_ms: a.finished_at_ms,
                            ..attempts_view(before)[i as int]
                        },
                    ));
                }
            },
            None => {
                self.attempts.push(attempt.duplicate());
                proof {
                    assert(attempts_view(self.attempts@) =~= attempts_view(before).push(
                        attempt.view(),
                    ));
                }
            },
        }
        proof {
            lemma_wf_rests_on_tasks_and_events(start, self.view());
            lemma_attempt_read_after_save(start.attempts, attempt.view());
        }
        Ok(())
    }

    /// Decides what a restarted worker may do about the call `(task_id,
    /// idempotency_key)`: reuse the latest succeeded attempt; otherwise, if the
    /// latest attempt has no definite end (started, unknown, needs the user),
    /// reconcile it before any retry; otherwise execute.
    pub fn tool_replay_decision(&self, task_id: &str, idempotency_key: &str) -> (r: StorageResult<
        ToolReplayDecision,
    >)
        ensures
            r matches Ok(d) && d.view() == replay_decision(
                self.view().attempts,
                task_id@,
                idempotency_key@,
            ),
    {
        let wanted_task = String::from_str(task_id);
        let wanted_key = String::from_str(idempotency_key);
        let ghost attempts = self.view().attempts;
        let mut best_succeeded: Option<usize> = None;
        let mut best_any: Option<usize> = None;
        let mut i: usize = 0;
        while i < self.attempts.len()
            invariant
                i <= self.attempts@.len(),
                attempts == self.view().attempts,
                wanted_task@ == task_id@,
                wanted_key@ == idempotency_key@,
                match best_succeeded {
                    Some(b) => b < i && latest_attempt(attempts, task_id@, idempotency_key@, true, i as int)
                        == Some(b as int),
                    None => latest_attempt(attempts, task_id@, idempotency_key@, true, i as int) is None,
                },
                match best_any {
                    Some(b) => b < i && latest_attempt(attempts, task_id@, idempotency_key@, false, i as int)
                        == Some(b as int),
                    None => latest_attempt(attempts, task_id@, idempotency_key@, false, i as int) is None,
                },
            decreases self.attempts@.len() - i,
        {
            let a = &self.attempts[i];
            if a.task_id == wanted_task && a.idempotency_key == wanted_key {
                let beats_any = match best_any {
                    Some(b) => a.attempt_number > self.attempts[b].attempt_number,
                    None => true,
                };
                if beats_any {
                    best_any = Some(i);
                }
                let succeeded = match a.status {
                    ToolAttemptStatus::Succeeded => true,
                    _ => false,
                };
                if succeeded {
                    let beats_succeeded = match best_succeeded {
                        Some(b) => a.attempt_number > self.attempts[b].attempt_number,
                        None => true,
                    };
                    if beats_succeeded {
                        best_succeeded = Some(i);
                    }
                }
            }
            i = i + 1;
        }
        match best_succeeded {
            Some(b) => Ok(ToolReplayDecision::ReuseCompleted(self.attempts[b].duplicate())),
            None => match best_any {
                Some(b) => {
                    let incomplete = match self.attempts[b].status {
                        ToolAttemptStatus::Started => true,
                        ToolAttemptStatus::Unknown => true,
                        ToolAttemptStatus::NeedsUser => true,
                        _ => false,
                    };
                    if incomplete {
                        Ok(ToolReplayDecision::ReconcileIncomplete(self.attempts[b].duplicate()))
                    } else {
                        Ok(ToolReplayDecision::Execute)
                    }
                },
                None => Ok(ToolReplayDecision::Execute),
            },
        }
    }
}

proof fn lemma_defect_free_prefix(task_id: Seq<char>, events: Seq<EventView>, from: int)
    requires
        0 <= from < events.len(),
        stream_defect(task_id, from, events[from]) is None,
    ensures
        first_stream_defect(task_id, events, from) == first_stream_defect(task_id, events, from + 1),
{
}

fn stream_error(task_id: &str, reason: String) -> (r: StorageResult<TaskSnapshot>)
    ensures
        r matches Err(StorageError::InvalidEventStream { task_id: t, reason: m }) && t@ == task_id@
            && m == reason,
{
    Err(StorageError::InvalidEventStream { task_id: String::from_str(task_id), reason })
}

/// Orders events by sequence number, keeping the order of equal numbers.
fn sort_by_sequence(v: Vec<TaskEvent>) -> (r: Vec<TaskEvent>)
    ensures
        events_view(r@) == by_sequence(events_view(v@)),
{
    let ghost ev = events_view(v@);
    let mut out: Vec<TaskEvent> = Vec::new();
    let mut i: usize = 0;
    while i < v.len()
        invariant
            i <= v@.len(),
            ev == events_view(v@),
            events_view(out@) == by_sequence(ev.take(i as int)),
        decreases v@.len() - i,
    {
        let e = v[i].duplicate();
        let ghost ov = events_view(out@);
        let ghost later = later_than(e.view());
        proof {
            assert(ev.take(i + 1).drop_last() =~= ev.take(i as int));
            assert(ev.take(i + 1).last() == e.view());
        }
        let mut p: usize = 0;
        while p < out.len() && !(out[p].sequence > e.sequence)
            invariant
                p <= out@.len(),
                ov == events_view(out@),
                later == later_than(e.view()),
                forall|j: int| 0 <= j < p ==> !later(#[trigger] ov[j]),
            decreases out@.len() - p,
        {
            p = p + 1;
        }
        if p < out.len() {
            proof {
                lemma_first_index_found(ov, later, p as int);
            }
            let ghost before = out@;
            out.insert(p, e);
            proof {
                assert(events_view(out@) =~= ov.insert(p as int, e.view())) by {
                    assert forall|k: int| 0 <= k < out@.len() implies #[trigger] events_view(out@)[k]
                        == ov.insert(p as int, e.view())[k] by {
                        if k < p {
                            assert(out@[k] == before[k]);
                        } else if k > p {
                            assert(out@[k] == before[k - 1]);
                        }
                    }
                }
            }
        } else {
            proof {
                lemma_first_index_none(ov, later);
            }
            let ghost before = out@;
            out.push(e);
            proof {
                assert(events_view(out@) =~= ov.push(e.view()));
            }
        }
        i = i + 1;
    }
    proof {
        assert(ev.take(v@.len() as int) =~= ev);
    }
    out
}

/// Rebuilds a task's projection from its events in stream order: the
/// projection recorded with the last event, provided the events are numbered
/// 1, 2, ... without gaps, all belong to `task_id`, and each projection carries
/// its event's number. Reports the first event that breaks this.
pub fn replay_events(task_id: &str, events: &Vec<TaskEvent>) -> (r: StorageResult<TaskSnapshot>)
    ensures
        events@.len() == 0 ==> (r matches Err(StorageError::TaskNotFound(t)) && t@ == task_id@),
        events@.len() > 0 ==> (first_stream_defect(task_id@, events_view(events@), 0) matches Some(
            reason,
        ) ==> (r matches Err(StorageError::InvalidEventStream { task_id: t, reason: m }) && t@
            == task_id@ && m@ == reason)),
        events@.len() > 0 && first_stream_defect(task_id@, events_view(events@), 0) is None ==> (r matches Ok(
            s,
        ) && s.view() == events_view(events@).last().projection),
{
    if events.len() == 0 {
        return Err(StorageError::TaskNotFound(String::from_str(task_id)));
    }
    let wanted = String::from_str(task_id);
    let ghost evs = events_view(events@);
    let mut i: usize = 0;
    while i < events.len()
        invariant
            i <= events@.len(),
            evs == events_view(events@),
            wanted@ == task_id@,
            first_stream_defect(task_id@, evs, 0) == first_stream_defect(task_id@, evs, i as int),
        decreases events@.len() - i,
    {
        let e = &events[i];
        let expected: u64 = (i as u64) + 1;
        if (e.sequence as i128) != (expected as i128) {
            let mut reason = String::from_str("expected sequence ");
            push_decimal_u64(&mut reason, expected);
            reason.append(", found ");
            push_signed_decimal(&mut reason, e.sequence);
            proof {
                assert(signed_decimal(i + 1) == crate::text::decimal(expected as nat));
                assert(reason@ =~= stream_defect(task_id@, i as int, evs[i as int])->0);
            }
            return stream_error(task_id, reason);
        }
        if !(e.task_id == wanted) || !(e.projection.task_id == wanted) {
            let mut reason = String::from_str("event ");
            reason.append(e.event_id.as_str());
            reason.append(" belongs to another task");
            proof {
                assert(reason@ =~= stream_defect(task_id@, i as int, evs[i as int])->0);
            }
            return stream_error(task_id, reason);
        }
        if e.projection.last_event_sequence != e.sequence {
            let mut reason = String::from_str("projection sequence ");
            push_signed_decimal(&mut reason, e.projection.last_event_sequence);
            reason.append(" does not match event sequence ");
            push_signed_decimal(&mut reason, e.sequence);
            proof {
                assert(reason@ =~= stream_defect(task_id@, i as int, evs[i as int])->0);
            }
            return stream_error(task_id, reason);
        }
        proof {
            lemma_defect_free_prefix(task_id@, evs, i as int);
        }
        i = i + 1;
    }
    let last = events.len() - 1;
    Ok(events[last].projection.duplicate())
}

} // verus!

verus! {

/// The stored state of task `t` agrees with its event stream: the stream is
/// numbered 1, 2, ... without gaps, and the task has a row exactly when it has
/// events; that row is at the version of the last event and equals the
/// projection recorded with it, apart from the creation time.
pub open spec fn task_consistent(v: StorageView, t: Seq<char>) -> bool {
    let evs = task_events(v.events, t);
    &&& first_stream_defect(t, evs, 0) is None
    &&& match task_row(v.tasks, t) {
        Some(i) => evs.len() > 0 && v.tasks[i].last_event_sequence == evs.len() && evs.last().projection
            == (SnapshotView { created_at_ms: evs.last().projection.created_at_ms, ..v.tasks[i] }),
        None => evs.len() == 0,
    }
}

/// Every task of the store agrees with its event stream.
pub open spec fn store_wf(v: StorageView) -> bool {
    forall|t: Seq<char>| #[trigger] task_consistent(v, t)
}

proof fn lemma_first_index_from_same<A>(s1: Seq<A>, s2: Seq<A>, p: spec_fn(A) -> bool, from: int)
    requires
        0 <= from,
        s1.len() == s2.len(),
        forall|j: int| 0 <= j < s1.len() ==> p(#[trigger] s1[j]) == p(s2[j]),
    ensures
        first_index_from(s1, p, from) == first_index_from(s2, p, from),
    decreases s1.len() - from,
{
    if from < s1.len() {
        lemma_first_index_from_same(s1, s2, p, from + 1);
    }
}

proof fn lemma_first_index_push_other<A>(s: Seq<A>, p: spec_fn(A) -> bool, x: A, from: int)
    requires
        0 <= from,
        !p(x),
    ensures
        first_index_from(s.push(x), p, from) == first_index_from(s, p, from),
    decreases s.len() + 1 - from,
{
    if from < s.len() {
        assert(s.push(x)[from] == s[from]);
        lemma_first_index_push_other(s, p, x, from + 1);
    } else if from == s.len() {
        assert(s.push(x)[from] == x);
        assert(first_index_from(s.push(x), p, from + 1) is None);
    }
}

proof fn lemma_stream_push_from(t: Seq<char>, s: Seq<EventView>, x: EventView, from: int)
    requires
        0 <= from <= s.len(),
        first_stream_defect(t, s, from) is None,
        stream_defect(t, s.len() as int, x) is None,
    ensures
        first_stream_defect(t, s.push(x), from) is None,
    decreases s.len() - from,
{
    if from < s.len() {
        assert(s.push(x)[from] == s[from]);
        lemma_stream_push_from(t, s, x, from + 1);
    } else {
        assert(s.push(x)[from] == x);
        assert(first_stream_defect(t, s.push(x), from + 1) is None);
    }
}

/// Events of a gap-free stream are numbered by their position.
proof fn lemma_stream_numbers(t: Seq<char>, s: Seq<EventView>, from: int)
    requires
        0 <= from,
        first_stream_defect(t, s, from) is None,
    ensures
        forall|k: int| from <= k < s.len() ==> (#[trigger] s[k]).sequence == k + 1,
    decreases s.len() - from,
{
    if from < s.len() {
        lemma_stream_numbers(t, s, from + 1);
    }
}

/// An event numbered past a gap-free stream goes to its end.
proof fn lemma_append_after_stream(t: Seq<char>, s: Seq<EventView>, e: EventView)
    requires
        first_stream_defect(t, s, 0) is None,
        e.sequence == s.len() + 1,
    ensures
        insert_by_sequence(s, e) == s.push(e),
{
    lemma_stream_numbers(t, s, 0);
    assert forall|j: int| 0 <= j < s.len() implies !later_than(e)(#[trigger] s[j]) by {}
    lemma_first_index_none(s, later_than(e));
}

/// Consistency speaks of task rows and events only: checkpoints and tool
/// attempts do not affect it.
pub proof fn lemma_wf_rests_on_tasks_and_events(v: StorageView, w: StorageView)
    requires
        v.tasks == w.tasks,
        v.events == w.events,
    ensures
        store_wf(v) == store_wf(w),
{
    assert forall|t: Seq<char>| #[trigger] task_consistent(v, t) == task_consistent(w, t) by {}
    if store_wf(v) {
        assert forall|t: Seq<char>| #[trigger] task_consistent(w, t) by {
            assert(task_consistent(v, t));
        }
    }
    if store_wf(w) {
        assert forall|t: Seq<char>| #[trigger] task_consistent(v, t) by {
            assert(task_consistent(w, t));
        }
    }
}

/// An empty store is consistent.
pub proof fn lemma_empty_store_wf(v: StorageView)
    requires
        v.tasks.len() == 0,
        v.events.len() == 0,
    ensures
        store_wf(v),
{
    assert forall|t: Seq<char>| #[trigger] task_consistent(v, t) by {
        reveal(Seq::filter);
        assert(task_events(v.events, t).len() == 0);
        lemma_first_index_none(v.tasks, is_task(t));
    }
}

/// Appending an event with no version conflict keeps every task consistent
/// with its event stream.
pub proof fn lemma_persist_preserves_wf(v: StorageView, s: SnapshotView, e: NewEventView)
    requires
        store_wf(v),
        sequence_conflict(v.tasks, s) is None,
        s.last_event_sequence < i64::MAX,
    ensures
        store_wf(
            StorageView {
                tasks: upsert_task(v.tasks, committed_projection(s)),
                events: v.events.push(committed_event(s, e)),
                ..v
            },
        ),
{
    let proj = committed_projection(s);
    let ev = committed_event(s, e);
    let w = StorageView {
        tasks: upsert_task(v.tasks, proj),
        events: v.events.push(ev),
        ..v
    };
    let owner = s.task_id;
    assert forall|t: Seq<char>| #[trigger] task_consistent(w, t) by {
        assert(task_consistent(v, t));
        let p = is_task(t);
        v.events.lemma_filter_push(ev, of_task(t));
        lemma_first_index_sound(v.tasks, p);
        if t == owner {
            let old_evs = task_events(v.events, t);
            let new_evs = task_events(w.events, t);
            let f = v.events.filter(of_task(t));
            assert(f.push(ev).drop_last() =~= f);
            assert(new_evs == insert_by_sequence(old_evs, ev));
            match task_row(v.tasks, t) {
                Some(i) => {
                    assert(s.last_event_sequence == old_evs.len());
                    lemma_append_after_stream(t, old_evs, ev);
                    assert(new_evs == old_evs.push(ev));
                    assert(stream_defect(t, old_evs.len() as int, ev) is None);
                    lemma_stream_push_from(t, old_evs, ev, 0);
                    let row = SnapshotView { created_at_ms: v.tasks[i].created_at_ms, ..proj };
                    assert(w.tasks == v.tasks.update(i, row));
                    lemma_first_index_sound(w.tasks, p);
                    lemma_first_index_found(w.tasks, p, i);
                    assert(new_evs.last() == ev);
                },
                None => {
                    assert(s.last_event_sequence == 0);
                    assert(old_evs.len() == 0);
                    lemma_append_after_stream(t, old_evs, ev);
                    assert(new_evs == old_evs.push(ev));
                    assert(stream_defect(t, 0, ev) is None);
                    lemma_stream_push_from(t, old_evs, ev, 0);
                    assert(w.tasks == v.tasks.push(proj));
                    lemma_first_index_found(w.tasks, p, v.tasks.len() as int);
                    assert(new_evs.last() == ev);
                },
            }
        } else {
            assert(task_events(w.events, t) == task_events(v.events, t));
            match task_row(v.tasks, owner) {
                Some(i) => {
                    let row = SnapshotView { created_at_ms: v.tasks[i].created_at_ms, ..proj };
                    lemma_first_index_sound(v.tasks, is_task(owner));
                    assert forall|j: int| 0 <= j < v.tasks.len() implies p(
                        #[trigger] v.tasks.update(i, row)[j],
                    ) == p(v.tasks[j]) by {
                        if j == i {
                            assert(v.tasks[i].task_id == owner);
                        }
                    }
                    lemma_first_index_from_same(v.tasks.update(i, row), v.tasks, p, 0);
                },
                None => {
                    lemma_first_index_push_other(v.tasks, p, proj, 0);
                },
            }
        }
    }
}

/// In a consistent store, replaying a task that has events succeeds and
/// yields the task's current row, apart from the creation time, which the
/// row keeps from the first append.
pub proof fn lemma_replay_matches_snapshot(v: StorageView, task_id: Seq<char>)
    requires
        store_wf(v),
        task_events(v.events, task_id).len() > 0,
    ensures
        first_stream_defect(task_id, task_events(v.events, task_id), 0) is None,
        task_row(v.tasks, task_id) matches Some(i) && task_events(v.events, task_id).last().projection
            == (SnapshotView {
            created_at_ms: task_events(v.events, task_id).last().projection.created_at_ms,
            ..v.tasks[i]
        }),
{
    assert(task_consistent(v, task_id));
}

} // verus!

verus! {

/// Reading a session back after saving a checkpoint for it gives the saved
/// checkpoint, apart from the creation time of an earlier save.
pub proof fn lemma_checkpoint_read_after_save(sessions: Seq<CheckpointView>, c: CheckpointView)
    ensures
        session_row(upsert_checkpoint(sessions, c), c.session_id) matches Some(i)
            && upsert_checkpoint(sessions, c)[i] == (CheckpointView {
            created_at_ms: upsert_checkpoint(sessions, c)[i].created_at_ms,
            ..c
        }),
{
    let p = is_session(c.session_id);
    lemma_first_index_sound(sessions, p);
    match session_row(sessions, c.session_id) {
        Some(i) => {
            let w = upsert_checkpoint(sessions, c);
            lemma_first_index_found(w, p, i);
        },
        None => {
            let w = upsert_checkpoint(sessions, c);
            lemma_first_index_found(w, p, sessions.len() as int);
        },
    }
}

/// What `latest_attempt` picks: a matching attempt with the highest attempt
/// number, the first such one; or none when no attempt matches.
pub proof fn lemma_latest_attempt_sound(
    attempts: Seq<AttemptView>,
    task_id: Seq<char>,
    key: Seq<char>,
    only_succeeded: bool,
    n: int,
)
    requires
        0 <= n <= attempts.len(),
    ensures
        latest_attempt(attempts, task_id, key, only_succeeded, n) matches Some(i) ==> {
            &&& 0 <= i < n
            &&& attempt_matches(attempts[i], task_id, key, only_succeeded)
            &&& forall|j: int|
                0 <= j < n && attempt_matches(#[trigger] attempts[j], task_id, key, only_succeeded)
                    ==> attempts[j].attempt_number <= attempts[i].attempt_number
            &&& forall|j: int|
                0 <= j < i && attempt_matches(#[trigger] attempts[j], task_id, key, only_succeeded)
                    ==> attempts[j].attempt_number < attempts[i].attempt_number
        },
        latest_attempt(attempts, task_id, key, only_succeeded, n) is None ==> forall|j: int|
            0 <= j < n ==> !attempt_matches(#[trigger] attempts[j], task_id, key, only_succeeded),
    decreases n,
{
    if n > 0 {
        lemma_latest_attempt_sound(attempts, task_id, key, only_succeeded, n - 1);
    }
}

/// A call with a recorded succeeded attempt reuses it; a call whose latest
/// attempt has no definite end is reconciled before any retry; a call whose
/// latest attempt failed or was cancelled (or that has no attempt) may run.
pub proof fn lemma_replay_decision_cases(attempts: Seq<AttemptView>, task_id: Seq<char>, key: Seq<char>)
    ensures
        (replay_decision(attempts, task_id, key) is ReuseCompleted) <==> exists|j: int|
            0 <= j < attempts.len() && attempt_matches(#[trigger] attempts[j], task_id, key, true),
        replay_decision(attempts, task_id, key) matches DecisionView::ReuseCompleted(a) ==> a.status is Succeeded
            && a.task_id == task_id && a.idempotency_key == key,
        replay_decision(attempts, task_id, key) matches DecisionView::ReconcileIncomplete(a) ==> is_incomplete(
            a.status,
        ) && a.task_id == task_id && a.idempotency_key == key,
        (replay_decision(attempts, task_id, key) is Execute) ==> forall|j: int|
            0 <= j < attempts.len() ==> !attempt_matches(#[trigger] attempts[j], task_id, key, true),
{
    lemma_latest_attempt_sound(attempts, task_id, key, true, attempts.len() as int);
    lemma_latest_attempt_sound(attempts, task_id, key, false, attempts.len() as int);
}

} // verus!

verus! {

/// Whether attempt `i` is the call's latest attempt: it belongs to the call
/// `(task_id, key)`, no attempt of the call has a higher attempt number, and
/// no earlier row of the call has the same number.
pub open spec fn is_latest_of_call(attempts: Seq<AttemptView>, task_id: Seq<char>, key: Seq<char>, i: int) -> bool {
    &&& 0 <= i < attempts.len()
    &&& attempts[i].task_id == task_id && attempts[i].idempotency_key == key
    &&& forall|j: int|
        0 <= j < attempts.len() && (#[trigger] attempts[j]).task_id == task_id && attempts[j].idempotency_key
            == key ==> attempts[j].attempt_number <= attempts[i].attempt_number
    &&& forall|j: int|
        0 <= j < i && (#[trigger] attempts[j]).task_id == task_id && attempts[j].idempotency_key == key
            ==> attempts[j].attempt_number < attempts[i].attempt_number
}

/// What a restarted worker is told about a call, by the status of its
/// attempts. When no attempt of the call succeeded:
/// - if its latest attempt is started, of unknown outcome or waiting for the
///   user (no definite end), that attempt must be reconciled;
/// - if its latest attempt failed or was cancelled, or there is none, the
///   call may run.
/// Reconciliation is only ever asked for an attempt without definite end, and
/// running is only ever allowed when no attempt succeeded and the latest one
/// failed or was cancelled (or there is none).
pub proof fn lemma_replay_decision_by_status(attempts: Seq<AttemptView>, task_id: Seq<char>, key: Seq<char>)
    ensures
        replay_decision(attempts, task_id, key) matches DecisionView::ReconcileIncomplete(a) ==> (a.status is Started
            || a.status is Unknown || a.status is NeedsUser),
        (replay_decision(attempts, task_id, key) is Execute) ==> {
            &&& forall|j: int|
                0 <= j < attempts.len() && (#[trigger] attempts[j]).task_id == task_id
                    && attempts[j].idempotency_key == key ==> !(attempts[j].status is Succeeded)
            &&& forall|i: int|
                is_latest_of_call(attempts, task_id, key, i) ==> (attempts[i].status is Failed
                    || attempts[i].status is Cancelled)
        },
        forall|i: int|
            is_latest_of_call(attempts, task_id, key, i) && (forall|j: int|
                0 <= j < attempts.len() && (#[trigger] attempts[j]).task_id == task_id
                    && attempts[j].idempotency_key == key ==> !(attempts[j].status is Succeeded)) ==> {
                &&& (attempts[i].status is Started || attempts[i].status is Unknown || attempts[i].status is NeedsUser)
                    ==> replay_decision(attempts, task_id, key) == DecisionView::ReconcileIncomplete(attempts[i])
                &&& (attempts[i].status is Failed || attempts[i].status is Cancelled) ==> (replay_decision(
                    attempts,
                    task_id,
                    key,
                ) is Execute)
            },
{
    let n = attempts.len() as int;
    lemma_latest_attempt_sound(attempts, task_id, key, true, n);
    lemma_latest_attempt_sound(attempts, task_id, key, false, n);
    let ok = latest_attempt(attempts, task_id, key, true, n);
    let any = latest_attempt(attempts, task_id, key, false, n);
    if let Some(l) = any {
        assert(is_latest_of_call(attempts, task_id, key, l)) by {
            assert forall|j: int|
                0 <= j < attempts.len() && (#[trigger] attempts[j]).task_id == task_id
                    && attempts[j].idempotency_key == key implies attempts[j].attempt_number
                <= attempts[l].attempt_number by {
                assert(attempt_matches(attempts[j], task_id, key, false));
            }
            assert forall|j: int|
                0 <= j < l && (#[trigger] attempts[j]).task_id == task_id && attempts[j].idempotency_key == key
                    implies attempts[j].attempt_number < attempts[l].attempt_number by {
                assert(attempt_matches(attempts[j], task_id, key, false));
            }
        }
        assert forall|i: int| is_latest_of_call(attempts, task_id, key, i) implies i == l by {
            if i < l {
                assert(attempts[i].attempt_number < attempts[l].attempt_number);
            } else if l < i {
                assert(attempt_matches(attempts[l], task_id, key, false));
                assert(attempts[l].attempt_number < attempts[i].attempt_number);
            }
        }
    } else {
        assert forall|i: int| !is_latest_of_call(attempts, task_id, key, i) by {
            if 0 <= i < attempts.len() && attempts[i].task_id == task_id && attempts[i].idempotency_key == key {
                assert(attempt_matches(attempts[i], task_id, key, false));
            }
        }
    }
    if ok is None {
        assert forall|j: int|
            0 <= j < attempts.len() && (#[trigger] attempts[j]).task_id == task_id && attempts[j].idempotency_key
                == key implies !(attempts[j].status is Succeeded) by {
            if attempts[j].status is Succeeded {
                assert(attempt_matches(attempts[j], task_id, key, true));
            }
        }
    } else {
        let s = ok->0;
        assert(attempt_matches(attempts[s], task_id, key, true));
    }
}

/// Reading an attempt back after saving it: the row of its id then carries
/// the saved status, result type, receipt, verification and finish time. A
/// new attempt is added as a whole at the end; for a known one, its identity,
/// call, number, risk, input digest, target, policy and start time stay as
/// first recorded, and every other row is left alone.
pub proof fn lemma_attempt_read_after_save(attempts: Seq<AttemptView>, a: AttemptView)
    ensures
        ({
            let after = upsert_attempt(attempts, a);
            &&& attempt_row(after, a.attempt_id) matches Some(i) && {
                &&& after[i].attempt_id == a.attempt_id
                &&& after[i].status == a.status
                &&& after[i].result_type == a.result_type
                &&& after[i].receipt == a.receipt
                &&& after[i].verification == a.verification
                &&& after[i].finished_at_ms == a.finished_at_ms
            }
            &&& attempt_row(attempts, a.attempt_id) is None ==> after == attempts.push(a)
            &&& attempt_row(attempts, a.attempt_id) matches Some(i) ==> {
                &&& after.len() == attempts.len()
                &&& forall|j: int| 0 <= j < attempts.len() && j != i ==> after[j] == attempts[j]
                &&& after[i].task_id == attempts[i].task_id
                &&& after[i].tool_name == attempts[i].tool_name
                &&& after[i].idempotency_key == attempts[i].idempotency_key
                &&& after[i].attempt_number == attempts[i].attempt_number
                &&& after[i].risk_level == attempts[i].risk_level
                &&& after[i].input_digest == attempts[i].input_digest
                &&& after[i].target == attempts[i].target
                &&& after[i].policy == attempts[i].policy
                &&& after[i].started_at_ms == attempts[i].started_at_ms
            }
        }),
{
    let p = is_attempt(a.attempt_id);
    let after = upsert_attempt(attempts, a);
    lemma_first_index_sound(attempts, p);
    match attempt_row(attempts, a.attempt_id) {
        Some(i) => {
            assert forall|j: int| 0 <= j < i implies !p(#[trigger] after[j]) by {
                assert(after[j] == attempts[j]);
            }
            lemma_first_index_found(after, p, i);
        },
        None => {
            assert forall|j: int| 0 <= j < attempts.len() implies !p(#[trigger] after[j]) by {
                assert(after[j] == attempts[j]);
            }
            lemma_first_index_found(after, p, attempts.len() as int);
        },
    }
}

/// When no attempt among the first `n` matches the call, there is no latest one.
pub proof fn lemma_latest_attempt_none(
    attempts: Seq<AttemptView>,
    task_id: Seq<char>,
    key: Seq<char>,
    only_succeeded: bool,
    n: int,
)
    requires
        0 <= n <= attempts.len(),
        forall|j: int| 0 <= j < n ==> !attempt_matches(#[trigger] attempts[j], task_id, key, only_succeeded),
    ensures
        latest_attempt(attempts, task_id, key, only_succeeded, n) is None,
    decreases n,
{
    if n > 0 {
        lemma_latest_attempt_none(attempts, task_id, key, only_succeeded, n - 1);
    }
}

} // verus!
