use semi_os::{
    DomainEventPayload, EvidenceReference, ResultType, Storage, StorageError, TaskLifecycle,
    TaskRuntime, TaskRuntimeError, TaskSnapshot, TaskStateMachine, VerificationRecord,
    VerificationStatus,
};

fn initial_task() -> TaskSnapshot {
    TaskSnapshot {
        task_id: "task_runtime".to_owned(),
        task_run_id: "run_runtime".to_owned(),
        trace_id: "trace_runtime".to_owned(),
        lifecycle: TaskLifecycle::Created,
        title: Some("测试任务".to_owned()),
        current_step: None,
        checkpoint: None,
        last_event_sequence: 0,
        created_at_ms: 100,
        updated_at_ms: 100,
    }
}

fn verification(method: &str) -> VerificationRecord {
    VerificationRecord {
        status: VerificationStatus::Passed,
        method: method.to_owned(),
        summary: "目标状态已读回".to_owned(),
        evidence: vec![EvidenceReference {
            kind: "state_readback".to_owned(),
            reference: "evidence_01".to_owned(),
        }],
        verified_at_ms: Some(400),
    }
}

#[test]
fn persists_then_publishes_legal_transitions() {
    let mut runtime = TaskRuntime::new(Storage::open_in_memory().expect("storage should open"));

    runtime
        .create(initial_task(), "evt_created", "voice")
        .expect("task should be created");
    runtime
        .transition(
            "task_runtime",
            TaskLifecycle::Understanding,
            "evt_understanding",
            200,
            None,
        )
        .expect("task should transition");
    runtime
        .transition("task_runtime", TaskLifecycle::Running, "evt_running", 300, None)
        .expect("task should transition");
    runtime
        .record(
            "task_runtime",
            "evt_progress",
            350,
            DomainEventPayload::TaskResultRecorded {
                result_type: ResultType::Unknown,
                summary: "尚未验证".to_owned(),
            },
        )
        .expect("structured event should persist");

    assert_eq!(runtime.drain_published().len(), 4);
    assert_eq!(
        runtime
            .storage()
            .load_task_events("task_runtime")
            .expect("events should load")
            .len(),
        4
    );
}

#[test]
fn rejects_illegal_and_unverified_completion() {
    let mut runtime = TaskRuntime::new(Storage::open_in_memory().expect("storage should open"));
    runtime
        .create(initial_task(), "evt_created", "voice")
        .expect("task should be created");
    assert!(matches!(
        runtime.transition(
            "task_runtime",
            TaskLifecycle::Completed,
            "evt_completed",
            200,
            None
        ),
        Err(TaskRuntimeError::CompletionRequiresVerification)
    ));
    assert!(matches!(
        runtime.transition("task_runtime", TaskLifecycle::Paused, "evt_paused", 200, None),
        Err(TaskRuntimeError::IllegalTransition { .. })
    ));
}

#[test]
fn model_prose_cannot_prove_completion() {
    let mut runtime = TaskRuntime::new(Storage::open_in_memory().expect("storage should open"));
    runtime
        .create(initial_task(), "evt_created", "voice")
        .expect("task should be created");
    runtime
        .transition(
            "task_runtime",
            TaskLifecycle::Understanding,
            "evt_understanding",
            200,
            None,
        )
        .expect("task should transition");
    runtime
        .transition("task_runtime", TaskLifecycle::Running, "evt_running", 250, None)
        .expect("task should transition");
    runtime
        .transition("task_runtime", TaskLifecycle::Verifying, "evt_verifying", 300, None)
        .expect("task should verify");

    assert!(matches!(
        runtime.complete_verified(
            "task_runtime",
            "evt_completed",
            400,
            &verification("model_prose")
        ),
        Err(TaskRuntimeError::InvalidVerification)
    ));
    runtime
        .complete_verified(
            "task_runtime",
            "evt_completed",
            400,
            &verification("state_readback"),
        )
        .expect("readback should prove completion");
}

#[test]
fn unknown_requires_reconciliation_before_resolution() {
    assert!(TaskStateMachine::can_transition(
        TaskLifecycle::Running,
        TaskLifecycle::Unknown
    ));
    assert!(!TaskStateMachine::can_transition(
        TaskLifecycle::Unknown,
        TaskLifecycle::Running
    ));
    assert!(TaskStateMachine::can_transition(
        TaskLifecycle::Unknown,
        TaskLifecycle::Reconciling
    ));
}

#[test]
fn creating_twice_is_an_illegal_transition() {
    let mut runtime = TaskRuntime::new(Storage::open_in_memory().expect("storage should open"));
    runtime
        .create(initial_task(), "evt_created", "voice")
        .expect("task should be created");
    assert!(matches!(
        runtime.create(initial_task(), "evt_created_again", "voice"),
        Err(TaskRuntimeError::IllegalTransition {
            from: TaskLifecycle::Created,
            to: TaskLifecycle::Created
        })
    ));
    let mut not_new = initial_task();
    not_new.task_id = "task_other".to_owned();
    not_new.lifecycle = TaskLifecycle::Running;
    assert!(matches!(
        runtime.create(not_new, "evt_other", "voice"),
        Err(TaskRuntimeError::IllegalTransition {
            from: TaskLifecycle::Running,
            to: TaskLifecycle::Created
        })
    ));
    assert_eq!(runtime.drain_published().len(), 1);
}

#[test]
fn refused_changes_publish_nothing_and_store_nothing() {
    let mut runtime = TaskRuntime::new(Storage::open_in_memory().expect("storage should open"));
    runtime
        .create(initial_task(), "evt_created", "voice")
        .expect("task should be created");
    let _ = runtime.drain_published();
    // A duplicate event id is refused by the store.
    let duplicate = runtime.transition(
        "task_runtime",
        TaskLifecycle::Understanding,
        "evt_created",
        200,
        None,
    );
    assert!(matches!(
        duplicate,
        Err(TaskRuntimeError::Storage(StorageError::DuplicateEvent { .. }))
    ));
    // An unknown task is reported as such.
    assert!(matches!(
        runtime.transition("task_missing", TaskLifecycle::Running, "evt_x", 200, None),
        Err(TaskRuntimeError::Storage(StorageError::TaskNotFound(ref id))) if id == "task_missing"
    ));
    assert!(runtime.drain_published().is_empty());
    let snapshot = runtime
        .storage()
        .load_task("task_runtime")
        .expect("query should succeed")
        .expect("task should exist");
    assert_eq!(snapshot.lifecycle, TaskLifecycle::Created);
    assert_eq!(snapshot.last_event_sequence, 1);
}

#[test]
fn published_events_carry_the_task_context_and_lifecycle_change() {
    let mut runtime = TaskRuntime::new(Storage::open_in_memory().expect("storage should open"));
    runtime
        .create(initial_task(), "evt_created", "voice")
        .expect("task should be created");
    let stored = runtime
        .transition(
            "task_runtime",
            TaskLifecycle::Understanding,
            "evt_understanding",
            200,
            Some("heard request".to_owned()),
        )
        .expect("task should transition");
    assert_eq!(stored.sequence, 2);
    assert_eq!(stored.event_kind, "task.lifecycle_changed");
    assert_eq!(stored.projection.lifecycle, TaskLifecycle::Understanding);
    assert_eq!(stored.projection.updated_at_ms, 200);
    let published = runtime.drain_published();
    assert_eq!(published.len(), 2);
    let last = &published[1];
    assert_eq!(last.context.event_id, "evt_understanding");
    assert_eq!(last.context.task_run_id.0, "run_runtime");
    assert_eq!(last.context.occurred_at_ms, 200);
    assert_eq!(
        last.payload,
        DomainEventPayload::TaskLifecycleChanged {
            from: Some(TaskLifecycle::Created),
            to: TaskLifecycle::Understanding,
            reason: Some("heard request".to_owned()),
        }
    );
    assert_eq!(last.kind(), "task.lifecycle_changed");
}

#[test]
fn completion_needs_evidence_and_passed_status() {
    let mut runtime = TaskRuntime::new(Storage::open_in_memory().expect("storage should open"));
    runtime
        .create(initial_task(), "evt_created", "voice")
        .expect("task should be created");
    let mut no_evidence = verification("state_readback");
    no_evidence.evidence.clear();
    assert!(matches!(
        runtime.complete_verified("task_runtime", "evt_c1", 300, &no_evidence),
        Err(TaskRuntimeError::InvalidVerification)
    ));
    let mut inconclusive = verification("state_readback");
    inconclusive.status = VerificationStatus::Inconclusive;
    assert!(matches!(
        runtime.complete_verified("task_runtime", "evt_c2", 300, &inconclusive),
        Err(TaskRuntimeError::InvalidVerification)
    ));
    // A positive verification still needs a lifecycle edge to Completed.
    assert!(matches!(
        runtime.complete_verified("task_runtime", "evt_c3", 300, &verification("state_readback")),
        Err(TaskRuntimeError::IllegalTransition {
            from: TaskLifecycle::Created,
            to: TaskLifecycle::Completed
        })
    ));
}
