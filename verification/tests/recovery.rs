use semi_os::{
    AgentSessionCheckpoint, JsonNumber, JsonValue, NewTaskEvent, ResultType, Storage,
    StorageError, TaskLifecycle, TaskSnapshot, ToolAttempt, ToolAttemptStatus,
    ToolReplayDecision, ToolRiskLevel,
};

fn text(s: &str) -> JsonValue {
    JsonValue::string(s)
}

fn integer(n: i64) -> JsonValue {
    JsonValue::integer(n)
}

fn object(members: Vec<(&str, JsonValue)>) -> JsonValue {
    JsonValue::object(
        members
            .into_iter()
            .map(|(key, value)| (key.to_owned(), value))
            .collect(),
    )
}

fn initial_task() -> TaskSnapshot {
    TaskSnapshot {
        task_id: "task_research".to_owned(),
        task_run_id: "run_001".to_owned(),
        trace_id: "trace_001".to_owned(),
        lifecycle: TaskLifecycle::Created,
        title: Some("调研 Agent 记忆系统".to_owned()),
        current_step: None,
        checkpoint: None,
        last_event_sequence: 0,
        created_at_ms: 1_000,
        updated_at_ms: 1_000,
    }
}

#[test]
fn atomically_updates_snapshot_and_appends_ordered_events() {
    let mut storage = Storage::open_in_memory().expect("storage should open");
    let first = storage
        .persist_task_event(
            initial_task(),
            NewTaskEvent {
                event_id: "evt_created".to_owned(),
                event_kind: "task.created".to_owned(),
                payload: object(vec![("source", text("voice"))]),
                occurred_at_ms: 1_000,
            },
        )
        .expect("first event should persist");
    assert_eq!(first.sequence, 1);

    let mut running = first.projection.clone();
    running.lifecycle = TaskLifecycle::Running;
    running.current_step = Some("收集资料".to_owned());
    running.checkpoint = Some(object(vec![("planCursor", integer(2))]));
    running.updated_at_ms = 2_000;
    let second = storage
        .persist_task_event(
            running.clone(),
            NewTaskEvent {
                event_id: "evt_running".to_owned(),
                event_kind: "task.running".to_owned(),
                payload: object(vec![("step", text("collect"))]),
                occurred_at_ms: 2_000,
            },
        )
        .expect("second event should persist");

    let snapshot = storage
        .load_task("task_research")
        .expect("snapshot query should succeed")
        .expect("snapshot should exist");
    assert_eq!(snapshot, second.projection);
    assert_eq!(snapshot.last_event_sequence, 2);
    assert_eq!(
        storage
            .load_task_events("task_research")
            .expect("events should load")
            .len(),
        2
    );

    let stale_result = storage.persist_task_event(
        running,
        NewTaskEvent {
            event_id: "evt_stale".to_owned(),
            event_kind: "task.paused".to_owned(),
            payload: object(vec![]),
            occurred_at_ms: 3_000,
        },
    );
    assert!(matches!(
        stale_result,
        Err(StorageError::EventSequenceConflict {
            expected: 1,
            actual: 2,
            ..
        })
    ));
    assert_eq!(
        storage
            .load_task_events("task_research")
            .expect("events should load")
            .len(),
        2,
        "冲突事务不能留下孤立事件"
    );

    let mut duplicate_event_projection = second.projection.clone();
    duplicate_event_projection.lifecycle = TaskLifecycle::Paused;
    duplicate_event_projection.updated_at_ms = 3_000;
    let duplicate_event_result = storage.persist_task_event(
        duplicate_event_projection,
        NewTaskEvent {
            event_id: "evt_running".to_owned(),
            event_kind: "task.paused".to_owned(),
            payload: object(vec![("reason", text("user_interruption"))]),
            occurred_at_ms: 3_000,
        },
    );
    assert!(
        duplicate_event_result.is_err(),
        "重复事件 ID 应触发唯一约束"
    );
    assert_eq!(
        storage
            .load_task("task_research")
            .expect("snapshot query should succeed")
            .expect("snapshot should exist"),
        second.projection,
        "事件追加失败时，快照更新必须随事务一起回滚"
    );
}

#[test]
fn replays_projection_restores_checkpoint_and_reuses_completed_receipt() {
    let storage = {
        let mut storage = Storage::open_in_memory().expect("storage should open");
        let created = storage
            .persist_task_event(
                initial_task(),
                NewTaskEvent {
                    event_id: "evt_created".to_owned(),
                    event_kind: "task.created".to_owned(),
                    payload: object(vec![]),
                    occurred_at_ms: 1_000,
                },
            )
            .expect("created event should persist");

        let mut running = created.projection;
        running.lifecycle = TaskLifecycle::Running;
        running.current_step = Some("打开资料页".to_owned());
        running.checkpoint = Some(object(vec![
            ("piSession", text("pi_session_01")),
            ("turn", integer(4)),
            ("pendingStep", text("summarize")),
        ]));
        running.updated_at_ms = 2_000;
        storage
            .persist_task_event(
                running,
                NewTaskEvent {
                    event_id: "evt_tool_done".to_owned(),
                    event_kind: "tool.succeeded".to_owned(),
                    payload: object(vec![("attemptId", text("attempt_01"))]),
                    occurred_at_ms: 2_000,
                },
            )
            .expect("tool event should persist");

        storage
            .save_agent_checkpoint(&AgentSessionCheckpoint {
                session_id: "session_01".to_owned(),
                task_id: Some("task_research".to_owned()),
                runtime_kind: "pi".to_owned(),
                runtime_session_ref: Some("pi_session_01".to_owned()),
                checkpoint: Some(object(vec![
                    ("turn", integer(4)),
                    ("summary", text("已收集两个来源")),
                ])),
                checkpoint_sequence: 2,
                created_at_ms: 1_000,
                updated_at_ms: 2_000,
            })
            .expect("checkpoint should persist");

        storage
            .save_tool_attempt(&ToolAttempt {
                attempt_id: "attempt_01".to_owned(),
                task_id: "task_research".to_owned(),
                tool_name: "browser_open".to_owned(),
                idempotency_key: "open:docs.example.test".to_owned(),
                attempt_number: 1,
                status: ToolAttemptStatus::Succeeded,
                risk_level: ToolRiskLevel::Read,
                input_digest: "sha256:input".to_owned(),
                target: Some(object(vec![("url", text("https://docs.example.test"))])),
                policy: Some(object(vec![("decision", text("auto"))])),
                result_type: Some(ResultType::Success),
                receipt: Some(object(vec![("pageId", text("page_01")), ("status", integer(200))])),
                verification: Some(object(vec![("observed", JsonValue::Bool(true))])),
                started_at_ms: 1_500,
                finished_at_ms: Some(1_900),
            })
            .expect("receipt should persist");
        storage
    };

    // The process-local objects are gone; only the store's contents remain.
    let replayed = storage
        .replay_task("task_research")
        .expect("task should replay");
    assert_eq!(replayed.lifecycle, TaskLifecycle::Running);
    assert_eq!(replayed.last_event_sequence, 2);
    assert_eq!(
        replayed.checkpoint,
        Some(object(vec![
            ("piSession", text("pi_session_01")),
            ("turn", integer(4)),
            ("pendingStep", text("summarize")),
        ]))
    );

    let checkpoint = storage
        .load_agent_checkpoint("session_01")
        .expect("checkpoint query should succeed")
        .expect("checkpoint should exist");
    assert_eq!(checkpoint.checkpoint_sequence, 2);
    assert_eq!(
        checkpoint.checkpoint,
        Some(object(vec![
            ("turn", integer(4)),
            ("summary", text("已收集两个来源")),
        ]))
    );

    match storage
        .tool_replay_decision("task_research", "open:docs.example.test")
        .expect("decision should load")
    {
        ToolReplayDecision::ReuseCompleted(attempt) => {
            assert_eq!(attempt.attempt_id, "attempt_01");
            assert_eq!(
                attempt.receipt,
                Some(object(vec![("pageId", text("page_01")), ("status", integer(200))]))
            );
        }
        decision => panic!("completed receipt must be reused, got {decision:?}"),
    }
}

#[test]
fn incomplete_attempt_requires_reconciliation_before_retry() {
    let mut storage = Storage::open_in_memory().expect("storage should open");
    let created = storage
        .persist_task_event(
            initial_task(),
            NewTaskEvent {
                event_id: "evt_created".to_owned(),
                event_kind: "task.created".to_owned(),
                payload: object(vec![]),
                occurred_at_ms: 1_000,
            },
        )
        .expect("task should persist");
    assert_eq!(created.sequence, 1);

    storage
        .save_tool_attempt(&ToolAttempt {
            attempt_id: "attempt_unknown".to_owned(),
            task_id: "task_research".to_owned(),
            tool_name: "lark_send_message".to_owned(),
            idempotency_key: "message:chat_01:digest_01".to_owned(),
            attempt_number: 1,
            status: ToolAttemptStatus::Unknown,
            risk_level: ToolRiskLevel::ExternalSideEffect,
            input_digest: "digest_01".to_owned(),
            target: Some(object(vec![("chatId", text("chat_01"))])),
            policy: Some(object(vec![("approvalId", text("approval_01"))])),
            result_type: Some(ResultType::Unknown),
            receipt: None,
            verification: Some(object(vec![("reason", text("network_lost_after_send"))])),
            started_at_ms: 1_500,
            finished_at_ms: Some(1_800),
        })
        .expect("unknown attempt should persist");

    assert!(matches!(
        storage
            .tool_replay_decision("task_research", "message:chat_01:digest_01")
            .expect("decision should load"),
        ToolReplayDecision::ReconcileIncomplete(_)
    ));
    assert_eq!(
        storage
            .tool_replay_decision("task_research", "new-operation")
            .expect("decision should load"),
        ToolReplayDecision::Execute
    );
}

#[test]
fn terminal_unsuccessful_attempt_does_not_block_a_new_attempt() {
    let mut storage = Storage::open_in_memory().expect("storage should open");
    storage
        .persist_task_event(
            initial_task(),
            NewTaskEvent {
                event_id: "evt_created".to_owned(),
                event_kind: "task.created".to_owned(),
                payload: object(vec![]),
                occurred_at_ms: 1_000,
            },
        )
        .expect("task should persist");
    storage
        .save_tool_attempt(&ToolAttempt {
            attempt_id: "attempt_failed".to_owned(),
            task_id: "task_research".to_owned(),
            tool_name: "browser_open".to_owned(),
            idempotency_key: "open:unavailable.example.test".to_owned(),
            attempt_number: 1,
            status: ToolAttemptStatus::Failed,
            risk_level: ToolRiskLevel::Read,
            input_digest: "digest_failed".to_owned(),
            target: Some(object(vec![("url", text("https://unavailable.example.test"))])),
            policy: Some(object(vec![("decision", text("auto"))])),
            result_type: Some(ResultType::Failure),
            receipt: None,
            verification: Some(object(vec![("networkRequestStarted", JsonValue::Bool(false))])),
            started_at_ms: 1_500,
            finished_at_ms: Some(1_600),
        })
        .expect("failed attempt should persist");

    assert_eq!(
        storage
            .tool_replay_decision("task_research", "open:unavailable.example.test")
            .expect("decision should load"),
        ToolReplayDecision::Execute
    );
}

#[test]
fn replay_of_an_unknown_task_is_not_found() {
    let storage = Storage::open_in_memory().expect("storage should open");
    assert!(matches!(
        storage.replay_task("task_missing"),
        Err(StorageError::TaskNotFound(ref id)) if id == "task_missing"
    ));
    assert_eq!(storage.load_task("task_missing").expect("query should succeed"), None);
}

#[test]
fn new_task_must_start_at_version_zero() {
    let mut storage = Storage::open_in_memory().expect("storage should open");
    let mut ahead = initial_task();
    ahead.last_event_sequence = 3;
    let result = storage.persist_task_event(
        ahead,
        NewTaskEvent {
            event_id: "evt_created".to_owned(),
            event_kind: "task.created".to_owned(),
            payload: JsonValue::Null,
            occurred_at_ms: 1_000,
        },
    );
    assert!(matches!(
        result,
        Err(StorageError::EventSequenceConflict {
            expected: 3,
            actual: 0,
            ..
        })
    ));
    assert!(storage.load_task_events("task_research").expect("events").is_empty());
}

#[test]
fn replay_reports_a_gap_in_a_restored_stream() {
    let mut storage = Storage::open_in_memory().expect("storage should open");
    let first = storage
        .persist_task_event(
            initial_task(),
            NewTaskEvent {
                event_id: "evt_created".to_owned(),
                event_kind: "task.created".to_owned(),
                payload: JsonValue::Null,
                occurred_at_ms: 1_000,
            },
        )
        .expect("first event should persist");
    let mut broken = first.clone();
    broken.event_id = "evt_later".to_owned();
    broken.sequence = 3;
    broken.projection.last_event_sequence = 3;
    let restored = Storage::restore(
        vec![first.projection.clone()],
        vec![first.clone(), broken],
        vec![],
        vec![],
    );
    match restored.replay_task("task_research") {
        Err(StorageError::InvalidEventStream { task_id, reason }) => {
            assert_eq!(task_id, "task_research");
            assert_eq!(reason, "expected sequence 2, found 3");
        }
        other => panic!("gap must be reported, got {other:?}"),
    }

    let mut mismatched = first.clone();
    mismatched.projection.last_event_sequence = 7;
    let restored = Storage::restore(vec![], vec![mismatched], vec![], vec![]);
    match restored.replay_task("task_research") {
        Err(StorageError::InvalidEventStream { reason, .. }) => {
            assert_eq!(reason, "projection sequence 7 does not match event sequence 1");
        }
        other => panic!("mismatch must be reported, got {other:?}"),
    }

    let mut foreign = first;
    foreign.projection.task_id = "task_other".to_owned();
    let restored = Storage::restore(vec![], vec![foreign], vec![], vec![]);
    match restored.replay_task("task_research") {
        Err(StorageError::InvalidEventStream { reason, .. }) => {
            assert_eq!(reason, "event evt_created belongs to another task");
        }
        other => panic!("foreign event must be reported, got {other:?}"),
    }
}

#[test]
fn replay_matches_the_snapshot_after_many_appends() {
    let mut storage = Storage::open_in_memory().expect("storage should open");
    let mut snapshot = initial_task();
    for step in 0..5_i64 {
        snapshot.updated_at_ms = 1_000 + step;
        snapshot.current_step = Some(format!("step {step}"));
        let stored = storage
            .persist_task_event(
                snapshot.clone(),
                NewTaskEvent {
                    event_id: format!("evt_{step}"),
                    event_kind: "task.progress_updated".to_owned(),
                    payload: JsonValue::Number(JsonNumber::PosInt(step as u64)),
                    occurred_at_ms: 1_000 + step,
                },
            )
            .expect("append should persist");
        assert_eq!(stored.sequence, step + 1);
        snapshot = stored.projection;
    }
    let replayed = storage.replay_task("task_research").expect("task should replay");
    let current = storage
        .load_task("task_research")
        .expect("query should succeed")
        .expect("task should exist");
    assert_eq!(replayed, current);
    assert_eq!(replayed.last_event_sequence, 5);
    let events = storage.load_task_events("task_research").expect("events");
    let sequences: Vec<i64> = events.iter().map(|event| event.sequence).collect();
    assert_eq!(sequences, vec![1, 2, 3, 4, 5]);
}

#[test]
fn checkpoint_reads_back_and_keeps_creation_time() {
    let mut storage = Storage::open_in_memory().expect("storage should open");
    let mut checkpoint = AgentSessionCheckpoint {
        session_id: "session_01".to_owned(),
        task_id: None,
        runtime_kind: "pi".to_owned(),
        runtime_session_ref: None,
        checkpoint: None,
        checkpoint_sequence: 1,
        created_at_ms: 10,
        updated_at_ms: 10,
    };
    storage.save_agent_checkpoint(&checkpoint).expect("save");
    checkpoint.checkpoint_sequence = 2;
    checkpoint.created_at_ms = 99;
    checkpoint.updated_at_ms = 20;
    storage.save_agent_checkpoint(&checkpoint).expect("save");
    let loaded = storage
        .load_agent_checkpoint("session_01")
        .expect("query")
        .expect("checkpoint should exist");
    assert_eq!(loaded.checkpoint_sequence, 2);
    assert_eq!(loaded.updated_at_ms, 20);
    assert_eq!(loaded.created_at_ms, 10);
    assert_eq!(storage.load_agent_checkpoint("session_02").expect("query"), None);
}

#[test]
fn later_succeeded_attempt_is_preferred_and_outcome_updates_in_place() {
    let mut storage = Storage::open_in_memory().expect("storage should open");
    let attempt = |id: &str, number: i64, status: ToolAttemptStatus| ToolAttempt {
        attempt_id: id.to_owned(),
        task_id: "task_research".to_owned(),
        tool_name: "browser_open".to_owned(),
        idempotency_key: "open:a".to_owned(),
        attempt_number: number,
        status,
        risk_level: ToolRiskLevel::Read,
        input_digest: "d".to_owned(),
        target: None,
        policy: None,
        result_type: None,
        receipt: None,
        verification: None,
        started_at_ms: number,
        finished_at_ms: None,
    };
    storage.save_tool_attempt(&attempt("a1", 1, ToolAttemptStatus::Succeeded)).expect("save");
    storage.save_tool_attempt(&attempt("a3", 3, ToolAttemptStatus::Succeeded)).expect("save");
    storage.save_tool_attempt(&attempt("a2", 2, ToolAttemptStatus::Started)).expect("save");
    match storage.tool_replay_decision("task_research", "open:a").expect("decision") {
        ToolReplayDecision::ReuseCompleted(found) => assert_eq!(found.attempt_id, "a3"),
        other => panic!("expected reuse, got {other:?}"),
    }

    let mut other = attempt("b1", 1, ToolAttemptStatus::Started);
    other.idempotency_key = "open:b".to_owned();
    storage.save_tool_attempt(&other).expect("save");
    assert!(matches!(
        storage.tool_replay_decision("task_research", "open:b").expect("decision"),
        ToolReplayDecision::ReconcileIncomplete(_)
    ));
    // Recording the outcome updates the same attempt; its tool name is not rewritten.
    other.status = ToolAttemptStatus::Cancelled;
    other.tool_name = "renamed".to_owned();
    other.finished_at_ms = Some(5);
    storage.save_tool_attempt(&other).expect("save");
    assert_eq!(
        storage.tool_replay_decision("task_research", "open:b").expect("decision"),
        ToolReplayDecision::Execute
    );
}

#[test]
fn events_read_back_in_sequence_order_whatever_the_row_order() {
    let mut storage = Storage::open_in_memory().expect("storage should open");
    let mut snapshot = initial_task();
    let mut appended = Vec::new();
    for step in 0..3_i64 {
        let stored = storage
            .persist_task_event(
                snapshot.clone(),
                NewTaskEvent {
                    event_id: format!("evt_{step}"),
                    event_kind: "task.progress_updated".to_owned(),
                    payload: JsonValue::Null,
                    occurred_at_ms: 1_000 + step,
                },
            )
            .expect("append should persist");
        snapshot = stored.projection.clone();
        appended.push(stored);
    }
    let shuffled = vec![appended[2].clone(), appended[0].clone(), appended[1].clone()];
    let restored = Storage::restore(vec![snapshot.clone()], shuffled, vec![], vec![]);
    let sequences: Vec<i64> = restored
        .load_task_events("task_research")
        .expect("events")
        .iter()
        .map(|event| event.sequence)
        .collect();
    assert_eq!(sequences, vec![1, 2, 3]);
    assert_eq!(
        restored.replay_task("task_research").expect("task should replay"),
        snapshot
    );
}

#[test]
fn stale_snapshot_at_the_largest_version_is_a_conflict() {
    let mut storage = Storage::open_in_memory().expect("storage should open");
    storage
        .persist_task_event(
            initial_task(),
            NewTaskEvent {
                event_id: "evt_created".to_owned(),
                event_kind: "task.created".to_owned(),
                payload: JsonValue::Null,
                occurred_at_ms: 1_000,
            },
        )
        .expect("first event should persist");
    let mut stale = initial_task();
    stale.last_event_sequence = i64::MAX;
    match storage.persist_task_event(
        stale,
        NewTaskEvent {
            event_id: "evt_stale".to_owned(),
            event_kind: "task.paused".to_owned(),
            payload: JsonValue::Null,
            occurred_at_ms: 2_000,
        },
    ) {
        Err(StorageError::EventSequenceConflict {
            expected, actual, ..
        }) => {
            assert_eq!(expected, i64::MAX);
            assert_eq!(actual, 1);
        }
        other => panic!("a stale snapshot must conflict, got {other:?}"),
    }
}

#[test]
fn json_equality_ignores_member_order_like_a_json_map() {
    let one = object(vec![("a", integer(1)), ("b", text("x"))]);
    let other = object(vec![("b", text("x")), ("a", integer(1))]);
    assert_eq!(one, other);
    assert_ne!(one, object(vec![("a", integer(1))]));
    assert_ne!(one, object(vec![("a", integer(2)), ("b", text("x"))]));
    // An object denotes the first value of each key.
    assert_eq!(
        object(vec![("a", integer(1)), ("a", integer(9))]),
        object(vec![("a", integer(1))])
    );
    // Integers compare by value, whatever their shape.
    assert_eq!(
        JsonValue::Number(JsonNumber::NegInt(5)),
        JsonValue::Number(JsonNumber::PosInt(5))
    );
    assert_ne!(
        JsonValue::Array(vec![integer(1), integer(2)]),
        JsonValue::Array(vec![integer(2), integer(1)])
    );
    let mut snapshot = initial_task();
    snapshot.checkpoint = Some(one);
    let mut same = initial_task();
    same.checkpoint = Some(other);
    assert_eq!(snapshot, same);
}
