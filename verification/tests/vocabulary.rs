use semi_os::{
    DomainEvent, DomainEventContext, DomainEventPayload, EvidenceReference, JsonValue,
    PolicyDecision, ResultType, TaskId, TaskLifecycle, TaskRunId, TaskStateMachine,
    ToolAttemptStatus, ToolRiskLevel, TraceId, VerificationRecord, VerificationStatus,
    VoiceState, WorkerState,
};

const ALL_LIFECYCLES: [TaskLifecycle; 13] = [
    TaskLifecycle::Created,
    TaskLifecycle::Listening,
    TaskLifecycle::Understanding,
    TaskLifecycle::Running,
    TaskLifecycle::Paused,
    TaskLifecycle::WaitingConfirmation,
    TaskLifecycle::Verifying,
    TaskLifecycle::Completed,
    TaskLifecycle::Failed,
    TaskLifecycle::Unknown,
    TaskLifecycle::Reconciling,
    TaskLifecycle::NeedsUser,
    TaskLifecycle::Cancelled,
];

#[test]
fn wire_names_read_back() {
    for state in ALL_LIFECYCLES {
        assert_eq!(TaskLifecycle::from_name(state.as_str()), Some(state));
    }
    assert_eq!(TaskLifecycle::WaitingConfirmation.as_str(), "waiting_confirmation");
    assert_eq!(ToolAttemptStatus::NeedsUser.as_str(), "needs_user");
    assert_eq!(ToolAttemptStatus::parse("needs_user".to_owned()), Some(ToolAttemptStatus::NeedsUser));
    assert_eq!(ToolAttemptStatus::parse("done".to_owned()), None);
    assert_eq!(ToolRiskLevel::ExternalSideEffect.as_str(), "external_side_effect");
    assert_eq!(PolicyDecision::from_name("approved"), Some(PolicyDecision::Approved));
    assert_eq!(ResultType::from_name("Success"), None);
    assert_eq!(VerificationStatus::Inconclusive.as_str(), "inconclusive");
    assert_eq!(VoiceState::from_name("speaking"), Some(VoiceState::Speaking));
    assert_eq!(WorkerState::Restarting.as_str(), "restarting");
}

#[test]
fn terminal_states_have_no_way_out() {
    for from in [TaskLifecycle::Completed, TaskLifecycle::Failed, TaskLifecycle::Cancelled] {
        for to in ALL_LIFECYCLES {
            assert!(!TaskStateMachine::can_transition(from, to));
        }
    }
    for state in ALL_LIFECYCLES {
        assert!(!TaskStateMachine::can_transition(state, state));
    }
    let into_completed: Vec<TaskLifecycle> = ALL_LIFECYCLES
        .into_iter()
        .filter(|from| TaskStateMachine::can_transition(*from, TaskLifecycle::Completed))
        .collect();
    assert_eq!(into_completed, vec![TaskLifecycle::Verifying, TaskLifecycle::Reconciling]);
}

#[test]
fn domain_event_json_is_flat_and_camel_case() {
    let event = DomainEvent {
        context: DomainEventContext {
            event_id: "evt_1".to_owned(),
            task_id: TaskId("task_1".to_owned()),
            task_run_id: TaskRunId("run_1".to_owned()),
            trace_id: TraceId("trace_1".to_owned()),
            occurred_at_ms: 5,
        },
        payload: DomainEventPayload::VerificationRecorded {
            attempt_id: "attempt_1".to_owned(),
            verification: VerificationRecord {
                status: VerificationStatus::Passed,
                method: "readback".to_owned(),
                summary: "ok".to_owned(),
                evidence: vec![EvidenceReference {
                    kind: "file".to_owned(),
                    reference: "f1".to_owned(),
                }],
                verified_at_ms: None,
            },
        },
    };
    assert_eq!(event.kind(), "verification.recorded");
    let member = |key: &str, value: JsonValue| (key.to_owned(), value);
    let expected = JsonValue::object(vec![
        member("eventId", JsonValue::string("evt_1")),
        member("taskId", JsonValue::string("task_1")),
        member("taskRunId", JsonValue::string("run_1")),
        member("traceId", JsonValue::string("trace_1")),
        member("occurredAtMs", JsonValue::integer(5)),
        member("kind", JsonValue::string("verification.recorded")),
        member("attemptId", JsonValue::string("attempt_1")),
        member(
            "verification",
            JsonValue::object(vec![
                member("status", JsonValue::string("passed")),
                member("method", JsonValue::string("readback")),
                member("summary", JsonValue::string("ok")),
                member(
                    "evidence",
                    JsonValue::array(vec![JsonValue::object(vec![
                        member("kind", JsonValue::string("file")),
                        member("reference", JsonValue::string("f1")),
                    ])]),
                ),
            ]),
        ),
    ]);
    assert_eq!(event.to_json(), expected);
    assert_eq!(expected.get("kind"), Some(&JsonValue::string("verification.recorded")));
    assert_eq!(expected.get("missing"), None);
}

#[test]
fn json_kind_member_is_the_kind_tag_and_tags_differ() {
    let context = DomainEventContext {
        event_id: "evt_2".to_owned(),
        task_id: TaskId("task_2".to_owned()),
        task_run_id: TaskRunId("run_2".to_owned()),
        trace_id: TraceId("trace_2".to_owned()),
        occurred_at_ms: 9,
    };
    let payloads = vec![
        DomainEventPayload::TaskLifecycleChanged {
            from: None,
            to: TaskLifecycle::Created,
            reason: None,
        },
        DomainEventPayload::VoiceStateChanged {
            state: VoiceState::Idle,
        },
        DomainEventPayload::TaskResultRecorded {
            result_type: ResultType::Success,
            summary: "done".to_owned(),
        },
    ];
    let mut kinds = Vec::new();
    for payload in payloads {
        let event = DomainEvent {
            context: context.clone(),
            payload,
        };
        let json = event.to_json();
        assert_eq!(json.get("kind"), Some(&JsonValue::string(event.kind())));
        kinds.push(event.kind());
    }
    assert_eq!(
        kinds,
        vec!["task.lifecycle_changed", "voice.state_changed", "task.result_recorded"]
    );
}
