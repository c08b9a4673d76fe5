use semi_os::supervisor::{
    after_outcome, backoff_delay, check_health_ready, closed_output_step, format_exit_status,
    handshake_step, health_request, monitor_step,
};
use semi_os::{
    Envelope, EnvelopeContext, HandshakeObservation, HandshakeStep, JsonValue,
    MonitorObservation, MonitorOutcome, MonitorStep, RequestId, RestartPolicy, SupervisorAction,
    WorkerEvent,
};

fn response(request_id: &str, kind: &str, payload: JsonValue) -> Envelope {
    Envelope::Response {
        protocol_version: 1,
        request_id: RequestId(request_id.to_owned()),
        kind: kind.to_owned(),
        payload,
        context: EnvelopeContext {
            task_id: None,
            task_run_id: None,
            trace_id: None,
        },
    }
}

fn pid_payload(pid: JsonValue) -> JsonValue {
    JsonValue::object(vec![("pid".to_owned(), pid)])
}

#[test]
fn backoff_doubles_and_is_capped() {
    let policy = RestartPolicy::default();
    let delays: Vec<u64> = (0..7).map(|count| backoff_delay(policy, count)).collect();
    assert_eq!(delays, vec![250, 250, 500, 1000, 2000, 2000, 2000]);
    let huge = RestartPolicy {
        max_restarts: 100,
        initial_backoff_ms: u64::MAX / 2,
        max_backoff_ms: u64::MAX,
        health_timeout_ms: 1,
    };
    assert_eq!(backoff_delay(huge, 1), u64::MAX / 2);
    assert_eq!(backoff_delay(huge, 2), u64::MAX - 1);
    assert_eq!(backoff_delay(huge, 3), u64::MAX);
    assert_eq!(backoff_delay(huge, 40), u64::MAX);
}

#[test]
fn health_request_is_versioned_and_numbered() {
    match health_request(7) {
        Envelope::Request {
            protocol_version,
            request_id,
            kind,
            payload,
            ..
        } => {
            assert_eq!(protocol_version, 1);
            assert_eq!(request_id.0, "req_worker_health_7");
            assert_eq!(kind, "health.check");
            assert_eq!(
                payload,
                JsonValue::object(vec![("includeCapabilities".to_owned(), JsonValue::Bool(false))])
            );
        }
        other => panic!("expected a request, got {other:?}"),
    }
}

#[test]
fn health_ready_needs_matching_response_with_pid() {
    let expected = RequestId("req_worker_health_0".to_owned());
    let ok = response("req_worker_health_0", "health.ready", pid_payload(JsonValue::integer(4242)));
    assert_eq!(check_health_ready(&ok, &expected), Ok(4242));
    let other_id = response("req_worker_health_1", "health.ready", pid_payload(JsonValue::integer(1)));
    assert_eq!(
        check_health_ready(&other_id, &expected),
        Err("expected matching health.ready response".to_owned())
    );
    let too_big = response(
        "req_worker_health_0",
        "health.ready",
        pid_payload(JsonValue::integer(1 << 40)),
    );
    assert_eq!(
        check_health_ready(&too_big, &expected),
        Err("health.ready payload.pid is invalid".to_owned())
    );
    let negative = response("req_worker_health_0", "health.ready", pid_payload(JsonValue::integer(-1)));
    assert_eq!(
        check_health_ready(&negative, &expected),
        Err("health.ready payload.pid is invalid".to_owned())
    );
    let bad_version = match response("req_worker_health_0", "health.ready", JsonValue::Null) {
        Envelope::Response {
            request_id,
            kind,
            payload,
            context,
            ..
        } => Envelope::Response {
            protocol_version: 2,
            request_id,
            kind,
            payload,
            context,
        },
        other => other,
    };
    assert_eq!(
        check_health_ready(&bad_version, &expected),
        Err("Unsupported protocol version: 2".to_owned())
    );
}

#[test]
fn crash_is_reported_then_restarted_until_the_limit() {
    let policy = RestartPolicy {
        max_restarts: 1,
        initial_backoff_ms: 10,
        max_backoff_ms: 10,
        health_timeout_ms: 1000,
    };
    let first = after_outcome(&policy, 0, MonitorOutcome::Exited(Some(23)));
    assert_eq!(
        first.events,
        vec![
            WorkerEvent::Exited {
                code: Some(23),
                restart_count: 0
            },
            WorkerEvent::RestartScheduled {
                restart_count: 1,
                delay_ms: 10
            },
        ]
    );
    assert_eq!(
        first.next,
        SupervisorAction::Restart {
            restart_count: 1,
            delay_ms: 10
        }
    );
    assert_eq!(first.diagnostics.len(), 2);
    assert_eq!(first.diagnostics[0].category, "worker_exit");
    assert_eq!(
        first.diagnostics[0].details,
        JsonValue::object(vec![("exitCode".to_owned(), JsonValue::integer(23))])
    );
    assert_eq!(first.diagnostics[1].category, "worker_restart");
    assert_eq!(first.diagnostics[1].restart_count, 1);

    let second = after_outcome(&policy, 1, MonitorOutcome::ProtocolError("bad line".to_owned()));
    assert_eq!(
        second.events,
        vec![
            WorkerEvent::ProtocolError {
                message: "bad line".to_owned(),
                restart_count: 1
            },
            WorkerEvent::RestartLimitReached { restart_count: 1 },
        ]
    );
    assert_eq!(second.next, SupervisorAction::GiveUp);
    assert_eq!(second.diagnostics.len(), 1);
    assert_eq!(second.diagnostics[0].category, "worker_protocol");
}

#[test]
fn stop_and_spawn_failure_outcomes() {
    let policy = RestartPolicy::default();
    let stopped = after_outcome(&policy, 2, MonitorOutcome::Stopped);
    assert_eq!(stopped.events, vec![WorkerEvent::Stopped]);
    assert!(stopped.diagnostics.is_empty());
    assert_eq!(stopped.next, SupervisorAction::Stop);

    let failed = after_outcome(&policy, 0, MonitorOutcome::SpawnFailed("no such file".to_owned()));
    assert_eq!(failed.events[0], WorkerEvent::Exited { code: None, restart_count: 0 });
    let categories: Vec<&str> = failed.diagnostics.iter().map(|note| note.category.as_str()).collect();
    assert_eq!(categories, vec!["worker_spawn", "worker_exit", "worker_restart"]);
    assert_eq!(
        failed.diagnostics[1].details,
        JsonValue::object(vec![("exitCode".to_owned(), JsonValue::Null)])
    );
    assert_eq!(
        failed.next,
        SupervisorAction::Restart {
            restart_count: 1,
            delay_ms: 250
        }
    );
}

#[test]
fn exit_status_names_the_code_or_the_signal() {
    assert_eq!(format_exit_status(Some(23)), "code 23");
    assert_eq!(format_exit_status(Some(-1)), "code -1");
    assert_eq!(format_exit_status(None), "terminated by signal");
}

#[test]
fn handshake_accepts_only_the_matching_ready_reply() {
    let expected = RequestId("req_worker_health_0".to_owned());
    let ready = response(
        "req_worker_health_0",
        "health.ready",
        pid_payload(JsonValue::integer(4242)),
    );
    assert!(matches!(
        handshake_step(HandshakeObservation::Line(Ok(ready)), &expected),
        HandshakeStep::Ready(4242)
    ));
    let other = response("req_other_1", "health.ready", pid_payload(JsonValue::integer(1)));
    match handshake_step(HandshakeObservation::Line(Ok(other)), &expected) {
        HandshakeStep::Failed(message) => {
            assert_eq!(message, "expected matching health.ready response")
        }
        other => panic!("unexpected step {other:?}"),
    }
    match handshake_step(
        HandshakeObservation::Line(Err("invalid JSONL: eof".to_owned())),
        &expected,
    ) {
        HandshakeStep::Failed(message) => assert_eq!(message, "invalid JSONL: eof"),
        other => panic!("unexpected step {other:?}"),
    }
}

#[test]
fn handshake_reports_exit_timeout_and_closed_output() {
    let expected = RequestId("req_worker_health_2".to_owned());
    let failed = |observation| match handshake_step(observation, &expected) {
        HandshakeStep::Failed(message) => message,
        other => panic!("unexpected step {other:?}"),
    };
    assert_eq!(
        failed(HandshakeObservation::Exited(Some(3))),
        "worker exited before health.ready: code 3"
    );
    assert_eq!(
        failed(HandshakeObservation::Exited(None)),
        "worker exited before health.ready: terminated by signal"
    );
    assert_eq!(failed(HandshakeObservation::TimedOut), "health.ready timed out");
    assert_eq!(
        failed(HandshakeObservation::OutputClosed),
        "worker stdout closed before health.ready"
    );
    assert!(matches!(
        handshake_step(HandshakeObservation::Quiet, &expected),
        HandshakeStep::KeepWaiting
    ));
    assert!(matches!(
        handshake_step(HandshakeObservation::StopRequested, &expected),
        HandshakeStep::Stopped
    ));
}

#[test]
fn monitor_delivers_valid_messages_and_ends_on_invalid_ones() {
    let progress = Envelope::Event {
        protocol_version: 1,
        request_id: RequestId("req_stream_1".to_owned()),
        kind: "worker.progress".to_owned(),
        payload: JsonValue::object(vec![]),
        context: EnvelopeContext {
            task_id: None,
            task_run_id: None,
            trace_id: None,
        },
    };
    match monitor_step(MonitorObservation::Line(Ok(progress))) {
        MonitorStep::Deliver(Envelope::Event { kind, .. }) => assert_eq!(kind, "worker.progress"),
        other => panic!("unexpected step {other:?}"),
    }
    let stale = Envelope::Event {
        protocol_version: 2,
        request_id: RequestId("req_stream_1".to_owned()),
        kind: "worker.progress".to_owned(),
        payload: JsonValue::Null,
        context: EnvelopeContext {
            task_id: None,
            task_run_id: None,
            trace_id: None,
        },
    };
    match monitor_step(MonitorObservation::Line(Ok(stale))) {
        MonitorStep::End {
            outcome: MonitorOutcome::ProtocolError(message),
            terminate: true,
        } => assert_eq!(message, "Unsupported protocol version: 2"),
        other => panic!("unexpected step {other:?}"),
    }
    assert!(matches!(
        monitor_step(MonitorObservation::Exited(Some(23))),
        MonitorStep::End {
            outcome: MonitorOutcome::Exited(Some(23)),
            terminate: false
        }
    ));
    assert!(matches!(
        monitor_step(MonitorObservation::StopRequested),
        MonitorStep::End {
            outcome: MonitorOutcome::Stopped,
            terminate: true
        }
    ));
    assert!(matches!(
        monitor_step(MonitorObservation::OutputClosed),
        MonitorStep::AwaitExit
    ));
    assert!(matches!(
        monitor_step(MonitorObservation::Quiet),
        MonitorStep::KeepWatching
    ));
}

#[test]
fn closed_output_waits_briefly_for_the_exit_status() {
    assert!(matches!(
        closed_output_step(Ok(Some(Some(23))), false),
        MonitorStep::End {
            outcome: MonitorOutcome::Exited(Some(23)),
            terminate: false
        }
    ));
    assert!(matches!(closed_output_step(Ok(None), false), MonitorStep::AwaitExit));
    match closed_output_step(Ok(None), true) {
        MonitorStep::End {
            outcome: MonitorOutcome::ProtocolError(message),
            terminate: true,
        } => assert_eq!(message, "worker stdout closed while process was running"),
        other => panic!("unexpected step {other:?}"),
    }
    assert!(matches!(
        closed_output_step(Err("no such process".to_owned()), true),
        MonitorStep::End {
            outcome: MonitorOutcome::SpawnFailed(_),
            terminate: false
        }
    ));
}

#[test]
fn failing_runs_start_max_plus_one_times_then_give_up() {
    let policy = RestartPolicy {
        max_restarts: 2,
        initial_backoff_ms: 10,
        max_backoff_ms: 15,
        health_timeout_ms: 1,
    };
    let mut published = Vec::new();
    let mut restart_count = 0;
    loop {
        published.push(WorkerEvent::Starting { restart_count });
        let step = after_outcome(&policy, restart_count, MonitorOutcome::Exited(Some(1)));
        published.extend(step.events);
        match step.next {
            SupervisorAction::Restart {
                restart_count: next,
                ..
            } => restart_count = next,
            _ => break,
        }
    }
    let exited = |restart_count| WorkerEvent::Exited {
        code: Some(1),
        restart_count,
    };
    assert_eq!(
        published,
        vec![
            WorkerEvent::Starting { restart_count: 0 },
            exited(0),
            WorkerEvent::RestartScheduled {
                restart_count: 1,
                delay_ms: 10
            },
            WorkerEvent::Starting { restart_count: 1 },
            exited(1),
            WorkerEvent::RestartScheduled {
                restart_count: 2,
                delay_ms: 15
            },
            WorkerEvent::Starting { restart_count: 2 },
            exited(2),
            WorkerEvent::RestartLimitReached { restart_count: 2 },
        ]
    );
}
