use semi_os::{
    decide_execution, save_execution_receipt, ApprovalBinding, ArtifactReference,
    EvidenceReference, JsonValue, NewTaskEvent, PolicyDecision, ResultType, Storage,
    TaskLifecycle, TaskSnapshot, ToolAttemptStatus, ToolExecutionDecision, ToolExecutionError,
    ToolExecutionReceipt, ToolRiskLevel, ToolTarget, VerificationRecord, VerificationStatus,
};

fn seed_task(storage: &mut Storage) {
    storage
        .persist_task_event(
            TaskSnapshot {
                task_id: "task_tool".to_owned(),
                task_run_id: "run_tool".to_owned(),
                trace_id: "trace_tool".to_owned(),
                lifecycle: TaskLifecycle::Created,
                title: None,
                current_step: None,
                checkpoint: None,
                last_event_sequence: 0,
                created_at_ms: 1,
                updated_at_ms: 1,
            },
            NewTaskEvent {
                event_id: "evt_created".to_owned(),
                event_kind: "task.lifecycle_changed".to_owned(),
                payload: JsonValue::object(vec![]),
                occurred_at_ms: 1,
            },
        )
        .expect("task should be seeded");
}

fn receipt(status: ToolAttemptStatus, result_type: Option<ResultType>) -> ToolExecutionReceipt {
    ToolExecutionReceipt {
        attempt_id: "attempt_01".to_owned(),
        task_id: "task_tool".to_owned(),
        tool_name: "browser_open".to_owned(),
        idempotency_key: "open:example".to_owned(),
        attempt_number: 1,
        status,
        risk_level: ToolRiskLevel::Read,
        input_summary: "打开已脱敏地址".to_owned(),
        input_digest: "sha256:input".to_owned(),
        target: None,
        policy_decision: PolicyDecision::Auto,
        approval: None,
        started_at_ms: 10,
        finished_at_ms: Some(20),
        duration_ms: Some(10),
        result_type,
        output_summary: Some("已打开".to_owned()),
        verification: Some(VerificationRecord {
            status: VerificationStatus::Passed,
            method: "browser_readback".to_owned(),
            summary: "页面地址匹配".to_owned(),
            evidence: vec![EvidenceReference {
                kind: "browser_page".to_owned(),
                reference: "page_01".to_owned(),
            }],
            verified_at_ms: Some(20),
        }),
        artifacts: vec![],
    }
}

#[test]
fn requires_positive_verification_for_success() {
    let mut storage = Storage::open_in_memory().expect("storage should open");
    seed_task(&mut storage);
    let mut unverified = receipt(ToolAttemptStatus::Succeeded, Some(ResultType::Success));
    unverified.verification = None;
    assert!(matches!(
        save_execution_receipt(&mut storage, &unverified),
        Err(ToolExecutionError::UnverifiedSuccess)
    ));

    let mut prose_only = receipt(ToolAttemptStatus::Succeeded, Some(ResultType::Success));
    prose_only
        .verification
        .as_mut()
        .expect("verification")
        .method = "model_prose".to_owned();
    assert!(matches!(
        save_execution_receipt(&mut storage, &prose_only),
        Err(ToolExecutionError::UnverifiedSuccess)
    ));
}

#[test]
fn reuses_verified_receipt_after_restart() {
    let mut storage = Storage::open_in_memory().expect("storage should open");
    seed_task(&mut storage);
    let completed = receipt(ToolAttemptStatus::Succeeded, Some(ResultType::Success));
    save_execution_receipt(&mut storage, &completed).expect("receipt should persist");

    assert!(matches!(
        decide_execution(&storage, "task_tool", "open:example").expect("decision should load"),
        ToolExecutionDecision::ReuseVerified(_)
    ));
}

#[test]
fn unknown_attempt_blocks_retry_until_reconciled() {
    let mut storage = Storage::open_in_memory().expect("storage should open");
    seed_task(&mut storage);
    let mut unknown = receipt(ToolAttemptStatus::Unknown, Some(ResultType::Unknown));
    unknown.verification = Some(VerificationRecord {
        status: VerificationStatus::Inconclusive,
        method: "remote_lookup".to_owned(),
        summary: "连接中断，无法确认请求是否生效".to_owned(),
        evidence: vec![],
        verified_at_ms: Some(20),
    });
    save_execution_receipt(&mut storage, &unknown).expect("unknown receipt should persist");

    assert!(matches!(
        decide_execution(&storage, "task_tool", "open:example").expect("decision should load"),
        ToolExecutionDecision::Reconcile(_)
    ));
}

#[test]
fn reused_receipt_equals_the_saved_one() {
    let mut storage = Storage::open_in_memory().expect("storage should open");
    seed_task(&mut storage);
    let mut completed = receipt(ToolAttemptStatus::Succeeded, Some(ResultType::Success));
    completed.target = Some(ToolTarget {
        kind: "url".to_owned(),
        display_name: "docs".to_owned(),
        canonical_reference: Some("https://docs.example.test".to_owned()),
    });
    completed.policy_decision = PolicyDecision::Approved;
    completed.approval = Some(ApprovalBinding {
        approval_id: "approval_01".to_owned(),
        payload_digest: "sha256:payload".to_owned(),
        approved_at_ms: -5,
    });
    completed.artifacts = vec![ArtifactReference {
        artifact_id: "artifact_01".to_owned(),
        kind: "screenshot".to_owned(),
        uri: "file:///tmp/shot.png".to_owned(),
        digest: None,
    }];
    save_execution_receipt(&mut storage, &completed).expect("receipt should persist");
    match decide_execution(&storage, "task_tool", "open:example").expect("decision should load") {
        ToolExecutionDecision::ReuseVerified(saved) => assert_eq!(saved, completed),
        other => panic!("expected reuse, got {other:?}"),
    }
}

#[test]
fn inconsistent_receipts_are_refused() {
    let mut storage = Storage::open_in_memory().expect("storage should open");
    seed_task(&mut storage);
    let failed_as_success = receipt(ToolAttemptStatus::Failed, Some(ResultType::Success));
    assert!(matches!(
        save_execution_receipt(&mut storage, &failed_as_success),
        Err(ToolExecutionError::InconsistentReceipt)
    ));
    let started_with_result = receipt(ToolAttemptStatus::Started, Some(ResultType::Success));
    assert!(matches!(
        save_execution_receipt(&mut storage, &started_with_result),
        Err(ToolExecutionError::InconsistentReceipt)
    ));
    let unknown_but_passed = receipt(ToolAttemptStatus::Unknown, Some(ResultType::Unknown));
    assert!(matches!(
        save_execution_receipt(&mut storage, &unknown_but_passed),
        Err(ToolExecutionError::InconsistentReceipt)
    ));
    let mut approved_without_binding = receipt(ToolAttemptStatus::Failed, Some(ResultType::Failure));
    approved_without_binding.policy_decision = PolicyDecision::Approved;
    assert!(matches!(
        save_execution_receipt(&mut storage, &approved_without_binding),
        Err(ToolExecutionError::InconsistentReceipt)
    ));
    assert_eq!(
        decide_execution(&storage, "task_tool", "open:example").expect("decision should load"),
        ToolExecutionDecision::Execute
    );
}

#[test]
fn failed_attempt_lets_the_call_run_again() {
    let mut storage = Storage::open_in_memory().expect("storage should open");
    seed_task(&mut storage);
    let failed = receipt(ToolAttemptStatus::Failed, Some(ResultType::Failure));
    save_execution_receipt(&mut storage, &failed).expect("failed receipt should persist");
    assert_eq!(
        decide_execution(&storage, "task_tool", "open:example").expect("decision should load"),
        ToolExecutionDecision::Execute
    );
}

#[test]
fn receipt_json_reads_back_as_the_same_receipt() {
    let mut original = receipt(ToolAttemptStatus::NeedsUser, Some(ResultType::NeedsUser));
    original.finished_at_ms = None;
    original.output_summary = None;
    let json = original.to_json();
    let decoded = semi_os::receipt_decode::decode_receipt(&json).expect("receipt should decode");
    assert_eq!(decoded, original);
    assert!(semi_os::receipt_decode::decode_receipt(&JsonValue::string("not a receipt")).is_none());
}
