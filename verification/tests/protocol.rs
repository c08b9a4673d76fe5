use semi_os::{
    validate_envelope, Envelope, EnvelopeContext, ErrorPayload, JsonValue, RequestId,
};

fn empty_context() -> EnvelopeContext {
    EnvelopeContext {
        task_id: None,
        task_run_id: None,
        trace_id: None,
    }
}

fn request(version: u8, request_id: &str, kind: &str) -> Envelope {
    Envelope::Request {
        protocol_version: version,
        request_id: RequestId(request_id.to_owned()),
        kind: kind.to_owned(),
        payload: JsonValue::Null,
        context: empty_context(),
    }
}

#[test]
fn rejects_unknown_protocol_version() {
    let envelope = Envelope::Request {
        protocol_version: 99,
        request_id: RequestId("req_test".to_owned()),
        kind: "health.check".to_owned(),
        payload: JsonValue::Null,
        context: EnvelopeContext {
            task_id: None,
            task_run_id: None,
            trace_id: None,
        },
    };
    assert_eq!(
        validate_envelope(&envelope)
            .expect_err("version must fail")
            .code,
        "unsupported_version"
    );
}

#[test]
fn unsupported_version_message_names_the_version() {
    let error = validate_envelope(&request(99, "req_test", "health.check")).expect_err("must fail");
    assert_eq!(error.message, "Unsupported protocol version: 99");
    let error = validate_envelope(&request(0, "req_test", "health.check")).expect_err("must fail");
    assert_eq!(error.message, "Unsupported protocol version: 0");
}

#[test]
fn accepts_a_well_formed_request() {
    assert!(validate_envelope(&request(1, "req_abc-DEF_9", "health.check")).is_ok());
}

#[test]
fn rejects_malformed_request_ids() {
    for id in ["req_", "task_01", "req_has space", "req_ü", "", "REQ_01"] {
        let error = validate_envelope(&request(1, id, "health.check")).expect_err("id must fail");
        assert_eq!(error.code, "invalid_field");
        assert_eq!(error.message, "requestId has an invalid format");
    }
}

#[test]
fn rejects_an_empty_kind() {
    let error = validate_envelope(&request(1, "req_01", "")).expect_err("kind must fail");
    assert_eq!(error.code, "invalid_field");
    assert_eq!(error.message, "kind must be a non-empty string");
}

#[test]
fn error_envelopes_need_a_known_error_kind() {
    let error = |kind: &str| Envelope::Error {
        protocol_version: 1,
        request_id: RequestId("req_01".to_owned()),
        kind: kind.to_owned(),
        payload: ErrorPayload {
            code: "bad".to_owned(),
            message: "bad".to_owned(),
            retryable: false,
            details: None,
        },
        context: empty_context(),
    };
    assert!(validate_envelope(&error("protocol.error")).is_ok());
    assert!(validate_envelope(&error("request.error")).is_ok());
    let rejected = validate_envelope(&error("worker.progress")).expect_err("kind must fail");
    assert_eq!(rejected.message, "error kind is invalid");
}
