//! The versioned JSONL envelope exchanged between the host and the agent
//! worker, and the checks a message must pass after it has been decoded.
//!
//! Decoding only restores the shape; `validate_envelope` decides whether the
//! host may act on the message: supported version, well-formed request id,
//! non-empty kind and, for errors, a known error kind.

use vstd::prelude::*;

use crate::json::{JsonValue, JsonView};
use crate::text::{decimal, has_prefix, is_ascii_alphanumeric, spec_is_ascii_alphanumeric, with_decimal};
use crate::vocabulary::{RequestId, TaskId, TaskRunId, TraceId};

verus! {

/// The protocol version supported by both the host and the worker. Messages
/// with any other version are rejected.
pub const PROTOCOL_VERSION: u8 = 1;

/// Optional task context of a message.
#[derive(Debug, Clone, PartialEq)]
pub struct EnvelopeContext {
    pub task_id: Option<TaskId>,
    pub task_run_id: Option<TaskRunId>,
    pub trace_id: Option<TraceId>,
}

/// Payload of an error envelope.
#[derive(Debug, Clone, PartialEq)]
pub struct ErrorPayload {
    pub code: String,
    pub message: String,
    pub retryable: bool,
    pub details: Option<JsonValue>,
}

/// A message between the host and the worker, tagged by direction.
#[derive(Debug, Clone, PartialEq)]
pub enum Envelope {
    Request {
        protocol_version: u8,
        request_id: RequestId,
        kind: String,
        payload: JsonValue,
        context: EnvelopeContext,
    },
    Response {
        protocol_version: u8,
        request_id: RequestId,
        kind: String,
        payload: JsonValue,
        context: EnvelopeContext,
    },
    Event {
        protocol_version: u8,
        request_id: RequestId,
        kind: String,
        payload: JsonValue,
        context: EnvelopeContext,
    },
    Error {
        protocol_version: u8,
        request_id: RequestId,
        kind: String,
        payload: ErrorPayload,
        context: EnvelopeContext,
    },
}

/// Why a decoded message was rejected.
#[derive(Debug, Clone, PartialEq, Eq)]
pub struct ProtocolValidationError {
    pub code: &'static str,
    pub message: String,
}

impl Envelope {
    pub open spec fn version(&self) -> u8 {
        match self {
            Envelope::Request { protocol_version, .. } => *protocol_version,
            Envelope::Response { protocol_version, .. } => *protocol_version,
            Envelope::Event { protocol_version, .. } => *protocol_version,
            Envelope::Error { protocol_version, .. } => *protocol_version,
        }
    }

    pub open spec fn request_id_text(&self) -> Seq<char> {
        match self {
            Envelope::Request { request_id, .. } => request_id.0@,
            Envelope::Response { request_id, .. } => request_id.0@,
            Envelope::Event { request_id, .. } => request_id.0@,
            Envelope::Error { request_id, .. } => request_id.0@,
        }
    }

    pub open spec fn kind_text(&self) -> Seq<char> {
        match self {
            Envelope::Request { kind, .. } => kind@,
            Envelope::Response { kind, .. } => kind@,
            Envelope::Event { kind, .. } => kind@,
            Envelope::Error { kind, .. } => kind@,
        }
    }
}

/// Characters allowed after an identifier's prefix.
pub open spec fn id_suffix_char(c: char) -> bool {
    spec_is_ascii_alphanumeric(c) || c == '_' || c == '-'
}

/// An identifier is its prefix followed by a non-empty run of ASCII letters,
/// digits, `_` and `-`.
pub open spec fn id_matches(value: Seq<char>, prefix: Seq<char>) -> bool {
    &&& has_prefix(value, prefix)
    &&& value.len() > prefix.len()
    &&& forall|i: int| prefix.len() <= i < value.len() ==> #[trigger] id_suffix_char(value[i])
}

/// The error kinds an error envelope may carry.
pub open spec fn known_error_kind(kind: Seq<char>) -> bool {
    kind == "protocol.error"@ || kind == "request.error"@
}

/// The outcome of validating an envelope: `None` when accepted, otherwise
/// the error code and message, checked in this order.
pub open spec fn envelope_rejection(e: Envelope) -> Option<(Seq<char>, Seq<char>)> {
    if e.version() != PROTOCOL_VERSION {
        Some(("unsupported_version"@, "Unsupported protocol version: "@ + decimal(e.version() as nat)))
    } else if !id_matches(e.request_id_text(), "req_"@) {
        Some(("invalid_field"@, "requestId has an invalid format"@))
    } else if e.kind_text().len() == 0 {
        Some(("invalid_field"@, "kind must be a non-empty string"@))
    } else if e is Error && !known_error_kind(e.kind_text()) {
        Some(("invalid_field"@, "error kind is invalid"@))
    } else {
        None
    }
}

/// Whether `value` is `prefix` followed by a non-empty run of identifier characters.
pub fn matches_id(value: &str, prefix: &str) -> (r: bool)
    ensures
        r == id_matches(value@, prefix@),
{
    if !crate::text::starts_with(value, prefix) {
        return false;
    }
    let n = value.unicode_len();
    let m = prefix.unicode_len();
    if n == m {
        return false;
    }
    let mut i: usize = m;
    while i < n
        invariant
            n == value@.len(),
            m == prefix@.len(),
            m <= i <= n,
            forall|j: int| m <= j < i ==> #[trigger] id_suffix_char(value@[j]),
        decreases n - i,
    {
        let c = value.get_char(i);
        if !(is_ascii_alphanumeric(c) || c == '_' || c == '-') {
            proof {
                assert(!id_suffix_char(value@[i as int]));
            }
            return false;
        }
        i = i + 1;
    }
    true
}

fn rejection(code: &'static str, message: String) -> (r: Result<(), ProtocolValidationError>)
    ensures
        r matches Err(e) && e.code == code && e.message == message,
{
    Err(ProtocolValidationError { code, message })
}

/// Checks the protocol rules that decoding cannot express. Rejects, in this
/// order: an unsupported version, a request id that is not `req_` followed by
/// identifier characters, an empty kind, and an error envelope whose kind is
/// neither `protocol.error` nor `request.error`.
pub fn validate_envelope(envelope: &Envelope) -> (r: Result<(), ProtocolValidationError>)
    ensures
        match envelope_rejection(*envelope) {
            None => r is Ok,
            Some((code, message)) => r matches Err(e) && e.code@ == code && e.message@ == message,
        },
{
    let (protocol_version, request_id, kind, is_error) = match envelope {
        Envelope::Request { protocol_version, request_id, kind, .. } => (
            *protocol_version,
            request_id,
            kind,
            false,
        ),
        Envelope::Response { protocol_version, request_id, kind, .. } => (
            *protocol_version,
            request_id,
            kind,
            false,
        ),
        Envelope::Event { protocol_version, request_id, kind, .. } => (
            *protocol_version,
            request_id,
            kind,
            false,
        ),
        Envelope::Error { protocol_version, request_id, kind, .. } => (
            *protocol_version,
            request_id,
            kind,
            true,
        ),
    };
    if protocol_version != PROTOCOL_VERSION {
        let message = with_decimal("Unsupported protocol version: ", protocol_version as u64);
        proof {
            reveal_strlit("unsupported_version");
        }
        return rejection("unsupported_version", message);
    }
    if !matches_id(request_id.0.as_str(), "req_") {
        return rejection("invalid_field", String::from_str("requestId has an invalid format"));
    }
    if kind.as_str().unicode_len() == 0 {
        return rejection("invalid_field", String::from_str("kind must be a non-empty string"));
    }
    if is_error {
        let protocol_error = String::from_str("protocol.error");
        let request_error = String::from_str("request.error");
        if !(*kind == protocol_error || *kind == request_error) {
            return rejection("invalid_field", String::from_str("error kind is invalid"));
        }
    }
    Ok(())
}

proof fn lemma_acceptance_by_fields(e: Envelope)
    ensures
        envelope_rejection(e) is None <==> acceptable_fields(e.version(), e.request_id_text(), e.kind_text(), e is Error),
{
    reveal_strlit("req_");
    let id = e.request_id_text();
    if has_prefix(id, "req_"@) {
        assert(id.subrange(0, 4)[0] == id[0]);
        assert(id.subrange(0, 4)[1] == id[1]);
        assert(id.subrange(0, 4)[2] == id[2]);
        assert(id.subrange(0, 4)[3] == id[3]);
    }
    if id.len() >= 4 && id[0] == 'r' && id[1] == 'e' && id[2] == 'q' && id[3] == '_' {
        assert(id.subrange(0, 4) =~= "req_"@);
    }
    assert("req_"@.len() == 4);
    assert(PROTOCOL_VERSION == 1);
    let explicit = forall|j: int|
        4 <= j < id.len() ==> ('a' <= #[trigger] id[j] && id[j] <= 'z') || ('A' <= id[j] && id[j] <= 'Z') || (
        '0' <= id[j] && id[j] <= '9') || id[j] == '_' || id[j] == '-';
    let suffix = forall|j: int| 4 <= j < id.len() ==> #[trigger] id_suffix_char(id[j]);
    assert(suffix ==> explicit) by {
        if suffix {
            assert forall|j: int| 4 <= j < id.len() implies ('a' <= #[trigger] id[j] && id[j] <= 'z') || ('A'
                <= id[j] && id[j] <= 'Z') || ('0' <= id[j] && id[j] <= '9') || id[j] == '_' || id[j] == '-' by {
                assert(id_suffix_char(id[j]));
            }
        }
    }
    assert(explicit ==> suffix) by {
        if explicit {
            assert forall|j: int| 4 <= j < id.len() implies #[trigger] id_suffix_char(id[j]) by {
                assert(('a' <= id[j] && id[j] <= 'z') || ('A' <= id[j] && id[j] <= 'Z') || ('0' <= id[j] && id[j]
                    <= '9') || id[j] == '_' || id[j] == '-');
            }
        }
    }
}

/// The fields of an envelope the host may act on: protocol version 1; a
/// request id made of `req_` and then at least one ASCII letter, digit, `_`
/// or `-`, and nothing else; a non-empty kind; and, for an error, the kind
/// `protocol.error` or `request.error`.
pub open spec fn acceptable_fields(version: u8, id: Seq<char>, kind: Seq<char>, is_error: bool) -> bool {
    &&& version == 1
    &&& id.len() > 4
    &&& id[0] == 'r' && id[1] == 'e' && id[2] == 'q' && id[3] == '_'
    &&& forall|j: int|
        4 <= j < id.len() ==> ('a' <= #[trigger] id[j] && id[j] <= 'z') || ('A' <= id[j] && id[j] <= 'Z') || ('0'
            <= id[j] && id[j] <= '9') || id[j] == '_' || id[j] == '-'
    &&& kind.len() > 0
    &&& is_error ==> (kind == "protocol.error"@ || kind == "request.error"@)
}

/// Which envelopes the host may act on, in every direction alike: a request,
/// a response, an event and an error are each accepted exactly when their
/// fields are acceptable (see `acceptable_fields`); in particular none of
/// them is accepted with a request id that is not `req_` and an identifier.
pub proof fn lemma_envelope_acceptance(e: Envelope)
    ensures
        e matches Envelope::Request { protocol_version, request_id, kind, .. } ==> (envelope_rejection(e) is None
            <==> acceptable_fields(protocol_version, request_id.0@, kind@, false)),
        e matches Envelope::Response { protocol_version, request_id, kind, .. } ==> (envelope_rejection(e) is None
            <==> acceptable_fields(protocol_version, request_id.0@, kind@, false)),
        e matches Envelope::Event { protocol_version, request_id, kind, .. } ==> (envelope_rejection(e) is None
            <==> acceptable_fields(protocol_version, request_id.0@, kind@, false)),
        e matches Envelope::Error { protocol_version, request_id, kind, .. } ==> (envelope_rejection(e) is None
            <==> acceptable_fields(protocol_version, request_id.0@, kind@, true)),
{
    lemma_acceptance_by_fields(e);
}

} // verus!
