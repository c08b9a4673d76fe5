//! Supervision rules of the agent worker: the health handshake, what to
//! report after the worker stops, and when and how late to restart it.
//!
//! Spawning the process, reading its output and sleeping are done by the
//! caller; after each run of the worker it hands the outcome to
//! `after_outcome` and carries out the step that comes back.

use vstd::prelude::*;

use crate::envelope::{envelope_rejection, validate_envelope, Envelope, EnvelopeContext, PROTOCOL_VERSION};
use crate::json::{json_as_u64, json_get, json_integer, members_view, push_member, JsonNumber, JsonValue, JsonView};
use crate::text::{decimal, push_signed_decimal, signed_decimal, with_decimal};
use crate::vocabulary::RequestId;

verus! {

/// How to start the worker.
#[derive(Debug)]
pub struct WorkerCommand {
    pub program: String,
    pub args: Vec<String>,
    pub current_dir: std::path::PathBuf,
}

/// Bounded exponential back-off. `max_restarts` does not count the first
/// start; durations are in milliseconds.
#[derive(Debug, Clone, Copy, PartialEq, Eq, Structural)]
pub struct RestartPolicy {
    pub max_restarts: u32,
    pub initial_backoff_ms: u64,
    pub max_backoff_ms: u64,
    pub health_timeout_ms: u64,
}

impl Default for RestartPolicy {
    fn default() -> (r: RestartPolicy)
        ensures
            r == (RestartPolicy {
                max_restarts: 3,
                initial_backoff_ms: 250,
                max_backoff_ms: 2000,
                health_timeout_ms: 3000,
            }),
    {
        RestartPolicy { max_restarts: 3, initial_backoff_ms: 250, max_backoff_ms: 2000, health_timeout_ms: 3000 }
    }
}

/// Worker lifecycle events that may be shown in the UI: metadata only, never
/// raw worker output.
#[derive(Debug, Clone, PartialEq, Eq)]
pub enum WorkerEvent {
    Starting { restart_count: u32 },
    Ready { pid: u32, restart_count: u32 },
    ProtocolError { message: String, restart_count: u32 },
    Exited { code: Option<i32>, restart_count: u32 },
    RestartScheduled { restart_count: u32, delay_ms: u64 },
    RestartLimitReached { restart_count: u32 },
    Stopped,
}

/// How one run of the worker ended.
#[derive(Debug, Clone, PartialEq, Eq)]
pub enum MonitorOutcome {
    /// A stop was requested.
    Stopped,
    /// The process exited, with its exit code when it had one.
    Exited(Option<i32>),
    /// The worker broke the protocol and was terminated.
    ProtocolError(String),
    /// The process could not be started.
    SpawnFailed(String),
}

/// A diagnostic to record, before it is stamped with the time.
#[derive(Debug, Clone, PartialEq)]
pub struct DiagnosticNote {
    pub category: String,
    pub message: String,
    pub restart_count: u32,
    pub details: JsonValue,
}

/// What the supervisor does next.
#[derive(Debug, Clone, Copy, PartialEq, Eq, Structural)]
pub enum SupervisorAction {
    /// Supervision ends because a stop was requested.
    Stop,
    /// Supervision ends because the restart limit is reached.
    GiveUp,
    /// Wait `delay_ms` (unless a stop arrives), then start run `restart_count`.
    Restart { restart_count: u32, delay_ms: u64 },
}

/// Events to publish, diagnostics to record and the next action.
#[derive(Debug, Clone, PartialEq)]
pub struct SupervisorStep {
    pub events: Vec<WorkerEvent>,
    pub diagnostics: Vec<DiagnosticNote>,
    pub next: SupervisorAction,
}

/// `2^e`.
pub open spec fn pow2(e: nat) -> nat
    decreases e,
{
    if e == 0 {
        1
    } else {
        2 * pow2((e - 1) as nat)
    }
}

/// The delay before restart number `restart_count`: the initial back-off
/// doubled for each earlier restart (at most 31 doublings), saturating, and
/// capped by the maximum back-off.
pub open spec fn backoff_ms(policy: RestartPolicy, restart_count: u32) -> u64 {
    let exponent: nat = if restart_count == 0 {
        0
    } else if restart_count - 1 > 31 {
        31
    } else {
        (restart_count - 1) as nat
    };
    let grown = policy.initial_backoff_ms * pow2(exponent);
    let saturated: u64 = if grown > u64::MAX {
        u64::MAX
    } else {
        grown as u64
    };
    if saturated < policy.max_backoff_ms {
        saturated
    } else {
        policy.max_backoff_ms
    }
}

/// The delay before restart number `restart_count`.
pub fn backoff_delay(policy: RestartPolicy, restart_count: u32) -> (r: u64)
    ensures
        r == backoff_ms(policy, restart_count),
{
    let exponent: u32 = if restart_count == 0 {
        0
    } else if restart_count - 1 > 31 {
        31
    } else {
        restart_count - 1
    };
    let mut multiplier: u64 = 1;
    let mut i: u32 = 0;
    while i < exponent
        invariant
            i <= exponent <= 31,
            multiplier == pow2(i as nat),
            pow2(i as nat) <= 0x8000_0000,
        decreases exponent - i,
    {
        proof {
            lemma_pow2_monotone(i as nat + 1, 31);
            lemma_pow2_31();
        }
        multiplier = multiplier * 2;
        i = i + 1;
    }
    let x = policy.initial_backoff_ms;
    proof {
        assert((x as int) * (multiplier as int) <= 0xffff_ffff_ffff_ffff * 0xffff_ffff_ffff_ffff) by (nonlinear_arith)
            requires
                x <= 0xffff_ffff_ffff_ffff,
                multiplier <= 0xffff_ffff_ffff_ffff,
        ;
    }
    let wide: u128 = (x as u128) * (multiplier as u128);
    let grown: u64 = if wide > 0xffff_ffff_ffff_ffffu128 {
        0xffff_ffff_ffff_ffffu64
    } else {
        wide as u64
    };
    if grown < policy.max_backoff_ms {
        grown
    } else {
        policy.max_backoff_ms
    }
}

proof fn lemma_pow2_31()
    ensures
        pow2(31) == 0x8000_0000,
{
    reveal_with_fuel(pow2, 32);
}

proof fn lemma_pow2_monotone(a: nat, b: nat)
    requires
        a <= b,
    ensures
        pow2(a) <= pow2(b),
        pow2(a) >= 1,
    decreases b,
{
    if a < b {
        lemma_pow2_monotone(a, (b - 1) as nat);
    } else if b > 0 {
        lemma_pow2_monotone(0, (b - 1) as nat);
    }
}

/// The back-off never exceeds the maximum and never shrinks as restarts accumulate.
pub proof fn lemma_backoff_bounded_and_monotone(policy: RestartPolicy, a: u32, b: u32)
    requires
        a <= b,
    ensures
        backoff_ms(policy, a) <= policy.max_backoff_ms,
        backoff_ms(policy, a) <= backoff_ms(policy, b),
{
    let ea: nat = if a == 0 {
        0
    } else if a - 1 > 31 {
        31
    } else {
        (a - 1) as nat
    };
    let eb: nat = if b == 0 {
        0
    } else if b - 1 > 31 {
        31
    } else {
        (b - 1) as nat
    };
    lemma_pow2_monotone(ea, eb);
    let pa = pow2(ea);
    let pb = pow2(eb);
    let x = policy.initial_backoff_ms;
    assert(x * pa <= x * pb) by (nonlinear_arith)
        requires
            pa <= pb,
            x >= 0,
    ;
}

/// The request id of the health check of run `restart_count`.
pub open spec fn health_request_id(restart_count: u32) -> Seq<char> {
    "req_worker_health_"@ + decimal(restart_count as nat)
}

/// The health check sent to a freshly started worker.
pub fn health_request(restart_count: u32) -> (r: Envelope)
    ensures
        r matches Envelope::Request { protocol_version, request_id, kind, payload, context } && protocol_version
            == PROTOCOL_VERSION && request_id.0@ == health_request_id(restart_count) && kind@
            == "health.check"@ && payload.view() == JsonView::Object(
            seq![("includeCapabilities"@, JsonView::Bool(false))],
        ) && context.task_id is None && context.task_run_id is None && context.trace_id is None,
{
    let mut members: Vec<(String, JsonValue)> = Vec::new();
    push_member(&mut members, "includeCapabilities", JsonValue::Bool(false));
    proof {
        assert(members_view(members@) =~= seq![("includeCapabilities"@, JsonView::Bool(false))]);
    }
    Envelope::Request {
        protocol_version: PROTOCOL_VERSION,
        request_id: RequestId(with_decimal("req_worker_health_", restart_count as u64)),
        kind: String::from_str("health.check"),
        payload: JsonValue::object(members),
        context: EnvelopeContext { task_id: None, task_run_id: None, trace_id: None },
    }
}

/// The worker's process id announced by a valid `health.ready` reply to the
/// request `expected`, or why the reply is not one.
pub open spec fn health_ready_outcome(e: Envelope, expected: Seq<char>) -> Result<u32, Seq<char>> {
    match envelope_rejection(e) {
        Some((_, message)) => Err(message),
        None => match e {
            Envelope::Response { request_id, kind, payload, .. } => if request_id.0@ == expected && kind@
                == "health.ready"@ {
                match json_get(payload.view(), "pid"@) {
                    Some(pid) => match json_as_u64(pid) {
                        Some(n) => if n <= u32::MAX {
                            Ok(n as u32)
                        } else {
                            Err("health.ready payload.pid is invalid"@)
                        },
                        None => Err("health.ready payload.pid is invalid"@),
                    },
                    None => Err("health.ready payload.pid is invalid"@),
                }
            } else {
                Err("expected matching health.ready response"@)
            },
            _ => Err("expected matching health.ready response"@),
        },
    }
}

/// Checks the worker's first reply: it must pass protocol validation and be
/// the `health.ready` response to `expected_request_id` with a 32-bit `pid`.
pub fn check_health_ready(envelope: &Envelope, expected_request_id: &RequestId) -> (r: Result<u32, String>)
    ensures
        match health_ready_outcome(*envelope, expected_request_id.0@) {
            Ok(pid) => r == Ok::<u32, String>(pid),
            Err(message) => r matches Err(m) && m@ == message,
        },
{
    match validate_envelope(envelope) {
        Ok(()) => {},
        Err(error) => return Err(error.message),
    }
    let invalid_pid = "health.ready payload.pid is invalid";
    let mismatch = "expected matching health.ready response";
    match envelope {
        Envelope::Response { request_id, kind, payload, .. } => {
            if request_id.0 == expected_request_id.0 && *kind == String::from_str("health.ready") {
                match payload.get("pid") {
                    Some(pid) => match pid.as_u64() {
                        Some(n) => if n <= 0xffff_ffffu64 {
                            Ok(n as u32)
                        } else {
                            Err(String::from_str(invalid_pid))
                        },
                        None => Err(String::from_str(invalid_pid)),
                    },
                    None => Err(String::from_str(invalid_pid)),
                }
            } else {
                Err(String::from_str(mismatch))
            }
        },
        _ => Err(String::from_str(mismatch)),
    }
}

/// Diagnostic `category`/`message` for run `restart_count` with `details`.
pub open spec fn note_is(n: DiagnosticNote, category: Seq<char>, message: Seq<char>, restart_count: u32, details: JsonView) -> bool {
    &&& n.category@ == category
    &&& n.message@ == message
    &&& n.restart_count == restart_count
    &&& n.details.view() == details
}

/// A one-member JSON object.
pub open spec fn single(key: Seq<char>, value: JsonView) -> JsonView {
    JsonView::Object(seq![(key, value)])
}

/// The exit code as JSON: an integer, or `null` when the process had none.
pub open spec fn exit_code_json(code: Option<i32>) -> JsonView {
    match code {
        Some(c) => json_integer(c as int),
        None => JsonView::Null,
    }
}

fn note(category: &str, message: &str, restart_count: u32, key: &str, value: JsonValue) -> (r: DiagnosticNote)
    ensures
        note_is(r, category@, message@, restart_count, single(key@, value.view())),
{
    let mut members: Vec<(String, JsonValue)> = Vec::new();
    push_member(&mut members, key, value);
    proof {
        assert(members_view(members@) =~= seq![(key@, value.view())]);
    }
    DiagnosticNote {
        category: String::from_str(category),
        message: String::from_str(message),
        restart_count,
        details: JsonValue::object(members),
    }
}

fn exit_note(code: Option<i32>, restart_count: u32) -> (r: DiagnosticNote)
    ensures
        note_is(r, "worker_exit"@, "Agent Worker 已退出"@, restart_count, single("exitCode"@, exit_code_json(code))),
{
    let value = match code {
        Some(c) => JsonValue::integer(c as i64),
        None => JsonValue::Null,
    };
    note("worker_exit", "Agent Worker 已退出", restart_count, "exitCode", value)
}

/// The event that reports how run `restart_count` ended.
pub open spec fn outcome_event(outcome: MonitorOutcome, restart_count: u32) -> WorkerEvent {
    match outcome {
        MonitorOutcome::Exited(code) => WorkerEvent::Exited { code, restart_count },
        MonitorOutcome::SpawnFailed(_) => WorkerEvent::Exited { code: None, restart_count },
        MonitorOutcome::ProtocolError(message) => WorkerEvent::ProtocolError { message, restart_count },
        MonitorOutcome::Stopped => WorkerEvent::Stopped,
    }
}

/// What follows run `restart_count` that ended with `outcome`: stop when a stop
/// was requested, give up once `max_restarts` restarts were made, otherwise
/// restart after the back-off.
pub open spec fn step_next(policy: RestartPolicy, restart_count: u32, outcome: MonitorOutcome) -> SupervisorAction {
    if outcome is Stopped {
        SupervisorAction::Stop
    } else if restart_count >= policy.max_restarts {
        SupervisorAction::GiveUp
    } else {
        SupervisorAction::Restart {
            restart_count: (restart_count + 1) as u32,
            delay_ms: backoff_ms(policy, (restart_count + 1) as u32),
        }
    }
}

/// The events published after run `restart_count` ended with `outcome`.
pub open spec fn step_events(policy: RestartPolicy, restart_count: u32, outcome: MonitorOutcome) -> Seq<WorkerEvent> {
    if outcome is Stopped {
        seq![WorkerEvent::Stopped]
    } else {
        seq![
            outcome_event(outcome, restart_count),
            match step_next(policy, restart_count, outcome) {
                SupervisorAction::Restart { restart_count: next, delay_ms } => WorkerEvent::RestartScheduled {
                    restart_count: next,
                    delay_ms,
                },
                _ => WorkerEvent::RestartLimitReached { restart_count },
            },
        ]
    }
}

/// After run `restart_count` of the worker ended with `outcome`: report it,
/// then either stop (a stop was requested), give up (the restart limit is
/// reached), or schedule the next run after the back-off.
pub fn after_outcome(policy: &RestartPolicy, restart_count: u32, outcome: MonitorOutcome) -> (r: SupervisorStep)
    ensures
        r.events@ == step_events(*policy, restart_count, outcome),
        r.next == step_next(*policy, restart_count, outcome),
        outcome is Stopped ==> r.events@ == seq![WorkerEvent::Stopped] && r.diagnostics@.len() == 0
            && r.next is Stop,
        !(outcome is Stopped) ==> {
            let n = r.events@.len();
            let d = r.diagnostics@.len();
            &&& n == 2
            &&& match outcome {
                MonitorOutcome::Exited(code) => r.events@[0] == (WorkerEvent::Exited { code, restart_count })
                    && d >= 1 && note_is(
                    r.diagnostics@[0],
                    "worker_exit"@,
                    "Agent Worker 已退出"@,
                    restart_count,
                    single("exitCode"@, exit_code_json(code)),
                ),
                MonitorOutcome::SpawnFailed(error) => r.events@[0] == (WorkerEvent::Exited {
                    code: None,
                    restart_count,
                }) && d >= 2 && note_is(
                    r.diagnostics@[0],
                    "worker_spawn"@,
                    "Agent Worker 启动失败"@,
                    restart_count,
                    single("error"@, JsonView::Str(error@)),
                ) && note_is(
                    r.diagnostics@[1],
                    "worker_exit"@,
                    "Agent Worker 已退出"@,
                    restart_count,
                    single("exitCode"@, JsonView::Null),
                ),
                MonitorOutcome::ProtocolError(message) => r.events@[0] == (WorkerEvent::ProtocolError {
                    message,
                    restart_count,
                }) && d >= 1 && note_is(
                    r.diagnostics@[0],
                    "worker_protocol"@,
                    "Agent Worker 协议错误"@,
                    restart_count,
                    single("error"@, JsonView::Str(message@)),
                ),
                MonitorOutcome::Stopped => true,
            }
            &&& restart_count >= policy.max_restarts ==> r.events@[1] == (WorkerEvent::RestartLimitReached {
                restart_count,
            }) && r.next is GiveUp && d == (if outcome is SpawnFailed {
                2int
            } else {
                1int
            })
            &&& restart_count < policy.max_restarts ==> {
                let next = (restart_count + 1) as u32;
                let delay = backoff_ms(*policy, next);
                &&& r.events@[1] == (WorkerEvent::RestartScheduled { restart_count: next, delay_ms: delay })
                &&& r.next == (SupervisorAction::Restart { restart_count: next, delay_ms: delay })
                &&& r.next->restart_count <= policy.max_restarts
                &&& d == (if outcome is SpawnFailed {
                    3int
                } else {
                    2int
                })
                &&& note_is(
                    r.diagnostics@[d - 1],
                    "worker_restart"@,
                    "计划重启 Agent Worker"@,
                    next,
                    single("delayMs"@, JsonView::Number(crate::json::NumberView::PosInt(delay))),
                )
            }
        },
{
    let mut events: Vec<WorkerEvent> = Vec::new();
    let mut diagnostics: Vec<DiagnosticNote> = Vec::new();
    match outcome {
        MonitorOutcome::Stopped => {
            events.push(WorkerEvent::Stopped);
            return SupervisorStep { events, diagnostics, next: SupervisorAction::Stop };
        },
        MonitorOutcome::Exited(code) => {
            events.push(WorkerEvent::Exited { code, restart_count });
            diagnostics.push(exit_note(code, restart_count));
        },
        MonitorOutcome::SpawnFailed(error) => {
            diagnostics.push(
                note(
                    "worker_spawn",
                    "Agent Worker 启动失败",
                    restart_count,
                    "error",
                    JsonValue::String(error),
                ),
            );
            events.push(WorkerEvent::Exited { code: None, restart_count });
            diagnostics.push(exit_note(None, restart_count));
        },
        MonitorOutcome::ProtocolError(message) => {
            let detail = JsonValue::String(message.clone());
            events.push(WorkerEvent::ProtocolError { message, restart_count });
            diagnostics.push(
                note("worker_protocol", "Agent Worker 协议错误", restart_count, "error", detail),
            );
        },
    }
    if restart_count >= policy.max_restarts {
        events.push(WorkerEvent::RestartLimitReached { restart_count });
        return SupervisorStep { events, diagnostics, next: SupervisorAction::GiveUp };
    }
    let next = restart_count + 1;
    let delay = backoff_delay(*policy, next);
    events.push(WorkerEvent::RestartScheduled { restart_count: next, delay_ms: delay });
    diagnostics.push(
        note(
            "worker_restart",
            "计划重启 Agent Worker",
            next,
            "delayMs",
            JsonValue::Number(JsonNumber::PosInt(delay)),
        ),
    );
    SupervisorStep {
        events,
        diagnostics,
        next: SupervisorAction::Restart { restart_count: next, delay_ms: delay },
    }
}


/// How the worker's process ended: `code N`, or that a signal ended it.
pub open spec fn exit_status_text(code: Option<i32>) -> Seq<char> {
    match code {
        Some(c) => "code "@ + signed_decimal(c as int),
        None => "terminated by signal"@,
    }
}

/// The text of an exit status, given its exit code (`None` when a signal
/// ended the process).
pub fn format_exit_status(code: Option<i32>) -> (r: String)
    ensures
        r@ == exit_status_text(code),
{
    match code {
        Some(c) => {
            let mut out = String::from_str("code ");
            push_signed_decimal(&mut out, c as i64);
            out
        },
        None => String::from_str("terminated by signal"),
    }
}

/// One observation while waiting for the worker's health reply. The caller
/// looks in this order: a stop request, the process's exit status, the
/// deadline, then the next line of output.
#[derive(Debug)]
pub enum HandshakeObservation {
    /// A stop was requested.
    StopRequested,
    /// Asking whether the process has exited failed, for this reason.
    StatusUnavailable(String),
    /// The process has exited with this exit code (`None`: ended by a signal).
    Exited(Option<i32>),
    /// The health timeout has passed.
    TimedOut,
    /// The worker wrote a line: the envelope it decodes to, or why it does not.
    Line(Result<Envelope, String>),
    /// Nothing arrived within the poll interval.
    Quiet,
    /// The worker's output closed.
    OutputClosed,
}

/// What to do after a handshake observation.
#[derive(Debug)]
pub enum HandshakeStep {
    /// Poll again.
    KeepWaiting,
    /// Terminate the worker; the run ends because a stop was requested.
    Stopped,
    /// The worker is ready and runs as this process.
    Ready(u32),
    /// The handshake failed with this protocol error; terminate the worker.
    Failed(String),
}

/// Decides the handshake after one observation.
pub fn handshake_step(observation: HandshakeObservation, expected_request_id: &RequestId) -> (r: HandshakeStep)
    ensures
        match observation {
            HandshakeObservation::StopRequested => r is Stopped,
            HandshakeObservation::StatusUnavailable(why) => r matches HandshakeStep::Failed(m) && m@ == why@,
            HandshakeObservation::Exited(code) => r matches HandshakeStep::Failed(m) && m@
                == "worker exited before health.ready: "@ + exit_status_text(code),
            HandshakeObservation::TimedOut => r matches HandshakeStep::Failed(m) && m@ == "health.ready timed out"@,
            HandshakeObservation::Line(Ok(e)) => match health_ready_outcome(e, expected_request_id.0@) {
                Ok(pid) => r matches HandshakeStep::Ready(p) && p == pid,
                Err(message) => r matches HandshakeStep::Failed(m) && m@ == message,
            },
            HandshakeObservation::Line(Err(why)) => r matches HandshakeStep::Failed(m) && m@ == why@,
            HandshakeObservation::Quiet => r is KeepWaiting,
            HandshakeObservation::OutputClosed => r matches HandshakeStep::Failed(m) && m@
                == "worker stdout closed before health.ready"@,
        },
{
    match observation {
        HandshakeObservation::StopRequested => HandshakeStep::Stopped,
        HandshakeObservation::StatusUnavailable(why) => HandshakeStep::Failed(why),
        HandshakeObservation::Exited(code) => {
            let mut message = String::from_str("worker exited before health.ready: ");
            let status = format_exit_status(code);
            message.append(status.as_str());
            HandshakeStep::Failed(message)
        },
        HandshakeObservation::TimedOut => HandshakeStep::Failed(String::from_str("health.ready timed out")),
        HandshakeObservation::Line(Ok(envelope)) => match check_health_ready(&envelope, expected_request_id) {
            Ok(pid) => HandshakeStep::Ready(pid),
            Err(message) => HandshakeStep::Failed(message),
        },
        HandshakeObservation::Line(Err(why)) => HandshakeStep::Failed(why),
        HandshakeObservation::Quiet => HandshakeStep::KeepWaiting,
        HandshakeObservation::OutputClosed => HandshakeStep::Failed(
            String::from_str("worker stdout closed before health.ready"),
        ),
    }
}

/// One observation while the ready worker runs. The caller looks in this
/// order: a stop request, the process's exit status, then the next line.
#[derive(Debug)]
pub enum MonitorObservation {
    /// A stop was requested.
    StopRequested,
    /// Asking whether the process has exited failed, for this reason.
    StatusUnavailable(String),
    /// The process has exited with this exit code.
    Exited(Option<i32>),
    /// The worker wrote a line: the envelope it decodes to, or why it does not.
    Line(Result<Envelope, String>),
    /// Nothing arrived within the poll interval.
    Quiet,
    /// The worker's output closed.
    OutputClosed,
}

/// What to do after a monitoring observation.
#[derive(Debug)]
pub enum MonitorStep {
    /// Poll again.
    KeepWatching,
    /// Hand this validated message on, then poll again.
    Deliver(Envelope),
    /// End the run with `outcome`, terminating the worker first when `terminate`.
    End { outcome: MonitorOutcome, terminate: bool },
    /// The output closed: poll the exit status for a short while (see `closed_output_step`).
    AwaitExit,
}

/// Decides the monitoring of a ready worker after one observation. Every
/// message is validated before it is handed on; an invalid one ends the run.
pub fn monitor_step(observation: MonitorObservation) -> (r: MonitorStep)
    ensures
        match observation {
            MonitorObservation::StopRequested => r matches MonitorStep::End { outcome: MonitorOutcome::Stopped, terminate: true },
            MonitorObservation::StatusUnavailable(why) => r matches MonitorStep::End {
                outcome: MonitorOutcome::SpawnFailed(m),
                terminate: false,
            } && m@ == why@,
            MonitorObservation::Exited(code) => r matches MonitorStep::End {
                outcome: MonitorOutcome::Exited(c),
                terminate: false,
            } && c == code,
            MonitorObservation::Line(Ok(e)) => match envelope_rejection(e) {
                None => r == MonitorStep::Deliver(e),
                Some((_, message)) => r matches MonitorStep::End {
                    outcome: MonitorOutcome::ProtocolError(m),
                    terminate: true,
                } && m@ == message,
            },
            MonitorObservation::Line(Err(why)) => r matches MonitorStep::End {
                outcome: MonitorOutcome::ProtocolError(m),
                terminate: true,
            } && m@ == why@,
            MonitorObservation::Quiet => r is KeepWatching,
            MonitorObservation::OutputClosed => r is AwaitExit,
        },
{
    match observation {
        MonitorObservation::StopRequested => MonitorStep::End { outcome: MonitorOutcome::Stopped, terminate: true },
        MonitorObservation::StatusUnavailable(why) => MonitorStep::End {
            outcome: MonitorOutcome::SpawnFailed(why),
            terminate: false,
        },
        MonitorObservation::Exited(code) => MonitorStep::End { outcome: MonitorOutcome::Exited(code), terminate: false },
        MonitorObservation::Line(Ok(envelope)) => match validate_envelope(&envelope) {
            Ok(()) => MonitorStep::Deliver(envelope),
            Err(error) => MonitorStep::End {
                outcome: MonitorOutcome::ProtocolError(error.message),
                terminate: true,
            },
        },
        MonitorObservation::Line(Err(why)) => MonitorStep::End {
            outcome: MonitorOutcome::ProtocolError(why),
            terminate: true,
        },
        MonitorObservation::Quiet => MonitorStep::KeepWatching,
        MonitorObservation::OutputClosed => MonitorStep::AwaitExit,
    }
}

/// After the output of a ready worker closed, the process may not have
/// reported its exit yet. `exit` is what polling the exit status gave
/// (`Ok(None)`: still running); past the grace deadline a still-running
/// worker is a protocol error, since it can no longer talk.
pub fn closed_output_step(exit: Result<Option<Option<i32>>, String>, deadline_passed: bool) -> (r: MonitorStep)
    ensures
        match exit {
            Ok(Some(code)) => r matches MonitorStep::End { outcome: MonitorOutcome::Exited(c), terminate: false }
                && c == code,
            Err(why) => r matches MonitorStep::End { outcome: MonitorOutcome::SpawnFailed(m), terminate: false }
                && m@ == why@,
            Ok(None) => if deadline_passed {
                r matches MonitorStep::End { outcome: MonitorOutcome::ProtocolError(m), terminate: true } && m@
                    == "worker stdout closed while process was running"@
            } else {
                r is AwaitExit
            },
        },
{
    match exit {
        Ok(Some(code)) => MonitorStep::End { outcome: MonitorOutcome::Exited(code), terminate: false },
        Err(why) => MonitorStep::End { outcome: MonitorOutcome::SpawnFailed(why), terminate: false },
        Ok(None) => if deadline_passed {
            MonitorStep::End {
                outcome: MonitorOutcome::ProtocolError(String::from_str("worker stdout closed while process was running")),
                terminate: true,
            }
        } else {
            MonitorStep::AwaitExit
        },
    }
}

} // verus!

verus! {

// ---------------------------------------------------------------------------
// Whole supervision runs

/// What the supervision loop observes around one run of the worker.
#[derive(Debug)]
pub struct RunRound {
    /// A stop request is pending when the run would start.
    pub stop_before_start: bool,
    /// The handshake succeeded and the worker runs as this process.
    pub ready_pid: Option<u32>,
    /// How the run ended.
    pub outcome: MonitorOutcome,
    /// A stop request arrives while waiting out the back-off after the run.
    pub stop_during_backoff: bool,
}

/// The `Ready` event of a run whose handshake succeeded.
pub open spec fn ready_events(round: RunRound, restart_count: u32) -> Seq<WorkerEvent> {
    match round.ready_pid {
        Some(pid) => seq![WorkerEvent::Ready { pid, restart_count }],
        None => Seq::empty(),
    }
}

/// The events of run `restart_count`, from its start to what follows its end.
pub open spec fn round_events(policy: RestartPolicy, restart_count: u32, round: RunRound) -> Seq<WorkerEvent> {
    seq![WorkerEvent::Starting { restart_count }] + ready_events(round, restart_count) + step_events(
        policy,
        restart_count,
        round.outcome,
    )
}

/// The events the supervision loop publishes, from run `restart_count` on,
/// when the runs go as `rounds` says: a pending stop ends supervision with
/// `Stopped`; otherwise the run starts, is reported, and supervision stops,
/// gives up, or waits out the back-off (a stop there ends it with `Stopped`)
/// and goes on with the next run.
pub open spec fn run_events(policy: RestartPolicy, restart_count: u32, rounds: Seq<RunRound>) -> Seq<WorkerEvent>
    decreases rounds.len(),
{
    if rounds.len() == 0 {
        Seq::empty()
    } else if rounds[0].stop_before_start {
        seq![WorkerEvent::Stopped]
    } else {
        let here = round_events(policy, restart_count, rounds[0]);
        match step_next(policy, restart_count, rounds[0].outcome) {
            SupervisorAction::Restart { restart_count: next, .. } => if rounds[0].stop_during_backoff {
                here.push(WorkerEvent::Stopped)
            } else {
                here + run_events(policy, next, rounds.drop_first())
            },
            _ => here,
        }
    }
}

/// An event after which supervision publishes nothing more.
pub open spec fn finishing(e: WorkerEvent) -> bool {
    e is Stopped || e is RestartLimitReached
}

/// The restart counts of the `Starting` events, in order.
pub open spec fn start_counts(ev: Seq<WorkerEvent>) -> Seq<u32>
    decreases ev.len(),
{
    if ev.len() == 0 {
        Seq::empty()
    } else {
        (match ev[0] {
            WorkerEvent::Starting { restart_count } => seq![restart_count],
            _ => Seq::empty(),
        }) + start_counts(ev.drop_first())
    }
}

/// The restart count and delay of the `RestartScheduled` events, in order.
pub open spec fn scheduled_restarts(ev: Seq<WorkerEvent>) -> Seq<(u32, u64)>
    decreases ev.len(),
{
    if ev.len() == 0 {
        Seq::empty()
    } else {
        (match ev[0] {
            WorkerEvent::RestartScheduled { restart_count, delay_ms } => seq![(restart_count, delay_ms)],
            _ => Seq::empty(),
        }) + scheduled_restarts(ev.drop_first())
    }
}

proof fn lemma_collect_add(a: Seq<WorkerEvent>, b: Seq<WorkerEvent>)
    ensures
        start_counts(a + b) == start_counts(a) + start_counts(b),
        scheduled_restarts(a + b) == scheduled_restarts(a) + scheduled_restarts(b),
    decreases a.len(),
{
    if a.len() == 0 {
        assert(a + b =~= b);
        assert(start_counts(a) + start_counts(b) =~= start_counts(b));
        assert(scheduled_restarts(a) + scheduled_restarts(b) =~= scheduled_restarts(b));
    } else {
        assert((a + b)[0] == a[0]);
        assert((a + b).drop_first() =~= a.drop_first() + b);
        lemma_collect_add(a.drop_first(), b);
        let s = match a[0] {
            WorkerEvent::Starting { restart_count } => seq![restart_count],
            _ => Seq::<u32>::empty(),
        };
        let t = match a[0] {
            WorkerEvent::RestartScheduled { restart_count, delay_ms } => seq![(restart_count, delay_ms)],
            _ => Seq::<(u32, u64)>::empty(),
        };
        assert(s + (start_counts(a.drop_first()) + start_counts(b)) =~= (s + start_counts(a.drop_first()))
            + start_counts(b));
        assert(t + (scheduled_restarts(a.drop_first()) + scheduled_restarts(b)) =~= (t + scheduled_restarts(
            a.drop_first(),
        )) + scheduled_restarts(b));
    }
}

proof fn lemma_collect_single(e: WorkerEvent)
    ensures
        start_counts(seq![e]) == match e {
            WorkerEvent::Starting { restart_count } => seq![restart_count],
            _ => Seq::<u32>::empty(),
        },
        scheduled_restarts(seq![e]) == match e {
            WorkerEvent::RestartScheduled { restart_count, delay_ms } => seq![(restart_count, delay_ms)],
            _ => Seq::<(u32, u64)>::empty(),
        },
{
    let one = seq![e];
    assert(one[0] == e);
    assert(one.drop_first() =~= Seq::<WorkerEvent>::empty());
    assert(start_counts(one.drop_first()) == Seq::<u32>::empty());
    assert(scheduled_restarts(one.drop_first()) == Seq::<(u32, u64)>::empty());
    assert(start_counts(seq![e]) =~= (match e {
        WorkerEvent::Starting { restart_count } => seq![restart_count],
        _ => Seq::<u32>::empty(),
    }) + Seq::<u32>::empty());
    assert(scheduled_restarts(seq![e]) =~= (match e {
        WorkerEvent::RestartScheduled { restart_count, delay_ms } => seq![(restart_count, delay_ms)],
        _ => Seq::<(u32, u64)>::empty(),
    }) + Seq::<(u32, u64)>::empty());
}

/// The layout of one run that neither stops nor was stopped: its start, its
/// `Ready` event if it had one, the report of its end, and what follows.
proof fn lemma_round_layout(policy: RestartPolicy, c: u32, round: RunRound)
    requires
        !(round.outcome is Stopped),
    ensures
        ({
            let r = round_events(policy, c, round);
            let n = r.len();
            &&& n == 3 + ready_events(round, c).len()
            &&& r[0] == (WorkerEvent::Starting { restart_count: c })
            &&& r[n - 2] == outcome_event(round.outcome, c)
            &&& r[n - 1] == step_events(policy, c, round.outcome)[1]
            &&& forall|i: int| 0 < i < n ==> !(#[trigger] r[i] is Starting)
            &&& forall|i: int| 0 <= i < n - 1 ==> !finishing(#[trigger] r[i])
            &&& start_counts(r) == seq![c]
            &&& scheduled_restarts(r) == match r[n - 1] {
                WorkerEvent::RestartScheduled { restart_count, delay_ms } => seq![(restart_count, delay_ms)],
                _ => Seq::<(u32, u64)>::empty(),
            }
        }),
{
    let start = seq![WorkerEvent::Starting { restart_count: c }];
    let ready = ready_events(round, c);
    let step = step_events(policy, c, round.outcome);
    let r = round_events(policy, c, round);
    assert(step.len() == 2);
    assert(step =~= seq![step[0]] + seq![step[1]]);
    lemma_collect_single(WorkerEvent::Starting { restart_count: c });
    lemma_collect_single(step[0]);
    lemma_collect_single(step[1]);
    lemma_collect_add(seq![step[0]], seq![step[1]]);
    lemma_collect_add(start, ready);
    lemma_collect_add(start + ready, step);
    match round.ready_pid {
        Some(pid) => {
            lemma_collect_single(WorkerEvent::Ready { pid, restart_count: c });
        },
        None => {
            assert(start_counts(ready) =~= Seq::<u32>::empty());
            assert(scheduled_restarts(ready) =~= Seq::<(u32, u64)>::empty());
        },
    }
    assert(start_counts(r) =~= seq![c]);
    assert(scheduled_restarts(r) =~= match r[r.len() - 1] {
        WorkerEvent::RestartScheduled { restart_count, delay_ms } => seq![(restart_count, delay_ms)],
        _ => Seq::<(u32, u64)>::empty(),
    });
}

/// A stop request reaches supervision around this run: pending before it
/// starts, observed while it runs, or arriving during the back-off after it.
pub open spec fn stop_signalled(round: RunRound) -> bool {
    round.stop_before_start || round.outcome is Stopped || round.stop_during_backoff
}

/// Supervision publishes at most one finishing event (`Stopped` or
/// `RestartLimitReached`), and nothing after it. A stop pending before the
/// first run is answered with `Stopped` alone. Once a stop is signalled around
/// some run (before it, during it, or during the back-off after it),
/// supervision has ended by that run with exactly one finishing event, the
/// last one published: `Stopped`, or `RestartLimitReached` when the limit was
/// reached before the stop was seen.
#[verifier::rlimit(50)]
#[verifier::spinoff_prover]
pub proof fn lemma_run_ends_once(policy: RestartPolicy, restart_count: u32, rounds: Seq<RunRound>)
    ensures
        forall|i: int|
            0 <= i < run_events(policy, restart_count, rounds).len() - 1 ==> !finishing(
                #[trigger] run_events(policy, restart_count, rounds)[i],
            ),
        rounds.len() > 0 && rounds[0].stop_before_start ==> run_events(policy, restart_count, rounds)
            == seq![WorkerEvent::Stopped],
        (exists|j: int| 0 <= j < rounds.len() && #[trigger] stop_signalled(rounds[j])) ==> run_events(
            policy,
            restart_count,
            rounds,
        ).len() > 0 && finishing(run_events(policy, restart_count, rounds).last()),
    decreases rounds.len(),
{
    let ev = run_events(policy, restart_count, rounds);
    if rounds.len() == 0 || rounds[0].stop_before_start {
        return;
    }
    let round = rounds[0];
    let here = round_events(policy, restart_count, round);
    if round.outcome is Stopped {
        assert(step_events(policy, restart_count, round.outcome) == seq![WorkerEvent::Stopped]);
        match round.ready_pid {
            Some(pid) => {},
            None => {},
        }
        assert(ev == here);
        assert(ev.last() == WorkerEvent::Stopped);
        assert forall|i: int| 0 <= i < ev.len() - 1 implies !finishing(#[trigger] ev[i]) by {
            if i > 0 {
                assert(ev[i] is Ready);
            }
        }
        return;
    }
    lemma_round_layout(policy, restart_count, round);
    let rest = rounds.drop_first();
    match step_next(policy, restart_count, round.outcome) {
        SupervisorAction::Restart { restart_count: next, .. } => {
            if round.stop_during_backoff {
                assert(ev == here.push(WorkerEvent::Stopped));
                assert(here[here.len() - 1] is RestartScheduled);
                assert forall|i: int| 0 <= i < ev.len() - 1 implies !finishing(#[trigger] ev[i]) by {
                    assert(ev[i] == here[i]);
                }
            } else {
                lemma_run_ends_once(policy, next, rest);
                let tail = run_events(policy, next, rest);
                assert(ev == here + tail);
                assert(here[here.len() - 1] is RestartScheduled);
                assert forall|i: int| 0 <= i < ev.len() - 1 implies !finishing(#[trigger] ev[i]) by {
                    if i < here.len() {
                        assert(ev[i] == here[i]);
                    } else {
                        assert(ev[i] == tail[i - here.len()]);
                    }
                }
                if exists|j: int| 0 <= j < rounds.len() && #[trigger] stop_signalled(rounds[j]) {
                    let j = choose|j: int| 0 <= j < rounds.len() && #[trigger] stop_signalled(rounds[j]);
                    assert(j > 0);
                    assert(rest[j - 1] == rounds[j]);
                    assert(stop_signalled(rest[j - 1]));
                    assert(tail.len() > 0);
                    assert(ev.last() == tail.last());
                }
            }
        },
        _ => {
            assert(ev == here);
            assert(here[here.len() - 1] is RestartLimitReached);
        },
    }
}

/// Runs that all end without a stop (exit, protocol error or a failed spawn)
/// make supervision start the worker `max_restarts + 1` times, numbered from
/// 0 up to `max_restarts`; every restart is scheduled, with the back-off of
/// its number, right before the start it announces; and supervision ends
/// with `RestartLimitReached` for the last run.
pub proof fn lemma_failing_runs_reach_the_limit(policy: RestartPolicy, restart_count: u32, rounds: Seq<RunRound>)
    requires
        restart_count <= policy.max_restarts,
        rounds.len() >= policy.max_restarts - restart_count + 1,
        forall|i: int|
            0 <= i < rounds.len() ==> !(#[trigger] rounds[i]).stop_before_start && !rounds[i].stop_during_backoff
                && !(rounds[i].outcome is Stopped),
    ensures
        ({
            let ev = run_events(policy, restart_count, rounds);
            let m = policy.max_restarts;
            &&& start_counts(ev) == Seq::new(
                (m - restart_count + 1) as nat,
                |k: int| (restart_count + k) as u32,
            )
            &&& scheduled_restarts(ev) == Seq::new(
                (m - restart_count) as nat,
                |k: int| ((restart_count + k + 1) as u32, backoff_ms(policy, (restart_count + k + 1) as u32)),
            )
            &&& ev.len() > 0
            &&& ev[0] == (WorkerEvent::Starting { restart_count })
            &&& ev.last() == (WorkerEvent::RestartLimitReached { restart_count: m })
            &&& forall|i: int|
                0 < i < ev.len() && (#[trigger] ev[i] is Starting) ==> ev[i - 1] == (WorkerEvent::RestartScheduled {
                    restart_count: ev[i]->Starting_restart_count,
                    delay_ms: backoff_ms(policy, ev[i]->Starting_restart_count),
                })
        }),
    decreases policy.max_restarts - restart_count,
{
    let m = policy.max_restarts;
    let c = restart_count;
    let ev = run_events(policy, c, rounds);
    let round = rounds[0];
    let here = round_events(policy, c, round);
    lemma_round_layout(policy, c, round);
    if c == m {
        assert(ev == here);
        assert(start_counts(ev) =~= Seq::new(1, |k: int| (c + k) as u32));
        assert(scheduled_restarts(ev) =~= Seq::new(
            0,
            |k: int| ((c + k + 1) as u32, backoff_ms(policy, (c + k + 1) as u32)),
        ));
    } else {
        let next = (c + 1) as u32;
        let rest = rounds.drop_first();
        assert forall|i: int| 0 <= i < rest.len() implies !(#[trigger] rest[i]).stop_before_start
            && !rest[i].stop_during_backoff && !(rest[i].outcome is Stopped) by {
            assert(rest[i] == rounds[i + 1]);
        }
        lemma_failing_runs_reach_the_limit(policy, next, rest);
        let tail = run_events(policy, next, rest);
        assert(ev == here + tail);
        lemma_collect_add(here, tail);
        assert(start_counts(ev) =~= Seq::new((m - c + 1) as nat, |k: int| (c + k) as u32));
        assert(scheduled_restarts(ev) =~= Seq::new(
            (m - c) as nat,
            |k: int| ((c + k + 1) as u32, backoff_ms(policy, (c + k + 1) as u32)),
        ));
        assert(ev.last() == tail.last());
        assert forall|i: int| 0 < i < ev.len() && (#[trigger] ev[i] is Starting) implies ev[i - 1]
            == (WorkerEvent::RestartScheduled {
            restart_count: ev[i]->Starting_restart_count,
            delay_ms: backoff_ms(policy, ev[i]->Starting_restart_count),
        }) by {
            if i < here.len() {
                assert(ev[i] == here[i]);
            } else if i == here.len() {
                assert(ev[i] == tail[0]);
                assert(ev[i - 1] == here[here.len() - 1]);
            } else {
                assert(ev[i] == tail[i - here.len()]);
                assert(ev[i - 1] == tail[i - 1 - here.len()]);
            }
        }
    }
}

} // verus!
