//! A session with one kernel: the runtime descriptor, the endpoints of the
//! five channels, the attach sequence with its rollback, and the decisions
//! taken on each message read from the shell and broadcast channels.
use crate::message::{constructed, correlated, execute_content, execute_request_content, shutdown_signal};
use crate::wire::{EnvelopeModel, MessageEnvelope, ProtocolError};
use vstd::prelude::*;

verus! {

/// The error taxonomy of the protocol core.
#[derive(Debug, Clone, Copy, PartialEq, Eq, Structural)]
pub enum RuntimeError {
    ConnectError,
    Protocol(ProtocolError),
    ConnectionClosed,
    Closed,
    /// Attach failed: the channel of this role could not be connected.
    AttachError(Role),
    DetachTimeout,
    AppendError,
}

/// How a kernel is launched: kept for the hosting layer, not interpreted here.
pub struct JupyterEnvironment {
    pub process: String,
    pub argv: Vec<String>,
    pub display_name: String,
    pub language: String,
}

/// A running kernel as discovery describes it. The id is the runtime's UUID
/// in text form; `kernel_info` holds JSON text. An empty key means unsigned
/// messages.
pub struct JupyterRuntime {
    pub id: String,
    pub shell_port: u16,
    pub iopub_port: u16,
    pub stdin_port: u16,
    pub control_port: u16,
    pub hb_port: u16,
    pub kernel_name: String,
    pub ip: String,
    pub key: Vec<u8>,
    pub transport: String,
    pub signature_scheme: String,
    pub connection_file: String,
    pub state: String,
    pub kernel_info: Vec<u8>,
}

/// The five channels of a session.
#[derive(Debug, Clone, Copy, PartialEq, Eq, Structural)]
pub enum Role {
    Iopub,
    Shell,
    Stdin,
    Control,
    Heartbeat,
}

/// The number of channels a session owns.
pub const CHANNELS: usize = 5;

/// The order in which attach opens the channels: broadcast first.
pub open spec fn attach_order(i: int) -> Role {
    if i == 0 {
        Role::Iopub
    } else if i == 1 {
        Role::Shell
    } else if i == 2 {
        Role::Stdin
    } else if i == 3 {
        Role::Control
    } else {
        Role::Heartbeat
    }
}

/// The role opened at position `i` of the attach sequence.
pub fn role_at(i: usize) -> (r: Role)
    requires
        i < CHANNELS,
    ensures
        r == attach_order(i as int),
{
    if i == 0 {
        Role::Iopub
    } else if i == 1 {
        Role::Shell
    } else if i == 2 {
        Role::Stdin
    } else if i == 3 {
        Role::Control
    } else {
        Role::Heartbeat
    }
}

/// The decimal digit character of a value below ten.
pub open spec fn digit_char(d: nat) -> char {
    if d == 0 { '0' } else if d == 1 { '1' } else if d == 2 { '2' } else if d == 3 { '3' }
    else if d == 4 { '4' } else if d == 5 { '5' } else if d == 6 { '6' } else if d == 7 { '7' }
    else if d == 8 { '8' } else { '9' }
}

/// Decimal text of a natural number, without leading zeros.
pub open spec fn decimal_of(n: nat) -> Seq<char>
    decreases n,
{
    if n < 10 {
        seq![digit_char(n)]
    } else {
        decimal_of(n / 10) + seq![digit_char(n % 10)]
    }
}

fn digit_str(d: u16) -> (r: &'static str)
    requires
        d < 10,
    ensures
        r@ == seq![digit_char(d as nat)],
{
    proof {
        reveal_strlit("0");
        reveal_strlit("1");
        reveal_strlit("2");
        reveal_strlit("3");
        reveal_strlit("4");
        reveal_strlit("5");
        reveal_strlit("6");
        reveal_strlit("7");
        reveal_strlit("8");
        reveal_strlit("9");
    }
    let r = if d == 0 { "0" } else if d == 1 { "1" } else if d == 2 { "2" } else if d == 3 { "3" }
    else if d == 4 { "4" } else if d == 5 { "5" } else if d == 6 { "6" } else if d == 7 { "7" }
    else if d == 8 { "8" } else { "9" };
    assert(r@ =~= seq![digit_char(d as nat)]);
    r
}

/// Decimal text of `n`.
pub fn decimal(n: u16) -> (r: String)
    ensures
        r@ == decimal_of(n as nat),
    decreases n,
{
    if n < 10 {
        String::from_str(digit_str(n))
    } else {
        let mut s = decimal(n / 10);
        s.append(digit_str(n % 10));
        s
    }
}

/// The endpoint `transport://address:port`.
pub open spec fn endpoint_of(transport: Seq<char>, ip: Seq<char>, port: u16) -> Seq<char> {
    transport + "://"@ + ip + ":"@ + decimal_of(port as nat)
}

impl JupyterRuntime {
    /// The port of a channel.
    pub open spec fn port_spec(&self, role: Role) -> u16 {
        match role {
            Role::Iopub => self.iopub_port,
            Role::Shell => self.shell_port,
            Role::Stdin => self.stdin_port,
            Role::Control => self.control_port,
            Role::Heartbeat => self.hb_port,
        }
    }

    /// The ports are role-distinct.
    pub open spec fn ports_distinct(&self) -> bool {
        forall|a: Role, b: Role| a != b ==> self.port_spec(a) != self.port_spec(b)
    }

    pub fn port(&self, role: Role) -> (r: u16)
        ensures
            r == self.port_spec(role),
    {
        match role {
            Role::Iopub => self.iopub_port,
            Role::Shell => self.shell_port,
            Role::Stdin => self.stdin_port,
            Role::Control => self.control_port,
            Role::Heartbeat => self.hb_port,
        }
    }

    /// Whether the five ports are role-distinct.
    pub fn has_distinct_ports(&self) -> (r: bool)
        ensures
            r == self.ports_distinct(),
    {
        let ports = [self.iopub_port, self.shell_port, self.stdin_port, self.control_port, self.hb_port];
        let distinct = ports[0] != ports[1] && ports[0] != ports[2] && ports[0] != ports[3] && ports[0]
            != ports[4] && ports[1] != ports[2] && ports[1] != ports[3] && ports[1] != ports[4] && ports[2]
            != ports[3] && ports[2] != ports[4] && ports[3] != ports[4];
        proof {
            if !distinct {
                assert(exists|a: Role, b: Role| a != b && self.port_spec(a) == self.port_spec(b)) by {
                    if ports[0] == ports[1] { assert(self.port_spec(Role::Iopub) == self.port_spec(Role::Shell)); }
                    else if ports[0] == ports[2] { assert(self.port_spec(Role::Iopub) == self.port_spec(Role::Stdin)); }
                    else if ports[0] == ports[3] { assert(self.port_spec(Role::Iopub) == self.port_spec(Role::Control)); }
                    else if ports[0] == ports[4] { assert(self.port_spec(Role::Iopub) == self.port_spec(Role::Heartbeat)); }
                    else if ports[1] == ports[2] { assert(self.port_spec(Role::Shell) == self.port_spec(Role::Stdin)); }
                    else if ports[1] == ports[3] { assert(self.port_spec(Role::Shell) == self.port_spec(Role::Control)); }
                    else if ports[1] == ports[4] { assert(self.port_spec(Role::Shell) == self.port_spec(Role::Heartbeat)); }
                    else if ports[2] == ports[3] { assert(self.port_spec(Role::Stdin) == self.port_spec(Role::Control)); }
                    else if ports[2] == ports[4] { assert(self.port_spec(Role::Stdin) == self.port_spec(Role::Heartbeat)); }
                    else { assert(self.port_spec(Role::Control) == self.port_spec(Role::Heartbeat)); }
                }
            }
        }
        distinct
    }

    /// The endpoint a channel connects to.
    pub fn endpoint(&self, role: Role) -> (r: String)
        ensures
            r@ == endpoint_of(self.transport@, self.ip@, self.port_spec(role)),
    {
        let mut s = self.transport.clone();
        s.append("://");
        s.append(self.ip.as_str());
        s.append(":");
        let p = decimal(self.port(role));
        s.append(p.as_str());
        s
    }
}

/// Where an attach attempt stands.
#[derive(Debug, Clone, Copy, PartialEq, Eq, Structural)]
pub enum AttachPhase {
    Connecting,
    RollingBack,
    Attached,
    Failed,
}

/// What the host reports after performing the last action.
#[derive(Debug, Clone, Copy, PartialEq, Eq, Structural)]
pub enum AttachEvent {
    Connected,
    ConnectFailed,
    Closed,
}

/// What the host must do next.
#[derive(Debug, Clone, Copy, PartialEq, Eq, Structural)]
pub enum AttachAction {
    Connect(Role),
    Close(Role),
    /// All five channels are open: the session is attached.
    Attached,
    /// The attempt failed and no channel of it is open: report `AttachError`.
    Failed,
    /// The event does not fit the phase: nothing to do.
    Ignore,
}

/// The state of an attach attempt: the first `opened` channels of the attach
/// order are open.
#[derive(Debug, Clone, Copy, PartialEq, Eq, Structural)]
pub struct AttachPlan {
    pub opened: usize,
    pub phase: AttachPhase,
}

pub open spec fn wf_plan(p: AttachPlan) -> bool {
    &&& p.opened <= CHANNELS
    &&& p.phase == AttachPhase::Attached ==> p.opened == CHANNELS
    &&& p.phase == AttachPhase::Failed ==> p.opened == 0
    &&& p.phase == AttachPhase::Connecting ==> p.opened < CHANNELS
    &&& p.phase == AttachPhase::RollingBack ==> p.opened > 0
}

/// One step of the attach sequence.
pub open spec fn attach_step(p: AttachPlan, e: AttachEvent) -> (AttachPlan, AttachAction) {
    match (p.phase, e) {
        (AttachPhase::Connecting, AttachEvent::Connected) => if p.opened + 1 >= CHANNELS {
            (AttachPlan { opened: CHANNELS, phase: AttachPhase::Attached }, AttachAction::Attached)
        } else {
            (
                AttachPlan { opened: (p.opened + 1) as usize, phase: AttachPhase::Connecting },
                AttachAction::Connect(attach_order(p.opened + 1)),
            )
        },
        (AttachPhase::Connecting, AttachEvent::ConnectFailed) => if p.opened == 0 {
            (AttachPlan { opened: 0, phase: AttachPhase::Failed }, AttachAction::Failed)
        } else {
            (
                AttachPlan { opened: p.opened, phase: AttachPhase::RollingBack },
                AttachAction::Close(attach_order(p.opened - 1)),
            )
        },
        (AttachPhase::RollingBack, AttachEvent::Closed) => if p.opened <= 1 {
            (AttachPlan { opened: 0, phase: AttachPhase::Failed }, AttachAction::Failed)
        } else {
            (
                AttachPlan { opened: (p.opened - 1) as usize, phase: AttachPhase::RollingBack },
                AttachAction::Close(attach_order(p.opened - 2)),
            )
        },
        _ => (p, AttachAction::Ignore),
    }
}

/// The state after feeding `events` one by one.
pub open spec fn attach_run(p: AttachPlan, events: Seq<AttachEvent>) -> AttachPlan
    decreases events.len(),
{
    if events.len() == 0 {
        p
    } else {
        attach_run(attach_step(p, events[0]).0, events.drop_first())
    }
}

/// The action answering the last of `events`.
pub open spec fn attach_last_action(p: AttachPlan, events: Seq<AttachEvent>) -> AttachAction
    decreases events.len(),
{
    if events.len() == 0 {
        AttachAction::Ignore
    } else if events.len() == 1 {
        attach_step(p, events[0]).1
    } else {
        attach_last_action(attach_step(p, events[0]).0, events.drop_first())
    }
}

pub open spec fn attach_start() -> AttachPlan {
    AttachPlan { opened: 0, phase: AttachPhase::Connecting }
}

impl AttachPlan {
    /// A fresh attempt and its first action: connect the broadcast channel.
    pub fn start() -> (r: (AttachPlan, AttachAction))
        ensures
            r.0 == attach_start(),
            r.1 == AttachAction::Connect(attach_order(0)),
    {
        (AttachPlan { opened: 0, phase: AttachPhase::Connecting }, AttachAction::Connect(Role::Iopub))
    }

    /// Takes the outcome of the last action and returns the next one. A
    /// failure to connect closes, newest first, every channel opened so far
    /// before the attempt fails.
    pub fn step(&mut self, event: AttachEvent) -> (r: AttachAction)
        requires
            wf_plan(*old(self)),
        ensures
            (*final(self), r) == attach_step(*old(self), event),
            wf_plan(*final(self)),
    {
        match (self.phase, event) {
            (AttachPhase::Connecting, AttachEvent::Connected) => {
                if self.opened + 1 >= CHANNELS {
                    self.opened = CHANNELS;
                    self.phase = AttachPhase::Attached;
                    AttachAction::Attached
                } else {
                    self.opened = self.opened + 1;
                    AttachAction::Connect(role_at(self.opened))
                }
            },
            (AttachPhase::Connecting, AttachEvent::ConnectFailed) => {
                if self.opened == 0 {
                    self.phase = AttachPhase::Failed;
                    AttachAction::Failed
                } else {
                    self.phase = AttachPhase::RollingBack;
                    AttachAction::Close(role_at(self.opened - 1))
                }
            },
            (AttachPhase::RollingBack, AttachEvent::Closed) => {
                if self.opened <= 1 {
                    self.opened = 0;
                    self.phase = AttachPhase::Failed;
                    AttachAction::Failed
                } else {
                    self.opened = self.opened - 1;
                    AttachAction::Close(role_at(self.opened - 1))
                }
            },
            _ => AttachAction::Ignore,
        }
    }
}

proof fn lemma_attach_run_append(p: AttachPlan, a: Seq<AttachEvent>, b: Seq<AttachEvent>)
    ensures
        attach_run(p, a + b) == attach_run(attach_run(p, a), b),
        b.len() > 0 ==> attach_last_action(p, a + b) == attach_last_action(attach_run(p, a), b),
    decreases a.len(),
{
    if a.len() > 0 {
        assert((a + b).drop_first() =~= a.drop_first() + b);
        lemma_attach_run_append(attach_step(p, a[0]).0, a.drop_first(), b);
    } else {
        assert(a + b =~= b);
    }
}

proof fn lemma_connects(k: nat)
    requires
        k < CHANNELS,
    ensures
        attach_run(attach_start(), Seq::new(k, |i: int| AttachEvent::Connected)) == (AttachPlan {
            opened: k as usize,
            phase: AttachPhase::Connecting,
        }),
    decreases k,
{
    reveal_with_fuel(attach_run, 2);
    if k == 0 {
        assert(Seq::new(k, |i: int| AttachEvent::Connected) =~= Seq::<AttachEvent>::empty());
    } else {
        let prev = Seq::new((k - 1) as nat, |i: int| AttachEvent::Connected);
        lemma_connects((k - 1) as nat);
        assert(Seq::new(k, |i: int| AttachEvent::Connected) =~= prev + seq![AttachEvent::Connected]);
        lemma_attach_run_append(attach_start(), prev, seq![AttachEvent::Connected]);
        assert(seq![AttachEvent::Connected].drop_first() =~= Seq::<AttachEvent>::empty());
    }
}

proof fn lemma_rollback(n: nat)
    requires
        0 < n <= CHANNELS,
    ensures
        attach_run(
            AttachPlan { opened: n as usize, phase: AttachPhase::RollingBack },
            Seq::new(n, |i: int| AttachEvent::Closed),
        ) == (AttachPlan { opened: 0, phase: AttachPhase::Failed }),
        attach_last_action(
            AttachPlan { opened: n as usize, phase: AttachPhase::RollingBack },
            Seq::new(n, |i: int| AttachEvent::Closed),
        ) == AttachAction::Failed,
    decreases n,
{
    let evs = Seq::new(n, |i: int| AttachEvent::Closed);
    let p = AttachPlan { opened: n as usize, phase: AttachPhase::RollingBack };
    reveal_with_fuel(attach_run, 2);
    assert(evs[0] == AttachEvent::Closed);
    if n == 1 {
        assert(evs.drop_first() =~= Seq::<AttachEvent>::empty());
    } else {
        lemma_rollback((n - 1) as nat);
        assert(evs.drop_first() =~= Seq::new((n - 1) as nat, |i: int| AttachEvent::Closed));
    }
}

/// The events of an attempt whose connection number `k` fails: `k` channels
/// connect, the next one fails, and each of the `k` closes then asked for completes.
pub open spec fn failing_attempt(k: nat) -> Seq<AttachEvent> {
    Seq::new(k, |i: int| AttachEvent::Connected) + seq![AttachEvent::ConnectFailed] + Seq::new(
        k,
        |i: int| AttachEvent::Closed,
    )
}

/// Attach is atomic: whichever of the five connections fails, the attempt
/// ends in `Failed` (an `AttachError`) with no channel left open, after
/// `k` channels had been opened.
pub proof fn lemma_attach_atomic(k: nat)
    requires
        k < CHANNELS,
    ensures
        attach_run(attach_start(), Seq::new(k, |i: int| AttachEvent::Connected)).opened == k,
        attach_run(attach_start(), failing_attempt(k)) == (AttachPlan { opened: 0, phase: AttachPhase::Failed }),
        attach_last_action(attach_start(), failing_attempt(k)) == AttachAction::Failed,
{
    let connects = Seq::new(k, |i: int| AttachEvent::Connected);
    let fail = seq![AttachEvent::ConnectFailed];
    let closes = Seq::new(k, |i: int| AttachEvent::Closed);
    lemma_connects(k);
    lemma_attach_run_append(attach_start(), connects, fail + closes);
    assert(failing_attempt(k) =~= connects + (fail + closes));
    let mid = AttachPlan { opened: k as usize, phase: AttachPhase::Connecting };
    reveal_with_fuel(attach_run, 2);
    assert(fail[0] == AttachEvent::ConnectFailed);
    lemma_attach_run_append(mid, fail, closes);
    assert(fail.drop_first() =~= Seq::<AttachEvent>::empty());
    if k > 0 {
        lemma_rollback(k);
    } else {
        assert(closes =~= Seq::<AttachEvent>::empty());
        assert(fail + closes =~= fail);
    }
}

/// The execute request for `code` with the given message id and date.
pub fn execute_request_with(code: &str, session: &str, msg_id: &str, date: &str) -> (r: MessageEnvelope)
    ensures
        r@ == constructed("execute_request"@, execute_content(code@), None, session@, msg_id@, date@),
{
    let content = execute_request_content(code);
    MessageEnvelope::construct_with("execute_request", content, None, session, msg_id, date)
}

/// The heartbeat channel is alive when the payload came back byte for byte.
pub fn heartbeat_echoed(sent: &[u8], echoed: &[u8]) -> (r: bool)
    ensures
        r == (sent@ == echoed@),
{
    crate::wire::bytes_eq(sent, echoed)
}

/// What a session does with a message read from the shell channel while it
/// waits for the reply to a request.
pub enum ExecuteStep {
    /// The correlated reply: the execution is complete.
    Reply(MessageEnvelope),
    /// A message that answers another request: keep waiting.
    Skip,
    /// The channel failed: the execution fails with this error.
    Fail(RuntimeError),
}

/// The decision on one message read while waiting for the reply to `request`:
/// only a message whose parent header carries the request's id is the reply.
pub fn await_reply_step(request: &MessageEnvelope, received: Result<MessageEnvelope, RuntimeError>) -> (r:
    ExecuteStep)
    ensures
        match received {
            Ok(x) => if correlated(x@, request@) {
                r matches ExecuteStep::Reply(y) && y@ == x@
            } else {
                r is Skip
            },
            Err(e) => r == ExecuteStep::Fail(e),
        },
{
    match received {
        Ok(x) => if x.is_reply_to(request) {
            ExecuteStep::Reply(x)
        } else {
            ExecuteStep::Skip
        },
        Err(e) => ExecuteStep::Fail(e),
    }
}

/// The index of the first of `incoming` that answers `request`.
pub open spec fn first_reply(request: EnvelopeModel, incoming: Seq<EnvelopeModel>, from: int) -> Option<int>
    decreases incoming.len() - from,
{
    if from < 0 || from >= incoming.len() {
        None
    } else if correlated(incoming[from], request) {
        Some(from)
    } else {
        first_reply(request, incoming, from + 1)
    }
}

/// Correlation: the reply that waiting on a stream of shell messages settles
/// on answers the request by id, and every message read before it answers
/// another request.
pub proof fn lemma_reply_is_correlated(request: EnvelopeModel, incoming: Seq<EnvelopeModel>, from: int)
    requires
        0 <= from,
        first_reply(request, incoming, from) is Some,
    ensures
        ({
            let i = first_reply(request, incoming, from).unwrap();
            &&& from <= i < incoming.len()
            &&& correlated(incoming[i], request)
            &&& forall|j: int| from <= j < i ==> !correlated(#[trigger] incoming[j], request)
        }),
    decreases incoming.len() - from,
{
    if !correlated(incoming[from], request) {
        lemma_reply_is_correlated(request, incoming, from + 1);
    }
}

/// What the listen loop does with one read from the broadcast channel.
#[derive(Debug, Clone, Copy, PartialEq, Eq, Structural)]
pub enum ListenStep {
    Continue,
    /// The kernel reported its shutdown: exit without error.
    Shutdown,
    /// The read failed: the loop ends.
    Lost(RuntimeError),
}

/// The decision of the listen loop on one read.
pub fn listen_step(received: &Result<MessageEnvelope, RuntimeError>) -> (r: ListenStep)
    ensures
        match received {
            Ok(x) => r == if shutdown_signal(x@) {
                ListenStep::Shutdown
            } else {
                ListenStep::Continue
            },
            Err(e) => r == ListenStep::Lost(*e),
        },
{
    match received {
        Ok(x) => if x.is_shutdown_signal() {
            ListenStep::Shutdown
        } else {
            ListenStep::Continue
        },
        Err(e) => ListenStep::Lost(*e),
    }
}

} // verus!
