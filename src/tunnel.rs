//! The tunnel's decisions: its phases, the probing of a local port, the
//! shutdown protocol, and the forwarder tasks it must not leak.
use vstd::prelude::*;

verus! {

/// The first local port the tunnel tries to bind.
pub const DEFAULT_LOCAL_PORT: u16 = 27017;

/// How many further ports are tried after the first one fails.
pub const MAX_BIND_RETRIES: u16 = 20;

/// Why establishing a tunnel failed.
#[derive(Debug, Clone, Copy, PartialEq, Eq, Structural)]
pub enum TunnelFailure {
    Ssh,
    PortExhausted,
    Timeout,
}

#[derive(Debug, Clone, Copy, PartialEq, Eq, Structural)]
pub enum TunnelPhase {
    Init,
    ConnectingSsh,
    /// Binding a local port, after this many failed binds.
    BindingPort(u16),
    /// Forwarding connections that arrive on this local port.
    Listening(u16),
    ShuttingDown,
    Stopped,
}

/// What the outside world reports to the tunnel.
#[derive(Debug, Clone, Copy, PartialEq, Eq, Structural)]
pub enum TunnelEvent {
    Start,
    SshConnected,
    SshFailed,
    BindSucceeded,
    BindFailed,
    /// A local connection was accepted.
    Accepted,
    /// The SSH channel for the accepted connection is open.
    ChannelOpened,
    /// The SSH channel for the accepted connection could not be opened.
    ChannelFailed,
    /// The establishment deadline passed.
    Deadline,
    ShutdownRequested,
    GraceElapsed,
}

/// What the tunnel asks the outside world to do next.
#[derive(Debug, Clone, Copy, PartialEq, Eq, Structural)]
pub enum TunnelAction {
    Nothing,
    ConnectSsh,
    Bind(u16),
    /// Report the bound local port to the caller that waits for it.
    ReportBound(u16),
    OpenChannel,
    /// Spawn a forwarder copying bytes both ways, and track it.
    SpawnForwarder,
    /// Drop this one connection; the tunnel goes on.
    DropConnection,
    /// Stop accepting, signal shutdown and wait the grace period.
    WaitGrace,
    /// Abort every tracked forwarder, then the tunnel task itself.
    AbortAll,
    Fail(TunnelFailure),
}

/// The port tried after `failures` failed binds.
pub open spec fn probe_port(failures: u16) -> u16 {
    (DEFAULT_LOCAL_PORT + failures) as u16
}

/// The tunnel's transition table.
pub open spec fn next(phase: TunnelPhase, event: TunnelEvent) -> (TunnelPhase, TunnelAction) {
    match (phase, event) {
        (TunnelPhase::Init, TunnelEvent::Start) => (TunnelPhase::ConnectingSsh, TunnelAction::ConnectSsh),
        (TunnelPhase::ConnectingSsh, TunnelEvent::SshConnected) => (
            TunnelPhase::BindingPort(0),
            TunnelAction::Bind(DEFAULT_LOCAL_PORT),
        ),
        (TunnelPhase::ConnectingSsh, TunnelEvent::SshFailed) => (
            TunnelPhase::Stopped,
            TunnelAction::Fail(TunnelFailure::Ssh),
        ),
        (TunnelPhase::BindingPort(k), TunnelEvent::BindSucceeded) => (
            TunnelPhase::Listening(probe_port(k)),
            TunnelAction::ReportBound(probe_port(k)),
        ),
        (TunnelPhase::BindingPort(k), TunnelEvent::BindFailed) => if k < MAX_BIND_RETRIES {
            (TunnelPhase::BindingPort((k + 1) as u16), TunnelAction::Bind(probe_port((k + 1) as u16)))
        } else {
            (TunnelPhase::Stopped, TunnelAction::Fail(TunnelFailure::PortExhausted))
        },
        (TunnelPhase::Listening(p), TunnelEvent::Accepted) => (
            TunnelPhase::Listening(p),
            TunnelAction::OpenChannel,
        ),
        (TunnelPhase::Listening(p), TunnelEvent::ChannelOpened) => (
            TunnelPhase::Listening(p),
            TunnelAction::SpawnForwarder,
        ),
        (TunnelPhase::Listening(p), TunnelEvent::ChannelFailed) => (
            TunnelPhase::Listening(p),
            TunnelAction::DropConnection,
        ),
        (TunnelPhase::Init, TunnelEvent::Deadline) => (
            TunnelPhase::Stopped,
            TunnelAction::Fail(TunnelFailure::Timeout),
        ),
        (TunnelPhase::ConnectingSsh, TunnelEvent::Deadline) => (
            TunnelPhase::Stopped,
            TunnelAction::Fail(TunnelFailure::Timeout),
        ),
        (TunnelPhase::BindingPort(_), TunnelEvent::Deadline) => (
            TunnelPhase::Stopped,
            TunnelAction::Fail(TunnelFailure::Timeout),
        ),
        (TunnelPhase::Stopped, _) => (TunnelPhase::Stopped, TunnelAction::Nothing),
        (TunnelPhase::ShuttingDown, TunnelEvent::GraceElapsed) => (
            TunnelPhase::Stopped,
            TunnelAction::AbortAll,
        ),
        (TunnelPhase::ShuttingDown, _) => (TunnelPhase::ShuttingDown, TunnelAction::Nothing),
        (_, TunnelEvent::ShutdownRequested) => (TunnelPhase::ShuttingDown, TunnelAction::WaitGrace),
        _ => (phase, TunnelAction::Nothing),
    }
}

/// A phase that the transition table can reach: a bind is never tried past
/// the last retry.
pub open spec fn phase_ok(phase: TunnelPhase) -> bool {
    match phase {
        TunnelPhase::BindingPort(k) => k <= MAX_BIND_RETRIES,
        _ => true,
    }
}

/// The tunnel's next phase and action on an event.
pub fn step(phase: TunnelPhase, event: TunnelEvent) -> (r: (TunnelPhase, TunnelAction))
    requires
        phase_ok(phase),
    ensures
        r == next(phase, event),
        phase_ok(r.0),
{
    match (phase, event) {
        (TunnelPhase::Init, TunnelEvent::Start) => (TunnelPhase::ConnectingSsh, TunnelAction::ConnectSsh),
        (TunnelPhase::ConnectingSsh, TunnelEvent::SshConnected) => (
            TunnelPhase::BindingPort(0),
            TunnelAction::Bind(DEFAULT_LOCAL_PORT),
        ),
        (TunnelPhase::ConnectingSsh, TunnelEvent::SshFailed) => (
            TunnelPhase::Stopped,
            TunnelAction::Fail(TunnelFailure::Ssh),
        ),
        (TunnelPhase::BindingPort(k), TunnelEvent::BindSucceeded) => (
            TunnelPhase::Listening(DEFAULT_LOCAL_PORT + k),
            TunnelAction::ReportBound(DEFAULT_LOCAL_PORT + k),
        ),
        (TunnelPhase::BindingPort(k), TunnelEvent::BindFailed) => if k < MAX_BIND_RETRIES {
            (TunnelPhase::BindingPort(k + 1), TunnelAction::Bind(DEFAULT_LOCAL_PORT + k + 1))
        } else {
            (TunnelPhase::Stopped, TunnelAction::Fail(TunnelFailure::PortExhausted))
        },
        (TunnelPhase::Listening(p), TunnelEvent::Accepted) => (
            TunnelPhase::Listening(p),
            TunnelAction::OpenChannel,
        ),
        (TunnelPhase::Listening(p), TunnelEvent::ChannelOpened) => (
            TunnelPhase::Listening(p),
            TunnelAction::SpawnForwarder,
        ),
        (TunnelPhase::Listening(p), TunnelEvent::ChannelFailed) => (
            TunnelPhase::Listening(p),
            TunnelAction::DropConnection,
        ),
        (TunnelPhase::Init, TunnelEvent::Deadline) => (
            TunnelPhase::Stopped,
            TunnelAction::Fail(TunnelFailure::Timeout),
        ),
        (TunnelPhase::ConnectingSsh, TunnelEvent::Deadline) => (
            TunnelPhase::Stopped,
            TunnelAction::Fail(TunnelFailure::Timeout),
        ),
        (TunnelPhase::BindingPort(_), TunnelEvent::Deadline) => (
            TunnelPhase::Stopped,
            TunnelAction::Fail(TunnelFailure::Timeout),
        ),
        (TunnelPhase::Stopped, _) => (TunnelPhase::Stopped, TunnelAction::Nothing),
        (TunnelPhase::ShuttingDown, TunnelEvent::GraceElapsed) => (
            TunnelPhase::Stopped,
            TunnelAction::AbortAll,
        ),
        (TunnelPhase::ShuttingDown, _) => (TunnelPhase::ShuttingDown, TunnelAction::Nothing),
        (_, TunnelEvent::ShutdownRequested) => (TunnelPhase::ShuttingDown, TunnelAction::WaitGrace),
        _ => (phase, TunnelAction::Nothing),
    }
}

/// The phase after the SSH session is up and `n` binds failed in a row.
pub open spec fn after_bind_failures(n: nat) -> (TunnelPhase, TunnelAction)
    decreases n,
{
    if n == 0 {
        next(TunnelPhase::ConnectingSsh, TunnelEvent::SshConnected)
    } else {
        next(after_bind_failures((n - 1) as nat).0, TunnelEvent::BindFailed)
    }
}

/// Port probing: after `n <= MAX_BIND_RETRIES` failed binds the tunnel tries
/// the port `n` above the default one and, if that bind succeeds, listens
/// there; one more failure after the last retry fails with `PortExhausted`.
pub proof fn lemma_port_probing(n: nat)
    ensures
        n <= MAX_BIND_RETRIES ==> after_bind_failures(n) == (
            TunnelPhase::BindingPort(n as u16),
            TunnelAction::Bind((DEFAULT_LOCAL_PORT + n) as u16),
        ),
        n <= MAX_BIND_RETRIES ==> next(after_bind_failures(n).0, TunnelEvent::BindSucceeded) == (
            TunnelPhase::Listening((DEFAULT_LOCAL_PORT + n) as u16),
            TunnelAction::ReportBound((DEFAULT_LOCAL_PORT + n) as u16),
        ),
        n == MAX_BIND_RETRIES + 1 ==> after_bind_failures(n) == (
            TunnelPhase::Stopped,
            TunnelAction::Fail(TunnelFailure::PortExhausted),
        ),
    decreases n,
{
    if n > 0 {
        lemma_port_probing((n - 1) as nat);
    }
}

/// Shutdown of a listening tunnel: the request stops accepting and waits the
/// grace period, after which every forwarder is aborted and the tunnel stops
/// for good; a stopped tunnel accepts and spawns nothing more.
pub proof fn lemma_shutdown(port: u16, later: TunnelEvent)
    ensures
        next(TunnelPhase::Listening(port), TunnelEvent::ShutdownRequested) == (
            TunnelPhase::ShuttingDown,
            TunnelAction::WaitGrace,
        ),
        next(TunnelPhase::ShuttingDown, TunnelEvent::Accepted).1 == TunnelAction::Nothing,
        next(TunnelPhase::ShuttingDown, TunnelEvent::GraceElapsed) == (
            TunnelPhase::Stopped,
            TunnelAction::AbortAll,
        ),
        next(TunnelPhase::Stopped, later) == (TunnelPhase::Stopped, TunnelAction::Nothing),
{
}

/// The forwarder tasks of one tunnel, by task id.
pub struct Forwarders {
    tasks: Vec<u64>,
}

impl Forwarders {
    pub closed spec fn view(&self) -> Seq<u64> {
        self.tasks@
    }

    pub fn new() -> (r: Self)
        ensures
            r.view() == Seq::<u64>::empty(),
    {
        Forwarders { tasks: Vec::new() }
    }

    /// Records a spawned forwarder.
    pub fn track(&mut self, task: u64)
        ensures
            final(self).view() == old(self).view().push(task),
    {
        self.tasks.push(task);
    }

    pub fn len(&self) -> (r: usize)
        ensures
            r == self.view().len(),
    {
        self.tasks.len()
    }

    /// Hands out every tracked forwarder, to be aborted, and leaves none
    /// tracked.
    pub fn drain(&mut self) -> (r: Vec<u64>)
        ensures
            r@ == old(self).view(),
            final(self).view() == Seq::<u64>::empty(),
    {
        let mut out: Vec<u64> = Vec::new();
        std::mem::swap(&mut out, &mut self.tasks);
        out
    }
}

} // verus!
