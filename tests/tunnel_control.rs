use mongo_tunnel::tunnel::{
    step, Forwarders, TunnelAction, TunnelEvent, TunnelFailure, TunnelPhase, DEFAULT_LOCAL_PORT,
};

fn bound_after_failures(failures: u16) -> (TunnelPhase, TunnelAction) {
    let (mut phase, _) = step(TunnelPhase::Init, TunnelEvent::Start);
    let (p, a) = step(phase, TunnelEvent::SshConnected);
    phase = p;
    assert_eq!(a, TunnelAction::Bind(DEFAULT_LOCAL_PORT));
    for _ in 0..failures {
        let (p, _) = step(phase, TunnelEvent::BindFailed);
        phase = p;
    }
    step(phase, TunnelEvent::BindSucceeded)
}

#[test]
fn tenth_port_above_default_is_bound() {
    assert_eq!(
        bound_after_failures(10),
        (TunnelPhase::Listening(27027), TunnelAction::ReportBound(27027))
    );
}

#[test]
fn probing_ends_after_last_retry() {
    let (_, a) = bound_after_failures(20);
    assert_eq!(a, TunnelAction::ReportBound(27037));
    let mut phase = TunnelPhase::BindingPort(20);
    let (p, a) = step(phase, TunnelEvent::BindFailed);
    phase = p;
    assert_eq!(phase, TunnelPhase::Stopped);
    assert_eq!(a, TunnelAction::Fail(TunnelFailure::PortExhausted));
}

#[test]
fn ssh_failure_and_deadline_stop_establishment() {
    assert_eq!(
        step(TunnelPhase::ConnectingSsh, TunnelEvent::SshFailed),
        (TunnelPhase::Stopped, TunnelAction::Fail(TunnelFailure::Ssh))
    );
    assert_eq!(
        step(TunnelPhase::BindingPort(3), TunnelEvent::Deadline),
        (TunnelPhase::Stopped, TunnelAction::Fail(TunnelFailure::Timeout))
    );
}

#[test]
fn channel_failure_is_isolated() {
    assert_eq!(
        step(TunnelPhase::Listening(27017), TunnelEvent::ChannelFailed),
        (TunnelPhase::Listening(27017), TunnelAction::DropConnection)
    );
    assert_eq!(
        step(TunnelPhase::Listening(27017), TunnelEvent::ChannelOpened),
        (TunnelPhase::Listening(27017), TunnelAction::SpawnForwarder)
    );
}

#[test]
fn shutdown_aborts_every_forwarder() {
    let mut forwarders = Forwarders::new();
    forwarders.track(7);
    forwarders.track(9);
    forwarders.track(11);
    let (phase, a) = step(TunnelPhase::Listening(27017), TunnelEvent::ShutdownRequested);
    assert_eq!(a, TunnelAction::WaitGrace);
    assert_eq!(step(phase, TunnelEvent::Accepted).1, TunnelAction::Nothing);
    let (phase, a) = step(phase, TunnelEvent::GraceElapsed);
    assert_eq!((phase, a), (TunnelPhase::Stopped, TunnelAction::AbortAll));
    assert_eq!(forwarders.drain(), vec![7, 9, 11]);
    assert_eq!(forwarders.len(), 0);
    assert_eq!(step(phase, TunnelEvent::Accepted), (TunnelPhase::Stopped, TunnelAction::Nothing));
}
