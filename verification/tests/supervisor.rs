use tirc::session::{CloseReason, SessionAction, SessionEvent, Socket, WriteOutcome};
use tirc::supervisor::{
    Supervisor, SupervisorAction, SupervisorEvent, SupervisorState, BACKOFF_SECS,
};

#[test]
fn supervisor_starts_with_a_running_session() {
    assert_eq!(Supervisor::new().state, SupervisorState::Running);
    assert_eq!(BACKOFF_SECS, 1);
}

#[test]
fn every_exit_is_followed_by_pause_and_restart() {
    let reasons = [
        CloseReason::ConnectFailed,
        CloseReason::TlsFailed,
        CloseReason::PeerClosed,
        CloseReason::RemoteReconnect,
        CloseReason::StaleConnection,
        CloseReason::BrokenPipe,
    ];
    let mut supervisor = Supervisor::new();
    for reason in reasons {
        assert_eq!(
            supervisor.step(SupervisorEvent::SessionExited(reason)),
            SupervisorAction::Sleep(1)
        );
        assert_eq!(supervisor.state, SupervisorState::BackingOff);
        assert_eq!(
            supervisor.step(SupervisorEvent::BackoffElapsed),
            SupervisorAction::StartSession
        );
        assert_eq!(supervisor.state, SupervisorState::Running);
    }
}

#[test]
fn pause_ends_with_exactly_one_new_session() {
    let mut supervisor = Supervisor::new();
    supervisor.step(SupervisorEvent::SessionExited(CloseReason::PeerClosed));
    assert_eq!(
        supervisor.step(SupervisorEvent::SessionExited(CloseReason::PeerClosed)),
        SupervisorAction::Idle
    );
    assert_eq!(supervisor.state, SupervisorState::BackingOff);
    assert_eq!(supervisor.step(SupervisorEvent::BackoffElapsed), SupervisorAction::StartSession);
    assert_eq!(supervisor.step(SupervisorEvent::BackoffElapsed), SupervisorAction::Idle);
    assert_eq!(supervisor.state, SupervisorState::Running);
}

#[test]
fn reconnect_request_leads_to_one_new_session() {
    let mut session = Socket::new_socket("justinfan77177777", "moonmoon");
    session.step(SessionEvent::Connected);
    session.step(SessionEvent::TlsReady);
    for _ in 0..5 {
        session.step(SessionEvent::WriteFinished(WriteOutcome::Sent));
    }
    let buffer = ":tmi.twitch.tv RECONNECT\r\n";
    let action = session.step(SessionEvent::LineRead {
        bytes_read: buffer.len(),
        buffer: buffer.to_string(),
        now: 10,
        clock: "00:00:10".to_string(),
    });
    assert_eq!(action, SessionAction::Close(CloseReason::RemoteReconnect));
    let reason = session.exit_reason().unwrap();
    assert_eq!(reason, CloseReason::RemoteReconnect);

    let mut supervisor = Supervisor::new();
    let mut started = 0;
    for event in [
        SupervisorEvent::SessionExited(reason),
        SupervisorEvent::BackoffElapsed,
        SupervisorEvent::BackoffElapsed,
    ] {
        if supervisor.step(event) == SupervisorAction::StartSession {
            started += 1;
        }
    }
    assert_eq!(started, 1);
}
