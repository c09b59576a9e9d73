use tirc::classify::LineError;
use tirc::session::{
    classify_lowered_error, classify_write_error, frame_command, is_stale, server_host,
    tls_policy, ChatEvent, CloseReason, SessionAction, SessionEvent, SessionState, Socket,
    WriteOutcome, CONNECT_TIMEOUT_MS, HANDSHAKE_COMMANDS, HEARTBEAT_PERIOD_SECS,
    MONITOR_PERIOD_SECS, SERVER_PORT, STALE_AFTER_SECS,
};

const CHAT_LINE: &str = "@user-id=42;user-type=;vip=1 :Pogger!pogger@pogger.tmi.twitch.tv PRIVMSG #somechannel :hello world\r\n";

fn streaming() -> Socket {
    let mut session = Socket::new_socket("justinfan77177777", "moonmoon");
    session.step(SessionEvent::Connected);
    session.step(SessionEvent::TlsReady);
    for _ in 0..5 {
        session.step(SessionEvent::WriteFinished(WriteOutcome::Sent));
    }
    assert_eq!(session.state(), SessionState::Streaming);
    session
}

fn line(buffer: &str, now: i64) -> SessionEvent {
    SessionEvent::LineRead {
        bytes_read: buffer.len(),
        buffer: buffer.to_string(),
        now,
        clock: "12:34:56".to_string(),
    }
}

#[test]
fn new_session_connects_with_clock_at_zero() {
    let session = Socket::new_socket("nick", "chan");
    assert_eq!(session.state(), SessionState::Connecting);
    assert_eq!(session.last_data(), 0);
    assert_eq!(session.exit_reason(), None);
}

#[test]
fn handshake_goes_out_in_order() {
    let mut session = Socket::new_socket("justinfan77177777", "moonmoon");
    assert_eq!(session.step(SessionEvent::Connected), SessionAction::NegotiateTls);
    assert_eq!(session.state(), SessionState::Handshaking);
    assert_eq!(
        session.step(SessionEvent::TlsReady),
        SessionAction::Write("CAP REQ :twitch.tv/tags\r\n".to_string())
    );
    assert_eq!(
        session.step(SessionEvent::WriteFinished(WriteOutcome::Sent)),
        SessionAction::Write("CAP REQ :twitch.tv/commands\r\n".to_string())
    );
    assert_eq!(
        session.step(SessionEvent::WriteFinished(WriteOutcome::Sent)),
        SessionAction::Write("CAP REQ :twitch.tv/membership\r\n".to_string())
    );
    assert_eq!(
        session.step(SessionEvent::WriteFinished(WriteOutcome::Sent)),
        SessionAction::Write("NICK justinfan77177777\r\n".to_string())
    );
    assert_eq!(
        session.step(SessionEvent::WriteFinished(WriteOutcome::Sent)),
        SessionAction::Write("JOIN #moonmoon\r\n".to_string())
    );
    assert_eq!(session.state(), SessionState::Handshaking);
    assert_eq!(
        session.step(SessionEvent::WriteFinished(WriteOutcome::Sent)),
        SessionAction::StartTasks
    );
    assert_eq!(session.state(), SessionState::Streaming);
    assert_eq!(session.last_data(), 0);
}

#[test]
fn failed_write_does_not_stop_the_handshake() {
    let mut session = Socket::new_socket("n", "c");
    session.step(SessionEvent::Connected);
    session.step(SessionEvent::TlsReady);
    assert_eq!(
        session.step(SessionEvent::WriteFinished(WriteOutcome::Failed)),
        SessionAction::Write("CAP REQ :twitch.tv/commands\r\n".to_string())
    );
    assert_eq!(session.state(), SessionState::Handshaking);
}

#[test]
fn broken_pipe_ends_the_handshake() {
    let mut session = Socket::new_socket("n", "c");
    session.step(SessionEvent::Connected);
    session.step(SessionEvent::TlsReady);
    assert_eq!(
        session.step(SessionEvent::WriteFinished(WriteOutcome::BrokenPipe)),
        SessionAction::Close(CloseReason::BrokenPipe)
    );
    assert_eq!(session.state(), SessionState::Closing(CloseReason::BrokenPipe));
    assert_eq!(session.exit_reason(), Some(CloseReason::BrokenPipe));
}

#[test]
fn broken_pipe_ends_streaming() {
    let mut session = streaming();
    assert_eq!(
        session.step(SessionEvent::WriteFinished(WriteOutcome::Failed)),
        SessionAction::Idle
    );
    assert_eq!(session.state(), SessionState::Streaming);
    assert_eq!(
        session.step(SessionEvent::WriteFinished(WriteOutcome::BrokenPipe)),
        SessionAction::Close(CloseReason::BrokenPipe)
    );
}

#[test]
fn refused_connection_closes_the_session() {
    let mut session = Socket::new_socket("n", "c");
    assert_eq!(
        session.step(SessionEvent::ConnectFailed),
        SessionAction::Close(CloseReason::ConnectFailed)
    );
    assert_eq!(session.exit_reason(), Some(CloseReason::ConnectFailed));
}

#[test]
fn failed_tls_closes_the_session() {
    let mut session = Socket::new_socket("n", "c");
    session.step(SessionEvent::Connected);
    assert_eq!(session.step(SessionEvent::TlsFailed), SessionAction::Close(CloseReason::TlsFailed));
    assert_eq!(session.exit_reason(), Some(CloseReason::TlsFailed));
}

#[test]
fn events_out_of_turn_change_nothing() {
    let mut session = Socket::new_socket("n", "c");
    assert_eq!(session.step(SessionEvent::TlsReady), SessionAction::Idle);
    assert_eq!(session.step(SessionEvent::HeartbeatTick), SessionAction::Idle);
    assert_eq!(session.step(SessionEvent::MonitorTick { now: 1000 }), SessionAction::Idle);
    assert_eq!(session.step(line("PING :tmi.twitch.tv\r\n", 5)), SessionAction::Idle);
    assert_eq!(session.state(), SessionState::Connecting);
    assert_eq!(session.last_data(), 0);
    session.step(SessionEvent::Connected);
    assert_eq!(
        session.step(SessionEvent::WriteFinished(WriteOutcome::Sent)),
        SessionAction::Idle
    );
    assert_eq!(
        session.step(SessionEvent::WriteFinished(WriteOutcome::BrokenPipe)),
        SessionAction::Idle
    );
    session.step(SessionEvent::TlsReady);
    assert_eq!(session.step(SessionEvent::TlsReady), SessionAction::Idle);
    assert_eq!(session.step(SessionEvent::TlsFailed), SessionAction::Idle);
    assert_eq!(session.state(), SessionState::Handshaking);
}

#[test]
fn ping_is_answered_with_one_pong() {
    let mut session = streaming();
    assert_eq!(
        session.step(line("PING :tmi.twitch.tv\r\n", 77)),
        SessionAction::Enqueue("PONG :tmi.twitch.tv".to_string())
    );
    assert_eq!(session.state(), SessionState::Streaming);
    assert_eq!(session.last_data(), 77);
}

#[test]
fn reconnect_request_closes_the_session() {
    let mut session = streaming();
    assert_eq!(
        session.step(line(":tmi.twitch.tv RECONNECT\r\n", 9)),
        SessionAction::Close(CloseReason::RemoteReconnect)
    );
    assert_eq!(session.state(), SessionState::Closing(CloseReason::RemoteReconnect));
    assert_eq!(session.last_data(), 9);
}

#[test]
fn chat_line_is_forwarded() {
    let mut session = streaming();
    let action = session.step(line(CHAT_LINE, 100));
    assert_eq!(
        action,
        SessionAction::Forward(ChatEvent {
            timestamp: "12:34:56".to_string(),
            display_name: "Pogger".to_string(),
            message_text: "hello world".to_string(),
        })
    );
    match action {
        SessionAction::Forward(chat) => assert_eq!(chat.payload(), "12:34:56 Pogger: hello world"),
        _ => unreachable!(),
    }
    assert_eq!(session.state(), SessionState::Streaming);
    assert_eq!(session.last_data(), 100);
}

#[test]
fn malformed_chat_line_is_skipped() {
    let mut session = streaming();
    assert_eq!(
        session.step(line("PRIVMSG\r\n", 5)),
        SessionAction::Skip(LineError::MissingChannel)
    );
    assert_eq!(
        session.step(line(":n!n@n PRIVMSG #c :hi\r\n", 6)),
        SessionAction::Skip(LineError::MissingUserId)
    );
    assert_eq!(session.state(), SessionState::Streaming);
    assert_eq!(session.last_data(), 6);
}

#[test]
fn other_lines_only_move_the_clock() {
    let mut session = streaming();
    assert_eq!(
        session.step(line(":tmi.twitch.tv 001 justinfan :Welcome, GLHF!\r\n", 31)),
        SessionAction::Idle
    );
    assert_eq!(session.last_data(), 31);
    assert_eq!(session.state(), SessionState::Streaming);
}

#[test]
fn end_of_stream_closes_the_session() {
    let mut session = streaming();
    session.step(line("PING :tmi.twitch.tv\r\n", 40));
    let event = SessionEvent::LineRead {
        bytes_read: 0,
        buffer: String::new(),
        now: 50,
        clock: "00:00:50".to_string(),
    };
    assert_eq!(session.step(event), SessionAction::Close(CloseReason::PeerClosed));
    assert_eq!(session.exit_reason(), Some(CloseReason::PeerClosed));
    assert_eq!(session.last_data(), 40);
}

#[test]
fn heartbeat_enqueues_a_ping() {
    let mut session = streaming();
    assert_eq!(
        session.step(SessionEvent::HeartbeatTick),
        SessionAction::Enqueue("PING :tmi.twitch.tv".to_string())
    );
    assert_eq!(session.state(), SessionState::Streaming);
    assert_eq!(session.last_data(), 0);
}

#[test]
fn silence_of_25_seconds_closes_once() {
    let mut session = streaming();
    session.step(line("PING :tmi.twitch.tv\r\n", 1000));
    assert_eq!(session.step(SessionEvent::MonitorTick { now: 1024 }), SessionAction::Idle);
    assert_eq!(session.state(), SessionState::Streaming);
    assert_eq!(
        session.step(SessionEvent::MonitorTick { now: 1025 }),
        SessionAction::Close(CloseReason::StaleConnection)
    );
    assert_eq!(session.state(), SessionState::Closing(CloseReason::StaleConnection));
    assert_eq!(session.step(SessionEvent::MonitorTick { now: 1050 }), SessionAction::Idle);
    assert_eq!(session.step(SessionEvent::HeartbeatTick), SessionAction::Idle);
    assert_eq!(session.step(line("PING :tmi.twitch.tv\r\n", 1051)), SessionAction::Idle);
    assert_eq!(session.step(line(CHAT_LINE, 1052)), SessionAction::Idle);
    assert_eq!(session.state(), SessionState::Closing(CloseReason::StaleConnection));
    assert_eq!(session.last_data(), 1000);
}

#[test]
fn staleness_is_a_difference_of_25() {
    assert!(is_stale(25, 0));
    assert!(!is_stale(24, 0));
    assert!(is_stale(1_700_000_025, 1_700_000_000));
    assert!(!is_stale(1_700_000_024, 1_700_000_000));
    assert!(!is_stale(0, 25));
    assert!(is_stale(i64::MAX, i64::MIN));
    assert!(!is_stale(i64::MIN, i64::MAX));
    assert!(is_stale(i64::MIN + 25, i64::MIN));
    assert!(!is_stale(i64::MIN + 24, i64::MIN));
}

#[test]
fn broken_pipe_is_told_by_the_error_text() {
    assert_eq!(classify_write_error("Broken pipe (os error 32)"), WriteOutcome::BrokenPipe);
    assert_eq!(classify_write_error("BROKEN PIPE"), WriteOutcome::BrokenPipe);
    assert_eq!(classify_write_error("connection reset by peer"), WriteOutcome::Failed);
    assert_eq!(classify_write_error("broken  pipe"), WriteOutcome::Failed);
    assert_eq!(classify_write_error(""), WriteOutcome::Failed);
    assert_eq!(classify_lowered_error("a broken pipe"), WriteOutcome::BrokenPipe);
    assert_eq!(classify_lowered_error("Broken pipe"), WriteOutcome::Failed);
}

#[test]
fn commands_are_framed_with_crlf() {
    assert_eq!(frame_command("PONG :tmi.twitch.tv"), "PONG :tmi.twitch.tv\r\n");
    assert_eq!(frame_command(""), "\r\n");
}

#[test]
fn endpoint_and_periods_have_their_values() {
    assert_eq!(server_host(), "irc.chat.twitch.tv");
    assert_eq!(SERVER_PORT, 6697);
    let policy = tls_policy();
    assert!(policy.verify_certificate);
    assert!(policy.verify_hostname);
    assert!(!policy.use_sni);
    assert_eq!(CONNECT_TIMEOUT_MS, 5000);
    assert_eq!(STALE_AFTER_SECS, 25);
    assert_eq!(MONITOR_PERIOD_SECS, 25);
    assert_eq!(HEARTBEAT_PERIOD_SECS, 5);
    assert_eq!(HANDSHAKE_COMMANDS, 5);
}

#[test]
fn read_reported_now_sets_the_clock_to_now() {
    let mut session = streaming();
    let action = session.receive(CHAT_LINE.len(), CHAT_LINE.to_string());
    match action {
        SessionAction::Forward(chat) => {
            assert_eq!(chat.display_name, "Pogger");
            assert_eq!(chat.message_text, "hello world");
            assert_eq!(chat.timestamp.len(), 8);
            assert_eq!(chat.payload(), format!("{} Pogger: hello world", chat.timestamp));
        }
        _ => panic!("the chat line was not forwarded"),
    }
    assert!(session.last_data() > 1_600_000_000);
    assert_eq!(session.check_liveness(), SessionAction::Idle);
    assert_eq!(session.state(), SessionState::Streaming);
}

#[test]
fn session_that_never_heard_anything_is_stale_now() {
    let mut session = streaming();
    assert_eq!(session.check_liveness(), SessionAction::Close(CloseReason::StaleConnection));
    assert_eq!(session.exit_reason(), Some(CloseReason::StaleConnection));
    assert_eq!(session.receive(3, "x\r\n".to_string()), SessionAction::Idle);
    assert_eq!(session.last_data(), 0);
}

#[test]
fn end_of_stream_reported_now_closes_the_session() {
    let mut session = streaming();
    assert_eq!(session.receive(0, String::new()), SessionAction::Close(CloseReason::PeerClosed));
}
