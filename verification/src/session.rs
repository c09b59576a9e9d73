//! The connection session as a state machine: each event that the outside
//! world reports is answered with the session's next state and the one
//! action that the caller has to perform.

use crate::clock::read_clock;
use crate::classify::{
    classify, frame_text, kind_of, parse_chat, parse_privmsg, strip_line_ending, LineError,
    LineKind,
};
use crate::text::{chars_of, contains, has, lowercase, lowercased};
use vstd::prelude::*;
use vstd::string::*;

verus! {

/// Time allowed for opening the TCP connection, in milliseconds.
pub const CONNECT_TIMEOUT_MS: u64 = 5000;

/// Silence, in seconds, after which a connection counts as dead.
pub const STALE_AFTER_SECS: i64 = 25;

/// Seconds between two looks of the liveness monitor at the clock.
pub const MONITOR_PERIOD_SECS: u64 = 25;

/// Seconds between two keep-alive pings.
pub const HEARTBEAT_PERIOD_SECS: u64 = 5;

/// Number of commands in the handshake.
pub const HANDSHAKE_COMMANDS: u8 = 5;

/// The port of the chat server: TLS over TCP.
pub const SERVER_PORT: u16 = 6697;

/// How TLS is negotiated with the chat server.
#[derive(Clone, Copy, Debug, PartialEq, Eq, Structural)]
pub struct TlsPolicy {
    /// The server's certificate is validated.
    pub verify_certificate: bool,
    /// The certificate must be for the server's host name.
    pub verify_hostname: bool,
    /// The host name is sent in the handshake (server name indication).
    pub use_sni: bool,
}

/// Why a session ended.
#[derive(Clone, Copy, Debug, PartialEq, Eq, Structural)]
pub enum CloseReason {
    /// The TCP connection was refused or timed out.
    ConnectFailed,
    /// The TLS handshake failed.
    TlsFailed,
    /// The peer closed the stream.
    PeerClosed,
    /// The server asked for a new connection.
    RemoteReconnect,
    /// Nothing was read for too long.
    StaleConnection,
    /// A write met a severed connection.
    BrokenPipe,
}

/// Where a session stands.
#[derive(Clone, Copy, Debug, PartialEq, Eq, Structural)]
pub enum SessionState {
    Connecting,
    Handshaking,
    Streaming,
    Closing(CloseReason),
}

/// How a write to the socket ended.
#[derive(Clone, Copy, Debug, PartialEq, Eq, Structural)]
pub enum WriteOutcome {
    Sent,
    /// The write failed; the session goes on.
    Failed,
    /// The write failed on a severed connection.
    BrokenPipe,
}

/// A chat message on its way to the consumer.
#[derive(Debug, PartialEq, Eq)]
pub struct ChatEvent {
    /// Wall-clock time of receipt, as text.
    pub timestamp: String,
    pub display_name: String,
    pub message_text: String,
}

/// A chat event, as character sequences.
pub ghost struct ChatEventModel {
    pub timestamp: Seq<char>,
    pub display_name: Seq<char>,
    pub message_text: Seq<char>,
}

impl View for ChatEvent {
    type V = ChatEventModel;

    open spec fn view(&self) -> ChatEventModel {
        ChatEventModel {
            timestamp: self.timestamp@,
            display_name: self.display_name@,
            message_text: self.message_text@,
        }
    }
}

/// What the outside world reports to a session.
#[derive(Debug, PartialEq, Eq)]
pub enum SessionEvent {
    /// The TCP connection is open.
    Connected,
    /// The TCP connection was refused or timed out.
    ConnectFailed,
    /// The TLS handshake succeeded.
    TlsReady,
    /// The TLS handshake failed.
    TlsFailed,
    /// A write to the socket ended.
    WriteFinished(WriteOutcome),
    /// A read ended: `bytes_read` bytes, held in `buffer`, at Unix time `now`,
    /// when the wall clock showed `clock`.
    LineRead { bytes_read: usize, buffer: String, now: i64, clock: String },
    /// The liveness monitor looks at the clock, at Unix time `now`.
    MonitorTick { now: i64 },
    /// The heartbeat sender's period has passed.
    HeartbeatTick,
}

/// An event, as character sequences.
pub ghost enum EventModel {
    Connected,
    ConnectFailed,
    TlsReady,
    TlsFailed,
    WriteFinished(WriteOutcome),
    LineRead { bytes_read: usize, buffer: Seq<char>, now: i64, clock: Seq<char> },
    MonitorTick { now: i64 },
    HeartbeatTick,
}

impl View for SessionEvent {
    type V = EventModel;

    open spec fn view(&self) -> EventModel {
        match *self {
            SessionEvent::Connected => EventModel::Connected,
            SessionEvent::ConnectFailed => EventModel::ConnectFailed,
            SessionEvent::TlsReady => EventModel::TlsReady,
            SessionEvent::TlsFailed => EventModel::TlsFailed,
            SessionEvent::WriteFinished(outcome) => EventModel::WriteFinished(outcome),
            SessionEvent::LineRead { bytes_read, buffer, now, clock } => EventModel::LineRead {
                bytes_read,
                buffer: buffer@,
                now,
                clock: clock@,
            },
            SessionEvent::MonitorTick { now } => EventModel::MonitorTick { now },
            SessionEvent::HeartbeatTick => EventModel::HeartbeatTick,
        }
    }
}

/// What the caller has to do after an event.
#[derive(Debug, PartialEq, Eq)]
pub enum SessionAction {
    /// Nothing.
    Idle,
    /// Negotiate TLS on the open connection.
    NegotiateTls,
    /// Write this frame to the socket and report how the write ended.
    Write(String),
    /// Start the liveness monitor and the heartbeat sender, then read.
    StartTasks,
    /// Hand this chat event to the consumer.
    Forward(ChatEvent),
    /// The chat line could not be parsed: log it and go on.
    Skip(LineError),
    /// Put this command on the outbound queue.
    Enqueue(String),
    /// Cancel the background tasks, drop the connection and return the reason.
    Close(CloseReason),
}

/// An action, as character sequences.
pub ghost enum ActionModel {
    Idle,
    NegotiateTls,
    Write(Seq<char>),
    StartTasks,
    Forward(ChatEventModel),
    Skip(LineError),
    Enqueue(Seq<char>),
    Close(CloseReason),
}

impl View for SessionAction {
    type V = ActionModel;

    open spec fn view(&self) -> ActionModel {
        match *self {
            SessionAction::Idle => ActionModel::Idle,
            SessionAction::NegotiateTls => ActionModel::NegotiateTls,
            SessionAction::Write(frame) => ActionModel::Write(frame@),
            SessionAction::StartTasks => ActionModel::StartTasks,
            SessionAction::Forward(chat) => ActionModel::Forward(chat@),
            SessionAction::Skip(e) => ActionModel::Skip(e),
            SessionAction::Enqueue(command) => ActionModel::Enqueue(command@),
            SessionAction::Close(reason) => ActionModel::Close(reason),
        }
    }
}

/// One connection session.
#[derive(Debug)]
pub struct Socket {
    state: SessionState,
    /// Whether TLS has been negotiated.
    secured: bool,
    /// Number of handshake commands whose write has ended.
    sent: u8,
    /// The liveness clock: Unix time of the last successful read.
    last_data: i64,
    nick: String,
    channel: String,
}

/// A session, as character sequences.
pub ghost struct SocketModel {
    pub state: SessionState,
    pub secured: bool,
    pub sent: u8,
    pub last_data: i64,
    pub nick: Seq<char>,
    pub channel: Seq<char>,
}

impl View for Socket {
    type V = SocketModel;

    closed spec fn view(&self) -> SocketModel {
        SocketModel {
            state: self.state,
            secured: self.secured,
            sent: self.sent,
            last_data: self.last_data,
            nick: self.nick@,
            channel: self.channel@,
        }
    }
}

/// A session's state after an event, with the action that the event calls for.
pub ghost struct Transition {
    pub socket: SocketModel,
    pub action: ActionModel,
}

/// A command as it goes over the wire: followed by carriage return and line
/// feed.
pub open spec fn frame(command: Seq<char>) -> Seq<char> {
    command.push('\r').push('\n')
}

/// The handshake: the three capability requests, the nickname and the join,
/// in the order in which they are sent.
pub open spec fn script(nick: Seq<char>, channel: Seq<char>) -> Seq<Seq<char>> {
    seq![
        "CAP REQ :twitch.tv/tags"@,
        "CAP REQ :twitch.tv/commands"@,
        "CAP REQ :twitch.tv/membership"@,
        "NICK "@ + nick,
        "JOIN #"@ + channel,
    ]
}

/// The connection is stale at `now` if nothing was read for `STALE_AFTER_SECS`
/// seconds.
pub open spec fn stale(now: i64, last_data: i64) -> bool {
    now - last_data >= STALE_AFTER_SECS
}

/// The session that starts: connecting, with the clock at 0.
pub open spec fn fresh(nick: Seq<char>, channel: Seq<char>) -> SocketModel {
    SocketModel {
        state: SessionState::Connecting,
        secured: false,
        sent: 0,
        last_data: 0,
        nick,
        channel,
    }
}

/// The session closes for `reason`.
pub open spec fn closing(s: SocketModel, reason: CloseReason) -> Transition {
    Transition {
        socket: SocketModel { state: SessionState::Closing(reason), ..s },
        action: ActionModel::Close(reason),
    }
}

/// The session stays as it is and nothing is to be done.
pub open spec fn ignored(s: SocketModel) -> Transition {
    Transition { socket: s, action: ActionModel::Idle }
}

/// The write of one more handshake command has ended: the next one is
/// written, or, after the last, streaming starts.
pub open spec fn handshake_advanced(s: SocketModel) -> Transition {
    if s.sent + 1 < HANDSHAKE_COMMANDS {
        Transition {
            socket: SocketModel { sent: (s.sent + 1) as u8, ..s },
            action: ActionModel::Write(frame(script(s.nick, s.channel)[s.sent + 1])),
        }
    } else {
        Transition {
            socket: SocketModel { state: SessionState::Streaming, sent: HANDSHAKE_COMMANDS, ..s },
            action: ActionModel::StartTasks,
        }
    }
}

/// A line was read while streaming, at Unix time `now`, when the wall clock
/// showed `clock`: the clock is set, then the line is classified.
pub open spec fn line_read(s: SocketModel, buffer: Seq<char>, now: i64, clock: Seq<char>)
    -> Transition {
    let heard = SocketModel { last_data: now, ..s };
    let line = frame_text(buffer);
    match kind_of(line) {
        LineKind::Reconnect => closing(heard, CloseReason::RemoteReconnect),
        LineKind::Chat => match parse_chat(line) {
            Ok(chat) => Transition {
                socket: heard,
                action: ActionModel::Forward(
                    ChatEventModel {
                        timestamp: clock,
                        display_name: chat.display_name,
                        message_text: chat.message,
                    },
                ),
            },
            Err(e) => Transition { socket: heard, action: ActionModel::Skip(e) },
        },
        LineKind::Ping => Transition {
            socket: heard,
            action: ActionModel::Enqueue("PONG :tmi.twitch.tv"@),
        },
        LineKind::Other => ignored(heard),
    }
}

/// The session after an event, and the action that the event calls for. An
/// event that the state does not expect changes nothing.
pub open spec fn next(s: SocketModel, e: EventModel) -> Transition {
    match s.state {
        SessionState::Connecting => match e {
            EventModel::Connected => Transition {
                socket: SocketModel { state: SessionState::Handshaking, ..s },
                action: ActionModel::NegotiateTls,
            },
            EventModel::ConnectFailed => closing(s, CloseReason::ConnectFailed),
            _ => ignored(s),
        },
        SessionState::Handshaking => match e {
            EventModel::TlsReady => if s.secured {
                ignored(s)
            } else {
                Transition {
                    socket: SocketModel { secured: true, sent: 0, ..s },
                    action: ActionModel::Write(frame(script(s.nick, s.channel)[0])),
                }
            },
            EventModel::TlsFailed => if s.secured {
                ignored(s)
            } else {
                closing(s, CloseReason::TlsFailed)
            },
            EventModel::WriteFinished(outcome) => if !s.secured {
                ignored(s)
            } else if outcome == WriteOutcome::BrokenPipe {
                closing(s, CloseReason::BrokenPipe)
            } else {
                handshake_advanced(s)
            },
            _ => ignored(s),
        },
        SessionState::Streaming => match e {
            EventModel::LineRead { bytes_read, buffer, now, clock } => if bytes_read == 0 {
                closing(s, CloseReason::PeerClosed)
            } else {
                line_read(s, buffer, now, clock)
            },
            EventModel::MonitorTick { now } => if stale(now, s.last_data) {
                closing(s, CloseReason::StaleConnection)
            } else {
                ignored(s)
            },
            EventModel::HeartbeatTick => Transition {
                socket: s,
                action: ActionModel::Enqueue("PING :tmi.twitch.tv"@),
            },
            EventModel::WriteFinished(outcome) => if outcome == WriteOutcome::BrokenPipe {
                closing(s, CloseReason::BrokenPipe)
            } else {
                ignored(s)
            },
            _ => ignored(s),
        },
        SessionState::Closing(_) => ignored(s),
    }
}

/// The session `after` and the action `action` are what the event `e` leads
/// to from the session `before`.
pub open spec fn answers(
    before: SocketModel,
    e: EventModel,
    after: SocketModel,
    action: ActionModel,
) -> bool {
    after == next(before, e).socket && action == next(before, e).action
}

/// What a failed write amounts to, by the text of its error: fatal where
/// the text, in lower case, speaks of a broken pipe.
pub open spec fn write_failure(error_text: Seq<char>) -> WriteOutcome {
    failure_of_lowered(lowercased(error_text))
}

/// What a failed write amounts to, by the text of its error in lower case.
pub open spec fn failure_of_lowered(lowered: Seq<char>) -> WriteOutcome {
    if contains(lowered, "broken pipe"@) {
        WriteOutcome::BrokenPipe
    } else {
        WriteOutcome::Failed
    }
}

/// Tells a broken pipe from other write failures, by the text of the error
/// in lower case.
pub fn classify_lowered_error(lowered: &str) -> (outcome: WriteOutcome)
    ensures
        outcome == failure_of_lowered(lowered@),
{
    if has(&chars_of(lowered), &chars_of("broken pipe")) {
        WriteOutcome::BrokenPipe
    } else {
        WriteOutcome::Failed
    }
}

/// Tells a broken pipe from other write failures, by the text of the error
/// in any case.
pub fn classify_write_error(error_text: &str) -> (outcome: WriteOutcome)
    ensures
        outcome == write_failure(error_text@),
{
    let lowered = lowercase(error_text);
    classify_lowered_error(lowered.as_str())
}

/// The text that the consumer gets for a chat event: the time, a space,
/// the display name, a colon and a space, the message.
pub open spec fn payload_of(chat: ChatEventModel) -> Seq<char> {
    chat.timestamp.push(' ') + chat.display_name + seq![':', ' '] + chat.message_text
}

/// The host name of the chat server.
pub fn server_host() -> (host: String)
    ensures
        host@ == "irc.chat.twitch.tv"@,
{
    String::from_str("irc.chat.twitch.tv")
}

/// The TLS policy: certificate and host name are validated, and no server
/// name indication is sent.
pub fn tls_policy() -> (policy: TlsPolicy)
    ensures
        policy == (TlsPolicy { verify_certificate: true, verify_hostname: true, use_sni: false }),
{
    TlsPolicy { verify_certificate: true, verify_hostname: true, use_sni: false }
}

/// Frames a command for the wire.
pub fn frame_command(command: &str) -> (framed: String)
    ensures
        framed@ == frame(command@),
{
    let mut framed = String::from_str(command);
    framed.push('\r');
    framed.push('\n');
    framed
}

/// Whether the connection is stale at `now`, the last read having been at
/// `last_data`.
pub fn is_stale(now: i64, last_data: i64) -> (b: bool)
    ensures
        b == stale(now, last_data),
{
    now as i128 - last_data as i128 >= STALE_AFTER_SECS as i128
}

impl ChatEvent {
    /// The text that the consumer gets for this event.
    pub fn payload(&self) -> (text: String)
        ensures
            text@ == payload_of(self@),
    {
        let mut text = self.timestamp.clone();
        text.push(' ');
        text.append(self.display_name.as_str());
        text.push(':');
        text.push(' ');
        text.append(self.message_text.as_str());
        assert(text@ =~= payload_of(self@));
        text
    }
}

impl Socket {
    /// A new session for `nick` on `channel`: connecting, with the liveness
    /// clock at 0.
    pub fn new_socket(nick: &str, channel: &str) -> (socket: Socket)
        ensures
            socket@ == fresh(nick@, channel@),
    {
        Socket {
            state: SessionState::Connecting,
            secured: false,
            sent: 0,
            last_data: 0,
            nick: String::from_str(nick),
            channel: String::from_str(channel),
        }
    }

    /// Where the session stands.
    pub fn state(&self) -> (state: SessionState)
        ensures
            state == self@.state,
    {
        self.state
    }

    /// The liveness clock.
    pub fn last_data(&self) -> (t: i64)
        ensures
            t == self@.last_data,
    {
        self.last_data
    }

    /// Why the session ended, once it has.
    pub fn exit_reason(&self) -> (reason: Option<CloseReason>)
        ensures
            reason == match self@.state {
                SessionState::Closing(r) => Some(r),
                _ => None,
            },
    {
        match self.state {
            SessionState::Closing(r) => Some(r),
            _ => None,
        }
    }

    /// The handshake command at `index`, framed.
    fn handshake_frame(&self, index: u8) -> (framed: String)
        requires
            index < HANDSHAKE_COMMANDS,
        ensures
            framed@ == frame(script(self@.nick, self@.channel)[index as int]),
    {
        let command = if index == 0 {
            String::from_str("CAP REQ :twitch.tv/tags")
        } else if index == 1 {
            String::from_str("CAP REQ :twitch.tv/commands")
        } else if index == 2 {
            String::from_str("CAP REQ :twitch.tv/membership")
        } else if index == 3 {
            String::from_str("NICK ").concat(self.nick.as_str())
        } else {
            String::from_str("JOIN #").concat(self.channel.as_str())
        };
        frame_command(command.as_str())
    }

    fn close(&mut self, reason: CloseReason) -> (action: SessionAction)
        ensures
            final(self)@ == closing(old(self)@, reason).socket,
            action@ == closing(old(self)@, reason).action,
    {
        self.state = SessionState::Closing(reason);
        SessionAction::Close(reason)
    }

    fn advance_handshake(&mut self) -> (action: SessionAction)
        ensures
            final(self)@ == handshake_advanced(old(self)@).socket,
            action@ == handshake_advanced(old(self)@).action,
    {
        if self.sent < HANDSHAKE_COMMANDS - 1 {
            self.sent = self.sent + 1;
            SessionAction::Write(self.handshake_frame(self.sent))
        } else {
            self.state = SessionState::Streaming;
            self.sent = HANDSHAKE_COMMANDS;
            SessionAction::StartTasks
        }
    }

    fn read_line(&mut self, buffer: &str, now: i64, clock: String) -> (action: SessionAction)
        ensures
            final(self)@ == line_read(old(self)@, buffer@, now, clock@).socket,
            action@ == line_read(old(self)@, buffer@, now, clock@).action,
    {
        self.last_data = now;
        let line = strip_line_ending(buffer);
        match classify(line.as_str()) {
            LineKind::Reconnect => self.close(CloseReason::RemoteReconnect),
            LineKind::Chat => match parse_privmsg(line.as_str()) {
                Ok(chat) => SessionAction::Forward(
                    ChatEvent {
                        timestamp: clock,
                        display_name: chat.display_name,
                        message_text: chat.message,
                    },
                ),
                Err(e) => SessionAction::Skip(e),
            },
            LineKind::Ping => SessionAction::Enqueue(String::from_str("PONG :tmi.twitch.tv")),
            LineKind::Other => SessionAction::Idle,
        }
    }

    /// Reports a read of `bytes_read` bytes, held in `buffer`, as of now: the
    /// event is a `LineRead` with the time and the wall clock as the system
    /// gives them at the call.
    pub fn receive(&mut self, bytes_read: usize, buffer: String) -> (action: SessionAction)
        ensures
            exists|now: i64, clock: Seq<char>| #[trigger]
                answers(
                    old(self)@,
                    EventModel::LineRead { bytes_read, buffer: buffer@, now, clock },
                    final(self)@,
                    action@,
                ),
    {
        let (now, clock) = read_clock();
        let ghost e = EventModel::LineRead { bytes_read, buffer: buffer@, now, clock: clock@ };
        let ghost before = self@;
        let action = self.step(SessionEvent::LineRead { bytes_read, buffer, now, clock });
        assert(answers(before, e, self@, action@));
        action
    }

    /// Lets the liveness monitor look at the clock as of now: the event is a
    /// `MonitorTick` with the time as the system gives it at the call.
    pub fn check_liveness(&mut self) -> (action: SessionAction)
        ensures
            exists|now: i64| #[trigger]
                answers(old(self)@, EventModel::MonitorTick { now }, final(self)@, action@),
    {
        let (now, _clock) = read_clock();
        let ghost e = EventModel::MonitorTick { now };
        let ghost before = self@;
        let action = self.step(SessionEvent::MonitorTick { now });
        assert(answers(before, e, self@, action@));
        action
    }

    /// Takes one event: moves the session to its next state and returns the
    /// action that the caller has to perform.
    pub fn step(&mut self, event: SessionEvent) -> (action: SessionAction)
        ensures
            final(self)@ == next(old(self)@, event@).socket,
            action@ == next(old(self)@, event@).action,
    {
        match self.state {
            SessionState::Connecting => match event {
                SessionEvent::Connected => {
                    self.state = SessionState::Handshaking;
                    SessionAction::NegotiateTls
                },
                SessionEvent::ConnectFailed => self.close(CloseReason::ConnectFailed),
                _ => SessionAction::Idle,
            },
            SessionState::Handshaking => match event {
                SessionEvent::TlsReady => if self.secured {
                    SessionAction::Idle
                } else {
                    self.secured = true;
                    self.sent = 0;
                    SessionAction::Write(self.handshake_frame(0))
                },
                SessionEvent::TlsFailed => if self.secured {
                    SessionAction::Idle
                } else {
                    self.close(CloseReason::TlsFailed)
                },
                SessionEvent::WriteFinished(outcome) => if !self.secured {
                    SessionAction::Idle
                } else if outcome == WriteOutcome::BrokenPipe {
                    self.close(CloseReason::BrokenPipe)
                } else {
                    self.advance_handshake()
                },
                _ => SessionAction::Idle,
            },
            SessionState::Streaming => match event {
                SessionEvent::LineRead { bytes_read, buffer, now, clock } => if bytes_read == 0 {
                    self.close(CloseReason::PeerClosed)
                } else {
                    self.read_line(buffer.as_str(), now, clock)
                },
                SessionEvent::MonitorTick { now } => if is_stale(now, self.last_data) {
                    self.close(CloseReason::StaleConnection)
                } else {
                    SessionAction::Idle
                },
                SessionEvent::HeartbeatTick => SessionAction::Enqueue(
                    String::from_str("PING :tmi.twitch.tv"),
                ),
                SessionEvent::WriteFinished(outcome) => if outcome == WriteOutcome::BrokenPipe {
                    self.close(CloseReason::BrokenPipe)
                } else {
                    SessionAction::Idle
                },
                _ => SessionAction::Idle,
            },
            SessionState::Closing(_) => SessionAction::Idle,
        }
    }
}

} // verus!
