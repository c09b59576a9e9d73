//! What holds of the session and of the supervisor in every state.

use crate::classify::{frame_text, kind_of, LineKind};
use crate::session::{
    closing, frame, fresh, ignored, next, script, stale, ActionModel, CloseReason, EventModel,
    SessionState, SocketModel, WriteOutcome,
};
use crate::supervisor::{
    supervisor_action, supervisor_next, SupervisorAction, SupervisorEvent, SupervisorState,
};
use crate::text::{contains, occurs_at};
use vstd::prelude::*;

verus! {

/// The event is a read that brought at least one byte.
pub open spec fn is_successful_read(e: EventModel) -> bool {
    match e {
        EventModel::LineRead { bytes_read, .. } => bytes_read > 0,
        _ => false,
    }
}

/// What the fields of a session hold in each state: before streaming the
/// clock is at 0; the handshake is written only over TLS; streaming starts
/// only after all five commands of the handshake.
pub open spec fn consistent(s: SocketModel) -> bool {
    match s.state {
        SessionState::Connecting => !s.secured && s.sent == 0 && s.last_data == 0,
        SessionState::Handshaking => s.sent < 5 && (!s.secured ==> s.sent == 0) && s.last_data
            == 0,
        SessionState::Streaming => s.secured && s.sent == 5,
        SessionState::Closing(_) => true,
    }
}

/// A framed command, read as one line, is the command again.
pub proof fn lemma_frame_reads_back(command: Seq<char>)
    ensures
        frame_text(frame(command)) == command,
{
    let framed = frame(command);
    assert(framed.skip(framed.len() - 2) =~= seq!['\r', '\n']);
    assert(framed.take(framed.len() - 2) =~= command);
}

/// The reconnect request does not hold the server's ping.
pub proof fn lemma_reconnect_is_no_ping()
    ensures
        !contains(":tmi.twitch.tv RECONNECT"@, "PING :tmi.twitch.tv"@),
        kind_of(":tmi.twitch.tv RECONNECT"@) == LineKind::Reconnect,
{
    reveal_strlit(":tmi.twitch.tv RECONNECT");
    reveal_strlit("PING :tmi.twitch.tv");
    let line = ":tmi.twitch.tv RECONNECT"@;
    let ping = "PING :tmi.twitch.tv"@;
    assert forall|i: int| !occurs_at(line, ping, i) by {
        if occurs_at(line, ping, i) {
            assert(line.subrange(i, i + ping.len())[0] == ping[0]);
            assert(line[i] == 'P');
        }
    }
}

/// A fresh session is consistent, and every event leaves a consistent
/// session consistent.
pub proof fn lemma_consistency_kept(s: SocketModel, e: EventModel)
    requires
        consistent(s),
    ensures
        consistent(fresh(s.nick, s.channel)),
        consistent(next(s, e).socket),
        next(s, e).socket.nick == s.nick,
        next(s, e).socket.channel == s.channel,
{
}

/// The handshake goes out in the order of the script: in a consistent
/// session, a frame is written only while handshaking, it is the command
/// whose number is the count of writes ended so far, and streaming starts
/// with the end of the fifth write.
pub proof fn lemma_handshake_in_order(s: SocketModel, e: EventModel)
    requires
        consistent(s),
    ensures
        match next(s, e).action {
            ActionModel::Write(text) => {
                &&& s.state == SessionState::Handshaking
                &&& next(s, e).socket.state == SessionState::Handshaking
                &&& text == script(s.nick, s.channel)[next(s, e).socket.sent as int].push(
                    '\r',
                ).push('\n')
                &&& next(s, e).socket.sent == (if e == EventModel::TlsReady {
                    0
                } else {
                    s.sent + 1
                })
            },
            ActionModel::StartTasks => {
                &&& s.state == SessionState::Handshaking
                &&& s.sent == 4
                &&& next(s, e).socket.state == SessionState::Streaming
            },
            _ => true,
        },
{
}

/// Only a read that brought bytes, while streaming, moves the liveness
/// clock, and it sets it to the time of the read, whatever the line holds.
pub proof fn lemma_clock_follows_reads(s: SocketModel, e: EventModel)
    ensures
        !(s.state == SessionState::Streaming && is_successful_read(e)) ==> next(
            s,
            e,
        ).socket.last_data == s.last_data,
        s.state == SessionState::Streaming ==> match e {
            EventModel::LineRead { bytes_read, now, .. } => bytes_read > 0 ==> next(
                s,
                e,
            ).socket.last_data == now,
            _ => true,
        },
{
}

/// A read of no bytes while streaming ends the session: the peer has closed.
pub proof fn lemma_end_of_stream_closes(
    s: SocketModel,
    buffer: Seq<char>,
    now: i64,
    clock: Seq<char>,
)
    requires
        s.state == SessionState::Streaming,
    ensures
        next(s, EventModel::LineRead { bytes_read: 0, buffer, now, clock }) == closing(
            s,
            CloseReason::PeerClosed,
        ),
{
}

/// A line that holds the server's ping, and no `PRIVMSG`, is answered with
/// exactly one action: the reply `PONG :tmi.twitch.tv` goes on the outbound
/// queue. No chat event is emitted, and the session goes on streaming.
pub proof fn lemma_ping_answered(
    s: SocketModel,
    bytes_read: usize,
    buffer: Seq<char>,
    now: i64,
    clock: Seq<char>,
)
    requires
        s.state == SessionState::Streaming,
        bytes_read > 0,
        contains(frame_text(buffer), "PING :tmi.twitch.tv"@),
        !contains(frame_text(buffer), "PRIVMSG"@),
    ensures
        next(s, EventModel::LineRead { bytes_read, buffer, now, clock }).action
            == ActionModel::Enqueue("PONG :tmi.twitch.tv"@),
        next(s, EventModel::LineRead { bytes_read, buffer, now, clock }).socket == (SocketModel {
            last_data: now,
            ..s
        }),
{
    lemma_reconnect_is_no_ping();
}

/// The exact line `:tmi.twitch.tv RECONNECT` ends streaming with the reason
/// `RemoteReconnect`; the supervisor answers the exit with its pause of one
/// second, and the end of the pause with one new session: once the new
/// session runs, a further end of pause starts no other.
pub proof fn lemma_reconnect_restarts(
    s: SocketModel,
    bytes_read: usize,
    buffer: Seq<char>,
    now: i64,
    clock: Seq<char>,
)
    requires
        s.state == SessionState::Streaming,
        bytes_read > 0,
        frame_text(buffer) == ":tmi.twitch.tv RECONNECT"@,
    ensures
        next(s, EventModel::LineRead { bytes_read, buffer, now, clock }).socket.state
            == SessionState::Closing(CloseReason::RemoteReconnect),
        next(s, EventModel::LineRead { bytes_read, buffer, now, clock }).action
            == ActionModel::Close(CloseReason::RemoteReconnect),
        supervisor_action(
            SupervisorState::Running,
            SupervisorEvent::SessionExited(CloseReason::RemoteReconnect),
        ) == SupervisorAction::Sleep(1),
        supervisor_next(
            SupervisorState::Running,
            SupervisorEvent::SessionExited(CloseReason::RemoteReconnect),
        ) == SupervisorState::BackingOff,
        supervisor_action(SupervisorState::BackingOff, SupervisorEvent::BackoffElapsed)
            == SupervisorAction::StartSession,
        supervisor_next(SupervisorState::BackingOff, SupervisorEvent::BackoffElapsed)
            == SupervisorState::Running,
        supervisor_action(SupervisorState::Running, SupervisorEvent::BackoffElapsed)
            == SupervisorAction::Idle,
{
}

/// The supervisor always reconnects: whatever ended the session, it pauses
/// for one second and then starts a new session; while it pauses, a further
/// exit changes nothing, and while a session runs, the end of a pause
/// starts no other.
pub proof fn lemma_every_exit_restarts(reason: CloseReason, other: CloseReason)
    ensures
        supervisor_action(SupervisorState::Running, SupervisorEvent::SessionExited(reason))
            == SupervisorAction::Sleep(1),
        supervisor_next(SupervisorState::Running, SupervisorEvent::SessionExited(reason))
            == SupervisorState::BackingOff,
        supervisor_action(SupervisorState::BackingOff, SupervisorEvent::SessionExited(other))
            == SupervisorAction::Idle,
        supervisor_next(SupervisorState::BackingOff, SupervisorEvent::SessionExited(other))
            == SupervisorState::BackingOff,
        supervisor_action(SupervisorState::BackingOff, SupervisorEvent::BackoffElapsed)
            == SupervisorAction::StartSession,
        supervisor_next(SupervisorState::BackingOff, SupervisorEvent::BackoffElapsed)
            == SupervisorState::Running,
        supervisor_action(SupervisorState::Running, SupervisorEvent::BackoffElapsed)
            == SupervisorAction::Idle,
        supervisor_next(SupervisorState::Running, SupervisorEvent::BackoffElapsed)
            == SupervisorState::Running,
{
}

/// A session that is closing stays as it is, and no event calls for an
/// action any more: no heartbeat, no read, no second close.
pub proof fn lemma_closing_is_final(s: SocketModel, e: EventModel)
    requires
        s.state is Closing,
    ensures
        next(s, e) == ignored(s),
{
}

/// While streaming, the liveness monitor closes the session exactly when
/// 25 seconds or more have passed since the last read: then the reason is
/// `StaleConnection`, and whatever is reported afterwards, a heartbeat, a
/// read or another look at the clock, changes nothing and calls for no action.
pub proof fn lemma_stale_closes_once(s: SocketModel, now: i64, later: EventModel)
    requires
        s.state == SessionState::Streaming,
    ensures
        stale(now, s.last_data) <==> now - s.last_data >= 25,
        stale(now, s.last_data) ==> next(s, EventModel::MonitorTick { now }) == closing(
            s,
            CloseReason::StaleConnection,
        ),
        stale(now, s.last_data) ==> next(next(s, EventModel::MonitorTick { now }).socket, later)
            == ignored(next(s, EventModel::MonitorTick { now }).socket),
        !stale(now, s.last_data) ==> next(s, EventModel::MonitorTick { now }) == ignored(s),
{
}

/// A write that met a broken pipe ends the session, while handshaking over
/// TLS and while streaming; any other end of a write does not.
pub proof fn lemma_broken_pipe_is_fatal(s: SocketModel, outcome: WriteOutcome)
    requires
        s.state == SessionState::Streaming || (s.state == SessionState::Handshaking && s.secured),
    ensures
        outcome == WriteOutcome::BrokenPipe ==> next(s, EventModel::WriteFinished(outcome))
            == closing(s, CloseReason::BrokenPipe),
        outcome != WriteOutcome::BrokenPipe ==> !(next(
            s,
            EventModel::WriteFinished(outcome),
        ).socket.state is Closing),
{
}

} // verus!
