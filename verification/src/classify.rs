//! Classification of the lines read from the server, and the parsing of chat
//! lines into channel, display name and message.

use crate::tags::{entries, extract_tags, lookup, tag_map};
use crate::text::{
    after_last, chars_of, contains, ends_with, find_last, has, occurs_at, rows, same_chars,
    slice_of, split, split_chars, squeeze, squeeze_range, string_of, strip_leading, strip_trailing,
    trim, trim_bounds,
};
use dashmap::DashMap;
use vstd::prelude::*;

verus! {

/// What a line from the server asks of the session.
#[derive(Clone, Copy, Debug, PartialEq, Eq, Structural)]
pub enum LineKind {
    /// The server asks for a new connection.
    Reconnect,
    /// A chat message.
    Chat,
    /// A keep-alive request that wants a reply.
    Ping,
    /// Anything else: read and ignored.
    Other,
}

/// Why a chat line could not be parsed.
#[derive(Clone, Copy, Debug, PartialEq, Eq, Structural)]
pub enum LineError {
    /// The line has fewer than four tokens: no channel.
    MissingChannel,
    /// The tag `user-id` is absent.
    MissingUserId,
    /// The tag `user-type` is absent.
    MissingUserType,
    /// The tag that carries the name holds no second piece.
    MissingDisplayName,
}

/// The fields of a parsed chat line.
#[derive(Debug, PartialEq, Eq)]
pub struct ChatLine {
    pub channel: String,
    pub display_name: String,
    pub message: String,
}

/// The fields of a parsed chat line, as character sequences.
pub ghost struct ChatLineModel {
    pub channel: Seq<char>,
    pub display_name: Seq<char>,
    pub message: Seq<char>,
}

impl View for ChatLine {
    type V = ChatLineModel;

    open spec fn view(&self) -> ChatLineModel {
        ChatLineModel {
            channel: self.channel@,
            display_name: self.display_name@,
            message: self.message@,
        }
    }
}

/// The text of a frame: the bytes read up to and including the line feed,
/// without the trailing carriage return and line feed, or without the line
/// feed alone.
pub open spec fn frame_text(buffer: Seq<char>) -> Seq<char> {
    if ends_with(buffer, seq!['\r', '\n']) {
        strip_trailing(buffer, seq!['\r', '\n'])
    } else {
        strip_trailing(buffer, seq!['\n'])
    }
}

/// The class of a line, by priority: the exact reconnect request, then any
/// line that holds `PRIVMSG`, then any that holds the server's ping.
pub open spec fn kind_of(line: Seq<char>) -> LineKind {
    if line == ":tmi.twitch.tv RECONNECT"@ {
        LineKind::Reconnect
    } else if contains(line, "PRIVMSG"@) {
        LineKind::Chat
    } else if contains(line, "PING :tmi.twitch.tv"@) {
        LineKind::Ping
    } else {
        LineKind::Other
    }
}

/// The channel of a chat line: its fourth token between single spaces,
/// without one leading `#`.
pub open spec fn channel_of(line: Seq<char>) -> Option<Seq<char>> {
    let tokens = split(line, ' ', ' ');
    if tokens.len() > 3 {
        Some(strip_leading(tokens[3], '#'))
    } else {
        None
    }
}

/// The second of the pieces of `s` between the delimiters `a` and `b`.
pub open spec fn second_piece(s: Seq<char>, a: char, b: char) -> Option<Seq<char>> {
    let pieces = split(s, a, b);
    if pieces.len() > 1 {
        Some(pieces[1])
    } else {
        None
    }
}

/// The display name that a tag set gives: from the tag `vip` where it is
/// present, the piece after its first `:` or `!`; else from the tag
/// `user-type`, the piece after its first `!` or `@`.
pub open spec fn display_name_of(tags: Map<Seq<char>, Seq<char>>) -> Option<Seq<char>> {
    if tags.contains_key("vip"@) {
        second_piece(tags["vip"@], ':', '!')
    } else if tags.contains_key("user-type"@) {
        second_piece(tags["user-type"@], '!', '@')
    } else {
        None
    }
}

/// The message of a chat line on `channel`: what follows the last occurrence
/// of the channel, a space and a colon, trimmed, pairs of spaces made one.
pub open spec fn message_of(line: Seq<char>, channel: Seq<char>) -> Seq<char> {
    squeeze(trim(after_last(line, channel.push(' ').push(':'))))
}

/// What a chat line parses to. The checks come in this order: channel,
/// `user-id`, `user-type`, display name.
pub open spec fn parse_chat(line: Seq<char>) -> Result<ChatLineModel, LineError> {
    let tags = tag_map(line);
    match channel_of(line) {
        None => Err(LineError::MissingChannel),
        Some(channel) => if !tags.contains_key("user-id"@) {
            Err(LineError::MissingUserId)
        } else if !tags.contains_key("user-type"@) {
            Err(LineError::MissingUserType)
        } else {
            match display_name_of(tags) {
                None => Err(LineError::MissingDisplayName),
                Some(display_name) => Ok(
                    ChatLineModel { channel, display_name, message: message_of(line, channel) },
                ),
            }
        },
    }
}

/// Removes the line terminator from what was read as one line.
pub fn strip_line_ending(buffer: &str) -> (line: String)
    ensures
        line@ == frame_text(buffer@),
{
    let v = chars_of(buffer);
    let n = v.len();
    let ghost crlf = seq!['\r', '\n'];
    let ghost lf = seq!['\n'];
    if n >= 2 && v[n - 2] == '\r' && v[n - 1] == '\n' {
        assert(v@.skip(n - 2) =~= crlf);
        string_of(&v, 0, n - 2)
    } else if n >= 1 && v[n - 1] == '\n' {
        assert(!ends_with(v@, crlf)) by {
            if n >= 2 && ends_with(v@, crlf) {
                assert(v@.skip(n - 2)[0] == '\r');
            }
        }
        assert(v@.skip(n - 1) =~= lf);
        string_of(&v, 0, n - 1)
    } else {
        assert(!ends_with(v@, crlf)) by {
            if n >= 2 && ends_with(v@, crlf) {
                assert(v@.skip(n - 2)[1] == '\n');
            }
        }
        assert(!ends_with(v@, lf)) by {
            if n >= 1 && ends_with(v@, lf) {
                assert(v@.skip(n - 1)[0] == '\n');
            }
        }
        assert(v@.subrange(0, n as int) =~= v@);
        string_of(&v, 0, n)
    }
}

/// Classifies a line.
pub fn classify(line: &str) -> (kind: LineKind)
    ensures
        kind == kind_of(line@),
{
    let v = chars_of(line);
    if same_chars(&v, &chars_of(":tmi.twitch.tv RECONNECT")) {
        LineKind::Reconnect
    } else if has(&v, &chars_of("PRIVMSG")) {
        LineKind::Chat
    } else if has(&v, &chars_of("PING :tmi.twitch.tv")) {
        LineKind::Ping
    } else {
        LineKind::Other
    }
}

/// The second piece of `s` between the delimiters `a` and `b`, if there is one.
fn second_of(s: &str, a: char, b: char) -> (piece: Option<String>)
    ensures
        match piece {
            Some(p) => second_piece(s@, a, b) == Some(p@),
            None => second_piece(s@, a, b).is_none(),
        },
{
    let pieces = split_chars(&chars_of(s), a, b);
    if pieces.len() > 1 {
        let p = &pieces[1];
        assert(rows(pieces@)[1] == p@);
        assert(p@.subrange(0, p@.len() as int) =~= p@);
        Some(string_of(p, 0, p.len()))
    } else {
        None
    }
}

/// The display name that a tag set gives, if it gives one.
pub fn display_name(tags: &DashMap<String, String>) -> (name: Option<String>)
    ensures
        match name {
            Some(n) => display_name_of(entries(*tags)) == Some(n@),
            None => display_name_of(entries(*tags)).is_none(),
        },
{
    match lookup(tags, "vip") {
        Some(vip) => second_of(vip.as_str(), ':', '!'),
        None => match lookup(tags, "user-type") {
            Some(user_type) => second_of(user_type.as_str(), '!', '@'),
            None => None,
        },
    }
}

/// The channel of a chat line, if the line has a fourth token.
pub fn channel(line: &str) -> (found: Option<String>)
    ensures
        match found {
            Some(c) => channel_of(line@) == Some(c@),
            None => channel_of(line@).is_none(),
        },
{
    let tokens = split_chars(&chars_of(line), ' ', ' ');
    if tokens.len() > 3 {
        let token = &tokens[3];
        assert(rows(tokens@)[3] == token@);
        let from: usize = if token.len() > 0 && token[0] == '#' {
            1
        } else {
            0
        };
        assert(strip_leading(token@, '#') =~= token@.subrange(from as int, token@.len() as int));
        Some(string_of(token, from, token.len()))
    } else {
        None
    }
}

/// The message of a chat line on `channel`.
pub fn message(line: &str, channel: &str) -> (text: String)
    ensures
        text@ == message_of(line@, channel@),
{
    let v = chars_of(line);
    let mut pat = chars_of(channel);
    pat.push(' ');
    pat.push(':');
    let rest = match find_last(&v, &pat) {
        Some(i) => {
            assert(i + pat.len() <= v.len()) by {
                assert(occurs_at(v@, pat@, i as int));
            }
            assert(v@.skip(i + pat.len()) =~= v@.subrange(i + pat.len(), v.len() as int));
            slice_of(&v, i + pat.len(), v.len())
        },
        None => v,
    };
    let (from, to) = trim_bounds(&rest);
    squeeze_range(&rest, from, to)
}

/// Parses a chat line. A line that lacks a token or a tag is refused with
/// the first thing that it lacks.
pub fn parse_privmsg(line: &str) -> (parsed: Result<ChatLine, LineError>)
    ensures
        match parsed {
            Ok(chat) => parse_chat(line@) == Ok::<ChatLineModel, LineError>(chat@),
            Err(e) => parse_chat(line@) == Err::<ChatLineModel, LineError>(e),
        },
{
    let channel = match channel(line) {
        Some(c) => c,
        None => {
            return Err(LineError::MissingChannel);
        },
    };
    let tags = extract_tags(line);
    if lookup(&tags, "user-id").is_none() {
        return Err(LineError::MissingUserId);
    }
    if lookup(&tags, "user-type").is_none() {
        return Err(LineError::MissingUserType);
    }
    let display_name = match display_name(&tags) {
        Some(n) => n,
        None => {
            return Err(LineError::MissingDisplayName);
        },
    };
    let message = message(line, channel.as_str());
    Ok(ChatLine { channel, display_name, message })
}

} // verus!
