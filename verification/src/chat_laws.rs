//! What the parser of chat lines gives on the lines that the server writes.

use crate::classify::{
    channel_of, display_name_of, message_of, parse_chat, second_piece, ChatLineModel, LineError,
};
use crate::tag_laws::{
    joined, lemma_collect_lookup, lemma_well_formed_tags, pair_texts, tag_text, well_formed,
};
use crate::tags::{collect, tag_map};
use crate::text::{
    after_last, ends_with, is_delim, join, lacks, lemma_last_occurrence_is, occurs_at, split,
    squeeze, strip_leading, trim,
};
use crate::text_laws::lemma_split_first;
use vstd::prelude::*;

verus! {

/// The sender of a chat line as the server writes it: `:nick!nick@host`.
pub open spec fn sender(nick: Seq<char>, host: Seq<char>) -> Seq<char> {
    seq![':'] + nick + seq!['!'] + nick + seq!['@'] + host
}

/// What follows the tags of a chat line: a space, the sender, ` PRIVMSG #`,
/// the channel, ` :`, the message.
pub open spec fn trailer(
    nick: Seq<char>,
    host: Seq<char>,
    channel: Seq<char>,
    message: Seq<char>,
) -> Seq<char> {
    seq![' '] + sender(nick, host) + seq![' '] + "PRIVMSG"@ + seq![' ', '#'] + channel + seq![
        ' ',
        ':',
    ] + message
}

/// A chat line as the server writes it: the tags, then the trailer.
pub open spec fn wire_line(
    pairs: Seq<(Seq<char>, Seq<char>)>,
    nick: Seq<char>,
    host: Seq<char>,
    channel: Seq<char>,
    message: Seq<char>,
) -> Seq<char> {
    tag_text(pairs) + trailer(nick, host, channel, message)
}

/// The last tag is the one that the display name is read from: it is `vip`,
/// with a value without `:` and `!`; or it is `user-type`, with a value
/// without `!` and `@`, and there is no tag `vip`.
pub open spec fn name_tag_is_last(pairs: Seq<(Seq<char>, Seq<char>)>) -> bool {
    ||| pairs.last().0 == "vip"@ && lacks(pairs.last().1, ':') && lacks(pairs.last().1, '!')
    ||| {
        &&& pairs.last().0 == "user-type"@
        &&& lacks(pairs.last().1, '!')
        &&& lacks(pairs.last().1, '@')
        &&& forall|i: int| 0 <= i < pairs.len() ==> (#[trigger] pairs[i]).0 != "vip"@
    }
}

/// The parts make a line that can be read back: the tags hold no space and
/// are well formed but for what follows them, with `user-id` and `user-type`
/// among them and the tag of the name last; the nickname holds none of the
/// characters that the line is cut at; host and channel hold neither space
/// nor `;`; the message holds no `;`, does not end with `PRIVMSG`, and the
/// channel with ` :` does not come again in it.
pub open spec fn wire_formed(
    pairs: Seq<(Seq<char>, Seq<char>)>,
    nick: Seq<char>,
    host: Seq<char>,
    channel: Seq<char>,
    message: Seq<char>,
) -> bool {
    &&& pairs.len() >= 1
    &&& forall|i: int|
        0 <= i < pairs.len() ==> {
            &&& lacks((#[trigger] pairs[i]).0, '=')
            &&& lacks(pairs[i].0, ';')
            &&& lacks(pairs[i].0, ' ')
            &&& lacks(pairs[i].1, ';')
            &&& lacks(pairs[i].1, ' ')
        }
    &&& exists|i: int| 0 <= i < pairs.len() && (#[trigger] pairs[i]).0 == "user-id"@
    &&& exists|i: int| 0 <= i < pairs.len() && (#[trigger] pairs[i]).0 == "user-type"@
    &&& name_tag_is_last(pairs)
    &&& lacks(nick, ' ') && lacks(nick, ';') && lacks(nick, ':') && lacks(nick, '!') && lacks(
        nick,
        '@',
    )
    &&& lacks(host, ' ') && lacks(host, ';')
    &&& lacks(channel, ' ') && lacks(channel, ';')
    &&& lacks(message, ';')
    &&& !ends_with(message, "PRIVMSG"@)
    &&& forall|j: int|
        j > 0 ==> !occurs_at(
            channel.push(' ').push(':') + message,
            channel.push(' ').push(':'),
            j,
        )
}

/// The pairs of a wire line, as the parser finds them: the pairs that were
/// written, the value of the last one running on to the end of the line.
pub open spec fn run_on(pairs: Seq<(Seq<char>, Seq<char>)>, rest: Seq<char>) -> Seq<
    (Seq<char>, Seq<char>),
> {
    pairs.drop_last().push((pairs.last().0, pairs.last().1 + rest))
}

/// Joining pieces of which the last runs on gives the joined pieces, running
/// on.
proof fn lemma_joined_runs_on(pairs: Seq<(Seq<char>, Seq<char>)>, rest: Seq<char>)
    requires
        pairs.len() >= 1,
    ensures
        joined(run_on(pairs, rest)) == joined(pairs) + rest,
{
    let long = run_on(pairs, rest);
    let texts = pair_texts(pairs);
    let long_texts = pair_texts(long);
    assert(long_texts.last() =~= texts.last() + rest);
    if pairs.len() > 1 {
        assert(long_texts.drop_last() =~= texts.drop_last());
        assert(join(texts.drop_last(), ';').push(';') + (texts.last() + rest) =~= (join(
            texts.drop_last(),
            ';',
        ).push(';') + texts.last()) + rest);
    }
}

/// Pieces that hold no `c`, joined with another character, hold no `c`.
proof fn lemma_join_lacks(pieces: Seq<Seq<char>>, d: char, c: char)
    requires
        d != c,
        forall|k: int| 0 <= k < pieces.len() ==> lacks(#[trigger] pieces[k], c),
    ensures
        lacks(join(pieces, d), c),
    decreases pieces.len(),
{
    if pieces.len() == 1 {
        assert(lacks(pieces[0], c));
    } else if pieces.len() > 1 {
        let front = pieces.drop_last();
        assert forall|k: int| 0 <= k < front.len() implies lacks(#[trigger] front[k], c) by {
            assert(front[k] == pieces[k]);
        }
        lemma_join_lacks(front, d, c);
        assert(lacks(pieces[pieces.len() - 1], c));
    }
}

/// The marker `PRIVMSG` holds neither space nor `;` nor `:`.
proof fn lemma_marker_is_plain()
    ensures
        "PRIVMSG"@.len() == 7,
        lacks("PRIVMSG"@, ' '),
        lacks("PRIVMSG"@, ';'),
        lacks("PRIVMSG"@, ':'),
{
    reveal_strlit("PRIVMSG");
}

/// The tags of a wire line hold no space.
proof fn lemma_tags_lack_space(pairs: Seq<(Seq<char>, Seq<char>)>)
    requires
        forall|i: int|
            0 <= i < pairs.len() ==> lacks((#[trigger] pairs[i]).0, ' ') && lacks(pairs[i].1, ' '),
    ensures
        lacks(tag_text(pairs), ' '),
{
    let texts = pair_texts(pairs);
    assert forall|k: int| 0 <= k < texts.len() implies lacks(#[trigger] texts[k], ' ') by {
        assert(lacks(pairs[k].0, ' ') && lacks(pairs[k].1, ' '));
    }
    lemma_join_lacks(texts, ';', ' ');
}

/// The channel of a wire line is the channel that was written.
proof fn lemma_wire_channel(
    pairs: Seq<(Seq<char>, Seq<char>)>,
    nick: Seq<char>,
    host: Seq<char>,
    channel: Seq<char>,
    message: Seq<char>,
)
    requires
        wire_formed(pairs, nick, host, channel, message),
    ensures
        channel_of(wire_line(pairs, nick, host, channel, message)) == Some(channel),
{
    lemma_marker_is_plain();
    lemma_tags_lack_space(pairs);
    let line = wire_line(pairs, nick, host, channel, message);
    let tags = tag_text(pairs);
    let from = sender(nick, host);
    let marker = "PRIVMSG"@;
    let target = seq!['#'] + channel;
    let body = seq![':'] + message;
    let r3 = target.push(' ') + body;
    let r2 = marker.push(' ') + r3;
    let r1 = from.push(' ') + r2;
    assert(line =~= tags.push(' ') + r1);
    lemma_split_first(target, ' ', body, ' ', ' ');
    lemma_split_first(marker, ' ', r3, ' ', ' ');
    lemma_split_first(from, ' ', r2, ' ', ' ');
    lemma_split_first(tags, ' ', r1, ' ', ' ');
    let tokens = split(line, ' ', ' ');
    assert(tokens =~= seq![tags] + (seq![from] + (seq![marker] + (seq![target] + split(
        body,
        ' ',
        ' ',
    )))));
    assert(tokens[3] == target);
    assert(strip_leading(target, '#') =~= channel);
}

/// The message of a wire line is the message that was written, trimmed and
/// squeezed.
proof fn lemma_wire_message(
    pairs: Seq<(Seq<char>, Seq<char>)>,
    nick: Seq<char>,
    host: Seq<char>,
    channel: Seq<char>,
    message: Seq<char>,
)
    requires
        wire_formed(pairs, nick, host, channel, message),
    ensures
        message_of(wire_line(pairs, nick, host, channel, message), channel) == squeeze(
            trim(message),
        ),
{
    let line = wire_line(pairs, nick, host, channel, message);
    let pat = channel.push(' ').push(':');
    let tail = pat + message;
    let head = tag_text(pairs) + seq![' '] + sender(nick, host) + seq![' '] + "PRIVMSG"@ + seq![
        ' ',
        '#',
    ];
    let p = head.len() as int;
    assert(line =~= head + tail);
    assert(line.subrange(p, p + pat.len()) =~= pat);
    assert forall|j: int| p < j implies !occurs_at(line, pat, j) by {
        if occurs_at(line, pat, j) {
            assert(tail.subrange(j - p, j - p + pat.len()) =~= line.subrange(j, j + pat.len()));
            assert(occurs_at(tail, pat, j - p));
        }
    }
    lemma_last_occurrence_is(line, pat, p);
    assert(after_last(line, pat) =~= message);
}

/// A text that ends with `:` and a message does not end with `PRIVMSG`
/// unless the message does.
proof fn lemma_no_marker_at_end(before: Seq<char>, message: Seq<char>)
    requires
        !ends_with(message, "PRIVMSG"@),
    ensures
        !ends_with(before.push(':') + message, "PRIVMSG"@),
{
    lemma_marker_is_plain();
    let marker = "PRIVMSG"@;
    let whole = before.push(':') + message;
    if ends_with(whole, marker) {
        let end = whole.skip(whole.len() - 7);
        if message.len() >= 7 {
            assert(message.skip(message.len() - 7) =~= end);
        } else {
            let at = 6 - message.len();
            assert(end[at] == whole[whole.len() - 7 + at]);
            assert(whole[before.len() as int] == ':');
            assert(marker[at] != ':');
        }
    }
}

/// The tag set of a wire line holds the pairs that were written, the value
/// of the last one running on to the end of the line.
pub proof fn lemma_wire_tags(
    pairs: Seq<(Seq<char>, Seq<char>)>,
    nick: Seq<char>,
    host: Seq<char>,
    channel: Seq<char>,
    message: Seq<char>,
)
    requires
        wire_formed(pairs, nick, host, channel, message),
    ensures
        tag_map(wire_line(pairs, nick, host, channel, message)) == collect(
            run_on(pairs, trailer(nick, host, channel, message)),
        ),
{
    lemma_marker_is_plain();
    let rest = trailer(nick, host, channel, message);
    let long = run_on(pairs, rest);
    let line = wire_line(pairs, nick, host, channel, message);
    lemma_joined_runs_on(pairs, rest);
    assert(tag_text(long) =~= line);
    assert(lacks(rest, ';'));
    assert forall|i: int| 0 <= i < long.len() implies lacks((#[trigger] long[i]).0, '=') && lacks(
        long[i].0,
        ';',
    ) && lacks(long[i].1, ';') by {
        assert(lacks(pairs[i].0, '=') && lacks(pairs[i].0, ';') && lacks(pairs[i].1, ';'));
        assert(long[i].0 == pairs[i].0);
        if i < long.len() - 1 {
            assert(long[i] == pairs[i]);
        } else {
            assert(long[i].1 == pairs[i].1 + rest);
            assert(lacks(long[i].1, ';'));
        }
    }
    let before = joined(pairs) + seq![' '] + sender(nick, host) + seq![' '] + "PRIVMSG"@ + seq![
        ' ',
        '#',
    ] + channel + seq![' '];
    assert(joined(long) =~= before.push(':') + message);
    lemma_no_marker_at_end(before, message);
    assert(well_formed(long));
    lemma_well_formed_tags(long);
}

/// What follows the nickname in the sender of a wire line, to the end of
/// the line.
pub open spec fn after_nick(host: Seq<char>, channel: Seq<char>, message: Seq<char>) -> Seq<
    char,
> {
    seq!['@'] + host + seq![' '] + "PRIVMSG"@ + seq![' ', '#'] + channel + seq![' ', ':'] + message
}

/// The trailer, cut at the two places where the nickname stands.
proof fn lemma_trailer_shape(
    value: Seq<char>,
    nick: Seq<char>,
    host: Seq<char>,
    channel: Seq<char>,
    message: Seq<char>,
)
    ensures
        value + trailer(nick, host, channel, message) == (value + seq![' ']).push(':') + (nick.push(
            '!',
        ) + (nick + after_nick(host, channel, message))),
        value + trailer(nick, host, channel, message) == (value + seq![' ', ':'] + nick).push('!')
            + (nick.push('@') + after_nick(host, channel, message).skip(1)),
{
    let rest = after_nick(host, channel, message);
    let whole = value + trailer(nick, host, channel, message);
    assert(trailer(nick, host, channel, message) =~= seq![' ', ':'] + nick + seq!['!'] + nick
        + rest);
    assert(whole =~= (value + seq![' ']).push(':') + (nick.push('!') + (nick + rest)));
    assert(rest[0] == '@');
    assert(whole =~= (value + seq![' ', ':'] + nick).push('!') + (nick.push('@') + rest.skip(1)));
}

/// A text of two pieces without delimiters, each followed by a delimiter,
/// has the second of them as its second piece.
proof fn lemma_second_piece(
    first: Seq<char>,
    d1: char,
    second: Seq<char>,
    d2: char,
    rest: Seq<char>,
    a: char,
    b: char,
)
    requires
        is_delim(d1, a, b),
        is_delim(d2, a, b),
        forall|j: int| 0 <= j < first.len() ==> !is_delim(first[j], a, b),
        forall|j: int| 0 <= j < second.len() ==> !is_delim(second[j], a, b),
    ensures
        second_piece(first.push(d1) + (second.push(d2) + rest), a, b) == Some(second),
{
    lemma_split_first(second, d2, rest, a, b);
    lemma_split_first(first, d1, second.push(d2) + rest, a, b);
    let pieces = split(first.push(d1) + (second.push(d2) + rest), a, b);
    assert(pieces =~= seq![first] + (seq![second] + split(rest, a, b)));
    assert(pieces[1] == second);
}

/// The value of a last tag `vip`, running on to the end of the line, has
/// the nickname as its second piece between `:` and `!`.
proof fn lemma_name_from_vip(
    value: Seq<char>,
    nick: Seq<char>,
    host: Seq<char>,
    channel: Seq<char>,
    message: Seq<char>,
)
    requires
        lacks(value, ':') && lacks(value, '!'),
        lacks(nick, ':') && lacks(nick, '!'),
    ensures
        second_piece(value + trailer(nick, host, channel, message), ':', '!') == Some(nick),
{
    lemma_trailer_shape(value, nick, host, channel, message);
    let first = value + seq![' '];
    assert forall|j: int| 0 <= j < first.len() implies !is_delim(first[j], ':', '!') by {
        if j < value.len() {
            assert(first[j] == value[j]);
        }
    }
    lemma_second_piece(
        first,
        ':',
        nick,
        '!',
        nick + after_nick(host, channel, message),
        ':',
        '!',
    );
}

/// The value of a last tag `user-type`, running on to the end of the line,
/// has the nickname as its second piece between `!` and `@`.
proof fn lemma_name_from_user_type(
    value: Seq<char>,
    nick: Seq<char>,
    host: Seq<char>,
    channel: Seq<char>,
    message: Seq<char>,
)
    requires
        lacks(value, '!') && lacks(value, '@'),
        lacks(nick, '!') && lacks(nick, '@'),
    ensures
        second_piece(value + trailer(nick, host, channel, message), '!', '@') == Some(nick),
{
    lemma_trailer_shape(value, nick, host, channel, message);
    let first = value + seq![' ', ':'] + nick;
    assert forall|j: int| 0 <= j < first.len() implies !is_delim(first[j], '!', '@') by {
        if j < value.len() {
            assert(first[j] == value[j]);
        } else if j >= value.len() + 2 {
            assert(first[j] == nick[j - value.len() - 2]);
        }
    }
    lemma_second_piece(
        first,
        '!',
        nick,
        '@',
        after_nick(host, channel, message).skip(1),
        '!',
        '@',
    );
}

/// The keys of pairs of which the last runs on are the keys of the pairs,
/// and the last value is the one that runs on.
proof fn lemma_run_on_keys(pairs: Seq<(Seq<char>, Seq<char>)>, rest: Seq<char>)
    requires
        pairs.len() >= 1,
    ensures
        run_on(pairs, rest).len() == pairs.len(),
        forall|i: int|
            0 <= i < pairs.len() ==> (#[trigger] run_on(pairs, rest)[i]).0 == pairs[i].0,
        run_on(pairs, rest).last().1 == pairs.last().1 + rest,
{
}

/// The tags that are looked up on a wire line: `user-id` and `user-type`
/// are there, and the tag of the name has the value of the last pair,
/// running on.
proof fn lemma_wire_lookups(pairs: Seq<(Seq<char>, Seq<char>)>, rest: Seq<char>)
    requires
        pairs.len() >= 1,
        exists|i: int| 0 <= i < pairs.len() && (#[trigger] pairs[i]).0 == "user-id"@,
        exists|i: int| 0 <= i < pairs.len() && (#[trigger] pairs[i]).0 == "user-type"@,
    ensures
        collect(run_on(pairs, rest)).contains_key("user-id"@),
        collect(run_on(pairs, rest)).contains_key("user-type"@),
        collect(run_on(pairs, rest)).contains_key(pairs.last().0),
        collect(run_on(pairs, rest))[pairs.last().0] == pairs.last().1 + rest,
        (forall|i: int| 0 <= i < pairs.len() ==> (#[trigger] pairs[i]).0 != "vip"@) ==> !collect(
            run_on(pairs, rest),
        ).contains_key("vip"@),
{
    let long = run_on(pairs, rest);
    lemma_run_on_keys(pairs, rest);
    lemma_collect_lookup(long, "user-id"@);
    lemma_collect_lookup(long, "user-type"@);
    lemma_collect_lookup(long, "vip"@);
    lemma_collect_lookup(long, pairs.last().0);
    let id = choose|i: int| 0 <= i < pairs.len() && (#[trigger] pairs[i]).0 == "user-id"@;
    assert(long[id].0 == "user-id"@);
    let ty = choose|i: int| 0 <= i < pairs.len() && (#[trigger] pairs[i]).0 == "user-type"@;
    assert(long[ty].0 == "user-type"@);
    let n = pairs.len() - 1;
    assert(long[n].0 == pairs.last().0);
    if forall|i: int| 0 <= i < pairs.len() ==> (#[trigger] pairs[i]).0 != "vip"@ {
        if collect(long).contains_key("vip"@) {
            let i = choose|i: int| 0 <= i < long.len() && (#[trigger] long[i]).0 == "vip"@;
            assert(pairs[i].0 == "vip"@);
        }
    }
}

/// The display name of a wire line is the nickname of its sender.
proof fn lemma_wire_name(
    pairs: Seq<(Seq<char>, Seq<char>)>,
    nick: Seq<char>,
    host: Seq<char>,
    channel: Seq<char>,
    message: Seq<char>,
)
    requires
        wire_formed(pairs, nick, host, channel, message),
    ensures
        display_name_of(collect(run_on(pairs, trailer(nick, host, channel, message)))) == Some(
            nick,
        ),
        collect(run_on(pairs, trailer(nick, host, channel, message))).contains_key("user-id"@),
        collect(run_on(pairs, trailer(nick, host, channel, message))).contains_key("user-type"@),
{
    let rest = trailer(nick, host, channel, message);
    lemma_wire_lookups(pairs, rest);
    if pairs.last().0 == "vip"@ && lacks(pairs.last().1, ':') && lacks(pairs.last().1, '!') {
        lemma_name_from_vip(pairs.last().1, nick, host, channel, message);
    } else {
        lemma_name_from_user_type(pairs.last().1, nick, host, channel, message);
    }
}

/// A chat line as the server writes it parses to what it was written from:
/// the channel, the nickname of the sender as display name, and the
/// message, trimmed and squeezed.
pub proof fn lemma_wire_line_parses(
    pairs: Seq<(Seq<char>, Seq<char>)>,
    nick: Seq<char>,
    host: Seq<char>,
    channel: Seq<char>,
    message: Seq<char>,
)
    requires
        wire_formed(pairs, nick, host, channel, message),
    ensures
        parse_chat(wire_line(pairs, nick, host, channel, message)) == Ok::<
            ChatLineModel,
            LineError,
        >(ChatLineModel { channel, display_name: nick, message: squeeze(trim(message)) }),
{
    lemma_wire_channel(pairs, nick, host, channel, message);
    lemma_wire_tags(pairs, nick, host, channel, message);
    lemma_wire_name(pairs, nick, host, channel, message);
    lemma_wire_message(pairs, nick, host, channel, message);
}

} // verus!
