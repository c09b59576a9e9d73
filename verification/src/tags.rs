//! The tag parser: from the raw tag text of an IRC line to its tag set.

use crate::text::{
    chars_of, find_char, index_of, rows, slice_of, split, split_chars, starts_at, string_of,
    strip_leading, strip_trailing,
};
use dashmap::DashMap;
use vstd::prelude::*;

verus! {

/// `dashmap::DashMap`, carried as an opaque value.
#[verifier::external_type_specification]
#[verifier::external_body]
#[verifier::reject_recursive_types(K)]
#[verifier::reject_recursive_types(V)]
#[verifier::reject_recursive_types(S)]
pub struct ExDashMap<K, V, S>(DashMap<K, V, S>);

/// The key/value pairs that a tag set holds.
pub uninterp spec fn entries(set: DashMap<String, String>) -> Map<Seq<char>, Seq<char>>;

/// The tag set that holds nothing.
pub open spec fn no_tags() -> Map<Seq<char>, Seq<char>> {
    Map::empty()
}

/// `DashMap::new`: a map that holds nothing.
#[verifier::external_body]
pub(crate) fn empty_set() -> (made: DashMap<String, String>)
    ensures
        entries(made) == no_tags(),
{
    DashMap::new()
}

/// `DashMap::insert`: afterwards `key` maps to `value`, whatever it mapped to
/// before, and every other key is as it was. The exclusive borrow keeps the
/// call from waiting on a reference into the map.
#[verifier::external_body]
pub(crate) fn put(set: &mut DashMap<String, String>, key: String, value: String)
    ensures
        entries(*final(set)) == entries(*old(set)).insert(key@, value@),
{
    set.insert(key, value);
}

/// `DashMap::get`: a copy of the value that `key` maps to, if it maps to one.
/// The reference into the map is given up before the call returns.
#[verifier::external_body]
pub(crate) fn lookup(set: &DashMap<String, String>, key: &str) -> (found: Option<String>)
    ensures
        match found {
            Some(value) => entries(*set).contains_key(key@) && entries(*set)[key@] == value@,
            None => !entries(*set).contains_key(key@),
        },
{
    set.get(key).map(|entry| entry.value().clone())
}

/// The tag text proper: the raw text without one leading `@` and without one
/// trailing `PRIVMSG`.
pub open spec fn tag_body(raw: Seq<char>) -> Seq<char> {
    strip_trailing(strip_leading(raw, '@'), "PRIVMSG"@)
}

/// The key and value of one segment: what stands before and after its first
/// `=`. A segment without `=` gives the empty key with the empty value.
pub open spec fn tag_pair(segment: Seq<char>) -> (Seq<char>, Seq<char>) {
    let i = index_of(segment, '=');
    if i < segment.len() {
        (segment.take(i), segment.skip(i + 1))
    } else {
        (Seq::<char>::empty(), Seq::<char>::empty())
    }
}

/// The segments of the raw text: the pieces of its body between `;`.
pub open spec fn tag_segments(raw: Seq<char>) -> Seq<Seq<char>> {
    split(tag_body(raw), ';', ';')
}

/// The pairs of the raw text, one for each segment, in the order of the text.
pub open spec fn tag_pairs(raw: Seq<char>) -> Seq<(Seq<char>, Seq<char>)> {
    Seq::new(tag_segments(raw).len(), |i: int| tag_pair(tag_segments(raw)[i]))
}

/// The map that a sequence of pairs amounts to: where a key comes more than
/// once, its last value stands.
pub open spec fn collect(pairs: Seq<(Seq<char>, Seq<char>)>) -> Map<Seq<char>, Seq<char>>
    decreases pairs.len(),
{
    if pairs.len() == 0 {
        Map::empty()
    } else {
        collect(pairs.drop_last()).insert(pairs.last().0, pairs.last().1)
    }
}

/// The tag set of the raw text.
pub open spec fn tag_map(raw: Seq<char>) -> Map<Seq<char>, Seq<char>> {
    collect(tag_pairs(raw))
}

/// The body of the raw tag text.
fn body_of(raw: &Vec<char>) -> (body: Vec<char>)
    ensures
        body@ == tag_body(raw@),
{
    let from: usize = if raw.len() > 0 && raw[0] == '@' {
        1
    } else {
        0
    };
    let marker = chars_of("PRIVMSG");
    let ghost stripped = strip_leading(raw@, '@');
    assert(stripped =~= raw@.subrange(from as int, raw.len() as int));
    let rest = raw.len() - from;
    let to: usize = if marker.len() <= rest && starts_at(raw, &marker, raw.len() - marker.len()) {
        assert(stripped.skip(stripped.len() - marker@.len()) =~= raw@.subrange(
            raw.len() - marker.len(),
            raw.len() as int,
        ));
        raw.len() - marker.len()
    } else {
        if marker.len() <= rest {
            assert(stripped.skip(stripped.len() - marker@.len()) =~= raw@.subrange(
                raw.len() - marker.len(),
                raw.len() as int,
            ));
        }
        raw.len()
    };
    assert(tag_body(raw@) =~= raw@.subrange(from as int, to as int));
    slice_of(raw, from, to)
}

/// Parses the raw tag text of an IRC line into its tag set. Every text is
/// accepted: a segment without `=` is kept as the empty key with the empty
/// value.
pub fn extract_tags(tags: &str) -> (set: DashMap<String, String>)
    ensures
        entries(set) == tag_map(tags@),
{
    let raw = chars_of(tags);
    let body = body_of(&raw);
    let segments = split_chars(&body, ';', ';');
    let ghost pairs = tag_pairs(tags@);
    assert(rows(segments@) == tag_segments(tags@));
    let mut set = empty_set();
    let mut k: usize = 0;
    assert(pairs.take(0) =~= Seq::empty());
    while k < segments.len()
        invariant
            k <= segments.len(),
            rows(segments@) == tag_segments(tags@),
            pairs == tag_pairs(tags@),
            entries(set) == collect(pairs.take(k as int)),
        decreases segments.len() - k,
    {
        let segment = &segments[k];
        assert(segment@ == tag_segments(tags@)[k as int]) by {
            assert(rows(segments@)[k as int] == segments@[k as int]@);
        }
        let i = find_char(segment, '=');
        let ghost done = pairs.take(k as int);
        if i < segment.len() {
            let key = string_of(segment, 0, i);
            let value = string_of(segment, i + 1, segment.len());
            assert(key@ =~= segment@.take(i as int));
            assert(value@ =~= segment@.skip(i + 1));
            put(&mut set, key, value);
        } else {
            put(&mut set, String::new(), String::new());
        }
        k = k + 1;
        proof {
            let now = pairs.take(k as int);
            assert(now.drop_last() =~= done);
            assert(now.last() == tag_pair(segment@));
        }
    }
    assert(pairs.take(k as int) =~= pairs);
    set
}

} // verus!
