//! What holds of the tag parser on every text.

use crate::tags::{collect, tag_body, tag_map, tag_pair, tag_pairs, tag_segments};
use crate::text::{
    ends_with, index_of, is_delim, join, lacks, lemma_index_of_bounds, lemma_index_of_is, split,
    strip_leading,
};
use crate::text_laws::lemma_split_of_join;
use vstd::prelude::*;

verus! {

/// One pair as it is written: the key, `=`, the value.
pub open spec fn pair_text(pair: (Seq<char>, Seq<char>)) -> Seq<char> {
    pair.0.push('=') + pair.1
}

/// The texts of the pairs, in order.
pub open spec fn pair_texts(pairs: Seq<(Seq<char>, Seq<char>)>) -> Seq<Seq<char>> {
    Seq::new(pairs.len(), |i: int| pair_text(pairs[i]))
}

/// The pairs as they are written, one after the other with `;` between them.
pub open spec fn joined(pairs: Seq<(Seq<char>, Seq<char>)>) -> Seq<char> {
    join(pair_texts(pairs), ';')
}

/// The tag text of the pairs: `@`, then the pairs with `;` between them.
pub open spec fn tag_text(pairs: Seq<(Seq<char>, Seq<char>)>) -> Seq<char> {
    seq!['@'] + joined(pairs)
}

/// The pairs can be read back from their text: there is at least one, no key
/// holds `=` or `;`, no value holds `;`, and the text does not end with the
/// marker `PRIVMSG`.
pub open spec fn well_formed(pairs: Seq<(Seq<char>, Seq<char>)>) -> bool {
    &&& pairs.len() >= 1
    &&& forall|i: int|
        0 <= i < pairs.len() ==> lacks((#[trigger] pairs[i]).0, '=') && lacks(pairs[i].0, ';')
            && lacks(pairs[i].1, ';')
    &&& !ends_with(joined(pairs), "PRIVMSG"@)
}

/// A pair whose key holds no `=` is read back from its text.
pub proof fn lemma_pair_read_back(pair: (Seq<char>, Seq<char>))
    requires
        lacks(pair.0, '='),
    ensures
        tag_pair(pair_text(pair)) == pair,
{
    let text = pair_text(pair);
    let k = pair.0.len() as int;
    assert forall|j: int| 0 <= j < k implies text[j] != '=' by {
        assert(text[j] == pair.0[j]);
    }
    assert(text[k] == '=');
    lemma_index_of_is(text, '=', k);
    assert(text.take(k) =~= pair.0);
    assert(text.skip(k + 1) =~= pair.1);
}

/// The text of well-formed pairs splits at `;` into the texts of the pairs.
pub proof fn lemma_joined_splits(pairs: Seq<(Seq<char>, Seq<char>)>)
    requires
        pairs.len() >= 1,
        forall|i: int|
            0 <= i < pairs.len() ==> lacks((#[trigger] pairs[i]).0, ';') && lacks(pairs[i].1, ';'),
    ensures
        split(joined(pairs), ';', ';') == pair_texts(pairs),
{
    let texts = pair_texts(pairs);
    assert forall|k: int, j: int| 0 <= k < texts.len() && 0 <= j < texts[k].len() implies !is_delim(
        #[trigger] texts[k][j],
        ';',
        ';',
    ) by {
        let p = pairs[k];
        assert(lacks(p.0, ';') && lacks(p.1, ';'));
        if j < p.0.len() {
            assert(texts[k][j] == p.0[j]);
        } else if j > p.0.len() {
            assert(texts[k][j] == p.1[j - p.0.len() - 1]);
        }
    }
    lemma_split_of_join(texts, ';');
}

/// A key is in the collected map exactly when some pair has it, and it maps
/// to the value of the last pair that has it.
pub proof fn lemma_collect_lookup(pairs: Seq<(Seq<char>, Seq<char>)>, key: Seq<char>)
    ensures
        collect(pairs).contains_key(key) <==> exists|i: int|
            0 <= i < pairs.len() && (#[trigger] pairs[i]).0 == key,
        forall|i: int|
            0 <= i < pairs.len() && (#[trigger] pairs[i]).0 == key && (forall|j: int|
                i < j < pairs.len() ==> (#[trigger] pairs[j]).0 != key) ==> collect(pairs)[key]
                == pairs[i].1,
    decreases pairs.len(),
{
    if pairs.len() > 0 {
        let front = pairs.drop_last();
        lemma_collect_lookup(front, key);
        let n = pairs.len() - 1;
        if pairs[n].0 == key {
            assert(collect(pairs).contains_key(key));
        } else {
            if collect(pairs).contains_key(key) {
                let i = choose|i: int| 0 <= i < front.len() && (#[trigger] front[i]).0 == key;
                assert(pairs[i].0 == key);
            }
            if exists|i: int| 0 <= i < pairs.len() && (#[trigger] pairs[i]).0 == key {
                let i = choose|i: int| 0 <= i < pairs.len() && (#[trigger] pairs[i]).0 == key;
                assert(front[i].0 == key);
            }
        }
        assert forall|i: int|
            0 <= i < pairs.len() && (#[trigger] pairs[i]).0 == key && (forall|j: int|
                i < j < pairs.len() ==> (#[trigger] pairs[j]).0 != key) implies collect(pairs)[key]
            == pairs[i].1 by {
            if i < n {
                assert(pairs[n].0 != key);
                assert(front[i] == pairs[i]);
                assert forall|j: int| i < j < front.len() implies (#[trigger] front[j]).0
                    != key by {
                    assert(front[j] == pairs[j]);
                }
            }
        }
    }
}

/// Well-formed tag text parses to exactly the pairs that it was written
/// from: the same pairs in the same order, and so the map that they amount to.
pub proof fn lemma_well_formed_tags(pairs: Seq<(Seq<char>, Seq<char>)>)
    requires
        well_formed(pairs),
    ensures
        tag_pairs(tag_text(pairs)) == pairs,
        tag_map(tag_text(pairs)) == collect(pairs),
{
    let raw = tag_text(pairs);
    let body = joined(pairs);
    assert(strip_leading(raw, '@') =~= body);
    assert(tag_body(raw) == body);
    lemma_joined_splits(pairs);
    assert forall|i: int| 0 <= i < pairs.len() implies tag_pair(pair_text(#[trigger] pairs[i]))
        == pairs[i] by {
        lemma_pair_read_back(pairs[i]);
    }
    assert(tag_pairs(raw) =~= pairs);
}

/// The text `@k1=v1;k2=v2`, with two different keys that hold neither `=`
/// nor `;` and values that hold no `;`, parses to the set of exactly the two
/// entries, `k1` with `v1` and `k2` with `v2`.
pub proof fn lemma_two_tags(k1: Seq<char>, v1: Seq<char>, k2: Seq<char>, v2: Seq<char>)
    requires
        well_formed(seq![(k1, v1), (k2, v2)]),
        k1 != k2,
    ensures
        tag_text(seq![(k1, v1), (k2, v2)]) == seq!['@'] + k1 + seq!['='] + v1 + seq![';'] + k2
            + seq!['='] + v2,
        tag_map(tag_text(seq![(k1, v1), (k2, v2)])) == Map::<Seq<char>, Seq<char>>::empty().insert(
            k1,
            v1,
        ).insert(k2, v2),
{
    let pairs = seq![(k1, v1), (k2, v2)];
    lemma_well_formed_tags(pairs);
    let front = pairs.drop_last();
    assert(front =~= seq![(k1, v1)]);
    assert(front.drop_last() =~= Seq::<(Seq<char>, Seq<char>)>::empty());
    assert(collect(front) == collect(front.drop_last()).insert(k1, v1));
    assert(collect(pairs) == collect(front).insert(k2, v2));
    let texts = pair_texts(pairs);
    assert(texts.drop_last() =~= seq![pair_text((k1, v1))]);
    assert(join(texts.drop_last(), ';') == pair_text((k1, v1)));
    assert(tag_text(pairs) =~= seq!['@'] + k1 + seq!['='] + v1 + seq![';'] + k2 + seq!['=']
        + v2);
}

/// The segment starts with `=`: its key is empty, and it has a value.
pub open spec fn starts_with_equals(segment: Seq<char>) -> bool {
    segment.len() > 0 && segment[0] == '='
}

/// A segment without `=` contributes the empty key with the empty value, so
/// the tag set holds the empty key; the empty key maps to the empty value
/// unless a later segment starts with `=`.
pub proof fn lemma_segment_without_equals(raw: Seq<char>, i: int)
    requires
        0 <= i < tag_segments(raw).len(),
        lacks(tag_segments(raw)[i], '='),
    ensures
        tag_pairs(raw)[i] == (Seq::<char>::empty(), Seq::<char>::empty()),
        tag_map(raw).contains_key(Seq::<char>::empty()),
        (forall|j: int|
            i < j < tag_segments(raw).len() ==> !starts_with_equals(#[trigger] tag_segments(raw)[j]))
            ==> tag_map(raw)[Seq::<char>::empty()] == Seq::<char>::empty(),
{
    let segment = tag_segments(raw)[i];
    let pairs = tag_pairs(raw);
    let none = Seq::<char>::empty();
    lemma_index_of_bounds(segment, '=');
    assert(pairs[i] == (none, none));
    lemma_collect_lookup(pairs, none);
    if forall|j: int|
        i < j < tag_segments(raw).len() ==> !starts_with_equals(#[trigger] tag_segments(raw)[j]) {
        lemma_last_empty_key(raw, pairs.len() - 1, i);
        assert(pairs.take(pairs.len() as int) =~= pairs);
    }
}

/// Where no segment after `i` starts with `=`, and segment `i` has the empty
/// key with the empty value, the last pair up to `top` that has the empty
/// key has the empty value.
proof fn lemma_last_empty_key(raw: Seq<char>, top: int, i: int)
    requires
        0 <= i <= top < tag_pairs(raw).len(),
        tag_pairs(raw)[i] == (Seq::<char>::empty(), Seq::<char>::empty()),
        forall|j: int|
            i < j < tag_segments(raw).len() ==> !starts_with_equals(#[trigger] tag_segments(raw)[j]),
    ensures
        collect(tag_pairs(raw).take(top + 1))[Seq::<char>::empty()] == Seq::<char>::empty(),
        collect(tag_pairs(raw).take(top + 1)).contains_key(Seq::<char>::empty()),
    decreases top - i,
{
    let pairs = tag_pairs(raw);
    let none = Seq::<char>::empty();
    let upto = pairs.take(top + 1);
    assert(upto.drop_last() =~= pairs.take(top));
    assert(upto.last() == pairs[top]);
    if top > i {
        lemma_last_empty_key(raw, top - 1, i);
        let segment = tag_segments(raw)[top];
        lemma_index_of_bounds(segment, '=');
        if pairs[top].0 == none {
            let at = index_of(segment, '=');
            if at < segment.len() {
                assert(segment.take(at).len() == at);
                assert(starts_with_equals(segment));
            }
            assert(pairs[top].1 == none);
        }
    }
}

/// Parsing has no hidden state: two runs on the same text give the same set.
pub proof fn lemma_same_text_same_tags(
    raw: Seq<char>,
    first: Map<Seq<char>, Seq<char>>,
    second: Map<Seq<char>, Seq<char>>,
)
    requires
        first == tag_map(raw),
        second == tag_map(raw),
    ensures
        first == second,
{
}

} // verus!
