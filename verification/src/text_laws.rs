//! What the text models amount to: each is pinned down here by what holds
//! of its result.

use crate::text::{
    contains, count_delims, is_delim, join, kept, last_occurrence, leading,
    lemma_contains_iff_last, lemma_last_occurrence_upto, lemma_split_nonempty, occurs_at,
    space_marks, split, squeeze, trailing, trim, whitespace,
};
use vstd::prelude::*;

verus! {

/// A text without delimiters is one piece.
pub proof fn lemma_split_plain(t: Seq<char>, a: char, b: char)
    requires
        forall|i: int| 0 <= i < t.len() ==> !is_delim(t[i], a, b),
    ensures
        split(t, a, b) == seq![t],
    decreases t.len(),
{
    if t.len() == 0 {
        assert(t =~= Seq::<char>::empty());
    } else {
        lemma_split_plain(t.drop_last(), a, b);
        let before = split(t.drop_last(), a, b);
        assert(before.drop_last().push(before.last().push(t.last())) =~= seq![t]) by {
            assert(t.drop_last().push(t.last()) =~= t);
        }
    }
}

/// Splitting a text that holds a delimiter `d` after `s` splits `s` and what
/// follows `d`, each by itself.
pub proof fn lemma_split_at_delimiter(s: Seq<char>, d: char, t: Seq<char>, a: char, b: char)
    requires
        is_delim(d, a, b),
    ensures
        split(s.push(d) + t, a, b) == split(s, a, b) + split(t, a, b),
    decreases t.len(),
{
    let whole = s.push(d) + t;
    if t.len() == 0 {
        assert(whole =~= s.push(d));
        assert(whole.drop_last() =~= s);
        assert(split(s, a, b).push(Seq::<char>::empty()) =~= split(s, a, b) + split(t, a, b));
    } else {
        let shorter = t.drop_last();
        lemma_split_at_delimiter(s, d, shorter, a, b);
        lemma_split_nonempty(shorter, a, b);
        assert(whole.drop_last() =~= s.push(d) + shorter);
        assert(whole.last() == t.last());
        let left = split(s, a, b);
        let right = split(shorter, a, b);
        let before = left + right;
        if is_delim(t.last(), a, b) {
            assert(before.push(Seq::<char>::empty()) =~= left + right.push(Seq::<char>::empty()));
        } else {
            assert(before.last() == right.last());
            assert(before.drop_last() =~= left + right.drop_last());
            assert(before.drop_last().push(before.last().push(t.last())) =~= left
                + right.drop_last().push(right.last().push(t.last())));
        }
    }
}

/// A text that starts with a piece without delimiters, followed by a
/// delimiter, splits into that piece and the pieces of the rest.
pub proof fn lemma_split_first(piece: Seq<char>, d: char, rest: Seq<char>, a: char, b: char)
    requires
        is_delim(d, a, b),
        forall|j: int| 0 <= j < piece.len() ==> !is_delim(piece[j], a, b),
    ensures
        split(piece.push(d) + rest, a, b) == seq![piece] + split(rest, a, b),
{
    lemma_split_plain(piece, a, b);
    lemma_split_at_delimiter(piece, d, rest, a, b);
}

/// No piece of a split holds a delimiter, and there is one piece more than
/// there are delimiters.
pub proof fn lemma_split_pieces(s: Seq<char>, a: char, b: char)
    ensures
        split(s, a, b).len() == count_delims(s, a, b) + 1,
        forall|k: int, j: int|
            0 <= k < split(s, a, b).len() && 0 <= j < split(s, a, b)[k].len() ==> !is_delim(
                #[trigger] split(s, a, b)[k][j],
                a,
                b,
            ),
    decreases s.len(),
{
    if s.len() > 0 {
        lemma_split_pieces(s.drop_last(), a, b);
        let before = split(s.drop_last(), a, b);
        let pieces = split(s, a, b);
        assert forall|k: int, j: int|
            0 <= k < pieces.len() && 0 <= j < pieces[k].len() implies !is_delim(
            #[trigger] pieces[k][j],
            a,
            b,
        ) by {
            if !is_delim(s.last(), a, b) {
                if k < before.len() - 1 {
                    assert(pieces[k] == before[k]);
                } else if j < before.last().len() {
                    assert(pieces[k][j] == before[k][j]);
                }
            } else {
                assert(pieces[k] == before[k]);
            }
        }
    }
}

/// Splitting at one delimiter and joining with it gives the text back.
pub proof fn lemma_join_of_split(s: Seq<char>, d: char)
    ensures
        join(split(s, d, d), d) == s,
    decreases s.len(),
{
    if s.len() == 0 {
        assert(s =~= Seq::<char>::empty());
    } else {
        let shorter = s.drop_last();
        lemma_join_of_split(shorter, d);
        lemma_split_nonempty(shorter, d, d);
        let before = split(shorter, d, d);
        let pieces = split(s, d, d);
        assert(shorter.push(s.last()) =~= s);
        if is_delim(s.last(), d, d) {
            assert(pieces.drop_last() =~= before);
            assert(join(before, d).push(d) + Seq::<char>::empty() =~= shorter.push(d));
        } else if before.len() == 1 {
            assert(pieces[0] == before[0].push(s.last()));
        } else {
            assert(pieces.drop_last() =~= before.drop_last());
            assert(join(before.drop_last(), d).push(d) + before.last().push(s.last()) =~= (join(
                before.drop_last(),
                d,
            ).push(d) + before.last()).push(s.last()));
        }
    }
}

/// Pieces without the delimiter, joined with it, split into the same pieces:
/// with `lemma_join_of_split`, the split of a text is the one sequence of
/// such pieces that joins to the text.
pub proof fn lemma_split_of_join(pieces: Seq<Seq<char>>, d: char)
    requires
        pieces.len() >= 1,
        forall|k: int, j: int|
            0 <= k < pieces.len() && 0 <= j < pieces[k].len() ==> !is_delim(
                #[trigger] pieces[k][j],
                d,
                d,
            ),
    ensures
        split(join(pieces, d), d, d) == pieces,
    decreases pieces.len(),
{
    let last = pieces.last();
    assert forall|j: int| 0 <= j < last.len() implies !is_delim(last[j], d, d) by {
        assert(last[j] == pieces[pieces.len() - 1][j]);
    }
    lemma_split_plain(last, d, d);
    if pieces.len() == 1 {
        assert(pieces =~= seq![last]);
    } else {
        let front = pieces.drop_last();
        assert forall|k: int, j: int| 0 <= k < front.len() && 0 <= j < front[k].len() implies !is_delim(
            #[trigger] front[k][j],
            d,
            d,
        ) by {
            assert(front[k] == pieces[k]);
        }
        lemma_split_of_join(front, d);
        lemma_split_at_delimiter(join(front, d), d, last, d, d);
        assert(front + seq![last] =~= pieces);
    }
}

/// The last occurrence is an occurrence with none after it, and it is `-1`
/// exactly when there is no occurrence at all.
pub proof fn lemma_last_occurrence(s: Seq<char>, pat: Seq<char>)
    ensures
        last_occurrence(s, pat) >= -1,
        last_occurrence(s, pat) >= 0 ==> occurs_at(s, pat, last_occurrence(s, pat)),
        forall|j: int| last_occurrence(s, pat) < j ==> !occurs_at(s, pat, j),
        last_occurrence(s, pat) == -1 <==> !contains(s, pat),
{
    lemma_last_occurrence_upto(s, pat, s.len() - pat.len());
    lemma_contains_iff_last(s, pat);
}

/// The counts of leading and of trailing marks stay within the sequence,
/// count marks only, and stop at the first position without a mark.
pub proof fn lemma_mark_counts(marks: Seq<bool>)
    ensures
        0 <= leading(marks) <= marks.len(),
        forall|j: int| 0 <= j < leading(marks) ==> marks[j],
        leading(marks) < marks.len() ==> !marks[leading(marks)],
        0 <= trailing(marks) <= marks.len(),
        forall|j: int| marks.len() - trailing(marks) <= j < marks.len() ==> marks[j],
        trailing(marks) < marks.len() ==> !marks[marks.len() - trailing(marks) - 1],
    decreases marks.len(),
{
    if marks.len() > 0 {
        if marks[0] {
            let t = marks.skip(1);
            lemma_mark_counts(t);
            assert forall|j: int| 0 <= j < leading(marks) implies marks[j] by {
                if j > 0 {
                    assert(marks[j] == t[j - 1]);
                }
            }
            if leading(marks) < marks.len() {
                assert(marks[leading(marks)] == t[leading(t)]);
            }
        }
        if marks.last() {
            let t = marks.drop_last();
            lemma_mark_counts(t);
            assert forall|j: int| marks.len() - trailing(marks) <= j < marks.len() implies marks[j] by {
                if j < marks.len() - 1 {
                    assert(marks[j] == t[j]);
                }
            }
            if trailing(marks) < marks.len() {
                assert(marks[marks.len() - trailing(marks) - 1] == t[t.len() - trailing(t) - 1]);
            }
        }
    }
}

/// The trimmed text is the part of the text between its first and its last
/// character that is no white space: what is left out before it and after
/// it is white space, and it neither starts nor ends with white space.
pub proof fn lemma_trim(s: Seq<char>)
    ensures
        0 <= kept(space_marks(s)).0 <= kept(space_marks(s)).1 <= s.len(),
        trim(s) == s.subrange(kept(space_marks(s)).0, kept(space_marks(s)).1),
        forall|j: int| 0 <= j < kept(space_marks(s)).0 ==> whitespace(s[j]),
        forall|j: int| kept(space_marks(s)).1 <= j < s.len() ==> whitespace(s[j]),
        trim(s).len() > 0 ==> !whitespace(trim(s)[0]) && !whitespace(trim(s).last()),
{
    let marks = space_marks(s);
    let from = leading(marks);
    lemma_mark_counts(marks);
    let rest = marks.skip(from);
    lemma_mark_counts(rest);
    let to = marks.len() - trailing(rest);
    assert forall|j: int| 0 <= j < from implies whitespace(s[j]) by {
        assert(marks[j]);
    }
    assert forall|j: int| to <= j < s.len() implies whitespace(s[j]) by {
        assert(marks[j] == rest[j - from]);
    }
    if trim(s).len() > 0 {
        assert(trim(s)[0] == s[from]);
        assert(!marks[from]);
        assert(trim(s).last() == s[to - 1]);
        assert(rest[rest.len() - trailing(rest) - 1] == marks[to - 1]);
    }
}

/// Two spaces stand in `s` at positions `j` and `j + 1`.
pub open spec fn two_spaces_at(s: Seq<char>, j: int) -> bool {
    0 <= j < s.len() - 1 && s[j] == ' ' && s[j + 1] == ' '
}

/// Squeezing never lengthens a text, and leaves a text without two spaces
/// in a row as it is.
pub proof fn lemma_squeeze(s: Seq<char>)
    ensures
        squeeze(s).len() <= s.len(),
        (forall|j: int| !two_spaces_at(s, j)) ==> squeeze(s) == s,
    decreases s.len(),
{
    if s.len() >= 2 && s[0] == ' ' && s[1] == ' ' {
        lemma_squeeze(s.skip(2));
        assert(two_spaces_at(s, 0));
    } else if s.len() >= 1 {
        let t = s.skip(1);
        lemma_squeeze(t);
        if forall|j: int| !two_spaces_at(s, j) {
            assert forall|j: int| !two_spaces_at(t, j) by {
                if two_spaces_at(t, j) {
                    assert(two_spaces_at(s, j + 1));
                }
            }
            assert(seq![s[0]] + t =~= s);
        }
    } else {
        assert(s =~= Seq::<char>::empty());
    }
}

} // verus!
