//! Character-level building blocks shared by the parsers: conversion between
//! strings and character vectors, searching, splitting and trimming.

use vstd::prelude::*;
use vstd::string::*;

verus! {

/// `String::push` appends one character to the end of the string.
pub assume_specification[ String::push ](s: &mut String, c: char)
    ensures
        final(s)@ == old(s)@.push(c),
;

/// Whether `c` is white space in the sense of `char::is_whitespace`.
pub uninterp spec fn whitespace(c: char) -> bool;

/// `char::is_whitespace`: the answer depends on the character alone.
#[verifier::external_body]
pub(crate) fn is_whitespace(c: char) -> (b: bool)
    ensures
        b == whitespace(c),
{
    c.is_whitespace()
}

/// `s` in lower case, in the sense of `str::to_lowercase`.
pub uninterp spec fn lowercased(s: Seq<char>) -> Seq<char>;

/// `str::to_lowercase`: the result depends on the characters of `s` alone.
#[verifier::external_body]
pub(crate) fn lowercase(s: &str) -> (lower: String)
    ensures
        lower@ == lowercased(s@),
{
    s.to_lowercase()
}

/// `pat` occurs in `s` starting at position `i`.
pub open spec fn occurs_at(s: Seq<char>, pat: Seq<char>, i: int) -> bool {
    0 <= i && i + pat.len() <= s.len() && s.subrange(i, i + pat.len()) == pat
}

/// `pat` occurs somewhere in `s`.
pub open spec fn contains(s: Seq<char>, pat: Seq<char>) -> bool {
    exists|i: int| occurs_at(s, pat, i)
}

/// The greatest position `<= i` at which `pat` occurs in `s`, or `-1`.
pub open spec fn last_occurrence_upto(s: Seq<char>, pat: Seq<char>, i: int) -> int
    decreases i + 1,
{
    if i < 0 {
        -1
    } else if occurs_at(s, pat, i) {
        i
    } else {
        last_occurrence_upto(s, pat, i - 1)
    }
}

/// The greatest position at which `pat` occurs in `s`, or `-1` if there is none.
pub open spec fn last_occurrence(s: Seq<char>, pat: Seq<char>) -> int {
    last_occurrence_upto(s, pat, s.len() - pat.len())
}

/// What follows the last occurrence of `pat` in `s`; all of `s` if `pat` does
/// not occur.
pub open spec fn after_last(s: Seq<char>, pat: Seq<char>) -> Seq<char> {
    let i = last_occurrence(s, pat);
    if i < 0 {
        s
    } else {
        s.skip(i + pat.len())
    }
}

/// `s` ends with `suffix`.
pub open spec fn ends_with(s: Seq<char>, suffix: Seq<char>) -> bool {
    suffix.len() <= s.len() && s.skip(s.len() - suffix.len()) == suffix
}

/// `s` without one leading `c`, if it starts with one.
pub open spec fn strip_leading(s: Seq<char>, c: char) -> Seq<char> {
    if s.len() > 0 && s[0] == c {
        s.skip(1)
    } else {
        s
    }
}

/// `s` without one trailing `suffix`, if it ends with one.
pub open spec fn strip_trailing(s: Seq<char>, suffix: Seq<char>) -> Seq<char> {
    if ends_with(s, suffix) {
        s.take(s.len() - suffix.len())
    } else {
        s
    }
}

/// The position of the first `c` in `s`, or `s.len()` if there is none.
pub open spec fn index_of(s: Seq<char>, c: char) -> int
    decreases s.len(),
{
    if s.len() == 0 {
        0
    } else if s[0] == c {
        0
    } else {
        1 + index_of(s.skip(1), c)
    }
}

/// `s` holds no `c`.
pub open spec fn lacks(s: Seq<char>, c: char) -> bool {
    forall|j: int| 0 <= j < s.len() ==> s[j] != c
}

/// `c` is one of the two delimiters `a` and `b`.
pub open spec fn is_delim(c: char, a: char, b: char) -> bool {
    c == a || c == b
}

/// The pieces of `s` between delimiters, in order. Every delimiter ends one
/// piece and starts the next, so there is always one piece more than there
/// are delimiters, and pieces may be empty.
pub open spec fn split(s: Seq<char>, a: char, b: char) -> Seq<Seq<char>>
    decreases s.len(),
{
    if s.len() == 0 {
        seq![Seq::<char>::empty()]
    } else {
        let before = split(s.drop_last(), a, b);
        if is_delim(s.last(), a, b) {
            before.push(Seq::<char>::empty())
        } else {
            before.drop_last().push(before.last().push(s.last()))
        }
    }
}

/// The pieces written one after the other with `d` between them.
pub open spec fn join(pieces: Seq<Seq<char>>, d: char) -> Seq<char>
    decreases pieces.len(),
{
    if pieces.len() == 0 {
        Seq::<char>::empty()
    } else if pieces.len() == 1 {
        pieces[0]
    } else {
        join(pieces.drop_last(), d).push(d) + pieces.last()
    }
}

/// Number of delimiters in `s`.
pub open spec fn count_delims(s: Seq<char>, a: char, b: char) -> nat
    decreases s.len(),
{
    if s.len() == 0 {
        0
    } else if is_delim(s.last(), a, b) {
        count_delims(s.drop_last(), a, b) + 1
    } else {
        count_delims(s.drop_last(), a, b)
    }
}

/// Number of leading marks: of positions at the start that are all `true`.
pub open spec fn leading(marks: Seq<bool>) -> int
    decreases marks.len(),
{
    if marks.len() > 0 && marks[0] {
        1 + leading(marks.skip(1))
    } else {
        0
    }
}

/// Number of trailing marks: of positions at the end that are all `true`.
pub open spec fn trailing(marks: Seq<bool>) -> int
    decreases marks.len(),
{
    if marks.len() > 0 && marks.last() {
        1 + trailing(marks.drop_last())
    } else {
        0
    }
}

/// The bounds of what stays when the leading marks are cut off and then the
/// trailing ones.
pub open spec fn kept(marks: Seq<bool>) -> (int, int) {
    let from = leading(marks);
    (from, marks.len() - trailing(marks.skip(from)))
}

/// For each character of `s`, whether it is white space.
pub open spec fn space_marks(s: Seq<char>) -> Seq<bool> {
    Seq::new(s.len(), |i: int| whitespace(s[i]))
}

/// `s` without its leading and trailing white space.
pub open spec fn trim(s: Seq<char>) -> Seq<char> {
    let bounds = kept(space_marks(s));
    s.subrange(bounds.0, bounds.1)
}

/// `s` with each pair of adjacent spaces replaced by one space, the pairs
/// taken from left to right without overlap.
pub open spec fn squeeze(s: Seq<char>) -> Seq<char>
    decreases s.len(),
{
    if s.len() >= 2 && s[0] == ' ' && s[1] == ' ' {
        seq![' '] + squeeze(s.skip(2))
    } else if s.len() >= 1 {
        seq![s[0]] + squeeze(s.skip(1))
    } else {
        Seq::<char>::empty()
    }
}

/// The views of the rows of a vector of character vectors.
pub open spec fn rows(parts: Seq<Vec<char>>) -> Seq<Seq<char>> {
    Seq::new(parts.len(), |i: int| parts[i]@)
}

pub proof fn lemma_index_of_bounds(s: Seq<char>, c: char)
    ensures
        0 <= index_of(s, c) <= s.len(),
        index_of(s, c) < s.len() ==> s[index_of(s, c)] == c,
        forall|j: int| 0 <= j < index_of(s, c) ==> s[j] != c,
    decreases s.len(),
{
    if s.len() > 0 && s[0] != c {
        let t = s.skip(1);
        lemma_index_of_bounds(t, c);
        assert forall|j: int| 0 <= j < index_of(s, c) implies s[j] != c by {
            if j > 0 {
                assert(s[j] == t[j - 1]);
            }
        }
    }
}

/// The first position that holds `c`, after positions that do not, is `index_of`.
pub proof fn lemma_index_of_is(s: Seq<char>, c: char, k: int)
    requires
        0 <= k <= s.len(),
        forall|j: int| 0 <= j < k ==> s[j] != c,
        k < s.len() ==> s[k] == c,
    ensures
        index_of(s, c) == k,
{
    lemma_index_of_bounds(s, c);
    let i = index_of(s, c);
    if i < k {
        assert(s[i] == c);
    } else if k < i {
        assert(s[k] == c);
    }
}

pub proof fn lemma_split_nonempty(s: Seq<char>, a: char, b: char)
    ensures
        split(s, a, b).len() >= 1,
    decreases s.len(),
{
    if s.len() > 0 {
        lemma_split_nonempty(s.drop_last(), a, b);
    }
}

pub proof fn lemma_last_occurrence_upto(s: Seq<char>, pat: Seq<char>, i: int)
    ensures
        -1 <= last_occurrence_upto(s, pat, i),
        last_occurrence_upto(s, pat, i) <= i || i < -1,
        last_occurrence_upto(s, pat, i) >= 0 ==> occurs_at(
            s,
            pat,
            last_occurrence_upto(s, pat, i),
        ),
        forall|j: int| last_occurrence_upto(s, pat, i) < j <= i ==> !occurs_at(s, pat, j),
    decreases i + 1,
{
    if i >= 0 && !occurs_at(s, pat, i) {
        lemma_last_occurrence_upto(s, pat, i - 1);
    }
}

/// A position that holds `pat`, with none after it, is the last occurrence;
/// `-1` is, if no position holds it.
pub proof fn lemma_last_occurrence_is(s: Seq<char>, pat: Seq<char>, k: int)
    requires
        k == -1 || occurs_at(s, pat, k),
        forall|j: int| k < j ==> !occurs_at(s, pat, j),
    ensures
        last_occurrence(s, pat) == k,
{
    let top = s.len() - pat.len();
    lemma_last_occurrence_upto(s, pat, top);
    let r = last_occurrence(s, pat);
    if r < k {
        assert(k <= top);
        assert(!occurs_at(s, pat, k));
    }
}

/// `contains` holds exactly when there is a last occurrence.
pub proof fn lemma_contains_iff_last(s: Seq<char>, pat: Seq<char>)
    ensures
        contains(s, pat) <==> last_occurrence(s, pat) >= 0,
{
    let top = s.len() - pat.len();
    lemma_last_occurrence_upto(s, pat, top);
    if contains(s, pat) {
        let i = choose|i: int| occurs_at(s, pat, i);
        assert(i <= top);
        if last_occurrence(s, pat) < 0 {
            assert(!occurs_at(s, pat, i));
        }
    }
}

/// The characters of `s`, in order.
pub fn chars_of(s: &str) -> (v: Vec<char>)
    ensures
        v@ == s@,
{
    let mut v: Vec<char> = Vec::new();
    for c in it: s.chars()
        invariant
            v@ == it.seq().take(it.index() as int),
            it.seq() == s@,
    {
        v.push(c);
    }
    v
}

/// The string made of the characters `v[from..to]`.
pub fn string_of(v: &Vec<char>, from: usize, to: usize) -> (s: String)
    requires
        from <= to <= v.len(),
    ensures
        s@ == v@.subrange(from as int, to as int),
{
    let mut s = String::new();
    let mut i: usize = from;
    while i < to
        invariant
            from <= i <= to <= v.len(),
            s@ == v@.subrange(from as int, i as int),
        decreases to - i,
    {
        s.push(v[i]);
        i = i + 1;
        assert(s@ =~= v@.subrange(from as int, i as int));
    }
    s
}

/// The characters `v[from..to]` as a vector of their own.
pub fn slice_of(v: &Vec<char>, from: usize, to: usize) -> (out: Vec<char>)
    requires
        from <= to <= v.len(),
    ensures
        out@ == v@.subrange(from as int, to as int),
{
    let mut out: Vec<char> = Vec::new();
    let mut i: usize = from;
    while i < to
        invariant
            from <= i <= to <= v.len(),
            out@ == v@.subrange(from as int, i as int),
        decreases to - i,
    {
        out.push(v[i]);
        i = i + 1;
        assert(out@ =~= v@.subrange(from as int, i as int));
    }
    out
}

/// Whether `a` and `b` hold the same characters.
pub fn same_chars(a: &Vec<char>, b: &Vec<char>) -> (same: bool)
    ensures
        same == (a@ == b@),
{
    if a.len() != b.len() {
        return false;
    }
    let same = starts_at(a, b, 0);
    assert(a@.subrange(0, b@.len() as int) =~= a@);
    same
}

/// Whether `pat` occurs in `v` at position `i`.
pub fn starts_at(v: &Vec<char>, pat: &Vec<char>, i: usize) -> (b: bool)
    ensures
        b == occurs_at(v@, pat@, i as int),
{
    if pat.len() > v.len() || i > v.len() - pat.len() {
        return false;
    }
    let mut k: usize = 0;
    while k < pat.len()
        invariant
            k <= pat.len(),
            i + pat.len() <= v.len(),
            forall|j: int| 0 <= j < k ==> v@[i + j] == pat@[j],
        decreases pat.len() - k,
    {
        if v[i + k] != pat[k] {
            assert(v@.subrange(i as int, i + pat.len())[k as int] == v@[i + k]);
            return false;
        }
        k = k + 1;
    }
    assert(v@.subrange(i as int, i + pat.len()) =~= pat@);
    true
}

/// The last position at which `pat` occurs in `v`, if there is one.
pub fn find_last(v: &Vec<char>, pat: &Vec<char>) -> (found: Option<usize>)
    ensures
        match found {
            Some(i) => i as int == last_occurrence(v@, pat@) && occurs_at(v@, pat@, i as int),
            None => last_occurrence(v@, pat@) == -1,
        },
{
    if pat.len() > v.len() {
        proof {
            lemma_last_occurrence_is(v@, pat@, -1);
        }
        return None;
    }
    let mut i: usize = v.len() - pat.len();
    loop
        invariant
            pat.len() <= v.len(),
            i <= v.len() - pat.len(),
            forall|j: int| i < j ==> !occurs_at(v@, pat@, j),
        decreases i,
    {
        if starts_at(v, pat, i) {
            proof {
                lemma_last_occurrence_is(v@, pat@, i as int);
            }
            return Some(i);
        }
        if i == 0 {
            proof {
                lemma_last_occurrence_is(v@, pat@, -1);
            }
            return None;
        }
        i = i - 1;
    }
}

/// Whether `pat` occurs anywhere in `v`.
pub fn has(v: &Vec<char>, pat: &Vec<char>) -> (b: bool)
    ensures
        b == contains(v@, pat@),
{
    proof {
        lemma_contains_iff_last(v@, pat@);
    }
    find_last(v, pat).is_some()
}

/// The position of the first `c` in `v`, or `v.len()` if there is none.
pub fn find_char(v: &Vec<char>, c: char) -> (i: usize)
    ensures
        i as int == index_of(v@, c),
{
    let mut i: usize = 0;
    while i < v.len() && v[i] != c
        invariant
            i <= v.len(),
            forall|j: int| 0 <= j < i ==> v@[j] != c,
        decreases v.len() - i,
    {
        i = i + 1;
    }
    proof {
        lemma_index_of_is(v@, c, i as int);
    }
    i
}

/// Splits `v` at every character that equals `a` or `b`.
pub fn split_chars(v: &Vec<char>, a: char, b: char) -> (parts: Vec<Vec<char>>)
    ensures
        rows(parts@) == split(v@, a, b),
{
    let mut parts: Vec<Vec<char>> = Vec::new();
    let mut cur: Vec<char> = Vec::new();
    let mut i: usize = 0;
    while i < v.len()
        invariant
            i <= v.len(),
            rows(parts@).push(cur@) == split(v@.take(i as int), a, b),
        decreases v.len() - i,
    {
        let c = v[i];
        proof {
            let next = v@.take(i + 1);
            assert(next.drop_last() =~= v@.take(i as int));
            assert(next.last() == c);
        }
        let ghost before = rows(parts@).push(cur@);
        if c == a || c == b {
            parts.push(cur);
            cur = Vec::new();
            assert(rows(parts@) =~= before);
        } else {
            cur.push(c);
            assert(rows(parts@).push(cur@) =~= before.drop_last().push(before.last().push(c)));
        }
        i = i + 1;
    }
    let ghost before = rows(parts@).push(cur@);
    parts.push(cur);
    assert(rows(parts@) =~= before);
    assert(v@.take(v.len() as int) =~= v@);
    parts
}

/// For each character of `v`, whether it is white space.
pub fn space_marks_of(v: &Vec<char>) -> (marks: Vec<bool>)
    ensures
        marks@ == space_marks(v@),
{
    let mut marks: Vec<bool> = Vec::new();
    let mut i: usize = 0;
    while i < v.len()
        invariant
            i <= v.len(),
            marks@ == space_marks(v@.take(i as int)),
        decreases v.len() - i,
    {
        marks.push(is_whitespace(v[i]));
        i = i + 1;
        assert(marks@ =~= space_marks(v@.take(i as int)));
    }
    assert(v@.take(i as int) =~= v@);
    marks
}

/// The bounds of what stays when the leading marks are cut off and then the
/// trailing ones.
pub fn kept_bounds(marks: &Vec<bool>) -> (bounds: (usize, usize))
    ensures
        bounds.0 <= bounds.1 <= marks.len(),
        bounds.0 == kept(marks@).0,
        bounds.1 == kept(marks@).1,
{
    let mut from: usize = 0;
    assert(marks@.skip(0) =~= marks@);
    while from < marks.len() && marks[from]
        invariant
            from <= marks.len(),
            leading(marks@) == from + leading(marks@.skip(from as int)),
        decreases marks.len() - from,
    {
        proof {
            let t = marks@.skip(from as int);
            assert(t[0] == marks@[from as int]);
            assert(t.skip(1) =~= marks@.skip(from + 1));
        }
        from = from + 1;
    }
    proof {
        let t = marks@.skip(from as int);
        if from < marks.len() {
            assert(t[0] == marks@[from as int]);
        }
        assert(leading(t) == 0);
    }
    let ghost rest = marks@.skip(from as int);
    let mut to: usize = marks.len();
    assert(rest.take(to - from) =~= rest);
    while to > from && marks[to - 1]
        invariant
            from <= to <= marks.len(),
            rest == marks@.skip(from as int),
            trailing(rest) == (marks.len() - to) + trailing(rest.take(to - from)),
        decreases to,
    {
        proof {
            let t = rest.take(to - from);
            assert(t.last() == marks@[to - 1]);
            assert(t.drop_last() =~= rest.take(to - 1 - from));
        }
        to = to - 1;
    }
    proof {
        let t = rest.take(to - from);
        if to > from {
            assert(t.last() == marks@[to - 1]);
        }
        assert(trailing(t) == 0);
    }
    (from, to)
}

/// The bounds of `v` without its leading and trailing white space.
pub fn trim_bounds(v: &Vec<char>) -> (bounds: (usize, usize))
    ensures
        bounds.0 <= bounds.1 <= v.len(),
        v@.subrange(bounds.0 as int, bounds.1 as int) == trim(v@),
{
    let marks = space_marks_of(v);
    kept_bounds(&marks)
}

/// `v[from..to]` with each pair of adjacent spaces replaced by one space.
pub fn squeeze_range(v: &Vec<char>, from: usize, to: usize) -> (out: String)
    requires
        from <= to <= v.len(),
    ensures
        out@ == squeeze(v@.subrange(from as int, to as int)),
{
    let ghost whole = v@.subrange(from as int, to as int);
    let mut out = String::new();
    let mut i: usize = from;
    assert(out@ + squeeze(whole.skip(0)) =~= squeeze(whole)) by {
        assert(whole.skip(0) =~= whole);
    }
    while i < to
        invariant
            from <= i <= to <= v.len(),
            whole == v@.subrange(from as int, to as int),
            out@ + squeeze(whole.skip(i - from)) == squeeze(whole),
        decreases to - i,
    {
        let ghost rest = whole.skip(i - from);
        let ghost done = out@;
        assert(rest[0] == v@[i as int]);
        if v[i] == ' ' && i + 1 < to && v[i + 1] == ' ' {
            assert(rest[1] == v@[i + 1]);
            assert(rest.skip(2) =~= whole.skip(i + 2 - from));
            out.push(' ');
            i = i + 2;
            assert(out@ + squeeze(whole.skip(i - from)) =~= done + squeeze(rest));
        } else {
            if i + 1 < to {
                assert(rest[1] == v@[i + 1]);
            }
            assert(rest.skip(1) =~= whole.skip(i + 1 - from));
            out.push(v[i]);
            i = i + 1;
            assert(out@ + squeeze(whole.skip(i - from)) =~= done + squeeze(rest));
        }
    }
    assert(whole.skip(to - from).len() == 0);
    assert(out@ + Seq::<char>::empty() =~= out@);
    out
}

} // verus!
