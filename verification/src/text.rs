//! Text as sequences of characters: conversion, comparison, search and
//! substitution.

use vstd::prelude::*;
use vstd::string::*;

verus! {

/// `String::push` appends one character to the end of the string.
pub assume_specification[ std::string::String::push ](s: &mut std::string::String, c: char)
    ensures
        final(s)@ == old(s)@.push(c),
;

/// Whether `pattern` stands in `text` starting at index `at`.
pub open spec fn occurs_at(text: Seq<char>, at: int, pattern: Seq<char>) -> bool {
    &&& 0 <= at
    &&& at + pattern.len() <= text.len()
    &&& text.subrange(at, at + pattern.len()) == pattern
}

/// Whether `pattern` stands somewhere in `text`.
pub open spec fn contains(text: Seq<char>, pattern: Seq<char>) -> bool {
    exists|at: int| occurs_at(text, at, pattern)
}

/// What is left of `text` from index `at` on once every occurrence of
/// `from` has been replaced by `to`, scanning from left to right and never
/// looking again at text that was already consumed.
pub open spec fn replace_from(text: Seq<char>, at: int, from: Seq<char>, to: Seq<char>) -> Seq<
    char,
>
    decreases text.len() - at,
{
    if at < 0 || at >= text.len() || from.len() == 0 {
        Seq::empty()
    } else if occurs_at(text, at, from) {
        to + replace_from(text, at + from.len(), from, to)
    } else {
        seq![text[at]] + replace_from(text, at + 1, from, to)
    }
}

/// `text` with every occurrence of `from` replaced by `to`: occurrences are
/// found from left to right and do not overlap. An empty `from` occurs
/// nowhere, and leaves `text` as it is.
pub open spec fn replace_all(text: Seq<char>, from: Seq<char>, to: Seq<char>) -> Seq<char> {
    if from.len() == 0 {
        text
    } else {
        replace_from(text, 0, from, to)
    }
}

/// The characters of `s`, in order.
pub fn chars_of(s: &str) -> (v: Vec<char>)
    ensures
        v@ == s@,
{
    let mut v: Vec<char> = Vec::new();
    for c in it: s.chars()
        invariant
            v@ == it.seq().take(it.index()),
            it.seq() == s@,
    {
        v.push(c);
    }
    v
}

/// The string made of the characters of `v`, in order.
pub fn string_of(v: &Vec<char>) -> (s: String)
    ensures
        s@ == v@,
{
    let mut s = String::new();
    let mut i: usize = 0;
    while i < v.len()
        invariant
            i <= v.len(),
            s@ == v@.take(i as int),
        decreases v.len() - i,
    {
        s.push(v[i]);
        i += 1;
    }
    s
}

/// Whether two character vectors hold the same text.
pub fn same_chars(a: &Vec<char>, b: &Vec<char>) -> (same: bool)
    ensures
        same == (a@ == b@),
{
    if a.len() != b.len() {
        return false;
    }
    let mut i: usize = 0;
    while i < a.len()
        invariant
            i <= a.len(),
            a.len() == b.len(),
            a@.take(i as int) == b@.take(i as int),
        decreases a.len() - i,
    {
        if a[i] != b[i] {
            return false;
        }
        i += 1;
    }
    assert(a@.take(a.len() as int) == a@);
    assert(b@.take(b.len() as int) == b@);
    true
}

/// Whether two string slices hold the same text.
pub fn same_text(a: &str, b: &str) -> (same: bool)
    ensures
        same == (a@ == b@),
{
    let x = chars_of(a);
    let y = chars_of(b);
    same_chars(&x, &y)
}

/// Whether `pattern` stands in `text` at index `at`.
pub fn has_at(text: &Vec<char>, at: usize, pattern: &Vec<char>) -> (found: bool)
    ensures
        found == occurs_at(text@, at as int, pattern@),
{
    if pattern.len() > text.len() || at > text.len() - pattern.len() {
        return false;
    }
    let mut k: usize = 0;
    while k < pattern.len()
        invariant
            k <= pattern.len(),
            at + pattern.len() <= text.len(),
            text@.subrange(at as int, at + k) == pattern@.take(k as int),
        decreases pattern.len() - k,
    {
        if text[at + k] != pattern[k] {
            return false;
        }
        k += 1;
    }
    assert(pattern@.take(pattern.len() as int) == pattern@);
    true
}

/// Appends the characters of `more` to `out`.
pub fn extend_chars(out: &mut Vec<char>, more: &Vec<char>)
    ensures
        final(out)@ == old(out)@ + more@,
{
    let mut k: usize = 0;
    while k < more.len()
        invariant
            k <= more.len(),
            out@ == old(out)@ + more@.take(k as int),
        decreases more.len() - k,
    {
        out.push(more[k]);
        k += 1;
    }
}

/// Replaces every occurrence of `from` in `text` by `to`.
pub fn replace_chars(text: &Vec<char>, from: &Vec<char>, to: &Vec<char>) -> (out: Vec<char>)
    ensures
        out@ == replace_all(text@, from@, to@),
{
    if from.len() == 0 {
        return text.clone();
    }
    let mut out: Vec<char> = Vec::new();
    let mut i: usize = 0;
    while i < text.len()
        invariant
            i <= text.len(),
            from.len() > 0,
            out@ + replace_from(text@, i as int, from@, to@) == replace_from(
                text@,
                0,
                from@,
                to@,
            ),
        decreases text.len() - i,
    {
        if has_at(text, i, from) {
            extend_chars(&mut out, to);
            i += from.len();
        } else {
            out.push(text[i]);
            i += 1;
        }
    }
    out
}

/// Replaces every occurrence of `from` in `text` by `to`.
pub fn replace_text(text: &str, from: &str, to: &str) -> (out: String)
    ensures
        out@ == replace_all(text@, from@, to@),
{
    let t = chars_of(text);
    let f = chars_of(from);
    let r = chars_of(to);
    let out = replace_chars(&t, &f, &r);
    string_of(&out)
}

/// A text in which `from` does not occur is left as it is.
pub proof fn lemma_replace_without_occurrence(text: Seq<char>, from: Seq<char>, to: Seq<char>)
    requires
        !contains(text, from),
    ensures
        replace_all(text, from, to) == text,
{
    if from.len() > 0 {
        lemma_replace_from_without_occurrence(text, 0, from, to);
    }
}

proof fn lemma_replace_from_without_occurrence(
    text: Seq<char>,
    at: int,
    from: Seq<char>,
    to: Seq<char>,
)
    requires
        0 <= at <= text.len(),
        from.len() > 0,
        !contains(text, from),
    ensures
        replace_from(text, at, from, to) == text.subrange(at, text.len() as int),
    decreases text.len() - at,
{
    if at < text.len() {
        lemma_replace_from_without_occurrence(text, at + 1, from, to);
    }
}

/// Whether `from` and `to` begin with the same character, a character that
/// stands nowhere else in either of them, and differ at some index that
/// both reach. A text in which every `from` became `to` then holds no
/// `from` any more.
pub open spec fn marks_apart(from: Seq<char>, to: Seq<char>) -> bool {
    &&& from.len() > 0
    &&& to.len() > 0
    &&& to.first() == from.first()
    &&& forall|k: int| 0 < k < from.len() ==> #[trigger] from[k] != from.first()
    &&& forall|k: int| 0 < k < to.len() ==> #[trigger] to[k] != from.first()
    &&& exists|k: int| 0 <= k < from.len() && k < to.len() && #[trigger] from[k] != to[k]
}

proof fn lemma_replace_from_copies(
    text: Seq<char>,
    at: int,
    from: Seq<char>,
    to: Seq<char>,
    n: int,
)
    requires
        marks_apart(from, to),
        0 <= at <= text.len(),
        0 <= n <= replace_from(text, at, from, to).len(),
        forall|k: int| 0 <= k < n ==> replace_from(text, at, from, to)[k] != from[0],
    ensures
        at + n <= text.len(),
        forall|k: int| 0 <= k < n ==> replace_from(text, at, from, to)[k] == text[at + k],
    decreases n,
{
    if n > 0 {
        let out = replace_from(text, at, from, to);
        assert(out[0] != from[0]);
        let rest = replace_from(text, at + 1, from, to);
        assert forall|k: int| 0 <= k < n - 1 implies rest[k] != from[0] by {
            assert(rest[k] == out[k + 1]);
        }
        lemma_replace_from_copies(text, at + 1, from, to, n - 1);
    }
}

proof fn lemma_replace_from_is_free(
    text: Seq<char>,
    at: int,
    from: Seq<char>,
    to: Seq<char>,
    j: int,
)
    requires
        marks_apart(from, to),
        0 <= at <= text.len(),
    ensures
        !occurs_at(replace_from(text, at, from, to), j, from),
    decreases text.len() - at,
{
    let out = replace_from(text, at, from, to);
    let m = from.len() as int;
    if occurs_at(out, j, from) {
        if occurs_at(text, at, from) {
            let rest = replace_from(text, at + m, from, to);
            if j >= to.len() {
                assert(rest.subrange(j - to.len(), j - to.len() + m) =~= out.subrange(j, j + m));
                lemma_replace_from_is_free(text, at + m, from, to, j - to.len());
            }
        } else {
            let rest = replace_from(text, at + 1, from, to);
            if j == 0 {
                assert forall|k: int| 0 <= k < m - 1 implies rest[k] != from[0] by {
                    assert(out[j + (k + 1)] == from[k + 1]);
                }
                lemma_replace_from_copies(text, at + 1, from, to, m - 1);
                assert(text.subrange(at, at + m) =~= from);
            } else {
                assert(rest.subrange(j - 1, j - 1 + m) =~= out.subrange(j, j + m));
                lemma_replace_from_is_free(text, at + 1, from, to, j - 1);
            }
        }
    }
}

/// Where `from` and `to` are marked apart, a text in which every `from`
/// became `to` holds no `from` any more.
pub proof fn lemma_replaced_pattern_is_gone(text: Seq<char>, from: Seq<char>, to: Seq<char>)
    requires
        marks_apart(from, to),
    ensures
        !contains(replace_all(text, from, to), from),
{
    assert forall|j: int| !occurs_at(replace_all(text, from, to), j, from) by {
        lemma_replace_from_is_free(text, 0, from, to, j);
    }
}

} // verus!
