//! Relative paths as text, with `/` between their segments.

use vstd::prelude::*;
use crate::text::{chars_of, extend_chars, string_of};

verus! {

/// The index of the last `c` in `s`, or -1 where there is none.
pub open spec fn last_index_of(s: Seq<char>, c: char) -> int
    decreases s.len(),
{
    if s.len() == 0 {
        -1
    } else if s.last() == c {
        s.len() - 1
    } else {
        last_index_of(s.drop_last(), c)
    }
}

/// How many separators `path` holds: the number of directories between the
/// root of the tree and the entry that a relative path names.
pub open spec fn depth(path: Seq<char>) -> nat
    decreases path.len(),
{
    if path.len() == 0 {
        0
    } else if path.last() == '/' {
        depth(path.drop_last()) + 1
    } else {
        depth(path.drop_last())
    }
}

/// `n` steps to the parent directory: `../` written `n` times.
pub open spec fn parent_steps(n: nat) -> Seq<char>
    decreases n,
{
    if n == 0 {
        Seq::empty()
    } else {
        parent_steps((n - 1) as nat) + seq!['.', '.', '/']
    }
}

/// `rel` resolved against `base`: an absolute `rel` stands alone, otherwise
/// it follows `base`, with one separator between them unless `base` is empty
/// or already ends in one.
pub open spec fn join(base: Seq<char>, rel: Seq<char>) -> Seq<char> {
    if rel.len() > 0 && rel[0] == '/' {
        rel
    } else if base.len() == 0 || base.last() == '/' {
        base + rel
    } else {
        base + seq!['/'] + rel
    }
}

/// The directory that holds `path`: what stands before its last separator.
/// A path without a separator has the empty parent, and the parent of an
/// entry directly under the root `/` is the root.
pub open spec fn parent(path: Seq<char>) -> Seq<char> {
    let cut = last_index_of(path, '/');
    if cut < 0 {
        Seq::empty()
    } else if cut == 0 {
        seq!['/']
    } else {
        path.take(cut)
    }
}

/// Where the extension of `path` begins: at the last dot of its last
/// segment, unless that dot opens the segment; at the end of `path` where
/// there is no such dot.
pub open spec fn extension_start(path: Seq<char>) -> int {
    let dot = last_index_of(path, '.');
    if dot > last_index_of(path, '/') + 1 {
        dot
    } else {
        path.len() as int
    }
}

/// `path` with its extension replaced by `extension`.
pub open spec fn with_extension(path: Seq<char>, extension: Seq<char>) -> Seq<char> {
    path.take(extension_start(path)) + seq!['.'] + extension
}

/// Whether `path` is cut at `end` between two segments, or at its very end:
/// the first `end` characters then name the entry itself or one of the
/// directories above it.
pub open spec fn is_segment_end(path: Seq<char>, end: int) -> bool {
    0 < end <= path.len() && (end == path.len() || path[end] == '/')
}

proof fn lemma_last_index_of_push(s: Seq<char>, c: char, x: char)
    ensures
        last_index_of(s.push(x), c) == if x == c {
            s.len() as int
        } else {
            last_index_of(s, c)
        },
        -1 <= last_index_of(s, c) < s.len(),
    decreases s.len(),
{
    assert(s.push(x).drop_last() == s);
    if s.len() > 0 {
        lemma_last_index_of_push(s.drop_last(), c, s.last());
    }
}

/// The index of the last `c` in `s`.
pub fn find_last(s: &Vec<char>, c: char) -> (found: Option<usize>)
    ensures
        match found {
            Some(i) => i == last_index_of(s@, c),
            None => last_index_of(s@, c) == -1,
        },
{
    let mut found: Option<usize> = None;
    let mut i: usize = 0;
    while i < s.len()
        invariant
            i <= s.len(),
            match found {
                Some(k) => k == last_index_of(s@.take(i as int), c),
                None => last_index_of(s@.take(i as int), c) == -1,
            },
        decreases s.len() - i,
    {
        proof {
            lemma_last_index_of_push(s@.take(i as int), c, s@[i as int]);
            assert(s@.take(i + 1) == s@.take(i as int).push(s@[i as int]));
        }
        if s[i] == c {
            found = Some(i);
        }
        i += 1;
    }
    assert(s@.take(s.len() as int) == s@);
    found
}

/// The number of separators in `path`.
pub fn depth_of(path: &Vec<char>) -> (n: usize)
    ensures
        n == depth(path@),
{
    let mut n: usize = 0;
    let mut i: usize = 0;
    while i < path.len()
        invariant
            i <= path.len(),
            n <= i,
            n == depth(path@.take(i as int)),
        decreases path.len() - i,
    {
        proof {
            assert(path@.take(i + 1).drop_last() == path@.take(i as int));
        }
        if path[i] == '/' {
            n += 1;
        }
        i += 1;
    }
    assert(path@.take(path.len() as int) == path@);
    n
}

/// `../` written `n` times.
pub fn parent_steps_of(n: usize) -> (out: Vec<char>)
    ensures
        out@ == parent_steps(n as nat),
{
    let mut out: Vec<char> = Vec::new();
    let mut i: usize = 0;
    while i < n
        invariant
            i <= n,
            out@ == parent_steps(i as nat),
        decreases n - i,
    {
        out.push('.');
        out.push('.');
        out.push('/');
        i += 1;
    }
    out
}

/// `rel` resolved against `base`.
pub fn join_chars(base: &Vec<char>, rel: &Vec<char>) -> (out: Vec<char>)
    ensures
        out@ == join(base@, rel@),
{
    if rel.len() > 0 && rel[0] == '/' {
        return rel.clone();
    }
    let mut out = base.clone();
    if base.len() > 0 && base[base.len() - 1] != '/' {
        out.push('/');
    }
    extend_chars(&mut out, rel);
    out
}

/// The first `end` characters of `s`.
pub fn prefix_of(s: &Vec<char>, end: usize) -> (out: Vec<char>)
    requires
        end <= s.len(),
    ensures
        out@ == s@.take(end as int),
{
    let mut out: Vec<char> = Vec::new();
    let mut i: usize = 0;
    while i < end
        invariant
            i <= end <= s.len(),
            out@ == s@.take(i as int),
        decreases end - i,
    {
        out.push(s[i]);
        i += 1;
    }
    out
}

/// The directory that holds `path`.
pub fn parent_chars(path: &Vec<char>) -> (out: Vec<char>)
    ensures
        out@ == parent(path@),
{
    match find_last(path, '/') {
        None => Vec::new(),
        Some(cut) => {
            proof {
                lemma_last_index_of_push(path@, '/', '/');
            }
            if cut == 0 {
                let mut out: Vec<char> = Vec::new();
                out.push('/');
                out
            } else {
                prefix_of(path, cut)
            }
        },
    }
}

/// `path` with its extension replaced by `extension`.
pub fn with_extension_chars(path: &Vec<char>, extension: &Vec<char>) -> (out: Vec<char>)
    ensures
        out@ == with_extension(path@, extension@),
{
    proof {
        lemma_last_index_of_push(path@, '/', '/');
        lemma_last_index_of_push(path@, '.', '.');
    }
    let name_start: usize = match find_last(path, '/') {
        None => 0,
        Some(cut) => {
            assert(cut < path.len());
            cut + 1
        },
    };
    let end: usize = match find_last(path, '.') {
        None => path.len(),
        Some(dot) => if dot > name_start {
            dot
        } else {
            path.len()
        },
    };
    let mut out = prefix_of(path, end);
    out.push('.');
    extend_chars(&mut out, extension);
    out
}

/// `rel` resolved against `base`.
pub fn join_paths(base: &str, rel: &str) -> (out: String)
    ensures
        out@ == join(base@, rel@),
{
    let b = chars_of(base);
    let r = chars_of(rel);
    let out = join_chars(&b, &r);
    string_of(&out)
}

/// The directory that holds `path`.
pub fn parent_of(path: &str) -> (out: String)
    ensures
        out@ == parent(path@),
{
    let p = chars_of(path);
    let out = parent_chars(&p);
    string_of(&out)
}

/// `path` with its extension replaced by `extension`.
pub fn replace_extension(path: &str, extension: &str) -> (out: String)
    ensures
        out@ == with_extension(path@, extension@),
{
    let p = chars_of(path);
    let e = chars_of(extension);
    let out = with_extension_chars(&p, &e);
    string_of(&out)
}

} // verus!
