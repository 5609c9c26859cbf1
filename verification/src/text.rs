//! Character-sequence utilities: conversion from string slices, subsequence
//! search, slicing, trimming, prefix stripping and line splitting.
//!
//! All executable functions mirror spec functions over `Seq<char>` exactly.

use vstd::prelude::*;
use vstd::string::StrSliceExecFns;

verus! {

/// The characters of a string slice.
pub fn lit_chars(s: &str) -> (r: Vec<char>)
    ensures
        r@ == s@,
{
    let n = s.unicode_len();
    let mut r: Vec<char> = Vec::new();
    let mut i: usize = 0;
    while i < n
        invariant
            0 <= i <= n,
            n == s@.len(),
            r@ == s@.take(i as int),
        decreases n - i,
    {
        let c = s.get_char(i);
        r.push(c);
        proof {
            assert(r@ =~= s@.take(i + 1 as int));
        }
        i += 1;
    }
    proof {
        assert(r@ =~= s@);
    }
    r
}

/// Appends one character to a string.
///
/// Relies on `String::push` of std: it appends exactly the given character.
#[verifier::external_body]
pub fn push_char(s: &mut String, c: char)
    ensures
        final(s)@ == old(s)@.push(c),
{
    s.push(c);
}

/// A string with the given characters.
pub fn chars_to_string(v: &Vec<char>) -> (r: String)
    ensures
        r@ == v@,
{
    let mut r = String::new();
    let mut i: usize = 0;
    while i < v.len()
        invariant
            0 <= i <= v@.len(),
            r@ == v@.take(i as int),
        decreases v@.len() - i,
    {
        push_char(&mut r, v[i]);
        proof {
            assert(r@ =~= v@.take(i + 1 as int));
        }
        i += 1;
    }
    proof {
        assert(r@ =~= v@);
    }
    r
}

/// The copy of `v[a..b]`.
pub fn sub_chars(v: &Vec<char>, a: usize, b: usize) -> (r: Vec<char>)
    requires
        a <= b <= v@.len(),
    ensures
        r@ == v@.subrange(a as int, b as int),
{
    let mut r: Vec<char> = Vec::new();
    let mut i: usize = a;
    while i < b
        invariant
            a <= i <= b <= v@.len(),
            r@ == v@.subrange(a as int, i as int),
        decreases b - i,
    {
        r.push(v[i]);
        proof {
            assert(r@ =~= v@.subrange(a as int, i + 1 as int));
        }
        i += 1;
    }
    r
}

/// The needle `m` occurs in `s` at position `i`.
pub open spec fn occurs_at(s: Seq<char>, m: Seq<char>, i: int) -> bool {
    0 <= i && i + m.len() <= s.len() && s.subrange(i, i + m.len() as int) == m
}

/// The position of the first occurrence of `m` in `s` at or after `i`.
pub open spec fn spec_find(s: Seq<char>, m: Seq<char>, i: int) -> Option<int>
    decreases s.len() - i + 1,
{
    if i < 0 || i + m.len() > s.len() {
        Option::None
    } else if s.subrange(i, i + m.len() as int) == m {
        Option::Some(i)
    } else {
        spec_find(s, m, i + 1)
    }
}

/// What `spec_find` returns is the first occurrence, if any.
pub proof fn lemma_find_props(s: Seq<char>, m: Seq<char>, i: int)
    requires
        0 <= i,
    ensures
        spec_find(s, m, i) is None ==> forall|j: int| i <= j ==> !occurs_at(s, m, j),
        spec_find(s, m, i) matches Option::Some(p) ==> i <= p && occurs_at(s, m, p) && forall|
            j: int,
        | i <= j < p ==> !occurs_at(s, m, j),
    decreases s.len() - i + 1,
{
    if i + m.len() > s.len() {
        assert(forall|j: int| i <= j ==> !occurs_at(s, m, j));
    } else if s.subrange(i, i + m.len() as int) == m {
    } else {
        lemma_find_props(s, m, i + 1);
    }
}

/// Whether `m` occurs in `v` starting exactly at `i`.
fn match_at(v: &Vec<char>, m: &Vec<char>, i: usize) -> (r: bool)
    requires
        i + m@.len() <= v@.len(),
    ensures
        r == (v@.subrange(i as int, i + m@.len() as int) == m@),
{
    proof {
        assert(v@.len() == v.len());
    }
    let mut k: usize = 0;
    while k < m.len()
        invariant
            0 <= k <= m@.len(),
            i + m@.len() <= v@.len(),
            v@.len() <= usize::MAX,
            forall|j: int| 0 <= j < k ==> v@[i + j] == m@[j],
        decreases m@.len() - k,
    {
        if v[i + k] != m[k] {
            proof {
                assert(v@.subrange(i as int, i + m@.len() as int)[k as int] == v@[i + k]);
            }
            return false;
        }
        k += 1;
    }
    proof {
        assert(v@.subrange(i as int, i + m@.len() as int) =~= m@);
    }
    true
}

/// The first occurrence of `m` in `v` at or after `from`.
pub fn find_chars(v: &Vec<char>, m: &Vec<char>, from: usize) -> (r: Option<usize>)
    requires
        from <= v@.len(),
    ensures
        match r {
            Option::Some(p) => spec_find(v@, m@, from as int) == Option::Some(p as int),
            Option::None => spec_find(v@, m@, from as int) is None,
        },
{
    proof {
        assert(v@.len() == v.len());
    }
    let mut i: usize = from;
    loop
        invariant
            from <= i <= v@.len(),
            v@.len() <= usize::MAX,
            spec_find(v@, m@, from as int) == spec_find(v@, m@, i as int),
        decreases v@.len() - i,
    {
        if m.len() > v.len() - i {
            return None;
        }
        if match_at(v, m, i) {
            return Some(i);
        }
        proof {
            if m@.len() == 0 {
                assert(v@.subrange(i as int, i as int) =~= m@);
            }
        }
        i += 1;
    }
}

/// An ASCII whitespace character: space, tab, line feed, vertical tab, form
/// feed or carriage return.
pub open spec fn spec_is_space(c: char) -> bool {
    c == ' ' || c == '\t' || c == '\n' || c == '\u{b}' || c == '\u{c}' || c == '\r'
}

/// Decides `spec_is_space`.
pub fn is_space(c: char) -> (r: bool)
    ensures
        r == spec_is_space(c),
{
    c == ' ' || c == '\t' || c == '\n' || c == '\u{b}' || c == '\u{c}' || c == '\r'
}

/// `l` without its leading whitespace.
pub open spec fn spec_trim_start(l: Seq<char>) -> Seq<char>
    decreases l.len(),
{
    if l.len() > 0 && spec_is_space(l[0]) {
        spec_trim_start(l.drop_first())
    } else {
        l
    }
}

/// `l` without its trailing whitespace.
pub open spec fn spec_trim_end(l: Seq<char>) -> Seq<char>
    decreases l.len(),
{
    if l.len() > 0 && spec_is_space(l.last()) {
        spec_trim_end(l.drop_last())
    } else {
        l
    }
}

/// `l` without leading and trailing whitespace.
pub open spec fn spec_trim(l: Seq<char>) -> Seq<char> {
    spec_trim_end(spec_trim_start(l))
}

fn trim_start_chars(v: Vec<char>) -> (r: Vec<char>)
    ensures
        r@ == spec_trim_start(v@),
    decreases v@.len(),
{
    if v.len() > 0 && is_space(v[0]) {
        let rest = sub_chars(&v, 1, v.len());
        proof {
            assert(rest@ =~= v@.drop_first());
        }
        trim_start_chars(rest)
    } else {
        v
    }
}

fn trim_end_chars(v: Vec<char>) -> (r: Vec<char>)
    ensures
        r@ == spec_trim_end(v@),
    decreases v@.len(),
{
    if v.len() > 0 && is_space(v[v.len() - 1]) {
        let rest = sub_chars(&v, 0, v.len() - 1);
        proof {
            assert(rest@ =~= v@.drop_last());
        }
        trim_end_chars(rest)
    } else {
        v
    }
}

/// `v` without leading and trailing ASCII whitespace.
pub fn trim_chars(v: Vec<char>) -> (r: Vec<char>)
    ensures
        r@ == spec_trim(v@),
{
    trim_end_chars(trim_start_chars(v))
}

/// `l` without the prefix `p`, if `l` starts with it.
pub open spec fn spec_strip_prefix(l: Seq<char>, p: Seq<char>) -> Option<Seq<char>> {
    if p.len() <= l.len() && l.subrange(0, p.len() as int) == p {
        Option::Some(l.subrange(p.len() as int, l.len() as int))
    } else {
        Option::None
    }
}

/// Strips the prefix `p` from `v`.
pub fn strip_prefix_chars(v: &Vec<char>, p: &Vec<char>) -> (r: Option<Vec<char>>)
    ensures
        match r {
            Option::Some(rest) => spec_strip_prefix(v@, p@) == Option::Some(rest@),
            Option::None => spec_strip_prefix(v@, p@) is None,
        },
{
    if p.len() > v.len() {
        return None;
    }
    if match_at(v, p, 0) {
        Some(sub_chars(v, p.len(), v.len()))
    } else {
        None
    }
}

} // verus!
