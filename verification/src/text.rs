//! Character-sequence helpers shared by the other modules: conversion
//! between `str`/`String` and `Vec<char>`, substring search, trimming,
//! and ASCII lower-casing.

use vstd::prelude::*;

verus! {

/// The Unicode white-space class, the class that trimming removes.
pub open spec fn is_space_char(c: char) -> bool {
    c == '\t' || c == '\n' || c == '\u{000B}' || c == '\u{000C}' || c == '\r' || c == ' '
        || c == '\u{0085}' || c == '\u{00A0}' || c == '\u{1680}' || ('\u{2000}' <= c
        && c <= '\u{200A}') || c == '\u{2028}' || c == '\u{2029}' || c == '\u{202F}'
        || c == '\u{205F}' || c == '\u{3000}'
}

/// Lower-case image of one character; only ASCII letters change.
pub open spec fn lower_char(c: char) -> char {
    if 'A' <= c && c <= 'Z' {
        ((c as u8) + 0x20) as char
    } else {
        c
    }
}

/// Lower-case image of a whole sequence.
pub open spec fn lower_seq(s: Seq<char>) -> Seq<char> {
    s.map_values(|c: char| lower_char(c))
}

/// `pat` occurs in `s` starting at position `i`.
pub open spec fn occurs_at(s: Seq<char>, pat: Seq<char>, i: int) -> bool {
    0 <= i && i + pat.len() <= s.len() && s.subrange(i, i + pat.len()) == pat
}

/// `pat` occurs somewhere in `s`.
pub open spec fn contains_seq(s: Seq<char>, pat: Seq<char>) -> bool {
    exists|i: int| occurs_at(s, pat, i)
}

/// Position of the first occurrence of `pat` in `s`, scanning left to right.
pub open spec fn find_sub(s: Seq<char>, pat: Seq<char>) -> Option<int>
    decreases s.len(),
{
    if pat.len() == 0 {
        Some(0)
    } else if s.len() < pat.len() {
        None
    } else if occurs_at(s, pat, 0) {
        Some(0)
    } else {
        match find_sub(s.skip(1), pat) {
            Some(i) => Some(i + 1),
            None => None,
        }
    }
}

/// `s` with leading whitespace removed.
pub open spec fn trim_start_seq(s: Seq<char>) -> Seq<char>
    decreases s.len(),
{
    if s.len() > 0 && is_space_char(s[0]) {
        trim_start_seq(s.skip(1))
    } else {
        s
    }
}

/// `s` with trailing whitespace removed.
pub open spec fn trim_end_seq(s: Seq<char>) -> Seq<char>
    decreases s.len(),
{
    if s.len() > 0 && is_space_char(s[s.len() - 1]) {
        trim_end_seq(s.take(s.len() - 1))
    } else {
        s
    }
}

/// `s` with whitespace removed on both sides.
pub open spec fn trim_seq(s: Seq<char>) -> Seq<char> {
    trim_end_seq(trim_start_seq(s))
}

/// The characters of a string slice as a vector.
pub fn chars_of(s: &str) -> (r: Vec<char>)
    ensures
        r@ == s@,
{
    let n = s.unicode_len();
    let mut r: Vec<char> = Vec::new();
    let mut i: usize = 0;
    while i < n
        invariant
            n == s@.len(),
            i <= n,
            r@ == s@.take(i as int),
        decreases n - i,
    {
        r.push(s.get_char(i));
        i = i + 1;
        proof {
            assert(s@.take(i as int) =~= s@.take(i - 1).push(s@[i - 1]));
        }
    }
    proof {
        assert(s@.take(n as int) =~= s@);
    }
    r
}

/// Relies on `String::push`: appends one character to the string.
#[verifier::external_body]
fn push_char(s: &mut String, c: char)
    ensures
        final(s)@ == old(s)@.push(c),
{
    s.push(c)
}

/// A `String` holding exactly the given characters.
pub fn string_of_chars(v: &Vec<char>) -> (r: String)
    ensures
        r@ == v@,
{
    let mut r = String::new();
    let mut i: usize = 0;
    while i < v.len()
        invariant
            i <= v@.len(),
            r@ == v@.take(i as int),
        decreases v@.len() - i,
    {
        push_char(&mut r, v[i]);
        i = i + 1;
        proof {
            assert(v@.take(i as int) =~= v@.take(i - 1).push(v@[i - 1]));
        }
    }
    proof {
        assert(v@.take(v@.len() as int) =~= v@);
    }
    r
}

/// Whether `c` is Unicode white space.
pub fn is_space(c: char) -> (r: bool)
    ensures
        r == is_space_char(c),
{
    c == '\t' || c == '\n' || c == '\u{000B}' || c == '\u{000C}' || c == '\r' || c == ' '
        || c == '\u{0085}' || c == '\u{00A0}' || c == '\u{1680}' || ('\u{2000}' <= c
        && c <= '\u{200A}') || c == '\u{2028}' || c == '\u{2029}' || c == '\u{202F}'
        || c == '\u{205F}' || c == '\u{3000}'
}

/// The lower-case image of one character.
pub fn to_lower(c: char) -> (r: char)
    ensures
        r == lower_char(c),
{
    if 'A' <= c && c <= 'Z' {
        ((c as u8) + 0x20) as char
    } else {
        c
    }
}

/// Whether `pat` occurs in `v` starting at `i`.
pub fn matches_at(v: &Vec<char>, pat: &Vec<char>, i: usize) -> (r: bool)
    requires
        i + pat@.len() <= v@.len(),
    ensures
        r == occurs_at(v@, pat@, i as int),
{
    let n = v.len();
    let mut j: usize = 0;
    while j < pat.len()
        invariant
            n == v@.len(),
            i + pat@.len() <= v@.len(),
            j <= pat@.len(),
            forall|k: int| 0 <= k < j ==> v@[i + k] == pat@[k],
        decreases pat@.len() - j,
    {
        if v[i + j] != pat[j] {
            proof {
                assert(v@.subrange(i as int, i + pat@.len()) != pat@) by {
                    assert(v@.subrange(i as int, i + pat@.len())[j as int] != pat@[j as int]);
                }
            }
            return false;
        }
        j = j + 1;
    }
    proof {
        assert(v@.subrange(i as int, i + pat@.len()) =~= pat@);
    }
    true
}

/// Whether `pat` occurs anywhere in `v`.
pub fn contains_pat(v: &Vec<char>, pat: &Vec<char>) -> (r: bool)
    ensures
        r == contains_seq(v@, pat@),
{
    if pat.len() == 0 {
        proof {
            assert(v@.subrange(0, 0) =~= pat@);
            assert(occurs_at(v@, pat@, 0));
        }
        return true;
    }
    if pat.len() > v.len() {
        proof {
            assert(forall|i: int| !occurs_at(v@, pat@, i));
        }
        return false;
    }
    let n = v.len();
    let end = n - pat.len();
    let mut i: usize = 0;
    loop
        invariant
            n == v@.len(),
            1 <= pat@.len() <= v@.len(),
            end == v@.len() - pat@.len(),
            i <= end + 1,
            forall|k: int| 0 <= k < i ==> !occurs_at(v@, pat@, k),
        ensures
            i <= end ==> occurs_at(v@, pat@, i as int),
            i > end ==> forall|k: int| !occurs_at(v@, pat@, k),
        decreases end + 1 - i,
    {
        if i > end {
            proof {
                assert(forall|k: int| k > end ==> !occurs_at(v@, pat@, k));
            }
            break;
        }
        if matches_at(v, pat, i) {
            break;
        }
        i = i + 1;
    }
    i <= end
}

/// Position of the first occurrence of `pat` in `v`, if any.
pub fn find_pat(v: &Vec<char>, pat: &Vec<char>) -> (r: Option<usize>)
    requires
        pat@.len() > 0,
    ensures
        match r {
            Some(i) => occurs_at(v@, pat@, i as int) && find_sub(v@, pat@) == Some(i as int),
            None => find_sub(v@, pat@) is None,
        },
{
    let n = v.len();
    if pat.len() > n {
        return None;
    }
    let end = n - pat.len();
    let mut i: usize = 0;
    proof {
        assert(v@.skip(0) =~= v@);
    }
    loop
        invariant
            n == v@.len(),
            1 <= pat@.len() <= v@.len(),
            end == v@.len() - pat@.len(),
            i <= end + 1,
            find_sub(v@, pat@) == (match find_sub(v@.skip(i as int), pat@) {
                Some(k) => Some(k + i),
                None => None::<int>,
            }),
        ensures
            i <= end ==> occurs_at(v@, pat@, i as int) && find_sub(v@, pat@) == Some(i as int),
            i > end ==> find_sub(v@, pat@) is None,
        decreases end + 1 - i,
    {
        if i > end {
            break;
        }
        if matches_at(v, pat, i) {
            proof {
                assert(v@.skip(i as int).subrange(0, pat@.len() as int)
                    =~= v@.subrange(i as int, i + pat@.len()));
                assert(occurs_at(v@.skip(i as int), pat@, 0));
            }
            break;
        }
        proof {
            assert(v@.skip(i as int).subrange(0, pat@.len() as int)
                =~= v@.subrange(i as int, i + pat@.len()));
            assert(!occurs_at(v@.skip(i as int), pat@, 0));
            assert(v@.skip(i as int).skip(1) =~= v@.skip(i + 1));
        }
        i = i + 1;
    }
    if i <= end {
        Some(i)
    } else {
        None
    }
}

/// `v` trimmed of whitespace on both sides.
pub fn trim_chars(v: &Vec<char>) -> (r: Vec<char>)
    ensures
        r@ == trim_seq(v@),
{
    proof {
        assert(v@.skip(0) =~= v@);
    }
    let mut start: usize = 0;
    while start < v.len() && is_space(v[start])
        invariant
            start <= v@.len(),
            trim_start_seq(v@) == trim_start_seq(v@.skip(start as int)),
        decreases v@.len() - start,
    {
        proof {
            assert(v@.skip(start as int).skip(1) =~= v@.skip(start + 1));
        }
        start = start + 1;
    }
    proof {
        assert(trim_start_seq(v@.skip(start as int)) == v@.skip(start as int));
    }
    let mut end: usize = v.len();
    proof {
        assert(v@.skip(start as int).take(end - start) =~= v@.skip(start as int));
    }
    while end > start && is_space(v[end - 1])
        invariant
            start <= end <= v@.len(),
            trim_start_seq(v@) == v@.skip(start as int),
            trim_end_seq(v@.skip(start as int)) == trim_end_seq(v@.skip(start as int).take(end - start)),
        decreases end,
    {
        proof {
            let cur = v@.skip(start as int).take(end - start);
            assert(cur.take(cur.len() - 1) =~= v@.skip(start as int).take(end - 1 - start));
            assert(cur[cur.len() - 1] == v@[end - 1]);
        }
        end = end - 1;
    }
    proof {
        let cur = v@.skip(start as int).take(end - start);
        if end > start {
            assert(cur[cur.len() - 1] == v@[end - 1]);
        }
        assert(trim_end_seq(cur) == cur);
    }
    let mut r: Vec<char> = Vec::new();
    let mut i: usize = start;
    while i < end
        invariant
            start <= i <= end <= v@.len(),
            r@ == v@.skip(start as int).take(i - start),
        decreases end - i,
    {
        r.push(v[i]);
        i = i + 1;
        proof {
            assert(v@.skip(start as int).take(i - start)
                =~= v@.skip(start as int).take(i - 1 - start).push(v@[i - 1]));
        }
    }
    r
}

/// `v` with every character lower-cased.
pub fn lower_chars(v: &Vec<char>) -> (r: Vec<char>)
    ensures
        r@ == lower_seq(v@),
{
    let mut r: Vec<char> = Vec::new();
    let mut i: usize = 0;
    while i < v.len()
        invariant
            i <= v@.len(),
            r@ == lower_seq(v@.take(i as int)),
        decreases v@.len() - i,
    {
        r.push(to_lower(v[i]));
        i = i + 1;
        proof {
            assert(lower_seq(v@.take(i as int))
                =~= lower_seq(v@.take(i - 1)).push(lower_char(v@[i - 1])));
        }
    }
    proof {
        assert(v@.take(v@.len() as int) =~= v@);
    }
    r
}

} // verus!
