//! Character-level text utilities: conversion between strings and character
//! vectors, trimming, and the collapse of runs of spaces, commas and
//! exclamation marks into single spaces.

use vstd::prelude::*;

verus! {

/// The whitespace characters this library trims: the Unicode White_Space
/// set, as `str::trim` uses it.
pub open spec fn is_space_char(c: char) -> bool {
    ||| c == '\t'
    ||| c == '\n'
    ||| c == '\u{0B}'
    ||| c == '\u{0C}'
    ||| c == '\r'
    ||| c == ' '
    ||| c == '\u{85}'
    ||| c == '\u{A0}'
    ||| c == '\u{1680}'
    ||| c == '\u{2000}'
    ||| c == '\u{2001}'
    ||| c == '\u{2002}'
    ||| c == '\u{2003}'
    ||| c == '\u{2004}'
    ||| c == '\u{2005}'
    ||| c == '\u{2006}'
    ||| c == '\u{2007}'
    ||| c == '\u{2008}'
    ||| c == '\u{2009}'
    ||| c == '\u{200A}'
    ||| c == '\u{2028}'
    ||| c == '\u{2029}'
    ||| c == '\u{202F}'
    ||| c == '\u{205F}'
    ||| c == '\u{3000}'
}

/// Whether the character is whitespace in the sense of [`is_space_char`].
pub fn is_space(c: char) -> (r: bool)
    ensures
        r == is_space_char(c),
{
    c == '\t' || c == '\n' || c == '\u{0B}' || c == '\u{0C}' || c == '\r' || c == ' '
        || c == '\u{85}' || c == '\u{A0}' || c == '\u{1680}' || c == '\u{2000}'
        || c == '\u{2001}' || c == '\u{2002}' || c == '\u{2003}' || c == '\u{2004}'
        || c == '\u{2005}' || c == '\u{2006}' || c == '\u{2007}' || c == '\u{2008}'
        || c == '\u{2009}' || c == '\u{200A}' || c == '\u{2028}' || c == '\u{2029}'
        || c == '\u{202F}' || c == '\u{205F}' || c == '\u{3000}'
}

/// The characters whose runs collapse to a single space.
pub open spec fn is_collapsible_char(c: char) -> bool {
    c == ' ' || c == ',' || c == '!'
}

/// The sequence without its leading whitespace.
pub open spec fn trim_front_spec(s: Seq<char>) -> Seq<char>
    decreases s.len(),
{
    if s.len() > 0 && is_space_char(s[0]) {
        trim_front_spec(s.skip(1))
    } else {
        s
    }
}

/// The sequence without its trailing whitespace.
pub open spec fn trim_back_spec(s: Seq<char>) -> Seq<char>
    decreases s.len(),
{
    if s.len() > 0 && is_space_char(s.last()) {
        trim_back_spec(s.drop_last())
    } else {
        s
    }
}

/// The sequence without leading or trailing whitespace.
pub open spec fn trim_spec(s: Seq<char>) -> Seq<char> {
    trim_back_spec(trim_front_spec(s))
}

/// Left fold of the collapse: the output so far, and whether the previous
/// character belonged to a collapsible run.
pub open spec fn collapse_fold(s: Seq<char>) -> (Seq<char>, bool)
    decreases s.len(),
{
    if s.len() == 0 {
        (Seq::empty(), false)
    } else {
        let prev = collapse_fold(s.drop_last());
        let c = s.last();
        if is_collapsible_char(c) {
            if prev.1 {
                (prev.0, true)
            } else {
                (prev.0.push(' '), true)
            }
        } else {
            (prev.0.push(c), false)
        }
    }
}

/// The text with every run of spaces, commas and exclamation marks
/// replaced by one space.
pub open spec fn collapse_spec(s: Seq<char>) -> Seq<char> {
    collapse_fold(s).0
}

/// If the first `i` characters are whitespace and the `i`-th is not (or the
/// sequence ends there), trimming the front drops exactly those `i`.
proof fn lemma_trim_front_at(s: Seq<char>, i: int)
    requires
        0 <= i <= s.len(),
        forall|k: int| 0 <= k < i ==> is_space_char(s[k]),
        i == s.len() || !is_space_char(s[i]),
    ensures
        trim_front_spec(s) == s.skip(i),
    decreases i,
{
    if i == 0 {
        assert(s.skip(0) =~= s);
    } else {
        assert(is_space_char(s[0]));
        lemma_trim_front_at(s.skip(1), i - 1);
        assert(s.skip(1).skip(i - 1) =~= s.skip(i));
    }
}

/// If every character from `j` on is whitespace and the one before `j` is
/// not (or `j` is zero), trimming the back keeps exactly the first `j`.
proof fn lemma_trim_back_at(s: Seq<char>, j: int)
    requires
        0 <= j <= s.len(),
        forall|k: int| j <= k < s.len() ==> is_space_char(s[k]),
        j == 0 || !is_space_char(s[j - 1]),
    ensures
        trim_back_spec(s) == s.take(j),
    decreases s.len() - j,
{
    if j == s.len() {
        if s.len() > 0 {
            assert(!is_space_char(s.last()));
        }
        assert(s.take(j) =~= s);
    } else {
        assert(is_space_char(s.last()));
        lemma_trim_back_at(s.drop_last(), j);
        assert(s.drop_last().take(j) =~= s.take(j));
    }
}

/// The characters of the string, in order.
pub fn str_to_chars(s: &str) -> (r: Vec<char>)
    ensures
        r@ == s@,
{
    let n = s.unicode_len();
    let mut v: Vec<char> = Vec::new();
    let mut i: usize = 0;
    while i < n
        invariant
            n == s@.len(),
            i <= n,
            v@ == s@.take(i as int),
        decreases n - i,
    {
        let c = s.get_char(i);
        v.push(c);
        proof {
            assert(s@.take(i as int + 1) =~= s@.take(i as int).push(s@[i as int]));
        }
        i += 1;
    }
    proof {
        assert(s@.take(n as int) =~= s@);
    }
    v
}

/// Relies on std's `FromIterator` for `String`: collecting characters
/// builds the string of exactly those characters.
#[verifier::external_body]
pub fn string_from_chars(v: &Vec<char>) -> (r: String)
    ensures
        r@ == v@,
{
    v.iter().collect()
}

/// The characters of `s` from `lo` (inclusive) to `hi` (exclusive).
pub fn sub_chars(s: &Vec<char>, lo: usize, hi: usize) -> (r: Vec<char>)
    requires
        lo <= hi <= s@.len(),
    ensures
        r@ == s@.subrange(lo as int, hi as int),
{
    let mut r: Vec<char> = Vec::new();
    let mut i: usize = lo;
    while i < hi
        invariant
            lo <= i <= hi <= s@.len(),
            r@ == s@.subrange(lo as int, i as int),
        decreases hi - i,
    {
        r.push(s[i]);
        proof {
            assert(s@.subrange(lo as int, i as int + 1) =~= s@.subrange(lo as int, i as int).push(s@[i as int]));
        }
        i += 1;
    }
    r
}

/// Append the characters of `s` to `out`.
pub fn append_chars(out: &mut Vec<char>, s: &Vec<char>)
    ensures
        final(out)@ == old(out)@ + s@,
{
    let n = s.len();
    let mut i: usize = 0;
    while i < n
        invariant
            n == s@.len(),
            i <= n,
            out@ == old(out)@ + s@.take(i as int),
        decreases n - i,
    {
        out.push(s[i]);
        proof {
            assert(s@.take(i as int + 1) =~= s@.take(i as int).push(s@[i as int]));
            assert(old(out)@ + s@.take(i as int + 1) =~= (old(out)@ + s@.take(i as int)).push(
                s@[i as int],
            ));
        }
        i += 1;
    }
    proof {
        assert(s@.take(n as int) =~= s@);
    }
}

/// Append the characters of the string `s` to `out`.
pub fn push_str_chars(out: &mut Vec<char>, s: &str)
    ensures
        final(out)@ == old(out)@ + s@,
{
    let mut v = str_to_chars(s);
    out.append(&mut v);
}

/// Whether two character vectors hold the same characters.
pub fn chars_eq(a: &Vec<char>, b: &Vec<char>) -> (r: bool)
    ensures
        r == (a@ == b@),
{
    if a.len() != b.len() {
        proof {
            assert(a@ != b@);
        }
        return false;
    }
    let n = a.len();
    let mut i: usize = 0;
    while i < n
        invariant
            n == a@.len() == b@.len(),
            i <= n,
            forall|k: int| 0 <= k < i ==> a@[k] == b@[k],
        decreases n - i,
    {
        if a[i] != b[i] {
            proof {
                assert(a@[i as int] != b@[i as int]);
            }
            return false;
        }
        i += 1;
    }
    proof {
        assert(a@ =~= b@);
    }
    true
}

/// The text without leading or trailing whitespace.
pub fn trim_chars(s: &Vec<char>) -> (r: Vec<char>)
    ensures
        r@ == trim_spec(s@),
{
    let n = s.len();
    let mut lo: usize = 0;
    while lo < n && is_space(s[lo])
        invariant
            n == s@.len(),
            lo <= n,
            forall|k: int| 0 <= k < lo ==> is_space_char(s@[k]),
        decreases n - lo,
    {
        lo += 1;
    }
    proof {
        lemma_trim_front_at(s@, lo as int);
    }
    let mut hi: usize = n;
    while hi > lo && is_space(s[hi - 1])
        invariant
            n == s@.len(),
            lo <= hi <= n,
            forall|k: int| hi <= k < n ==> is_space_char(s@[k]),
        decreases hi,
    {
        hi -= 1;
    }
    proof {
        let front = s@.skip(lo as int);
        lemma_trim_back_at(front, hi - lo);
        assert(front.take(hi - lo) =~= s@.subrange(lo as int, hi as int));
    }
    sub_chars(s, lo, hi)
}

/// The text with every run of spaces, commas and exclamation marks
/// replaced by one space.
pub fn collapse_chars(s: &Vec<char>) -> (r: Vec<char>)
    ensures
        r@ == collapse_spec(s@),
{
    let mut out: Vec<char> = Vec::new();
    let mut in_run = false;
    let n = s.len();
    let mut i: usize = 0;
    while i < n
        invariant
            n == s@.len(),
            i <= n,
            (out@, in_run) == collapse_fold(s@.take(i as int)),
        decreases n - i,
    {
        let c = s[i];
        proof {
            assert(s@.take(i as int + 1).drop_last() =~= s@.take(i as int));
            assert(s@.take(i as int + 1).last() == s@[i as int]);
        }
        if c == ' ' || c == ',' || c == '!' {
            if !in_run {
                out.push(' ');
                in_run = true;
            }
        } else {
            out.push(c);
            in_run = false;
        }
        i += 1;
    }
    proof {
        assert(s@.take(n as int) =~= s@);
    }
    out
}

/// The collapse invariant, strengthened for induction: the output holds no
/// comma and no exclamation mark, no two adjacent spaces, and the run flag
/// tells whether the output ends in a space.
proof fn lemma_collapse_fold_shape(s: Seq<char>)
    ensures
        forall|i: int| 0 <= i < collapse_fold(s).0.len() ==> collapse_fold(s).0[i] != ',' && collapse_fold(s).0[i] != '!',
        forall|i: int| #![trigger collapse_fold(s).0[i]] 0 <= i && i + 1 < collapse_fold(s).0.len() ==> !(collapse_fold(s).0[i] == ' ' && collapse_fold(s).0[i + 1] == ' '),
        collapse_fold(s).1 ==> collapse_fold(s).0.len() > 0 && collapse_fold(s).0.last() == ' ',
        !collapse_fold(s).1 && collapse_fold(s).0.len() > 0 ==> !is_collapsible_char(collapse_fold(s).0.last()),
    decreases s.len(),
{
    if s.len() > 0 {
        lemma_collapse_fold_shape(s.drop_last());
    }
}

/// Law: after the collapse, the text holds no comma, no exclamation mark,
/// and no two adjacent spaces — every collapsible run became one space.
pub proof fn lemma_collapse_single_spaces(s: Seq<char>)
    ensures
        forall|i: int| 0 <= i < collapse_spec(s).len() ==> collapse_spec(s)[i] != ',' && collapse_spec(s)[i] != '!',
        forall|i: int| #![trigger collapse_spec(s)[i]] 0 <= i && i + 1 < collapse_spec(s).len() ==> !(collapse_spec(s)[i] == ' ' && collapse_spec(s)[i + 1] == ' '),
{
    lemma_collapse_fold_shape(s);
}

} // verus!
