//! Character-level text utilities: conversion between `&str` and `Vec<char>`,
//! whitespace trimming, prefix tests and substring search.
//!
//! All processing in this crate works on `Vec<char>`, whose view is the same
//! `Seq<char>` as the view of the `&str` it was read from, so every contract
//! can be stated over one model of the text.

use vstd::prelude::*;

verus! {

/// True for the characters that carry the Unicode `White_Space` property,
/// the set that `str::trim` removes from both ends of a string.
pub open spec fn is_space(c: char) -> bool {
    c == ' ' || c == '\t' || c == '\n' || c == '\r' || c == '\x0b' || c == '\x0c'
        || c == '\u{85}' || c == '\u{a0}' || c == '\u{1680}' || c == '\u{2000}'
        || c == '\u{2001}' || c == '\u{2002}' || c == '\u{2003}' || c == '\u{2004}'
        || c == '\u{2005}' || c == '\u{2006}' || c == '\u{2007}' || c == '\u{2008}'
        || c == '\u{2009}' || c == '\u{200a}' || c == '\u{2028}' || c == '\u{2029}'
        || c == '\u{202f}' || c == '\u{205f}' || c == '\u{3000}'
}

/// Relies on `alloc::string::String::push`: appends the given character to
/// the end of the string.
pub assume_specification[ String::push ](s: &mut String, ch: char)
    ensures
        final(s)@ == old(s)@.push(ch),
;

/// The characters of `s` as a vector, in order.
pub fn str_to_chars(s: &str) -> (v: Vec<char>)
    ensures
        v@ == s@,
{
    let n = s.unicode_len();
    let mut v: Vec<char> = Vec::new();
    let mut i: usize = 0;
    while i < n
        invariant
            n == s@.len(),
            i <= n,
            v@ == s@.subrange(0, i as int),
        decreases n - i,
    {
        v.push(s.get_char(i));
        i += 1;
        proof {
            assert(v@ =~= s@.subrange(0, i as int));
        }
    }
    proof {
        assert(v@ =~= s@);
    }
    v
}

/// The characters of `v` collected into a `String`.
pub fn chars_to_string(v: &Vec<char>) -> (s: String)
    ensures
        s@ == v@,
{
    let mut s = String::new();
    let mut i: usize = 0;
    while i < v.len()
        invariant
            i <= v@.len(),
            s@ == v@.subrange(0, i as int),
        decreases v@.len() - i,
    {
        s.push(v[i]);
        i += 1;
        proof {
            assert(s@ =~= v@.subrange(0, i as int));
        }
    }
    proof {
        assert(s@ =~= v@);
    }
    s
}

/// `s` with leading whitespace removed.
pub open spec fn trim_start_spec(s: Seq<char>) -> Seq<char>
    decreases s.len(),
{
    if s.len() == 0 {
        s
    } else if is_space(s[0]) {
        trim_start_spec(s.drop_first())
    } else {
        s
    }
}

/// `s` with trailing whitespace removed.
pub open spec fn trim_end_spec(s: Seq<char>) -> Seq<char>
    decreases s.len(),
{
    if s.len() == 0 {
        s
    } else if is_space(s.last()) {
        trim_end_spec(s.drop_last())
    } else {
        s
    }
}

/// `s` with whitespace removed from both ends, as `str::trim` does.
pub open spec fn trim_spec(s: Seq<char>) -> Seq<char> {
    trim_end_spec(trim_start_spec(s))
}

/// The copy of `v` between the indices `from` (inclusive) and `to` (exclusive).
pub fn subvec(v: &Vec<char>, from: usize, to: usize) -> (r: Vec<char>)
    requires
        from <= to <= v@.len(),
    ensures
        r@ == v@.subrange(from as int, to as int),
{
    let mut r: Vec<char> = Vec::new();
    let mut i: usize = from;
    while i < to
        invariant
            from <= i <= to <= v@.len(),
            r@ == v@.subrange(from as int, i as int),
        decreases to - i,
    {
        r.push(v[i]);
        i += 1;
        proof {
            assert(r@ =~= v@.subrange(from as int, i as int));
        }
    }
    r
}

/// Index of the first non-whitespace character of `v`, or `v.len()` if all
/// of `v` is whitespace; it marks where `trim_start_spec` begins.
fn trim_start_index(v: &Vec<char>) -> (i: usize)
    ensures
        i <= v@.len(),
        v@.subrange(i as int, v@.len() as int) == trim_start_spec(v@),
        forall|j: int| 0 <= j < i ==> is_space(v@[j]),
{
    let n = v.len();
    proof {
        assert(v@.subrange(0, n as int) =~= v@);
    }
    let mut i: usize = 0;
    while i < n && is_space_exec(v[i])
        invariant
            i <= n == v@.len(),
            trim_start_spec(v@) == trim_start_spec(v@.subrange(i as int, n as int)),
            forall|j: int| 0 <= j < i ==> is_space(v@[j]),
        decreases n - i,
    {
        proof {
            let s = v@.subrange(i as int, n as int);
            assert(s.drop_first() =~= v@.subrange(i + 1, n as int));
        }
        i += 1;
    }
    proof {
        let s = v@.subrange(i as int, n as int);
        if i < n {
            assert(!is_space(s[0]));
        }
        assert(trim_start_spec(s) == s);
    }
    i
}

/// Index just past the last non-whitespace character of `v` at or after
/// `from`; it marks where `trim_end_spec` stops.
fn trim_end_index(v: &Vec<char>, from: usize) -> (i: usize)
    requires
        from <= v@.len(),
    ensures
        from <= i <= v@.len(),
        v@.subrange(from as int, i as int) == trim_end_spec(
            v@.subrange(from as int, v@.len() as int),
        ),
{
    let n = v.len();
    let mut i: usize = n;
    while i > from && is_space_exec(v[i - 1])
        invariant
            from <= i <= n == v@.len(),
            trim_end_spec(v@.subrange(from as int, n as int)) == trim_end_spec(
                v@.subrange(from as int, i as int),
            ),
        decreases i,
    {
        proof {
            let s = v@.subrange(from as int, i as int);
            assert(s.last() == v@[i - 1]);
            assert(s.drop_last() =~= v@.subrange(from as int, i - 1));
        }
        i -= 1;
    }
    proof {
        let s = v@.subrange(from as int, i as int);
        if i > from {
            assert(s.last() == v@[i - 1]);
            assert(!is_space(s.last()));
        }
        assert(trim_end_spec(s) == s);
    }
    i
}

/// Whitespace test on a single character in executable code.
pub fn is_space_exec(c: char) -> (r: bool)
    ensures
        r == is_space(c),
{
    c == ' ' || c == '\t' || c == '\n' || c == '\r' || c == '\x0b' || c == '\x0c'
        || c == '\u{85}' || c == '\u{a0}' || c == '\u{1680}' || c == '\u{2000}'
        || c == '\u{2001}' || c == '\u{2002}' || c == '\u{2003}' || c == '\u{2004}'
        || c == '\u{2005}' || c == '\u{2006}' || c == '\u{2007}' || c == '\u{2008}'
        || c == '\u{2009}' || c == '\u{200a}' || c == '\u{2028}' || c == '\u{2029}'
        || c == '\u{202f}' || c == '\u{205f}' || c == '\u{3000}'
}

/// `v` with whitespace removed from both ends, as `str::trim`.
pub fn trim_chars(v: &Vec<char>) -> (r: Vec<char>)
    ensures
        r@ == trim_spec(v@),
{
    let start = trim_start_index(v);
    let end = trim_end_index(v, start);
    let r = subvec(v, start, end);
    proof {
        assert(v@.subrange(start as int, v@.len() as int) == trim_start_spec(v@));
    }
    r
}

/// `s` with whitespace removed from both ends, as a `String`.
pub fn trim_str(s: &str) -> (r: String)
    ensures
        r@ == trim_spec(s@),
{
    let v = str_to_chars(s);
    let t = trim_chars(&v);
    chars_to_string(&t)
}

/// Appends the characters of `src` to `dst`.
pub fn append_chars(dst: &mut Vec<char>, src: &Vec<char>)
    ensures
        final(dst)@ == old(dst)@ + src@,
{
    let mut i: usize = 0;
    while i < src.len()
        invariant
            i <= src@.len(),
            dst@ == old(dst)@ + src@.subrange(0, i as int),
        decreases src@.len() - i,
    {
        dst.push(src[i]);
        i += 1;
        proof {
            assert(dst@ =~= old(dst)@ + src@.subrange(0, i as int));
        }
    }
    proof {
        assert(old(dst)@ + src@.subrange(0, src@.len() as int) =~= old(dst)@ + src@);
    }
}

/// True when `n` stands at the front of `h`.
pub open spec fn starts_with_spec(h: Seq<char>, n: Seq<char>) -> bool {
    h.len() >= n.len() && h.subrange(0, n.len() as int) == n
}

/// True when `n` occurs in `h` as a contiguous run.
pub open spec fn contains_spec(h: Seq<char>, n: Seq<char>) -> bool {
    exists|i: int|
        0 <= i && i + n.len() <= h.len() && #[trigger] h.subrange(i, i + n.len() as int) == n
}

/// Whether the characters of `n` stand at positions `at .. at + n.len()` of `h`.
fn matches_at(h: &Vec<char>, n: &Vec<char>, at: usize) -> (r: bool)
    requires
        at + n@.len() <= h@.len(),
    ensures
        r == (h@.subrange(at as int, at + n@.len() as int) == n@),
{
    let hn = h.len();
    let mut j: usize = 0;
    while j < n.len()
        invariant
            hn == h@.len(),
            at + n@.len() <= h@.len(),
            j <= n@.len(),
            forall|k: int| 0 <= k < j ==> h@[at + k] == n@[k],
        decreases n@.len() - j,
    {
        if h[at + j] != n[j] {
            proof {
                assert(h@.subrange(at as int, at + n@.len() as int)[j as int] == h@[at + j]);
            }
            return false;
        }
        j += 1;
    }
    proof {
        assert(h@.subrange(at as int, at + n@.len() as int) =~= n@);
    }
    true
}

/// Prefix test, `str::starts_with` on character vectors.
pub fn starts_with_chars(h: &Vec<char>, n: &Vec<char>) -> (r: bool)
    ensures
        r == starts_with_spec(h@, n@),
{
    if n.len() > h.len() {
        return false;
    }
    matches_at(h, n, 0)
}

/// Substring search, `str::contains` on character vectors.
pub fn contains_chars(h: &Vec<char>, n: &Vec<char>) -> (r: bool)
    ensures
        r == contains_spec(h@, n@),
{
    if n.len() > h.len() {
        return false;
    }
    let bound = h.len() - n.len();
    let mut i: usize = 0;
    loop
        invariant
            n@.len() <= h@.len(),
            bound == h@.len() - n@.len(),
            i <= bound,
            forall|k: int|
                0 <= k < i ==> #[trigger] h@.subrange(k, k + n@.len() as int) != n@,
        decreases bound - i,
    {
        if matches_at(h, n, i) {
            return true;
        }
        if i == bound {
            return false;
        }
        i += 1;
    }
}

/// `s` with every leading `c` removed, as `str::trim_start_matches` with a
/// single-character pattern.
pub open spec fn trim_char_start(s: Seq<char>, c: char) -> Seq<char>
    decreases s.len(),
{
    if s.len() > 0 && s[0] == c {
        trim_char_start(s.drop_first(), c)
    } else {
        s
    }
}

/// `s` with every trailing `c` removed.
pub open spec fn trim_char_end(s: Seq<char>, c: char) -> Seq<char>
    decreases s.len(),
{
    if s.len() > 0 && s.last() == c {
        trim_char_end(s.drop_last(), c)
    } else {
        s
    }
}

/// `s` with every leading and trailing `c` removed, as `str::trim_matches`
/// with a single-character pattern.
pub open spec fn trim_char_spec(s: Seq<char>, c: char) -> Seq<char> {
    trim_char_end(trim_char_start(s, c), c)
}

/// Index of the first character of `v` that is not `c`, or `v.len()`.
fn skip_char_start(v: &Vec<char>, c: char) -> (i: usize)
    ensures
        i <= v@.len(),
        v@.subrange(i as int, v@.len() as int) == trim_char_start(v@, c),
{
    let n = v.len();
    proof {
        assert(v@.subrange(0, n as int) =~= v@);
    }
    let mut i: usize = 0;
    while i < n && v[i] == c
        invariant
            i <= n == v@.len(),
            trim_char_start(v@, c) == trim_char_start(v@.subrange(i as int, n as int), c),
        decreases n - i,
    {
        proof {
            let s = v@.subrange(i as int, n as int);
            assert(s[0] == v@[i as int]);
            assert(s.drop_first() =~= v@.subrange(i + 1, n as int));
        }
        i += 1;
    }
    proof {
        let s = v@.subrange(i as int, n as int);
        if i < n {
            assert(s[0] == v@[i as int]);
        }
        assert(trim_char_start(s, c) == s);
    }
    i
}

/// Index just past the last character of `v` at or after `from` that is
/// not `c`, or `from`.
fn skip_char_end(v: &Vec<char>, from: usize, c: char) -> (i: usize)
    requires
        from <= v@.len(),
    ensures
        from <= i <= v@.len(),
        v@.subrange(from as int, i as int) == trim_char_end(
            v@.subrange(from as int, v@.len() as int),
            c,
        ),
{
    let n = v.len();
    let mut i: usize = n;
    while i > from && v[i - 1] == c
        invariant
            from <= i <= n == v@.len(),
            trim_char_end(v@.subrange(from as int, n as int), c) == trim_char_end(
                v@.subrange(from as int, i as int),
                c,
            ),
        decreases i,
    {
        proof {
            let s = v@.subrange(from as int, i as int);
            assert(s.last() == v@[i - 1]);
            assert(s.drop_last() =~= v@.subrange(from as int, i - 1));
        }
        i -= 1;
    }
    proof {
        let s = v@.subrange(from as int, i as int);
        if i > from {
            assert(s.last() == v@[i - 1]);
        }
        assert(trim_char_end(s, c) == s);
    }
    i
}

/// `v` with every leading and trailing `c` removed.
pub fn trim_char_chars(v: &Vec<char>, c: char) -> (r: Vec<char>)
    ensures
        r@ == trim_char_spec(v@, c),
{
    let start = skip_char_start(v, c);
    let end = skip_char_end(v, start, c);
    let r = subvec(v, start, end);
    proof {
        assert(v@.subrange(start as int, v@.len() as int) == trim_char_start(v@, c));
    }
    r
}

/// `v` with every leading `c` removed.
pub fn trim_char_start_chars(v: &Vec<char>, c: char) -> (r: Vec<char>)
    ensures
        r@ == trim_char_start(v@, c),
{
    let start = skip_char_start(v, c);
    subvec(v, start, v.len())
}

/// `s` with the prefix `p` removed as many times as it stands at the
/// front, as `str::trim_start_matches` with a string pattern.
pub open spec fn strip_prefix_rep(s: Seq<char>, p: Seq<char>) -> Seq<char>
    decreases s.len(),
{
    if p.len() > 0 && starts_with_spec(s, p) {
        strip_prefix_rep(s.subrange(p.len() as int, s.len() as int), p)
    } else {
        s
    }
}

/// `v` with the prefix `p` removed as many times as it stands at the front.
pub fn strip_prefix_rep_chars(v: &Vec<char>, p: &Vec<char>) -> (r: Vec<char>)
    requires
        p@.len() > 0,
    ensures
        r@ == strip_prefix_rep(v@, p@),
{
    let mut cur = subvec(v, 0, v.len());
    proof {
        assert(cur@ =~= v@);
    }
    while starts_with_chars(&cur, p)
        invariant
            p@.len() > 0,
            strip_prefix_rep(v@, p@) == strip_prefix_rep(cur@, p@),
        decreases cur@.len(),
    {
        let next = subvec(&cur, p.len(), cur.len());
        proof {
            assert(next@ == cur@.subrange(p@.len() as int, cur@.len() as int));
        }
        cur = next;
    }
    cur
}

/// Offset of the first occurrence of `c` in `s`, or `s.len()` when there
/// is none.
pub open spec fn first_index_of(s: Seq<char>, c: char) -> nat
    decreases s.len(),
{
    if s.len() == 0 {
        0
    } else if s[0] == c {
        0
    } else {
        1 + first_index_of(s.drop_first(), c)
    }
}

/// `first_index_of` of a text whose first `c`, if any, is known to stand
/// at `m`.
pub proof fn lemma_first_index_of_at(s: Seq<char>, c: char, m: int)
    requires
        0 <= m <= s.len(),
        forall|j: int| 0 <= j < m ==> s[j] != c,
        m < s.len() ==> s[m] == c,
    ensures
        first_index_of(s, c) == m,
    decreases s.len(),
{
    if s.len() == 0 {
    } else if s[0] == c {
    } else {
        assert forall|j: int| 0 <= j < m - 1 implies s.drop_first()[j] != c by {
            assert(s.drop_first()[j] == s[j + 1]);
        }
        assert(m - 1 < s.drop_first().len() ==> s.drop_first()[m - 1] == c);
        lemma_first_index_of_at(s.drop_first(), c, m - 1);
    }
}

/// Index of the first occurrence of `c` in `v`, or `v.len()` when there is
/// none; it computes `first_index_of`.
pub fn find_char(v: &Vec<char>, c: char) -> (k: usize)
    ensures
        k == first_index_of(v@, c),
        k <= v@.len(),
        k < v@.len() ==> v@[k as int] == c,
        forall|j: int| 0 <= j < k ==> v@[j] != c,
{
    let n = v.len();
    let mut i: usize = 0;
    while i < n
        invariant
            i <= n == v@.len(),
            forall|j: int| 0 <= j < i ==> v@[j] != c,
        decreases n - i,
    {
        if v[i] == c {
            proof {
                lemma_first_index_of_at(v@, c, i as int);
            }
            return i;
        }
        i += 1;
    }
    proof {
        lemma_first_index_of_at(v@, c, n as int);
    }
    i
}

/// Equality of two character vectors.
pub fn eq_chars(a: &Vec<char>, b: &Vec<char>) -> (r: bool)
    ensures
        r == (a@ == b@),
{
    if a.len() != b.len() {
        proof {
            assert(a@ != b@);
        }
        return false;
    }
    let r = matches_at(a, b, 0);
    proof {
        assert(a@.subrange(0, a@.len() as int) =~= a@);
        if a@.subrange(0, b@.len() as int) == b@ {
            assert(a@ =~= b@);
        }
    }
    r
}

} // verus!
