//! ANSI escape-sequence removal.
//!
//! Raw process output may carry terminal control sequences (colors, cursor
//! moves).  Line-based parsing downstream needs them gone.  The scan drops
//! every CSI sequence — `ESC [` followed by anything up to and including the
//! first ASCII alphabetic character — and drops a lone `ESC` by itself while
//! keeping the characters after it.  Sequences other than CSI (such as OSC)
//! are not given special handling; that is a deliberate simplification.

use vstd::prelude::*;

verus! {

use crate::text::{str_to_chars, chars_to_string};

/// The escape character that introduces a terminal control sequence.
pub const ESC: char = '\x1b';

/// True for ASCII letters, which end a CSI sequence.
pub open spec fn is_ascii_alpha(c: char) -> bool {
    ('a' <= c && c <= 'z') || ('A' <= c && c <= 'Z')
}

/// ASCII-letter test in executable code.
pub fn is_ascii_alpha_exec(c: char) -> (r: bool)
    ensures
        r == is_ascii_alpha(c),
{
    ('a' <= c && c <= 'z') || ('A' <= c && c <= 'Z')
}

/// `s` with every ANSI CSI sequence and every stray `ESC` removed.
pub open spec fn strip_ansi(s: Seq<char>) -> Seq<char>
    decreases s.len(), 1int,
{
    if s.len() == 0 {
        Seq::<char>::empty()
    } else if s[0] == ESC {
        if s.len() >= 2 && s[1] == '[' {
            strip_csi(s.subrange(2, s.len() as int))
        } else {
            strip_ansi(s.drop_first())
        }
    } else {
        seq![s[0]] + strip_ansi(s.drop_first())
    }
}

/// The rest of `strip_ansi` while inside a CSI sequence: everything up to
/// and including the first ASCII letter is dropped, then scanning resumes.
pub open spec fn strip_csi(s: Seq<char>) -> Seq<char>
    decreases s.len(), 0int,
{
    if s.len() == 0 {
        Seq::<char>::empty()
    } else if is_ascii_alpha(s[0]) {
        strip_ansi(s.drop_first())
    } else {
        strip_csi(s.drop_first())
    }
}

/// Index just past the final byte of the CSI sequence that starts at `start`
/// (or the end of the text when the sequence is unterminated).
fn skip_csi(v: &Vec<char>, start: usize) -> (j: usize)
    requires
        start <= v@.len(),
    ensures
        start <= j <= v@.len(),
        strip_csi(v@.subrange(start as int, v@.len() as int)) == strip_ansi(
            v@.subrange(j as int, v@.len() as int),
        ),
{
    let n = v.len();
    let mut i: usize = start;
    while i < n
        invariant
            start <= i <= n == v@.len(),
            strip_csi(v@.subrange(start as int, n as int)) == strip_csi(
                v@.subrange(i as int, n as int),
            ),
        decreases n - i,
    {
        proof {
            let s = v@.subrange(i as int, n as int);
            assert(s[0] == v@[i as int]);
            assert(s.drop_first() =~= v@.subrange(i + 1, n as int));
        }
        if is_ascii_alpha_exec(v[i]) {
            return i + 1;
        }
        i += 1;
    }
    i
}

/// The text with all ANSI CSI escape sequences removed; line breaks and all
/// other characters come through unchanged.  This cannot fail: a malformed
/// or truncated escape sequence is consumed up to the end of the input.
pub fn strip_ansi_codes(input: &str) -> (r: String)
    ensures
        r@ == strip_ansi(input@),
{
    let v = str_to_chars(input);
    let out = strip_ansi_vec(&v);
    chars_to_string(&out)
}

/// `strip_ansi_codes` on a character vector.
pub fn strip_ansi_vec(v: &Vec<char>) -> (out: Vec<char>)
    ensures
        out@ == strip_ansi(v@),
{
    let n = v.len();
    let mut out: Vec<char> = Vec::new();
    let mut i: usize = 0;
    proof {
        assert(v@.subrange(0, n as int) =~= v@);
    }
    while i < n
        invariant
            n == v@.len(),
            i <= n,
            strip_ansi(v@) == out@ + strip_ansi(v@.subrange(i as int, n as int)),
        decreases n - i,
    {
        let c = v[i];
        proof {
            let s = v@.subrange(i as int, n as int);
            assert(s[0] == v@[i as int]);
            assert(s.drop_first() =~= v@.subrange(i + 1, n as int));
            if s.len() >= 2 {
                assert(s[1] == v@[i + 1]);
                assert(s.subrange(2, s.len() as int) =~= v@.subrange(i + 2, n as int));
            }
        }
        if c == ESC {
            if i + 1 < n && v[i + 1] == '[' {
                i = skip_csi(v, i + 2);
            } else {
                i += 1;
            }
        } else {
            out.push(c);
            i += 1;
        }
    }
    proof {
        assert(strip_ansi(v@.subrange(n as int, n as int)) =~= Seq::<char>::empty());
        assert(out@ + Seq::<char>::empty() =~= out@);
    }
    out
}

/// Nothing the scan emits is an `ESC`: every `ESC` of the input is consumed.
pub proof fn lemma_strip_ansi_no_esc(s: Seq<char>)
    ensures
        forall|i: int| 0 <= i < strip_ansi(s).len() ==> strip_ansi(s)[i] != ESC,
    decreases s.len(), 1int,
{
    if s.len() == 0 {
    } else if s[0] == ESC {
        if s.len() >= 2 && s[1] == '[' {
            lemma_strip_csi_no_esc(s.subrange(2, s.len() as int));
            assert forall|i: int| 0 <= i < strip_ansi(s).len() implies strip_ansi(s)[i]
                != ESC by {
                assert(strip_ansi(s)[i] == strip_csi(s.subrange(2, s.len() as int))[i]);
            }
        } else {
            lemma_strip_ansi_no_esc(s.drop_first());
            assert forall|i: int| 0 <= i < strip_ansi(s).len() implies strip_ansi(s)[i]
                != ESC by {
                assert(strip_ansi(s)[i] == strip_ansi(s.drop_first())[i]);
            }
        }
    } else {
        lemma_strip_ansi_no_esc(s.drop_first());
        assert forall|i: int| 0 <= i < strip_ansi(s).len() implies strip_ansi(s)[i] != ESC by {
            if i > 0 {
                assert(strip_ansi(s)[i] == strip_ansi(s.drop_first())[i - 1]);
            }
        }
    }
}

/// The same holds while a CSI sequence is being consumed.
pub proof fn lemma_strip_csi_no_esc(s: Seq<char>)
    ensures
        forall|i: int| 0 <= i < strip_csi(s).len() ==> strip_csi(s)[i] != ESC,
    decreases s.len(), 0int,
{
    if s.len() == 0 {
    } else if is_ascii_alpha(s[0]) {
        lemma_strip_ansi_no_esc(s.drop_first());
        assert forall|i: int| 0 <= i < strip_csi(s).len() implies strip_csi(s)[i] != ESC by {
            assert(strip_csi(s)[i] == strip_ansi(s.drop_first())[i]);
        }
    } else {
        lemma_strip_csi_no_esc(s.drop_first());
        assert forall|i: int| 0 <= i < strip_csi(s).len() implies strip_csi(s)[i] != ESC by {
            assert(strip_csi(s)[i] == strip_csi(s.drop_first())[i]);
        }
    }
}

/// On text that holds no `ESC` the scan changes nothing.
pub proof fn lemma_strip_ansi_of_clean(s: Seq<char>)
    requires
        forall|i: int| 0 <= i < s.len() ==> s[i] != ESC,
    ensures
        strip_ansi(s) == s,
    decreases s.len(),
{
    if s.len() == 0 {
        assert(strip_ansi(s) =~= s);
    } else {
        lemma_strip_ansi_of_clean(s.drop_first());
        assert(strip_ansi(s) =~= seq![s[0]] + s.drop_first());
        assert(seq![s[0]] + s.drop_first() =~= s);
    }
}

/// Normalizing is idempotent: stripping already-stripped text returns it
/// unchanged.
pub proof fn lemma_strip_ansi_idempotent(s: Seq<char>)
    ensures
        strip_ansi(strip_ansi(s)) == strip_ansi(s),
{
    lemma_strip_ansi_no_esc(s);
    lemma_strip_ansi_of_clean(strip_ansi(s));
}

/// The scan only removes: its output is never longer than its input.
pub proof fn lemma_strip_ansi_shorter(s: Seq<char>)
    ensures
        strip_ansi(s).len() <= s.len(),
    decreases s.len(), 1int,
{
    if s.len() == 0 {
    } else if s[0] == ESC {
        if s.len() >= 2 && s[1] == '[' {
            lemma_strip_csi_shorter(s.subrange(2, s.len() as int));
        } else {
            lemma_strip_ansi_shorter(s.drop_first());
        }
    } else {
        lemma_strip_ansi_shorter(s.drop_first());
    }
}

/// The same bound while a CSI sequence is being consumed.
pub proof fn lemma_strip_csi_shorter(s: Seq<char>)
    ensures
        strip_csi(s).len() <= s.len(),
    decreases s.len(), 0int,
{
    if s.len() == 0 {
    } else if is_ascii_alpha(s[0]) {
        lemma_strip_ansi_shorter(s.drop_first());
    } else {
        lemma_strip_csi_shorter(s.drop_first());
    }
}

} // verus!
