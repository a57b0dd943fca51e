//! Locating an embedded JSON document inside mixed process output.
//!
//! CLI output often interleaves human-readable log lines with one JSON
//! object or array.  After normalization the text is scanned line by line:
//! the first line that looks like a JSON start and the last line that looks
//! like a JSON end bound the candidate, and the bounded lines are handed
//! back joined with newlines.  The candidate is not parsed or validated
//! here — the caller runs a real JSON parser and treats its failure the
//! same as no candidate at all.  When several unrelated JSON-looking
//! fragments occur, the span from the first start to the last end can
//! cover unrelated lines in between; that first/last policy is deliberate.

use vstd::prelude::*;

verus! {

use crate::text::{str_to_chars, chars_to_string, trim_chars, trim_spec, trim_start_spec, is_space};
use crate::normalize::{strip_ansi, strip_ansi_vec};
use crate::lines::{split_lines_spec, split_lines, join_nl_spec, join_lines};

/// True for the decimal digits.
pub open spec fn is_ascii_digit(c: char) -> bool {
    '0' <= c && c <= '9'
}

/// A line that opens a JSON document: its trimmed text begins with `{`, or
/// begins with `[` followed by `"`, `{`, `[` or a digit.  The second
/// character matters: it tells a JSON array from a bracketed log tag such
/// as `[plugins]`.
pub open spec fn is_json_start_line(l: Seq<char>) -> bool {
    let t = trim_spec(l);
    (t.len() > 0 && t[0] == '{') || (t.len() > 1 && t[0] == '[' && (t[1] == '"' || t[1] == '{'
        || t[1] == '[' || is_ascii_digit(t[1])))
}

/// A line that closes a JSON document: its trimmed text ends with `}`, or
/// equals `},`, `]` or `],`.
pub open spec fn is_json_end_line(l: Seq<char>) -> bool {
    let t = trim_spec(l);
    (t.len() > 0 && t.last() == '}') || t == seq!['}', ','] || t == seq![']'] || t == seq![
        ']',
        ',',
    ]
}

/// Index of the first line that opens a JSON document, if any.
pub open spec fn first_start(ls: Seq<Seq<char>>) -> Option<nat>
    decreases ls.len(),
{
    if ls.len() == 0 {
        None
    } else if is_json_start_line(ls[0]) {
        Some(0nat)
    } else {
        match first_start(ls.drop_first()) {
            None => None,
            Some(k) => Some((k + 1) as nat),
        }
    }
}

/// Index of the last line that closes a JSON document, if any.
pub open spec fn last_end(ls: Seq<Seq<char>>) -> Option<nat>
    decreases ls.len(),
{
    if ls.len() == 0 {
        None
    } else if is_json_end_line(ls.last()) {
        Some((ls.len() - 1) as nat)
    } else {
        last_end(ls.drop_last())
    }
}

/// What the extractor yields on `s`: the lines of the normalized text from
/// the first start line through the last end line, joined with newlines —
/// or nothing when either boundary is missing or they cross.
pub open spec fn extract_json_spec(s: Seq<char>) -> Option<Seq<char>> {
    let ls = split_lines_spec(strip_ansi(s));
    match (first_start(ls), last_end(ls)) {
        (Some(a), Some(b)) => if a <= b {
            Some(join_nl_spec(ls.subrange(a as int, b as int + 1)))
        } else {
            None
        },
        _ => None,
    }
}

/// A found start at `m` with no start before it pins `first_start` to `m`;
/// no start anywhere pins it to `None`.
proof fn lemma_first_start_at(ls: Seq<Seq<char>>, m: int)
    requires
        0 <= m <= ls.len(),
        forall|j: int| 0 <= j < m ==> !is_json_start_line(ls[j]),
        m < ls.len() ==> is_json_start_line(ls[m]),
    ensures
        m < ls.len() ==> first_start(ls) == Some(m as nat),
        m == ls.len() ==> first_start(ls) is None,
    decreases ls.len(),
{
    if ls.len() == 0 {
    } else if is_json_start_line(ls[0]) {
    } else {
        assert forall|j: int| 0 <= j < m - 1 implies !is_json_start_line(ls.drop_first()[j]) by {
            assert(ls.drop_first()[j] == ls[j + 1]);
        }
        assert(m - 1 < ls.drop_first().len() ==> is_json_start_line(ls.drop_first()[m - 1]));
        lemma_first_start_at(ls.drop_first(), m - 1);
    }
}

/// A found end at `m` with no end after it pins `last_end` to `m`; no end
/// anywhere pins it to `None`.
proof fn lemma_last_end_at(ls: Seq<Seq<char>>, m: int)
    requires
        -1 <= m < ls.len(),
        forall|j: int| m < j < ls.len() ==> !is_json_end_line(ls[j]),
        m >= 0 ==> is_json_end_line(ls[m]),
    ensures
        m >= 0 ==> last_end(ls) == Some(m as nat),
        m < 0 ==> last_end(ls) is None,
    decreases ls.len(),
{
    if ls.len() == 0 {
    } else if is_json_end_line(ls.last()) {
        assert(m == ls.len() - 1);
    } else {
        assert(m < ls.len() - 1);
        assert forall|j: int| m < j < ls.drop_last().len() implies !is_json_end_line(
            ls.drop_last()[j],
        ) by {
            assert(ls.drop_last()[j] == ls[j]);
        }
        assert(m >= 0 ==> is_json_end_line(ls.drop_last()[m]));
        lemma_last_end_at(ls.drop_last(), m);
    }
}

/// Start-line test in executable code.
pub fn is_json_start_line_exec(l: &Vec<char>) -> (r: bool)
    ensures
        r == is_json_start_line(l@),
{
    let t = trim_chars(l);
    if t.len() > 0 && t[0] == '{' {
        return true;
    }
    if t.len() > 1 && t[0] == '[' {
        let c = t[1];
        if c == '"' || c == '{' || c == '[' || ('0' <= c && c <= '9') {
            return true;
        }
    }
    false
}

/// End-line test in executable code.
pub fn is_json_end_line_exec(l: &Vec<char>) -> (r: bool)
    ensures
        r == is_json_end_line(l@),
{
    let t = trim_chars(l);
    let n = t.len();
    if n > 0 && t[n - 1] == '}' {
        return true;
    }
    if n == 2 && t[0] == '}' && t[1] == ',' {
        proof {
            assert(t@ =~= seq!['}', ',']);
        }
        return true;
    }
    if n == 1 && t[0] == ']' {
        proof {
            assert(t@ =~= seq![']']);
        }
        return true;
    }
    if n == 2 && t[0] == ']' && t[1] == ',' {
        proof {
            assert(t@ =~= seq![']', ',']);
        }
        return true;
    }
    proof {
        if trim_spec(l@) == seq!['}', ','] || trim_spec(l@) == seq![']'] || trim_spec(l@) == seq![
            ']',
            ',',
        ] {
            assert(false);
        }
    }
    false
}

/// The JSON candidate inside `output`, when one set of boundaries is found.
///
/// The result holds the lines of the normalized output from the first
/// start line through the last end line, joined with `\n`.  It is `None`
/// exactly when no start line exists, no end line exists, or the start
/// stands after the end — never a partial span.
pub fn extract_json_from_output(output: &str) -> (r: Option<String>)
    ensures
        (r is Some) == (extract_json_spec(output@) is Some),
        r matches Some(x) ==> extract_json_spec(output@) matches Some(y) && x@ == y,
{
    let raw = str_to_chars(output);
    let clean = strip_ansi_vec(&raw);
    let ls = split_lines(&clean);
    let ghost lss = split_lines_spec(strip_ansi(output@));
    proof {
        assert(ls@.len() == lss.len());
    }
    let n = ls.len();

    // First line that opens a JSON document.
    let mut start: usize = 0;
    let mut start_found = false;
    while start < n
        invariant_except_break
            !start_found,
        invariant
            n == ls@.len() == lss.len(),
            forall|i: int| 0 <= i < ls@.len() ==> ls@[i]@ == lss[i],
            start <= n,
            forall|j: int| 0 <= j < start ==> !is_json_start_line(lss[j]),
        ensures
            start <= n,
            forall|j: int| 0 <= j < start ==> !is_json_start_line(lss[j]),
            start_found ==> start < n && is_json_start_line(lss[start as int]),
            !start_found ==> start == n,
        decreases n - start,
    {
        if is_json_start_line_exec(&ls[start]) {
            start_found = true;
            break;
        }
        start += 1;
    }
    proof {
        if start_found {
            lemma_first_start_at(lss, start as int);
        } else {
            lemma_first_start_at(lss, n as int);
        }
    }

    // Last line that closes a JSON document, scanning backward.
    let mut endpos: usize = n;
    let mut end_found = false;
    while endpos > 0
        invariant_except_break
            !end_found,
            forall|j: int| endpos <= j < n ==> !is_json_end_line(lss[j]),
        invariant
            n == ls@.len() == lss.len(),
            forall|i: int| 0 <= i < ls@.len() ==> ls@[i]@ == lss[i],
            endpos <= n,
        ensures
            endpos <= n,
            forall|j: int| endpos < j < n ==> !is_json_end_line(lss[j]),
            end_found ==> endpos < n && is_json_end_line(lss[endpos as int]),
            !end_found ==> endpos == 0 && forall|j: int|
                0 <= j < n ==> !is_json_end_line(lss[j]),
        decreases endpos,
    {
        endpos -= 1;
        if is_json_end_line_exec(&ls[endpos]) {
            end_found = true;
            break;
        }
    }
    proof {
        if end_found {
            lemma_last_end_at(lss, endpos as int);
        } else {
            lemma_last_end_at(lss, -1);
        }
    }

    if start_found && end_found && start <= endpos {
        let joined = join_lines(&ls, start, endpos + 1);
        proof {
            assert(ls@.subrange(start as int, endpos + 1).map_values(|l: Vec<char>| l@) =~= lss
                .subrange(start as int, endpos + 1));
        }
        Some(chars_to_string(&joined))
    } else {
        None
    }
}

/// Leading whitespace keeps `trim_start_spec` shrinking to nothing.
proof fn lemma_trim_start_all_space(s: Seq<char>)
    requires
        forall|i: int| 0 <= i < s.len() ==> is_space(s[i]),
    ensures
        trim_start_spec(s).len() == 0,
    decreases s.len(),
{
    if s.len() > 0 {
        assert forall|i: int| 0 <= i < s.drop_first().len() implies is_space(
            s.drop_first()[i],
        ) by {
            assert(s.drop_first()[i] == s[i + 1]);
        }
        lemma_trim_start_all_space(s.drop_first());
    }
}

/// A line of nothing but whitespace trims to the empty line.
proof fn lemma_trim_all_space(s: Seq<char>)
    requires
        forall|i: int| 0 <= i < s.len() ==> is_space(s[i]),
    ensures
        trim_spec(s).len() == 0,
{
    lemma_trim_start_all_space(s);
}

/// Splitting whitespace-only text gives whitespace-only lines.
proof fn lemma_split_lines_all_space(s: Seq<char>)
    requires
        forall|i: int| 0 <= i < s.len() ==> is_space(s[i]),
    ensures
        forall|k: int, j: int|
            0 <= k < split_lines_spec(s).len() && 0 <= j < split_lines_spec(s)[k].len()
                ==> is_space(#[trigger] split_lines_spec(s)[k][j]),
    decreases s.len(),
{
    crate::lines::lemma_first_nl(s);
    if s.len() > 0 {
        let k0 = crate::lines::first_nl(s) as int;
        if k0 == s.len() {
            assert forall|k: int, j: int|
                0 <= k < split_lines_spec(s).len() && 0 <= j < split_lines_spec(s)[k].len()
                    implies is_space(#[trigger] split_lines_spec(s)[k][j]) by {
                assert(split_lines_spec(s)[k] == s);
            }
        } else {
            let head = s.subrange(0, k0);
            let rest = s.subrange(k0 + 1, s.len() as int);
            assert forall|i: int| 0 <= i < rest.len() implies is_space(rest[i]) by {
                assert(rest[i] == s[k0 + 1 + i]);
            }
            lemma_split_lines_all_space(rest);
            assert forall|k: int, j: int|
                0 <= k < split_lines_spec(s).len() && 0 <= j < split_lines_spec(s)[k].len()
                    implies is_space(#[trigger] split_lines_spec(s)[k][j]) by {
                if k == 0 {
                    assert(split_lines_spec(s)[0] == crate::lines::strip_cr(head));
                    assert(crate::lines::strip_cr(head)[j] == head[j]);
                    assert(head[j] == s[j]);
                } else {
                    assert(split_lines_spec(s)[k] == split_lines_spec(rest)[k - 1]);
                }
            }
        }
    }
}

/// Text of nothing but whitespace — including empty text — holds no JSON
/// candidate: no line of it can open a document, so the extractor yields
/// `None`.
pub proof fn lemma_blank_input_yields_none(s: Seq<char>)
    requires
        forall|i: int| 0 <= i < s.len() ==> is_space(s[i]),
    ensures
        extract_json_spec(s) is None,
{
    assert forall|i: int| 0 <= i < s.len() implies s[i] != crate::normalize::ESC by {
        assert(is_space(s[i]));
    }
    crate::normalize::lemma_strip_ansi_of_clean(s);
    lemma_split_lines_all_space(s);
    let ls = split_lines_spec(s);
    assert forall|k: int| 0 <= k < ls.len() implies !is_json_start_line(ls[k]) by {
        let l = ls[k];
        assert forall|j: int| 0 <= j < l.len() implies is_space(l[j]) by {
            assert(is_space(ls[k][j]));
        }
        lemma_trim_all_space(l);
    }
    lemma_first_start_at(ls, ls.len() as int);
}

/// Unmatched boundaries yield nothing: when a start line exists but no end
/// line does, the extractor returns `None` rather than a partial span —
/// and likewise for an end with no start, or a start after the end.
pub proof fn lemma_unmatched_boundaries_yield_none(s: Seq<char>)
    ensures
        first_start(split_lines_spec(strip_ansi(s))) is None ==> extract_json_spec(s) is None,
        last_end(split_lines_spec(strip_ansi(s))) is None ==> extract_json_spec(s) is None,
        forall|a: nat, b: nat|
            first_start(split_lines_spec(strip_ansi(s))) == Some(a) && last_end(
                split_lines_spec(strip_ansi(s)),
            ) == Some(b) && a > b ==> extract_json_spec(s) is None,
{
}

} // verus!
