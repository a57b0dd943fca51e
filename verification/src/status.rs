//! Line-pattern parsing of channel status output.
//!
//! When the CLI prints channel status as plain text, a channel's line has
//! the shape `- Telegram default: enabled, configured, mode:polling`.  The
//! parser scans the normalized text for the first line that starts with
//! `- ` and names the channel (case-insensitively), and reads off three
//! flags and a free-text status message.

use vstd::prelude::*;

verus! {

use crate::text::{
    str_to_chars,
    chars_to_string,
    trim_chars,
    trim_spec,
    subvec,
    starts_with_chars,
    starts_with_spec,
    contains_chars,
    contains_spec,
    find_char,
    first_index_of,
};
use crate::lines::{split_lines_spec, split_lines};

/// What `str::to_lowercase` returns: a mapping that depends on the
/// characters of its input alone.
pub uninterp spec fn lower_of(s: Seq<char>) -> Seq<char>;

/// Relies on `str::to_lowercase`: the Unicode-lowercased text, a function
/// of the input characters alone.
#[verifier::external_body]
fn to_lowercase(s: &str) -> (r: String)
    ensures
        r@ == lower_of(s@),
{
    s.to_lowercase()
}

/// The lowercased characters of `v`.
pub(crate) fn lower_chars(v: &Vec<char>) -> (r: Vec<char>)
    ensures
        r@ == lower_of(v@),
{
    let s = chars_to_string(v);
    let lowered = to_lowercase(s.as_str());
    str_to_chars(lowered.as_str())
}

/// A line that reports on the channel: trimmed, it starts with `- ` and
/// its lowercase form names the channel.
pub open spec fn line_matches_channel(l: Seq<char>, channel_lower: Seq<char>) -> bool {
    let t = trim_spec(l);
    starts_with_spec(t, "- "@) && contains_spec(lower_of(t), channel_lower)
}

/// Whether the trimmed line reports the channel as enabled.
pub open spec fn line_enabled(t: Seq<char>) -> bool {
    contains_spec(t, "enabled"@)
}

/// Whether the trimmed line reports the channel as configured.  Because
/// `configured` is itself a substring of `not configured`, the whole
/// phrase `not configured` must be ruled out, not just checked
/// independently.
pub open spec fn line_configured(t: Seq<char>) -> bool {
    contains_spec(t, "configured"@) && !contains_spec(t, "not configured"@)
}

/// Whether the trimmed line reports the channel as linked.
pub open spec fn line_linked(t: Seq<char>) -> bool {
    contains_spec(t, "linked"@)
}

/// The status message of the trimmed line: everything after its first
/// colon, trimmed; empty when the line has no colon.
pub open spec fn status_message_spec(t: Seq<char>) -> Seq<char> {
    let j = first_index_of(t, ':');
    if j < t.len() {
        trim_spec(t.subrange(j as int + 1, t.len() as int))
    } else {
        Seq::<char>::empty()
    }
}

/// The status read from the first line that reports on the channel, if
/// any line does.
pub open spec fn parse_lines(ls: Seq<Seq<char>>, channel_lower: Seq<char>) -> Option<
    (bool, bool, bool, Seq<char>),
>
    decreases ls.len(),
{
    if ls.len() == 0 {
        None
    } else if line_matches_channel(ls[0], channel_lower) {
        let t = trim_spec(ls[0]);
        Some((line_enabled(t), line_configured(t), line_linked(t), status_message_spec(t)))
    } else {
        parse_lines(ls.drop_first(), channel_lower)
    }
}

/// What the parser yields on text `s` and channel name `channel`.
pub open spec fn parse_channel_status_spec(s: Seq<char>, channel: Seq<char>) -> Option<
    (bool, bool, bool, Seq<char>),
> {
    parse_lines(split_lines_spec(s), lower_of(channel))
}

/// The tri-state status of `channel_type` read from the normalized text
/// `output`: `(enabled, configured, linked, status message)` from the
/// first line that starts with `- ` and names the channel, or `None` when
/// no line does.
pub fn parse_channel_status_text(output: &str, channel_type: &str) -> (r: Option<
    (bool, bool, bool, String),
>)
    ensures
        (r is Some) == (parse_channel_status_spec(output@, channel_type@) is Some),
        r matches Some(x) ==> parse_channel_status_spec(output@, channel_type@) matches Some(y)
            && x.0 == y.0 && x.1 == y.1 && x.2 == y.2 && x.3@ == y.3,
{
    let channel_v = str_to_chars(channel_type);
    let channel_lower = lower_chars(&channel_v);

    let out_v = str_to_chars(output);
    let ls = split_lines(&out_v);
    let ghost lss = split_lines_spec(output@);
    let n = ls.len();

    let dash_space = str_to_chars("- ");
    let needle_enabled = str_to_chars("enabled");
    let needle_configured = str_to_chars("configured");
    let needle_not_configured = str_to_chars("not configured");
    let needle_linked = str_to_chars("linked");

    let mut i: usize = 0;
    proof {
        assert(lss.subrange(0, n as int) =~= lss);
    }
    while i < n
        invariant
            lss == split_lines_spec(output@),
            n == ls@.len() == lss.len(),
            forall|k: int| 0 <= k < n ==> ls@[k]@ == lss[k],
            i <= n,
            channel_lower@ == lower_of(channel_type@),
            dash_space@ == "- "@,
            needle_enabled@ == "enabled"@,
            needle_configured@ == "configured"@,
            needle_not_configured@ == "not configured"@,
            needle_linked@ == "linked"@,
            parse_lines(lss, lower_of(channel_type@)) == parse_lines(
                lss.subrange(i as int, n as int),
                lower_of(channel_type@),
            ),
        decreases n - i,
    {
        proof {
            let rest = lss.subrange(i as int, n as int);
            assert(rest[0] == lss[i as int]);
            assert(rest.drop_first() =~= lss.subrange(i + 1, n as int));
        }
        let t = trim_chars(&ls[i]);
        if starts_with_chars(&t, &dash_space) {
            let t_lower = lower_chars(&t);
            if contains_chars(&t_lower, &channel_lower) {
                let enabled = contains_chars(&t, &needle_enabled);
                let configured = contains_chars(&t, &needle_configured)
                    && !contains_chars(&t, &needle_not_configured);
                let linked = contains_chars(&t, &needle_linked);

                let j = find_char(&t, ':');
                let msg_v = if j < t.len() {
                    let after = subvec(&t, j + 1, t.len());
                    trim_chars(&after)
                } else {
                    Vec::<char>::new()
                };
                let msg = chars_to_string(&msg_v);
                proof {
                    let rest = lss.subrange(i as int, n as int);
                    let cl = lower_of(channel_type@);
                    assert(ls@[i as int]@ == lss[i as int]);
                    assert(t@ == trim_spec(rest[0]));
                    assert(line_matches_channel(rest[0], cl));
                    assert(parse_lines(rest, cl) == Some(
                        (
                            line_enabled(t@),
                            line_configured(t@),
                            line_linked(t@),
                            status_message_spec(t@),
                        ),
                    ));
                    assert(msg_v@ == status_message_spec(t@));
                }
                return Some((enabled, configured, linked, msg));
            }
        }
        i += 1;
    }
    None
}

} // verus!
