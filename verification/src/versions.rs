//! Version-string handling: pulling numeric components out of a version
//! string, comparing two versions, and checking the Node.js floor.

use vstd::prelude::*;

verus! {

use crate::text::{
    str_to_chars,
    trim_chars,
    trim_spec,
    subvec,
    trim_char_start,
    trim_char_start_chars,
    find_char,
    first_index_of,
};
use crate::extract::is_ascii_digit;
use crate::status::{lower_of, lower_chars};
use crate::types::UpdateInfo;

/// The number written by the digit run `s`, read in decimal.
pub open spec fn digits_val(s: Seq<char>) -> int
    decreases s.len(),
{
    if s.len() == 0 {
        0
    } else {
        digits_val(s.drop_last()) * 10 + (s.last() as int - 48)
    }
}

/// True when every character of `s` is a decimal digit.
pub open spec fn all_digits(s: Seq<char>) -> bool {
    forall|i: int| 0 <= i < s.len() ==> is_ascii_digit(s[i])
}

/// A run of digits writes a number that is not negative.
proof fn lemma_digits_val_nonneg(s: Seq<char>)
    requires
        forall|i: int| 0 <= i < s.len() ==> is_ascii_digit(s[i]),
    ensures
        digits_val(s) >= 0,
    decreases s.len(),
{
    if s.len() > 0 {
        assert forall|i: int| 0 <= i < s.drop_last().len() implies is_ascii_digit(
            s.drop_last()[i],
        ) by {
            assert(s.drop_last()[i] == s[i]);
        }
        lemma_digits_val_nonneg(s.drop_last());
        assert(s.last() as int - 48 >= 0);
    }
}

/// Extending a digit run to the right never shrinks its value.
proof fn lemma_digits_val_prefix_le(s: Seq<char>, i: int)
    requires
        forall|k: int| 0 <= k < s.len() ==> is_ascii_digit(s[k]),
        0 <= i <= s.len(),
    ensures
        digits_val(s.subrange(0, i)) <= digits_val(s),
    decreases s.len() - i,
{
    if i == s.len() {
        assert(s.subrange(0, i) =~= s);
    } else {
        assert forall|k: int| 0 <= k < s.drop_last().len() implies is_ascii_digit(
            s.drop_last()[k],
        ) by {
            assert(s.drop_last()[k] == s[k]);
        }
        assert(s.drop_last() =~= s.subrange(0, s.len() - 1));
        lemma_digits_val_prefix_le(s.subrange(0, s.len() - 1), i);
        assert(s.subrange(0, s.len() - 1).subrange(0, i) =~= s.subrange(0, i));
        lemma_digits_val_nonneg(s.subrange(0, s.len() - 1));
        assert(digits_val(s) == digits_val(s.subrange(0, s.len() - 1)) * 10 + (s.last() as int
            - 48));
    }
}

/// The value of a non-empty digit run, when it fits a `u32`; `None` on
/// overflow, the way `str::parse::<u32>` fails on a too-large number.
fn parse_u32_digits(buf: &Vec<char>) -> (r: Option<u32>)
    requires
        buf@.len() > 0,
        forall|i: int| 0 <= i < buf@.len() ==> is_ascii_digit(buf@[i]),
    ensures
        (r is Some) == (digits_val(buf@) <= u32::MAX as int),
        r matches Some(v) ==> v as int == digits_val(buf@),
{
    let n = buf.len();
    let mut acc: u64 = 0;
    let mut i: usize = 0;
    while i < n
        invariant
            i <= n == buf@.len(),
            forall|k: int| 0 <= k < buf@.len() ==> is_ascii_digit(buf@[k]),
            acc as int == digits_val(buf@.subrange(0, i as int)),
            acc <= u32::MAX as u64,
        decreases n - i,
    {
        let c = buf[i];
        let d: u64 = (c as u32 as u64) - 48;
        proof {
            assert(is_ascii_digit(buf@[i as int]));
            assert(d <= 9);
        }
        acc = acc * 10 + d;
        i += 1;
        proof {
            let p = buf@.subrange(0, i as int);
            assert(p.drop_last() =~= buf@.subrange(0, i - 1));
            assert(p.last() == buf@[i - 1]);
            assert(acc as int == digits_val(p));
        }
        if acc > 0xffff_ffff {
            proof {
                lemma_digits_val_prefix_le(buf@, i as int);
            }
            return None;
        }
    }
    proof {
        assert(buf@.subrange(0, n as int) =~= buf@);
    }
    Some(acc as u32)
}

/// The flushed form of a digit buffer: one part when the buffer is a
/// number that fits a `u32`, nothing when it is empty or overflows.
pub open spec fn flush_buf(buf: Seq<char>) -> Seq<u32> {
    if buf.len() == 0 {
        Seq::<u32>::empty()
    } else if digits_val(buf) <= u32::MAX as int {
        seq![digits_val(buf) as u32]
    } else {
        Seq::<u32>::empty()
    }
}

/// The numeric parts of `s`, scanning with the digits gathered so far in
/// `buf`: every maximal digit run becomes a part, and a run too large for
/// a `u32` is dropped.
pub open spec fn parts_rec(s: Seq<char>, buf: Seq<char>) -> Seq<u32>
    decreases s.len(),
{
    if s.len() == 0 {
        flush_buf(buf)
    } else if is_ascii_digit(s[0]) {
        parts_rec(s.drop_first(), buf.push(s[0]))
    } else {
        flush_buf(buf) + parts_rec(s.drop_first(), Seq::<char>::empty())
    }
}

/// What `extract_numeric_parts` yields: the version is trimmed, leading
/// `v` markers are dropped, and each maximal digit run becomes one part.
pub open spec fn extract_numeric_parts_spec(version: Seq<char>) -> Seq<u32> {
    parts_rec(trim_char_start(trim_spec(version), 'v'), Seq::<char>::empty())
}

/// The numeric components of a version string such as `v1.2.3`, in
/// order.  Non-digit characters separate the components; a component too
/// large for a `u32` is dropped.
pub fn extract_numeric_parts(version: &str) -> (r: Vec<u32>)
    ensures
        r@ == extract_numeric_parts_spec(version@),
{
    let v0 = str_to_chars(version);
    let t = trim_chars(&v0);
    let w = trim_char_start_chars(&t, 'v');
    let n = w.len();
    let mut parts: Vec<u32> = Vec::new();
    let mut buf: Vec<char> = Vec::new();
    let mut i: usize = 0;
    proof {
        assert(w@.subrange(0, n as int) =~= w@);
        assert(parts@ + parts_rec(w@, buf@) =~= parts_rec(w@, buf@));
    }
    while i < n
        invariant
            w@ == trim_char_start(trim_spec(version@), 'v'),
            n == w@.len(),
            i <= n,
            forall|k: int| 0 <= k < buf@.len() ==> is_ascii_digit(buf@[k]),
            extract_numeric_parts_spec(version@) == parts@ + parts_rec(
                w@.subrange(i as int, n as int),
                buf@,
            ),
        decreases n - i,
    {
        proof {
            let rest = w@.subrange(i as int, n as int);
            assert(rest[0] == w@[i as int]);
            assert(rest.drop_first() =~= w@.subrange(i + 1, n as int));
        }
        let c = w[i];
        if '0' <= c && c <= '9' {
            buf.push(c);
        } else {
            let ghost buf_prev = buf@;
            let ghost parts_prev = parts@;
            if buf.len() > 0 {
                match parse_u32_digits(&buf) {
                    Some(val) => {
                        proof {
                            assert(flush_buf(buf_prev) =~= seq![val]);
                        }
                        parts.push(val);
                    },
                    None => {
                        proof {
                            assert(flush_buf(buf_prev) =~= Seq::<u32>::empty());
                        }
                    },
                }
            } else {
                proof {
                    assert(flush_buf(buf_prev) =~= Seq::<u32>::empty());
                }
            }
            buf = Vec::new();
            proof {
                assert(parts@ =~= parts_prev + flush_buf(buf_prev));
                assert(parts_prev + (flush_buf(buf_prev) + parts_rec(
                    w@.subrange(i + 1, n as int),
                    Seq::<char>::empty(),
                )) =~= parts@ + parts_rec(w@.subrange(i + 1, n as int), buf@));
            }
        }
        i += 1;
    }
    proof {
        assert(parts_rec(w@.subrange(n as int, n as int), buf@) == flush_buf(buf@));
    }
    let ghost buf_prev = buf@;
    let ghost parts_prev = parts@;
    if buf.len() > 0 {
        match parse_u32_digits(&buf) {
            Some(val) => {
                proof {
                    assert(flush_buf(buf_prev) =~= seq![val]);
                }
                parts.push(val);
                proof {
                    assert(parts@ =~= parts_prev + flush_buf(buf_prev));
                }
            },
            None => {
                proof {
                    assert(flush_buf(buf_prev) =~= Seq::<u32>::empty());
                    assert(parts@ =~= parts_prev + flush_buf(buf_prev));
                }
            },
        }
    } else {
        proof {
            assert(flush_buf(buf_prev) =~= Seq::<u32>::empty());
            assert(parts@ =~= parts_prev + flush_buf(buf_prev));
        }
    }
    parts
}

/// Component `i` of a version, parts beyond the end reading as zero.
pub open spec fn part_at(p: Seq<u32>, i: int) -> u32 {
    if 0 <= i < p.len() {
        p[i]
    } else {
        0u32
    }
}

/// Whether `latest` is newer than `current` from component `i` on, the
/// components compared in order with missing ones read as zero.
pub open spec fn newer_from(current: Seq<u32>, latest: Seq<u32>, i: int) -> bool
    decreases (if current.len() > latest.len() {
        current.len()
    } else {
        latest.len()
    }) - i,
{
    let max = if current.len() > latest.len() {
        current.len() as int
    } else {
        latest.len() as int
    };
    if i < 0 || i >= max {
        false
    } else if part_at(latest, i) > part_at(current, i) {
        true
    } else if part_at(latest, i) < part_at(current, i) {
        false
    } else {
        newer_from(current, latest, i + 1)
    }
}

/// Whether the version with parts `latest` is newer than the one with
/// parts `current`.
pub open spec fn version_newer(current: Seq<u32>, latest: Seq<u32>) -> bool {
    newer_from(current, latest, 0)
}

/// Whether `latest` names a newer version than `current`: their numeric
/// parts are compared in order, missing parts reading as zero, and the
/// first difference decides.  Equal versions are not newer.
pub fn compare_versions(current: &str, latest: &str) -> (r: bool)
    ensures
        r == version_newer(
            extract_numeric_parts_spec(current@),
            extract_numeric_parts_spec(latest@),
        ),
{
    let c = extract_numeric_parts(current);
    let l = extract_numeric_parts(latest);
    let max = if c.len() > l.len() {
        c.len()
    } else {
        l.len()
    };
    let mut i: usize = 0;
    while i < max
        invariant
            c@ == extract_numeric_parts_spec(current@),
            l@ == extract_numeric_parts_spec(latest@),
            max == (if c@.len() > l@.len() {
                c@.len()
            } else {
                l@.len()
            }),
            i <= max,
            version_newer(c@, l@) == newer_from(c@, l@, i as int),
        decreases max - i,
    {
        let cv = if i < c.len() {
            c[i]
        } else {
            0
        };
        let lv = if i < l.len() {
            l[i]
        } else {
            0
        };
        if lv > cv {
            return true;
        }
        if lv < cv {
            return false;
        }
        i += 1;
    }
    false
}

/// The leading `u32` that `str::parse::<u32>` reads from `s`: an optional
/// `+` sign, then only digits, the value fitting a `u32`.
pub open spec fn leading_u32_spec(s: Seq<char>) -> Option<u32> {
    let d = if s.len() > 0 && s[0] == '+' {
        s.drop_first()
    } else {
        s
    };
    if d.len() > 0 && all_digits(d) && digits_val(d) <= u32::MAX as int {
        Some(digits_val(d) as u32)
    } else {
        None
    }
}

/// What `str::parse::<u32>` yields on the whole of `v`.
fn parse_u32_str(v: &Vec<char>) -> (r: Option<u32>)
    ensures
        r == leading_u32_spec(v@),
{
    let d = if v.len() > 0 && v[0] == '+' {
        subvec(v, 1, v.len())
    } else {
        subvec(v, 0, v.len())
    };
    proof {
        if v@.len() > 0 && v@[0] == '+' {
            assert(d@ =~= v@.drop_first());
        } else {
            assert(d@ =~= v@);
        }
    }
    if d.len() == 0 {
        return None;
    }
    let mut i: usize = 0;
    let n = d.len();
    while i < n
        invariant
            i <= n == d@.len(),
            d@.len() > 0,
            d@ == (if v@.len() > 0 && v@[0] == '+' {
                v@.drop_first()
            } else {
                v@
            }),
            forall|k: int| 0 <= k < i ==> is_ascii_digit(d@[k]),
        decreases n - i,
    {
        let c = d[i];
        if !('0' <= c && c <= '9') {
            proof {
                assert(!is_ascii_digit(d@[i as int]));
                if all_digits(d@) {
                    assert(is_ascii_digit(d@[i as int]));
                    assert(false);
                }
            }
            return None;
        }
        i += 1;
    }
    parse_u32_digits(&d)
}

/// The major component of a Node.js version string: leading `v` markers
/// dropped, the text before the first `.` parsed as a `u32`, an
/// unparseable major reading as zero.
pub open spec fn node_major_spec(v: Seq<char>) -> u32 {
    let stem = trim_char_start(v, 'v');
    let head = stem.subrange(0, first_index_of(stem, '.') as int);
    match leading_u32_spec(head) {
        Some(m) => m,
        None => 0u32,
    }
}

/// Whether a reported Node.js version satisfies the required floor of
/// major version 22; an absent or unparseable version does not.
pub fn check_node_version_requirement(version: &Option<String>) -> (r: bool)
    ensures
        r == (version matches Some(v) && node_major_spec(v@) >= 22),
{
    match version {
        None => false,
        Some(v) => {
            let s = str_to_chars(v.as_str());
            let stem = trim_char_start_chars(&s, 'v');
            let j = find_char(&stem, '.');
            let head = subvec(&stem, 0, j);
            let major = match parse_u32_str(&head) {
                Some(m) => m,
                None => 0,
            };
            major >= 22
        },
    }
}

/// The update verdict from the two version readings: an absent current
/// version means the CLI is not installed, an absent latest version means
/// the registry could not be asked, and otherwise the numeric comparison
/// decides.
pub fn check_openclaw_update(current_version: Option<String>, latest_version: Option<String>)
    -> (r: UpdateInfo)
    ensures
        current_version is None ==> !r.update_available && r.current_version is None
            && r.latest_version is None && (r.error matches Some(e) && e@ == "OpenClaw 未安装"@),
        current_version matches Some(c) ==> (latest_version is None ==> !r.update_available && (
        r.current_version matches Some(rc) && rc@ == c@) && r.latest_version is None && (
        r.error matches Some(e) && e@ == "无法获取最新版本信息"@)),
        current_version matches Some(c) ==> (latest_version matches Some(l)
            ==> r.update_available == version_newer(
            extract_numeric_parts_spec(c@),
            extract_numeric_parts_spec(l@),
        ) && (r.current_version matches Some(rc) && rc@ == c@) && (
        r.latest_version matches Some(rl) && rl@ == l@) && r.error is None),
{
    match (current_version, latest_version) {
        (None, _) => UpdateInfo {
            update_available: false,
            current_version: None,
            latest_version: None,
            error: Some(String::from_str("OpenClaw 未安装")),
        },
        (Some(c), None) => UpdateInfo {
            update_available: false,
            current_version: Some(c),
            latest_version: None,
            error: Some(String::from_str("无法获取最新版本信息")),
        },
        (Some(c), Some(l)) => {
            let update_available = compare_versions(c.as_str(), l.as_str());
            UpdateInfo {
                update_available,
                current_version: Some(c),
                latest_version: Some(l),
                error: None,
            }
        },
    }
}

/// The update channel that a stored channel text names: `nightly` when
/// its trimmed, lowercased form says so, and `latest` in every other
/// case — the rule both the reader and the writer of the channel file
/// apply.
pub fn normalize_openclaw_channel(channel: &str) -> (r: String)
    ensures
        lower_of(trim_spec(channel@)) == "nightly"@ ==> r@ == "nightly"@,
        lower_of(trim_spec(channel@)) != "nightly"@ ==> r@ == "latest"@,
{
    let v = str_to_chars(channel);
    let t = trim_chars(&v);
    let low = lower_chars(&t);
    let nightly = str_to_chars("nightly");
    if crate::text::eq_chars(&low, &nightly) {
        String::from_str("nightly")
    } else {
        String::from_str("latest")
    }
}

} // verus!
