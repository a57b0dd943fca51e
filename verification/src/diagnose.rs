//! Reading a diagnostic run's output and building the test message.
//!
//! An AI connection test drives the CLI's agent and reads its output:
//! Node.js `ExperimentalWarning` noise is dropped line by line, and the
//! remainder must be free of error keywords and auth failure codes.  A
//! channel test sends a message stamped with the current time.

use vstd::prelude::*;

verus! {

use crate::text::{str_to_chars, chars_to_string, contains_chars, contains_spec, starts_with_spec};
use crate::status::{lower_of, lower_chars};
use crate::lines::{split_lines_spec, split_lines, join_nl_spec, join_lines};

/// The lines of a diagnostic output worth keeping: every line that does
/// not carry `ExperimentalWarning`.
pub open spec fn keep_lines(ls: Seq<Seq<char>>) -> Seq<Seq<char>>
    decreases ls.len(),
{
    if ls.len() == 0 {
        Seq::<Seq<char>>::empty()
    } else if contains_spec(ls[0], "ExperimentalWarning"@) {
        keep_lines(ls.drop_first())
    } else {
        seq![ls[0]] + keep_lines(ls.drop_first())
    }
}

/// What filtering leaves of an output: the kept lines joined again.
pub open spec fn filtered_output_spec(s: Seq<char>) -> Seq<char> {
    join_nl_spec(keep_lines(split_lines_spec(s)))
}

/// The output with every `ExperimentalWarning` line removed.
pub fn filter_warning_lines(output: &str) -> (r: String)
    ensures
        r@ == filtered_output_spec(output@),
{
    let v = str_to_chars(output);
    let ls = split_lines(&v);
    let ghost lss = split_lines_spec(output@);
    let n = ls.len();
    let needle = str_to_chars("ExperimentalWarning");
    let mut out: Vec<Vec<char>> = Vec::new();
    let ghost mut done: Seq<Seq<char>> = Seq::empty();
    let mut i: usize = 0;
    proof {
        assert(lss.subrange(0, n as int) =~= lss);
        assert(done + keep_lines(lss) =~= keep_lines(lss));
    }
    while i < n
        invariant
            lss == split_lines_spec(output@),
            n == ls@.len() == lss.len(),
            forall|k: int| 0 <= k < n ==> ls@[k]@ == lss[k],
            i <= n,
            needle@ == "ExperimentalWarning"@,
            out@.len() == done.len(),
            forall|k: int| 0 <= k < out@.len() ==> out@[k]@ == done[k],
            keep_lines(lss) == done + keep_lines(lss.subrange(i as int, n as int)),
        decreases n - i,
    {
        proof {
            let rest = lss.subrange(i as int, n as int);
            assert(rest[0] == lss[i as int]);
            assert(rest.drop_first() =~= lss.subrange(i + 1, n as int));
            assert(ls@[i as int]@ == lss[i as int]);
        }
        if !contains_chars(&ls[i], &needle) {
            let line = crate::text::subvec(&ls[i], 0, ls[i].len());
            proof {
                let prev = done;
                done = prev.push(lss[i as int]);
                assert(line@ =~= lss[i as int]);
                assert(prev + (seq![lss[i as int]] + keep_lines(lss.subrange(i + 1, n as int)))
                    =~= done + keep_lines(lss.subrange(i + 1, n as int)));
            }
            out.push(line);
        }
        i += 1;
    }
    proof {
        assert(keep_lines(lss.subrange(n as int, n as int)) =~= Seq::<Seq<char>>::empty());
        assert(done + Seq::<Seq<char>>::empty() =~= done);
    }
    let joined = join_lines(&out, 0, out.len());
    proof {
        assert(out@.subrange(0, out@.len() as int).map_values(|l: Vec<char>| l@) =~= done);
    }
    chars_to_string(&joined)
}

/// The verdict on a filtered diagnostic output: success means no
/// `error` keyword in any letter case, and neither of the auth failure
/// codes 401 and 403.
pub open spec fn ai_success_spec(filtered: Seq<char>) -> bool {
    !contains_spec(lower_of(filtered), "error"@) && !contains_spec(filtered, "401"@)
        && !contains_spec(filtered, "403"@)
}

/// Whether a filtered diagnostic output reports a working connection.
pub fn ai_output_success(filtered: &str) -> (r: bool)
    ensures
        r == ai_success_spec(filtered@),
{
    let v = str_to_chars(filtered);
    let low = lower_chars(&v);
    let error_kw = str_to_chars("error");
    let unauthorized = str_to_chars("401");
    let forbidden = str_to_chars("403");
    !contains_chars(&low, &error_kw) && !contains_chars(&v, &unauthorized) && !contains_chars(
        &v,
        &forbidden,
    )
}

/// Relies on `chrono::Local::now` and chrono's date formatting: the
/// current local wall-clock time written as `YYYY-MM-DD HH:MM:SS`.
/// Nothing can be promised of the clock's reading.
#[verifier::external_body]
fn now_timestamp() -> (r: String) {
    chrono::Local::now().format("%Y-%m-%d %H:%M:%S").to_string()
}

/// The test message for a given timestamp: the fixed greeting with the
/// stamp at its end.
pub fn build_test_message(timestamp: &str) -> (r: String)
    ensures
        r@ == "🤖 OpenClaw 测试消息\n\n✅ 连接成功！\n⏰ "@ + timestamp@,
{
    let mut s = String::from_str("🤖 OpenClaw 测试消息\n\n✅ 连接成功！\n⏰ ");
    s.append(timestamp);
    s
}

/// The test message stamped with the time of the call.
pub fn make_test_message() -> (r: String)
    ensures
        starts_with_spec(r@, "🤖 OpenClaw 测试消息\n\n✅ 连接成功！\n⏰ "@),
{
    let ts = now_timestamp();
    let r = build_test_message(ts.as_str());
    proof {
        let prefix = "🤖 OpenClaw 测试消息\n\n✅ 连接成功！\n⏰ "@;
        assert(r@.subrange(0, prefix.len() as int) =~= prefix);
    }
    r
}

} // verus!
