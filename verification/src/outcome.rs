//! Turning a finished process invocation into a `Result`.
//!
//! The surrounding application spawns shell commands and hands the
//! captured pieces — did the process succeed, what it wrote to stdout and
//! stderr, and its exit code — to the functions here, which decide what
//! the caller sees: trimmed stdout on success, and on failure the most
//! informative of stderr, stdout and a rendered exit code, in the order
//! each shell flavor prefers.

use vstd::prelude::*;

verus! {

use crate::text::{trim_spec, trim_str, trim_chars, str_to_chars, chars_to_string, append_chars};
use crate::lines::{split_lines_spec, split_lines};

/// The decimal digit `d` as a character.
pub open spec fn digit_char(d: int) -> char {
    if d == 0 {
        '0'
    } else if d == 1 {
        '1'
    } else if d == 2 {
        '2'
    } else if d == 3 {
        '3'
    } else if d == 4 {
        '4'
    } else if d == 5 {
        '5'
    } else if d == 6 {
        '6'
    } else if d == 7 {
        '7'
    } else if d == 8 {
        '8'
    } else {
        '9'
    }
}

/// `n` written in decimal, most significant digit first.
pub open spec fn dec_str(n: nat) -> Seq<char>
    decreases n,
{
    if n < 10 {
        seq![digit_char(n as int)]
    } else {
        dec_str(n / 10).push(digit_char((n % 10) as int))
    }
}

/// `n` written as `i32` debug output: a minus sign for negatives, then
/// the decimal magnitude.
pub open spec fn i32_str(n: int) -> Seq<char> {
    if n < 0 {
        seq!['-'] + dec_str((-n) as nat)
    } else {
        dec_str(n as nat)
    }
}

/// An optional exit code written as its debug form, `Some(code)` or
/// `None` — the form the failure messages carry.
pub open spec fn exit_code_text(code: Option<i32>) -> Seq<char> {
    match code {
        None => "None"@,
        Some(x) => "Some("@ + i32_str(x as int) + seq![')'],
    }
}

/// The failure message used when a process fails without writing
/// anything informative.
pub open spec fn exit_code_message(code: Option<i32>) -> Seq<char> {
    "Command failed with exit code: "@ + exit_code_text(code)
}

/// The digit `d` as a character, in executable code.
fn digit_char_exec(d: u32) -> (c: char)
    requires
        d < 10,
    ensures
        c == digit_char(d as int),
{
    if d == 0 {
        '0'
    } else if d == 1 {
        '1'
    } else if d == 2 {
        '2'
    } else if d == 3 {
        '3'
    } else if d == 4 {
        '4'
    } else if d == 5 {
        '5'
    } else if d == 6 {
        '6'
    } else if d == 7 {
        '7'
    } else if d == 8 {
        '8'
    } else {
        '9'
    }
}

/// Appends the decimal form of `n` to `out`.
fn push_dec(out: &mut Vec<char>, n: u32)
    ensures
        final(out)@ == old(out)@ + dec_str(n as nat),
    decreases n,
{
    if n < 10 {
        out.push(digit_char_exec(n));
        proof {
            assert(out@ =~= old(out)@ + dec_str(n as nat));
        }
    } else {
        push_dec(out, n / 10);
        out.push(digit_char_exec(n % 10));
        proof {
            assert(out@ =~= old(out)@ + dec_str(n as nat));
        }
    }
}

/// The failure message for `code`, built in executable code.
fn exit_code_message_exec(code: Option<i32>) -> (r: String)
    ensures
        r@ == exit_code_message(code),
{
    let mut v = str_to_chars("Command failed with exit code: ");
    match code {
        None => {
            let tail = str_to_chars("None");
            append_chars(&mut v, &tail);
        },
        Some(x) => {
            let head = str_to_chars("Some(");
            append_chars(&mut v, &head);
            if x < 0 {
                v.push('-');
                let mag: u32 = (-(x as i64)) as u32;
                push_dec(&mut v, mag);
                proof {
                    assert(v@ =~= "Command failed with exit code: "@ + ("Some("@ + i32_str(
                        x as int,
                    )));
                }
            } else {
                push_dec(&mut v, x as u32);
            }
            v.push(')');
            proof {
                assert(v@ =~= "Command failed with exit code: "@ + ("Some("@ + i32_str(x as int)
                    + seq![')']));
            }
        },
    }
    chars_to_string(&v)
}

/// What a plain command invocation reports: trimmed stdout on success,
/// trimmed stderr on failure.
pub open spec fn command_outcome(success: bool, out: Seq<char>, err: Seq<char>) -> Result<
    Seq<char>,
    Seq<char>,
> {
    if success {
        Ok(trim_spec(out))
    } else {
        Err(trim_spec(err))
    }
}

/// What a bash invocation reports: trimmed stdout on success; on failure
/// trimmed stderr, or the exit-code message when stderr is empty.
pub open spec fn bash_outcome(
    success: bool,
    out: Seq<char>,
    err: Seq<char>,
    code: Option<i32>,
) -> Result<Seq<char>, Seq<char>> {
    if success {
        Ok(trim_spec(out))
    } else if trim_spec(err).len() > 0 {
        Err(trim_spec(err))
    } else {
        Err(exit_code_message(code))
    }
}

/// What a cmd.exe or PowerShell invocation reports: trimmed stdout on
/// success; on failure trimmed stderr, then trimmed stdout, then the
/// exit-code message, whichever first is non-empty.
pub open spec fn cmd_outcome(success: bool, out: Seq<char>, err: Seq<char>, code: Option<i32>)
    -> Result<Seq<char>, Seq<char>> {
    if success {
        Ok(trim_spec(out))
    } else if trim_spec(err).len() > 0 {
        Err(trim_spec(err))
    } else if trim_spec(out).len() > 0 {
        Err(trim_spec(out))
    } else {
        Err(exit_code_message(code))
    }
}

/// The result a caller of a plain command sees, from the pieces of the
/// finished invocation: `Ok` with trimmed stdout when the process
/// succeeded, `Err` with trimmed stderr when it failed.
pub fn run_command_output(success: bool, stdout: &str, stderr: &str) -> (r: Result<String, String>)
    ensures
        ({
            let want = command_outcome(success, stdout@, stderr@);
            &&& (r is Ok) == (want is Ok)
            &&& (r matches Ok(s) ==> want matches Ok(y) && s@ == y)
            &&& (r matches Err(s) ==> want matches Err(y) && s@ == y)
        }),
{
    if success {
        Ok(trim_str(stdout))
    } else {
        Err(trim_str(stderr))
    }
}

/// The result a caller of a bash script sees: `Ok` with trimmed stdout on
/// success; on failure trimmed stderr, or — when stderr is empty — a
/// message naming the exit code.
pub fn run_bash_output(success: bool, stdout: &str, stderr: &str, code: Option<i32>) -> (r: Result<
    String,
    String,
>)
    ensures
        ({
            let want = bash_outcome(success, stdout@, stderr@, code);
            &&& (r is Ok) == (want is Ok)
            &&& (r matches Ok(s) ==> want matches Ok(y) && s@ == y)
            &&& (r matches Err(s) ==> want matches Err(y) && s@ == y)
        }),
{
    if success {
        Ok(trim_str(stdout))
    } else {
        let e = trim_str(stderr);
        if e.as_str().unicode_len() > 0 {
            Err(e)
        } else {
            Err(exit_code_message_exec(code))
        }
    }
}

/// The result a caller of a cmd.exe script sees: `Ok` with trimmed stdout
/// on success; on failure trimmed stderr, then trimmed stdout, then a
/// message naming the exit code, whichever first is non-empty.
pub fn run_cmd_output(success: bool, stdout: &str, stderr: &str, code: Option<i32>) -> (r: Result<
    String,
    String,
>)
    ensures
        ({
            let want = cmd_outcome(success, stdout@, stderr@, code);
            &&& (r is Ok) == (want is Ok)
            &&& (r matches Ok(s) ==> want matches Ok(y) && s@ == y)
            &&& (r matches Err(s) ==> want matches Err(y) && s@ == y)
        }),
{
    if success {
        Ok(trim_str(stdout))
    } else {
        let e = trim_str(stderr);
        if e.as_str().unicode_len() > 0 {
            Err(e)
        } else {
            let o = trim_str(stdout);
            if o.as_str().unicode_len() > 0 {
                Err(o)
            } else {
                Err(exit_code_message_exec(code))
            }
        }
    }
}

/// The result a caller of a PowerShell script sees; PowerShell failures
/// are read the same way as cmd.exe failures.
pub fn run_powershell_output(success: bool, stdout: &str, stderr: &str, code: Option<i32>) -> (r:
    Result<String, String>)
    ensures
        ({
            let want = cmd_outcome(success, stdout@, stderr@, code);
            &&& (r is Ok) == (want is Ok)
            &&& (r matches Ok(s) ==> want matches Ok(y) && s@ == y)
            &&& (r matches Err(s) ==> want matches Err(y) && s@ == y)
        }),
{
    run_cmd_output(success, stdout, stderr, code)
}

/// The result a caller of a login-shell script sees: as bash on Unix;
/// on Windows there is no login shell and the call always fails.
pub fn run_login_shell_output(
    is_windows: bool,
    success: bool,
    stdout: &str,
    stderr: &str,
    code: Option<i32>,
) -> (r: Result<String, String>)
    ensures
        is_windows ==> (r matches Err(s) && s@
            == "Login shell execution is not available on Windows"@),
        !is_windows ==> ({
            let want = bash_outcome(success, stdout@, stderr@, code);
            &&& (r is Ok) == (want is Ok)
            &&& (r matches Ok(s) ==> want matches Ok(y) && s@ == y)
            &&& (r matches Err(s) ==> want matches Err(y) && s@ == y)
        }),
{
    if is_windows {
        Err(String::from_str("Login shell execution is not available on Windows"))
    } else {
        run_bash_output(success, stdout, stderr, code)
    }
}

/// The result a caller of a cross-platform script sees: read as cmd.exe
/// output on Windows and as bash output elsewhere.
pub fn run_script_output(
    is_windows: bool,
    success: bool,
    stdout: &str,
    stderr: &str,
    code: Option<i32>,
) -> (r: Result<String, String>)
    ensures
        ({
            let want = if is_windows {
                cmd_outcome(success, stdout@, stderr@, code)
            } else {
                bash_outcome(success, stdout@, stderr@, code)
            };
            &&& (r is Ok) == (want is Ok)
            &&& (r matches Ok(s) ==> want matches Ok(y) && s@ == y)
            &&& (r matches Err(s) ==> want matches Err(y) && s@ == y)
        }),
{
    if is_windows {
        run_cmd_output(success, stdout, stderr, code)
    } else {
        run_bash_output(success, stdout, stderr, code)
    }
}

/// The Node.js version inside a `node --version` answer: the trimmed
/// output, accepted only when it is non-empty and starts with `v`.
pub fn node_version_from_output(output: &str) -> (r: Option<String>)
    ensures
        (r is Some) == (trim_spec(output@).len() > 0 && trim_spec(output@)[0] == 'v'),
        r matches Some(x) ==> x@ == trim_spec(output@),
{
    let v = str_to_chars(output);
    let t = trim_chars(&v);
    if t.len() > 0 && t[0] == 'v' {
        Some(chars_to_string(&t))
    } else {
        None
    }
}

/// The version inside a registry query's answer: the trimmed output,
/// accepted only when it is non-empty.
pub fn latest_version_from_output(output: &str) -> (r: Option<String>)
    ensures
        (r is Some) == (trim_spec(output@).len() > 0),
        r matches Some(x) ==> x@ == trim_spec(output@),
{
    let v = str_to_chars(output);
    let t = trim_chars(&v);
    if t.len() > 0 {
        Some(chars_to_string(&t))
    } else {
        None
    }
}

/// The first line of `ls` whose trimmed text is non-empty, trimmed.
pub open spec fn first_nonempty_line(ls: Seq<Seq<char>>) -> Option<Seq<char>>
    decreases ls.len(),
{
    if ls.len() == 0 {
        None
    } else if trim_spec(ls[0]).len() > 0 {
        Some(trim_spec(ls[0]))
    } else {
        first_nonempty_line(ls.drop_first())
    }
}

/// The executable path inside a lookup tool's answer: on Windows,
/// `where` may print several lines and the first non-empty one wins; on
/// Unix, `which` prints one path, taken when non-empty.
pub fn command_path_from_output(is_windows: bool, output: &str) -> (r: Option<String>)
    ensures
        is_windows ==> ((r is Some) == (first_nonempty_line(split_lines_spec(output@)) is Some)
            && (r matches Some(x) ==> first_nonempty_line(
            split_lines_spec(output@),
        ) matches Some(y) && x@ == y)),
        !is_windows ==> ((r is Some) == (trim_spec(output@).len() > 0) && (r matches Some(x)
            ==> x@ == trim_spec(output@))),
{
    if !is_windows {
        return latest_version_from_output(output);
    }
    let v = str_to_chars(output);
    let ls = split_lines(&v);
    let ghost lss = split_lines_spec(output@);
    let n = ls.len();
    let mut i: usize = 0;
    proof {
        assert(lss.subrange(0, n as int) =~= lss);
    }
    while i < n
        invariant
            is_windows,
            lss == split_lines_spec(output@),
            n == ls@.len() == lss.len(),
            forall|k: int| 0 <= k < n ==> ls@[k]@ == lss[k],
            i <= n,
            first_nonempty_line(lss) == first_nonempty_line(lss.subrange(i as int, n as int)),
        decreases n - i,
    {
        proof {
            let rest = lss.subrange(i as int, n as int);
            assert(rest[0] == lss[i as int]);
            assert(rest.drop_first() =~= lss.subrange(i + 1, n as int));
            assert(ls@[i as int]@ == lss[i as int]);
        }
        let t = trim_chars(&ls[i]);
        if t.len() > 0 {
            return Some(chars_to_string(&t));
        }
        i += 1;
    }
    None
}

} // verus!
