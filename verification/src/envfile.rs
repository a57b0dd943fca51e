//! Reading and editing the `export KEY="VALUE"` lines of an environment
//! file.
//!
//! The functions here work on the file's text; reading the file from disk
//! and writing it back belong to the surrounding application.  A lookup
//! scans for the first `export KEY=` line and unquotes its value; an
//! update replaces the first such line, or appends one; a removal drops
//! every such line.  Loading turns the whole file into key/value pairs
//! the way a shell `source` of it would.

use vstd::prelude::*;

verus! {

use crate::text::{
    str_to_chars,
    chars_to_string,
    trim_chars,
    trim_spec,
    subvec,
    starts_with_chars,
    starts_with_spec,
    trim_char_spec,
    trim_char_chars,
    strip_prefix_rep,
    strip_prefix_rep_chars,
    find_char,
    first_index_of,
};
use crate::lines::{split_lines_spec, split_lines, join_nl_spec, join_lines};

/// The marker that an environment line for `key` starts with.
pub open spec fn env_prefix(key: Seq<char>) -> Seq<char> {
    "export "@ + key + seq!['=']
}

/// The marker as a character vector, built in executable code.
fn env_prefix_chars(key: &str) -> (p: Vec<char>)
    ensures
        p@ == env_prefix(key@),
        p@.len() > 0,
{
    let mut p = str_to_chars("export ");
    let k = str_to_chars(key);
    let mut i: usize = 0;
    while i < k.len()
        invariant
            i <= k@.len(),
            k@ == key@,
            p@ == "export "@ + k@.subrange(0, i as int),
        decreases k@.len() - i,
    {
        p.push(k[i]);
        i += 1;
        proof {
            assert(p@ =~= "export "@ + k@.subrange(0, i as int));
        }
    }
    p.push('=');
    proof {
        assert(k@.subrange(0, k@.len() as int) =~= k@);
        assert(p@ =~= "export "@ + key@ + seq!['=']);
    }
    p
}

/// The value carried by a matched, trimmed line: the text after the
/// marker, with surrounding double quotes and then single quotes removed.
pub open spec fn env_value_of(t: Seq<char>, key: Seq<char>) -> Seq<char> {
    trim_char_spec(trim_char_spec(strip_prefix_rep(t, env_prefix(key)), '"'), '\'')
}

/// The value of `key` read from the lines `ls`: the first line whose
/// trimmed text starts with `export KEY=` decides.
pub open spec fn read_env_lines(ls: Seq<Seq<char>>, key: Seq<char>) -> Option<Seq<char>>
    decreases ls.len(),
{
    if ls.len() == 0 {
        None
    } else if starts_with_spec(trim_spec(ls[0]), env_prefix(key)) {
        Some(env_value_of(trim_spec(ls[0]), key))
    } else {
        read_env_lines(ls.drop_first(), key)
    }
}

/// What `read_env_value` yields on the file text `content`.
pub open spec fn read_env_value_spec(content: Seq<char>, key: Seq<char>) -> Option<Seq<char>> {
    read_env_lines(split_lines_spec(content), key)
}

/// The value of `key` in the environment-file text `content`: from the
/// first line whose trimmed text starts with `export KEY=`, the remainder
/// with surrounding quotes removed — or `None` when no line matches.
pub fn read_env_value(content: &str, key: &str) -> (r: Option<String>)
    ensures
        (r is Some) == (read_env_value_spec(content@, key@) is Some),
        r matches Some(x) ==> read_env_value_spec(content@, key@) matches Some(y) && x@ == y,
{
    let prefix = env_prefix_chars(key);
    let v = str_to_chars(content);
    let ls = split_lines(&v);
    let ghost lss = split_lines_spec(content@);
    let n = ls.len();
    let mut i: usize = 0;
    proof {
        assert(lss.subrange(0, n as int) =~= lss);
    }
    while i < n
        invariant
            lss == split_lines_spec(content@),
            n == ls@.len() == lss.len(),
            forall|k: int| 0 <= k < n ==> ls@[k]@ == lss[k],
            i <= n,
            prefix@ == env_prefix(key@),
            prefix@.len() > 0,
            read_env_lines(lss, key@) == read_env_lines(
                lss.subrange(i as int, n as int),
                key@,
            ),
        decreases n - i,
    {
        proof {
            let rest = lss.subrange(i as int, n as int);
            assert(rest[0] == lss[i as int]);
            assert(rest.drop_first() =~= lss.subrange(i + 1, n as int));
        }
        let t = trim_chars(&ls[i]);
        if starts_with_chars(&t, &prefix) {
            let stripped = strip_prefix_rep_chars(&t, &prefix);
            let unq = trim_char_chars(&stripped, '"');
            let unq2 = trim_char_chars(&unq, '\'');
            proof {
                assert(ls@[i as int]@ == lss[i as int]);
                assert(unq2@ == env_value_of(trim_spec(lss[i as int]), key@));
            }
            return Some(chars_to_string(&unq2));
        }
        i += 1;
    }
    None
}

/// The replacement line that an update writes for `key` and `value`.
pub open spec fn new_env_line(key: Seq<char>, value: Seq<char>) -> Seq<char> {
    env_prefix(key) + seq!['"'] + value + seq!['"']
}

/// The lines after setting `key` to `value`: the first line that starts
/// with `export KEY=` (untrimmed, exactly as the file holds it) is
/// replaced; when none does, the new line is appended.
pub open spec fn set_env_lines(ls: Seq<Seq<char>>, key: Seq<char>, value: Seq<char>) -> Seq<
    Seq<char>,
>
    decreases ls.len(),
{
    if ls.len() == 0 {
        seq![new_env_line(key, value)]
    } else if starts_with_spec(ls[0], env_prefix(key)) {
        seq![new_env_line(key, value)] + ls.drop_first()
    } else {
        seq![ls[0]] + set_env_lines(ls.drop_first(), key, value)
    }
}

/// What `set_env_value` yields on the file text `content`.
pub open spec fn set_env_value_spec(content: Seq<char>, key: Seq<char>, value: Seq<char>) -> Seq<
    char,
> {
    join_nl_spec(set_env_lines(split_lines_spec(content), key, value))
}

/// The new line as a character vector.
fn new_env_line_chars(key: &str, value: &str) -> (l: Vec<char>)
    ensures
        l@ == new_env_line(key@, value@),
{
    let mut l = env_prefix_chars(key);
    l.push('"');
    let v = str_to_chars(value);
    let mut i: usize = 0;
    while i < v.len()
        invariant
            i <= v@.len(),
            v@ == value@,
            l@ == env_prefix(key@) + seq!['"'] + v@.subrange(0, i as int),
        decreases v@.len() - i,
    {
        l.push(v[i]);
        i += 1;
        proof {
            assert(l@ =~= env_prefix(key@) + seq!['"'] + v@.subrange(0, i as int));
        }
    }
    l.push('"');
    proof {
        assert(v@.subrange(0, v@.len() as int) =~= v@);
        assert(l@ =~= new_env_line(key@, value@));
    }
    l
}

/// The file text after setting `key` to `value`: the first `export KEY=`
/// line is replaced by `export KEY="VALUE"`, or that line is appended when
/// no line starts with the marker.  All other lines stay as they are.
pub fn set_env_value(content: &str, key: &str, value: &str) -> (r: String)
    ensures
        r@ == set_env_value_spec(content@, key@, value@),
{
    let prefix = env_prefix_chars(key);
    let v = str_to_chars(content);
    let ls = split_lines(&v);
    let ghost lss = split_lines_spec(content@);
    let n = ls.len();
    let mut out: Vec<Vec<char>> = Vec::new();
    let ghost mut done: Seq<Seq<char>> = Seq::empty();
    let mut found = false;
    let mut i: usize = 0;
    proof {
        assert(lss.subrange(0, n as int) =~= lss);
        assert(done + set_env_lines(lss, key@, value@) =~= set_env_lines(lss, key@, value@));
    }
    while i < n
        invariant
            lss == split_lines_spec(content@),
            n == ls@.len() == lss.len(),
            forall|k: int| 0 <= k < n ==> ls@[k]@ == lss[k],
            i <= n,
            prefix@ == env_prefix(key@),
            out@.len() == done.len(),
            forall|k: int| 0 <= k < out@.len() ==> out@[k]@ == done[k],
            !found ==> set_env_lines(lss, key@, value@) == done + set_env_lines(
                lss.subrange(i as int, n as int),
                key@,
                value@,
            ),
            found ==> set_env_lines(lss, key@, value@) == done + lss.subrange(i as int, n as int),
        decreases n - i,
    {
        proof {
            let rest = lss.subrange(i as int, n as int);
            assert(rest[0] == lss[i as int]);
            assert(rest.drop_first() =~= lss.subrange(i + 1, n as int));
            assert(ls@[i as int]@ == lss[i as int]);
        }
        if !found && starts_with_chars(&ls[i], &prefix) {
            let nl = new_env_line_chars(key, value);
            proof {
                let prev = done;
                done = prev.push(new_env_line(key@, value@));
                assert(prev + (seq![new_env_line(key@, value@)] + lss.subrange(i + 1, n as int))
                    =~= done + lss.subrange(i + 1, n as int));
            }
            out.push(nl);
            found = true;
        } else {
            let line = subvec(&ls[i], 0, ls[i].len());
            proof {
                let prev = done;
                done = prev.push(lss[i as int]);
                assert(line@ =~= lss[i as int]);
                if found {
                    assert(prev + lss.subrange(i as int, n as int) =~= done + lss.subrange(
                        i + 1,
                        n as int,
                    ));
                } else {
                    assert(prev + (seq![lss[i as int]] + set_env_lines(
                        lss.subrange(i + 1, n as int),
                        key@,
                        value@,
                    )) =~= done + set_env_lines(lss.subrange(i + 1, n as int), key@, value@));
                }
            }
            out.push(line);
        }
        i += 1;
    }
    if !found {
        let nl = new_env_line_chars(key, value);
        proof {
            let prev = done;
            done = prev.push(new_env_line(key@, value@));
            assert(set_env_lines(lss.subrange(n as int, n as int), key@, value@) =~= seq![
                new_env_line(key@, value@),
            ]);
            assert(prev + seq![new_env_line(key@, value@)] =~= done);
        }
        out.push(nl);
    } else {
        proof {
            assert(done + lss.subrange(n as int, n as int) =~= done);
        }
    }
    let joined = join_lines(&out, 0, out.len());
    proof {
        assert(out@.subrange(0, out@.len() as int).map_values(|l: Vec<char>| l@) =~= done);
    }
    chars_to_string(&joined)
}

/// The lines after removing `key`: every line that starts with
/// `export KEY=` is dropped.
pub open spec fn remove_env_lines(ls: Seq<Seq<char>>, key: Seq<char>) -> Seq<Seq<char>>
    decreases ls.len(),
{
    if ls.len() == 0 {
        Seq::<Seq<char>>::empty()
    } else if starts_with_spec(ls[0], env_prefix(key)) {
        remove_env_lines(ls.drop_first(), key)
    } else {
        seq![ls[0]] + remove_env_lines(ls.drop_first(), key)
    }
}

/// What `remove_env_value` yields on the file text `content`.
pub open spec fn remove_env_value_spec(content: Seq<char>, key: Seq<char>) -> Seq<char> {
    join_nl_spec(remove_env_lines(split_lines_spec(content), key))
}

/// The file text with every `export KEY=` line removed; all other lines
/// stay in order.
pub fn remove_env_value(content: &str, key: &str) -> (r: String)
    ensures
        r@ == remove_env_value_spec(content@, key@),
{
    let prefix = env_prefix_chars(key);
    let v = str_to_chars(content);
    let ls = split_lines(&v);
    let ghost lss = split_lines_spec(content@);
    let n = ls.len();
    let mut out: Vec<Vec<char>> = Vec::new();
    let ghost mut done: Seq<Seq<char>> = Seq::empty();
    let mut i: usize = 0;
    proof {
        assert(lss.subrange(0, n as int) =~= lss);
        assert(done + remove_env_lines(lss, key@) =~= remove_env_lines(lss, key@));
    }
    while i < n
        invariant
            lss == split_lines_spec(content@),
            n == ls@.len() == lss.len(),
            forall|k: int| 0 <= k < n ==> ls@[k]@ == lss[k],
            i <= n,
            prefix@ == env_prefix(key@),
            out@.len() == done.len(),
            forall|k: int| 0 <= k < out@.len() ==> out@[k]@ == done[k],
            remove_env_lines(lss, key@) == done + remove_env_lines(
                lss.subrange(i as int, n as int),
                key@,
            ),
        decreases n - i,
    {
        proof {
            let rest = lss.subrange(i as int, n as int);
            assert(rest[0] == lss[i as int]);
            assert(rest.drop_first() =~= lss.subrange(i + 1, n as int));
            assert(ls@[i as int]@ == lss[i as int]);
        }
        if !starts_with_chars(&ls[i], &prefix) {
            let line = subvec(&ls[i], 0, ls[i].len());
            proof {
                let prev = done;
                done = prev.push(lss[i as int]);
                assert(line@ =~= lss[i as int]);
                assert(prev + (seq![lss[i as int]] + remove_env_lines(
                    lss.subrange(i + 1, n as int),
                    key@,
                )) =~= done + remove_env_lines(lss.subrange(i + 1, n as int), key@));
            }
            out.push(line);
        }
        i += 1;
    }
    proof {
        assert(remove_env_lines(lss.subrange(n as int, n as int), key@) =~= Seq::<Seq<
            char,
        >>::empty());
        assert(done + Seq::<Seq<char>>::empty() =~= done);
    }
    let joined = join_lines(&out, 0, out.len());
    proof {
        assert(out@.subrange(0, out@.len() as int).map_values(|l: Vec<char>| l@) =~= done);
    }
    chars_to_string(&joined)
}

/// The key/value pair carried by one trimmed, non-comment line, if it
/// holds an `=`: an optional single `export ` marker is dropped, the key
/// is the trimmed text before the first `=`, and the value is the trimmed
/// text after it with surrounding double and then single quotes removed.
pub open spec fn env_pair_of(t: Seq<char>) -> Option<(Seq<char>, Seq<char>)> {
    let u = if starts_with_spec(t, "export "@) {
        t.subrange("export "@.len() as int, t.len() as int)
    } else {
        t
    };
    let j = first_index_of(u, '=');
    if j < u.len() {
        Some(
            (
                trim_spec(u.subrange(0, j as int)),
                trim_char_spec(
                    trim_char_spec(trim_spec(u.subrange(j as int + 1, u.len() as int)), '"'),
                    '\'',
                ),
            ),
        )
    } else {
        None
    }
}

/// The key/value pairs of the lines `ls`, in file order; empty lines,
/// comment lines and lines without `=` carry none.
pub open spec fn env_pairs(ls: Seq<Seq<char>>) -> Seq<(Seq<char>, Seq<char>)>
    decreases ls.len(),
{
    if ls.len() == 0 {
        Seq::<(Seq<char>, Seq<char>)>::empty()
    } else {
        let t = trim_spec(ls[0]);
        let rest = env_pairs(ls.drop_first());
        if t.len() == 0 || t[0] == '#' {
            rest
        } else {
            match env_pair_of(t) {
                None => rest,
                Some(p) => seq![p] + rest,
            }
        }
    }
}

/// All key/value pairs of the environment-file text, in file order, read
/// the way a shell `source` of the file would read them: one pair per
/// non-empty, non-comment line of the form `KEY=VALUE` or
/// `export KEY=VALUE`, values unquoted.  A key that occurs twice yields
/// two pairs; applying them in order leaves the later value in force.
pub fn load_openclaw_env_vars(content: &str) -> (r: Vec<(String, String)>)
    ensures
        r@.len() == env_pairs(split_lines_spec(content@)).len(),
        forall|k: int|
            0 <= k < r@.len() ==> r@[k].0@ == env_pairs(split_lines_spec(content@))[k].0
                && r@[k].1@ == env_pairs(split_lines_spec(content@))[k].1,
{
    let exp = str_to_chars("export ");
    let v = str_to_chars(content);
    let ls = split_lines(&v);
    let ghost lss = split_lines_spec(content@);
    let n = ls.len();
    let mut out: Vec<(String, String)> = Vec::new();
    let ghost mut done: Seq<(Seq<char>, Seq<char>)> = Seq::empty();
    let mut i: usize = 0;
    proof {
        assert(lss.subrange(0, n as int) =~= lss);
        assert(done + env_pairs(lss) =~= env_pairs(lss));
    }
    while i < n
        invariant
            lss == split_lines_spec(content@),
            n == ls@.len() == lss.len(),
            forall|k: int| 0 <= k < n ==> ls@[k]@ == lss[k],
            i <= n,
            exp@ == "export "@,
            out@.len() == done.len(),
            forall|k: int|
                0 <= k < out@.len() ==> out@[k].0@ == done[k].0 && out@[k].1@ == done[k].1,
            env_pairs(lss) == done + env_pairs(lss.subrange(i as int, n as int)),
        decreases n - i,
    {
        proof {
            let rest = lss.subrange(i as int, n as int);
            assert(rest[0] == lss[i as int]);
            assert(rest.drop_first() =~= lss.subrange(i + 1, n as int));
            assert(ls@[i as int]@ == lss[i as int]);
        }
        let t = trim_chars(&ls[i]);
        if t.len() > 0 && t[0] != '#' {
            let u = if starts_with_chars(&t, &exp) {
                subvec(&t, exp.len(), t.len())
            } else {
                subvec(&t, 0, t.len())
            };
            proof {
                let ts = trim_spec(lss[i as int]);
                if starts_with_spec(ts, "export "@) {
                    assert(u@ == ts.subrange("export "@.len() as int, ts.len() as int));
                } else {
                    assert(u@ =~= ts);
                }
            }
            let j = find_char(&u, '=');
            if j < u.len() {
                let key_part = subvec(&u, 0, j);
                let key = trim_chars(&key_part);
                let val_part = subvec(&u, j + 1, u.len());
                let val_t = trim_chars(&val_part);
                let val_q = trim_char_chars(&val_t, '"');
                let val = trim_char_chars(&val_q, '\'');
                proof {
                    let ts = trim_spec(lss[i as int]);
                    let p = env_pair_of(ts);
                    assert(p matches Some(q) && key@ == q.0 && val@ == q.1);
                    let prev = done;
                    done = prev.push(p->0);
                    assert(prev + (seq![p->0] + env_pairs(lss.subrange(i + 1, n as int))) =~= done
                        + env_pairs(lss.subrange(i + 1, n as int)));
                }
                out.push((chars_to_string(&key), chars_to_string(&val)));
            }
        }
        i += 1;
    }
    proof {
        assert(env_pairs(lss.subrange(n as int, n as int)) =~= Seq::<(Seq<char>, Seq<
            char,
        >)>::empty());
        assert(done + Seq::<(Seq<char>, Seq<char>)>::empty() =~= done);
    }
    out
}

} // verus!
