//! Splitting text into lines and joining lines back together.
//!
//! Lines end at `\n`; a line ending of `\r\n` loses its `\r`, and a final
//! line ending is optional — the semantics of `str::lines`.  Joining puts a
//! single `\n` between lines, which is how an extracted block of lines is
//! turned back into one piece of text.

use vstd::prelude::*;

verus! {

use crate::text::subvec;

/// Offset of the first `\n` in `s`, or `s.len()` when there is none.
pub open spec fn first_nl(s: Seq<char>) -> nat
    decreases s.len(),
{
    if s.len() == 0 {
        0
    } else if s[0] == '\n' {
        0
    } else {
        1 + first_nl(s.drop_first())
    }
}

/// `first_nl` points at a `\n` within `s`, or just past the end.
pub proof fn lemma_first_nl(s: Seq<char>)
    ensures
        first_nl(s) <= s.len(),
        first_nl(s) < s.len() ==> s[first_nl(s) as int] == '\n',
        forall|j: int| 0 <= j < first_nl(s) ==> s[j] != '\n',
    decreases s.len(),
{
    if s.len() == 0 {
    } else if s[0] == '\n' {
    } else {
        lemma_first_nl(s.drop_first());
        assert forall|j: int| 0 <= j < first_nl(s) implies s[j] != '\n' by {
            if j > 0 {
                assert(s.drop_first()[j - 1] == s[j]);
            }
        }
    }
}

/// `first_nl` of a text whose first `\n`, if any, is known to stand at `m`.
pub proof fn lemma_first_nl_at(s: Seq<char>, m: int)
    requires
        0 <= m <= s.len(),
        forall|j: int| 0 <= j < m ==> s[j] != '\n',
        m < s.len() ==> s[m] == '\n',
    ensures
        first_nl(s) == m,
    decreases s.len(),
{
    if s.len() == 0 {
    } else if s[0] == '\n' {
    } else {
        assert forall|j: int| 0 <= j < m - 1 implies s.drop_first()[j] != '\n' by {
            assert(s.drop_first()[j] == s[j + 1]);
        }
        assert(m - 1 < s.drop_first().len() ==> s.drop_first()[m - 1] == '\n');
        lemma_first_nl_at(s.drop_first(), m - 1);
    }
}

/// A line with one trailing carriage return removed, as happens to a line
/// that ended in `\r\n`.
pub open spec fn strip_cr(l: Seq<char>) -> Seq<char> {
    if l.len() > 0 && l.last() == '\r' {
        l.drop_last()
    } else {
        l
    }
}

/// The lines of `s`, in order: split at every `\n`, a terminated line loses
/// one trailing `\r`, and a final line ending yields no empty last line.
pub open spec fn split_lines_spec(s: Seq<char>) -> Seq<Seq<char>>
    decreases s.len(),
    via split_lines_spec_decreases
{
    if s.len() == 0 {
        Seq::<Seq<char>>::empty()
    } else {
        let k = first_nl(s) as int;
        if k == s.len() {
            seq![s]
        } else {
            seq![strip_cr(s.subrange(0, k))] + split_lines_spec(
                s.subrange(k + 1, s.len() as int),
            )
        }
    }
}

#[via_fn]
proof fn split_lines_spec_decreases(s: Seq<char>) {
    lemma_first_nl(s);
}

/// The lines joined with a single `\n` between each pair.
pub open spec fn join_nl_spec(ls: Seq<Seq<char>>) -> Seq<char>
    decreases ls.len(),
{
    if ls.len() == 0 {
        Seq::<char>::empty()
    } else if ls.len() == 1 {
        ls[0]
    } else {
        ls[0] + seq!['\n'] + join_nl_spec(ls.drop_first())
    }
}

/// Joining one more line appends a separator and that line.
pub proof fn lemma_join_nl_snoc(ls: Seq<Seq<char>>, l: Seq<char>)
    ensures
        ls.len() == 0 ==> join_nl_spec(ls.push(l)) == l,
        ls.len() > 0 ==> join_nl_spec(ls.push(l)) == join_nl_spec(ls) + seq!['\n'] + l,
    decreases ls.len(),
{
    if ls.len() == 0 {
        assert(ls.push(l)[0] == l);
        assert(join_nl_spec(ls.push(l)) == l);
    } else if ls.len() == 1 {
        assert(ls.push(l).drop_first() =~= seq![l]);
        assert(join_nl_spec(ls.push(l)) == ls.push(l)[0] + seq!['\n'] + join_nl_spec(seq![l]));
        assert(ls.push(l)[0] == ls[0]);
        assert(join_nl_spec(seq![l]) == l);
    } else {
        lemma_join_nl_snoc(ls.drop_first(), l);
        assert(ls.push(l).drop_first() =~= ls.drop_first().push(l));
        assert(ls.push(l)[0] == ls[0]);
        assert(join_nl_spec(ls.push(l)) == ls[0] + seq!['\n'] + join_nl_spec(
            ls.drop_first().push(l),
        ));
        assert(ls[0] + seq!['\n'] + (join_nl_spec(ls.drop_first()) + seq!['\n'] + l) =~= (ls[0]
            + seq!['\n'] + join_nl_spec(ls.drop_first())) + seq!['\n'] + l);
    }
}

/// Index of the first `\n` in `v` at or after `from`, or `v.len()` if none.
fn find_nl(v: &Vec<char>, from: usize) -> (k: usize)
    requires
        from <= v@.len(),
    ensures
        from <= k <= v@.len(),
        k < v@.len() ==> v@[k as int] == '\n',
        forall|j: int| from <= j < k ==> v@[j] != '\n',
{
    let n = v.len();
    let mut i: usize = from;
    while i < n
        invariant
            from <= i <= n == v@.len(),
            forall|j: int| from <= j < i ==> v@[j] != '\n',
        decreases n - i,
    {
        if v[i] == '\n' {
            return i;
        }
        i += 1;
    }
    i
}

/// The lines of `v`, each as its own character vector.
pub fn split_lines(v: &Vec<char>) -> (r: Vec<Vec<char>>)
    ensures
        r@.len() == split_lines_spec(v@).len(),
        forall|i: int| 0 <= i < r@.len() ==> r@[i]@ == split_lines_spec(v@)[i],
{
    let n = v.len();
    let mut r: Vec<Vec<char>> = Vec::new();
    let mut pos: usize = 0;
    let ghost mut done: Seq<Seq<char>> = Seq::empty();
    proof {
        assert(v@.subrange(0, n as int) =~= v@);
        assert(done + split_lines_spec(v@) =~= split_lines_spec(v@));
    }
    while pos < n
        invariant
            pos <= n == v@.len(),
            r@.len() == done.len(),
            forall|i: int| 0 <= i < r@.len() ==> r@[i]@ == done[i],
            split_lines_spec(v@) == done + split_lines_spec(v@.subrange(pos as int, n as int)),
        decreases n - pos,
    {
        let k = find_nl(v, pos);
        proof {
            let s = v@.subrange(pos as int, n as int);
            assert forall|j: int| 0 <= j < k - pos implies s[j] != '\n' by {
                assert(s[j] == v@[pos + j]);
            }
            if k < n {
                assert(s[k - pos] == v@[k as int]);
            }
            lemma_first_nl_at(s, k - pos);
        }
        if k >= n {
            let line = subvec(v, pos, n);
            proof {
                let s = v@.subrange(pos as int, n as int);
                let prev = done;
                done = prev.push(s);
                assert(split_lines_spec(s) == seq![s]);
                assert(prev + seq![s] =~= done);
                assert(split_lines_spec(v@.subrange(n as int, n as int)) =~= Seq::<Seq<
                    char,
                >>::empty());
                assert(done + Seq::<Seq<char>>::empty() =~= done);
            }
            r.push(line);
            pos = n;
        } else {
            let mut line = subvec(v, pos, k);
            if line.len() > 0 && line[line.len() - 1] == '\r' {
                line.pop();
            }
            proof {
                let s = v@.subrange(pos as int, n as int);
                let k0 = k - pos;
                let old_line = v@.subrange(pos as int, k as int);
                assert(s.subrange(0, k0) =~= old_line);
                assert(s.subrange(k0 + 1, s.len() as int) =~= v@.subrange(k + 1, n as int));
                assert(split_lines_spec(s) == seq![strip_cr(old_line)] + split_lines_spec(
                    v@.subrange(k + 1, n as int),
                ));
                assert(line@ =~= strip_cr(old_line));
                let prev = done;
                done = prev.push(strip_cr(old_line));
                assert(prev + (seq![strip_cr(old_line)] + split_lines_spec(
                    v@.subrange(k + 1, n as int),
                )) =~= done + split_lines_spec(v@.subrange(k + 1, n as int)));
            }
            r.push(line);
            pos = k + 1;
        }
    }
    proof {
        assert(split_lines_spec(v@.subrange(n as int, n as int)) =~= Seq::<Seq<char>>::empty());
        assert(done + split_lines_spec(v@.subrange(pos as int, n as int)) =~= done);
    }
    r
}

/// The lines `ls[from .. to]` joined with `\n` separators.
pub fn join_lines(ls: &Vec<Vec<char>>, from: usize, to: usize) -> (r: Vec<char>)
    requires
        from <= to <= ls@.len(),
    ensures
        r@ == join_nl_spec(ls@.subrange(from as int, to as int).map_values(|l: Vec<char>| l@)),
{
    let mut r: Vec<char> = Vec::new();
    let mut i: usize = from;
    proof {
        assert(ls@.subrange(from as int, from as int).map_values(|l: Vec<char>| l@) =~= Seq::<Seq<
            char,
        >>::empty());
    }
    while i < to
        invariant
            from <= i <= to <= ls@.len(),
            r@ == join_nl_spec(ls@.subrange(from as int, i as int).map_values(|l: Vec<char>| l@)),
        decreases to - i,
    {
        proof {
            let prev = ls@.subrange(from as int, i as int).map_values(|l: Vec<char>| l@);
            let next = ls@.subrange(from as int, i + 1).map_values(|l: Vec<char>| l@);
            assert(next =~= prev.push(ls@[i as int]@));
            lemma_join_nl_snoc(prev, ls@[i as int]@);
        }
        if i > from {
            r.push('\n');
        }
        let line = &ls[i];
        let mut j: usize = 0;
        let ghost r_before = r@;
        while j < line.len()
            invariant
                j <= line@.len(),
                r@ == r_before + line@.subrange(0, j as int),
            decreases line@.len() - j,
        {
            r.push(line[j]);
            j += 1;
            proof {
                assert(r@ =~= r_before + line@.subrange(0, j as int));
            }
        }
        proof {
            assert(r_before + line@.subrange(0, line@.len() as int) =~= r_before + line@);
        }
        i += 1;
        proof {
            let prev = ls@.subrange(from as int, i - 1).map_values(|l: Vec<char>| l@);
            if prev.len() == 0 {
                assert(r@ =~= Seq::<char>::empty() + line@);
                assert(Seq::<char>::empty() + line@ =~= line@);
            } else {
                assert(r@ =~= join_nl_spec(prev) + seq!['\n'] + line@);
            }
        }
    }
    r
}

} // verus!
