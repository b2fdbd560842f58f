//! Line splitting as `str::lines` does it: lines end at `\n`, a `\r` just
//! before that `\n` is dropped, and a final line without `\n` is kept as is.
use vstd::prelude::*;

verus! {

/// How many characters precede the first `\n` of `s` (all of them if none).
pub open spec fn line_len(s: Seq<char>) -> nat
    decreases s.len(),
{
    if s.len() == 0 {
        0
    } else if s[0] == '\n' {
        0
    } else {
        1 + line_len(s.drop_first())
    }
}

pub proof fn lemma_line_len_bound(s: Seq<char>)
    ensures
        line_len(s) <= s.len(),
        line_len(s) < s.len() ==> s[line_len(s) as int] == '\n',
        forall|i: int| 0 <= i < line_len(s) ==> s[i] != '\n',
    decreases s.len(),
{
    if s.len() > 0 && s[0] != '\n' {
        lemma_line_len_bound(s.drop_first());
        assert forall|i: int| 0 <= i < line_len(s) implies s[i] != '\n' by {
            if i > 0 {
                assert(s[i] == s.drop_first()[i - 1]);
            }
        }
    }
}

/// `l` without one trailing `\r`.
pub open spec fn strip_cr(l: Seq<char>) -> Seq<char> {
    if l.len() > 0 && l.last() == '\r' {
        l.drop_last()
    } else {
        l
    }
}

/// The first line of a non-empty `s`.
pub open spec fn first_line(s: Seq<char>) -> Seq<char> {
    if line_len(s) < s.len() {
        strip_cr(s.take(line_len(s) as int))
    } else {
        s
    }
}

/// What follows the first line of `s` and its `\n`.
pub open spec fn after_first_line(s: Seq<char>) -> Seq<char> {
    if line_len(s) < s.len() {
        s.skip(line_len(s) as int + 1)
    } else {
        Seq::empty()
    }
}

/// The lines of `s`, as `str::lines` yields them.
pub open spec fn lines_spec(s: Seq<char>) -> Seq<Seq<char>>
    decreases s.len(),
{
    if s.len() == 0 {
        Seq::empty()
    } else {
        proof {
            lemma_line_len_bound(s);
        }
        seq![first_line(s)] + lines_spec(after_first_line(s))
    }
}

/// The line of `v` that starts at `pos`, and where the next one starts.
pub fn next_line(v: &Vec<char>, pos: usize) -> (res: (Vec<char>, usize))
    requires
        pos < v@.len(),
    ensures
        res.0@ == first_line(v@.skip(pos as int)),
        pos < res.1 <= v@.len(),
        v@.skip(res.1 as int) == after_first_line(v@.skip(pos as int)),
{
    let ghost s = v@.skip(pos as int);
    let mut j = pos;
    while j < v.len() && v[j] != '\n'
        invariant
            pos <= j <= v@.len(),
            s == v@.skip(pos as int),
            line_len(s) == (j - pos) + line_len(v@.skip(j as int)),
        decreases v@.len() - j,
    {
        assert(v@.skip(j as int).drop_first() =~= v@.skip(j + 1));
        j = j + 1;
    }
    proof {
        lemma_line_len_bound(s);
        assert(line_len(v@.skip(j as int)) == 0);
    }
    if j < v.len() {
        let mut end = j;
        if end > pos && v[end - 1] == '\r' {
            end = end - 1;
        }
        let line = crate::text::slice_chars(v, pos, end);
        proof {
            assert(s.take(line_len(s) as int) =~= v@.subrange(pos as int, j as int));
            if j > pos && v@[j - 1] == '\r' {
                assert(v@.subrange(pos as int, j as int).drop_last() =~= v@.subrange(
                    pos as int,
                    j - 1,
                ));
            }
            assert(s.skip(line_len(s) as int + 1) =~= v@.skip(j + 1));
        }
        (line, j + 1)
    } else {
        let line = crate::text::slice_chars(v, pos, j);
        proof {
            assert(v@.subrange(pos as int, j as int) =~= s);
            assert(v@.skip(j as int) =~= Seq::<char>::empty());
        }
        (line, j)
    }
}

} // verus!
