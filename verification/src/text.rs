//! Whitespace tokenisation, single-space joining, and line splitting.
//!
//! Matching lines are rendered by splitting them into whitespace-delimited
//! tokens and re-joining the tokens with single spaces, which collapses runs
//! of internal whitespace.

use vstd::prelude::*;

verus! {

/// A Unicode white-space character: the `White_Space` property, the set that
/// `str::split_whitespace` splits on.
pub open spec fn is_space(c: char) -> bool {
    let u = c as u32;
    (0x09 <= u && u <= 0x0D) || u == 0x20 || u == 0x85 || u == 0xA0 || u == 0x1680 || (0x2000
        <= u && u <= 0x200A) || u == 0x2028 || u == 0x2029 || u == 0x202F || u == 0x205F || u
        == 0x3000
}

pub fn is_space_char(c: char) -> (r: bool)
    ensures
        r == is_space(c),
{
    let u = c as u32;
    (0x09 <= u && u <= 0x0D) || u == 0x20 || u == 0x85 || u == 0xA0 || u == 0x1680 || (0x2000 <= u
        && u <= 0x200A) || u == 0x2028 || u == 0x2029 || u == 0x202F || u == 0x205F || u == 0x3000
}

/// Length of the maximal non-space prefix of `s`.
pub open spec fn first_token_len(s: Seq<char>) -> nat
    decreases s.len(),
{
    if s.len() == 0 || is_space(s[0]) {
        0
    } else {
        1 + first_token_len(s.skip(1))
    }
}

proof fn lemma_first_token_len_le(s: Seq<char>)
    ensures
        first_token_len(s) <= s.len(),
    decreases s.len(),
{
    if s.len() != 0 && !is_space(s[0]) {
        lemma_first_token_len_le(s.skip(1));
    }
}

/// The whitespace-delimited tokens of `s`, in order.
pub open spec fn tokens_of(s: Seq<char>) -> Seq<Seq<char>>
    decreases s.len(),
    via tokens_of_decreases
{
    if s.len() == 0 {
        Seq::empty()
    } else if is_space(s[0]) {
        tokens_of(s.skip(1))
    } else {
        seq![s.take(first_token_len(s) as int)] + tokens_of(s.skip(first_token_len(s) as int))
    }
}

#[via_fn]
proof fn tokens_of_decreases(s: Seq<char>) {
    if s.len() != 0 && !is_space(s[0]) {
        lemma_first_token_len_le(s);
        assert(first_token_len(s) >= 1);
    }
}

/// The tokens joined back together with a single space between them.
pub open spec fn join_space(ts: Seq<Seq<char>>) -> Seq<char>
    decreases ts.len(),
{
    if ts.len() == 0 {
        Seq::empty()
    } else if ts.len() == 1 {
        ts[0]
    } else {
        ts[0] + seq![' '] + join_space(ts.skip(1))
    }
}

/// `s` with every colon character removed.
pub open spec fn strip_colons(s: Seq<char>) -> Seq<char>
    decreases s.len(),
{
    if s.len() == 0 {
        Seq::empty()
    } else if s.last() == ':' {
        strip_colons(s.drop_last())
    } else {
        strip_colons(s.drop_last()).push(s.last())
    }
}

/// One trailing carriage return removed, as `str::lines` does per line.
pub open spec fn strip_cr(s: Seq<char>) -> Seq<char> {
    if s.len() > 0 && s.last() == '\r' {
        s.drop_last()
    } else {
        s
    }
}

/// Number of characters of `s` before its first newline (or all of them).
pub open spec fn first_line_len(s: Seq<char>) -> nat
    decreases s.len(),
{
    if s.len() == 0 || s[0] == '\n' {
        0
    } else {
        1 + first_line_len(s.skip(1))
    }
}

proof fn lemma_first_line_len_le(s: Seq<char>)
    ensures
        first_line_len(s) <= s.len(),
    decreases s.len(),
{
    if s.len() != 0 && s[0] != '\n' {
        lemma_first_line_len_le(s.skip(1));
    }
}

/// The lines of `s`: split at `'\n'`, terminators discarded, one trailing
/// `'\r'` stripped per line, and no empty final line after a trailing
/// newline — the splitting that `str::lines` performs.
pub open spec fn lines_of(s: Seq<char>) -> Seq<Seq<char>>
    decreases s.len(),
    via lines_of_decreases
{
    if s.len() == 0 {
        Seq::empty()
    } else {
        let n = first_line_len(s) as int;
        if n == s.len() {
            seq![strip_cr(s.take(n))]
        } else {
            seq![strip_cr(s.take(n))] + lines_of(s.skip(n + 1))
        }
    }
}

#[via_fn]
proof fn lines_of_decreases(s: Seq<char>) {
    if s.len() != 0 {
        lemma_first_line_len_le(s);
    }
}

/// Relies on `str::chars`: the characters of the string, in order.
#[verifier::external_body]
pub fn str_to_chars(s: &str) -> (r: Vec<char>)
    ensures
        r@ == s@,
{
    s.chars().collect()
}

/// Relies on `FromIterator<char> for String`: the string holding exactly
/// these characters, in order.
#[verifier::external_body]
pub fn chars_to_string(v: &Vec<char>) -> (r: String)
    ensures
        r@ == v@,
{
    v.iter().collect()
}

proof fn lemma_first_token_len_range(s: Seq<char>, i: int, j: int)
    requires
        0 <= i <= j <= s.len(),
        forall|k: int| i <= k < j ==> !is_space(s[k]),
        j == s.len() || is_space(s[j]),
    ensures
        first_token_len(s.skip(i)) == j - i,
    decreases j - i,
{
    if i == j {
        assert(s.skip(i).len() == 0 || is_space(s.skip(i)[0]));
    } else {
        assert(!is_space(s.skip(i)[0]));
        lemma_first_token_len_range(s, i + 1, j);
        assert(s.skip(i).skip(1) =~= s.skip(i + 1));
    }
}

proof fn lemma_first_line_len_range(s: Seq<char>, i: int, j: int)
    requires
        0 <= i <= j <= s.len(),
        forall|k: int| i <= k < j ==> s[k] != '\n',
        j == s.len() || s[j] == '\n',
    ensures
        first_line_len(s.skip(i)) == j - i,
    decreases j - i,
{
    if i == j {
        assert(s.skip(i).len() == 0 || s.skip(i)[0] == '\n');
    } else {
        assert(s.skip(i)[0] != '\n');
        lemma_first_line_len_range(s, i + 1, j);
        assert(s.skip(i).skip(1) =~= s.skip(i + 1));
    }
}

/// The whitespace-delimited tokens of `s`, as vectors of characters.
pub fn tokenize(s: &Vec<char>) -> (r: Vec<Vec<char>>)
    ensures
        r@.map_values(|t: Vec<char>| t@) == tokens_of(s@),
{
    let ghost sq = s@;
    let mut r: Vec<Vec<char>> = Vec::new();
    let mut i: usize = 0;
    proof {
        assert(sq.skip(0) =~= sq);
        assert(r@.map_values(|t: Vec<char>| t@) =~= Seq::<Seq<char>>::empty());
        assert(Seq::<Seq<char>>::empty() + tokens_of(sq) =~= tokens_of(sq));
    }
    while i < s.len()
        invariant
            0 <= i <= s.len(),
            sq == s@,
            r@.map_values(|t: Vec<char>| t@) + tokens_of(sq.skip(i as int)) == tokens_of(sq),
        decreases s.len() - i,
    {
        if is_space_char(s[i]) {
            proof {
                assert(sq.skip(i as int).skip(1) =~= sq.skip(i + 1));
            }
            i = i + 1;
        } else {
            let start = i;
            let mut tok: Vec<char> = Vec::new();
            while i < s.len() && !is_space_char(s[i])
                invariant
                    start <= i <= s.len(),
                    sq == s@,
                    forall|k: int| start <= k < i ==> !is_space(sq[k]),
                    tok@ == sq.subrange(start as int, i as int),
                decreases s.len() - i,
            {
                let c = s[i];
                tok.push(c);
                proof {
                    assert(tok@ =~= sq.subrange(start as int, i + 1));
                }
                i = i + 1;
            }
            proof {
                lemma_first_token_len_range(sq, start as int, i as int);
                let rest = sq.skip(start as int);
                assert(rest.take(first_token_len(rest) as int) =~= sq.subrange(
                    start as int,
                    i as int,
                ));
                assert(rest.skip(first_token_len(rest) as int) =~= sq.skip(i as int));
                assert(tokens_of(rest) == seq![tok@] + tokens_of(sq.skip(i as int)));
            }
            let ghost old_r = r@;
            r.push(tok);
            proof {
                assert(r@.map_values(|t: Vec<char>| t@) =~= old_r.map_values(|t: Vec<char>| t@)
                    + seq![r@.last()@]);
                assert((old_r.map_values(|t: Vec<char>| t@) + seq![r@.last()@]) + tokens_of(
                    sq.skip(i as int),
                ) =~= old_r.map_values(|t: Vec<char>| t@) + (seq![r@.last()@] + tokens_of(
                    sq.skip(i as int),
                )));
            }
        }
    }
    proof {
        assert(sq.skip(i as int).len() == 0);
        assert(r@.map_values(|t: Vec<char>| t@) + tokens_of(sq.skip(i as int)) =~= r@.map_values(
            |t: Vec<char>| t@,
        ));
    }
    r
}

proof fn lemma_join_space_snoc(ts: Seq<Seq<char>>, t: Seq<char>)
    ensures
        join_space(ts.push(t)) == if ts.len() == 0 {
            t
        } else {
            join_space(ts) + seq![' '] + t
        },
    decreases ts.len(),
{
    if ts.len() == 0 {
        assert(ts.push(t).len() == 1);
        assert(join_space(ts.push(t)) == ts.push(t)[0]);
    } else {
        let p = ts.push(t);
        assert(p.len() >= 2);
        assert(p[0] == ts[0]);
        lemma_join_space_snoc(ts.skip(1), t);
        assert(p.skip(1) =~= ts.skip(1).push(t));
        if ts.len() == 1 {
            assert(ts.skip(1).len() == 0);
            assert(join_space(p) == p[0] + seq![' '] + t);
            assert(join_space(ts) == ts[0]);
        } else {
            assert(join_space(p) == ts[0] + seq![' '] + (join_space(ts.skip(1)) + seq![' '] + t));
            assert(join_space(ts) + seq![' '] + t =~= ts[0] + seq![' '] + (join_space(ts.skip(1))
                + seq![' '] + t));
        }
    }
}

/// The tokens from index `start` on, joined with a single space between
/// consecutive tokens.
pub fn join_tokens(ts: &Vec<Vec<char>>, start: usize) -> (r: Vec<char>)
    requires
        start <= ts@.len(),
    ensures
        r@ == join_space(ts@.map_values(|t: Vec<char>| t@).skip(start as int)),
{
    let ghost tsq = ts@.map_values(|t: Vec<char>| t@).skip(start as int);
    let mut r: Vec<char> = Vec::new();
    let mut i: usize = start;
    while i < ts.len()
        invariant
            start <= i <= ts.len(),
            tsq == ts@.map_values(|t: Vec<char>| t@).skip(start as int),
            r@ == join_space(tsq.take(i - start)),
        decreases ts.len() - i,
    {
        if i > start {
            r.push(' ');
        }
        let mut j: usize = 0;
        let ghost mid = r@;
        while j < ts[i].len()
            invariant
                0 <= j <= ts@[i as int]@.len(),
                i < ts.len(),
                r@ == mid + ts@[i as int]@.take(j as int),
            decreases ts@[i as int]@.len() - j,
        {
            let c = ts[i][j];
            r.push(c);
            proof {
                assert(mid + ts@[i as int]@.take(j + 1) =~= (mid + ts@[i as int]@.take(j as int)).push(
                    ts@[i as int]@[j as int],
                ));
            }
            j = j + 1;
        }
        proof {
            let k = i - start;
            assert(ts@[i as int]@.take(ts@[i as int]@.len() as int) =~= tsq[k]);
            lemma_join_space_snoc(tsq.take(k), tsq[k]);
            assert(tsq.take(k + 1) =~= tsq.take(k).push(tsq[k]));
            if i == start {
                assert(mid =~= Seq::<char>::empty() + Seq::<char>::empty());
                assert(r@ =~= tsq[0]);
            } else {
                assert(r@ =~= join_space(tsq.take(k)) + seq![' '] + tsq[k]);
            }
        }
        i = i + 1;
    }
    proof {
        assert(tsq.take(ts.len() - start) =~= tsq);
    }
    r
}

/// Collapse the whitespace of a line: split it into whitespace-delimited
/// tokens and re-join them with single spaces.
pub fn collapse_whitespace(line: &str) -> (r: String)
    ensures
        r@ == join_space(tokens_of(line@)),
{
    let cs = str_to_chars(line);
    let toks = tokenize(&cs);
    let joined = join_tokens(&toks, 0);
    proof {
        assert(toks@.map_values(|t: Vec<char>| t@).skip(0) =~= tokens_of(line@));
    }
    chars_to_string(&joined)
}

/// `s` with every colon character removed.
pub fn remove_colons(s: &Vec<char>) -> (r: Vec<char>)
    ensures
        r@ == strip_colons(s@),
{
    let mut r: Vec<char> = Vec::new();
    let mut i: usize = 0;
    while i < s.len()
        invariant
            0 <= i <= s.len(),
            r@ == strip_colons(s@.take(i as int)),
        decreases s.len() - i,
    {
        let c = s[i];
        proof {
            assert(s@.take(i + 1).drop_last() =~= s@.take(i as int));
            assert(s@.take(i + 1).last() == s@[i as int]);
        }
        if c != ':' {
            r.push(c);
        }
        i = i + 1;
    }
    proof {
        assert(s@.take(s.len() as int) =~= s@);
    }
    r
}

/// The lines of `content`, split as `str::lines` splits them.
pub fn split_lines(content: &str) -> (r: Vec<String>)
    ensures
        r@.map_values(|l: String| l@) == lines_of(content@),
{
    let cs = str_to_chars(content);
    let ghost sq = cs@;
    let mut r: Vec<String> = Vec::new();
    let mut i: usize = 0;
    proof {
        assert(sq.skip(0) =~= sq);
        assert(r@.map_values(|l: String| l@) =~= Seq::<Seq<char>>::empty());
        assert(Seq::<Seq<char>>::empty() + lines_of(sq) =~= lines_of(sq));
    }
    while i < cs.len()
        invariant
            0 <= i <= cs.len(),
            sq == cs@,
            r@.map_values(|l: String| l@) + lines_of(sq.skip(i as int)) == lines_of(sq),
        decreases cs.len() - i,
    {
        let start = i;
        let mut line: Vec<char> = Vec::new();
        while i < cs.len() && cs[i] != '\n'
            invariant
                start <= i <= cs.len(),
                sq == cs@,
                forall|k: int| start <= k < i ==> sq[k] != '\n',
                line@ == sq.subrange(start as int, i as int),
            decreases cs.len() - i,
        {
            let c = cs[i];
            line.push(c);
            proof {
                assert(line@ =~= sq.subrange(start as int, i + 1));
            }
            i = i + 1;
        }
        proof {
            lemma_first_line_len_range(sq, start as int, i as int);
            let rest = sq.skip(start as int);
            assert(rest.take(first_line_len(rest) as int) =~= sq.subrange(start as int, i as int));
        }
        if line.len() > 0 && line[line.len() - 1] == '\r' {
            line.pop();
            proof {
                assert(line@ =~= strip_cr(sq.subrange(start as int, i as int)));
            }
        }
        assert(line@ == strip_cr(sq.subrange(start as int, i as int)));
        let ghost old_r = r@;
        let s = chars_to_string(&line);
        r.push(s);
        proof {
            let rest = sq.skip(start as int);
            assert(r@.map_values(|l: String| l@) =~= old_r.map_values(|l: String| l@) + seq![
                line@,
            ]);
            if i == cs.len() {
                assert(first_line_len(rest) == rest.len());
                assert(lines_of(rest) == seq![line@]);
                assert(old_r.map_values(|l: String| l@) + seq![line@] =~= old_r.map_values(
                    |l: String| l@,
                ) + lines_of(rest));
            } else {
                assert(rest.skip(first_line_len(rest) as int + 1) =~= sq.skip(i + 1));
                assert(lines_of(rest) == seq![line@] + lines_of(sq.skip(i + 1)));
                assert((old_r.map_values(|l: String| l@) + seq![line@]) + lines_of(sq.skip(i + 1))
                    =~= old_r.map_values(|l: String| l@) + (seq![line@] + lines_of(
                    sq.skip(i + 1),
                )));
            }
        }
        if i < cs.len() {
            i = i + 1;
        }
    }
    proof {
        assert(lines_of(sq.skip(i as int)).len() == 0);
        assert(r@.map_values(|l: String| l@) + lines_of(sq.skip(i as int)) =~= r@.map_values(
            |l: String| l@,
        ));
    }
    r
}

} // verus!
