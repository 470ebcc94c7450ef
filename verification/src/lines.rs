//! The line model of a byte stream.
//!
//! A stream splits at newline bytes into lines; writing the lines back with
//! exactly one newline after each yields the normalized stream. A trailing
//! run of bytes without a final newline still counts as one line.

use vstd::prelude::*;

verus! {

/// The newline byte that delimits lines.
pub const NL: u8 = 10;

/// Index of the first newline byte in `s`, or `s.len()` when there is none.
pub open spec fn first_nl(s: Seq<u8>) -> nat
    decreases s.len(),
{
    if s.len() == 0 {
        0
    } else if s[0] == NL {
        0
    } else {
        first_nl(s.drop_first()) + 1
    }
}

/// `first_nl` finds the first newline: nothing before it is a newline, and
/// when it lies inside the stream it points at a newline byte.
pub proof fn lemma_first_nl(s: Seq<u8>)
    ensures
        first_nl(s) <= s.len(),
        forall|j: int| 0 <= j < first_nl(s) ==> s[j] != NL,
        first_nl(s) < s.len() ==> s[first_nl(s) as int] == NL,
    decreases s.len(),
{
    if s.len() == 0 {
    } else if s[0] == NL {
    } else {
        lemma_first_nl(s.drop_first());
        assert forall|j: int| 0 <= j < first_nl(s) implies s[j] != NL by {
            if j > 0 {
                assert(s.drop_first()[j - 1] != NL);
            }
        }
    }
}

/// The lines of `s`: the maximal runs of bytes between newline delimiters,
/// without the delimiters themselves. An empty stream has no lines; a
/// trailing run without a final newline is one line.
pub open spec fn lines_of(s: Seq<u8>) -> Seq<Seq<u8>>
    decreases s.len(),
{
    if s.len() == 0 {
        Seq::empty()
    } else if first_nl(s) < s.len() {
        seq![s.take(first_nl(s) as int)] + lines_of(s.skip(first_nl(s) as int + 1))
    } else {
        seq![s]
    }
}

/// The lines written back in order, each followed by a single newline byte.
pub open spec fn join_terminated(ls: Seq<Seq<u8>>) -> Seq<u8>
    decreases ls.len(),
{
    if ls.len() == 0 {
        Seq::empty()
    } else {
        ls.first() + seq![NL] + join_terminated(ls.drop_first())
    }
}

/// The stream rewritten line by line: the same lines in the same order,
/// each terminated by exactly one newline.
pub open spec fn normalized(s: Seq<u8>) -> Seq<u8> {
    join_terminated(lines_of(s))
}

/// What normalization does to the raw bytes: nothing when the stream is
/// empty or already ends in a newline; otherwise it appends one newline.
pub proof fn lemma_normalized_form(s: Seq<u8>)
    ensures
        s.len() == 0 ==> normalized(s) == Seq::<u8>::empty(),
        s.len() > 0 && s.last() == NL ==> normalized(s) == s,
        s.len() > 0 && s.last() != NL ==> normalized(s) == s.push(NL),
    decreases s.len(),
{
    if s.len() == 0 {
    } else {
        lemma_first_nl(s);
        let k = first_nl(s) as int;
        if k < s.len() {
            let a = s.take(k);
            let t = s.skip(k + 1);
            assert((seq![a] + lines_of(t)).first() == a);
            assert((seq![a] + lines_of(t)).drop_first() =~= lines_of(t));
            assert(normalized(s) == a + seq![NL] + normalized(t));
            lemma_normalized_form(t);
            if t.len() == 0 {
                assert(s.last() == NL);
                assert(normalized(s) =~= s);
            } else if t.last() == NL {
                assert(s.last() == t.last());
                assert(normalized(s) =~= s);
            } else {
                assert(s.last() == t.last());
                assert(normalized(s) =~= s.push(NL));
            }
        } else {
            assert(seq![s].first() == s);
            assert(seq![s].drop_first() =~= Seq::<Seq<u8>>::empty());
            assert(join_terminated(Seq::<Seq<u8>>::empty()) == Seq::<u8>::empty());
            assert(normalized(s) == s + seq![NL] + Seq::<u8>::empty());
            assert(s.last() != NL);
            assert(normalized(s) =~= s.push(NL));
        }
    }
}

/// A line holds no newline byte of its own.
pub open spec fn newline_free(l: Seq<u8>) -> bool {
    forall|j: int| 0 <= j < l.len() ==> l[j] != NL
}

/// Every line that `lines_of` produces is newline-free.
pub proof fn lemma_lines_newline_free(s: Seq<u8>)
    ensures
        forall|k: int| 0 <= k < lines_of(s).len() ==> newline_free(#[trigger] lines_of(s)[k]),
    decreases s.len(),
{
    lemma_first_nl(s);
    if s.len() == 0 {
    } else if first_nl(s) < s.len() {
        let k = first_nl(s) as int;
        let a = s.take(k);
        let t = s.skip(k + 1);
        lemma_lines_newline_free(t);
        assert(newline_free(a));
        assert forall|i: int| 0 <= i < lines_of(s).len() implies newline_free(
            #[trigger] lines_of(s)[i],
        ) by {
            if i == 0 {
                assert(lines_of(s)[0] == a);
            } else {
                assert(lines_of(s)[i] == lines_of(t)[i - 1]);
            }
        }
    } else {
        assert(newline_free(s));
    }
}

/// The first newline of a stream is the position of the first newline byte.
pub proof fn lemma_first_nl_at(w: Seq<u8>, k: int)
    requires
        0 <= k < w.len(),
        w[k] == NL,
        forall|j: int| 0 <= j < k ==> w[j] != NL,
    ensures
        first_nl(w) == k,
    decreases k,
{
    if k > 0 {
        assert forall|j: int| 0 <= j < k - 1 implies w.drop_first()[j] != NL by {
            assert(w[j + 1] != NL);
        }
        lemma_first_nl_at(w.drop_first(), k - 1);
    }
}

/// Splitting undoes joining: a sequence of newline-free lines, written out
/// with one newline after each, splits back into exactly those lines.
pub proof fn lemma_lines_of_join(ls: Seq<Seq<u8>>)
    requires
        forall|k: int| 0 <= k < ls.len() ==> newline_free(#[trigger] ls[k]),
    ensures
        lines_of(join_terminated(ls)) == ls,
    decreases ls.len(),
{
    if ls.len() == 0 {
        assert(lines_of(join_terminated(ls)) =~= ls);
    } else {
        let a = ls.first();
        let rest = ls.drop_first();
        let w = join_terminated(ls);
        assert(w == a + seq![NL] + join_terminated(rest));
        assert forall|k: int| 0 <= k < rest.len() implies newline_free(#[trigger] rest[k]) by {
            assert(rest[k] == ls[k + 1]);
        }
        lemma_lines_of_join(rest);
        assert(newline_free(a));
        assert(w[a.len() as int] == NL);
        assert forall|j: int| 0 <= j < a.len() implies w[j] != NL by {
            assert(w[j] == a[j]);
        }
        lemma_first_nl_at(w, a.len() as int);
        assert(w.take(a.len() as int) =~= a);
        assert(w.skip(a.len() as int + 1) =~= join_terminated(rest));
        assert(lines_of(w) == seq![a] + lines_of(join_terminated(rest)));
        assert(lines_of(w) =~= ls);
    }
}

/// Lines survive normalization: the normalized stream splits into exactly
/// the lines of the original stream.
pub proof fn lemma_lines_preserved(s: Seq<u8>)
    ensures
        lines_of(normalized(s)) == lines_of(s),
{
    lemma_lines_newline_free(s);
    lemma_lines_of_join(lines_of(s));
}

/// Normalization is idempotent: a stream that is already the line-by-line
/// rewrite of some stream is left unchanged by another rewrite.
pub proof fn lemma_normalized_idempotent(s: Seq<u8>)
    ensures
        normalized(normalized(s)) == normalized(s),
{
    lemma_lines_preserved(s);
}

/// Rewrite `input` line by line: the result holds the same lines in the
/// same order, each terminated by exactly one newline byte.
pub fn normalize_lines(input: &Vec<u8>) -> (out: Vec<u8>)
    ensures
        out@ == normalized(input@),
        lines_of(out@) == lines_of(input@),
{
    let mut out: Vec<u8> = Vec::new();
    let n = input.len();
    let mut i: usize = 0;
    while i < n
        invariant
            n == input.len(),
            i <= n,
            out@ == input@.take(i as int),
        decreases n - i,
    {
        out.push(input[i]);
        i = i + 1;
        proof {
            assert(out@ =~= input@.take(i as int));
        }
    }
    assert(out@ =~= input@);
    if input.len() > 0 && input[input.len() - 1] != NL {
        out.push(NL);
    }
    proof {
        lemma_normalized_form(input@);
        lemma_lines_preserved(input@);
        assert(out@ =~= normalized(input@));
    }
    out
}

} // verus!
