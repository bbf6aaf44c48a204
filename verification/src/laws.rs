//! The algebraic properties of the operations, stated and proved over the
//! model: idempotence of punctuation removal and of whitespace
//! normalization, the n-gram boundary case, the behaviour of every
//! operation on the empty string, and composition of pipelines.

use crate::model::{
    is_punct, is_space, join_with, lemma_words_last_nonspace, lower_spec, ngrams_spec, strip_punct,
    trim_spec, windows_of, words_of,
};
use crate::processor::{apply_op, op_valid, ops_valid, run_ops, Operation};
use vstd::prelude::*;

verus! {

/// Every character of `strip_punct(s)` is non-punctuation.
pub proof fn lemma_strip_punct_free(s: Seq<char>)
    ensures
        forall|i: int| 0 <= i < strip_punct(s).len() ==> !is_punct(#[trigger] strip_punct(s)[i]),
    decreases s.len(),
{
    if s.len() > 0 {
        lemma_strip_punct_free(s.drop_last());
        let t = strip_punct(s.drop_last());
        if !is_punct(s.last()) {
            assert forall|i: int| 0 <= i < strip_punct(s).len() implies !is_punct(
                strip_punct(s)[i],
            ) by {
                if i < t.len() {
                    assert(strip_punct(s)[i] == t[i]);
                } else {
                    assert(strip_punct(s)[i] == s.last());
                }
            }
        }
    }
}

/// On a string without punctuation, `strip_punct` is the identity.
pub proof fn lemma_strip_punct_id(s: Seq<char>)
    requires
        forall|i: int| 0 <= i < s.len() ==> !is_punct(#[trigger] s[i]),
    ensures
        strip_punct(s) == s,
    decreases s.len(),
{
    if s.len() > 0 {
        lemma_strip_punct_id(s.drop_last());
        assert(strip_punct(s.drop_last()).push(s.last()) =~= s);
    } else {
        assert(strip_punct(s) =~= s);
    }
}

/// Punctuation removal is idempotent: a second pass finds nothing left to
/// remove.
pub proof fn lemma_strip_punct_idempotent(s: Seq<char>)
    ensures
        strip_punct(strip_punct(s)) == strip_punct(s),
{
    lemma_strip_punct_free(s);
    lemma_strip_punct_id(strip_punct(s));
}

/// Every word a string splits into is non-empty and free of whitespace.
pub proof fn lemma_words_wf(s: Seq<char>)
    ensures
        forall|k: int| 0 <= k < words_of(s).len() ==> (#[trigger] words_of(s)[k]).len() > 0,
        forall|k: int, j: int|
            0 <= k < words_of(s).len() && 0 <= j < words_of(s)[k].len() ==> !is_space(
                #[trigger] words_of(s)[k][j],
            ),
    decreases s.len(),
{
    if s.len() > 0 {
        lemma_words_wf(s.drop_last());
        let prefix = words_of(s.drop_last());
        let c = s.last();
        if is_space(c) {
        } else if s.len() >= 2 && !is_space(s[s.len() - 2]) {
            lemma_words_last_nonspace(s.drop_last());
            let l = prefix.len() - 1;
            assert forall|k: int, j: int|
                0 <= k < words_of(s).len() && 0 <= j < words_of(s)[k].len() implies !is_space(
                words_of(s)[k][j],
            ) by {
                if k == l {
                    assert(words_of(s)[k] == prefix[l].push(c));
                    if j < prefix[l].len() {
                        assert(words_of(s)[k][j] == prefix[l][j]);
                    } else {
                        assert(words_of(s)[k][j] == c);
                    }
                } else {
                    assert(words_of(s)[k] == prefix[k]);
                }
            }
        } else {
            assert forall|k: int, j: int|
                0 <= k < words_of(s).len() && 0 <= j < words_of(s)[k].len() implies !is_space(
                words_of(s)[k][j],
            ) by {
                if k == prefix.len() {
                    assert(words_of(s)[k] == seq![c]);
                    assert(words_of(s)[k][j] == c);
                } else {
                    assert(words_of(s)[k] == prefix[k]);
                }
            }
        }
    }
}

/// Appending one whitespace-free, non-empty word to a string that is empty
/// or ends in whitespace appends exactly that word to the word list.
pub proof fn lemma_words_append_word(t: Seq<char>, w: Seq<char>)
    requires
        w.len() > 0,
        forall|j: int| 0 <= j < w.len() ==> !is_space(#[trigger] w[j]),
        t.len() == 0 || is_space(t.last()),
    ensures
        words_of(t + w) == words_of(t).push(w),
    decreases w.len(),
{
    if w.len() == 1 {
        assert((t + w).drop_last() =~= t);
        assert((t + w).last() == w[0]);
        assert(words_of(t + w) == words_of(t).push(seq![w[0]]));
        assert(seq![w[0]] =~= w);
    } else {
        lemma_words_append_word(t, w.drop_last());
        let u = t + w.drop_last();
        let c = w.last();
        assert((t + w).drop_last() =~= u);
        assert((t + w).last() == c);
        assert((t + w).len() >= 2);
        assert((t + w)[(t + w).len() - 2] == w[w.len() - 2]);
        let pw = words_of(u);
        assert(pw == words_of(t).push(w.drop_last()));
        assert(pw.last() == w.drop_last());
        assert(words_of(t + w) == pw.update(pw.len() - 1, pw.last().push(c)));
        assert(w.drop_last().push(c) =~= w);
        assert(pw.update(pw.len() - 1, w) =~~= words_of(t).push(w));
    }
}

/// Splitting the space-joined word list recovers the word list: the words
/// are non-empty and contain no whitespace, and the single joining space is
/// whitespace.
pub proof fn lemma_words_of_join(ws: Seq<Seq<char>>)
    requires
        forall|k: int| 0 <= k < ws.len() ==> (#[trigger] ws[k]).len() > 0,
        forall|k: int, j: int|
            0 <= k < ws.len() && 0 <= j < ws[k].len() ==> !is_space(#[trigger] ws[k][j]),
    ensures
        words_of(join_with(ws, seq![' '])) == ws,
    decreases ws.len(),
{
    let sp: Seq<char> = seq![' '];
    if ws.len() == 0 {
        assert(words_of(join_with(ws, sp)) =~~= ws);
    } else if ws.len() == 1 {
        assert(join_with(ws, sp) == ws[0]);
        lemma_words_append_word(Seq::empty(), ws[0]);
        assert(Seq::empty() + ws[0] =~= ws[0]);
        assert(words_of(Seq::<char>::empty()).push(ws[0]) =~~= ws);
    } else {
        lemma_words_of_join(ws.drop_last());
        let j0 = join_with(ws.drop_last(), sp);
        let t = j0 + sp;
        assert(join_with(ws, sp) == j0 + sp + ws.last());
        assert(t =~= j0.push(' '));
        assert(is_space(' '));
        assert(j0.push(' ').drop_last() =~= j0);
        assert(words_of(t) == words_of(j0));
        assert(t.last() == ' ');
        lemma_words_append_word(t, ws.last());
        assert(j0 + sp + ws.last() =~= t + ws.last());
        assert(words_of(join_with(ws, sp)) == words_of(t).push(ws.last()));
        assert(ws.drop_last().push(ws.last()) =~= ws);
    }
}

/// Whitespace normalization is idempotent: once the words are joined with
/// single spaces, splitting finds the same words again.
pub proof fn lemma_trim_idempotent(s: Seq<char>)
    ensures
        trim_spec(trim_spec(s)) == trim_spec(s),
{
    lemma_words_wf(s);
    lemma_words_of_join(words_of(s));
}

/// With fewer words than the window size, n-gram extraction yields the
/// empty string: no window of `n` consecutive words exists.
pub proof fn lemma_ngrams_short_input(s: Seq<char>, sep: Seq<char>, n: nat)
    requires
        words_of(s).len() < n,
    ensures
        ngrams_spec(s, sep, n) == Seq::<char>::empty(),
{
    assert(windows_of(words_of(s), n) =~= Seq::empty());
    assert(windows_of(words_of(s), n).map_values(|w: Seq<Seq<char>>| join_with(w, seq![' ']))
        =~~= Seq::<Seq<char>>::empty());
}

/// Every operation that can run at all maps the empty string to the empty
/// string.
pub proof fn lemma_op_on_empty(op: Operation)
    requires
        op_valid(op),
    ensures
        apply_op(op, Seq::<char>::empty()) == Seq::<char>::empty(),
{
    let e = Seq::<char>::empty();
    match op {
        Operation::RemovePunkt => {
            assert(strip_punct(e) =~= e);
        },
        Operation::TrimSpaces => {
            assert(words_of(e) =~= Seq::<Seq<char>>::empty());
            assert(trim_spec(e) =~= e);
        },
        Operation::Lowercase => {
            assert(lower_spec(e) =~= e);
        },
        Operation::NGrams(sep, n) => {
            lemma_ngrams_short_input(e, sep@, n as nat);
        },
    }
}

/// Pipelines compose: running the concatenation of two operation lists
/// equals running the first list, then the second on its output.
pub proof fn lemma_run_ops_concat(a: Seq<Operation>, b: Seq<Operation>, s: Seq<char>)
    ensures
        run_ops(a + b, s) == run_ops(b, run_ops(a, s)),
    decreases b.len(),
{
    if b.len() == 0 {
        assert(a + b =~= a);
    } else {
        lemma_run_ops_concat(a, b.drop_last(), s);
        assert((a + b).drop_last() =~= a + b.drop_last());
        assert((a + b).last() == b.last());
    }
}

/// A pipeline's validity splits over concatenation: the whole is valid
/// exactly when both halves are.
pub proof fn lemma_ops_valid_concat(a: Seq<Operation>, b: Seq<Operation>)
    ensures
        ops_valid(a + b) <==> ops_valid(a) && ops_valid(b),
{
    if ops_valid(a + b) {
        assert forall|k: int| 0 <= k < a.len() implies op_valid(a[k]) by {
            assert(op_valid((a + b)[k]));
        }
        assert forall|k: int| 0 <= k < b.len() implies op_valid(b[k]) by {
            assert(op_valid((a + b)[k + a.len()]));
        }
    }
    if ops_valid(a) && ops_valid(b) {
        assert forall|k: int| 0 <= k < (a + b).len() implies op_valid((a + b)[k]) by {
            if k < a.len() {
                assert((a + b)[k] == a[k]);
            } else {
                assert((a + b)[k] == b[k - a.len()]);
            }
        }
    }
}

/// Appending `a` then `b` and executing equals executing `a` alone, then
/// `b` alone on `a`'s output.
pub proof fn lemma_append_compose(a: Operation, b: Operation, s: Seq<char>)
    ensures
        run_ops(seq![a, b], s) == run_ops(seq![b], run_ops(seq![a], s)),
{
    lemma_run_ops_concat(seq![a], seq![b], s);
    assert(seq![a] + seq![b] =~= seq![a, b]);
}

} // verus!

