//! The executable pipeline: the `Operation` variants, the `TextProcessor`
//! that owns an ordered list of them, and the verified transformation of a
//! string by each operation.

use crate::model::{
    case_folded, is_punct, is_space, join_with, lemma_words_last_nonspace, lower_spec, ngrams_spec,
    strip_punct, trim_spec, windows_of, words_of,
};
use vstd::prelude::*;
use vstd::string::StringExecFns;

verus! {

/// One atomic, named string transformation.
#[derive(Clone)]
pub enum Operation {
    /// Remove every ASCII punctuation character.
    RemovePunkt,
    /// Split on whitespace runs and rejoin the words with single spaces.
    TrimSpaces,
    /// Map the string to lowercase (Unicode full case mapping).
    Lowercase,
    /// Join every window of `n` consecutive words; join the windows with
    /// the separator. An `n` of zero is rejected when the pipeline runs.
    NGrams(String, usize),
}

/// Why a pipeline run failed.
#[derive(Clone, Debug, PartialEq, Eq)]
pub enum ProcessError {
    /// An `NGrams` operation was built with `n == 0`: a zero-sized window
    /// is meaningless, so the pipeline rejects it.
    InvalidNGramSize,
}

/// Whether an operation can be applied at all: only `NGrams` with a
/// zero-sized window is rejected.
pub open spec fn op_valid(op: Operation) -> bool {
    match op {
        Operation::NGrams(_, n) => n >= 1,
        _ => true,
    }
}

/// Whether every operation of a pipeline can be applied.
pub open spec fn ops_valid(ops: Seq<Operation>) -> bool {
    forall|k: int| 0 <= k < ops.len() ==> #[trigger] op_valid(ops[k])
}

/// What one operation turns a string into.
pub open spec fn apply_op(op: Operation, s: Seq<char>) -> Seq<char> {
    match op {
        Operation::RemovePunkt => strip_punct(s),
        Operation::TrimSpaces => trim_spec(s),
        Operation::Lowercase => lower_spec(s),
        Operation::NGrams(sep, n) => ngrams_spec(s, sep@, n as nat),
    }
}

/// What a whole pipeline turns a string into: the operations applied left
/// to right, each to the previous result.
pub open spec fn run_ops(ops: Seq<Operation>, s: Seq<char>) -> Seq<char>
    decreases ops.len(),
{
    if ops.len() == 0 {
        s
    } else {
        apply_op(ops.last(), run_ops(ops.drop_last(), s))
    }
}

/// An ordered sequence of operations, applied left to right by `process`.
#[derive(Clone)]
pub struct TextProcessor {
    operations: Vec<Operation>,
}

impl TextProcessor {
    /// The sequence of operations this processor will apply, in order.
    pub closed spec fn ops(self) -> Seq<Operation> {
        self.operations@
    }

    /// An empty pipeline: applying it returns the input unchanged.
    pub fn new() -> (r: Self)
        ensures
            r.ops() == Seq::<Operation>::empty(),
    {
        let r = Self { operations: Vec::new() };
        proof {
            assert(r.ops() =~= Seq::<Operation>::empty());
        }
        r
    }

    /// Append one operation to the end of the pipeline; the operations
    /// already present keep their order.
    pub fn pipe(self, operation: Operation) -> (r: Self)
        ensures
            r.ops() == self.ops().push(operation),
    {
        let mut s = self;
        s.operations.push(operation);
        s
    }

    /// Remove every ASCII punctuation character; all other characters,
    /// whitespace and non-ASCII included, pass through unchanged.
    pub fn remove_punkt(&self, text: String) -> (r: String)
        ensures
            r@ == strip_punct(text@),
    {
        let n = text.as_str().unicode_len();
        let mut r = String::new();
        let mut i: usize = 0;
        while i < n
            invariant
                i <= n,
                n == text@.len(),
                r@ == strip_punct(text@.take(i as int)),
            decreases n - i,
        {
            let c = text.as_str().get_char(i);
            proof {
                assert(text@.take(i + 1).drop_last() =~= text@.take(i as int));
                assert(text@.take(i + 1).last() == c);
            }
            if !is_punct_char(c) {
                push_char(&mut r, c);
            }
            i = i + 1;
        }
        proof {
            assert(text@.take(n as int) =~= text@);
        }
        r
    }

    /// Split on whitespace runs and rejoin the words with a single space;
    /// leading and trailing whitespace disappears, and an all-whitespace or
    /// empty input gives the empty string.
    pub fn trim_spaces(&self, text: String) -> (r: String)
        ensures
            r@ == trim_spec(text@),
    {
        let words = split_ws(text.as_str());
        let r = join_strs(&words, " ");
        proof {
            reveal_strlit(" ");
            assert(" "@ =~= seq![' ']);
        }
        r
    }

    /// Every window of `n` consecutive words joined with a single space,
    /// the window tokens then joined with `sep`. Fewer than `n` words give
    /// the empty string.
    pub fn get_n_grams(&self, sep: &str, n: usize, text: String) -> (r: String)
        requires
            n >= 1,
        ensures
            r@ == ngrams_spec(text@, sep@, n as nat),
    {
        let ghost sp: Seq<char> = seq![' '];
        let words = split_ws(text.as_str());
        let ghost ws = words@.map_values(|w: String| w@);
        let ghost toks = windows_of(ws, n as nat).map_values(
            (|w: Seq<Seq<char>>| join_with(w, sp)),
        );
        let count: usize = if words.len() >= n {
            words.len() - n + 1
        } else {
            0
        };
        proof {
            if ws.len() < n {
                assert(windows_of(ws, n as nat) =~= Seq::empty());
                assert(toks =~= Seq::<Seq<char>>::empty());
            }
        }
        let mut grams: Vec<String> = Vec::new();
        let mut i: usize = 0;
        while i < count
            invariant
                i <= count,
                n >= 1,
                count == if ws.len() >= n {
                    ws.len() - n + 1
                } else {
                    0
                },
                toks.len() == count,
                words@.len() <= usize::MAX,
                ws == words@.map_values(|w: String| w@),
                toks == windows_of(ws, n as nat).map_values(
                    (|w: Seq<Seq<char>>| join_with(w, sp)),
                ),
                sp == seq![' '],
                grams@.map_values(|g: String| g@) == toks.take(i as int),
            decreases count - i,
        {
            let mut window: Vec<String> = Vec::new();
            let mut j: usize = 0;
            while j < n
                invariant
                    j <= n,
                    i + n <= words@.len(),
                    words@.len() <= usize::MAX,
                    window@ == words@.subrange(i as int, i + j),
                decreases n - j,
            {
                window.push(words[i + j].clone());
                proof {
                    assert(words@.subrange(i as int, i + j + 1) =~= words@.subrange(
                        i as int,
                        i + j,
                    ).push(words@[i + j]));
                }
                j = j + 1;
            }
            let ghost gs0 = grams@.map_values(|g: String| g@);
            let g = join_strs(&window, " ");
            grams.push(g);
            proof {
                reveal_strlit(" ");
                assert(" "@ =~= sp);
                assert(window@.map_values(|w: String| w@) =~~= ws.subrange(i as int, i + n));
                assert(windows_of(ws, n as nat)[i as int] == ws.subrange(i as int, i + n));
                assert(g@ == join_with(ws.subrange(i as int, i + n), sp));
                assert(toks[i as int] == join_with(windows_of(ws, n as nat)[i as int], sp));
                assert(grams@.map_values(|g: String| g@) =~~= gs0.push(g@));
                assert(gs0.push(g@) =~~= toks.take(i + 1));
            }
            i = i + 1;
        }
        let r = join_strs(&grams, sep);
        proof {
            assert(toks.take(count as int) =~~= toks);
        }
        r
    }

    /// Apply the operations in order, each to the previous result, starting
    /// from `text`. Returns the transformed string; returns
    /// `InvalidNGramSize` — transforming nothing — exactly when some
    /// `NGrams` operation was built with `n == 0`.
    pub fn process(&self, text: String) -> (r: Result<String, ProcessError>)
        ensures
            r is Ok <==> ops_valid(self.ops()),
            r matches Ok(out) ==> out@ == run_ops(self.ops(), text@),
            r matches Err(e) ==> e == ProcessError::InvalidNGramSize,
    {
        let ghost ops = self.ops();
        let ghost t0 = text@;
        let mut res = text;
        let n_ops = self.operations.len();
        let mut i: usize = 0;
        while i < n_ops
            invariant
                i <= n_ops,
                n_ops == ops.len(),
                ops == self.ops(),
                res@ == run_ops(ops.take(i as int), t0),
                forall|k: int| 0 <= k < i ==> #[trigger] op_valid(ops[k]),
            decreases n_ops - i,
        {
            let ghost before = res@;
            proof {
                assert(ops.take(i + 1).drop_last() =~= ops.take(i as int));
                assert(ops.take(i + 1).last() == ops[i as int]);
            }
            let op = &self.operations[i];
            res = match op {
                Operation::RemovePunkt => self.remove_punkt(res),
                Operation::TrimSpaces => self.trim_spaces(res),
                Operation::Lowercase => {
                    let out = to_lower(res);
                    proof {
                        if before.len() == 0 {
                            assert(out@ =~= Seq::<char>::empty());
                        }
                        assert(out@ == lower_spec(before));
                    }
                    out
                },
                Operation::NGrams(sep, nn) => {
                    if *nn == 0 {
                        proof {
                            assert(!op_valid(ops[i as int]));
                        }
                        return Err(ProcessError::InvalidNGramSize);
                    }
                    self.get_n_grams(sep.as_str(), *nn, res)
                },
            };
            i = i + 1;
        }
        proof {
            assert(ops.take(n_ops as int) =~= ops);
        }
        Ok(res)
    }
}

/// The words of a string: its maximal runs of non-whitespace characters, in
/// order, with the whitespace dropped.
pub fn split_ws(text: &str) -> (words: Vec<String>)
    ensures
        words@.map_values(|w: String| w@) == words_of(text@),
{
    let n = text.unicode_len();
    let mut words: Vec<String> = Vec::new();
    let mut prev_nonspace = false;
    let mut i: usize = 0;
    while i < n
        invariant
            i <= n,
            n == text@.len(),
            words@.map_values(|w: String| w@) == words_of(text@.take(i as int)),
            prev_nonspace == (i > 0 && !is_space(text@[i as int - 1])),
        decreases n - i,
    {
        let ghost ws0 = words@.map_values(|w: String| w@);
        let c = text.get_char(i);
        proof {
            assert(text@.take(i + 1).drop_last() =~= text@.take(i as int));
            assert(text@.take(i + 1).last() == c);
        }
        let nonspace = !is_space_char(c);
        if nonspace {
            if prev_nonspace {
                proof {
                    lemma_words_last_nonspace(text@.take(i as int));
                }
                let mut w = words.pop().unwrap();
                push_char(&mut w, c);
                words.push(w);
                proof {
                    assert(w@ == ws0.last().push(c));
                    assert(words@.map_values(|w: String| w@) =~~= ws0.update(
                        ws0.len() - 1,
                        ws0.last().push(c),
                    ));
                }
            } else {
                let mut w = String::new();
                push_char(&mut w, c);
                words.push(w);
                proof {
                    assert(w@ =~= seq![c]);
                    assert(words@.map_values(|w: String| w@) =~~= ws0.push(seq![c]));
                }
            }
        }
        prev_nonspace = nonspace;
        i = i + 1;
    }
    proof {
        assert(text@.take(n as int) =~= text@);
    }
    words
}

/// The parts joined into one string, with `sep` between consecutive parts.
pub fn join_strs(parts: &Vec<String>, sep: &str) -> (r: String)
    ensures
        r@ == join_with(parts@.map_values(|w: String| w@), sep@),
{
    let ghost ps = parts@.map_values(|w: String| w@);
    let mut r = String::new();
    let mut i: usize = 0;
    while i < parts.len()
        invariant
            i <= ps.len(),
            ps == parts@.map_values(|w: String| w@),
            r@ == join_with(ps.take(i as int), sep@),
        decreases ps.len() - i,
    {
        if i > 0 {
            r.append(sep);
        }
        r.append(parts[i].as_str());
        proof {
            assert(ps.take(i + 1).drop_last() =~= ps.take(i as int));
            assert(ps.take(i + 1).last() == ps[i as int]);
            if i == 0 {
                assert(r@ =~= ps[0]);
            }
        }
        i = i + 1;
    }
    proof {
        assert(ps.take(ps.len() as int) =~= ps);
    }
    r
}

/// Whether `c` has the Unicode `White_Space` property, by the table that
/// defines `is_space`.
pub fn is_space_char(c: char) -> (r: bool)
    ensures
        r == is_space(c),
{
    let u: u32 = c as u32;
    (0x09 <= u && u <= 0x0D) || u == 0x20 || u == 0x85 || u == 0xA0 || u == 0x1680 || (0x2000 <= u
        && u <= 0x200A) || u == 0x2028 || u == 0x2029 || u == 0x202F || u == 0x205F || u == 0x3000
}

/// Whether `c` is ASCII punctuation, by the ranges that define `is_punct`.
pub fn is_punct_char(c: char) -> (r: bool)
    ensures
        r == is_punct(c),
{
    let u: u32 = c as u32;
    (0x21 <= u && u <= 0x2F) || (0x3A <= u && u <= 0x40) || (0x5B <= u && u <= 0x60) || (0x7B <= u
        && u <= 0x7E)
}

/// Relies on `str::to_lowercase`: returns the Unicode lowercase equivalent
/// of the string, which depends on the characters alone; an empty string
/// stays empty.
#[verifier::external_body]
fn to_lower(text: String) -> (r: String)
    ensures
        r@ == case_folded(text@),
        text@.len() == 0 ==> r@.len() == 0,
{
    text.as_str().to_lowercase()
}

/// Relies on `String::push`: appends the given character to the end of the
/// string.
#[verifier::external_body]
fn push_char(s: &mut String, c: char)
    ensures
        final (s)@ == old(s)@.push(c),
{
    s.push(c);
}

} // verus!
