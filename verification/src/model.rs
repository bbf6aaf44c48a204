//! The mathematical model of the text transformations: spec functions over
//! `Seq<char>` that say what each operation returns, and the two character
//! classes (whitespace and ASCII punctuation) the operations are built on.

use vstd::prelude::*;

verus! {

/// A character with the Unicode `White_Space` property, the class that
/// `str::split_whitespace` splits on: U+0009..U+000D, U+0020, U+0085,
/// U+00A0, U+1680, U+2000..U+200A, U+2028, U+2029, U+202F, U+205F, U+3000.
pub open spec fn is_space(c: char) -> bool {
    let u = c as u32;
    (0x09 <= u && u <= 0x0D) || u == 0x20 || u == 0x85 || u == 0xA0 || u == 0x1680 || (0x2000 <= u
        && u <= 0x200A) || u == 0x2028 || u == 0x2029 || u == 0x202F || u == 0x205F || u == 0x3000
}

/// An ASCII punctuation character: U+0021..U+002F, U+003A..U+0040,
/// U+005B..U+0060, U+007B..U+007E.
pub open spec fn is_punct(c: char) -> bool {
    let u = c as u32;
    (0x21 <= u && u <= 0x2F) || (0x3A <= u && u <= 0x40) || (0x5B <= u && u <= 0x60) || (0x7B <= u
        && u <= 0x7E)
}

/// The string with every ASCII punctuation character removed; all other
/// characters pass through unchanged, in order.
pub open spec fn strip_punct(s: Seq<char>) -> Seq<char>
    decreases s.len(),
{
    if s.len() == 0 {
        Seq::empty()
    } else if is_punct(s.last()) {
        strip_punct(s.drop_last())
    } else {
        strip_punct(s.drop_last()).push(s.last())
    }
}

/// The words of a string: the maximal runs of non-whitespace characters,
/// in order. Runs of whitespace separate words and are themselves dropped,
/// so every word is non-empty.
pub open spec fn words_of(s: Seq<char>) -> Seq<Seq<char>>
    decreases s.len(),
{
    if s.len() == 0 {
        Seq::empty()
    } else {
        let prefix = words_of(s.drop_last());
        let c = s.last();
        if is_space(c) {
            prefix
        } else if s.len() >= 2 && !is_space(s[s.len() - 2]) {
            prefix.update(prefix.len() - 1, prefix.last().push(c))
        } else {
            prefix.push(seq![c])
        }
    }
}

/// A string whose last character is not whitespace ends inside a word: its
/// word list is non-empty, and the last word is non-empty.
pub proof fn lemma_words_last_nonspace(s: Seq<char>)
    requires
        s.len() > 0,
        !is_space(s.last()),
    ensures
        words_of(s).len() > 0,
        words_of(s).last().len() > 0,
    decreases s.len(),
{
    if s.len() >= 2 && !is_space(s[s.len() - 2]) {
        lemma_words_last_nonspace(s.drop_last());
        let prefix = words_of(s.drop_last());
        assert(words_of(s).last() == prefix.last().push(s.last()));
    }
}

/// The parts joined into one string, with `sep` between consecutive parts.
pub open spec fn join_with(parts: Seq<Seq<char>>, sep: Seq<char>) -> Seq<char>
    decreases parts.len(),
{
    if parts.len() == 0 {
        Seq::empty()
    } else if parts.len() == 1 {
        parts[0]
    } else {
        join_with(parts.drop_last(), sep) + sep + parts.last()
    }
}

/// Whitespace normalization: the words of the string rejoined with a single
/// space. All-whitespace and empty inputs give the empty string.
pub open spec fn trim_spec(s: Seq<char>) -> Seq<char> {
    join_with(words_of(s), seq![' '])
}

/// Every contiguous window of exactly `n` consecutive elements, sliding by
/// one. Empty when `n == 0` or when fewer than `n` elements exist.
pub open spec fn windows_of(ws: Seq<Seq<char>>, n: nat) -> Seq<Seq<Seq<char>>> {
    if 1 <= n <= ws.len() {
        Seq::new((ws.len() - n + 1) as nat, |i: int| ws.subrange(i, i + n))
    } else {
        Seq::empty()
    }
}

/// N-gram extraction: each window of `n` consecutive words joined with a
/// single space, and the resulting tokens joined with `sep`.
pub open spec fn ngrams_spec(s: Seq<char>, sep: Seq<char>, n: nat) -> Seq<char> {
    join_with(windows_of(words_of(s), n).map_values(|w: Seq<Seq<char>>| join_with(w, seq![' '])), sep)
}

/// The characters of `s` mapped to lowercase by the Unicode full case
/// mapping that `str::to_lowercase` computes. The mapping depends on the
/// characters alone, so it has a name here; what that name denotes is fixed
/// only by the trusted wrapper around `str::to_lowercase`.
pub uninterp spec fn case_folded(s: Seq<char>) -> Seq<char>;

/// Case folding as the model uses it: the empty string stays empty (which
/// `str::to_lowercase` guarantees), every other string maps to its full
/// Unicode lowercase form.
pub open spec fn lower_spec(s: Seq<char>) -> Seq<char> {
    if s.len() == 0 {
        Seq::empty()
    } else {
        case_folded(s)
    }
}

} // verus!
