//! Splits a text into Unicode word tokens with byte spans and sequential
//! indices. Punctuation and whitespace separate tokens and are never
//! tokens themselves.

use crate::relevance::pattern::{
    find_matches, pattern_compiles, pattern_match_spans, span_text, spans_in_order, spans_of,
    texts_match,
};
use vstd::prelude::*;
use vstd::string::StringSliceAdditionalSpecFns;

verus! {

/// A single token with its text, its byte span and its position in the
/// sequence of tokens.
#[derive(Debug, Clone)]
pub struct Token {
    pub text: String,
    pub start: usize,
    pub end: usize,
    pub index: usize,
}

/// The pattern of a word: a run of Unicode word characters between word
/// boundaries.
pub const WORD_PATTERN: &'static str = r"(?u)\b\w+\b";

/// The spans of a list without those that are empty.
pub open spec fn nonempty_spans(spans: Seq<(usize, usize)>) -> Seq<(usize, usize)> {
    spans.filter(|s: (usize, usize)| s.0 < s.1)
}

/// The byte spans of the words of a text: the matches of the word
/// pattern that hold at least one byte, in order.
pub open spec fn word_spans(text: Seq<char>) -> Seq<(usize, usize)> {
    if pattern_compiles(WORD_PATTERN@) {
        nonempty_spans(pattern_match_spans(WORD_PATTERN@, text))
    } else {
        Seq::empty()
    }
}

/// The byte spans of a list of tokens.
pub open spec fn token_spans(tokens: Seq<Token>) -> Seq<(usize, usize)> {
    Seq::new(tokens.len(), |i: int| (tokens[i].start, tokens[i].end))
}

/// Basic, Unicode-friendly tokenizer: the tokens are the matches of the
/// word pattern, in order. Token `i` has the index `i` and holds the text
/// between its two offsets. A match without a byte would be no token, so
/// no token is empty, and an empty input yields no tokens.
pub fn tokenize(input: &str) -> (out: Vec<Token>)
    ensures
        token_spans(out@) == word_spans(input@),
        spans_in_order(token_spans(out@), input.spec_bytes().len()),
        forall|i: int| 0 <= i < out@.len() ==> (#[trigger] out@[i]).index == i,
        forall|i: int| 0 <= i < out@.len() ==> (#[trigger] out@[i]).start < out@[i].end,
        forall|i: int|
            0 <= i < out@.len() ==> (#[trigger] out@[i]).text@ == span_text(
                input@,
                (out@[i].start, out@[i].end),
            ),
        input.spec_bytes().len() == 0 ==> out@.len() == 0,
{
    let mut out: Vec<Token> = Vec::new();
    let words = match find_matches(WORD_PATTERN, input) {
        Some(words) => words,
        None => {
            assert(token_spans(out@) =~= word_spans(input@));
            return out;
        },
    };
    let ghost spans = spans_of(words@);
    let ghost len = input.spec_bytes().len();
    let mut i: usize = 0;
    proof {
        reveal(Seq::filter);
        assert(token_spans(out@) =~= nonempty_spans(spans.take(0)));
    }
    while i < words.len()
        invariant
            i <= words.len(),
            spans == spans_of(words@),
            spans_in_order(spans, len),
            texts_match(words@, input@),
            token_spans(out@) == nonempty_spans(spans.take(i as int)),
            spans_in_order(token_spans(out@), len),
            forall|k: int, j: int|
                0 <= k < out@.len() && i <= j < spans.len() ==> (#[trigger] out@[k]).end <= (
                #[trigger] spans[j]).0,
            forall|k: int| 0 <= k < out@.len() ==> (#[trigger] out@[k]).index == k,
            forall|k: int| 0 <= k < out@.len() ==> (#[trigger] out@[k]).start < out@[k].end,
            forall|k: int|
                0 <= k < out@.len() ==> (#[trigger] out@[k]).text@ == span_text(
                    input@,
                    (out@[k].start, out@[k].end),
                ),
        decreases words.len() - i,
    {
        let w = &words[i];
        proof {
            reveal(Seq::filter);
            assert(spans.take(i + 1).drop_last() =~= spans.take(i as int));
            assert(spans.take(i + 1).last() == spans[i as int]);
            assert(spans[i as int] == (w.start, w.end));
        }
        if w.start < w.end {
            let ghost before = token_spans(out@);
            let index = out.len();
            out.push(Token { text: w.text.clone(), start: w.start, end: w.end, index });
            proof {
                assert(token_spans(out@) =~= before.push((w.start, w.end)));
                assert forall|k: int, j: int|
                    0 <= k < out@.len() && i + 1 <= j < spans.len() implies (#[trigger] out@[k]).end
                    <= (#[trigger] spans[j]).0 by {
                    if k == out@.len() - 1 {
                        assert(spans[i as int].1 <= spans[j].0);
                    }
                }
                assert forall|k: int, l: int| 0 <= k < l < token_spans(out@).len() implies (
                #[trigger] token_spans(out@)[k]).1 <= (#[trigger] token_spans(out@)[l]).0 by {
                    if l == out@.len() - 1 {
                        assert(out@[k].end <= spans[i as int].0);
                    } else {
                        assert(before[k].1 <= before[l].0);
                    }
                }
                assert forall|k: int| 0 <= k < token_spans(out@).len() implies (
                #[trigger] token_spans(out@)[k]).0 <= token_spans(out@)[k].1 <= len by {
                    if k == out@.len() - 1 {
                        assert(spans[i as int].0 <= spans[i as int].1 <= len);
                    } else {
                        assert(before[k].0 <= before[k].1 <= len);
                    }
                }
            }
        }
        i += 1;
    }
    assert(spans.take(spans.len() as int) =~= spans);
    proof {
        if out@.len() > 0 {
            assert(token_spans(out@)[0] == (out@[0].start, out@[0].end));
            assert(out@[0].start < out@[0].end <= len);
        }
    }
    out
}

} // verus!
