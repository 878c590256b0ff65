//! Lexicon-based sentiment scoring with simple negation handling.
//!
//! A text is split into lower-case alphanumeric words. Each word is looked
//! up in the lexicon, and its score is inverted if a negator stands among
//! the three words before it.

use crate::text::{
    char_is_alphanumeric, chars_of, is_alphanumeric, lower_char, str_eq, string_of,
    to_lower_char, views,
};
use vstd::prelude::*;

verus! {

/// One word of the lexicon with its score.
#[derive(Debug, Clone)]
pub struct LexiconEntry {
    pub word: String,
    pub score: i32,
}

/// Sentiment analyzer over a lexicon.
#[derive(Debug, Clone)]
pub struct SentimentAnalyzer {
    pub lexicon: Vec<LexiconEntry>,
}

/// Batch input item: source and text.
#[derive(Debug, Clone)]
pub struct BatchItem {
    pub source: String,
    pub text: String,
}

/// The words read from the first `n` characters of a text, and the word
/// that is being read: a word is a run of alphanumeric characters, with
/// its ASCII letters in lower case, and ends at the first character that
/// is not alphanumeric.
pub open spec fn words_read(s: Seq<char>, n: nat) -> (Seq<Seq<char>>, Seq<char>)
    decreases n,
{
    if n == 0 {
        (Seq::empty(), Seq::empty())
    } else {
        let (done, current) = words_read(s, (n - 1) as nat);
        let c = s[n - 1];
        if char_is_alphanumeric(c) {
            (done, current.push(lower_char(c)))
        } else if current.len() > 0 {
            (done.push(current), Seq::empty())
        } else {
            (done, current)
        }
    }
}

/// The words of a text: its maximal runs of alphanumeric characters, in
/// lower case.
pub open spec fn words(s: Seq<char>) -> Seq<Seq<char>> {
    let (done, current) = words_read(s, s.len());
    if current.len() > 0 {
        done.push(current)
    } else {
        done
    }
}

/// The word is a negator.
pub open spec fn negator(w: Seq<char>) -> bool {
    w == "not"@ || w == "no"@ || w == "never"@ || w == "isn't"@ || w == "wasn't"@ || w
        == "aren't"@ || w == "won't"@ || w == "can't"@ || w == "cannot"@ || w == "without"@
}

/// A negator stands one, two or three words before word `i`.
pub open spec fn negated(tokens: Seq<Seq<char>>, i: int) -> bool {
    exists|k: int| 1 <= k <= 3 && i >= k && negator(#[trigger] tokens[i - k])
}

/// The score of a word in the lexicon, read from entry `i` on: that of
/// the first entry for the word, or 0.
pub open spec fn lexicon_score_from(lexicon: Seq<LexiconEntry>, w: Seq<char>, i: int) -> i32
    decreases lexicon.len() - i,
{
    if i < 0 || i >= lexicon.len() {
        0
    } else if lexicon[i].word@ == w {
        lexicon[i].score
    } else {
        lexicon_score_from(lexicon, w, i + 1)
    }
}

/// The score of a word in the lexicon, 0 when it is not there.
pub open spec fn lexicon_score(lexicon: Seq<LexiconEntry>, w: Seq<char>) -> i32 {
    lexicon_score_from(lexicon, w, 0)
}

/// What word `i` adds to the score: its lexicon score, inverted if it is
/// negated.
pub open spec fn contribution(lexicon: Seq<LexiconEntry>, tokens: Seq<Seq<char>>, i: int) -> int {
    let base = lexicon_score(lexicon, tokens[i]);
    if negated(tokens, i) {
        -base
    } else {
        base as int
    }
}

/// A sum kept within the range of `i32`.
pub open spec fn saturate(x: int) -> i32 {
    if x > i32::MAX {
        i32::MAX
    } else if x < i32::MIN {
        i32::MIN
    } else {
        x as i32
    }
}

/// The score of the first `n` words: their contributions added up in
/// order, the sum kept within the range of `i32` at each step.
pub open spec fn score_of(lexicon: Seq<LexiconEntry>, tokens: Seq<Seq<char>>, n: nat) -> i32
    decreases n,
{
    if n == 0 {
        0
    } else {
        saturate(score_of(lexicon, tokens, (n - 1) as nat) + contribution(lexicon, tokens, n - 1))
    }
}

/// Splits a text on the characters that are not alphanumeric and puts
/// the words in lower case.
pub fn tokenize(s: &str) -> (out: Vec<String>)
    ensures
        views(out@) == words(s@),
{
    let chars = chars_of(s);
    let mut out: Vec<String> = Vec::new();
    let mut current: Vec<char> = Vec::new();
    let mut i: usize = 0;
    assert(views(out@) =~= Seq::empty());
    while i < chars.len()
        invariant
            i <= chars.len(),
            chars@ == s@,
            words_read(s@, i as nat) == (views(out@), current@),
        decreases chars.len() - i,
    {
        let c = chars[i];
        if is_alphanumeric(c) {
            current.push(to_lower_char(c));
        } else if current.len() > 0 {
            let ghost before = views(out@);
            out.push(string_of(&current));
            assert(views(out@) =~= before.push(current@));
            current = Vec::new();
        }
        i += 1;
    }
    if current.len() > 0 {
        let ghost before = views(out@);
        out.push(string_of(&current));
        assert(views(out@) =~= before.push(current@));
    }
    out
}

/// Whether a word is one of the negators.
pub fn is_negator(tok: &str) -> (r: bool)
    ensures
        r == negator(tok@),
{
    str_eq(tok, "not") || str_eq(tok, "no") || str_eq(tok, "never") || str_eq(tok, "isn't")
        || str_eq(tok, "wasn't") || str_eq(tok, "aren't") || str_eq(tok, "won't") || str_eq(
        tok,
        "can't",
    ) || str_eq(tok, "cannot") || str_eq(tok, "without")
}

impl SentimentAnalyzer {
    /// An analyzer over the given lexicon.
    pub fn new(lexicon: Vec<LexiconEntry>) -> (a: SentimentAnalyzer)
        ensures
            a.lexicon == lexicon,
    {
        SentimentAnalyzer { lexicon }
    }

    /// The lexicon score of a word, 0 if the lexicon does not hold it.
    pub fn word_score(&self, w: &str) -> (r: i32)
        ensures
            r == lexicon_score(self.lexicon@, w@),
    {
        let mut i: usize = 0;
        while i < self.lexicon.len()
            invariant
                i <= self.lexicon.len(),
                lexicon_score(self.lexicon@, w@) == lexicon_score_from(
                    self.lexicon@,
                    w@,
                    i as int,
                ),
            decreases self.lexicon.len() - i,
        {
            if str_eq(self.lexicon[i].word.as_str(), w) {
                return self.lexicon[i].score;
            }
            i += 1;
        }
        0
    }

    /// Scores a text and returns the score with the number of its words.
    /// The score of a word is inverted if a negator stands among the
    /// three words before it.
    pub fn score_text(&self, text: &str) -> (r: (i32, usize))
        ensures
            r.0 == score_of(self.lexicon@, words(text@), words(text@).len()),
            r.1 == words(text@).len(),
    {
        let tokens = tokenize(text);
        let ghost ws = words(text@);
        let mut score: i32 = 0;
        let mut i: usize = 0;
        while i < tokens.len()
            invariant
                i <= tokens.len(),
                ws == views(tokens@),
                score == score_of(self.lexicon@, ws, i as nat),
            decreases tokens.len() - i,
        {
            let mut is_negated = false;
            let mut k: usize = 1;
            while k <= 3
                invariant
                    1 <= k <= 4,
                    i < tokens.len(),
                    ws == views(tokens@),
                    is_negated == (exists|j: int|
                        1 <= j < k && i >= j && negator(#[trigger] ws[i - j])),
                decreases 4 - k,
            {
                if i >= k && is_negator(tokens[i - k].as_str()) {
                    assert(ws[i - k] == tokens@[i - k]@);
                    is_negated = true;
                }
                k += 1;
            }
            assert(is_negated == negated(ws, i as int));
            let base = self.word_score(tokens[i].as_str());
            assert(ws[i as int] == tokens@[i as int]@);
            let adj: i64 = if is_negated {
                -(base as i64)
            } else {
                base as i64
            };
            let sum: i64 = score as i64 + adj;
            score = if sum > i32::MAX as i64 {
                i32::MAX
            } else if sum < i32::MIN as i64 {
                i32::MIN
            } else {
                sum as i32
            };
            i += 1;
        }
        (score, tokens.len())
    }
}

} // verus!
