//! The score of a text as an exact fraction, the threshold test, and the
//! result of an evaluation.

use crate::relevance::config::{Threshold, MILLION};
use crate::text::{decimal, decimal_string, digit_char, digit_str, views};
use vstd::prelude::*;
use vstd::string::StringExecFns;

verus! {

/// A score between 0 and 1: the fraction `num / den`.
#[derive(Debug, Clone, Copy, PartialEq, Eq, Structural)]
pub struct Score {
    pub num: u128,
    pub den: u128,
}

impl Score {
    /// The fraction lies between 0 and 1.
    pub open spec fn in_unit_range(self) -> bool {
        self.den > 0 && self.num <= self.den
    }

    /// The score 0.
    pub open spec fn spec_zero() -> Score {
        Score { num: 0, den: 1 }
    }

    /// The score 0.
    #[verifier::when_used_as_spec(spec_zero)]
    pub fn zero() -> (s: Score)
        ensures
            s == Score::spec_zero(),
    {
        Score { num: 0, den: 1 }
    }

    /// The score is greater than 0: a text with such a score is relevant.
    pub open spec fn spec_is_positive(&self) -> bool {
        self.num > 0
    }

    /// Whether the score is greater than 0.
    #[verifier::when_used_as_spec(spec_is_positive)]
    pub fn is_positive(&self) -> (r: bool)
        ensures
            r == self.spec_is_positive(),
    {
        self.num > 0
    }

    /// The score is at least the threshold: `num / den >= t / 1_000_000`.
    pub open spec fn spec_meets(self, t: Threshold) -> bool {
        self.num * MILLION >= t.millionths * self.den
    }

    /// Whether the score is at least the threshold.
    pub fn meets(&self, t: Threshold) -> (r: bool)
        requires
            self.in_unit_range(),
            self.den <= SCORE_LIMIT,
        ensures
            r == self.spec_meets(t),
    {
        if t.millionths > MILLION {
            assert(self.num * MILLION < t.millionths * self.den) by (nonlinear_arith)
                requires
                    self.num <= self.den,
                    self.den > 0,
                    t.millionths > MILLION,
            ;
            false
        } else {
            assert(self.num * MILLION <= u128::MAX && t.millionths * self.den <= u128::MAX)
                by (nonlinear_arith)
                requires
                    self.num <= self.den,
                    self.den <= 0x3_0000_0000_0000_0000_0000_0000,
                    t.millionths <= MILLION,
                    MILLION == 1_000_000,
            ;
            self.num * (MILLION as u128) >= (t.millionths as u128) * self.den
        }
    }
}

/// No sum of weighted counts is greater: three times the greatest weight
/// for each of at most `2^64` weights.
pub const SCORE_LIMIT: u128 = 0x3_0000_0000_0000_0000_0000_0000;

/// A threshold in hundredths, rounded to the nearest, a tie to the even
/// neighbour.
pub open spec fn hundredths(millionths: u32) -> nat {
    let q = (millionths / 10_000) as nat;
    let r = millionths % 10_000;
    if r > 5_000 || (r == 5_000 && q % 2 == 1) {
        q + 1
    } else {
        q
    }
}

/// A number of hundredths written with two decimals, as in `0.18`.
pub open spec fn two_decimals(h: nat) -> Seq<char> {
    decimal(h / 100) + "."@ + seq![digit_char((h / 10) % 10)] + seq![digit_char(h % 10)]
}

/// Writes a threshold with two decimals.
pub fn threshold_text(t: Threshold) -> (r: String)
    ensures
        r@ == two_decimals(hundredths(t.millionths)),
{
    let q: u64 = (t.millionths / 10_000) as u64;
    let rest: u32 = t.millionths % 10_000;
    let h: u64 = if rest > 5_000 || (rest == 5_000 && q % 2 == 1) {
        q + 1
    } else {
        q
    };
    let mut r = decimal_string(h / 100);
    r.append(".");
    r.append(digit_str((h / 10) % 10));
    r.append(digit_str(h % 10));
    r
}

/// Result of a relevance evaluation.
#[derive(Debug, Clone)]
pub struct Relevance {
    pub score: Score,
    pub matched: Vec<String>,
    pub reasons: Vec<String>,
}

/// A `Relevance` as plain values.
pub struct RelevanceView {
    pub score: Score,
    pub matched: Seq<Seq<char>>,
    pub reasons: Seq<Seq<char>>,
}

impl View for Relevance {
    type V = RelevanceView;

    open spec fn view(&self) -> RelevanceView {
        RelevanceView {
            score: self.score,
            matched: views(self.matched@),
            reasons: views(self.reasons@),
        }
    }
}

impl Default for Relevance {
    /// Score 0, nothing matched, no reasons.
    fn default() -> (r: Relevance)
        ensures
            r.score == Score::zero(),
            r.matched@.len() == 0,
            r.reasons@.len() == 0,
    {
        Relevance { score: Score::zero(), matched: Vec::new(), reasons: Vec::new() }
    }
}

} // verus!
