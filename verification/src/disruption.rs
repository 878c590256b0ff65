//! Heuristics that detect disruptive, shock-like statements.
//!
//! Three components are weighed: the credibility of the source, the
//! intensity of the sentiment, and the age of the statement. A statement
//! triggers if its source weighs at least 0.80, its strength at least
//! 0.90, and it is less than thirty minutes old. Weights are kept in
//! thousandths.

use crate::source_weights::{weight_of, SourceWeightsConfig, WEIGHT_ONE};
use crate::text::{chars_of, lower_chars, lowered, string_of, str_eq, trim_chars, trimmed};
use vstd::prelude::*;

verus! {

/// The least weight of a source that triggers: 0.80.
pub const TRIGGER_W_SOURCE_MIN: u32 = 800;

/// The least strength that triggers: 0.90.
pub const TRIGGER_W_STRENGTH_MIN: u32 = 900;

/// The age in seconds from which on nothing triggers: thirty minutes.
pub const TRIGGER_MAX_AGE_SECS: u64 = 1_800;

/// The age in seconds up to which a statement is fully fresh.
pub const RECENCY_SOFT_START_SECS: u64 = 900;

/// The absolute score from which on the strength is 1.
pub const STRENGTH_CAP: i32 = 2;

/// Input bundle for the evaluation.
#[derive(Debug, Clone)]
pub struct DisruptionInput {
    pub source: String,
    pub text: String,
    pub score: i32,
    /// Unix timestamp in seconds when the statement was published or
    /// seen.
    pub ts_unix: u64,
}

/// Result with the component weights, in thousandths.
#[derive(Debug, Clone, Copy, PartialEq, Eq, Structural)]
pub struct DisruptionResult {
    pub triggered: bool,
    pub w_source: u32,
    pub w_strength: u32,
    pub age_secs: u64,
}

impl DisruptionResult {
    /// A result that did not trigger.
    pub fn not_triggered(w_source: u32, w_strength: u32, age_secs: u64) -> (r: DisruptionResult)
        ensures
            r == (DisruptionResult { triggered: false, w_source, w_strength, age_secs }),
    {
        DisruptionResult { triggered: false, w_source, w_strength, age_secs }
    }

    /// A result that triggered.
    pub fn triggered(w_source: u32, w_strength: u32, age_secs: u64) -> (r: DisruptionResult)
        ensures
            r == (DisruptionResult { triggered: true, w_source, w_strength, age_secs }),
    {
        DisruptionResult { triggered: true, w_source, w_strength, age_secs }
    }
}

/// The strength of a score in thousandths: its absolute value over the
/// cap of 2, at most 1.
pub open spec fn strength_of(score: i32) -> u32 {
    let magnitude = if score < 0 {
        -(score as int)
    } else {
        score as int
    };
    if magnitude >= 2 {
        1_000
    } else {
        (magnitude * 500) as u32
    }
}

/// The recency weight of an age in thousandths: 1 up to fifteen minutes,
/// then falling in a line to 0 at thirty minutes, rounded down.
pub open spec fn recency_of(age_secs: u64) -> u32 {
    if age_secs <= RECENCY_SOFT_START_SECS {
        1_000
    } else if age_secs <= TRIGGER_MAX_AGE_SECS {
        (1_000 - ((age_secs - RECENCY_SOFT_START_SECS) * 1_000 + 899) / 900) as u32
    } else {
        0
    }
}

/// The fallback weight of a source in thousandths, by its trimmed name
/// in lower case.
pub open spec fn fallback_weight(source: Seq<char>) -> u32 {
    let s = lowered(trimmed(source));
    if s == "trump"@ {
        950
    } else if s == "fed"@ {
        900
    } else if s == "yellen"@ {
        850
    } else {
        600
    }
}

/// The age of a statement at `now`, 0 if it lies in the future.
pub open spec fn age_of(now: u64, ts_unix: u64) -> u64 {
    if now >= ts_unix {
        (now - ts_unix) as u64
    } else {
        0
    }
}

/// The result for given component weights: it triggers if source and
/// strength reach their thresholds and the recency weight is above 0.
pub open spec fn result_of(w_source: u32, score: i32, age_secs: u64) -> DisruptionResult {
    DisruptionResult {
        triggered: w_source >= TRIGGER_W_SOURCE_MIN && strength_of(score)
            >= TRIGGER_W_STRENGTH_MIN && recency_of(age_secs) > 0,
        w_source,
        w_strength: strength_of(score),
        age_secs,
    }
}

/// Normalizes a score to a strength by its absolute value.
pub fn strength_weight(score: i32) -> (r: u32)
    ensures
        r == strength_of(score),
        r <= WEIGHT_ONE,
{
    let magnitude: i64 = if score < 0 {
        -(score as i64)
    } else {
        score as i64
    };
    if magnitude >= STRENGTH_CAP as i64 {
        1_000
    } else {
        (magnitude * 500) as u32
    }
}

/// Soft recency weight: 1 up to 15 minutes, decaying in a line to 0 at
/// 30 minutes, 0 afterwards.
pub fn recency_weight(age_secs: u64) -> (r: u32)
    ensures
        r == recency_of(age_secs),
        r > 0 <==> age_secs < TRIGGER_MAX_AGE_SECS,
{
    if age_secs <= RECENCY_SOFT_START_SECS {
        1_000
    } else if age_secs <= TRIGGER_MAX_AGE_SECS {
        let over = age_secs - RECENCY_SOFT_START_SECS;
        (1_000 - (over * 1_000 + 899) / 900) as u32
    } else {
        0
    }
}

/// Heuristic source weights, the fallback where no configuration is at
/// hand.
pub fn source_weight(source: &str) -> (r: u32)
    ensures
        r == fallback_weight(source@),
{
    let s = string_of(&lower_chars(&trim_chars(&chars_of(source))));
    if str_eq(s.as_str(), "trump") {
        950
    } else if str_eq(s.as_str(), "fed") {
        900
    } else if str_eq(s.as_str(), "yellen") {
        850
    } else {
        600
    }
}

fn decide(w_source: u32, score: i32, age_secs: u64) -> (r: DisruptionResult)
    ensures
        r == result_of(w_source, score, age_secs),
{
    let w_strength = strength_weight(score);
    let w_recency = recency_weight(age_secs);
    let passes = w_source >= TRIGGER_W_SOURCE_MIN && w_strength >= TRIGGER_W_STRENGTH_MIN
        && w_recency > 0;
    if passes {
        DisruptionResult::triggered(w_source, w_strength, age_secs)
    } else {
        DisruptionResult::not_triggered(w_source, w_strength, age_secs)
    }
}

/// Evaluates whether the input is disruptive at time `now`, with the
/// fallback weights of the sources.
pub fn evaluate(input: &DisruptionInput, now: u64) -> (r: DisruptionResult)
    ensures
        r == result_of(
            fallback_weight(input.source@),
            input.score,
            age_of(now, input.ts_unix),
        ),
{
    let age_secs = now.saturating_sub(input.ts_unix);
    decide(source_weight(input.source.as_str()), input.score, age_secs)
}

/// Evaluates whether the input is disruptive at time `now`, with the
/// weights of a configuration.
pub fn evaluate_with_weights(input: &DisruptionInput, sw: &SourceWeightsConfig, now: u64) -> (r:
    DisruptionResult)
    ensures
        r == result_of(weight_of(*sw, input.source@), input.score, age_of(now, input.ts_unix)),
{
    let age_secs = now.saturating_sub(input.ts_unix);
    decide(sw.weight_for(input.source.as_str()), input.score, age_secs)
}

} // verus!
