//! When the AI is worth a call: only for statements of trusted sources
//! whose relevance score lies close above the threshold.

use crate::ingest::{is_whitelisted, whitelisted};
use crate::relevance::config::{DEFAULT_RELEVANCE_THRESHOLD, MILLION};
use crate::relevance::score::{Relevance, Score, SCORE_LIMIT};
use crate::text::{chars_of, digit_value, views};
use vstd::prelude::*;

verus! {

/// The width of the band above the threshold in which the AI is asked,
/// when nothing else is configured: 0.08, in millionths.
pub const DEFAULT_AI_SCORE_BAND: u32 = 80_000;

/// The characters of the tag that carries the threshold.
pub open spec fn threshold_tag() -> Seq<char> {
    "threshold_ok:"@
}

/// The value in millionths that the characters from `at` on write when
/// `whole` is the value of the digits before the point and `seen` digits
/// after the point were read: every further digit up to the sixth adds
/// its place, later digits are dropped. `None` if a character is no
/// digit.
pub open spec fn fraction_value(s: Seq<char>, at: int, whole: nat, seen: nat) -> Option<nat>
    decreases s.len() - at,
{
    if at < 0 || at >= s.len() {
        Some(whole)
    } else {
        match digit_value(s[at]) {
            None => None,
            Some(d) => fraction_value(s, at + 1, whole + d * place(seen), seen + 1),
        }
    }
}

/// The weight in millionths of the digit that follows `seen` digits
/// after the point.
pub open spec fn place(seen: nat) -> nat {
    if seen == 0 {
        100_000
    } else if seen == 1 {
        10_000
    } else if seen == 2 {
        1_000
    } else if seen == 3 {
        100
    } else if seen == 4 {
        10
    } else if seen == 5 {
        1
    } else {
        0
    }
}

/// The value in millionths that the characters from `at` on write as a
/// decimal number, `whole` being the value of the digits read so far:
/// digits, then optionally a point and more digits. `None` if a character
/// is out of place.
pub open spec fn number_value(s: Seq<char>, at: int, whole: nat) -> Option<nat>
    decreases s.len() - at,
{
    if at < 0 || at >= s.len() {
        Some(whole * 1_000_000)
    } else if s[at] == '.' {
        fraction_value(s, at + 1, whole * 1_000_000, 0)
    } else {
        match digit_value(s[at]) {
            None => None,
            Some(d) => number_value(s, at + 1, whole * 10 + d),
        }
    }
}

/// The threshold in millionths that a reason carries: the reason is the
/// tag `threshold_ok:` followed by a decimal number that starts with a
/// digit and fits 32 bits in millionths.
pub open spec fn threshold_in(reason: Seq<char>) -> Option<u32> {
    let tag = threshold_tag();
    if reason.len() > tag.len() && reason.take(tag.len() as int) == tag && digit_value(
        reason[tag.len() as int],
    ) is Some {
        match number_value(reason, tag.len() as int, 0) {
            Some(v) if v <= u32::MAX => Some(v as u32),
            _ => None,
        }
    } else {
        None
    }
}

/// The threshold of the first reason, from reason `i` on, that carries
/// one.
pub open spec fn first_threshold_from(reasons: Seq<Seq<char>>, i: int) -> Option<u32>
    decreases reasons.len() - i,
{
    if i < 0 || i >= reasons.len() {
        None
    } else if threshold_in(reasons[i]) is Some {
        threshold_in(reasons[i])
    } else {
        first_threshold_from(reasons, i + 1)
    }
}

/// The value never shrinks while digits are read.
proof fn lemma_fraction_grows(s: Seq<char>, at: int, whole: nat, seen: nat)
    requires
        0 <= at,
    ensures
        fraction_value(s, at, whole, seen) matches Some(v) ==> v >= whole,
    decreases s.len() - at,
{
    if at < s.len() {
        match digit_value(s[at]) {
            None => {},
            Some(d) => {
                lemma_fraction_grows(s, at + 1, whole + d * place(seen), seen + 1);
            },
        }
    }
}

/// The value never shrinks while digits are read.
proof fn lemma_number_grows(s: Seq<char>, at: int, whole: nat)
    requires
        0 <= at,
    ensures
        number_value(s, at, whole) matches Some(v) ==> v >= whole * 1_000_000,
    decreases s.len() - at,
{
    if at < s.len() {
        if s[at] == '.' {
            lemma_fraction_grows(s, at + 1, whole * 1_000_000, 0);
        } else {
            match digit_value(s[at]) {
                None => {},
                Some(d) => {
                    lemma_number_grows(s, at + 1, whole * 10 + d);
                },
            }
        }
    }
}

fn digit_of(c: char) -> (r: Option<u64>)
    ensures
        match r {
            Some(d) => digit_value(c) == Some(d as nat) && d <= 9,
            None => digit_value(c) is None,
        },
{
    if '0' <= c && c <= '9' {
        Some(((c as u32) - ('0' as u32)) as u64)
    } else {
        None
    }
}

fn read_threshold(reason: &str) -> (r: Option<u32>)
    ensures
        r == threshold_in(reason@),
{
    let chars = chars_of(reason);
    let tag = chars_of("threshold_ok:");
    if chars.len() <= tag.len() {
        return None;
    }
    let mut k: usize = 0;
    while k < tag.len()
        invariant
            k <= tag.len() < chars.len(),
            chars@ == reason@,
            tag@ == threshold_tag(),
            forall|j: int| 0 <= j < k ==> chars@[j] == tag@[j],
        decreases tag.len() - k,
    {
        if chars[k] != tag[k] {
            assert(reason@.take(tag@.len() as int)[k as int] != tag@[k as int]);
            return None;
        }
        k += 1;
    }
    assert(reason@.take(tag@.len() as int) =~= tag@);
    let start = tag.len();
    if digit_of(chars[start]).is_none() {
        return None;
    }
    let ghost s = reason@;
    let ghost written = number_value(s, start as int, 0);
    assert(threshold_in(s) == match written {
        Some(v) if v <= u32::MAX => Some(v as u32),
        _ => None,
    });
    let mut whole: u64 = 0;
    let mut i: usize = start;
    // the digits before the point
    while i < chars.len() && chars[i] != '.'
        invariant
            start <= i <= chars.len(),
            chars@ == s,
            s == reason@,
            whole <= u32::MAX,
            written == number_value(s, i as int, whole as nat),
            threshold_in(s) == match written {
                Some(v) if v <= u32::MAX => Some(v as u32),
                _ => None,
            },
        decreases chars.len() - i,
    {
        assert(s[i as int] == chars@[i as int]);
        match digit_of(chars[i]) {
            None => {
                assert(written is None);
                return None;
            },
            Some(d) => {
                let next = whole * 10 + d;
                assert(written == number_value(s, i + 1, next as nat));
                if next > u32::MAX as u64 {
                    proof {
                        lemma_number_grows(s, i + 1, next as nat);
                        assert(written matches Some(v) ==> v > u32::MAX);
                    }
                    return None;
                }
                whole = next;
            },
        }
        i += 1;
    }
    let mut value: u64 = whole * 1_000_000;
    if i < chars.len() {
        // the point, then the digits after it
        i += 1;
        let mut seen: usize = 0;
        while i < chars.len()
            invariant
                start < i <= chars.len(),
                chars@ == s,
                s == reason@,
                seen < i,
                value <= 0xffff_ffff * 1_000_000 + (if seen < 6 {
                    seen as int
                } else {
                    6
                }) * 900_000,
                written == fraction_value(s, i as int, value as nat, seen as nat),
                threshold_in(s) == match written {
                    Some(v) if v <= u32::MAX => Some(v as u32),
                    _ => None,
                },
            decreases chars.len() - i,
        {
            assert(s[i as int] == chars@[i as int]);
            match digit_of(chars[i]) {
                None => {
                    assert(written is None);
                    return None;
                },
                Some(d) => {
                    let weight: u64 = if seen == 0 {
                        100_000
                    } else if seen == 1 {
                        10_000
                    } else if seen == 2 {
                        1_000
                    } else if seen == 3 {
                        100
                    } else if seen == 4 {
                        10
                    } else if seen == 5 {
                        1
                    } else {
                        0
                    };
                    assert(weight == place(seen as nat));
                    assert(d * weight <= 900_000 && (seen >= 6 ==> d * weight == 0))
                        by (nonlinear_arith)
                        requires
                            d <= 9,
                            weight <= 100_000,
                            seen >= 6 ==> weight == 0,
                    ;
                    value = value + d * weight;
                    seen += 1;
                },
            }
            i += 1;
        }
    }
    assert(written == Some(value as nat));
    if value > u32::MAX as u64 {
        None
    } else {
        Some(value as u32)
    }
}

/// Finds the threshold that the reasons of a result carry: that of the
/// first reason of the form `threshold_ok:<number>`, in millionths.
pub fn extract_threshold_from_reasons(rel: &Relevance) -> (r: Option<u32>)
    ensures
        r == first_threshold_from(views(rel.reasons@), 0),
{
    let mut i: usize = 0;
    while i < rel.reasons.len()
        invariant
            i <= rel.reasons.len(),
            first_threshold_from(views(rel.reasons@), 0) == first_threshold_from(
                views(rel.reasons@),
                i as int,
            ),
        decreases rel.reasons.len() - i,
    {
        assert(views(rel.reasons@)[i as int] == rel.reasons@[i as int]@);
        match read_threshold(rel.reasons[i].as_str()) {
            Some(t) => {
                return Some(t);
            },
            None => {},
        }
        i += 1;
    }
    None
}

/// The score lies at most `band` above the threshold, both in
/// millionths: `num / den - threshold <= band`.
pub open spec fn within_band(score: Score, threshold: u32, band: u32) -> bool {
    score.num * MILLION <= (threshold + band) * score.den
}

/// The AI is worth a call: the score is positive, the source is one of
/// the allowed ones, and the score lies at most `band` above the
/// threshold, which is the one that the reasons carry, or one half.
pub open spec fn gate_open(
    source: Seq<char>,
    rel: Relevance,
    allowed: Seq<String>,
    band: u32,
) -> bool {
    let threshold = match first_threshold_from(views(rel.reasons@), 0) {
        Some(t) => t,
        None => DEFAULT_RELEVANCE_THRESHOLD,
    };
    rel.score.spec_is_positive() && whitelisted(source, allowed) && within_band(
        rel.score,
        threshold,
        band,
    )
}

/// Decides whether the AI is asked about a statement of `source` with
/// the relevance result `rel`.
pub fn ai_gate_should_call(source: &str, rel: &Relevance, allowed: &Vec<String>, band: u32) -> (r:
    bool)
    requires
        rel.score.in_unit_range(),
        rel.score.den <= SCORE_LIMIT,
    ensures
        r == gate_open(source@, *rel, allowed@, band),
{
    if !rel.score.is_positive() {
        return false;
    }
    if !is_whitelisted(source, allowed) {
        return false;
    }
    let threshold = match extract_threshold_from_reasons(rel) {
        Some(t) => t,
        None => DEFAULT_RELEVANCE_THRESHOLD,
    };
    let edge: u64 = threshold as u64 + band as u64;
    if edge >= MILLION as u64 {
        assert(rel.score.num * MILLION <= edge * rel.score.den) by (nonlinear_arith)
            requires
                rel.score.num <= rel.score.den,
                edge >= MILLION,
        ;
        return true;
    }
    assert(rel.score.num * MILLION <= u128::MAX && edge * rel.score.den <= u128::MAX)
        by (nonlinear_arith)
        requires
            rel.score.num <= rel.score.den,
            rel.score.den <= 0x3_0000_0000_0000_0000_0000_0000,
            edge < MILLION,
            MILLION == 1_000_000,
    ;
    rel.score.num * (MILLION as u128) <= (edge as u128) * rel.score.den
}

} // verus!
