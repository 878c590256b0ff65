//! Verdicts, the kinds of reasons, and what the relevance gate adds to
//! the reasons of a decision.

use crate::relevance::score::{Relevance, Score};
use crate::text::{concat2, decimal, decimal_string, digit_char, digit_str, views};
use vstd::prelude::*;
use vstd::string::StringExecFns;

verus! {

/// Final verdict of a decision.
#[derive(Debug, Clone, Copy, PartialEq, Eq, Structural)]
pub enum Verdict {
    Buy,
    Hold,
    Sell,
}

/// Coarse-grained kinds of reasons.
#[derive(Debug, Clone, Copy, PartialEq, Eq, Structural)]
pub enum ReasonKind {
    SourceStrength,
    Recency,
    Consensus,
    Volume,
    RollingTrend,
    Threshold,
    Other,
}

impl Verdict {
    /// The verdict in upper case, as it is shown.
    pub fn label(&self) -> (r: &'static str)
        ensures
            r@ == match *self {
                Verdict::Buy => "BUY"@,
                Verdict::Hold => "HOLD"@,
                Verdict::Sell => "SELL"@,
            },
    {
        match self {
            Verdict::Buy => "BUY",
            Verdict::Hold => "HOLD",
            Verdict::Sell => "SELL",
        }
    }
}

/// A reason that the relevance gate adds to a decision.
#[derive(Debug, Clone)]
pub struct GateNote {
    pub message: String,
    pub kind: Option<ReasonKind>,
}

/// A gate note as plain values.
pub open spec fn note_view(n: GateNote) -> (Seq<char>, Option<ReasonKind>) {
    (n.message@, n.kind)
}

/// A score in hundredths, rounded to the nearest, a tie to the even
/// neighbour.
pub open spec fn score_hundredths(s: Score) -> nat {
    let q = (s.num * 100) / (s.den as int);
    let r = (s.num * 100) % (s.den as int);
    if 2 * r > s.den || (2 * r == s.den && q % 2 == 1) {
        (q + 1) as nat
    } else {
        q as nat
    }
}

/// A number of hundredths written with two decimals.
pub open spec fn with_two_decimals(h: nat) -> Seq<char> {
    decimal(h / 100) + "."@ + seq![digit_char((h / 10) % 10)] + seq![digit_char(h % 10)]
}

/// The notes that the relevance gate leaves: first whether the text passed, with
/// the score if it did, then every reason of the relevance result with
/// `rel: ` before it.
pub open spec fn gate_notes(score: Score, reasons: Seq<Seq<char>>) -> Seq<
    (Seq<char>, Option<ReasonKind>),
> {
    seq![
        (
            if score.spec_is_positive() {
                "relevance gate passed (rel "@ + with_two_decimals(score_hundredths(score)) + ")"@
            } else {
                "neutralized by relevance gate (rel <= 0.00)"@
            },
            Some(ReasonKind::Threshold),
        ),
    ] + reasons.map_values(|r: Seq<char>| ("rel: "@ + r, None::<ReasonKind>))
}

/// Writes a score with two decimals.
pub fn score_text(score: Score) -> (r: String)
    requires
        score.in_unit_range(),
        score.den <= crate::relevance::score::SCORE_LIMIT,
    ensures
        r@ == with_two_decimals(score_hundredths(score)),
{
    assert(score.num * 100 <= 0x3_0000_0000_0000_0000_0000_0000 * 100) by (nonlinear_arith)
        requires
            score.num <= 0x3_0000_0000_0000_0000_0000_0000,
    ;
    let scaled: u128 = score.num * 100;
    let q: u128 = scaled / score.den;
    let rest: u128 = scaled % score.den;
    assert(q <= 100) by (nonlinear_arith)
        requires
            q == scaled / score.den,
            scaled == score.num * 100,
            score.num <= score.den,
            score.den > 0,
    ;
    let h: u64 = if 2 * rest > score.den || (2 * rest == score.den && q % 2 == 1) {
        (q + 1) as u64
    } else {
        q as u64
    };
    let mut r = decimal_string(h / 100);
    r.append(".");
    r.append(digit_str((h / 10) % 10));
    r.append(digit_str(h % 10));
    r
}

/// Applies the relevance gate to the reasons of a decision. Returns
/// whether the text passed, that is whether its score is positive, and
/// the notes to add. Where it did not pass, the caller neutralizes the
/// confidence of the decision and keeps its verdict.
pub fn apply_relevance_gate(rel: &Relevance) -> (r: (bool, Vec<GateNote>))
    requires
        rel.score.in_unit_range(),
        rel.score.den <= crate::relevance::score::SCORE_LIMIT,
    ensures
        r.0 == rel.score.spec_is_positive(),
        r.1@.map_values(|n: GateNote| note_view(n)) == gate_notes(rel.score, views(rel.reasons@)),
{
    let passed = rel.score.is_positive();
    let mut notes: Vec<GateNote> = Vec::new();
    let first = if passed {
        let mut m = concat2("relevance gate passed (rel ", score_text(rel.score).as_str());
        m.append(")");
        m
    } else {
        String::from_str("neutralized by relevance gate (rel <= 0.00)")
    };
    notes.push(GateNote { message: first, kind: Some(ReasonKind::Threshold) });
    let ghost head = notes@.map_values(|n: GateNote| note_view(n));
    let ghost tail = views(rel.reasons@).map_values(
        |r: Seq<char>| ("rel: "@ + r, None::<ReasonKind>),
    );
    let mut i: usize = 0;
    assert(head + tail.take(0) =~= head);
    while i < rel.reasons.len()
        invariant
            i <= rel.reasons.len(),
            tail == views(rel.reasons@).map_values(
                |r: Seq<char>| ("rel: "@ + r, None::<ReasonKind>),
            ),
            notes@.map_values(|n: GateNote| note_view(n)) == head + tail.take(i as int),
        decreases rel.reasons.len() - i,
    {
        let ghost before = notes@.map_values(|n: GateNote| note_view(n));
        notes.push(GateNote { message: concat2("rel: ", rel.reasons[i].as_str()), kind: None });
        assert(notes@.map_values(|n: GateNote| note_view(n)) =~= before.push(tail[i as int]));
        assert(head + tail.take(i + 1) =~= (head + tail.take(i as int)).push(tail[i as int]));
        i += 1;
    }
    assert(tail.take(rel.reasons@.len() as int) =~= tail);
    (passed, notes)
}

} // verus!
