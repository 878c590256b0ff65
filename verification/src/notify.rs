//! The kinds of decisions that are notified, and the cooldown between
//! two alerts.

pub mod antiflutter;

use crate::text::{eq_ignore_ascii_case, text_eq_ignore_case};
use vstd::prelude::*;

verus! {

/// High-level decision kinds used across notifications.
#[derive(Debug, Clone, Copy, PartialEq, Eq, Structural)]
pub enum DecisionKind {
    BUY,
    SELL,
    HOLD,
}

/// The kind that a label stands for, in any case: `BUY`, `SELL` or
/// `HOLD`, and `HOLD` for anything else.
pub open spec fn kind_of(label: Seq<char>) -> DecisionKind {
    if text_eq_ignore_case(label, "BUY"@) {
        DecisionKind::BUY
    } else if text_eq_ignore_case(label, "SELL"@) {
        DecisionKind::SELL
    } else {
        DecisionKind::HOLD
    }
}

/// Reads the kind of a decision from its label.
pub fn map_decision(s: &str) -> (k: DecisionKind)
    ensures
        k == kind_of(s@),
{
    if eq_ignore_ascii_case(s, "BUY") {
        DecisionKind::BUY
    } else if eq_ignore_ascii_case(s, "SELL") {
        DecisionKind::SELL
    } else {
        DecisionKind::HOLD
    }
}

/// Whether a switch of the environment is on: its value is `1`, or `true`
/// in any case.
pub fn is_truthy(value: Option<&str>) -> (r: bool)
    ensures
        r == (value matches Some(v) && (v@ == "1"@ || text_eq_ignore_case(v@, "true"@))),
{
    match value {
        Some(v) => crate::text::str_eq(v, "1") || eq_ignore_ascii_case(v, "true"),
        None => false,
    }
}

} // verus!
