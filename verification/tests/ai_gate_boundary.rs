// The band above the threshold in which the AI is asked, and the
// extraction of the threshold from the reasons.

use dow_sentiment_analyzer::relevance::ai_gate::{
    ai_gate_should_call, extract_threshold_from_reasons, DEFAULT_AI_SCORE_BAND,
};
use dow_sentiment_analyzer::relevance::score::{Relevance, Score};

const TOP_SOURCE: &str = "Reuters";

fn s(v: &[&str]) -> Vec<String> {
    v.iter().map(|x| x.to_string()).collect()
}

fn allowed() -> Vec<String> {
    s(&["Reuters", "Fed"])
}

// A relevance result with the score `ten_thousandths / 10000` and, if
// given, a threshold tag among its reasons.
fn rel(ten_thousandths: u128, threshold: Option<&str>, extra_reasons: &[&str]) -> Relevance {
    let mut reasons = s(extra_reasons);
    if let Some(t) = threshold {
        reasons.push(format!("threshold_ok:{t}"));
    }
    Relevance { score: Score { num: ten_thousandths, den: 10_000 }, matched: vec![], reasons }
}

fn calls(r: &Relevance) -> bool {
    ai_gate_should_call(TOP_SOURCE, r, &allowed(), DEFAULT_AI_SCORE_BAND)
}

#[test]
fn threshold_extraction_simple_ok_tag() {
    let r = rel(0, None, &["threshold_ok:0.72"]);
    let t = extract_threshold_from_reasons(&r).expect("threshold expected");
    assert_eq!(t, 720_000, "expected 0.72, got {t}");
}

#[test]
fn threshold_extraction_ignores_other_text() {
    let r = rel(0, None, &["Some note", "threshold_ok:0.35", "other"]);
    let t = extract_threshold_from_reasons(&r).expect("threshold expected");
    assert_eq!(t, 350_000, "expected 0.35, got {t}");
}

#[test]
fn threshold_extraction_first_valid_wins_when_multiple_present() {
    let r = rel(0, None, &["threshold_ok:0.61", "note", "threshold_ok:0.42"]);
    let t = extract_threshold_from_reasons(&r).expect("threshold expected");
    assert_eq!(t, 610_000, "expected first valid 0.61, got {t}");
    let r = rel(0, None, &["threshold_ok:x", "threshold_ok:0.42"]);
    assert_eq!(extract_threshold_from_reasons(&r), Some(420_000));
}

#[test]
fn threshold_extraction_missing_returns_none() {
    let r = rel(0, None, &["no threshold here", "band=0.08"]);
    let t = extract_threshold_from_reasons(&r);
    assert!(t.is_none(), "expected None when no threshold_ok present, got {t:?}");
}

#[test]
fn gate_calls_inside_band_above_threshold() {
    // exactly at the threshold
    let r = rel(5_000, Some("0.50"), &[]);
    assert!(calls(&r), "call at exact threshold");

    // just inside the upper edge
    let r = rel(5_799, Some("0.50"), &[]);
    assert!(calls(&r), "call just inside upper edge");
}

#[test]
fn gate_calls_even_when_just_below_threshold_if_score_positive() {
    let r = rel(4_900, Some("0.50"), &[]);
    assert!(calls(&r), "positive score just below threshold should still call");
}

#[test]
fn gate_does_not_call_outside_band_above_threshold() {
    let r = rel(5_802, Some("0.50"), &[]);
    assert!(!calls(&r), "NO call just outside upper edge");
}

#[test]
fn gate_is_inclusive_on_upper_band_edge() {
    let r = rel(5_800, Some("0.50"), &[]);
    assert!(calls(&r), "call at inclusive upper edge");
    let r = Relevance { score: Score { num: 580_001, den: 1_000_000 }, matched: vec![], reasons: s(&["threshold_ok:0.50"]) };
    assert!(!calls(&r));
}

#[test]
fn gate_uses_extracted_threshold_when_available() {
    let r = rel(7_000, None, &["threshold_ok:0.62"]);
    let thr = extract_threshold_from_reasons(&r).expect("extraction failed");
    assert_eq!(thr, 620_000, "extraction failed, got {thr}");

    // upper edge = 0.62 + 0.08 = 0.70, inclusive
    assert!(calls(&r), "expected call at upper edge with extracted threshold");

    // slightly above the edge
    let r2 = rel(7_002, None, &["threshold_ok:0.62"]);
    assert!(!calls(&r2), "expected NO call just above edge");
}

#[test]
fn gate_with_weird_scores_outside_band_or_neutralized() {
    // a score of zero never calls
    let r = rel(0, Some("0.50"), &[]);
    assert!(!calls(&r));
}

#[test]
fn gate_needs_an_allowed_source() {
    let r = rel(5_000, Some("0.50"), &[]);
    assert!(ai_gate_should_call("reuters", &r, &allowed(), DEFAULT_AI_SCORE_BAND));
    assert!(ai_gate_should_call("FED", &r, &allowed(), DEFAULT_AI_SCORE_BAND));
    assert!(!ai_gate_should_call("RandomBlog", &r, &allowed(), DEFAULT_AI_SCORE_BAND));
    assert!(!ai_gate_should_call("Reuters", &r, &vec![], DEFAULT_AI_SCORE_BAND));
    // without a tag the threshold is one half
    let r = rel(5_800, None, &[]);
    assert!(calls(&r));
    let r = rel(5_801, None, &[]);
    assert!(!calls(&r));
    // a band that reaches 1 lets every positive score through
    let r = rel(10_000, Some("0.50"), &[]);
    assert!(!calls(&r));
    assert!(ai_gate_should_call(TOP_SOURCE, &r, &allowed(), 500_000));
    assert!(ai_gate_should_call(TOP_SOURCE, &r, &allowed(), u32::MAX));
    assert!(!ai_gate_should_call(TOP_SOURCE, &r, &allowed(), 499_999));
}
