// The threshold that the reasons of a relevance result carry.

use dow_sentiment_analyzer::relevance::ai_gate::extract_threshold_from_reasons;
use dow_sentiment_analyzer::relevance::score::{Relevance, Score};

// A relevance result with a threshold tag among its reasons.
fn mk_relevance_with_threshold(score: Score, threshold: &str) -> Relevance {
    Relevance {
        score,
        reasons: vec![
            "note: macro/hard combo".to_string(),
            format!("threshold_ok:{threshold}"),
            "other tag".to_string(),
        ],
        ..Default::default()
    }
}

#[test]
fn extracts_threshold_from_relevance() {
    let rel = mk_relevance_with_threshold(Score { num: 72, den: 100 }, "0.72");
    let th = extract_threshold_from_reasons(&rel).expect("should parse threshold from reasons");
    assert_eq!(th, 720_000, "unexpected threshold value: {th}");
}

#[test]
fn returns_none_when_no_threshold_tag_present() {
    let rel = Relevance {
        score: Score { num: 31, den: 100 },
        reasons: vec!["some note".into(), "no threshold here".into()],
        ..Default::default()
    };
    let th = extract_threshold_from_reasons(&rel);
    assert!(th.is_none(), "expected None when threshold tag is absent");
}

#[test]
fn threshold_numbers_are_read_in_millionths() {
    let read = |reason: &str| {
        extract_threshold_from_reasons(&Relevance {
            score: Score { num: 0, den: 1 },
            matched: vec![],
            reasons: vec![reason.to_string()],
        })
    };
    assert_eq!(read("threshold_ok:0.18"), Some(180_000));
    assert_eq!(read("threshold_ok:1.00"), Some(1_000_000));
    assert_eq!(read("threshold_ok:1"), Some(1_000_000));
    assert_eq!(read("threshold_ok:0"), Some(0));
    assert_eq!(read("threshold_ok:0."), Some(0));
    assert_eq!(read("threshold_ok:0.5"), Some(500_000));
    assert_eq!(read("threshold_ok:0.123456"), Some(123_456));
    assert_eq!(read("threshold_ok:0.1234567"), Some(123_456));
    assert_eq!(read("threshold_ok:12.35"), Some(12_350_000));
    assert_eq!(read("threshold_ok:4294.967295"), Some(4_294_967_295));
    assert_eq!(read("threshold_ok:4294.967296"), None);
    assert_eq!(read("threshold_ok:4295"), None);
    assert_eq!(read("threshold_ok:99999999999999999999"), None);
    assert_eq!(read("threshold_ok:"), None);
    assert_eq!(read("threshold_ok:.5"), None);
    assert_eq!(read("threshold_ok:0.5x"), None);
    assert_eq!(read("threshold_ok:0.5.1"), None);
    assert_eq!(read("threshold_ok: 0.5"), None);
    assert_eq!(read("threshold_ok:-0.5"), None);
    assert_eq!(read("threshold_fail:0.50"), None);
    assert_eq!(read(" threshold_ok:0.50"), None);
    assert_eq!(read("Threshold_ok:0.50"), None);
}
