// Verdicts, triggers, contributors, disruption, source weights, alerts,
// history and diagnostics.

use dow_sentiment_analyzer::change_detector::{ChangeDetector, TickAction};
use dow_sentiment_analyzer::debug::{record_decision, record_latency, record_request, Stats};
use dow_sentiment_analyzer::decision::{apply_relevance_gate, score_text, ReasonKind, Verdict};
use dow_sentiment_analyzer::disruption::{
    evaluate, evaluate_with_weights, recency_weight, source_weight, strength_weight,
    DisruptionInput, DisruptionResult, TRIGGER_MAX_AGE_SECS,
};
use dow_sentiment_analyzer::engine::{rank_contributors, select_triggers, ScoredItem};
use dow_sentiment_analyzer::history::{volume_counts, History, HistoryEntry, HistoryQuery, TopContributor};
use dow_sentiment_analyzer::notify::antiflutter::AntiFlutter;
use dow_sentiment_analyzer::notify::{is_truthy, map_decision, DecisionKind};
use dow_sentiment_analyzer::relevance::score::{Relevance, Score};
use dow_sentiment_analyzer::source_weights::{
    normalize, SourceAlias, SourceWeight, SourceWeightsConfig,
};
use std::collections::VecDeque;

fn trig(score: i32) -> ScoredItem {
    ScoredItem { score, triggered: true }
}

fn notrig(score: i32) -> ScoredItem {
    ScoredItem { score, triggered: false }
}

#[test]
fn buy_on_strong_positive_trigger() {
    let items = vec![trig(2), notrig(0)];
    let (verdict, main) = select_triggers(&items);
    assert_eq!(verdict, Verdict::Buy);
    assert_eq!(main, vec![0]);
}

#[test]
fn sell_on_strong_negative_trigger() {
    let items = vec![trig(-2)];
    let (verdict, main) = select_triggers(&items);
    assert_eq!(verdict, Verdict::Sell);
    assert_eq!(main, vec![0]);
}

#[test]
fn hold_on_conflict() {
    let items = vec![trig(2), trig(-2)];
    let (verdict, main) = select_triggers(&items);
    assert_eq!(verdict, Verdict::Hold);
    // as many on both sides: the positive ones are cited
    assert_eq!(main, vec![0]);
}

#[test]
fn hold_without_triggers() {
    let items = vec![notrig(0)];
    let (verdict, main) = select_triggers(&items);
    assert_eq!(verdict, Verdict::Hold);
    assert!(main.is_empty());
}

#[test]
fn triggers_need_a_direction() {
    // a trigger with score 0 has no direction, and a score without trigger does not count
    assert_eq!(select_triggers(&vec![trig(0), notrig(5), notrig(-5)]), (Verdict::Hold, vec![]));
    assert_eq!(select_triggers(&vec![]), (Verdict::Hold, vec![]));
    assert_eq!(select_triggers(&vec![trig(-1), trig(3), trig(-4)]), (Verdict::Hold, vec![0, 2]));
    assert_eq!(select_triggers(&vec![trig(1), notrig(-9), trig(3)]), (Verdict::Buy, vec![0, 2]));
    assert_eq!(Verdict::Buy.label(), "BUY");
    assert_eq!(Verdict::Hold.label(), "HOLD");
    assert_eq!(Verdict::Sell.label(), "SELL");
}

#[test]
fn contributors_are_ranked_like_a_stable_sort_reversed() {
    let cases: Vec<Vec<ScoredItem>> = vec![
        vec![],
        vec![notrig(1)],
        vec![notrig(1), notrig(1)],
        vec![notrig(0), trig(0), notrig(-7), trig(3), notrig(7), trig(-3)],
        vec![trig(i32::MIN), notrig(i32::MAX), trig(i32::MAX), notrig(i32::MIN)],
        vec![notrig(2), notrig(2), notrig(2), notrig(2)],
        vec![notrig(1_000), trig(0), notrig(999), trig(1)],
    ];
    for items in cases {
        let mut all: Vec<usize> = (0..items.len()).collect();
        all.sort_by_key(|&i| {
            let boost: i64 = if items[i].triggered { 1000 } else { 0 };
            boost + (items[i].score as i64).abs()
        });
        all.reverse();
        all.truncate(3);
        assert_eq!(rank_contributors(&items), all, "{items:?}");
    }
    assert_eq!(rank_contributors(&vec![notrig(0), trig(0), notrig(-7), trig(3), notrig(7), trig(-3)]), vec![5, 3, 1]);
}

#[test]
fn relevance_gate_leaves_notes() {
    let passed = Relevance {
        score: Score { num: 5, den: 15 },
        matched: vec!["a".to_string()],
        reasons: vec!["combos_ok".to_string(), "threshold_ok:0.30".to_string()],
    };
    let (ok, notes) = apply_relevance_gate(&passed);
    assert!(ok);
    assert_eq!(
        notes.iter().map(|n| (n.message.as_str(), n.kind)).collect::<Vec<_>>(),
        vec![
            ("relevance gate passed (rel 0.33)", Some(ReasonKind::Threshold)),
            ("rel: combos_ok", None),
            ("rel: threshold_ok:0.30", None),
        ]
    );
    let neutral = Relevance {
        score: Score { num: 0, den: 1 },
        matched: vec![],
        reasons: vec!["blocker:x:y".to_string()],
    };
    let (ok, notes) = apply_relevance_gate(&neutral);
    assert!(!ok);
    assert_eq!(
        notes.iter().map(|n| (n.message.as_str(), n.kind)).collect::<Vec<_>>(),
        vec![
            ("neutralized by relevance gate (rel <= 0.00)", Some(ReasonKind::Threshold)),
            ("rel: blocker:x:y", None),
        ]
    );
    assert_eq!(score_text(Score { num: 1, den: 1 }), "1.00");
    assert_eq!(score_text(Score { num: 0, den: 9 }), "0.00");
    assert_eq!(score_text(Score { num: 2, den: 3 }), "0.67");
    assert_eq!(score_text(Score { num: 1, den: 8 }), "0.12");
    assert_eq!(score_text(Score { num: 3, den: 8 }), "0.38");
    assert_eq!(score_text(Score { num: 1, den: 200 }), "0.00");
    assert_eq!(score_text(Score { num: 3, den: 200 }), "0.02");
}

fn input(source: &str, score: i32, ts_unix: u64) -> DisruptionInput {
    DisruptionInput { source: source.into(), text: "Strong statement".into(), score, ts_unix }
}

const NOW: u64 = 1_700_000_000;

#[test]
fn strong_trump_recent_triggers() {
    let inp = input("Trump", 3, NOW);
    let res = evaluate(&inp, NOW);
    assert!(res.triggered);
    assert!(res.w_source >= 900);
    assert!(res.w_strength >= 900);
    assert!(res.age_secs <= TRIGGER_MAX_AGE_SECS);
}

#[test]
fn weak_or_old_does_not_trigger() {
    // Weak score
    let a = input("Fed", 1, NOW);
    assert!(!evaluate(&a, NOW).triggered);

    // Old (31 min)
    let b = input("Trump", 3, NOW - (31 * 60));
    assert!(!evaluate(&b, NOW).triggered);
}

fn cfg_with(source: &str, w: u32) -> SourceWeightsConfig {
    SourceWeightsConfig {
        default_weight: 600,
        weights: vec![SourceWeight { name: source.to_ascii_lowercase(), weight: w }],
        aliases: vec![],
    }
}

#[test]
fn triggers_when_weight_and_strength_meet_thresholds() {
    let cfg = cfg_with("BigSource", 900);
    let res = evaluate_with_weights(&input("BigSource", 2, NOW), &cfg, NOW);
    assert!(res.triggered, "expected to trigger");
    assert!(res.w_source >= 900);
    assert!(res.w_strength >= 900);
}

#[test]
fn does_not_trigger_if_source_weight_too_low() {
    let cfg = cfg_with("LowSource", 700);
    let res = evaluate_with_weights(&input("LowSource", 2, NOW), &cfg, NOW);
    assert!(!res.triggered, "should not trigger due to low w_source");
    assert!(res.w_source < 800);
    assert!(res.w_strength >= 900);
}

#[test]
fn does_not_trigger_if_too_old() {
    let cfg = cfg_with("Fed", 950);
    let old_ts = NOW.saturating_sub(31 * 60);
    let res = evaluate_with_weights(&input("Fed", -3, old_ts), &cfg, NOW);
    assert!(!res.triggered, "should not trigger due to age");
    assert!(res.w_source >= 900);
    assert!(res.w_strength >= 900);
    assert!(res.age_secs > 1800);
}

#[test]
fn recency_soft_taper_between_15_and_30_min() {
    let inp_20m = input("Fed", 3, NOW - (20 * 60));
    let res = evaluate_with_weights(&inp_20m, &SourceWeightsConfig::default_seed(), NOW);
    // Should still pass (≤ 30 min), but with lower recency weight
    assert!(res.triggered);
    assert_eq!(recency_weight(20 * 60), 666);
}

#[test]
fn recency_above_30_min_should_not_trigger() {
    let inp_31m = input("Fed", 3, NOW - (31 * 60));
    let res = evaluate_with_weights(&inp_31m, &SourceWeightsConfig::default_seed(), NOW);
    assert!(!res.triggered);
}

#[test]
fn rwlock_update_config_works() {
    let initial = SourceWeightsConfig::default_seed();
    let lock = std::sync::Arc::new(std::sync::RwLock::new(initial));

    {
        let g = lock.read().unwrap();
        assert_eq!(g.weight_for("Trump"), 980);
    }

    let mut new = SourceWeightsConfig::default_seed();
    new.weights.insert(0, SourceWeight { name: "trump".to_string(), weight: 800 });

    {
        let mut w = lock.write().unwrap();
        *w = new;
    }

    {
        let g = lock.read().unwrap();
        assert_eq!(g.weight_for("Trump"), 800);
    }
}

#[test]
fn disruption_components() {
    assert_eq!(strength_weight(0), 0);
    assert_eq!(strength_weight(1), 500);
    assert_eq!(strength_weight(-1), 500);
    assert_eq!(strength_weight(2), 1_000);
    assert_eq!(strength_weight(-2), 1_000);
    assert_eq!(strength_weight(i32::MIN), 1_000);
    assert_eq!(strength_weight(i32::MAX), 1_000);
    assert_eq!(recency_weight(0), 1_000);
    assert_eq!(recency_weight(900), 1_000);
    assert_eq!(recency_weight(901), 998);
    assert_eq!(recency_weight(1_350), 500);
    assert_eq!(recency_weight(1_799), 1);
    assert_eq!(recency_weight(1_800), 0);
    assert_eq!(recency_weight(u64::MAX), 0);
    assert_eq!(source_weight(" Trump "), 950);
    assert_eq!(source_weight("FED"), 900);
    assert_eq!(source_weight("yellen"), 850);
    assert_eq!(source_weight("Analyst"), 600);
    assert_eq!(source_weight(""), 600);
    // exactly thirty minutes old: no trigger; one second younger: trigger
    assert!(!evaluate(&input("Trump", 3, NOW - 1_800), NOW).triggered);
    assert!(evaluate(&input("Trump", 3, NOW - 1_799), NOW).triggered);
    // a statement from the future has the age 0
    assert_eq!(
        evaluate(&input("Yellen", -2, NOW + 50), NOW),
        DisruptionResult { triggered: true, w_source: 850, w_strength: 1_000, age_secs: 0 }
    );
    assert_eq!(
        evaluate(&input("Analyst", 5, NOW - 10), NOW),
        DisruptionResult::not_triggered(600, 1_000, 10)
    );
    assert_eq!(DisruptionResult::triggered(1, 2, 3).triggered, true);
}

fn seed() -> SourceWeightsConfig {
    SourceWeightsConfig::default_seed()
}

#[test]
fn exact_match() {
    let c = seed();
    assert_eq!(c.weight_for("Trump"), 980);
}

#[test]
fn alias_match() {
    let c = seed();
    assert_eq!(c.weight_for("@elonmusk"), 970);
    assert_eq!(c.weight_for("Jerome Powell"), 970);
}

#[test]
fn substring_match() {
    let c = seed();
    assert_eq!(c.weight_for("The Wall Street Journal"), 900);
}

#[test]
fn default_weight_used() {
    let c = seed();
    assert_eq!(c.weight_for("TotallyUnknown"), c.default_weight);
}

#[test]
fn case_insensitive_lookup() {
    let c = seed();
    let a = c.weight_for("TRUMP");
    let b = c.weight_for("trump");
    let c2 = c.weight_for("Trump");
    assert!(a == b && b == c2);
}

#[test]
fn dash_and_typography_normalization() {
    let c = seed();
    let a = c.weight_for("Wall—Street—Journal");
    let b = c.weight_for("Wall - Street - Journal");
    let c2 = c.weight_for("The Wall Street Journal");
    assert_eq!(a, 900);
    assert_eq!(b, 900);
    assert_eq!(c2, 900);
}

#[test]
fn alias_overrides_to_canonical() {
    let c = seed();
    assert_eq!(c.weight_for("@elonmusk"), 970);
    assert_eq!(c.weight_for("Federal Reserve"), 950);
}

#[test]
fn source_lookup_order_and_clamp() {
    let key = |s: &str| normalize(s).into_iter().collect::<String>();
    assert_eq!(key("  The_Wall/Street\\Journal,\n Inc. "), "the wall street journal inc");
    assert_eq!(key("J.P. Morgan’s"), "j p morgan s");
    assert_eq!(key(""), "");

    let cfg = SourceWeightsConfig {
        default_weight: 1_500,
        weights: vec![
            SourceWeight { name: "fed".to_string(), weight: 950 },
            SourceWeight { name: "federal".to_string(), weight: 100 },
            SourceWeight { name: "big".to_string(), weight: 4_000 },
        ],
        aliases: vec![
            SourceAlias { alias: "central bank".to_string(), canonical: "FED".to_string() },
            SourceAlias { alias: "federal".to_string(), canonical: "nowhere".to_string() },
        ],
    };
    // by alias, whose canonical name is normalized too
    assert_eq!(cfg.weight_for("Central-Bank"), 950);
    // an alias without a weight falls through to the exact name
    assert_eq!(cfg.weight_for("Federal"), 100);
    // inside the name, the first entry in the order of the list counts
    assert_eq!(cfg.weight_for("Federal Reserve Board"), 950);
    // weights and the default are clamped to 1
    assert_eq!(cfg.weight_for("big"), 1_000);
    assert_eq!(cfg.weight_for("unknown"), 1_000);
    assert_eq!(seed().weights.len(), 27);
    assert_eq!(seed().aliases.len(), 26);
    assert_eq!(SourceWeightsConfig::loaded_or_seed(None).weight_for("nyt"), 880);
    assert_eq!(SourceWeightsConfig::loaded_or_seed(Some(cfg)).weight_for("nyt"), 1_000);
}

// Times in milliseconds since the epoch; 2025-09-06 09:00:00 UTC.
const T0: i64 = 1_757_149_200_000;

#[test]
fn first_alert_passes() {
    let af = AntiFlutter::new(10_800);
    assert!(af.should_alert(DecisionKind::BUY, T0));
}

#[test]
fn inside_cooldown_blocked() {
    let mut af = AntiFlutter::new(10_800);
    assert!(af.should_alert(DecisionKind::BUY, T0));
    af.record_alert(DecisionKind::BUY, T0);
    let t1 = T0 + 120_000;
    assert!(!af.should_alert(DecisionKind::BUY, t1));
}

#[test]
fn after_cooldown_passes() {
    let mut af = AntiFlutter::new(10_800);
    assert!(af.should_alert(DecisionKind::BUY, T0));
    af.record_alert(DecisionKind::BUY, T0);
    let t_after = T0 + (10_800 + 5) * 1_000;
    assert!(af.should_alert(DecisionKind::SELL, t_after));
}

#[test]
fn cooldown_edges() {
    let mut af = AntiFlutter::new(10);
    af.record_alert(DecisionKind::HOLD, T0);
    assert_eq!(af.last_kind(), Some(DecisionKind::HOLD));
    assert!(!af.should_alert(DecisionKind::SELL, T0 + 9_999));
    assert!(af.should_alert(DecisionKind::SELL, T0 + 10_000));
    assert!(!af.should_alert(DecisionKind::SELL, T0 - 1));
    // a negative cooldown is no cooldown
    let mut none = AntiFlutter::new(-5);
    assert_eq!(none.cooldown_secs, 0);
    none.record_alert(DecisionKind::BUY, T0);
    assert!(none.should_alert(DecisionKind::BUY, T0));
    let mut far = AntiFlutter::new(i64::MAX);
    far.record_alert(DecisionKind::BUY, i64::MIN);
    assert!(!far.should_alert(DecisionKind::BUY, i64::MAX));
}

#[test]
fn decisions_are_read_from_labels() {
    assert_eq!(map_decision("BUY"), DecisionKind::BUY);
    assert_eq!(map_decision("buy"), DecisionKind::BUY);
    assert_eq!(map_decision("Sell"), DecisionKind::SELL);
    assert_eq!(map_decision("HOLD"), DecisionKind::HOLD);
    assert_eq!(map_decision(""), DecisionKind::HOLD);
    assert_eq!(map_decision("BUY "), DecisionKind::HOLD);
    assert_eq!(map_decision("strong buy"), DecisionKind::HOLD);
    assert!(is_truthy(Some("1")));
    assert!(is_truthy(Some("TRUE")));
    assert!(is_truthy(Some("true")));
    assert!(!is_truthy(Some("yes")));
    assert!(!is_truthy(Some("")));
    assert!(!is_truthy(None));
}

#[test]
fn change_detector_notifies_changes_outside_the_cooldown() {
    let mut d = ChangeDetector::new(None, 60);
    // the first decision is a change and is notified
    assert_eq!(d.on_decision(DecisionKind::HOLD, T0), TickAction::Notify);
    assert_eq!(d.last, Some(DecisionKind::HOLD));
    assert_eq!(d.flutter.last_alert_ts, Some(T0));
    // the same decision again: nothing
    assert_eq!(d.on_decision(DecisionKind::HOLD, T0 + 1_000), TickAction::NoChange);
    // a change inside the cooldown is stored without a notification
    assert_eq!(d.on_decision(DecisionKind::BUY, T0 + 2_000), TickAction::Suppressed);
    assert_eq!(d.last, Some(DecisionKind::BUY));
    assert_eq!(d.flutter.last_alert_ts, Some(T0));
    assert_eq!(d.flutter.last_kind(), Some(DecisionKind::HOLD));
    // a change after the cooldown is notified
    assert_eq!(d.on_decision(DecisionKind::SELL, T0 + 60_000), TickAction::Notify);
    assert_eq!(d.flutter.last_alert_ts, Some(T0 + 60_000));
    assert_eq!(d.flutter.last_kind(), Some(DecisionKind::SELL));
    // a detector that starts from a stored decision
    let mut d = ChangeDetector::new(Some(DecisionKind::SELL), 60);
    assert_eq!(d.on_decision(DecisionKind::SELL, T0), TickAction::NoChange);
    assert_eq!(d.flutter.last_alert_ts, None);
}

fn contributor(source: &str, score: i32) -> TopContributor {
    TopContributor { source: source.to_string(), score }
}

#[test]
fn history_keeps_the_last_entries() {
    let mut h = History::with_capacity(2);
    assert_eq!(h.cap, 2);
    assert_eq!(History::with_capacity(20_000).cap, 10_000);
    assert!(h.snapshot_last_n(5).is_empty());
    let four = vec![contributor("a", 1), contributor("b", -2), contributor("c", 3), contributor("d", 4)];
    h.push(10, Verdict::Buy, 780_000, &four);
    h.push(20, Verdict::Hold, 550_000, &vec![]);
    h.push(30, Verdict::Sell, 900_000, &vec![contributor("x", -1)]);
    assert_eq!(h.entries.iter().map(|e| e.ts_unix).collect::<Vec<_>>(), vec![20, 30]);
    let last = h.snapshot_last_n(1);
    assert_eq!(last.len(), 1);
    assert_eq!((last[0].ts_unix, last[0].verdict, last[0].confidence), (30, Verdict::Sell, 900_000));
    assert_eq!(last[0].top_sources, vec!["x"]);
    assert_eq!(last[0].top_scores, vec![-1]);
    assert_eq!(h.snapshot_last_n(0).len(), 0);
    assert_eq!(h.snapshot_last_n(9).iter().map(|e| e.ts_unix).collect::<Vec<_>>(), vec![20, 30]);

    // only the first three contributors are kept
    let mut one = History::with_capacity(1);
    one.push(10, Verdict::Buy, 1, &four);
    assert_eq!(one.entries[0].top_sources, vec!["a", "b", "c"]);
    assert_eq!(one.entries[0].top_scores, vec![1, -2, 3]);
    let mut none = History::with_capacity(0);
    none.push(10, Verdict::Buy, 1, &four);
    assert!(none.entries.is_empty());
    assert_eq!(HistoryQuery { limit: None }.effective_limit(), 50);
    assert_eq!(HistoryQuery { limit: Some(0) }.effective_limit(), 0);
    assert_eq!(HistoryQuery { limit: Some(7) }.effective_limit(), 7);
}

fn entry(ts_unix: u64, verdict: Verdict, sources: &[&str]) -> HistoryEntry {
    HistoryEntry {
        ts_unix,
        verdict,
        confidence: 0,
        top_sources: sources.iter().map(|s| s.to_string()).collect(),
        top_scores: vec![],
    }
}

#[test]
fn volume_counts_recent_triggers_and_their_sources() {
    let now = 10_000;
    let rows = vec![
        entry(now - 601, Verdict::Buy, &["old"]),
        entry(now - 600, Verdict::Buy, &["Fed", "Trump"]),
        entry(now - 10, Verdict::Hold, &["held"]),
        entry(now, Verdict::Sell, &["Trump", "a", "b", "c", "d", "sixth"]),
        entry(now + 5, Verdict::Sell, &[]),
    ];
    let (triggers, sources) = volume_counts(&rows, now);
    assert_eq!(triggers, 3);
    assert_eq!(sources, vec!["Fed", "Trump", "a", "b", "c", "d"]);
    assert_eq!(volume_counts(&vec![], now), (0, vec![]));
}

#[test]
fn diagnostics_count_requests_and_latencies() {
    let mut stats = Stats {
        total_requests: 0,
        analyze_requests: 0,
        batch_requests: 0,
        last_disruption_ms: None,
        rolling_sum_ms: 0,
        rolling_count: 0,
    };
    record_request(&mut stats, false);
    record_request(&mut stats, true);
    record_request(&mut stats, true);
    assert_eq!((stats.total_requests, stats.analyze_requests, stats.batch_requests), (3, 1, 2));
    stats.total_requests = u64::MAX;
    record_request(&mut stats, false);
    assert_eq!((stats.total_requests, stats.analyze_requests), (u64::MAX, 2));

    let mut queue: VecDeque<u64> = VecDeque::new();
    record_latency(&mut stats, &mut queue, 1_000);
    assert_eq!((stats.rolling_sum_ms, stats.rolling_count, stats.last_disruption_ms), (1_000, 1, None));
    record_latency(&mut stats, &mut queue, 1_001);
    assert_eq!((stats.rolling_sum_ms, stats.rolling_count, stats.last_disruption_ms), (2_001, 2, Some(1_001)));
    for _ in 0..198 {
        record_latency(&mut stats, &mut queue, 1);
    }
    assert_eq!((stats.rolling_sum_ms, stats.rolling_count), (2_001 + 198, 200));
    // the queue is full: the oldest latency leaves
    record_latency(&mut stats, &mut queue, 5);
    assert_eq!((stats.rolling_sum_ms, stats.rolling_count), (1_001 + 198 + 5, 200));
    assert_eq!(stats.last_disruption_ms, Some(1_001));
    assert_eq!(queue.front(), Some(&1_001));

    let mut log = VecDeque::new();
    for i in 0..501u128 {
        record_decision(&mut log, i, "Fed".to_string(), 1, "BUY".to_string());
    }
    assert_eq!(log.len(), 500);
    assert_eq!(log.front().map(|d| d.at_ms), Some(1));
    assert_eq!(log.back().map(|d| (d.at_ms, d.source.as_str(), d.score, d.verdict.as_str())), Some((500, "Fed", 1, "BUY")));
}
