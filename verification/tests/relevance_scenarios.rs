// Scenarios of the relevance engine, and the parts of an evaluation on
// concrete values.

use dow_sentiment_analyzer::relevance::combo::{expand_alias, join_with_plus, solve_combos};
use dow_sentiment_analyzer::relevance::compile::{
    compile_anchor, compile_blocker, ConfigError, PatternRole,
};
use dow_sentiment_analyzer::relevance::config::{
    AliasCfg, AnchorCfg, BlockerCfg, CategoryWeight, ComboCfg, ComboNeed, NearCfg, RelevanceRoot,
    RelevanceSection, Threshold,
};
use dow_sentiment_analyzer::relevance::engine::{match_token_indices, RelevanceEngine};
use dow_sentiment_analyzer::relevance::gate::{decide, decide_with_stage, Stage};
use dow_sentiment_analyzer::relevance::handle::{
    dev_logging_enabled, hot_reload_enabled, load, names_dev_environment, ConfigInput,
    ConfigLoadError, RelevanceHandle, ReloadWatch,
};
use dow_sentiment_analyzer::relevance::proximity::{
    build_token_lookup, token_index_for_start, within_window, NO_TOKEN,
};
use dow_sentiment_analyzer::relevance::score::{threshold_text, Relevance, Score};
use dow_sentiment_analyzer::relevance::tokenizer::tokenize;
use dow_sentiment_analyzer::relevance::weights::{count_category, weigh};

fn strings(parts: &[&str]) -> Vec<String> {
    parts.iter().map(|p| p.to_string()).collect()
}

fn anchor(id: &str, category: &str, pattern: &str) -> AnchorCfg {
    AnchorCfg {
        id: id.to_string(),
        category: category.to_string(),
        pattern: pattern.to_string(),
        near: None,
        tag: None,
    }
}

fn near(pattern: &str, window: usize) -> Option<NearCfg> {
    Some(NearCfg { pattern: pattern.to_string(), window })
}

fn weight(category: &str, weight: u32) -> CategoryWeight {
    CategoryWeight { category: category.to_string(), weight }
}

fn root(
    millionths: u32,
    weights: Vec<CategoryWeight>,
    anchors: Vec<AnchorCfg>,
    blockers: Vec<BlockerCfg>,
    combos: Vec<ComboNeed>,
) -> RelevanceRoot {
    RelevanceRoot {
        relevance: RelevanceSection { threshold: Threshold { millionths }, near_default_window: 6 },
        weights,
        anchors,
        blockers,
        combos: ComboCfg { pass_any: combos },
        aliases: vec![],
    }
}

// One hard anchor on "dow", one macro anchor on "powell" that needs
// "fed|rates" within 6 tokens, weights hard 3 and macro 2, threshold 0.30,
// combo macro + hard.
fn powell_dow_config() -> RelevanceRoot {
    let mut powell = anchor("powell_macro", "macro", r"(?i)\bpowell\b");
    powell.near = near(r"(?i)\b(fed|rates)\b", 6);
    root(
        300_000,
        vec![weight("hard", 3), weight("macro", 2)],
        vec![anchor("dow_hard", "hard", r"(?i)\bdow\b"), powell],
        vec![],
        vec![ComboNeed { need: strings(&["macro", "hard"]) }],
    )
}

fn dji_blocker() -> BlockerCfg {
    BlockerCfg {
        id: "dji_drones".to_string(),
        pattern: r"(?i)\bdji\b".to_string(),
        reason: "DJI (drones)".to_string(),
        action: "block".to_string(),
        near: near(r"(?i)\b(drone|mavic)\b", 4),
        unless_near: None,
    }
}

#[test]
fn scenario_powell_fed_dow_passes() {
    let eng = RelevanceEngine::from_config(powell_dow_config()).expect("compiles");
    let r = eng.score("Powell said the Fed may act; the Dow slipped.");
    // 5 / 15 > 0.30
    assert_eq!((r.score.num, r.score.den), (5, 15));
    assert!(r.score.num * 1_000_000 > 300_000 * r.score.den);
    assert_eq!(r.matched, vec!["dow_hard", "powell_macro"]);
    assert_eq!(r.reasons, vec!["combo:macro+hard", "combos_ok", "threshold_ok:0.30"]);
}

#[test]
fn scenario_powell_without_fed_fails_combos() {
    let eng = RelevanceEngine::from_config(powell_dow_config()).expect("compiles");
    let r = eng.score("Powell gave a talk on leadership. The Dow slipped.");
    assert_eq!(r.score, Score { num: 0, den: 1 });
    assert!(r.reasons.iter().any(|s| s == "combos_fail"));
    // the anchor whose proximity requirement failed is not reported
    assert_eq!(r.matched, vec!["dow_hard"]);
    // 3 / 15 is below the threshold as well
    assert_eq!(r.reasons, vec!["combos_fail", "threshold_fail:0.30"]);
}

#[test]
fn scenario_dji_drone_is_blocked() {
    let mut cfg = powell_dow_config();
    cfg.anchors.push(anchor("dji_tag", "hard", r"(?i)\bdji\b"));
    cfg.blockers.push(dji_blocker());
    let eng = RelevanceEngine::from_config(cfg).expect("compiles");
    let r = eng.score("DJI unveils a new Mavic drone.");
    assert_eq!(r.score, Score { num: 0, den: 1 });
    assert_eq!(r.reasons, vec!["blocker:dji_drones:DJI (drones)"]);
    assert!(r.matched.is_empty());
}

#[test]
fn scenario_single_stock_is_neutralized() {
    let mut single = anchor("dow_inc_single", "soft", r"(?i)\bdow inc\b");
    single.tag = Some("single_stock_only".to_string());
    let cfg = root(100_000, vec![weight("soft", 1)], vec![single], vec![], vec![]);
    let eng = RelevanceEngine::from_config(cfg).expect("compiles");
    let r = eng.score("Dow Inc. announces a dividend.");
    assert_eq!(r.score, Score { num: 0, den: 1 });
    assert_eq!(r.reasons, vec!["single_stock_only_without_broader_context"]);
    assert_eq!(r.matched, vec!["dow_inc_single"]);
}

#[test]
fn single_stock_with_broad_context_is_scored() {
    let mut single = anchor("dow_inc_single", "soft", r"(?i)\bdow inc\b");
    single.tag = Some("single_stock_only".to_string());
    let cfg = root(
        100_000,
        vec![weight("soft", 1), weight("macro", 1)],
        vec![single, anchor("fed", "macro", r"(?i)\bfed\b")],
        vec![],
        vec![],
    );
    let eng = RelevanceEngine::from_config(cfg).expect("compiles");
    let r = eng.score("Dow Inc. reacts to the Fed.");
    assert_eq!(r.score, Score { num: 2, den: 6 });
    assert_eq!(r.reasons, vec!["combos_ok", "threshold_ok:0.10"]);
    assert_eq!(r.matched, vec!["dow_inc_single", "fed"]);
}

#[test]
fn blocker_exception_excuses_the_blocker() {
    let mut b = dji_blocker();
    b.unless_near = near(r"(?i)\bindex\b", 3);
    let cfg = root(0, vec![], vec![], vec![b], vec![]);
    let eng = RelevanceEngine::from_config(cfg).expect("compiles");
    assert_eq!(
        eng.find_blockers("DJI unveils a new Mavic drone."),
        vec!["blocker:dji_drones:DJI (drones)"]
    );
    // the exception lies within 3 tokens of the match
    assert!(eng.find_blockers("The DJI index beat the Mavic drone.").is_empty());
    // the exception is too far away
    assert_eq!(
        eng.find_blockers("DJI drone sales rose while the broad index fell.").len(),
        1
    );
    // without the near pattern the blocker does not fire at all
    assert!(eng.find_blockers("DJI closed higher.").is_empty());
}

#[test]
fn window_is_inclusive_in_both_directions() {
    let mut b = dji_blocker();
    b.near = near(r"(?i)\bdrone\b", 2);
    let cfg = root(0, vec![], vec![], vec![b], vec![]);
    let eng = RelevanceEngine::from_config(cfg).expect("compiles");
    assert_eq!(eng.find_blockers("DJI a drone").len(), 1);
    assert_eq!(eng.find_blockers("drone a DJI").len(), 1);
    assert_eq!(eng.find_blockers("DJI a b drone").len(), 0);
    assert_eq!(eng.find_blockers("drone a b DJI").len(), 0);
}

#[test]
fn find_anchors_labels_with_tag() {
    let mut tagged = anchor("dow_inc_single", "soft", r"(?i)\bdow inc\b");
    tagged.tag = Some("single_stock_only".to_string());
    let cfg = root(
        0,
        vec![],
        vec![tagged, anchor("fed", "macro", r"(?i)\bfed\b"), anchor("ecb", "macro", r"(?i)\becb\b")],
        vec![dji_blocker()],
        vec![],
    );
    let eng = RelevanceEngine::from_config(cfg).expect("compiles");
    assert_eq!(
        eng.find_anchors("The Fed watches Dow Inc. closely"),
        vec!["anchor:dow_inc_single:single_stock_only", "anchor:fed"]
    );
    let r = eng.evaluate("The Fed watches Dow Inc. closely");
    assert_eq!(r.score, Score { num: 0, den: 1 });
    assert_eq!(r.matched, vec!["anchor:dow_inc_single:single_stock_only", "anchor:fed"]);
    assert!(r.reasons.is_empty());
    let blocked = eng.evaluate("The Fed bought a DJI drone");
    assert!(blocked.matched.is_empty());
    assert_eq!(blocked.reasons, vec!["blocker:dji_drones:DJI (drones)"]);
}

#[test]
fn anchor_counts_once_however_often_it_matches() {
    let cfg = root(
        0,
        vec![weight("hard", 1)],
        vec![anchor("dow", "hard", r"(?i)\bdow\b"), anchor("djia", "hard", r"(?i)\bdjia\b")],
        vec![],
        vec![],
    );
    let eng = RelevanceEngine::from_config(cfg).expect("compiles");
    let (matched, categories, single) = eng.collect_anchor_stats("Dow, Dow and Dow again");
    assert_eq!(matched, vec!["dow"]);
    assert_eq!(categories, vec!["hard"]);
    assert!(!single);
    let (matched, categories, _) = eng.collect_anchor_stats("DJIA and Dow");
    assert_eq!(matched, vec!["djia", "dow"]);
    assert_eq!(categories, vec!["hard", "hard"]);
}

#[test]
fn matched_ids_are_sorted_and_unique() {
    let cfg = root(
        0,
        vec![],
        vec![
            anchor("zeta", "a", r"z"),
            anchor("alpha", "a", r"a"),
            anchor("zeta", "b", r"e"),
            anchor("Mid", "a", r"m"),
        ],
        vec![],
        vec![],
    );
    let eng = RelevanceEngine::from_config(cfg).expect("compiles");
    let (matched, categories, _) = eng.collect_anchor_stats("zebra meal");
    // upper case sorts before lower case in the order of str
    assert_eq!(matched, vec!["Mid", "alpha", "zeta"]);
    assert_eq!(categories, vec!["a", "a", "b", "a"]);
}

#[test]
fn weighted_score_caps_each_category_at_three() {
    let weights = vec![weight("hard", 3), weight("macro", 2), weight("soft", 1)];
    assert_eq!(weigh(&weights, &strings(&[])), Score { num: 0, den: 18 });
    assert_eq!(weigh(&weights, &strings(&["hard"])), Score { num: 3, den: 18 });
    assert_eq!(
        weigh(&weights, &strings(&["hard", "macro", "hard", "hard", "hard", "hard"])),
        Score { num: 11, den: 18 }
    );
    assert_eq!(
        weigh(
            &weights,
            &strings(&["hard", "hard", "hard", "macro", "macro", "macro", "soft", "soft", "soft", "soft"])
        ),
        Score { num: 18, den: 18 }
    );
    // categories without a weight do not count
    assert_eq!(weigh(&weights, &strings(&["verb", "verb"])), Score { num: 0, den: 18 });
    // no weights at all: the score is 0
    assert_eq!(weigh(&vec![], &strings(&["hard"])), Score { num: 0, den: 1 });
    assert_eq!(weigh(&vec![weight("hard", 0)], &strings(&["hard"])), Score { num: 0, den: 1 });
    assert_eq!(count_category(&strings(&["a", "b", "a"]), "a"), 2);
    assert_eq!(count_category(&strings(&["a", "b", "a"]), "c"), 0);
}

#[test]
fn score_meets_threshold_exactly() {
    let third = Score { num: 5, den: 15 };
    assert!(third.meets(Threshold { millionths: 333_333 }));
    assert!(!third.meets(Threshold { millionths: 333_334 }));
    let three_tenths = Score { num: 3, den: 10 };
    assert!(three_tenths.meets(Threshold { millionths: 300_000 }));
    assert!(!three_tenths.meets(Threshold { millionths: 300_001 }));
    assert!(Score { num: 0, den: 1 }.meets(Threshold { millionths: 0 }));
    assert!(!Score { num: 0, den: 1 }.meets(Threshold { millionths: 1 }));
    assert!(Score { num: 7, den: 7 }.meets(Threshold { millionths: 1_000_000 }));
    assert!(!Score { num: 7, den: 7 }.meets(Threshold { millionths: 1_000_001 }));
    assert!(!Score { num: 7, den: 7 }.meets(Threshold { millionths: u32::MAX }));
    assert!(Score { num: 1, den: 2 }.is_positive());
    assert!(!Score::zero().is_positive());
}

#[test]
fn threshold_is_written_with_two_decimals() {
    assert_eq!(threshold_text(Threshold { millionths: 180_000 }), "0.18");
    assert_eq!(threshold_text(Threshold { millionths: 300_000 }), "0.30");
    assert_eq!(threshold_text(Threshold { millionths: 0 }), "0.00");
    assert_eq!(threshold_text(Threshold { millionths: 1_000_000 }), "1.00");
    assert_eq!(threshold_text(Threshold { millionths: 999_999 }), "1.00");
    assert_eq!(threshold_text(Threshold { millionths: 54_999 }), "0.05");
    // a tie goes to the even neighbour
    assert_eq!(threshold_text(Threshold { millionths: 125_000 }), "0.12");
    assert_eq!(threshold_text(Threshold { millionths: 375_000 }), "0.38");
    assert_eq!(threshold_text(Threshold { millionths: 125_001 }), "0.13");
    assert_eq!(threshold_text(Threshold { millionths: 12_345_678 }), "12.35");
}

#[test]
fn threshold_override_is_clamped() {
    assert_eq!(Threshold::clamped(250_000).millionths, 250_000);
    assert_eq!(Threshold::clamped(1_000_000).millionths, 1_000_000);
    assert_eq!(Threshold::clamped(1_000_001).millionths, 1_000_000);
    assert_eq!(Threshold::clamped(i64::MAX).millionths, 1_000_000);
    assert_eq!(Threshold::clamped(0).millionths, 0);
    assert_eq!(Threshold::clamped(-1).millionths, 0);
    assert_eq!(Threshold::clamped(i64::MIN).millionths, 0);
    assert_eq!(Threshold::default_value().millionths, 500_000);

    let mut eng = RelevanceEngine::from_config(powell_dow_config()).expect("compiles");
    eng.override_threshold(None);
    assert_eq!(eng.cfg.relevance.threshold.millionths, 300_000);
    eng.override_threshold(Some(Threshold::clamped(5_000_000)));
    assert_eq!(eng.cfg.relevance.threshold.millionths, 1_000_000);
    let r = eng.score("Powell said the Fed may act; the Dow slipped.");
    assert_eq!(r.score, Score { num: 0, den: 1 });
    assert_eq!(r.reasons, vec!["combo:macro+hard", "combos_ok", "threshold_fail:1.00"]);
}

#[test]
fn combos_are_filled_first_fit() {
    let aliases = vec![AliasCfg { name: "verb_or_semi".to_string(), categories: strings(&["verb", "semi"]) }];
    assert_eq!(expand_alias(&aliases, "verb_or_semi"), vec!["verb", "semi"]);
    assert_eq!(expand_alias(&aliases, "macro"), vec!["macro"]);

    let recipes = vec![
        ComboNeed { need: strings(&["macro", "hard"]) },
        ComboNeed { need: strings(&["macro", "verb_or_semi"]) },
    ];
    let mut reasons = vec!["before".to_string()];
    assert!(solve_combos(&aliases, &recipes, &strings(&["semi", "macro"]), &mut reasons));
    assert_eq!(reasons, vec!["before", "combo:macro+semi"]);

    let mut reasons = Vec::new();
    assert!(solve_combos(&aliases, &recipes, &strings(&["hard", "verb", "macro"]), &mut reasons));
    assert_eq!(reasons, vec!["combo:macro+hard"]);

    let mut reasons = Vec::new();
    assert!(!solve_combos(&aliases, &recipes, &strings(&["hard", "verb"]), &mut reasons));
    assert!(reasons.is_empty());

    // no recipe: satisfied, and nothing is added
    let mut reasons = Vec::new();
    assert!(solve_combos(&aliases, &vec![], &strings(&[]), &mut reasons));
    assert!(reasons.is_empty());

    // a slot takes a unit: two macro slots need two macro anchors
    let twice = vec![ComboNeed { need: strings(&["macro", "macro"]) }];
    let mut reasons = Vec::new();
    assert!(!solve_combos(&aliases, &twice, &strings(&["macro", "hard"]), &mut reasons));
    assert!(solve_combos(&aliases, &twice, &strings(&["macro", "hard", "macro"]), &mut reasons));
    assert_eq!(reasons, vec!["combo:macro+macro"]);
}

#[test]
fn first_fit_can_reject_what_another_order_would_fill() {
    // The first slot takes the only "verb", so the second slot, which
    // accepts nothing but "verb", stays empty, although semi + verb would
    // fill the recipe.
    let aliases = vec![AliasCfg { name: "verb_or_semi".to_string(), categories: strings(&["verb", "semi"]) }];
    let recipes = vec![ComboNeed { need: strings(&["verb_or_semi", "verb"]) }];
    let mut reasons = Vec::new();
    assert!(!solve_combos(&aliases, &recipes, &strings(&["verb", "semi"]), &mut reasons));
    assert!(reasons.is_empty());
    let swapped = vec![ComboNeed { need: strings(&["verb", "verb_or_semi"]) }];
    assert!(solve_combos(&aliases, &swapped, &strings(&["verb", "semi"]), &mut reasons));
    assert_eq!(reasons, vec!["combo:verb+semi"]);
    assert_eq!(join_with_plus(&strings(&[])), "");
    assert_eq!(join_with_plus(&strings(&["a"])), "a");
    assert_eq!(join_with_plus(&strings(&["a", "b", "c"])), "a+b+c");
}

#[test]
fn decide_follows_the_order_of_the_stages() {
    let cfg = powell_dow_config();
    // a blocker that fired wins over everything else
    let r = decide(&cfg, strings(&["blocker:x:y"]), strings(&["dow_hard"]), &strings(&["hard", "macro"]), true);
    assert_eq!(r.score, Score { num: 0, den: 1 });
    assert!(r.matched.is_empty());
    assert_eq!(r.reasons, vec!["blocker:x:y"]);
    // the single-stock guard comes before combos and threshold
    let r = decide(&cfg, vec![], strings(&["a"]), &strings(&["soft"]), true);
    assert_eq!(r.score, Score { num: 0, den: 1 });
    assert_eq!(r.matched, vec!["a"]);
    assert_eq!(r.reasons, vec!["single_stock_only_without_broader_context"]);
    // broad context lets a single-stock text through to combos and threshold
    let r = decide(&cfg, vec![], strings(&["a"]), &strings(&["soft", "semi"]), true);
    assert_eq!(r.reasons, vec!["combos_fail", "threshold_fail:0.30"]);
    // combos satisfied, score above the threshold
    let r = decide(&cfg, vec![], strings(&["a", "b"]), &strings(&["hard", "macro"]), false);
    assert_eq!(r.score, Score { num: 5, den: 15 });
    assert_eq!(r.reasons, vec!["combo:macro+hard", "combos_ok", "threshold_ok:0.30"]);
    // score above the threshold, combos not satisfied
    let r = decide(&cfg, vec![], strings(&["a"]), &strings(&["hard", "hard"]), false);
    assert_eq!(r.score, Score { num: 0, den: 1 });
    assert_eq!(r.reasons, vec!["combos_fail", "threshold_ok:0.30"]);
    assert_eq!(r.matched, vec!["a"]);
}

#[test]
fn score_is_between_zero_and_one() {
    let eng = RelevanceEngine::from_config(powell_dow_config()).expect("compiles");
    let texts = [
        "",
        "Powell said the Fed may act; the Dow slipped.",
        "dow dow dow dow dow dow powell fed rates",
        "nothing to see",
        "....",
        "Dow",
    ];
    for t in texts.iter() {
        let r = eng.score(t);
        assert!(r.score.den > 0);
        assert!(r.score.num <= r.score.den);
    }
}

#[test]
fn scoring_twice_gives_the_same_result() {
    let mut cfg = powell_dow_config();
    cfg.blockers.push(dji_blocker());
    let eng = RelevanceEngine::from_config(cfg).expect("compiles");
    let texts =
        ["Powell said the Fed may act; the Dow slipped.", "DJI unveils a new Mavic drone.", "", "Dow"];
    for t in texts.iter() {
        let first = eng.score(t);
        let second = eng.score(t);
        assert_eq!(first.score, second.score);
        assert_eq!(first.matched, second.matched);
        assert_eq!(first.reasons, second.reasons);
    }
}

#[test]
fn empty_text_is_no_error() {
    let eng = RelevanceEngine::from_config(powell_dow_config()).expect("compiles");
    let r = eng.score("");
    assert_eq!(r.score, Score { num: 0, den: 1 });
    assert!(r.matched.is_empty());
    assert_eq!(r.reasons, vec!["combos_fail", "threshold_fail:0.30"]);
    let (tokens, lookup) = eng.tokenize_with_index("");
    assert!(tokens.is_empty());
    assert_eq!(lookup, vec![NO_TOKEN]);
    let d = Relevance::default();
    assert_eq!(d.score, Score { num: 0, den: 1 });
    assert!(d.matched.is_empty() && d.reasons.is_empty());
}

#[test]
fn invalid_patterns_are_named() {
    let err = |r: Result<RelevanceEngine, ConfigError>| r.err().expect("must fail");

    let mut cfg = powell_dow_config();
    cfg.anchors[1].pattern = "(unclosed".to_string();
    let e = err(RelevanceEngine::from_config(cfg));
    assert_eq!(e.role, PatternRole::Anchor);
    assert_eq!(e.id, "powell_macro");
    assert!(e.message().starts_with("anchor `powell_macro` regex error: "));
    assert!(!e.detail.is_empty());

    let mut cfg = powell_dow_config();
    cfg.anchors[1].near = near("[z-a]", 2);
    let e = err(RelevanceEngine::from_config(cfg));
    assert_eq!((e.role, e.id.as_str()), (PatternRole::AnchorNear, "powell_macro"));
    assert!(e.message().starts_with("anchor `powell_macro` near-regex error: "));

    let mut cfg = powell_dow_config();
    let mut b = dji_blocker();
    b.pattern = "a{2,1}".to_string();
    cfg.blockers.push(b);
    let e = err(RelevanceEngine::from_config(cfg));
    assert_eq!((e.role, e.id.as_str()), (PatternRole::Blocker, "dji_drones"));
    assert!(e.message().starts_with("blocker `dji_drones` regex error: "));

    let mut cfg = powell_dow_config();
    let mut b = dji_blocker();
    b.near = near("(?P<x", 1);
    cfg.blockers.push(b);
    let e = err(RelevanceEngine::from_config(cfg));
    assert_eq!((e.role, e.id.as_str()), (PatternRole::BlockerNear, "dji_drones"));
    assert!(e.message().starts_with("blocker `dji_drones` near-regex error: "));

    let mut cfg = powell_dow_config();
    let mut b = dji_blocker();
    b.unless_near = near("\\", 1);
    cfg.blockers.push(b);
    let e = err(RelevanceEngine::from_config(cfg));
    assert_eq!((e.role, e.id.as_str()), (PatternRole::BlockerUnlessNear, "dji_drones"));
    assert!(e.message().starts_with("blocker `dji_drones` unless_near regex error: "));

    // anchors are compiled before blockers, and the first failure is named
    let mut cfg = powell_dow_config();
    cfg.anchors[0].near = near("(", 1);
    cfg.anchors[1].pattern = "(".to_string();
    let mut b = dji_blocker();
    b.pattern = "(".to_string();
    cfg.blockers.push(b);
    let e = err(RelevanceEngine::from_config(cfg));
    assert_eq!((e.role, e.id.as_str()), (PatternRole::AnchorNear, "dow_hard"));

    assert!(compile_anchor(&anchor("ok", "hard", "a+")).is_ok());
    assert!(compile_blocker(&dji_blocker()).is_ok());
}

#[test]
fn compiled_engine_keeps_its_configuration() {
    let mut cfg = powell_dow_config();
    cfg.blockers.push(dji_blocker());
    let eng = RelevanceEngine::from_config(cfg).expect("compiles");
    assert_eq!(eng.anchors.len(), 2);
    assert_eq!(eng.blockers.len(), 1);
    assert_eq!(eng.anchors[1].cfg.id, "powell_macro");
    assert_eq!(eng.anchors[1].re.as_str(), r"(?i)\bpowell\b");
    let (re, window) = eng.anchors[1].near.as_ref().expect("near");
    assert_eq!((re.as_str(), *window), (r"(?i)\b(fed|rates)\b", 6));
    assert!(eng.anchors[0].near.is_none());
    assert_eq!(eng.blockers[0].cfg.reason, "DJI (drones)");
    assert_eq!(eng.blockers[0].near.as_ref().expect("near").1, 4);
    assert!(eng.blockers[0].unless_near.is_none());
    assert_eq!(eng.cfg.weights.len(), 2);
}

#[test]
fn failed_reload_keeps_the_engine() {
    let eng = RelevanceEngine::from_config(powell_dow_config()).expect("compiles");
    let mut handle = RelevanceHandle::new(eng);
    let text = "Powell said the Fed may act; the Dow slipped.";
    let before = handle.score(text);
    let same = |after: &Relevance| {
        assert_eq!(
            (before.score, &before.matched, &before.reasons),
            (after.score, &after.matched, &after.reasons)
        );
    };

    // the file could not be read
    let r = handle.reload(ConfigInput::Unreadable("no such file".to_string()));
    assert!(matches!(r, Err(ConfigLoadError::Unreadable(ref d)) if d == "no such file"));
    same(&handle.score(text));

    // the text of the file is malformed
    let r = handle.reload(ConfigInput::Malformed("expected `=`".to_string()));
    assert!(matches!(r, Err(ConfigLoadError::Parse(ref d)) if d == "expected `=`"));
    assert_eq!(r.err().expect("error").message(), "failed to parse relevance config: expected `=`");
    same(&handle.score(text));

    // a pattern of the new configuration does not compile
    let mut broken = powell_dow_config();
    broken.relevance.threshold = Threshold { millionths: 900_000 };
    broken.anchors[0].pattern = "(".to_string();
    let r = handle.reload(ConfigInput::Parsed(broken));
    match r {
        Err(ConfigLoadError::Pattern(e)) => {
            assert_eq!((e.role, e.id.as_str()), (PatternRole::Anchor, "dow_hard"));
        }
        other => panic!("unexpected: {:?}", other),
    }
    same(&handle.evaluate(text));
    assert_eq!(handle.inner().cfg.relevance.threshold.millionths, 300_000);

    // a valid configuration replaces the engine as a whole
    let mut stricter = powell_dow_config();
    stricter.relevance.threshold = Threshold { millionths: 900_000 };
    assert!(handle.reload(ConfigInput::Parsed(stricter)).is_ok());
    let after = handle.score(text);
    assert_eq!(after.score, Score { num: 0, den: 1 });
    assert_eq!(after.reasons, vec!["combo:macro+hard", "combos_ok", "threshold_fail:0.90"]);

    assert!(load(ConfigInput::Parsed(powell_dow_config())).is_ok());
    let e = load(ConfigInput::Unreadable("denied".to_string())).err().expect("error");
    assert_eq!(e.message(), "failed to read relevance config: denied");
    let mut broken = powell_dow_config();
    broken.anchors[0].pattern = "(".to_string();
    let e = load(ConfigInput::Parsed(broken)).err().expect("error");
    assert!(e.message().starts_with("anchor `dow_hard` regex error: "));
}

#[test]
fn watcher_reloads_only_on_a_newer_time() {
    let mut w = ReloadWatch::new();
    assert_eq!(w.last_mtime, None);
    // missing file: nothing happens
    assert!(!w.on_tick(None));
    assert_eq!(w.last_mtime, None);
    // the first time is only remembered
    assert!(!w.on_tick(Some(100)));
    assert_eq!(w.last_mtime, Some(100));
    // the same time, or an older one: nothing
    assert!(!w.on_tick(Some(100)));
    assert!(!w.on_tick(Some(99)));
    assert_eq!(w.last_mtime, Some(100));
    assert!(!w.on_tick(None));
    assert_eq!(w.last_mtime, Some(100));
    // a newer time: reload
    assert!(w.on_tick(Some(101)));
    assert_eq!(w.last_mtime, Some(101));
}

#[test]
fn reload_and_logging_are_for_development_only() {
    assert!(!hot_reload_enabled(None, true, Some("local")));
    assert!(!hot_reload_enabled(Some("0"), true, Some("local")));
    assert!(!hot_reload_enabled(Some("true"), true, Some("local")));
    assert!(hot_reload_enabled(Some("1"), true, None));
    assert!(hot_reload_enabled(Some("1"), false, Some("local")));
    assert!(hot_reload_enabled(Some("1"), false, Some("Development")));
    assert!(hot_reload_enabled(Some("1"), false, Some("DEV")));
    assert!(!hot_reload_enabled(Some("1"), false, Some("production")));
    assert!(!hot_reload_enabled(Some("1"), false, Some("")));
    assert!(!hot_reload_enabled(Some("1"), false, None));
    assert!(dev_logging_enabled(Some("1"), false, Some("dev")));
    assert!(!dev_logging_enabled(Some("1"), false, Some("devel")));
    assert!(!dev_logging_enabled(Some(" 1"), true, None));
    assert!(names_dev_environment("LOCAL"));
    assert!(!names_dev_environment("staging"));
}

#[test]
fn lookup_resolves_every_byte_offset() {
    let text = "ab, cd";
    let tokens = tokenize(text);
    assert_eq!(tokens.len(), 2);
    assert_eq!((tokens[0].start, tokens[0].end, tokens[0].index), (0, 2, 0));
    assert_eq!((tokens[1].start, tokens[1].end, tokens[1].index), (4, 6, 1));
    let lookup = build_token_lookup(text.len(), &tokens);
    // inside or at the boundary of a token: that token; between tokens: the one before
    assert_eq!(lookup, vec![0, 0, 0, 0, 1, 1, 1]);

    let text = "  x";
    let tokens = tokenize(text);
    let lookup = build_token_lookup(text.len(), &tokens);
    // offsets before the first token resolve to no token
    assert_eq!(lookup, vec![NO_TOKEN, NO_TOKEN, 0, 0]);
    assert_eq!(token_index_for_start(&lookup, 0), None);
    assert_eq!(token_index_for_start(&lookup, 2), Some(0));
    assert_eq!(token_index_for_start(&lookup, 3), Some(0));
    assert_eq!(token_index_for_start(&lookup, 4), None);
}

#[test]
fn tokens_are_unicode_words() {
    let tokens = tokenize("Čeština, naïve_x 42!");
    let words: Vec<&str> = tokens.iter().map(|t| t.text.as_str()).collect();
    assert_eq!(words, vec!["Čeština", "naïve_x", "42"]);
    assert_eq!(tokens[0].start, 0);
    assert_eq!(tokens[0].end, "Čeština".len());
    assert_eq!(tokens[2].index, 2);
    assert!(tokenize("").is_empty());
    assert!(tokenize(" .,;!? ").is_empty());
}

#[test]
fn within_window_uses_the_absolute_difference() {
    assert!(within_window(&[3], &[7], 4));
    assert!(within_window(&[7], &[3], 4));
    assert!(!within_window(&[3], &[8], 4));
    assert!(within_window(&[1, 20], &[9, 22], 2));
    assert!(!within_window(&[], &[1], 100));
    assert!(!within_window(&[1], &[], 100));
    assert!(within_window(&[5], &[5], 0));
    assert!(within_window(&[0], &[usize::MAX], usize::MAX));
}

#[test]
fn matches_before_the_first_token_do_not_qualify() {
    let eng = RelevanceEngine::from_config(root(0, vec![], vec![], vec![], vec![])).expect("compiles");
    let text = "!! dow !";
    let (_tokens, lookup) = eng.tokenize_with_index(text);
    let bang = regex::Regex::new("!").expect("regex");
    // the first two matches precede every token; the last follows token 0
    assert_eq!(match_token_indices(&bang, text, &lookup), vec![0]);
    let word = regex::Regex::new(r"\w+").expect("regex");
    assert_eq!(match_token_indices(&word, text, &lookup), vec![0]);
}

#[test]
fn stages_are_tried_in_order() {
    let cfg = powell_dow_config();
    let stage = |fired: &[&str], categories: &[&str], single: bool| {
        decide_with_stage(&cfg, strings(fired), strings(&["id"]), &strings(categories), single).1
    };
    assert_eq!(stage(&["blocker:x:y"], &["hard", "macro"], true), Stage::Blocked);
    assert_eq!(stage(&[], &["soft"], true), Stage::SingleStockNeutralized);
    assert_eq!(stage(&[], &[], true), Stage::SingleStockNeutralized);
    assert_eq!(stage(&[], &["soft", "macro"], true), Stage::NeutralizedCombos);
    assert_eq!(stage(&[], &["soft"], false), Stage::NeutralizedCombos);
    assert_eq!(stage(&[], &["hard", "hard"], false), Stage::NeutralizedCombos);
    assert_eq!(stage(&[], &["hard", "macro"], false), Stage::Passed);
    assert_eq!(stage(&[], &["hard", "macro"], true), Stage::Passed);

    let mut strict = powell_dow_config();
    strict.relevance.threshold = Threshold { millionths: 333_334 };
    let (rel, stage) = decide_with_stage(&strict, vec![], vec![], &strings(&["hard", "macro"]), false);
    assert_eq!(stage, Stage::NeutralizedThreshold);
    assert_eq!(rel.score, Score { num: 0, den: 1 });
    assert_eq!(rel.reasons, vec!["combo:macro+hard", "combos_ok", "threshold_fail:0.33"]);

    let mut with_blocker = powell_dow_config();
    with_blocker.blockers.push(dji_blocker());
    let eng = RelevanceEngine::from_config(with_blocker).expect("compiles");
    assert_eq!(eng.score_with_stage("DJI unveils a new Mavic drone.").1, Stage::Blocked);
    assert_eq!(eng.score_with_stage("Powell said the Fed may act; the Dow slipped.").1, Stage::Passed);
    assert_eq!(eng.score_with_stage("The Dow slipped.").1, Stage::NeutralizedCombos);
    let handle = RelevanceHandle::new(eng);
    assert_eq!(handle.score_with_stage("").1, Stage::NeutralizedCombos);
}
