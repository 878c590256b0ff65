// Hand-picked tests of the relevance engine on a fixed configuration.

use dow_sentiment_analyzer::relevance::config::{
    AliasCfg, AnchorCfg, BlockerCfg, CategoryWeight, ComboCfg, ComboNeed, NearCfg, RelevanceRoot,
    RelevanceSection, Threshold,
};
use dow_sentiment_analyzer::relevance::engine::RelevanceEngine;

fn near_cfg(pattern: &str, window: usize) -> Option<NearCfg> {
    Some(NearCfg { pattern: pattern.to_string(), window })
}

fn handpicked_config() -> RelevanceRoot {
    RelevanceRoot {
        relevance: RelevanceSection {
            threshold: Threshold { millionths: 180_000 },
            near_default_window: 6,
        },
        weights: vec![
            CategoryWeight { category: "hard".to_string(), weight: 3 },
            CategoryWeight { category: "macro".to_string(), weight: 2 },
            CategoryWeight { category: "semi".to_string(), weight: 2 },
            CategoryWeight { category: "soft".to_string(), weight: 1 },
            CategoryWeight { category: "verb".to_string(), weight: 1 },
        ],
        anchors: vec![
            AnchorCfg {
                id: "djia_core_names".to_string(),
                category: "hard".to_string(),
                pattern: r"(?i)\b(djia|dow jones|the dow|dow)\b".to_string(),
                near: None,
                tag: None,
            },
            AnchorCfg {
                id: "powell_near_fed_rates".to_string(),
                category: "macro".to_string(),
                pattern: r"(?i)\bpowell\b".to_string(),
                near: near_cfg(r"(?i)\b(fed|fomc|rates?)\b", 6),
                tag: None,
            },
            AnchorCfg {
                id: "dow_inc_single".to_string(),
                category: "soft".to_string(),
                pattern: r"(?i)\bdow inc\.?\b".to_string(),
                near: None,
                tag: Some("single_stock_only".to_string()),
            },
        ],
        blockers: vec![
            BlockerCfg {
                id: "dji_drones".to_string(),
                pattern: r"(?i)\bdji\b".to_string(),
                reason: "DJI (drones)".to_string(),
                action: "block".to_string(),
                near: near_cfg(r"(?i)\b(drone|mavic)\b", 4),
                unless_near: None,
            },
            BlockerCfg {
                id: "dow_inc_near_dow_word".to_string(),
                pattern: r"(?i)\bdow\b".to_string(),
                reason: "Dow Inc (single stock)".to_string(),
                action: "block".to_string(),
                near: near_cfg(r"(?i)\binc\.?\b", 1),
                unless_near: None,
            },
        ],
        combos: ComboCfg {
            pass_any: vec![
                ComboNeed { need: vec!["macro".to_string(), "hard".to_string()] },
                ComboNeed { need: vec!["macro".to_string(), "verb_or_semi".to_string()] },
            ],
        },
        aliases: vec![AliasCfg {
            name: "verb_or_semi".to_string(),
            categories: vec!["verb".to_string(), "semi".to_string()],
        }],
    }
}

fn eng() -> RelevanceEngine {
    RelevanceEngine::from_config(handpicked_config()).expect("load inline test config")
}

#[test]
fn relevance_handpicked_pass_powell_fed_dow_context() {
    let e = eng();
    let text = "Fed chair Powell comments on the Dow after the FOMC meeting.";
    let r = e.score(text);
    assert!(r.score.is_positive(), "expected PASS with macro+hard context, got: {:?}", r);
    assert!(r.reasons.iter().any(|s| s.contains("combos_ok")));
    assert!(r.matched.iter().any(|m| m == "djia_core_names"));
    assert!(r.matched.iter().any(|m| m == "powell_near_fed_rates"));
}

#[test]
fn relevance_handpicked_block_dji_drone_near() {
    let e = eng();
    let r = e.score("DJI releases a new drone with a better gimbal.");
    assert_eq!(r.score.num, 0, "blocked text must neutralize score");
    assert!(r.reasons.iter().any(|s| s.contains("dji_drones")), "expected blocker reason");
    assert!(r.matched.is_empty(), "blocked text should not report anchors");
}

#[test]
fn relevance_handpicked_neutralize_dow_inc_without_context() {
    let e = eng();
    let r = e.score("Dow Inc. announces a cash dividend.");
    assert_eq!(r.score.num, 0, "single-stock-only without broader context should neutralize");
    let _maybe_reason = r.reasons.iter().any(|s| s.contains("single_stock_only"));
}

#[test]
fn proximity_required_for_powell() {
    let e = eng();
    let r = e.score("Powell gives a talk about leadership. Markets are calm.");
    assert_eq!(r.score.num, 0, "no proximity → macro anchor should not qualify");
    assert!(r.reasons.iter().any(|s| s.contains("combos_fail")), "expected combos_fail");
}
