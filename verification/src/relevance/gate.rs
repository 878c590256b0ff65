//! The order of the evaluation: blockers, then the single-stock guard,
//! then combos and score, then the threshold. Each of the first two ends
//! the evaluation when it applies.

use crate::relevance::combo::{combo_reasons, combos_pass, solve_combos};
use crate::relevance::config::RelevanceRoot;
use crate::relevance::score::{
    hundredths, threshold_text, two_decimals, Relevance, RelevanceView, Score, SCORE_LIMIT,
};
use crate::relevance::weights::{count_category, lemma_weighted_in_unit_range, weigh, weighted};
use crate::text::{concat2, views};
use vstd::multiset::Multiset;
use vstd::prelude::*;
use vstd::string::StringExecFns;

verus! {

/// The reason that the single-stock guard leaves.
pub const SINGLE_STOCK_REASON: &'static str = "single_stock_only_without_broader_context";

/// The pool holds a category of broad context: `hard`, `macro` or `semi`.
pub open spec fn broad_context(pool: Multiset<Seq<char>>) -> bool {
    pool.count("hard"@) > 0 || pool.count("macro"@) > 0 || pool.count("semi"@) > 0
}

/// The tag that tells whether the combos were satisfied.
pub open spec fn combos_tag(cfg: RelevanceRoot, pool: Multiset<Seq<char>>) -> Seq<char> {
    if combos_pass(cfg.aliases@, cfg.combos.pass_any@, pool) {
        "combos_ok"@
    } else {
        "combos_fail"@
    }
}

/// The tag that tells whether the score met the threshold, followed by
/// the threshold with two decimals.
pub open spec fn threshold_tag(cfg: RelevanceRoot, pool: Multiset<Seq<char>>) -> Seq<char> {
    if weighted(cfg.weights@, pool).spec_meets(cfg.relevance.threshold) {
        "threshold_ok:"@ + two_decimals(hundredths(cfg.relevance.threshold.millionths))
    } else {
        "threshold_fail:"@ + two_decimals(hundredths(cfg.relevance.threshold.millionths))
    }
}

/// The reasons of an evaluation that reached the threshold gate: the
/// filling of the combo, if one was filled, then the combos tag, then
/// the threshold tag.
pub open spec fn gate_reasons(cfg: RelevanceRoot, pool: Multiset<Seq<char>>) -> Seq<Seq<char>> {
    combo_reasons(cfg.aliases@, cfg.combos.pass_any@, pool) + seq![combos_tag(cfg, pool)]
        + seq![threshold_tag(cfg, pool)]
}

/// Where an evaluation ends. The stages are tried in this order, and the
/// first two end the evaluation when they apply.
#[derive(Debug, Clone, Copy, PartialEq, Eq, Structural)]
pub enum Stage {
    /// A blocker fired: a hard veto.
    Blocked,
    /// An anchor that names a single stock qualified without any anchor
    /// of broad context.
    SingleStockNeutralized,
    /// The threshold gate was reached and no combo was satisfied.
    NeutralizedCombos,
    /// The threshold gate was reached and the combos were satisfied, but
    /// the weighted score stayed below the threshold.
    NeutralizedThreshold,
    /// The threshold gate let the text pass.
    Passed,
}

/// The stage at which an evaluation ends, from what the blockers and the
/// anchors found.
pub open spec fn stage_of(
    cfg: RelevanceRoot,
    fired: Seq<Seq<char>>,
    pool: Multiset<Seq<char>>,
    single_stock_only: bool,
) -> Stage {
    if fired.len() > 0 {
        Stage::Blocked
    } else if single_stock_only && !broad_context(pool) {
        Stage::SingleStockNeutralized
    } else if !combos_pass(cfg.aliases@, cfg.combos.pass_any@, pool) {
        Stage::NeutralizedCombos
    } else if !weighted(cfg.weights@, pool).spec_meets(cfg.relevance.threshold) {
        Stage::NeutralizedThreshold
    } else {
        Stage::Passed
    }
}

/// The result of an evaluation, from what the blockers and the anchors
/// found: the reasons of the blockers that fired, the matched list, the
/// categories of the anchors that qualified, and whether one of them was
/// tagged as single stock. Only a text that passes keeps its weighted
/// score; at every other stage the score is 0.
pub open spec fn verdict(
    cfg: RelevanceRoot,
    fired: Seq<Seq<char>>,
    matched: Seq<Seq<char>>,
    pool: Multiset<Seq<char>>,
    single_stock_only: bool,
) -> RelevanceView {
    match stage_of(cfg, fired, pool, single_stock_only) {
        Stage::Blocked => RelevanceView {
            score: Score::zero(),
            matched: Seq::empty(),
            reasons: fired,
        },
        Stage::SingleStockNeutralized => RelevanceView {
            score: Score::zero(),
            matched,
            reasons: seq![SINGLE_STOCK_REASON@],
        },
        Stage::Passed => RelevanceView {
            score: weighted(cfg.weights@, pool),
            matched,
            reasons: gate_reasons(cfg, pool),
        },
        _ => RelevanceView { score: Score::zero(), matched, reasons: gate_reasons(cfg, pool) },
    }
}

/// Whatever was found, the score lies between 0 and 1.
pub proof fn lemma_verdict_in_unit_range(
    cfg: RelevanceRoot,
    fired: Seq<Seq<char>>,
    matched: Seq<Seq<char>>,
    pool: Multiset<Seq<char>>,
    single_stock_only: bool,
)
    ensures
        verdict(cfg, fired, matched, pool, single_stock_only).score.in_unit_range(),
{
    assert(cfg.weights@.len() == cfg.weights.len());
    lemma_weighted_in_unit_range(cfg.weights@, pool);
}

/// Decides the result from what the blockers and the anchors found, and
/// tells at which stage the evaluation ended. A blocker that fired
/// vetoes: the score is 0 and nothing is matched. A single-stock anchor
/// without broad context neutralizes. Otherwise the combos and the
/// threshold decide whether the weighted score stands or is neutralized
/// to 0.
pub fn decide_with_stage(
    cfg: &RelevanceRoot,
    fired: Vec<String>,
    matched: Vec<String>,
    categories: &Vec<String>,
    single_stock_only: bool,
) -> (r: (Relevance, Stage))
    ensures
        r.0@ == verdict(
            *cfg,
            views(fired@),
            views(matched@),
            views(categories@).to_multiset(),
            single_stock_only,
        ),
        r.1 == stage_of(*cfg, views(fired@), views(categories@).to_multiset(), single_stock_only),
        r.0.score.in_unit_range(),
        r.0.score.den <= SCORE_LIMIT,
{
    let ghost pool = views(categories@).to_multiset();
    if fired.len() > 0 {
        let rel = Relevance { score: Score::zero(), matched: Vec::new(), reasons: fired };
        assert(rel@.matched =~= Seq::empty());
        return (rel, Stage::Blocked);
    }
    if single_stock_only {
        let broad = count_category(categories, "hard") > 0 || count_category(categories, "macro")
            > 0 || count_category(categories, "semi") > 0;
        if !broad {
            let mut reasons: Vec<String> = Vec::new();
            reasons.push(String::from_str(SINGLE_STOCK_REASON));
            let rel = Relevance { score: Score::zero(), matched, reasons };
            assert(rel@.reasons =~= seq![SINGLE_STOCK_REASON@]);
            return (rel, Stage::SingleStockNeutralized);
        }
    }
    let mut reasons: Vec<String> = Vec::new();
    assert(views(reasons@) =~= Seq::empty());
    let combos_ok = solve_combos(&cfg.aliases, &cfg.combos.pass_any, categories, &mut reasons);
    let score = weigh(&cfg.weights, categories);
    let passed_threshold = score.meets(cfg.relevance.threshold);
    let shown = threshold_text(cfg.relevance.threshold);
    let ghost after_combo = views(reasons@);
    assert(after_combo =~= combo_reasons(cfg.aliases@, cfg.combos.pass_any@, pool));
    if combos_ok {
        reasons.push(String::from_str("combos_ok"));
    } else {
        reasons.push(String::from_str("combos_fail"));
    }
    if passed_threshold {
        reasons.push(concat2("threshold_ok:", shown.as_str()));
    } else {
        reasons.push(concat2("threshold_fail:", shown.as_str()));
    }
    assert(views(reasons@) =~= after_combo + seq![combos_tag(*cfg, pool)] + seq![
        threshold_tag(*cfg, pool),
    ]);
    if !combos_ok {
        (Relevance { score: Score::zero(), matched, reasons }, Stage::NeutralizedCombos)
    } else if !passed_threshold {
        (Relevance { score: Score::zero(), matched, reasons }, Stage::NeutralizedThreshold)
    } else {
        (Relevance { score, matched, reasons }, Stage::Passed)
    }
}

/// Decides the result from what the blockers and the anchors found.
pub fn decide(
    cfg: &RelevanceRoot,
    fired: Vec<String>,
    matched: Vec<String>,
    categories: &Vec<String>,
    single_stock_only: bool,
) -> (rel: Relevance)
    ensures
        rel@ == verdict(
            *cfg,
            views(fired@),
            views(matched@),
            views(categories@).to_multiset(),
            single_stock_only,
        ),
        rel.score.in_unit_range(),
        rel.score.den <= SCORE_LIMIT,
{
    decide_with_stage(cfg, fired, matched, categories, single_stock_only).0
}

} // verus!
