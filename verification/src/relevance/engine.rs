//! The engine: compiled anchors and blockers, and the evaluation of a
//! text against them.

use crate::relevance::compile::{
    anchor_compiled, anchor_failure, blocker_compiled, blocker_failure, compile_anchor,
    compile_blocker, first_failure, CompiledAnchor, CompiledBlocker, ConfigError,
};
use crate::relevance::combo::{combo_reasons, combos_pass, expand, expand_alias, solve_combos};
use crate::relevance::config::{RelevanceRoot, Threshold, SINGLE_STOCK_TAG};
use crate::relevance::gate::{
    broad_context, decide_with_stage, lemma_verdict_in_unit_range, stage_of, verdict, Stage,
};
use crate::relevance::score::{Relevance, RelevanceView, Score, SCORE_LIMIT};
use crate::relevance::weights::{weigh, weighted};
use crate::text::{
    concat2, lemma_sorted_list_unique, sort_dedup, str_eq, strictly_sorted, views,
};
use crate::relevance::pattern::{match_starts, regex_match_starts};
use crate::relevance::proximity::{
    build_token_lookup, lookup, near, token_at, token_index_for_start, within_window,
};
use crate::relevance::tokenizer::{token_spans, tokenize, word_spans, Token};
use regex::Regex;
use vstd::prelude::*;
use vstd::string::StringExecFns;
use vstd::string::StringSliceAdditionalSpecFns;
use vstd::utf8::encode_utf8;

verus! {

/// The engine holds the configuration and its compiled patterns.
pub struct RelevanceEngine {
    pub cfg: RelevanceRoot,
    pub anchors: Vec<CompiledAnchor>,
    pub blockers: Vec<CompiledBlocker>,
}

/// The byte position to token index lookup of a text: one entry for each
/// byte offset from 0 to the length of the text.
pub open spec fn text_lookup(text: Seq<char>) -> Seq<usize> {
    Seq::new(encode_utf8(text).len() + 1, |pos: int| token_at(word_spans(text), pos))
}

/// The token indices of a list of match offsets: each offset is looked
/// up, and those that resolve to no token are left out.
pub open spec fn token_hits(starts: Seq<usize>, map: Seq<usize>) -> Seq<usize> {
    starts.filter_map(|s: usize| lookup(map, s))
}

/// The token indices at which a regex matches a text.
pub open spec fn pattern_hits(re: Regex, text: Seq<char>) -> Seq<usize> {
    token_hits(regex_match_starts(re, text), text_lookup(text))
}

/// A proximity requirement holds of the matches `main`: there is none,
/// or some match of its pattern lies within its window of one of them.
pub open spec fn near_holds(main: Seq<usize>, req: Option<(Regex, usize)>, text: Seq<char>) -> bool {
    match req {
        None => true,
        Some((re, window)) => near(main, pattern_hits(re, text), window),
    }
}

/// Collects the token indices of all matches of `re` in `text`, through
/// the byte position to token index lookup.
pub fn match_token_indices(re: &Regex, text: &str, byte_to_tok: &[usize]) -> (r: Vec<usize>)
    ensures
        r@ == token_hits(regex_match_starts(*re, text@), byte_to_tok@),
{
    let starts = match_starts(re, text);
    let mut out: Vec<usize> = Vec::new();
    let mut i: usize = 0;
    while i < starts.len()
        invariant
            i <= starts.len(),
            out@ == token_hits(starts@.take(i as int), byte_to_tok@),
        decreases starts.len() - i,
    {
        assert(starts@.take(i + 1).drop_last() =~= starts@.take(i as int));
        match token_index_for_start(byte_to_tok, starts[i]) {
            Some(idx) => {
                out.push(idx);
                assert(out@ =~= token_hits(starts@.take(i as int), byte_to_tok@) + seq![idx]);
            },
            None => {},
        }
        i += 1;
    }
    assert(starts@.take(starts@.len() as int) =~= starts@);
    out
}

/// Whether a proximity requirement holds of the matches `main`.
pub fn check_near(main: &Vec<usize>, req: &Option<(Regex, usize)>, text: &str, byte_to_tok: &[
    usize
]) -> (r: bool)
    ensures
        r == match *req {
            None => true,
            Some((re, window)) => near(
                main@,
                token_hits(regex_match_starts(re, text@), byte_to_tok@),
                window,
            ),
        },
{
    match req {
        None => true,
        Some((re, window)) => {
            let near_idxs = match_token_indices(re, text, byte_to_tok);
            within_window(main.as_slice(), near_idxs.as_slice(), *window)
        },
    }
}

/// A blocker fires on a text: its pattern matches, its proximity
/// requirement holds if it has one, and its exception does not apply.
pub open spec fn blocker_fires(b: CompiledBlocker, text: Seq<char>) -> bool {
    let main = pattern_hits(b.re, text);
    &&& main.len() > 0
    &&& near_holds(main, b.near, text)
    &&& !(b.unless_near is Some && near_holds(main, b.unless_near, text))
}

/// The reason that a blocker that fires leaves: `blocker:<id>:<reason>`.
pub open spec fn blocker_reason(b: CompiledBlocker) -> Seq<char> {
    "blocker:"@ + b.cfg.id@ + ":"@ + b.cfg.reason@
}

/// The reasons of the blockers that fire on a text, in the order of the
/// blockers.
pub open spec fn fired_blockers(blockers: Seq<CompiledBlocker>, text: Seq<char>) -> Seq<Seq<char>> {
    blockers.filter_map(
        |b: CompiledBlocker|
            if blocker_fires(b, text) {
                Some(blocker_reason(b))
            } else {
                None
            },
    )
}

/// An anchor qualifies on a text: its pattern matches, and its proximity
/// requirement holds if it has one.
pub open spec fn anchor_qualifies(a: CompiledAnchor, text: Seq<char>) -> bool {
    let main = pattern_hits(a.re, text);
    main.len() > 0 && near_holds(main, a.near, text)
}

/// The label of an anchor: `anchor:<id>`, or `anchor:<id>:<tag>` when it
/// has a tag.
pub open spec fn anchor_label(a: CompiledAnchor) -> Seq<char> {
    match a.cfg.tag {
        Some(tag) => "anchor:"@ + a.cfg.id@ + ":"@ + tag@,
        None => "anchor:"@ + a.cfg.id@,
    }
}

/// The labels of the anchors that qualify on a text, in their order.
pub open spec fn anchor_labels(anchors: Seq<CompiledAnchor>, text: Seq<char>) -> Seq<Seq<char>> {
    anchors.filter_map(
        |a: CompiledAnchor|
            if anchor_qualifies(a, text) {
                Some(anchor_label(a))
            } else {
                None
            },
    )
}

/// The ids of the anchors that qualify on a text, in their order.
pub open spec fn qualifying_ids(anchors: Seq<CompiledAnchor>, text: Seq<char>) -> Seq<Seq<char>> {
    anchors.filter_map(
        |a: CompiledAnchor|
            if anchor_qualifies(a, text) {
                Some(a.cfg.id@)
            } else {
                None
            },
    )
}

/// The categories of the anchors that qualify on a text, one entry for
/// each such anchor, however often its pattern matches.
pub open spec fn qualifying_categories(anchors: Seq<CompiledAnchor>, text: Seq<char>) -> Seq<
    Seq<char>,
> {
    anchors.filter_map(
        |a: CompiledAnchor|
            if anchor_qualifies(a, text) {
                Some(a.cfg.category@)
            } else {
                None
            },
    )
}

/// The anchor carries the single-stock tag.
pub open spec fn is_single_stock(a: CompiledAnchor) -> bool {
    a.cfg.tag matches Some(tag) && tag@ == SINGLE_STOCK_TAG@
}

/// Some anchor that qualifies on the text carries the single-stock tag.
pub open spec fn single_stock_seen(anchors: Seq<CompiledAnchor>, text: Seq<char>) -> bool {
    exists|i: int|
        0 <= i < anchors.len() && anchor_qualifies(#[trigger] anchors[i], text) && is_single_stock(
            anchors[i],
        )
}

/// A list of ids is the matched list of a text: the ids of the anchors
/// that qualify, sorted and without repeats.
pub open spec fn is_matched_list(
    matched: Seq<Seq<char>>,
    anchors: Seq<CompiledAnchor>,
    text: Seq<char>,
) -> bool {
    strictly_sorted(matched) && matched.to_set() == qualifying_ids(anchors, text).to_set()
}

/// The matched list of a text: the ids of the anchors that qualify,
/// sorted in the order of `str` and without repeats.
pub open spec fn matched_list(anchors: Seq<CompiledAnchor>, text: Seq<char>) -> Seq<Seq<char>> {
    choose|m: Seq<Seq<char>>| is_matched_list(m, anchors, text)
}

/// The pool of a text: the categories of the anchors that qualify, each
/// as often as anchors of that category qualify.
pub open spec fn category_pool(anchors: Seq<CompiledAnchor>, text: Seq<char>) -> vstd::multiset::Multiset<
    Seq<char>,
> {
    qualifying_categories(anchors, text).to_multiset()
}

impl RelevanceEngine {
    /// The engine was compiled from `cfg`: it keeps the configuration, and
    /// its anchors and blockers are those of `cfg`, one for one.
    pub open spec fn compiled_from(&self, cfg: RelevanceRoot) -> bool {
        &&& self.cfg == cfg
        &&& self.anchors@.len() == cfg.anchors@.len()
        &&& forall|i: int|
            0 <= i < cfg.anchors@.len() ==> anchor_compiled(
                #[trigger] self.anchors@[i],
                cfg.anchors@[i],
            )
        &&& self.blockers@.len() == cfg.blockers@.len()
        &&& forall|i: int|
            0 <= i < cfg.blockers@.len() ==> blocker_compiled(
                #[trigger] self.blockers@[i],
                cfg.blockers@[i],
            )
    }

    /// Compiles a configuration into an engine. It fails on the first
    /// pattern that the regex compiler refuses, and names it.
    pub fn from_config(cfg: RelevanceRoot) -> (r: Result<RelevanceEngine, ConfigError>)
        ensures
            match r {
                Ok(engine) => first_failure(cfg) is None && engine.compiled_from(cfg),
                Err(e) => first_failure(cfg) == Some((e.role, e.id@)),
            },
    {
        let mut anchors: Vec<CompiledAnchor> = Vec::new();
        let mut i: usize = 0;
        while i < cfg.anchors.len()
            invariant
                i <= cfg.anchors@.len(),
                anchors@.len() == i,
                forall|k: int| 0 <= k < i ==> anchor_failure(#[trigger] cfg.anchors@[k]) is None,
                forall|k: int|
                    0 <= k < i ==> anchor_compiled(#[trigger] anchors@[k], cfg.anchors@[k]),
            decreases cfg.anchors.len() - i,
        {
            match compile_anchor(&cfg.anchors[i]) {
                Ok(a) => {
                    anchors.push(a);
                },
                Err(e) => {
                    assert(anchor_failure(cfg.anchors@[i as int]) is Some);
                    return Err(e);
                },
            }
            i += 1;
        }
        let mut blockers: Vec<CompiledBlocker> = Vec::new();
        let mut i: usize = 0;
        while i < cfg.blockers.len()
            invariant
                i <= cfg.blockers@.len(),
                blockers@.len() == i,
                forall|k: int|
                    0 <= k < cfg.anchors@.len() ==> anchor_failure(#[trigger] cfg.anchors@[k])
                        is None,
                forall|k: int|
                    0 <= k < i ==> blocker_failure(#[trigger] cfg.blockers@[k]) is None,
                forall|k: int|
                    0 <= k < i ==> blocker_compiled(#[trigger] blockers@[k], cfg.blockers@[k]),
            decreases cfg.blockers.len() - i,
        {
            match compile_blocker(&cfg.blockers[i]) {
                Ok(b) => {
                    blockers.push(b);
                },
                Err(e) => {
                    assert(blocker_failure(cfg.blockers@[i as int]) is Some);
                    return Err(e);
                },
            }
            i += 1;
        }
        Ok(RelevanceEngine { cfg, anchors, blockers })
    }

    /// Tokenizes once and returns the tokens with the byte position to
    /// token index lookup that the proximity checks use.
    pub fn tokenize_with_index(&self, text: &str) -> (r: (Vec<Token>, Vec<usize>))
        requires
            text.spec_bytes().len() < usize::MAX,
        ensures
            token_spans(r.0@) == word_spans(text@),
            forall|i: int| 0 <= i < r.0@.len() ==> (#[trigger] r.0@[i]).index == i,
            r.1@ == text_lookup(text@),
    {
        let tokens = tokenize(text);
        let byte_to_tok = build_token_lookup(text.len(), &tokens);
        assert(byte_to_tok@ =~= text_lookup(text@));
        (tokens, byte_to_tok)
    }

    /// Whether the blocker fires on the text.
    fn blocker_applies(b: &CompiledBlocker, text: &str, byte_to_tok: &[usize]) -> (r: bool)
        requires
            byte_to_tok@ == text_lookup(text@),
        ensures
            r == blocker_fires(*b, text@),
    {
        let main_idxs = match_token_indices(&b.re, text, byte_to_tok);
        if main_idxs.len() == 0 {
            return false;
        }
        if !check_near(&main_idxs, &b.near, text, byte_to_tok) {
            return false;
        }
        match &b.unless_near {
            None => true,
            Some(_) => !check_near(&main_idxs, &b.unless_near, text, byte_to_tok),
        }
    }

    /// Whether the anchor qualifies on the text.
    fn anchor_applies(a: &CompiledAnchor, text: &str, byte_to_tok: &[usize]) -> (r: bool)
        requires
            byte_to_tok@ == text_lookup(text@),
        ensures
            r == anchor_qualifies(*a, text@),
    {
        let main_idxs = match_token_indices(&a.re, text, byte_to_tok);
        if main_idxs.len() == 0 {
            return false;
        }
        check_near(&main_idxs, &a.near, text, byte_to_tok)
    }

    /// Finds the blockers that fire on `text`, with their optional `near`
    /// and `unless_near` requirements, and returns their reasons in the
    /// order of the configuration.
    pub fn find_blockers(&self, text: &str) -> (hits: Vec<String>)
        requires
            text.spec_bytes().len() < usize::MAX,
        ensures
            views(hits@) == fired_blockers(self.blockers@, text@),
    {
        let (_tokens, byte_to_tok) = self.tokenize_with_index(text);
        let mut hits: Vec<String> = Vec::new();
        let mut i: usize = 0;
        assert(views(hits@) =~= fired_blockers(self.blockers@.take(0), text@));
        while i < self.blockers.len()
            invariant
                i <= self.blockers@.len(),
                byte_to_tok@ == text_lookup(text@),
                views(hits@) == fired_blockers(self.blockers@.take(i as int), text@),
            decreases self.blockers.len() - i,
        {
            let b = &self.blockers[i];
            assert(self.blockers@.take(i + 1).drop_last() =~= self.blockers@.take(i as int));
            if Self::blocker_applies(b, text, byte_to_tok.as_slice()) {
                let mut reason = concat2("blocker:", b.cfg.id.as_str());
                reason.append(":");
                reason.append(b.cfg.reason.as_str());
                let ghost before = views(hits@);
                hits.push(reason);
                assert(views(hits@) =~= before + seq![blocker_reason(*b)]);
            }
            i += 1;
        }
        assert(self.blockers@.take(self.blockers@.len() as int) =~= self.blockers@);
        hits
    }

    /// Finds the anchors that qualify on `text` and returns their labels,
    /// `anchor:<id>` or `anchor:<id>:<tag>`, in the order of the
    /// configuration.
    pub fn find_anchors(&self, text: &str) -> (out: Vec<String>)
        requires
            text.spec_bytes().len() < usize::MAX,
        ensures
            views(out@) == anchor_labels(self.anchors@, text@),
    {
        let (_tokens, byte_to_tok) = self.tokenize_with_index(text);
        let mut out: Vec<String> = Vec::new();
        let mut i: usize = 0;
        assert(views(out@) =~= anchor_labels(self.anchors@.take(0), text@));
        while i < self.anchors.len()
            invariant
                i <= self.anchors@.len(),
                byte_to_tok@ == text_lookup(text@),
                views(out@) == anchor_labels(self.anchors@.take(i as int), text@),
            decreases self.anchors.len() - i,
        {
            let a = &self.anchors[i];
            assert(self.anchors@.take(i + 1).drop_last() =~= self.anchors@.take(i as int));
            if Self::anchor_applies(a, text, byte_to_tok.as_slice()) {
                let mut label = concat2("anchor:", a.cfg.id.as_str());
                match &a.cfg.tag {
                    Some(tag) => {
                        label.append(":");
                        label.append(tag.as_str());
                    },
                    None => {},
                }
                let ghost before = views(out@);
                out.push(label);
                assert(views(out@) =~= before + seq![anchor_label(*a)]);
            }
            i += 1;
        }
        assert(self.anchors@.take(self.anchors@.len() as int) =~= self.anchors@);
        out
    }

    /// What `evaluate` returns: the reasons of the blockers that fire, or,
    /// when none does, the labels of the anchors that qualify. The score
    /// is 0 either way.
    pub open spec fn evaluation(&self, text: Seq<char>) -> RelevanceView {
        let fired = fired_blockers(self.blockers@, text);
        if fired.len() > 0 {
            RelevanceView {
                score: Score::zero(),
                matched: Seq::empty(),
                reasons: fired,
            }
        } else {
            RelevanceView {
                score: Score::zero(),
                matched: anchor_labels(self.anchors@, text),
                reasons: Seq::empty(),
            }
        }
    }

    /// Evaluates blockers first, then anchors, and reports the markers
    /// that were found. The score stays 0.
    pub fn evaluate(&self, text: &str) -> (rel: Relevance)
        requires
            text.spec_bytes().len() < usize::MAX,
        ensures
            rel@ == self.evaluation(text@),
    {
        let blockers = self.find_blockers(text);
        if blockers.len() > 0 {
            let rel = Relevance { score: Score::zero(), matched: Vec::new(), reasons: blockers };
            assert(rel@.matched =~= Seq::empty());
            return rel;
        }
        let anchors = self.find_anchors(text);
        let rel = Relevance { score: Score::zero(), matched: anchors, reasons: Vec::new() };
        assert(rel@.reasons =~= Seq::empty());
        rel
    }

    /// Runs the anchors over `text` and returns the ids of those that
    /// qualify, sorted and without repeats; their categories, one entry
    /// for each anchor that qualifies; and whether one of them carries the
    /// single-stock tag.
    pub fn collect_anchor_stats(&self, text: &str) -> (r: (Vec<String>, Vec<String>, bool))
        requires
            text.spec_bytes().len() < usize::MAX,
        ensures
            is_matched_list(views(r.0@), self.anchors@, text@),
            views(r.1@) == qualifying_categories(self.anchors@, text@),
            r.2 == single_stock_seen(self.anchors@, text@),
    {
        let (_tokens, byte_to_tok) = self.tokenize_with_index(text);
        let mut ids: Vec<String> = Vec::new();
        let mut categories: Vec<String> = Vec::new();
        let mut single_stock_only = false;
        let mut i: usize = 0;
        assert(views(ids@) =~= qualifying_ids(self.anchors@.take(0), text@));
        assert(views(categories@) =~= qualifying_categories(self.anchors@.take(0), text@));
        while i < self.anchors.len()
            invariant
                i <= self.anchors@.len(),
                byte_to_tok@ == text_lookup(text@),
                views(ids@) == qualifying_ids(self.anchors@.take(i as int), text@),
                views(categories@) == qualifying_categories(self.anchors@.take(i as int), text@),
                single_stock_only == single_stock_seen(self.anchors@.take(i as int), text@),
            decreases self.anchors.len() - i,
        {
            let a = &self.anchors[i];
            let ghost prefix = self.anchors@.take(i as int);
            let ghost next = self.anchors@.take(i + 1);
            assert(next.drop_last() =~= prefix);
            let applies = Self::anchor_applies(a, text, byte_to_tok.as_slice());
            let tagged = match &a.cfg.tag {
                Some(tag) => str_eq(tag.as_str(), SINGLE_STOCK_TAG),
                None => false,
            };
            proof {
                if single_stock_seen(prefix, text@) {
                    let k = choose|k: int|
                        0 <= k < prefix.len() && anchor_qualifies(#[trigger] prefix[k], text@)
                            && is_single_stock(prefix[k]);
                    assert(next[k] == prefix[k]);
                }
                if applies && tagged {
                    assert(next[i as int] == *a);
                }
                if single_stock_seen(next, text@) {
                    let k = choose|k: int|
                        0 <= k < next.len() && anchor_qualifies(#[trigger] next[k], text@)
                            && is_single_stock(next[k]);
                    if k < i {
                        assert(prefix[k] == next[k]);
                    }
                }
            }
            if applies {
                let ghost ids_before = views(ids@);
                let ghost cats_before = views(categories@);
                ids.push(a.cfg.id.clone());
                categories.push(a.cfg.category.clone());
                assert(views(ids@) =~= ids_before + seq![a.cfg.id@]);
                assert(views(categories@) =~= cats_before + seq![a.cfg.category@]);
                if tagged {
                    single_stock_only = true;
                }
            }
            i += 1;
        }
        assert(self.anchors@.take(self.anchors@.len() as int) =~= self.anchors@);
        let matched = sort_dedup(ids);
        (matched, categories, single_stock_only)
    }

    /// Expands an alias name, such as `verb_or_semi`, through the aliases
    /// of the configuration. A name that is no alias stands for itself.
    pub fn expand_alias(&self, token: &str) -> (r: Vec<String>)
        ensures
            views(r@) == expand(self.cfg.aliases@, token@),
    {
        expand_alias(&self.cfg.aliases, token)
    }

    /// Checks whether at least one combo is satisfied by the observed
    /// categories, and adds the filling of the first one that is to
    /// `reasons`.
    pub fn combos_satisfied(&self, categories: &Vec<String>, reasons: &mut Vec<String>) -> (r: bool)
        ensures
            r == combos_pass(
                self.cfg.aliases@,
                self.cfg.combos.pass_any@,
                views(categories@).to_multiset(),
            ),
            views(final(reasons)@) == views(old(reasons)@) + combo_reasons(
                self.cfg.aliases@,
                self.cfg.combos.pass_any@,
                views(categories@).to_multiset(),
            ),
    {
        solve_combos(&self.cfg.aliases, &self.cfg.combos.pass_any, categories, reasons)
    }

    /// Computes the score of the observed categories from the category
    /// weights, each category capped at three occurrences.
    pub fn weighted_score(&self, categories: &Vec<String>) -> (r: Score)
        ensures
            r == weighted(self.cfg.weights@, views(categories@).to_multiset()),
            r.in_unit_range(),
    {
        weigh(&self.cfg.weights, categories)
    }

    /// Replaces the threshold of the engine by an override, if there is
    /// one.
    pub fn override_threshold(&mut self, value: Option<Threshold>)
        ensures
            final(self).anchors == old(self).anchors,
            final(self).blockers == old(self).blockers,
            final(self).cfg.weights == old(self).cfg.weights,
            final(self).cfg.anchors == old(self).cfg.anchors,
            final(self).cfg.blockers == old(self).cfg.blockers,
            final(self).cfg.combos == old(self).cfg.combos,
            final(self).cfg.aliases == old(self).cfg.aliases,
            final(self).cfg.relevance.near_default_window == old(
                self,
            ).cfg.relevance.near_default_window,
            final(self).cfg.relevance.threshold == match value {
                Some(t) => t,
                None => old(self).cfg.relevance.threshold,
            },
    {
        match value {
            Some(t) => {
                self.cfg.relevance.threshold = t;
            },
            None => {},
        }
    }

    /// The result of scoring a text: what `verdict` makes of the blockers
    /// that fire on it and of the anchors that qualify on it.
    pub open spec fn outcome(&self, text: Seq<char>) -> RelevanceView {
        verdict(
            self.cfg,
            fired_blockers(self.blockers@, text),
            matched_list(self.anchors@, text),
            category_pool(self.anchors@, text),
            single_stock_seen(self.anchors@, text),
        )
    }

    /// The stage at which the scoring of a text ends.
    pub open spec fn final_stage(&self, text: Seq<char>) -> Stage {
        stage_of(
            self.cfg,
            fired_blockers(self.blockers@, text),
            category_pool(self.anchors@, text),
            single_stock_seen(self.anchors@, text),
        )
    }

    /// Scores a text and tells at which stage the evaluation ended.
    pub fn score_with_stage(&self, text: &str) -> (r: (Relevance, Stage))
        requires
            text.spec_bytes().len() < usize::MAX,
        ensures
            r.0@ == self.outcome(text@),
            r.1 == self.final_stage(text@),
            r.0.score.in_unit_range(),
            r.0.score.den <= SCORE_LIMIT,
    {
        let blockers = self.find_blockers(text);
        if blockers.len() > 0 {
            let none: Vec<String> = Vec::new();
            return decide_with_stage(&self.cfg, blockers, Vec::new(), &none, false);
        }
        let (matched, categories, single_stock_only) = self.collect_anchor_stats(text);
        proof {
            let m = matched_list(self.anchors@, text@);
            assert(is_matched_list(views(matched@), self.anchors@, text@));
            lemma_sorted_list_unique(m, views(matched@));
        }
        decide_with_stage(&self.cfg, blockers, matched, &categories, single_stock_only)
    }

    /// Scores a text: blockers, then anchors, then combos and threshold.
    pub fn score(&self, text: &str) -> (rel: Relevance)
        requires
            text.spec_bytes().len() < usize::MAX,
        ensures
            rel@ == self.outcome(text@),
            rel.score.in_unit_range(),
            rel.score.den <= SCORE_LIMIT,
    {
        self.score_with_stage(text).0
    }
}

/// Whatever the text, its score lies between 0 and 1.
pub proof fn lemma_score_in_unit_range(engine: RelevanceEngine, text: Seq<char>)
    ensures
        engine.outcome(text).score.in_unit_range(),
{
    lemma_verdict_in_unit_range(
        engine.cfg,
        fired_blockers(engine.blockers@, text),
        matched_list(engine.anchors@, text),
        category_pool(engine.anchors@, text),
        single_stock_seen(engine.anchors@, text),
    );
}

/// A blocker that fires leaves its reason among the fired blockers.
proof fn lemma_fired_blockers_nonempty(blockers: Seq<CompiledBlocker>, text: Seq<char>, i: int)
    requires
        0 <= i < blockers.len(),
        blocker_fires(blockers[i], text),
    ensures
        fired_blockers(blockers, text).len() > 0,
    decreases blockers.len(),
{
    if i < blockers.len() - 1 {
        lemma_fired_blockers_nonempty(blockers.drop_last(), text, i);
    }
}

/// If a blocker fires on a text, that is if its pattern matches, its
/// proximity requirement holds and its exception does not apply, then the
/// score of the text is 0 and nothing is reported as matched.
pub proof fn lemma_blocker_vetoes(engine: RelevanceEngine, text: Seq<char>, i: int)
    requires
        0 <= i < engine.blockers@.len(),
        blocker_fires(engine.blockers@[i], text),
    ensures
        engine.final_stage(text) == Stage::Blocked,
        engine.outcome(text).score == Score::zero(),
        engine.outcome(text).matched.len() == 0,
        engine.outcome(text).reasons == fired_blockers(engine.blockers@, text),
{
    lemma_fired_blockers_nonempty(engine.blockers@, text, i);
}

/// Every category in the pool is the category of an anchor that
/// qualifies.
proof fn lemma_pool_member(anchors: Seq<CompiledAnchor>, text: Seq<char>, cat: Seq<char>)
    requires
        qualifying_categories(anchors, text).contains(cat),
    ensures
        exists|j: int|
            0 <= j < anchors.len() && anchor_qualifies(#[trigger] anchors[j], text)
                && anchors[j].cfg.category@ == cat,
    decreases anchors.len(),
{
    if anchors.len() > 0 {
        let rest = anchors.drop_last();
        let cats = qualifying_categories(anchors, text);
        let before = qualifying_categories(rest, text);
        let k = choose|k: int| 0 <= k < cats.len() && cats[k] == cat;
        if anchor_qualifies(anchors.last(), text) && k == cats.len() - 1 {
            assert(anchors[anchors.len() - 1].cfg.category@ == cat);
        } else {
            assert(before[k] == cat);
            lemma_pool_member(rest, text, cat);
            let j = choose|j: int|
                0 <= j < rest.len() && anchor_qualifies(#[trigger] rest[j], text)
                    && rest[j].cfg.category@ == cat;
            assert(anchors[j] == rest[j]);
        }
    }
}

/// If an anchor with the single-stock tag qualifies on a text and no
/// anchor of a broad category, `hard`, `macro` or `semi`, qualifies on
/// it, then the score of the text is 0.
pub proof fn lemma_single_stock_neutralized(engine: RelevanceEngine, text: Seq<char>, i: int)
    requires
        0 <= i < engine.anchors@.len(),
        anchor_qualifies(engine.anchors@[i], text),
        is_single_stock(engine.anchors@[i]),
        forall|j: int|
            0 <= j < engine.anchors@.len() && anchor_qualifies(#[trigger] engine.anchors@[j], text)
                ==> {
                &&& engine.anchors@[j].cfg.category@ != "hard"@
                &&& engine.anchors@[j].cfg.category@ != "macro"@
                &&& engine.anchors@[j].cfg.category@ != "semi"@
            },
    ensures
        engine.final_stage(text) == Stage::Blocked || engine.final_stage(text)
            == Stage::SingleStockNeutralized,
        engine.outcome(text).score == Score::zero(),
{
    let anchors = engine.anchors@;
    let cats = qualifying_categories(anchors, text);
    cats.to_multiset_ensures();
    if cats.contains("hard"@) {
        lemma_pool_member(anchors, text, "hard"@);
    }
    if cats.contains("macro"@) {
        lemma_pool_member(anchors, text, "macro"@);
    }
    if cats.contains("semi"@) {
        lemma_pool_member(anchors, text, "semi"@);
    }
    assert(!broad_context(category_pool(anchors, text)));
    assert(single_stock_seen(anchors, text));
}

/// Every id among the qualifying ids is the id of an anchor that
/// qualifies.
proof fn lemma_id_member(anchors: Seq<CompiledAnchor>, text: Seq<char>, id: Seq<char>)
    requires
        qualifying_ids(anchors, text).contains(id),
    ensures
        exists|j: int|
            0 <= j < anchors.len() && anchor_qualifies(#[trigger] anchors[j], text)
                && anchors[j].cfg.id@ == id,
    decreases anchors.len(),
{
    if anchors.len() > 0 {
        let rest = anchors.drop_last();
        let ids = qualifying_ids(anchors, text);
        let before = qualifying_ids(rest, text);
        let k = choose|k: int| 0 <= k < ids.len() && ids[k] == id;
        if anchor_qualifies(anchors.last(), text) && k == ids.len() - 1 {
            assert(anchors[anchors.len() - 1].cfg.id@ == id);
        } else {
            assert(before[k] == id);
            lemma_id_member(rest, text, id);
            let j = choose|j: int|
                0 <= j < rest.len() && anchor_qualifies(#[trigger] rest[j], text) && rest[j].cfg.id@
                    == id;
            assert(anchors[j] == rest[j]);
        }
    }
}

/// The matched list never holds the id of an anchor whose pattern did
/// not match or whose proximity requirement failed: every id in it is
/// the id of an anchor that qualifies. Here `matched` is any list that
/// is the matched list of the text.
pub proof fn lemma_matched_anchors_qualify(
    engine: RelevanceEngine,
    text: Seq<char>,
    matched: Seq<Seq<char>>,
    k: int,
)
    requires
        is_matched_list(matched, engine.anchors@, text),
        0 <= k < matched.len(),
    ensures
        exists|j: int|
            0 <= j < engine.anchors@.len() && anchor_qualifies(
                #[trigger] engine.anchors@[j],
                text,
            ) && engine.anchors@[j].cfg.id@ == matched[k],
{
    assert(matched.contains(matched[k]));
    assert(matched.to_set().contains(matched[k]));
    assert(qualifying_ids(engine.anchors@, text).contains(matched[k]));
    lemma_id_member(engine.anchors@, text, matched[k]);
}

/// Scoring is a function of engine and text: two results of scoring the
/// same text against the same engine are the same.
pub proof fn lemma_score_idempotent(
    engine: RelevanceEngine,
    text: Seq<char>,
    first: Relevance,
    second: Relevance,
)
    requires
        first@ == engine.outcome(text),
        second@ == engine.outcome(text),
    ensures
        first@ == second@,
{
}

} // verus!
