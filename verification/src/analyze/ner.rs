//! Reasons from named entities: each pattern that matches a text adds
//! the reason `category: keyword`.

use crate::relevance::pattern::{
    compile_regex, match_starts, pattern_compiles, regex_match_starts, regex_source,
};
use crate::text::{concat2, sort_dedup, strictly_sorted, views};
use regex::Regex;
use vstd::prelude::*;
use vstd::string::StringExecFns;

verus! {

/// One pattern of a category: a regex, and the keyword that is shown in
/// the reasons when it matches.
#[derive(Debug, Clone)]
pub struct NerPattern {
    pub category: String,
    pub regex: String,
    pub keyword: String,
}

/// What a regex makes of a pattern on a text: whether it matched.
pub enum Probe {
    /// The pattern does not compile.
    Invalid,
    /// The pattern compiles.
    Valid { matched: bool },
}

/// The reason that a pattern leaves when it matches.
pub open spec fn ner_reason(p: NerPattern) -> Seq<char> {
    p.category@ + ": "@ + p.keyword@
}

/// The reasons of the patterns that were probed with a match, in the
/// order of the patterns. A pattern that does not compile is passed over.
pub open spec fn matched_reasons(patterns: Seq<NerPattern>, probes: Seq<Probe>) -> Seq<Seq<char>>
    decreases patterns.len(),
{
    if patterns.len() == 0 || probes.len() != patterns.len() {
        Seq::empty()
    } else {
        let rest = matched_reasons(patterns.drop_last(), probes.drop_last());
        if probes.last() matches Probe::Valid { matched: true } {
            rest.push(ner_reason(patterns.last()))
        } else {
            rest
        }
    }
}

/// A probe is that of a pattern on a text: invalid exactly if the pattern
/// does not compile, and with a match exactly if the regex that was
/// compiled from it matches the text somewhere.
pub open spec fn is_probe_of(probe: Probe, p: NerPattern, text: Seq<char>) -> bool {
    match probe {
        Probe::Invalid => !pattern_compiles(p.regex@),
        Probe::Valid { matched } => pattern_compiles(p.regex@) && exists|re: Regex|
            regex_source(re) == p.regex@ && matched == (#[trigger] regex_match_starts(
                re,
                text,
            ).len() > 0),
    }
}

/// Compiles the pattern and looks for a match in the text.
pub fn probe(p: &NerPattern, text: &str) -> (r: Probe)
    ensures
        is_probe_of(r, *p, text@),
{
    match compile_regex(p.regex.as_str()) {
        Ok(re) => {
            let starts = match_starts(&re, text);
            Probe::Valid { matched: starts.len() > 0 }
        },
        Err(_) => Probe::Invalid,
    }
}

/// The reasons that the probes call for.
pub fn reasons_of_probes(patterns: &Vec<NerPattern>, probes: &Vec<Probe>) -> (r: Vec<String>)
    requires
        probes@.len() == patterns@.len(),
    ensures
        views(r@) == matched_reasons(patterns@, probes@),
{
    let mut out: Vec<String> = Vec::new();
    let mut i: usize = 0;
    assert(views(out@) =~= matched_reasons(patterns@.take(0), probes@.take(0)));
    while i < patterns.len()
        invariant
            i <= patterns.len(),
            probes@.len() == patterns@.len(),
            views(out@) == matched_reasons(patterns@.take(i as int), probes@.take(i as int)),
        decreases patterns.len() - i,
    {
        assert(patterns@.take(i + 1).drop_last() =~= patterns@.take(i as int));
        assert(probes@.take(i + 1).drop_last() =~= probes@.take(i as int));
        let hit = match &probes[i] {
            Probe::Valid { matched } => *matched,
            Probe::Invalid => false,
        };
        if hit {
            let mut reason = concat2(patterns[i].category.as_str(), ": ");
            reason.append(patterns[i].keyword.as_str());
            let ghost before = views(out@);
            out.push(reason);
            assert(views(out@) =~= before.push(ner_reason(patterns@[i as int])));
        }
        i += 1;
    }
    assert(patterns@.take(patterns@.len() as int) =~= patterns@);
    assert(probes@.take(probes@.len() as int) =~= probes@);
    out
}

/// Extracts the reasons of a text: each pattern is compiled and probed,
/// and those that match leave `category: keyword`.
pub fn extract_reasons_from_configs(patterns: &Vec<NerPattern>, text: &str) -> (r: Vec<String>)
    ensures
        exists|probes: Seq<Probe>|
            {
                &&& probes.len() == patterns@.len()
                &&& forall|i: int|
                    0 <= i < probes.len() ==> is_probe_of(
                        #[trigger] probes[i],
                        patterns@[i],
                        text@,
                    )
                &&& views(r@) == matched_reasons(patterns@, probes)
            },
{
    let mut probes: Vec<Probe> = Vec::new();
    let mut i: usize = 0;
    while i < patterns.len()
        invariant
            i <= patterns.len(),
            probes@.len() == i,
            forall|k: int| 0 <= k < i ==> is_probe_of(#[trigger] probes@[k], patterns@[k], text@),
        decreases patterns.len() - i,
    {
        probes.push(probe(&patterns[i], text));
        i += 1;
    }
    reasons_of_probes(patterns, &probes)
}

/// Adds reasons from named entities to the reasons at hand. The result
/// is sorted in the order of `str` and holds every reason once.
pub fn enrich_reasons(existing_reasons: Vec<String>, found: Vec<String>) -> (r: Vec<String>)
    ensures
        strictly_sorted(views(r@)),
        views(r@).to_set() == views(existing_reasons@).to_set().union(views(found@).to_set()),
{
    let mut all = existing_reasons;
    let mut found = found;
    let ghost a = views(all@);
    let ghost b = views(found@);
    all.append(&mut found);
    proof {
        assert(views(all@) =~= a + b);
        assert forall|t: Seq<char>| (a + b).to_set().contains(t) <==> a.to_set().union(
            b.to_set(),
        ).contains(t) by {
            if (a + b).contains(t) {
                let k = choose|k: int| 0 <= k < (a + b).len() && (a + b)[k] == t;
                if k < a.len() {
                    assert(a[k] == t);
                } else {
                    assert(b[k - a.len()] == t);
                }
            }
            if a.contains(t) {
                let k = choose|k: int| 0 <= k < a.len() && a[k] == t;
                assert((a + b)[k] == t);
            }
            if b.contains(t) {
                let k = choose|k: int| 0 <= k < b.len() && b[k] == t;
                assert((a + b)[a.len() + k] == t);
            }
        }
        assert((a + b).to_set() =~= a.to_set().union(b.to_set()));
    }
    sort_dedup(all)
}

} // verus!
