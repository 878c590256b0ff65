//! Reranking of statements: the latest relevant statement of each source
//! comes first, and earlier statements of the source that nearly repeat
//! it are marked for a decay of their weight.

use crate::analyze::antispam::{distance, similar, SIMILARITY_ONE};
use crate::engine::lemma_all_taken;
use crate::text::{chars_of, str_eq};
use vstd::prelude::*;

verus! {

/// What the reranking reads of a statement.
#[derive(Debug, Clone)]
pub struct RankItem {
    pub source: String,
    /// Higher is newer.
    pub timestamp: i64,
    pub text: String,
    /// The relevance of the statement reaches the threshold.
    pub relevant: bool,
}

/// What the reranking decides: for each statement whether its weight
/// decays, and the positions of the statements in their new order.
#[derive(Debug, Clone)]
pub struct RerankPlan {
    pub decayed: Vec<bool>,
    pub order: Vec<usize>,
}

/// A text in lower case, as `str::to_lowercase` gives it.
pub uninterp spec fn unicode_lowercase(text: Seq<char>) -> Seq<char>;

/// Calls `str::to_lowercase`.
#[verifier::external_body]
fn to_lowercase(s: &str) -> (r: String)
    ensures
        r@ == unicode_lowercase(s@),
{
    s.to_lowercase()
}

/// Calls `strsim::levenshtein`, which counts the least number of
/// insertions, deletions and substitutions of characters that turn one
/// text into the other.
#[verifier::external_body]
fn edit_distance(a: &str, b: &str) -> (r: usize)
    ensures
        r == distance(a@, b@),
{
    strsim::levenshtein(a, b)
}

/// Statement `i` is later than statement `j`: it has the greater
/// timestamp, or the same timestamp and the later position.
pub open spec fn later(items: Seq<RankItem>, i: int, j: int) -> bool {
    items[i].timestamp > items[j].timestamp || (items[i].timestamp == items[j].timestamp && i > j)
}

/// Statement `i` is the latest relevant statement of its source.
pub open spec fn is_latest_relevant(items: Seq<RankItem>, i: int) -> bool {
    &&& 0 <= i < items.len()
    &&& items[i].relevant
    &&& forall|j: int|
        #![trigger later(items, i, j)]
        0 <= j < items.len() && j != i && items[j].relevant && items[j].source@ == items[i].source@
            ==> later(items, i, j)
}

/// Statement `i` is the latest statement of its source.
pub open spec fn is_latest(items: Seq<RankItem>, i: int) -> bool {
    &&& 0 <= i < items.len()
    &&& forall|j: int|
        #![trigger later(items, i, j)]
        0 <= j < items.len() && j != i && items[j].source@ == items[i].source@ ==> later(
            items,
            i,
            j,
        )
}

/// Some statement of the source is relevant.
pub open spec fn has_relevant(items: Seq<RankItem>, source: Seq<char>) -> bool {
    exists|j: int| 0 <= j < items.len() && (#[trigger] items[j]).relevant && items[j].source@ == source
}

/// Statement `t` is the pick of its source: its latest relevant
/// statement, or its latest statement if none is relevant.
pub open spec fn is_pick(items: Seq<RankItem>, t: int) -> bool {
    if 0 <= t < items.len() && has_relevant(items, items[t].source@) {
        is_latest_relevant(items, t)
    } else {
        is_latest(items, t)
    }
}

/// Statement `i` counts as top: it has the source, the timestamp and the
/// text of the pick of its source.
pub open spec fn is_top(items: Seq<RankItem>, i: int) -> bool {
    exists|t: int|
        #![trigger is_pick(items, t)]
        is_pick(items, t) && items[t].source@ == items[i].source@ && items[t].timestamp
            == items[i].timestamp && items[t].text@ == items[i].text@
}

/// For each statement whether it counts as top.
pub open spec fn tops_of(items: Seq<RankItem>) -> Seq<bool> {
    Seq::new(items.len(), |i: int| is_top(items, i))
}

/// The weight of statement `i` decays: its source has a latest relevant
/// statement other than itself, and in lower case its text is similar to
/// the text of that statement, at the threshold in millionths.
pub open spec fn decays(items: Seq<RankItem>, i: int, threshold: u32) -> bool {
    exists|l: int|
        #![trigger is_latest_relevant(items, l)]
        is_latest_relevant(items, l) && l != i && items[l].source@ == items[i].source@ && similar(
            unicode_lowercase(items[l].text@),
            unicode_lowercase(items[i].text@),
            threshold,
        )
}

/// Statement `i` stands before statement `j` in the new order: top
/// statements come first; within top and within the rest the newer comes
/// first, and of two of the same timestamp the one that stood first.
pub open spec fn precedes(tops: Seq<bool>, items: Seq<RankItem>, i: int, j: int) -> bool {
    (tops[i] && !tops[j]) || (tops[i] == tops[j] && (items[i].timestamp > items[j].timestamp
        || (items[i].timestamp == items[j].timestamp && i < j)))
}

/// A list of positions is the new order: it holds every position once,
/// and each position precedes those that follow it.
pub open spec fn is_order(order: Seq<usize>, tops: Seq<bool>, items: Seq<RankItem>) -> bool {
    &&& order.len() == items.len()
    &&& forall|k: int| 0 <= k < order.len() ==> (#[trigger] order[k]) < items.len()
    &&& forall|k: int, l: int|
        #![trigger precedes(tops, items, order[k] as int, order[l] as int)]
        0 <= k < l < order.len() ==> precedes(tops, items, order[k] as int, order[l] as int)
}

/// The latest statement of the source of statement `i`, among all
/// statements or among the relevant ones.
fn latest_of_source(items: &Vec<RankItem>, i: usize, relevant_only: bool) -> (r: Option<usize>)
    requires
        i < items.len(),
    ensures
        match r {
            Some(t) => t < items.len() && items@[t as int].source@ == items@[i as int].source@
                && if relevant_only {
                is_latest_relevant(items@, t as int)
            } else {
                is_latest(items@, t as int)
            },
            None => relevant_only && !has_relevant(items@, items@[i as int].source@),
        },
{
    let mut best: Option<usize> = None;
    let mut j: usize = 0;
    while j < items.len()
        invariant
            j <= items.len(),
            i < items.len(),
            !relevant_only && j > i ==> best is Some,
            best matches Some(b) ==> {
                &&& b < j
                &&& items@[b as int].source@ == items@[i as int].source@
                &&& relevant_only ==> items@[b as int].relevant
                &&& forall|x: int|
                    #![trigger later(items@, b as int, x)]
                    0 <= x < j && x != b && items@[x].source@ == items@[i as int].source@ && (
                    relevant_only ==> items@[x].relevant) ==> later(items@, b as int, x)
            },
            best is None ==> forall|x: int|
                0 <= x < j && (#[trigger] items@[x]).source@ == items@[i as int].source@ ==> (
                relevant_only && !items@[x].relevant),
        decreases items.len() - j,
    {
        let same = str_eq(items[j].source.as_str(), items[i].source.as_str());
        if same && (!relevant_only || items[j].relevant) {
            match best {
                None => {
                    best = Some(j);
                },
                Some(b) => {
                    if items[j].timestamp >= items[b].timestamp {
                        proof {
                            assert forall|x: int|
                                #![trigger later(items@, j as int, x)]
                                0 <= x < j + 1 && x != j && items@[x].source@ == items@[i as int].source@
                                    && (relevant_only ==> items@[x].relevant) implies later(
                                items@,
                                j as int,
                                x,
                            ) by {
                                if x != b {
                                    assert(later(items@, b as int, x));
                                }
                            }
                        }
                        best = Some(j);
                    } else {
                        assert(later(items@, b as int, j as int));
                    }
                },
            }
        }
        j += 1;
    }
    proof {
        if best is None {
            if has_relevant(items@, items@[i as int].source@) {
                let x = choose|x: int|
                    0 <= x < items@.len() && (#[trigger] items@[x]).relevant && items@[x].source@
                        == items@[i as int].source@;
                assert(!items@[x].relevant);
            }
        }
    }
    best
}

/// Whether statement `i` counts as top.
fn counts_as_top(items: &Vec<RankItem>, i: usize) -> (r: bool)
    requires
        i < items.len(),
    ensures
        r == is_top(items@, i as int),
{
    let relevant = latest_of_source(items, i, true);
    let pick = match relevant {
        Some(t) => t,
        None => match latest_of_source(items, i, false) {
            Some(t) => t,
            None => i,
        },
    };
    proof {
        let src = items@[i as int].source@;
        assert(items@[pick as int].source@ == src);
        assert(is_pick(items@, pick as int)) by {
            if relevant is Some {
                assert(items@[pick as int].relevant);
                assert(has_relevant(items@, src));
            }
        }
        // the pick of a source is unique
        assert forall|t: int|
            #![trigger is_pick(items@, t)]
            is_pick(items@, t) && items@[t].source@ == src implies t == pick by {
            if t != pick {
                if has_relevant(items@, src) {
                    assert(later(items@, t, pick as int));
                    assert(later(items@, pick as int, t));
                } else {
                    assert(later(items@, t, pick as int));
                    assert(later(items@, pick as int, t));
                }
            }
        }
    }
    items[pick].timestamp == items[i].timestamp && str_eq(
        items[pick].text.as_str(),
        items[i].text.as_str(),
    )
}

/// Whether two texts are similar at a threshold in millionths, from their
/// distance and their lengths in characters.
fn is_similar_text(a: &str, b: &str, threshold: u32) -> (r: bool)
    ensures
        r == similar(a@, b@, threshold),
{
    if str_eq(a, b) {
        return threshold <= SIMILARITY_ONE;
    }
    let la = chars_of(a).len();
    let lb = chars_of(b).len();
    let max_len = if la >= lb {
        la
    } else {
        lb
    };
    let dist = edit_distance(a, b);
    assert(SIMILARITY_ONE * dist + threshold * max_len <= u128::MAX) by (nonlinear_arith)
        requires
            dist <= usize::MAX,
            max_len <= usize::MAX,
            threshold <= u32::MAX,
            SIMILARITY_ONE == 1_000_000,
    ;
    assert(SIMILARITY_ONE * max_len <= u128::MAX) by (nonlinear_arith)
        requires
            max_len <= usize::MAX,
            SIMILARITY_ONE == 1_000_000,
    ;
    (SIMILARITY_ONE as u128) * (dist as u128) + (threshold as u128) * (max_len as u128) <= (
    SIMILARITY_ONE as u128) * (max_len as u128)
}

/// Whether the weight of statement `i` decays.
fn weight_decays(items: &Vec<RankItem>, i: usize, threshold: u32) -> (r: bool)
    requires
        i < items.len(),
    ensures
        r == decays(items@, i as int, threshold),
{
    match latest_of_source(items, i, true) {
        None => {
            proof {
                if decays(items@, i as int, threshold) {
                    let l = choose|l: int|
                        #![trigger is_latest_relevant(items@, l)]
                        is_latest_relevant(items@, l) && l != i && items@[l].source@
                            == items@[i as int].source@;
                    assert(items@[l].relevant);
                }
            }
            false
        },
        Some(latest) => {
            proof {
                // the latest relevant statement of a source is unique
                assert forall|l: int|
                    #![trigger is_latest_relevant(items@, l)]
                    is_latest_relevant(items@, l) && items@[l].source@
                        == items@[i as int].source@ implies l == latest by {
                    if l != latest {
                        assert(later(items@, l, latest as int));
                        assert(later(items@, latest as int, l));
                    }
                }
            }
            if latest == i {
                return false;
            }
            let a = to_lowercase(items[latest].text.as_str());
            let b = to_lowercase(items[i].text.as_str());
            is_similar_text(a.as_str(), b.as_str(), threshold)
        },
    }
}

/// Puts the positions into the new order.
fn order_positions(items: &Vec<RankItem>, tops: &Vec<bool>) -> (order: Vec<usize>)
    requires
        tops@.len() == items@.len(),
    ensures
        is_order(order@, tops@, items@),
{
    let n = items.len();
    let mut order: Vec<usize> = Vec::new();
    let mut taken: Vec<bool> = vec![false; n];
    while order.len() < n
        invariant
            n == items@.len(),
            tops@.len() == n,
            taken@.len() == n,
            order@.len() <= n,
            forall|k: int| 0 <= k < order@.len() ==> (#[trigger] order@[k]) < n,
            forall|k: int| 0 <= k < order@.len() ==> taken@[(#[trigger] order@[k]) as int],
            forall|x: int| 0 <= x < n && #[trigger] taken@[x] ==> order@.contains(x as usize),
            order@.no_duplicates(),
            forall|k: int, l: int|
                #![trigger precedes(tops@, items@, order@[k] as int, order@[l] as int)]
                0 <= k < l < order@.len() ==> precedes(
                    tops@,
                    items@,
                    order@[k] as int,
                    order@[l] as int,
                ),
            forall|k: int, x: int|
                #![trigger precedes(tops@, items@, order@[k] as int, x)]
                0 <= k < order@.len() && 0 <= x < n && !taken@[x] ==> precedes(
                    tops@,
                    items@,
                    order@[k] as int,
                    x,
                ),
        decreases n - order@.len(),
    {
        let mut best: Option<usize> = None;
        let mut j: usize = 0;
        while j < n
            invariant
                j <= n,
                n == items@.len(),
                tops@.len() == n,
                taken@.len() == n,
                best matches Some(b) ==> b < j && !taken@[b as int],
                best is None ==> forall|x: int| 0 <= x < j ==> #[trigger] taken@[x],
                best matches Some(b) ==> forall|x: int|
                    #![trigger precedes(tops@, items@, b as int, x)]
                    0 <= x < j && x != b && !taken@[x] ==> precedes(tops@, items@, b as int, x),
            decreases n - j,
        {
            if !taken[j] {
                match best {
                    None => {
                        best = Some(j);
                    },
                    Some(b) => {
                        let better = (tops[j] && !tops[b]) || (tops[j] == tops[b]
                            && items[j].timestamp > items[b].timestamp);
                        if better {
                            proof {
                                assert(precedes(tops@, items@, j as int, b as int));
                                assert forall|x: int|
                                    #![trigger precedes(tops@, items@, j as int, x)]
                                    0 <= x < j + 1 && x != j && !taken@[x] implies precedes(
                                    tops@,
                                    items@,
                                    j as int,
                                    x,
                                ) by {
                                    if x != b {
                                        assert(precedes(tops@, items@, b as int, x));
                                    }
                                }
                            }
                            best = Some(j);
                        } else {
                            assert(precedes(tops@, items@, b as int, j as int));
                        }
                    },
                }
            }
            j += 1;
        }
        match best {
            Some(b) => {
                let ghost before = order@;
                let ghost taken_before = taken@;
                order.push(b);
                taken.set(b, true);
                proof {
                    assert(!before.contains(b)) by {
                        if before.contains(b) {
                            let k = choose|k: int| 0 <= k < before.len() && before[k] == b;
                            assert(taken_before[before[k] as int]);
                        }
                    }
                    assert forall|x: int| 0 <= x < n && #[trigger] taken@[x] implies order@.contains(
                        x as usize,
                    ) by {
                        if x == b {
                            assert(order@[before.len() as int] == b);
                        } else {
                            assert(taken_before[x]);
                            let k = choose|k: int| 0 <= k < before.len() && before[k] == x as usize;
                            assert(order@[k] == x as usize);
                        }
                    }
                    assert forall|k: int, l: int|
                        #![trigger precedes(tops@, items@, order@[k] as int, order@[l] as int)]
                        0 <= k < l < order@.len() implies precedes(
                        tops@,
                        items@,
                        order@[k] as int,
                        order@[l] as int,
                    ) by {
                        assert(order@[k] == before[k]);
                        if l == before.len() {
                            assert(precedes(tops@, items@, before[k] as int, b as int));
                        } else {
                            assert(order@[l] == before[l]);
                            assert(precedes(tops@, items@, before[k] as int, before[l] as int));
                        }
                    }
                    assert forall|k: int, x: int|
                        #![trigger precedes(tops@, items@, order@[k] as int, x)]
                        0 <= k < order@.len() && 0 <= x < n && !taken@[x] implies precedes(
                        tops@,
                        items@,
                        order@[k] as int,
                        x,
                    ) by {
                        if k < before.len() {
                            assert(order@[k] == before[k]);
                            assert(precedes(tops@, items@, before[k] as int, x));
                        } else {
                            assert(precedes(tops@, items@, b as int, x));
                        }
                    }
                    assert forall|k: int| 0 <= k < order@.len() implies taken@[(
                    #[trigger] order@[k]) as int] by {
                        if k < before.len() {
                            assert(order@[k] == before[k]);
                        }
                    }
                }
            },
            None => {
                proof {
                    assert forall|x: usize| x < n implies #[trigger] order@.contains(x) by {
                        assert(taken@[x as int]);
                    }
                    lemma_all_taken(order@, n as nat);
                }
            },
        }
    }
    order
}

/// Plans the reranking. For each source the latest relevant statement is
/// found; every other statement of the source whose text is similar to
/// it, at the threshold in millionths, is marked for decay. The new
/// order puts first the statements that have source, timestamp and text
/// of the pick of their source, and orders both groups from new to old.
pub fn rerank_keep_last_and_decay_duplicates(items: &Vec<RankItem>, similarity_threshold: u32) -> (plan:
    RerankPlan)
    ensures
        plan.decayed@.len() == items@.len(),
        forall|i: int|
            0 <= i < items@.len() ==> #[trigger] plan.decayed@[i] == decays(
                items@,
                i,
                similarity_threshold,
            ),
        is_order(plan.order@, tops_of(items@), items@),
{
    let mut decayed: Vec<bool> = Vec::new();
    let mut tops: Vec<bool> = Vec::new();
    let mut i: usize = 0;
    while i < items.len()
        invariant
            i <= items.len(),
            decayed@.len() == i,
            tops@.len() == i,
            forall|k: int|
                0 <= k < i ==> #[trigger] decayed@[k] == decays(items@, k, similarity_threshold),
            forall|k: int| 0 <= k < i ==> #[trigger] tops@[k] == is_top(items@, k),
        decreases items.len() - i,
    {
        decayed.push(weight_decays(items, i, similarity_threshold));
        tops.push(counts_as_top(items, i));
        i += 1;
    }
    assert(tops@ =~= tops_of(items@));
    let order = order_positions(items, &tops);
    RerankPlan { decayed, order }
}

} // verus!
