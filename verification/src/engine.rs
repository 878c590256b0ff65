//! The decision engine: which verdict a batch of scored statements calls
//! for, and which of them are shown as its top contributors.
//!
//! The dominant direction of the statements that triggered gives BUY or
//! SELL; a conflict or no trigger gives HOLD.

use crate::decision::Verdict;
use vstd::prelude::*;

verus! {

/// What the decision reads of a scored statement: its sentiment score,
/// and whether the disruption detector fired on it.
#[derive(Debug, Clone, Copy)]
pub struct ScoredItem {
    pub score: i32,
    pub triggered: bool,
}

/// The boost of a statement that triggered, in the ranking.
pub const TRIGGER_BOOST: i64 = 1000;

/// As many contributors are shown.
pub const TOP_CONTRIBUTORS: usize = 3;

/// The statement triggered with a positive score.
pub open spec fn is_positive_trigger(it: ScoredItem) -> bool {
    it.triggered && it.score > 0
}

/// The statement triggered with a negative score.
pub open spec fn is_negative_trigger(it: ScoredItem) -> bool {
    it.triggered && it.score < 0
}

/// The positions of the positive triggers, in order.
pub open spec fn positive_triggers(items: Seq<ScoredItem>) -> Seq<usize> {
    Seq::new(items.len(), |i: int| i as usize).filter(
        |i: usize| is_positive_trigger(items[i as int]),
    )
}

/// The positions of the negative triggers, in order.
pub open spec fn negative_triggers(items: Seq<ScoredItem>) -> Seq<usize> {
    Seq::new(items.len(), |i: int| i as usize).filter(
        |i: usize| is_negative_trigger(items[i as int]),
    )
}

/// The verdict of a batch: BUY if only positive triggers are there, SELL
/// if only negative ones, HOLD in a conflict and without any trigger.
pub open spec fn batch_verdict(items: Seq<ScoredItem>) -> Verdict {
    let pos = positive_triggers(items).len();
    let neg = negative_triggers(items).len();
    if pos > 0 && neg == 0 {
        Verdict::Buy
    } else if neg > 0 && pos == 0 {
        Verdict::Sell
    } else {
        Verdict::Hold
    }
}

/// The triggers that the reasons of the verdict cite: those of the
/// dominant direction, the positive ones when both are as many.
pub open spec fn main_triggers(items: Seq<ScoredItem>) -> Seq<usize> {
    let pos = positive_triggers(items);
    let neg = negative_triggers(items);
    if pos.len() >= neg.len() {
        pos
    } else {
        neg
    }
}

/// The rank of a statement among the contributors: the absolute value of
/// its score, and 1000 more if it triggered.
pub open spec fn rank(it: ScoredItem) -> int {
    (if it.triggered {
        1000int
    } else {
        0int
    }) + if it.score < 0 {
        -(it.score as int)
    } else {
        it.score as int
    }
}

/// Statement `i` stands before statement `j` among the contributors: it
/// has the higher rank, or the same rank and the later position.
pub open spec fn outranks(items: Seq<ScoredItem>, i: int, j: int) -> bool {
    rank(items[i]) > rank(items[j]) || (rank(items[i]) == rank(items[j]) && i > j)
}

/// A list of positions is the list of top contributors: the three that
/// no other statement outranks, or all if there are fewer, the highest
/// first.
pub open spec fn is_top_list(top: Seq<usize>, items: Seq<ScoredItem>) -> bool {
    &&& top.len() == if items.len() < 3 {
        items.len()
    } else {
        3
    }
    &&& forall|k: int| 0 <= k < top.len() ==> (#[trigger] top[k]) < items.len()
    &&& forall|k: int, l: int|
        0 <= k < l < top.len() ==> outranks(items, (#[trigger] top[k]) as int, (#[trigger] top[l]) as int)
    &&& forall|k: int, j: int|
        #![trigger outranks(items, top[k] as int, j)]
        0 <= k < top.len() && 0 <= j < items.len() && !top.contains(j as usize) ==> outranks(
            items,
            top[k] as int,
            j,
        )
}

/// Splits the statements that triggered by direction, and returns the
/// verdict with the positions of the triggers that its reasons cite.
pub fn select_triggers(items: &Vec<ScoredItem>) -> (r: (Verdict, Vec<usize>))
    ensures
        r.0 == batch_verdict(items@),
        r.1@ == main_triggers(items@),
{
    let mut pos: Vec<usize> = Vec::new();
    let mut neg: Vec<usize> = Vec::new();
    let ghost all = Seq::new(items@.len(), |i: int| i as usize);
    let ghost is_pos = |i: usize| is_positive_trigger(items@[i as int]);
    let ghost is_neg = |i: usize| is_negative_trigger(items@[i as int]);
    let mut i: usize = 0;
    proof {
        reveal(Seq::filter);
        assert(all.take(0).filter(is_pos) =~= Seq::empty());
        assert(all.take(0).filter(is_neg) =~= Seq::empty());
    }
    while i < items.len()
        invariant
            i <= items.len(),
            all == Seq::new(items@.len(), |i: int| i as usize),
            is_pos == |i: usize| is_positive_trigger(items@[i as int]),
            is_neg == |i: usize| is_negative_trigger(items@[i as int]),
            pos@ == all.take(i as int).filter(is_pos),
            neg@ == all.take(i as int).filter(is_neg),
        decreases items.len() - i,
    {
        proof {
            reveal(Seq::filter);
            assert(all.take(i + 1).drop_last() =~= all.take(i as int));
            assert(all.take(i + 1).last() == i);
        }
        if items[i].triggered {
            if items[i].score > 0 {
                pos.push(i);
            } else if items[i].score < 0 {
                neg.push(i);
            }
        }
        i += 1;
    }
    assert(all.take(items@.len() as int) =~= all);
    if pos.len() > 0 && neg.len() == 0 {
        (Verdict::Buy, pos)
    } else if neg.len() > 0 && pos.len() == 0 {
        (Verdict::Sell, neg)
    } else if pos.len() >= neg.len() {
        (Verdict::Hold, pos)
    } else {
        (Verdict::Hold, neg)
    }
}

fn rank_of(it: &ScoredItem) -> (r: i64)
    ensures
        r == rank(*it),
{
    let boost: i64 = if it.triggered {
        TRIGGER_BOOST
    } else {
        0
    };
    let magnitude: i64 = if it.score < 0 {
        -(it.score as i64)
    } else {
        it.score as i64
    };
    boost + magnitude
}

fn holds(top: &Vec<usize>, j: usize) -> (r: bool)
    ensures
        r == top@.contains(j),
{
    let mut k: usize = 0;
    while k < top.len()
        invariant
            k <= top.len(),
            forall|l: int| 0 <= l < k ==> top@[l] != j,
        decreases top.len() - k,
    {
        if top[k] == j {
            return true;
        }
        k += 1;
    }
    false
}

/// Picks the top contributors: the three statements of the highest rank,
/// the highest first. Of two statements of the same rank the later one
/// stands first.
pub fn rank_contributors(items: &Vec<ScoredItem>) -> (top: Vec<usize>)
    ensures
        is_top_list(top@, items@),
{
    let mut top: Vec<usize> = Vec::new();
    let want: usize = if items.len() < TOP_CONTRIBUTORS {
        items.len()
    } else {
        TOP_CONTRIBUTORS
    };
    while top.len() < want
        invariant
            top.len() <= want,
            want <= items.len(),
            want <= 3,
            forall|k: int| 0 <= k < top.len() ==> (#[trigger] top@[k]) < items.len(),
            forall|k: int, l: int|
                0 <= k < l < top.len() ==> outranks(
                    items@,
                    (#[trigger] top@[k]) as int,
                    (#[trigger] top@[l]) as int,
                ),
            forall|k: int, j: int|
                #![trigger outranks(items@, top@[k] as int, j)]
                0 <= k < top.len() && 0 <= j < items.len() && !top@.contains(j as usize)
                    ==> outranks(items@, top@[k] as int, j),
        decreases want - top.len(),
    {
        let mut best: Option<usize> = None;
        let mut j: usize = 0;
        while j < items.len()
            invariant
                j <= items.len(),
                best matches Some(b) ==> b < j && !top@.contains(b),
                best is None ==> forall|x: usize| x < j ==> #[trigger] top@.contains(x),
                best matches Some(b) ==> forall|x: int|
                    #![trigger outranks(items@, b as int, x)]
                    0 <= x < j && x != b && !top@.contains(x as usize) ==> outranks(
                        items@,
                        b as int,
                        x,
                    ),
            decreases items.len() - j,
        {
            if !holds(&top, j) {
                match best {
                    None => {
                        best = Some(j);
                    },
                    Some(b) => {
                        if rank_of(&items[j]) >= rank_of(&items[b]) {
                            proof {
                                assert forall|x: int|
                                    #![trigger outranks(items@, j as int, x)]
                                    0 <= x < j + 1 && x != j && !top@.contains(
                                        x as usize,
                                    ) implies outranks(items@, j as int, x) by {
                                    if x != b {
                                        assert(outranks(items@, b as int, x));
                                    }
                                }
                            }
                            best = Some(j);
                        } else {
                            assert(outranks(items@, b as int, j as int));
                        }
                    },
                }
            }
            j += 1;
        }
        match best {
            Some(b) => {
                let ghost before = top@;
                top.push(b);
                proof {
                    assert forall|k: int, j: int|
                        #![trigger outranks(items@, top@[k] as int, j)]
                        0 <= k < top@.len() && 0 <= j < items.len() && !top@.contains(
                            j as usize,
                        ) implies outranks(items@, top@[k] as int, j) by {
                        if before.contains(j as usize) {
                            let l = choose|l: int| 0 <= l < before.len() && before[l] == j as usize;
                            assert(top@[l] == j as usize);
                        }
                        if k < before.len() {
                            assert(top@[k] == before[k]);
                            assert(outranks(items@, before[k] as int, j));
                        }
                    }
                    assert forall|k: int, l: int| 0 <= k < l < top@.len() implies outranks(
                        items@,
                        (#[trigger] top@[k]) as int,
                        (#[trigger] top@[l]) as int,
                    ) by {
                        if l == before.len() {
                            assert(top@[k] == before[k]);
                            assert(outranks(items@, before[k] as int, b as int));
                        } else {
                            assert(top@[k] == before[k] && top@[l] == before[l]);
                        }
                    }
                }
            },
            None => {
                proof {
                    lemma_all_taken(top@, items@.len());
                }
            },
        }
    }
    top
}

/// A list that holds every position below `n` has at least `n` entries.
pub proof fn lemma_all_taken(top: Seq<usize>, n: nat)
    requires
        n <= usize::MAX,
        forall|x: usize| x < n ==> #[trigger] top.contains(x),
    ensures
        top.len() >= n,
    decreases n,
{
    if n > 0 {
        let last = (n - 1) as usize;
        assert(top.contains(last));
        let at = choose|k: int| 0 <= k < top.len() && top[k] == last;
        let rest = top.remove(at);
        assert forall|x: usize| x < n - 1 implies #[trigger] rest.contains(x) by {
            assert(top.contains(x));
            let k = choose|k: int| 0 <= k < top.len() && top[k] == x;
            if k < at {
                assert(rest[k] == x);
            } else {
                assert(rest[k - 1] == x);
            }
        }
        lemma_all_taken(rest, (n - 1) as nat);
    }
}

} // verus!
