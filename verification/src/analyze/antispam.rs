//! Sliding-window filter that suppresses near-duplicate texts which
//! arrive within a short time.
//!
//! Two texts are near-duplicates if their similarity, one minus the
//! Levenshtein distance over the length of the longer text, is at least
//! the threshold.

use crate::text::{fold_text, folded};
use std::collections::VecDeque;
use vstd::prelude::*;

verus! {

/// One million: the denominator of the similarity threshold.
pub const SIMILARITY_ONE: u32 = 1_000_000;

/// The nanoseconds of one second.
pub const NANOS_PER_SEC: u128 = 1_000_000_000;

/// Configuration of the filter.
#[derive(Clone, Copy, Debug)]
pub struct AntiSpamParams {
    /// The most items that are remembered.
    pub window_size: usize,
    /// The similarity from which on two texts are near-duplicates, in
    /// millionths.
    pub similarity_threshold: u32,
    /// Only items that are at most this many seconds old are considered.
    pub time_window_secs: u64,
}

impl Default for AntiSpamParams {
    /// 128 items, a similarity of 0.90, ten minutes.
    fn default() -> (p: AntiSpamParams)
        ensures
            p.window_size == 128,
            p.similarity_threshold == 900_000,
            p.time_window_secs == 600,
    {
        AntiSpamParams { window_size: 128, similarity_threshold: 900_000, time_window_secs: 600 }
    }
}

/// An item that was let through: when it was seen, in nanoseconds since
/// the epoch, and its normalized text.
#[derive(Clone, Debug)]
pub struct SeenItem {
    pub ts: u128,
    pub text: Vec<char>,
}

/// The filter: its parameters and the items it remembers, oldest first.
#[derive(Debug)]
pub struct AntiSpam {
    pub params: AntiSpamParams,
    pub window: VecDeque<SeenItem>,
}

/// Parameters made usable: a window of at least one item and one second,
/// and a threshold of at most one.
pub open spec fn tidy(p: AntiSpamParams) -> AntiSpamParams {
    AntiSpamParams {
        window_size: if p.window_size == 0 {
            1
        } else {
            p.window_size
        },
        similarity_threshold: if p.similarity_threshold > SIMILARITY_ONE {
            SIMILARITY_ONE
        } else {
            p.similarity_threshold
        },
        time_window_secs: if p.time_window_secs == 0 {
            1
        } else {
            p.time_window_secs
        },
    }
}

/// The smallest of three numbers.
pub open spec fn min3(a: int, b: int, c: int) -> int {
    if a <= b && a <= c {
        a
    } else if b <= c {
        b
    } else {
        c
    }
}

/// The Levenshtein distance of the first `i` characters of `a` and the
/// first `j` characters of `b`: the least number of insertions, deletions
/// and substitutions that turn one into the other.
pub open spec fn lev(a: Seq<char>, b: Seq<char>, i: nat, j: nat) -> nat
    decreases i + j,
{
    if i == 0 {
        j
    } else if j == 0 {
        i
    } else {
        min3(
            (lev(a, b, (i - 1) as nat, j) + 1) as int,
            (lev(a, b, i, (j - 1) as nat) + 1) as int,
            lev(a, b, (i - 1) as nat, (j - 1) as nat) + if a[i - 1] == b[j - 1] {
                0int
            } else {
                1int
            },
        ) as nat
    }
}

/// The Levenshtein distance of two texts.
pub open spec fn distance(a: Seq<char>, b: Seq<char>) -> nat {
    lev(a, b, a.len(), b.len())
}

/// The distance is at most the length of the longer text.
pub proof fn lemma_lev_bound(a: Seq<char>, b: Seq<char>, i: nat, j: nat)
    ensures
        lev(a, b, i, j) <= if i >= j {
            i
        } else {
            j
        },
    decreases i + j,
{
    if i > 0 && j > 0 {
        lemma_lev_bound(a, b, (i - 1) as nat, (j - 1) as nat);
        lemma_lev_bound(a, b, (i - 1) as nat, j);
        lemma_lev_bound(a, b, i, (j - 1) as nat);
    }
}

/// The length of the longer of two texts.
pub open spec fn longer(a: Seq<char>, b: Seq<char>) -> nat {
    if a.len() >= b.len() {
        a.len()
    } else {
        b.len()
    }
}

/// Two texts are near-duplicates at a threshold in millionths: their
/// similarity `1 - distance / longer` is at least the threshold. Equal
/// texts have the similarity 1.
pub open spec fn similar(a: Seq<char>, b: Seq<char>, threshold: u32) -> bool {
    if a == b {
        threshold <= SIMILARITY_ONE
    } else {
        SIMILARITY_ONE * distance(a, b) + threshold * longer(a, b) <= SIMILARITY_ONE * longer(a, b)
    }
}

/// Standard Levenshtein distance, over characters.
pub fn levenshtein(a: &Vec<char>, b: &Vec<char>) -> (r: usize)
    ensures
        r == distance(a@, b@),
{
    let n = a.len();
    let m = b.len();
    if n == 0 {
        return m;
    }
    if m == 0 {
        return n;
    }
    let mut prev: Vec<u128> = Vec::new();
    let mut j: usize = 0;
    while j < m
        invariant
            j <= m,
            prev@.len() == j,
            forall|k: int| 0 <= k < j ==> #[trigger] prev@[k] == lev(a@, b@, 0, k as nat),
        decreases m - j,
    {
        prev.push(j as u128);
        j += 1;
    }
    prev.push(m as u128);
    let mut i: usize = 0;
    while i < n
        invariant
            i <= n,
            n == a@.len(),
            m == b@.len(),
            prev@.len() == m + 1,
            forall|k: int| 0 <= k <= m ==> #[trigger] prev@[k] == lev(a@, b@, i as nat, k as nat),
        decreases n - i,
    {
        let mut curr: Vec<u128> = Vec::new();
        curr.push((i + 1) as u128);
        let mut j: usize = 0;
        while j < m
            invariant
                j <= m,
                i < n,
                n == a@.len(),
                m == b@.len(),
                prev@.len() == m + 1,
                curr@.len() == j + 1,
                forall|k: int|
                    0 <= k <= m ==> #[trigger] prev@[k] == lev(a@, b@, i as nat, k as nat),
                forall|k: int|
                    0 <= k <= j ==> #[trigger] curr@[k] == lev(a@, b@, (i + 1) as nat, k as nat),
            decreases m - j,
        {
            proof {
                lemma_lev_bound(a@, b@, i as nat, (j + 1) as nat);
                lemma_lev_bound(a@, b@, (i + 1) as nat, j as nat);
                lemma_lev_bound(a@, b@, i as nat, j as nat);
            }
            let cost: u128 = if a[i] == b[j] {
                0
            } else {
                1
            };
            let up = prev[j + 1] + 1;
            let left = curr[j] + 1;
            let diag = prev[j] + cost;
            let best = if up <= left && up <= diag {
                up
            } else if left <= diag {
                left
            } else {
                diag
            };
            curr.push(best);
            j += 1;
        }
        prev = curr;
        i += 1;
    }
    proof {
        lemma_lev_bound(a@, b@, n as nat, m as nat);
    }
    prev[m] as usize
}

/// Whether two normalized texts are near-duplicates at the threshold.
pub fn is_similar(a: &Vec<char>, b: &Vec<char>, threshold: u32) -> (r: bool)
    ensures
        r == similar(a@, b@, threshold),
{
    let max_len = if a.len() >= b.len() {
        a.len()
    } else {
        b.len()
    };
    let dist = levenshtein(a, b);
    if dist == 0 {
        proof {
            lemma_distance_zero(a@, b@, a@.len(), b@.len());
            assert(a@.take(a@.len() as int) =~= a@);
            assert(b@.take(b@.len() as int) =~= b@);
        }
        return threshold <= SIMILARITY_ONE;
    }
    proof {
        if a@ == b@ {
            lemma_distance_same(a@, a@.len());
        }
        lemma_lev_bound(a@, b@, a@.len(), b@.len());
    }
    assert(SIMILARITY_ONE * dist + threshold * max_len <= u128::MAX) by (nonlinear_arith)
        requires
            dist <= usize::MAX,
            max_len <= usize::MAX,
            threshold <= u32::MAX,
            SIMILARITY_ONE == 1_000_000,
    ;
    assert(SIMILARITY_ONE * max_len <= u128::MAX) by (nonlinear_arith)
        requires
            max_len <= usize::MAX,
            SIMILARITY_ONE == 1_000_000,
    ;
    (SIMILARITY_ONE as u128) * (dist as u128) + (threshold as u128) * (max_len as u128) <= (
    SIMILARITY_ONE as u128) * (max_len as u128)
}

/// A text has the distance 0 to itself.
pub proof fn lemma_distance_same(a: Seq<char>, i: nat)
    requires
        i <= a.len(),
    ensures
        lev(a, a, i, i) == 0,
    decreases i,
{
    if i > 0 {
        lemma_distance_same(a, (i - 1) as nat);
    }
}

/// Texts of the distance 0 are equal.
pub proof fn lemma_distance_zero(a: Seq<char>, b: Seq<char>, i: nat, j: nat)
    requires
        i <= a.len(),
        j <= b.len(),
        lev(a, b, i, j) == 0,
    ensures
        a.take(i as int) == b.take(j as int),
    decreases i + j,
{
    if i == 0 || j == 0 {
        assert(a.take(i as int) =~= b.take(j as int));
    } else {
        lemma_distance_zero(a, b, (i - 1) as nat, (j - 1) as nat);
        assert(a.take(i as int) =~= a.take(i - 1).push(a[i - 1]));
        assert(b.take(j as int) =~= b.take(j - 1).push(b[j - 1]));
    }
}

/// A remembered item as plain values: when it was seen, and its text.
pub type Seen = (u128, Seq<char>);

/// The remembered items as plain values, oldest first.
pub open spec fn seen(items: Seq<SeenItem>) -> Seq<Seen> {
    items.map_values(|it: SeenItem| (it.ts, it.text@))
}

/// The items of a batch as plain values.
pub open spec fn stamped(items: Seq<(u128, String)>) -> Seq<Seen> {
    items.map_values(|it: (u128, String)| (it.0, it.1@))
}

/// The items without the stale ones at the front: those that are older
/// than the horizon at time `now`, up to the first that is not.
pub open spec fn evicted(items: Seq<Seen>, now: u128, horizon_secs: u64) -> Seq<Seen>
    decreases items.len(),
{
    if items.len() > 0 && now > items[0].0 && now - items[0].0 > horizon_secs * NANOS_PER_SEC {
        evicted(items.drop_first(), now, horizon_secs)
    } else {
        items
    }
}

/// One of the items is a near-duplicate of the text.
pub open spec fn seen_similar(items: Seq<Seen>, text: Seq<char>, threshold: u32) -> bool {
    exists|i: int| 0 <= i < items.len() && similar(text, (#[trigger] items[i]).1, threshold)
}

/// The items after one more was remembered: a full window loses its
/// oldest item first.
pub open spec fn remembered(items: Seq<Seen>, item: Seen, window_size: usize) -> Seq<Seen> {
    if items.len() == window_size && items.len() > 0 {
        items.drop_first().push(item)
    } else {
        items.push(item)
    }
}

/// The items without the oldest ones, as far as they exceed the size of
/// the window.
pub open spec fn shrunk(items: Seq<Seen>, window_size: usize) -> Seq<Seen> {
    if items.len() > window_size {
        items.subrange(items.len() - window_size, items.len() as int)
    } else {
        items
    }
}

/// The text observed at `ts` is blocked by a filter that remembers
/// `items`: after the stale items were forgotten, a near-duplicate of
/// its normalized form is still remembered.
pub open spec fn blocks(items: Seq<Seen>, params: AntiSpamParams, ts: u128, text: Seq<char>) -> bool {
    seen_similar(
        evicted(items, ts, params.time_window_secs),
        folded(text),
        params.similarity_threshold,
    )
}

/// What the filter remembers after it has seen the text at `ts`: the
/// items that are not stale, and the text itself unless it was blocked.
pub open spec fn after_seeing(items: Seq<Seen>, params: AntiSpamParams, ts: u128, text: Seq<char>) -> Seq<
    Seen,
> {
    let fresh = evicted(items, ts, params.time_window_secs);
    if blocks(items, params, ts, text) {
        fresh
    } else {
        remembered(fresh, (ts, folded(text)), params.window_size)
    }
}

/// What the filter remembers after the first `n` items of a batch.
pub open spec fn batch_window(items: Seq<Seen>, params: AntiSpamParams, batch: Seq<Seen>, n: nat) -> Seq<
    Seen,
>
    decreases n,
{
    if n == 0 {
        items
    } else {
        after_seeing(
            batch_window(items, params, batch, (n - 1) as nat),
            params,
            batch[n - 1].0,
            batch[n - 1].1,
        )
    }
}

/// The items among the first `n` of a batch that are not blocked, in
/// order.
pub open spec fn batch_kept(items: Seq<Seen>, params: AntiSpamParams, batch: Seq<Seen>, n: nat) -> Seq<
    Seen,
>
    decreases n,
{
    if n == 0 {
        Seq::empty()
    } else {
        let kept = batch_kept(items, params, batch, (n - 1) as nat);
        if blocks(
            batch_window(items, params, batch, (n - 1) as nat),
            params,
            batch[n - 1].0,
            batch[n - 1].1,
        ) {
            kept
        } else {
            kept.push(batch[n - 1])
        }
    }
}

/// Normalizes a text before it is compared: lower case, runs of
/// whitespace folded, ends trimmed.
pub fn normalize(s: &str) -> (r: Vec<char>)
    ensures
        r@ == folded(s@),
{
    fold_text(s)
}

fn tidy_params(p: AntiSpamParams) -> (r: AntiSpamParams)
    ensures
        r == tidy(p),
{
    AntiSpamParams {
        window_size: if p.window_size == 0 {
            1
        } else {
            p.window_size
        },
        similarity_threshold: if p.similarity_threshold > SIMILARITY_ONE {
            SIMILARITY_ONE
        } else {
            p.similarity_threshold
        },
        time_window_secs: if p.time_window_secs == 0 {
            1
        } else {
            p.time_window_secs
        },
    }
}

impl AntiSpam {
    /// The remembered items as plain values.
    pub open spec fn items(&self) -> Seq<Seen> {
        seen(self.window@)
    }

    /// Creates a filter with the given parameters, made usable.
    pub fn new(params: AntiSpamParams) -> (f: AntiSpam)
        ensures
            f.params == tidy(params),
            f.items().len() == 0,
    {
        AntiSpam { params: tidy_params(params), window: VecDeque::new() }
    }

    /// The parameters of the filter.
    pub fn params(&self) -> (p: &AntiSpamParams)
        ensures
            *p == self.params,
    {
        &self.params
    }

    /// Replaces the parameters and keeps what is remembered, but for the
    /// oldest items that a smaller window has no room for.
    pub fn set_params(&mut self, params: AntiSpamParams)
        ensures
            final(self).params == tidy(params),
            final(self).items() == shrunk(old(self).items(), tidy(params).window_size),
    {
        self.params = tidy_params(params);
        let ghost all = self.items();
        assert(all.subrange(0, all.len() as int) =~= all);
        while self.window.len() > self.params.window_size
            invariant
                self.params == tidy(params),
                self.items().len() <= all.len(),
                self.items().len() >= self.params.window_size || self.items().len() == all.len(),
                self.items() == all.subrange(all.len() - self.items().len(), all.len() as int),
            decreases self.window@.len(),
        {
            let ghost before = self.items();
            self.window.pop_front();
            assert(self.items() =~= before.drop_first());
            assert(before.drop_first() =~= all.subrange(
                all.len() - before.len() + 1,
                all.len() as int,
            ));
        }
    }

    /// Forgets every item.
    pub fn clear(&mut self)
        ensures
            final(self).params == old(self).params,
            final(self).items().len() == 0,
    {
        self.window.clear();
    }

    fn evict_old(&mut self, now: u128)
        ensures
            final(self).params == old(self).params,
            final(self).items() == evicted(old(self).items(), now, old(self).params.time_window_secs),
    {
        let horizon: u128 = (self.params.time_window_secs as u128) * NANOS_PER_SEC;
        let ghost all = self.items();
        let ghost secs = self.params.time_window_secs;
        loop
            invariant
                self.params == old(self).params,
                secs == self.params.time_window_secs,
                horizon == secs * NANOS_PER_SEC,
                evicted(all, now, secs) == evicted(self.items(), now, secs),
            ensures
                self.params == old(self).params,
                self.items() == evicted(all, now, secs),
            decreases self.window@.len(),
        {
            if self.window.len() == 0 {
                break ;
            }
            let front_ts = self.window[0].ts;
            assert(self.items()[0].0 == front_ts);
            if now > front_ts && now - front_ts > horizon {
                let ghost before = self.items();
                self.window.pop_front();
                assert(self.items() =~= before.drop_first());
            } else {
                break ;
            }
        }
    }

    fn remember(&mut self, ts: u128, norm_text: Vec<char>)
        ensures
            final(self).params == old(self).params,
            final(self).items() == remembered(
                old(self).items(),
                (ts, norm_text@),
                old(self).params.window_size,
            ),
    {
        let ghost start = self.items();
        if self.window.len() == self.params.window_size {
            self.window.pop_front();
            proof {
                if start.len() > 0 {
                    assert(self.items() =~= start.drop_first());
                }
            }
        }
        let ghost before = self.items();
        self.window.push_back(SeenItem { ts, text: norm_text });
        assert(self.items() =~= before.push((ts, norm_text@)));
    }

    /// Decides whether to block the text that was observed at `ts`, in
    /// nanoseconds since the epoch. Items that are older than the time
    /// window are forgotten first. The text is blocked if it is a
    /// near-duplicate of an item that is still remembered; otherwise it is
    /// remembered itself.
    pub fn should_block(&mut self, ts: u128, text: &str) -> (blocked: bool)
        ensures
            final(self).params == old(self).params,
            blocked == blocks(old(self).items(), old(self).params, ts, text@),
            final(self).items() == after_seeing(old(self).items(), old(self).params, ts, text@),
    {
        let norm_text = normalize(text);
        self.evict_old(ts);
        let mut i: usize = self.window.len();
        while i > 0
            invariant
                i <= self.window@.len(),
                self.params == old(self).params,
                norm_text@ == folded(text@),
                self.items() == evicted(old(self).items(), ts, old(self).params.time_window_secs),
                forall|k: int|
                    i <= k < self.items().len() ==> !similar(
                        norm_text@,
                        (#[trigger] self.items()[k]).1,
                        self.params.similarity_threshold,
                    ),
            decreases i,
        {
            assert(self.items()[i - 1].1 == self.window@[i - 1].text@);
            if is_similar(&norm_text, &self.window[i - 1].text, self.params.similarity_threshold) {
                return true;
            }
            i -= 1;
        }
        self.remember(ts, norm_text);
        false
    }

    /// Keeps only the items of a batch that are not blocked, in order.
    pub fn filter_batch(&mut self, items: &Vec<(u128, String)>) -> (kept: Vec<(u128, String)>)
        ensures
            final(self).params == old(self).params,
            final(self).items() == batch_window(
                old(self).items(),
                old(self).params,
                stamped(items@),
                items@.len(),
            ),
            stamped(kept@) == batch_kept(
                old(self).items(),
                old(self).params,
                stamped(items@),
                items@.len(),
            ),
    {
        let mut out: Vec<(u128, String)> = Vec::new();
        let ghost start = self.items();
        let ghost batch = stamped(items@);
        let mut i: usize = 0;
        assert(stamped(out@) =~= Seq::empty());
        while i < items.len()
            invariant
                i <= items.len(),
                self.params == old(self).params,
                start == old(self).items(),
                batch == stamped(items@),
                self.items() == batch_window(start, self.params, batch, i as nat),
                stamped(out@) == batch_kept(start, self.params, batch, i as nat),
            decreases items.len() - i,
        {
            let ts = items[i].0;
            assert(batch[i as int] == (ts, items@[i as int].1@));
            if !self.should_block(ts, items[i].1.as_str()) {
                let ghost before = stamped(out@);
                out.push((ts, items[i].1.clone()));
                assert(stamped(out@) =~= before.push(batch[i as int]));
            }
            i += 1;
        }
        out
    }
}

/// Runs the filter over one batch with a fresh memory, with the given
/// parameters or the default ones, and returns the items that are not
/// blocked, in order.
pub fn apply_antispam_batch(items: &Vec<(u128, String)>, params: Option<AntiSpamParams>) -> (kept:
    Vec<(u128, String)>)
    ensures
        stamped(kept@) == batch_kept(
            Seq::empty(),
            tidy(
                match params {
                    Some(p) => p,
                    None => AntiSpamParams {
                        window_size: 128,
                        similarity_threshold: 900_000,
                        time_window_secs: 600,
                    },
                },
            ),
            stamped(items@),
            items@.len(),
        ),
{
    let p = match params {
        Some(p) => p,
        None => AntiSpamParams::default(),
    };
    let mut anti = AntiSpam::new(p);
    assert(anti.items() =~= Seq::empty());
    anti.filter_batch(items)
}

} // verus!
