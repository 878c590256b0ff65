//! In-memory log of recent decisions with a fixed capacity: the oldest
//! entries leave when the log is full.

use crate::decision::Verdict;
use crate::relevance::compile::clone_strings;
use crate::text::{str_eq, views};
use vstd::prelude::*;

verus! {

/// No history holds more entries than this.
pub const MAX_CAPACITY: usize = 10_000;

/// As many contributors of a decision are kept in its entry.
pub const KEPT_CONTRIBUTORS: usize = 3;

/// The seconds of the window in which triggers are counted.
pub const VOLUME_WINDOW_SECS: u64 = 600;

/// As many sources of an entry are counted.
pub const COUNTED_SOURCES: usize = 5;

/// As many entries are shown when a query names no limit.
pub const DEFAULT_QUERY_LIMIT: usize = 50;

/// Compact record of a past decision.
#[derive(Debug, Clone)]
pub struct HistoryEntry {
    pub ts_unix: u64,
    pub verdict: Verdict,
    /// The confidence in millionths.
    pub confidence: u32,
    /// The sources of the top contributors.
    pub top_sources: Vec<String>,
    /// Their scores.
    pub top_scores: Vec<i32>,
}

/// An entry as plain values.
pub struct EntryView {
    pub ts_unix: u64,
    pub verdict: Verdict,
    pub confidence: u32,
    pub top_sources: Seq<Seq<char>>,
    pub top_scores: Seq<i32>,
}

impl View for HistoryEntry {
    type V = EntryView;

    open spec fn view(&self) -> EntryView {
        EntryView {
            ts_unix: self.ts_unix,
            verdict: self.verdict,
            confidence: self.confidence,
            top_sources: views(self.top_sources@),
            top_scores: self.top_scores@,
        }
    }
}

/// The entries of a list as plain values.
pub open spec fn entry_views(entries: Seq<HistoryEntry>) -> Seq<EntryView> {
    entries.map_values(|e: HistoryEntry| e@)
}

/// A contributor of a decision: its source and its score.
#[derive(Debug, Clone)]
pub struct TopContributor {
    pub source: String,
    pub score: i32,
}

/// What a query for the history asks for.
#[derive(Debug, Clone, Copy)]
pub struct HistoryQuery {
    pub limit: Option<usize>,
}

impl HistoryQuery {
    /// The number of entries that the query asks for: its limit, or 50.
    pub fn effective_limit(&self) -> (r: usize)
        ensures
            r == match self.limit {
                Some(n) => n,
                None => DEFAULT_QUERY_LIMIT,
            },
    {
        match self.limit {
            Some(n) => n,
            None => DEFAULT_QUERY_LIMIT,
        }
    }
}

/// Fixed-capacity buffer of past decisions, oldest first.
#[derive(Debug)]
pub struct History {
    pub entries: Vec<HistoryEntry>,
    pub cap: usize,
}

/// The last `n` entries of a list, or all if there are fewer.
pub open spec fn last_n<T>(s: Seq<T>, n: nat) -> Seq<T> {
    if s.len() > n {
        s.subrange(s.len() - n, s.len() as int)
    } else {
        s
    }
}

/// The first `n` entries of a list, or all if there are fewer.
pub open spec fn first_n<T>(s: Seq<T>, n: nat) -> Seq<T> {
    if s.len() > n {
        s.take(n as int)
    } else {
        s
    }
}

fn clone_scores(v: &Vec<i32>) -> (r: Vec<i32>)
    ensures
        r@ == v@,
{
    let mut r: Vec<i32> = Vec::new();
    let mut i: usize = 0;
    while i < v.len()
        invariant
            i <= v.len(),
            r@ == v@.take(i as int),
        decreases v.len() - i,
    {
        r.push(v[i]);
        assert(v@.take(i + 1) =~= v@.take(i as int).push(v@[i as int]));
        i += 1;
    }
    assert(v@.take(v@.len() as int) =~= v@);
    r
}

fn clone_entry(e: &HistoryEntry) -> (r: HistoryEntry)
    ensures
        r@ == e@,
{
    HistoryEntry {
        ts_unix: e.ts_unix,
        verdict: e.verdict,
        confidence: e.confidence,
        top_sources: clone_strings(&e.top_sources),
        top_scores: clone_scores(&e.top_scores),
    }
}

impl History {
    /// The entries as plain values.
    pub open spec fn log(&self) -> Seq<EntryView> {
        entry_views(self.entries@)
    }

    /// Creates a history with the given capacity, at most 10,000.
    pub fn with_capacity(cap: usize) -> (h: History)
        ensures
            h.cap == if cap > MAX_CAPACITY {
                MAX_CAPACITY
            } else {
                cap
            },
            h.log().len() == 0,
    {
        let cap = if cap > MAX_CAPACITY {
            MAX_CAPACITY
        } else {
            cap
        };
        History { entries: Vec::new(), cap }
    }

    /// Appends the snapshot of a decision that was taken at `ts_unix`:
    /// its verdict, its confidence, and the sources and scores of its
    /// first three contributors. Only the last `cap` entries are kept.
    pub fn push(
        &mut self,
        ts_unix: u64,
        verdict: Verdict,
        confidence: u32,
        contributors: &Vec<TopContributor>,
    )
        ensures
            final(self).cap == old(self).cap,
            final(self).log() == last_n(
                old(self).log().push(
                    EntryView {
                        ts_unix,
                        verdict,
                        confidence,
                        top_sources: first_n(contributors@, 3).map_values(
                            |c: TopContributor| c.source@,
                        ),
                        top_scores: first_n(contributors@, 3).map_values(
                            |c: TopContributor| c.score,
                        ),
                    },
                ),
                old(self).cap as nat,
            ),
    {
        let mut sources: Vec<String> = Vec::new();
        let mut scores: Vec<i32> = Vec::new();
        let take: usize = if contributors.len() > KEPT_CONTRIBUTORS {
            KEPT_CONTRIBUTORS
        } else {
            contributors.len()
        };
        let ghost firsts = first_n(contributors@, 3);
        let mut i: usize = 0;
        while i < take
            invariant
                i <= take,
                take == firsts.len(),
                firsts == first_n(contributors@, 3),
                views(sources@) == firsts.take(i as int).map_values(|c: TopContributor| c.source@),
                scores@ == firsts.take(i as int).map_values(|c: TopContributor| c.score),
            decreases take - i,
        {
            assert(firsts[i as int] == contributors@[i as int]);
            let ghost s0 = views(sources@);
            sources.push(contributors[i].source.clone());
            scores.push(contributors[i].score);
            assert(views(sources@) =~= s0.push(contributors@[i as int].source@));
            assert(firsts.take(i + 1) =~= firsts.take(i as int).push(firsts[i as int]));
            assert(views(sources@) =~= firsts.take(i + 1).map_values(
                |c: TopContributor| c.source@,
            ));
            assert(scores@ =~= firsts.take(i + 1).map_values(|c: TopContributor| c.score));
            i += 1;
        }
        assert(firsts.take(take as int) =~= firsts);
        let entry = HistoryEntry {
            ts_unix,
            verdict,
            confidence,
            top_sources: sources,
            top_scores: scores,
        };
        let ghost before = self.log();
        self.entries.push(entry);
        assert(self.log() =~= before.push(entry@));
        if self.entries.len() > self.cap {
            let excess = self.entries.len() - self.cap;
            let ghost full = self.log();
            let tail = self.entries.split_off(excess);
            self.entries = tail;
            assert(self.log() =~= full.subrange(excess as int, full.len() as int));
        }
    }

    /// Returns a snapshot of the last `n` entries.
    pub fn snapshot_last_n(&self, n: usize) -> (r: Vec<HistoryEntry>)
        ensures
            entry_views(r@) == last_n(self.log(), n as nat),
    {
        let len = self.entries.len();
        let start = if len > n {
            len - n
        } else {
            0
        };
        let mut out: Vec<HistoryEntry> = Vec::new();
        let mut i: usize = start;
        while i < len
            invariant
                start <= i <= len,
                len == self.entries@.len(),
                entry_views(out@) == self.log().subrange(start as int, i as int),
            decreases len - i,
        {
            let ghost before = entry_views(out@);
            out.push(clone_entry(&self.entries[i]));
            assert(entry_views(out@) =~= before.push(self.log()[i as int]));
            assert(self.log().subrange(start as int, i + 1) =~= self.log().subrange(
                start as int,
                i as int,
            ).push(self.log()[i as int]));
            i += 1;
        }
        assert(self.log().subrange(0, len as int) =~= self.log());
        out
    }
}

/// The entry counts as a trigger at `now`: it is at most ten minutes old
/// and its verdict is BUY or SELL.
pub open spec fn is_recent_trigger(e: EntryView, now: u64) -> bool {
    (now <= e.ts_unix || now - e.ts_unix <= VOLUME_WINDOW_SECS) && (e.verdict == Verdict::Buy
        || e.verdict == Verdict::Sell)
}

/// The number of recent triggers among the first `n` entries.
pub open spec fn recent_triggers(rows: Seq<EntryView>, now: u64, n: nat) -> nat
    decreases n,
{
    if n == 0 {
        0
    } else {
        recent_triggers(rows, now, (n - 1) as nat) + if is_recent_trigger(rows[n - 1], now) {
            1nat
        } else {
            0nat
        }
    }
}

/// The sources that the recent triggers among the first `n` entries
/// name, of each entry the first five.
pub open spec fn trigger_sources(rows: Seq<EntryView>, now: u64, n: nat) -> Set<Seq<char>>
    decreases n,
{
    if n == 0 {
        Set::empty()
    } else if is_recent_trigger(rows[n - 1], now) {
        trigger_sources(rows, now, (n - 1) as nat).union(
            first_n(rows[n - 1].top_sources, 5).to_set(),
        )
    } else {
        trigger_sources(rows, now, (n - 1) as nat)
    }
}

/// Counts the recent triggers of a snapshot of the history, and collects
/// the sources that they name, each once.
pub fn volume_counts(rows: &Vec<HistoryEntry>, now: u64) -> (r: (usize, Vec<String>))
    ensures
        r.0 == recent_triggers(entry_views(rows@), now, rows@.len()),
        views(r.1@).to_set() == trigger_sources(entry_views(rows@), now, rows@.len()),
        views(r.1@).no_duplicates(),
{
    let ghost all = entry_views(rows@);
    let mut count: usize = 0;
    let mut uniq: Vec<String> = Vec::new();
    let mut i: usize = 0;
    assert(views(uniq@).to_set() =~= Set::empty());
    while i < rows.len()
        invariant
            i <= rows.len(),
            all == entry_views(rows@),
            count <= i,
            count == recent_triggers(all, now, i as nat),
            views(uniq@).to_set() == trigger_sources(all, now, i as nat),
            views(uniq@).no_duplicates(),
        decreases rows.len() - i,
    {
        let h = &rows[i];
        assert(all[i as int] == h@);
        let recent = now <= h.ts_unix || now - h.ts_unix <= VOLUME_WINDOW_SECS;
        let trigger = match h.verdict {
            Verdict::Buy => true,
            Verdict::Sell => true,
            Verdict::Hold => false,
        };
        if recent && trigger {
            count += 1;
            let take: usize = if h.top_sources.len() > COUNTED_SOURCES {
                COUNTED_SOURCES
            } else {
                h.top_sources.len()
            };
            let ghost firsts = first_n(h@.top_sources, 5);
            let ghost start = views(uniq@).to_set();
            let mut k: usize = 0;
            assert(firsts.take(0).to_set() =~= Set::empty());
            assert(start.union(Set::empty()) =~= start);
            while k < take
                invariant
                    k <= take,
                    take == firsts.len(),
                    firsts == first_n(h@.top_sources, 5),
                    h@.top_sources == views(h.top_sources@),
                    views(uniq@).to_set() == start.union(firsts.take(k as int).to_set()),
                    views(uniq@).no_duplicates(),
                decreases take - k,
            {
                let s = &h.top_sources[k];
                assert(firsts[k as int] == s@);
                let ghost before = views(uniq@);
                let ghost seen_before = firsts.take(k as int);
                let ghost seen_after = firsts.take(k + 1);
                proof {
                    assert(seen_after =~= seen_before.push(s@));
                    assert forall|t: Seq<char>| seen_after.to_set().contains(t)
                        <==> seen_before.to_set().insert(s@).contains(t) by {
                        if seen_after.contains(t) {
                            let x = choose|x: int| 0 <= x < seen_after.len() && seen_after[x] == t;
                            if x < seen_before.len() {
                                assert(seen_before[x] == t);
                            }
                        }
                        if seen_before.contains(t) {
                            let x = choose|x: int|
                                0 <= x < seen_before.len() && seen_before[x] == t;
                            assert(seen_after[x] == t);
                        }
                        if t == s@ {
                            assert(seen_after[k as int] == t);
                        }
                    }
                    assert(seen_after.to_set() =~= seen_before.to_set().insert(s@));
                }
                if !holds_text(&uniq, s.as_str()) {
                    uniq.push(s.clone());
                    proof {
                        let after = views(uniq@);
                        assert(after =~= before.push(s@));
                        assert forall|t: Seq<char>| after.to_set().contains(t)
                            <==> before.to_set().insert(s@).contains(t) by {
                            if after.contains(t) {
                                let x = choose|x: int| 0 <= x < after.len() && after[x] == t;
                                if x < before.len() {
                                    assert(before[x] == t);
                                }
                            }
                            if before.contains(t) {
                                let x = choose|x: int| 0 <= x < before.len() && before[x] == t;
                                assert(after[x] == t);
                            }
                            if t == s@ {
                                assert(after[before.len() as int] == t);
                            }
                        }
                        assert(after.to_set() =~= before.to_set().insert(s@));
                        assert(!before.contains(s@));
                    }
                }
                assert(views(uniq@).to_set() =~= start.union(seen_after.to_set()));
                k += 1;
            }
            assert(firsts.take(take as int) =~= firsts);
        }
        i += 1;
    }
    (count, uniq)
}

fn holds_text(list: &Vec<String>, text: &str) -> (r: bool)
    ensures
        r == views(list@).contains(text@),
{
    let mut i: usize = 0;
    while i < list.len()
        invariant
            i <= list.len(),
            forall|k: int| 0 <= k < i ==> list@[k]@ != text@,
        decreases list.len() - i,
    {
        if str_eq(list[i].as_str(), text) {
            assert(views(list@)[i as int] == text@);
            return true;
        }
        i += 1;
    }
    proof {
        if views(list@).contains(text@) {
            let k = choose|k: int| 0 <= k < views(list@).len() && views(list@)[k] == text@;
            assert(list@[k]@ == text@);
        }
    }
    false
}

} // verus!
