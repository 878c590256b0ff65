//! Sliding window over integer sentiment scores.
//!
//! Collects `(timestamp, score)` pairs and sums the scores of the last
//! window.

use std::collections::VecDeque;
use vstd::prelude::*;

verus! {

/// Forty-eight hours in seconds.
pub const WINDOW_48H_SECS: u64 = 172_800;

/// Rolling time window over integer sentiment scores: the samples as
/// `(unix_seconds, score)`, oldest first, and the length of the window.
#[derive(Debug)]
pub struct RollingWindow {
    pub buf: VecDeque<(u64, i32)>,
    pub window: u64,
}

/// The start of the window that ends at `now`.
pub open spec fn cutoff(now: u64, window: u64) -> u64 {
    if now >= window {
        (now - window) as u64
    } else {
        0
    }
}

/// The samples without the stale ones at the front: those that were
/// taken before `cutoff`, up to the first that was not.
pub open spec fn drop_stale(samples: Seq<(u64, i32)>, cutoff: u64) -> Seq<(u64, i32)>
    decreases samples.len(),
{
    if samples.len() > 0 && samples[0].0 < cutoff {
        drop_stale(samples.drop_first(), cutoff)
    } else {
        samples
    }
}

/// The number of fresh samples at the back: those that were taken at or
/// after `cutoff`, down to the first that was not.
pub open spec fn fresh_count(samples: Seq<(u64, i32)>, cutoff: u64) -> nat
    decreases samples.len(),
{
    if samples.len() > 0 && samples.last().0 >= cutoff {
        1 + fresh_count(samples.drop_last(), cutoff)
    } else {
        0
    }
}

/// The sum of the scores of the fresh samples at the back.
pub open spec fn fresh_sum(samples: Seq<(u64, i32)>, cutoff: u64) -> int
    decreases samples.len(),
{
    if samples.len() > 0 && samples.last().0 >= cutoff {
        samples.last().1 + fresh_sum(samples.drop_last(), cutoff)
    } else {
        0
    }
}

impl RollingWindow {
    /// Creates a rolling window of the given length in seconds.
    pub fn with_window(window: u64) -> (w: RollingWindow)
        ensures
            w.window == window,
            w.buf@.len() == 0,
    {
        RollingWindow { buf: VecDeque::new(), window }
    }

    /// A window of 48 hours.
    pub fn new_48h() -> (w: RollingWindow)
        ensures
            w.window == WINDOW_48H_SECS,
            w.buf@.len() == 0,
    {
        Self::with_window(WINDOW_48H_SECS)
    }

    /// Records an observation at time `ts_unix`, or at `now` if none is
    /// given, and discards the samples at the front that are older than
    /// the window that ends at `now`.
    pub fn record(&mut self, score: i32, ts_unix: Option<u64>, now: u64)
        ensures
            final(self).window == old(self).window,
            final(self).buf@ == drop_stale(
                old(self).buf@.push(
                    (
                        match ts_unix {
                            Some(ts) => ts,
                            None => now,
                        },
                        score,
                    ),
                ),
                cutoff(now, old(self).window),
            ),
    {
        let ts = match ts_unix {
            Some(ts) => ts,
            None => now,
        };
        let cut = now.saturating_sub(self.window);
        self.buf.push_back((ts, score));
        let ghost full = self.buf@;
        loop
            invariant
                self.window == old(self).window,
                cut == cutoff(now, self.window),
                drop_stale(full, cut) == drop_stale(self.buf@, cut),
            ensures
                self.buf@ == drop_stale(full, cut),
            decreases self.buf@.len(),
        {
            if self.buf.len() == 0 {
                break ;
            }
            let t = self.buf[0].0;
            if t < cut {
                let ghost before = self.buf@;
                self.buf.pop_front();
                assert(self.buf@ =~= before.drop_first());
            } else {
                break ;
            }
        }
    }

    /// The sum of the scores and the number of the samples within the
    /// window that ends at `now`, read from the newest sample back to the
    /// first that is older.
    pub fn sum_and_count(&self, now: u64) -> (r: (i128, usize))
        ensures
            r.0 == fresh_sum(self.buf@, cutoff(now, self.window)),
            r.1 == fresh_count(self.buf@, cutoff(now, self.window)),
    {
        let cut = now.saturating_sub(self.window);
        let mut sum: i128 = 0;
        let mut n: usize = 0;
        let len: usize = self.buf.len();
        let mut i: usize = len;
        assert(self.buf@.take(i as int) =~= self.buf@);
        while i > 0
            invariant
                i <= len,
                len == self.buf@.len(),
                n == len - i,
                cut == cutoff(now, self.window),
                -0x8000_0000 * n <= sum <= 0x8000_0000 * n,
                fresh_sum(self.buf@, cut) == sum + fresh_sum(self.buf@.take(i as int), cut),
                fresh_count(self.buf@, cut) == n + fresh_count(self.buf@.take(i as int), cut),
            ensures
                sum == fresh_sum(self.buf@, cut),
                n == fresh_count(self.buf@, cut),
            decreases i,
        {
            let (t, s) = self.buf[i - 1];
            proof {
                assert(self.buf@.take(i as int).last() == self.buf@[i - 1]);
                assert(self.buf@.take(i as int).drop_last() =~= self.buf@.take(i - 1));
            }
            if t < cut {
                break ;
            }
            sum = sum + s as i128;
            n = n + 1;
            i = i - 1;
        }
        proof {
            if i == 0 {
                assert(self.buf@.take(0).len() == 0);
            }
        }
        (sum, n)
    }

    /// Length of the window in seconds.
    pub fn window_secs(&self) -> (r: u64)
        ensures
            r == self.window,
    {
        self.window
    }
}

} // verus!
