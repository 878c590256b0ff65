//! Counters and recent latencies for diagnostics.

use std::collections::VecDeque;
use vstd::prelude::*;

verus! {

/// As many decisions are remembered.
pub const HISTORY_CAP: usize = 500;

/// As many latencies are averaged.
pub const LAT_CAP: usize = 200;

/// A request that takes longer than this, in milliseconds, is slow.
pub const SLOW_REQ_MS: u64 = 1_000;

/// One decision as the diagnostics remember it.
#[derive(Debug, Clone)]
pub struct Decision {
    pub at_ms: u128,
    pub source: String,
    pub score: i32,
    pub verdict: String,
}

/// The counters of the service. The rolling average of the latencies is
/// kept as their sum and their number.
#[derive(Debug, Clone, Copy)]
pub struct Stats {
    pub total_requests: u64,
    pub analyze_requests: u64,
    pub batch_requests: u64,
    pub last_disruption_ms: Option<u64>,
    pub rolling_sum_ms: u128,
    pub rolling_count: usize,
}

/// The sum of a list of latencies.
pub open spec fn sum_of(lat: Seq<u64>) -> int
    decreases lat.len(),
{
    if lat.len() == 0 {
        0
    } else {
        sum_of(lat.drop_last()) + lat.last()
    }
}

/// The latencies after one more was recorded: a full queue loses its
/// oldest first.
pub open spec fn recorded(lat: Seq<u64>, lat_ms: u64) -> Seq<u64> {
    if lat.len() >= LAT_CAP {
        lat.drop_first().push(lat_ms)
    } else {
        lat.push(lat_ms)
    }
}

/// Counts a request. A counter that is full stays as it is.
pub fn record_request(stats: &mut Stats, is_batch: bool)
    ensures
        final(stats).total_requests == bump(old(stats).total_requests),
        final(stats).batch_requests == if is_batch {
            bump(old(stats).batch_requests)
        } else {
            old(stats).batch_requests
        },
        final(stats).analyze_requests == if is_batch {
            old(stats).analyze_requests
        } else {
            bump(old(stats).analyze_requests)
        },
        final(stats).last_disruption_ms == old(stats).last_disruption_ms,
        final(stats).rolling_sum_ms == old(stats).rolling_sum_ms,
        final(stats).rolling_count == old(stats).rolling_count,
{
    stats.total_requests = stats.total_requests.saturating_add(1);
    if is_batch {
        stats.batch_requests = stats.batch_requests.saturating_add(1);
    } else {
        stats.analyze_requests = stats.analyze_requests.saturating_add(1);
    }
}

/// A counter with one more, unless it is full.
pub open spec fn bump(n: u64) -> u64 {
    if n == u64::MAX {
        n
    } else {
        (n + 1) as u64
    }
}

/// Records a latency in milliseconds among at most 200, and renews the
/// sum and the number that the rolling average is made of. A latency
/// above one second is remembered as the last disruption.
pub fn record_latency(stats: &mut Stats, queue: &mut VecDeque<u64>, lat_ms: u64)
    ensures
        final(queue)@ == recorded(old(queue)@, lat_ms),
        final(stats).rolling_sum_ms == sum_of(final(queue)@),
        final(stats).rolling_count == final(queue)@.len(),
        final(stats).last_disruption_ms == if lat_ms > SLOW_REQ_MS {
            Some(lat_ms)
        } else {
            old(stats).last_disruption_ms
        },
        final(stats).total_requests == old(stats).total_requests,
        final(stats).analyze_requests == old(stats).analyze_requests,
        final(stats).batch_requests == old(stats).batch_requests,
{
    if queue.len() >= LAT_CAP {
        let ghost before = queue@;
        queue.pop_front();
        assert(queue@ =~= before.drop_first());
    }
    queue.push_back(lat_ms);
    let mut sum: u128 = 0;
    let mut i: usize = 0;
    assert(queue@.take(0) =~= Seq::empty());
    while i < queue.len()
        invariant
            i <= queue.len(),
            sum == sum_of(queue@.take(i as int)),
            sum <= i * u64::MAX,
        decreases queue.len() - i,
    {
        assert(queue@.take(i + 1).drop_last() =~= queue@.take(i as int));
        assert(queue@.take(i + 1).last() == queue@[i as int]);
        assert((i + 1) * u64::MAX <= u128::MAX) by (nonlinear_arith)
            requires
                i < usize::MAX,
        ;
        assert(i * u64::MAX + u64::MAX == (i + 1) * u64::MAX) by (nonlinear_arith);
        sum = sum + queue[i] as u128;
        i += 1;
    }
    assert(queue@.take(queue@.len() as int) =~= queue@);
    stats.rolling_sum_ms = sum;
    stats.rolling_count = queue.len();
    if lat_ms > SLOW_REQ_MS {
        stats.last_disruption_ms = Some(lat_ms);
    }
}

/// The decisions after one more was remembered: a full log loses its
/// oldest first.
pub open spec fn remembered(log: Seq<Decision>, d: Decision) -> Seq<Decision> {
    if log.len() >= HISTORY_CAP {
        log.drop_first().push(d)
    } else {
        log.push(d)
    }
}

/// Remembers a decision that was taken at `at_ms` among at most 500.
pub fn record_decision(
    log: &mut VecDeque<Decision>,
    at_ms: u128,
    source: String,
    score: i32,
    verdict: String,
)
    ensures
        final(log)@ == remembered(old(log)@, Decision { at_ms, source, score, verdict }),
{
    if log.len() >= HISTORY_CAP {
        let ghost before = log@;
        log.pop_front();
        assert(log@ =~= before.drop_first());
    }
    log.push_back(Decision { at_ms, source, score, verdict });
}

} // verus!
