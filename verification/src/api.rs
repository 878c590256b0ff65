//! The decisions of the HTTP layer: how a batch of statements is gated
//! by relevance, when the AI is asked for a hint, and when a response
//! counts as cached.

use crate::analyze::ai_adapter::{ai_reason_counts_as_used, counts_as_used, SECS_PER_DAY};
use crate::decision::Verdict;
use crate::text::{
    chars_of, decimal, decimal_string, number_of, parse_u64, str_eq, string_of, trim_chars,
    trimmed, views,
};
use vstd::prelude::*;
use vstd::string::StringExecFns;

verus! {

/// As many texts go into the corpus for the AI.
pub const AI_CORPUS_TEXTS: usize = 8;

/// The seconds that a response counts as cached when nothing else is
/// configured.
pub const DEFAULT_CACHE_TTL_SECS: u64 = 2;

/// The milliseconds that are taken off the expiry of a cached response
/// when nothing else is configured.
pub const DEFAULT_CACHE_BIAS_MS: u64 = 10;

/// The day of a unix time: the number of days since the epoch.
pub fn current_day(unix: u64) -> (r: u64)
    ensures
        r == unix / SECS_PER_DAY,
{
    unix / SECS_PER_DAY
}

/// A unix time as a string.
pub fn now_string(now_unix: u64) -> (r: String)
    ensures
        r@ == decimal(now_unix as nat),
{
    decimal_string(now_unix)
}

/// A unix time as a minimal timestamp: the seconds, then `Z`.
pub fn iso_now(now_unix: u64) -> (r: String)
    ensures
        r@ == decimal(now_unix as nat) + "Z"@,
{
    let mut r = decimal_string(now_unix);
    r.append("Z");
    r
}

/// Whether debug logging is on: the environment is named `local`.
pub fn debug_enabled(environment: Option<&str>) -> (r: bool)
    ensures
        r == (environment matches Some(e) && e@ == "local"@),
{
    match environment {
        Some(e) => str_eq(e, "local"),
        None => false,
    }
}

/// Whether the debug routes are served: debug logging is on, or the
/// debug routes are switched on with `1`.
pub fn debug_routes_enabled(environment: Option<&str>, debug_routes: Option<&str>) -> (r: bool)
    ensures
        r == ((environment matches Some(e) && e@ == "local"@) || (debug_routes matches Some(d)
            && d@ == "1"@)),
{
    debug_enabled(environment) || match debug_routes {
        Some(d) => str_eq(d, "1"),
        None => false,
    }
}

/// The verdict of a single sentiment score: BUY above 0, SELL below 0,
/// HOLD at 0.
pub fn verdict_of_score(score: i32) -> (v: Verdict)
    ensures
        v == if score > 0 {
            Verdict::Buy
        } else if score < 0 {
            Verdict::Sell
        } else {
            Verdict::Hold
        },
{
    if score > 0 {
        Verdict::Buy
    } else if score < 0 {
        Verdict::Sell
    } else {
        Verdict::Hold
    }
}

/// The sentiment score of a statement after the relevance gate: the raw
/// score if the statement is relevant, else 0.
pub fn gated_score(raw_score: i32, relevant: bool) -> (r: i32)
    ensures
        r == if relevant {
            raw_score
        } else {
            0
        },
{
    if relevant {
        raw_score
    } else {
        0
    }
}

/// The relevance gate neutralized the statement: its score was not 0 and
/// is 0 now.
pub open spec fn is_neutralized(raw_score: i32, relevant: bool) -> bool {
    !relevant && raw_score != 0
}

/// The number of statements among the first `n` that the relevance gate
/// neutralized, given the raw score and the relevance of each.
pub open spec fn neutralized_count(items: Seq<(i32, bool)>, n: nat) -> nat
    decreases n,
{
    if n == 0 {
        0
    } else {
        neutralized_count(items, (n - 1) as nat) + if is_neutralized(
            items[n - 1].0,
            items[n - 1].1,
        ) {
            1nat
        } else {
            0nat
        }
    }
}

/// Counts the statements that the relevance gate neutralized.
pub fn count_neutralized(items: &Vec<(i32, bool)>) -> (r: usize)
    ensures
        r == neutralized_count(items@, items@.len()),
{
    let mut r: usize = 0;
    let mut i: usize = 0;
    while i < items.len()
        invariant
            i <= items.len(),
            r <= i,
            r == neutralized_count(items@, i as nat),
        decreases items.len() - i,
    {
        if !items[i].1 && items[i].0 != 0 {
            r += 1;
        }
        i += 1;
    }
    r
}

/// The first `n` texts joined by an empty line.
pub open spec fn joined(texts: Seq<Seq<char>>, n: nat) -> Seq<char>
    decreases n,
{
    if n == 0 {
        Seq::empty()
    } else if joined(texts, (n - 1) as nat).len() == 0 {
        texts[n - 1]
    } else {
        joined(texts, (n - 1) as nat) + "\n\n"@ + texts[n - 1]
    }
}

/// The corpus that is sent to the AI: the first eight of the texts that
/// passed the AI gate, joined by an empty line. No text gives no corpus.
pub open spec fn corpus_of(texts: Seq<Seq<char>>) -> Option<Seq<char>> {
    if texts.len() == 0 {
        None
    } else if texts.len() > AI_CORPUS_TEXTS {
        Some(joined(texts, AI_CORPUS_TEXTS as nat))
    } else {
        Some(joined(texts, texts.len()))
    }
}

/// Prepares the corpus for the AI from the texts that passed its gate.
pub fn ai_corpus(texts: &Vec<String>) -> (r: Option<String>)
    ensures
        match r {
            Some(s) => corpus_of(views(texts@)) == Some(s@),
            None => corpus_of(views(texts@)) is None,
        },
{
    if texts.len() == 0 {
        return None;
    }
    let take: usize = if texts.len() > AI_CORPUS_TEXTS {
        AI_CORPUS_TEXTS
    } else {
        texts.len()
    };
    let mut s = String::new();
    let mut i: usize = 0;
    while i < take
        invariant
            i <= take <= texts.len(),
            s@ == joined(views(texts@), i as nat),
        decreases take - i,
    {
        if !s.as_str().is_empty() {
            s.append("\n\n");
        }
        s.append(texts[i].as_str());
        assert(views(texts@)[i as int] == texts@[i as int]@);
        proof {
            if joined(views(texts@), i as nat).len() == 0 {
                assert(s@ =~= texts@[i as int]@);
            }
        }
        i += 1;
    }
    Some(s)
}

/// Daily usage of the AI: the day, as days since the epoch, and the
/// number of calls that were made on it.
#[derive(Clone, Copy, Debug)]
pub struct DailyAiCounter {
    pub day: u64,
    pub used: usize,
}

/// The calls of `today` according to a counter: its count if it is of
/// today, else none.
pub open spec fn used_today(c: DailyAiCounter, today: u64) -> usize {
    if c.day == today {
        c.used
    } else {
        0
    }
}

impl DailyAiCounter {
    /// A counter for the given day without calls.
    pub fn new(day: u64) -> (c: DailyAiCounter)
        ensures
            c.day == day,
            c.used == 0,
    {
        DailyAiCounter { day, used: 0 }
    }

    /// Whether the daily limit is reached. Without a limit it never is,
    /// and the counter is not touched; with a limit a counter of another
    /// day starts anew first.
    pub fn over_limit(&mut self, today: u64, limit: Option<usize>) -> (over: bool)
        ensures
            match limit {
                None => !over && *final(self) == *old(self),
                Some(lim) => over == (used_today(*old(self), today) >= lim) && final(self).day
                    == today && final(self).used == used_today(*old(self), today),
            },
    {
        match limit {
            None => false,
            Some(lim) => {
                if self.day != today {
                    self.day = today;
                    self.used = 0;
                }
                self.used >= lim
            },
        }
    }

    /// Counts one call of today, if a limit is set.
    pub fn count_use(&mut self, today: u64, limit: Option<usize>)
        ensures
            match limit {
                None => *final(self) == *old(self),
                Some(_) => final(self).day == today && final(self).used == if used_today(
                    *old(self),
                    today,
                ) == usize::MAX {
                    usize::MAX
                } else {
                    (used_today(*old(self), today) + 1) as usize
                },
            },
    {
        match limit {
            None => {},
            Some(_) => {
                if self.day != today {
                    self.day = today;
                    self.used = 0;
                }
                if self.used < usize::MAX {
                    self.used = self.used + 1;
                }
            },
        }
    }
}

/// What is to be done about the AI for one request.
#[derive(Debug, Clone)]
pub struct AiPlan {
    /// The hint from the cache, if there is one.
    pub reason: Option<String>,
    /// The hint comes from the cache.
    pub cache_hit: bool,
    /// The daily limit is reached.
    pub limited: bool,
    /// The AI is to be asked.
    pub should_call: bool,
}

/// Plans the use of the AI before it is asked. Without a corpus, or with
/// the AI switched off, nothing is done. A cached hint is used if it is
/// not empty; an empty one ends the matter. Without a cached hint the AI
/// is asked unless the daily limit is reached.
pub fn plan_ai(
    has_corpus: bool,
    ai_disabled: bool,
    cached: Option<String>,
    counter: &mut DailyAiCounter,
    today: u64,
    limit: Option<usize>,
) -> (plan: AiPlan)
    ensures
        !has_corpus || ai_disabled ==> plan.reason is None && !plan.cache_hit && !plan.limited
            && !plan.should_call && *final(counter) == *old(counter),
        has_corpus && !ai_disabled && cached is Some ==> {
            &&& plan.cache_hit == (cached->0@.len() > 0)
            &&& plan.reason is Some == plan.cache_hit
            &&& plan.reason matches Some(r) ==> r@ == cached->0@
            &&& !plan.limited && !plan.should_call
            &&& *final(counter) == *old(counter)
        },
        has_corpus && !ai_disabled && cached is None ==> {
            &&& plan.reason is None && !plan.cache_hit
            &&& plan.limited == (limit matches Some(lim) && used_today(*old(counter), today)
                >= lim)
            &&& plan.should_call == !plan.limited
            &&& limit is None ==> *final(counter) == *old(counter)
            &&& limit is Some ==> final(counter).day == today && final(counter).used
                == used_today(*old(counter), today)
        },
{
    let nothing = AiPlan { reason: None, cache_hit: false, limited: false, should_call: false };
    if !has_corpus || ai_disabled {
        return nothing;
    }
    match cached {
        Some(hint) => {
            if hint.as_str().is_empty() {
                nothing
            } else {
                AiPlan { reason: Some(hint), cache_hit: true, limited: false, should_call: false }
            }
        },
        None => {
            if counter.over_limit(today, limit) {
                AiPlan { reason: None, cache_hit: false, limited: true, should_call: false }
            } else {
                AiPlan { reason: None, cache_hit: false, limited: false, should_call: true }
            }
        },
    }
}

/// Takes in what the AI answered. An answer that counts as used becomes
/// the hint of the request and one call of the day; any other is dropped.
pub fn accept_ai_answer(
    answer: Option<String>,
    counter: &mut DailyAiCounter,
    today: u64,
    limit: Option<usize>,
) -> (hint: Option<String>)
    ensures
        hint is Some == (answer matches Some(a) && counts_as_used(a@)),
        hint matches Some(h) ==> h@ == answer->0@,
        hint is None ==> *final(counter) == *old(counter),
        hint is Some && limit is None ==> *final(counter) == *old(counter),
        hint is Some && limit is Some ==> final(counter).day == today && final(counter).used
            == if used_today(*old(counter), today) == usize::MAX {
            usize::MAX
        } else {
            (used_today(*old(counter), today) + 1) as usize
        },
{
    match answer {
        None => None,
        Some(a) => {
            if ai_reason_counts_as_used(a.as_str()) {
                counter.count_use(today, limit);
                Some(a)
            } else {
                None
            }
        },
    }
}

/// The number that a variable of the environment writes, once it is
/// trimmed.
pub open spec fn setting(value: Option<&str>) -> Option<u64> {
    match value {
        Some(v) => number_of(trimmed(v@)),
        None => None,
    }
}

fn read_setting(value: Option<&str>) -> (r: Option<u64>)
    ensures
        r == setting(value),
{
    match value {
        Some(v) => {
            let t = string_of(&trim_chars(&chars_of(v)));
            parse_u64(t.as_str())
        },
        None => None,
    }
}

/// The time that a response counts as cached, in milliseconds: the
/// setting in milliseconds if it writes a number, else the setting in
/// seconds, else two seconds.
pub fn ai_cache_ttl(millis: Option<&str>, secs: Option<&str>) -> (r: u128)
    ensures
        r == match setting(millis) {
            Some(ms) => ms as int,
            None => match setting(secs) {
                Some(s) => s * 1_000,
                None => DEFAULT_CACHE_TTL_SECS * 1_000,
            },
        },
{
    match read_setting(millis) {
        Some(ms) => ms as u128,
        None => {
            let s = match read_setting(secs) {
                Some(s) => s,
                None => DEFAULT_CACHE_TTL_SECS,
            };
            (s as u128) * 1_000
        },
    }
}

/// The milliseconds that are taken off the expiry of a cached response:
/// the setting if it writes a number, else ten.
pub fn ai_cache_bias(millis: Option<&str>) -> (r: u64)
    ensures
        r == match setting(millis) {
            Some(ms) => ms,
            None => DEFAULT_CACHE_BIAS_MS,
        },
{
    match read_setting(millis) {
        Some(ms) => ms,
        None => DEFAULT_CACHE_BIAS_MS,
    }
}

/// Whether a request hits the cache at `now`: an expiry is stored for
/// it, the time to live is not 0, and the expiry is not reached.
pub fn cache_is_hit(expiry: Option<u128>, ttl: u128, now: u128) -> (hit: bool)
    ensures
        hit == (expiry matches Some(at) && ttl > 0 && now < at),
{
    match expiry {
        Some(at) => ttl > 0 && now < at,
        None => false,
    }
}

/// The expiry that is stored for a request that missed the cache at
/// `now`: `now` plus the time to live, minus the bias; `now` itself where
/// that cannot be computed.
pub fn cache_expiry(now: u128, ttl: u128, bias: u128) -> (at: u128)
    ensures
        at == if now + ttl > u128::MAX {
            if now >= bias {
                (now - bias) as u128
            } else {
                now
            }
        } else if now + ttl >= bias {
            (now + ttl - bias) as u128
        } else {
            now
        },
{
    let base = if now > u128::MAX - ttl {
        now
    } else {
        now + ttl
    };
    if base >= bias {
        base - bias
    } else {
        now
    }
}

} // verus!
