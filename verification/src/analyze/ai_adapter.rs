//! The hints of the AI adapter: what a provider may return, how a hint is
//! cleaned, and the daily limit on calls to the provider.

use crate::text::{
    chars_of, contains_chars, decimal, decimal_string, lemma_trimmed_is_part, lower_chars,
    lowered, occurs_in, str_eq, string_of, trim_chars, trimmed,
};
use vstd::prelude::*;
use vstd::string::StringExecFns;

verus! {

/// Result returned by AI providers.
#[derive(Debug, Clone)]
pub struct AiResult {
    pub short_reason: String,
}

/// No reason is longer than this.
pub const MAX_REASON_LEN: usize = 160;

/// The daily limit that holds when the configuration gives none.
pub const DEFAULT_DAILY_LIMIT: u32 = 20;

/// The seconds of one day.
pub const SECS_PER_DAY: u64 = 86_400;

/// A character as it is written to a reason: a line break or tab as a
/// space, any other ASCII character as itself, and anything else as a
/// space.
pub open spec fn plain_char(ch: char) -> char {
    if ch == '\r' || ch == '\n' || ch == '\t' {
        ' '
    } else if (ch as u32) < 128 {
        ch
    } else {
        ' '
    }
}

/// What has been written after the first `n` characters were read, and
/// whether the last of them was a space. A space is written only after
/// something else, and nothing more is written once 160 characters are
/// there.
pub open spec fn sanitize_read(s: Seq<char>, n: nat) -> (Seq<char>, bool)
    decreases n,
{
    if n == 0 {
        (Seq::empty(), false)
    } else {
        let (out, prev_space) = sanitize_read(s, (n - 1) as nat);
        let c = plain_char(s[n - 1]);
        if out.len() >= MAX_REASON_LEN {
            (out, prev_space)
        } else if c == ' ' {
            if !prev_space && out.len() > 0 {
                (out.push(' '), true)
            } else {
                (out, true)
            }
        } else {
            (out.push(c), false)
        }
    }
}

/// A reason made ASCII-only, single-line and at most 160 characters long,
/// with runs of whitespace folded and the ends trimmed.
pub open spec fn sanitized(s: Seq<char>) -> Seq<char> {
    trimmed(sanitize_read(s, s.len()).0)
}

/// What is written is ASCII without line breaks and tabs, and at most
/// 160 characters long.
pub proof fn lemma_sanitize_read_plain(s: Seq<char>, n: nat)
    ensures
        sanitize_read(s, n).0.len() <= MAX_REASON_LEN,
        forall|i: int|
            0 <= i < sanitize_read(s, n).0.len() ==> is_plain(#[trigger] sanitize_read(s, n).0[i]),
    decreases n,
{
    if n > 0 {
        lemma_sanitize_read_plain(s, (n - 1) as nat);
    }
}

/// The character is ASCII and neither a line break nor a tab.
pub open spec fn is_plain(c: char) -> bool {
    (c as u32) < 128 && c != '\r' && c != '\n' && c != '\t'
}

/// Makes a reason ASCII-only, single-line and at most 160 characters
/// long. Runs of whitespace are folded into one space.
pub fn sanitize_reason(input: &str) -> (r: String)
    ensures
        r@ == sanitized(input@),
        r@.len() <= MAX_REASON_LEN,
        forall|i: int| 0 <= i < r@.len() ==> is_plain(#[trigger] r@[i]),
{
    let chars = chars_of(input);
    let mut out: Vec<char> = Vec::new();
    let mut prev_space = false;
    let mut i: usize = 0;
    while i < chars.len()
        invariant
            i <= chars.len(),
            chars@ == input@,
            sanitize_read(input@, i as nat) == (out@, prev_space),
        decreases chars.len() - i,
    {
        if out.len() < MAX_REASON_LEN {
            let ch = chars[i];
            let c = if ch == '\r' || ch == '\n' || ch == '\t' {
                ' '
            } else if (ch as u32) < 128 {
                ch
            } else {
                ' '
            };
            if c == ' ' {
                if !prev_space && out.len() > 0 {
                    out.push(' ');
                }
                prev_space = true;
            } else {
                out.push(c);
                prev_space = false;
            }
        }
        i += 1;
    }
    let trimmed_out = trim_chars(&out);
    proof {
        lemma_sanitize_read_plain(input@, input@.len());
        lemma_trimmed_is_part(out@);
        assert forall|i: int| 0 <= i < trimmed_out@.len() implies is_plain(
            #[trigger] trimmed_out@[i],
        ) by {
            let c = trimmed_out@[i];
            assert(out@.contains(c));
            let k = choose|k: int| 0 <= k < out@.len() && out@[k] == c;
            assert(is_plain(out@[k]));
        }
    }
    string_of(&trimmed_out)
}

/// The words that mark a reply as a refusal for limits or availability.
pub open spec fn limit_words() -> Seq<Seq<char>> {
    seq![
        "limit"@,
        "exceed"@,
        "exceeded"@,
        "disabled"@,
        "band"@,
        "quota"@,
        "rate"@,
        "limited"@,
        "throttle"@,
        "throttled"@,
        "exhaust"@,
        "exhausted"@,
        "reach"@,
        "reached"@,
        "cap"@,
        "capped"@,
        "cooldown"@,
        "cool down"@,
        "suspend"@,
        "suspended"@,
        "turned off"@,
        "off"@,
        "quota exceeded"@,
        "daily limit"@,
        "day limit"@,
        "over quota"@,
        "temporarily unavailable"@,
        "not available"@,
        "unavailable"@,
    ]
}

/// A reason counts as a hint that was used: it is not blank, and in lower
/// case it contains none of the limit words.
pub open spec fn counts_as_used(reason: Seq<char>) -> bool {
    trimmed(reason).len() > 0 && forall|i: int|
        0 <= i < limit_words().len() ==> !occurs_in(lowered(reason), #[trigger] limit_words()[i])
}

/// Decides whether a reason from the AI counts as a hint that was used,
/// as opposed to a reply about limits or quotas.
pub fn ai_reason_counts_as_used(reason: &str) -> (r: bool)
    ensures
        r == counts_as_used(reason@),
{
    let chars = chars_of(reason);
    if trim_chars(&chars).len() == 0 {
        return false;
    }
    let lower = lower_chars(&chars);
    let blockers: Vec<&'static str> = vec![
        "limit",
        "exceed",
        "exceeded",
        "disabled",
        "band",
        "quota",
        "rate",
        "limited",
        "throttle",
        "throttled",
        "exhaust",
        "exhausted",
        "reach",
        "reached",
        "cap",
        "capped",
        "cooldown",
        "cool down",
        "suspend",
        "suspended",
        "turned off",
        "off",
        "quota exceeded",
        "daily limit",
        "day limit",
        "over quota",
        "temporarily unavailable",
        "not available",
        "unavailable",
    ];
    assert(blockers@.len() == limit_words().len());
    assert(forall|k: int| 0 <= k < blockers@.len() ==> (#[trigger] blockers@[k])@ == limit_words()[k]);
    let mut i: usize = 0;
    while i < blockers.len()
        invariant
            i <= blockers.len(),
            lower@ == lowered(reason@),
            blockers@.len() == limit_words().len(),
            forall|k: int|
                0 <= k < blockers@.len() ==> (#[trigger] blockers@[k])@ == limit_words()[k],
            forall|k: int|
                0 <= k < i ==> !occurs_in(lowered(reason@), #[trigger] limit_words()[k]),
        decreases blockers.len() - i,
    {
        let word = chars_of(blockers[i]);
        if contains_chars(&lower, &word) {
            assert(occurs_in(lowered(reason@), limit_words()[i as int]));
            return false;
        }
        i += 1;
    }
    true
}

/// The calls of one day: the day, written as the number of days since
/// the epoch, and the number of calls that were made on it.
#[derive(Debug, Clone)]
pub struct DailyCounter {
    pub date: String,
    pub count: u32,
}

/// The day of a time in unix seconds, written as the number of days
/// since the epoch.
pub fn today(now_unix: u64) -> (r: String)
    ensures
        r@ == decimal((now_unix / SECS_PER_DAY) as nat),
{
    decimal_string(now_unix / SECS_PER_DAY)
}

impl DailyCounter {
    /// A counter for the given day with no calls yet.
    pub fn new(date: String) -> (c: DailyCounter)
        ensures
            c.date == date,
            c.count == 0,
    {
        DailyCounter { date, count: 0 }
    }

    /// Whether the counter belongs to another day than `today`.
    pub fn is_expired(&self, today: &str) -> (r: bool)
        ensures
            r == (self.date@ != today@),
    {
        !str_eq(self.date.as_str(), today)
    }

    /// Starts the count of a new day.
    pub fn reset_to_today(&mut self, today: String)
        ensures
            final(self).date == today,
            final(self).count == 0,
    {
        self.date = today;
        self.count = 0;
    }
}

/// Which client the configuration calls for.
#[derive(Debug, Clone, Copy, PartialEq, Eq, Structural)]
pub enum ClientKind {
    /// A client that always answers with the same hint.
    Mock,
    /// A client that never answers.
    Disabled,
    /// The client of the OpenAI provider, behind cache and daily limit.
    OpenAi,
}

/// The client that configuration and environment call for: the mock if
/// the test mode is `mock`; else none if AI is not enabled; else the one
/// of the provider, of which only `openai` is served.
pub fn build_client_from_config(test_mode: Option<&str>, enabled: bool, provider: Option<&str>) -> (r:
    ClientKind)
    ensures
        r == if test_mode matches Some(m) && m@ == "mock"@ {
            ClientKind::Mock
        } else if enabled && (provider matches Some(p) && p@ == "openai"@) {
            ClientKind::OpenAi
        } else {
            ClientKind::Disabled
        },
{
    let mock = match test_mode {
        Some(m) => str_eq(m, "mock"),
        None => false,
    };
    if mock {
        return ClientKind::Mock;
    }
    if !enabled {
        return ClientKind::Disabled;
    }
    match provider {
        Some(p) => if str_eq(p, "openai") {
            ClientKind::OpenAi
        } else {
            ClientKind::Disabled
        },
        None => ClientKind::Disabled,
    }
}

/// Returns no hint, whatever the input: the client when AI is disabled.
#[derive(Debug, Clone, Copy)]
pub struct DisabledClient;

impl DisabledClient {
    /// No hint.
    pub fn analyze(&self, input: &str) -> (r: Option<AiResult>)
        ensures
            r is None,
    {
        None
    }

    /// The name of the provider, for diagnostics.
    pub fn provider_name(&self) -> (r: &'static str)
        ensures
            r@ == "disabled"@,
    {
        "disabled"
    }
}

/// Returns one fixed hint, whatever the input: the provider of tests and
/// local runs.
#[derive(Debug, Clone)]
pub struct MockProvider {
    pub fixed: AiResult,
}

impl MockProvider {
    /// The fixed hint.
    pub fn fetch(&self, input: &str) -> (r: Option<AiResult>)
        ensures
            r matches Some(hint) && hint.short_reason@ == self.fixed.short_reason@,
    {
        Some(AiResult { short_reason: self.fixed.short_reason.clone() })
    }

    /// The name of the provider, for diagnostics.
    pub fn name(&self) -> (r: &'static str)
        ensures
            r@ == "mock"@,
    {
        "mock"
    }
}

/// The provider returned a hint of which something is left when it is
/// cleaned.
pub open spec fn usable(fetched: Option<AiResult>) -> bool {
    fetched matches Some(hint) && sanitized(hint.short_reason@).len() > 0
}

/// The state of the client that stands before a provider: the most
/// calls it makes on one day, and the calls of the current day.
#[derive(Debug, Clone)]
pub struct CachingClient {
    pub daily_limit_max: u32,
    pub counter: DailyCounter,
}

impl CachingClient {
    /// A client with the given limit and counter. A limit that is absent
    /// stands for 20 calls.
    pub fn new(daily_limit: Option<u32>, counter: DailyCounter) -> (c: CachingClient)
        ensures
            c.counter == counter,
            c.daily_limit_max == match daily_limit {
                Some(n) => n,
                None => DEFAULT_DAILY_LIMIT,
            },
    {
        let daily_limit_max = match daily_limit {
            Some(n) => n,
            None => DEFAULT_DAILY_LIMIT,
        };
        CachingClient { daily_limit_max, counter }
    }

    /// The first step of an analysis: a counter of another day is reset
    /// to `today`, and the call may go on if the count of the day is
    /// below the limit. Returns whether it may.
    pub fn begin(&mut self, today: &str) -> (allowed: bool)
        ensures
            final(self).daily_limit_max == old(self).daily_limit_max,
            final(self).counter.date@ == today@,
            final(self).counter.count == if old(self).counter.date@ != today@ {
                0
            } else {
                old(self).counter.count
            },
            allowed == (final(self).counter.count < old(self).daily_limit_max),
    {
        if self.counter.is_expired(today) {
            self.counter.reset_to_today(String::from_str(today));
        }
        self.counter.count < self.daily_limit_max
    }

    /// The last step of an analysis, after the provider was asked: its
    /// hint is cleaned, and if something is left of it, it is returned
    /// and counted as one call of the day.
    pub fn settle(&mut self, fetched: Option<AiResult>) -> (r: Option<AiResult>)
        ensures
            final(self).daily_limit_max == old(self).daily_limit_max,
            final(self).counter.date == old(self).counter.date,
            r is Some == usable(fetched),
            r matches Some(clean) ==> clean.short_reason@ == sanitized(fetched->0.short_reason@),
            final(self).counter.count == if !usable(fetched) || old(self).counter.count
                == u32::MAX {
                old(self).counter.count
            } else {
                (old(self).counter.count + 1) as u32
            },
    {
        match fetched {
            None => None,
            Some(hint) => {
                let clean = sanitize_reason(hint.short_reason.as_str());
                if clean.as_str().is_empty() {
                    None
                } else {
                    if self.counter.count < u32::MAX {
                        self.counter.count = self.counter.count + 1;
                    }
                    Some(AiResult { short_reason: clean })
                }
            },
        }
    }
}

} // verus!
