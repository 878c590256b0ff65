//! The ingest pipeline: texts are normalized, statements of sources that
//! are not whitelisted are filtered out, and repeats are dropped.

pub mod backup;
pub mod config;
pub mod providers;
pub mod types;

use crate::ingest::types::SourceEvent;
use crate::relevance::pattern::{pattern_compiles, pattern_replaced, replace_matches};
use crate::text::{
    char_is_whitespace, chars_of, concat2, decimal, decimal_string, eq_ignore_ascii_case,
    is_whitespace, str_eq, string_of, text_eq_ignore_case, trim_chars, trimmed, views,
};
use vstd::prelude::*;
use vstd::string::StringExecFns;

verus! {

/// No normalized text is longer than this, in bytes.
pub const MAX_LEN: usize = 1_500;

/// The pattern of an HTML tag: an angle bracket, at least one character
/// that closes none, and the closing angle bracket.
pub const TAG_PATTERN: &'static str = r"(?is)<[^>]+>";

/// A text without its HTML tags.
pub open spec fn without_tags(text: Seq<char>) -> Seq<char> {
    if pattern_compiles(TAG_PATTERN@) {
        pattern_replaced(TAG_PATTERN@, text, Seq::empty())
    } else {
        text
    }
}

/// A text after `html_escape::decode_html_entities` has decoded its
/// character references.
pub uninterp spec fn entities_decoded(text: Seq<char>) -> Seq<char>;

/// Removes the HTML tags of a text.
fn strip_tags(s: &str) -> (r: String)
    ensures
        r@ == without_tags(s@),
{
    match replace_matches(TAG_PATTERN, s, "") {
        Some(r) => {
            proof {
                reveal_strlit("");
                assert(""@ =~= Seq::<char>::empty());
            }
            r
        },
        None => String::from_str(s),
    }
}

/// Calls `html_escape::decode_html_entities`.
#[verifier::external_body]
fn decode_entities(s: &str) -> (r: String)
    ensures
        r@ == entities_decoded(s@),
{
    html_escape::decode_html_entities(s).to_string()
}

/// A typographic quote or dash as its ASCII equivalent, a no-break space
/// as a space, any other character as itself.
pub open spec fn plain_typography(c: char) -> char {
    if c == '\u{2018}' || c == '\u{2019}' {
        '\''
    } else if c == '\u{201C}' || c == '\u{201D}' {
        '"'
    } else if c == '\u{2013}' || c == '\u{2014}' {
        '-'
    } else if c == '\u{00A0}' {
        ' '
    } else {
        c
    }
}

/// What has been written after the first `n` characters were read, and
/// whether the last of them was whitespace: a run of whitespace is
/// written as one space.
pub open spec fn spaces_folded_read(s: Seq<char>, n: nat) -> (Seq<char>, bool)
    decreases n,
{
    if n == 0 {
        (Seq::empty(), false)
    } else {
        let (out, last_space) = spaces_folded_read(s, (n - 1) as nat);
        let c = s[n - 1];
        if char_is_whitespace(c) {
            if last_space {
                (out, true)
            } else {
                (out.push(' '), true)
            }
        } else {
            (out.push(c), false)
        }
    }
}

/// A text with each run of whitespace folded into one space.
pub open spec fn spaces_folded(s: Seq<char>) -> Seq<char> {
    spaces_folded_read(s, s.len()).0
}

/// The number of bytes of a character in UTF-8.
pub open spec fn utf8_len(c: char) -> nat {
    if (c as u32) < 0x80 {
        1
    } else if (c as u32) < 0x800 {
        2
    } else if (c as u32) < 0x10000 {
        3
    } else {
        4
    }
}

/// The number of bytes of the first `n` characters of a text in UTF-8.
pub open spec fn utf8_len_of(s: Seq<char>, n: nat) -> nat
    decreases n,
{
    if n == 0 {
        0
    } else {
        utf8_len_of(s, (n - 1) as nat) + utf8_len(s[n - 1])
    }
}

/// The number of characters of the longest prefix of a text, among its
/// first `n` characters, that has at most `max` bytes in UTF-8.
pub open spec fn capped_len(s: Seq<char>, max: nat, n: nat) -> nat
    decreases n,
{
    if n == 0 {
        0
    } else if utf8_len_of(s, n) <= max {
        n
    } else {
        capped_len(s, max, (n - 1) as nat)
    }
}

/// The longest prefix of a text that has at most `max` bytes in UTF-8.
pub open spec fn capped(s: Seq<char>, max: nat) -> Seq<char> {
    s.take(capped_len(s, max, s.len()) as int)
}

/// A text made plain: tags removed, character references decoded,
/// typographic characters mapped to ASCII, the ends trimmed, whitespace
/// folded, and the whole capped at 1500 bytes.
pub open spec fn normalized_text(s: Seq<char>) -> Seq<char> {
    capped(
        spaces_folded(
            trimmed(entities_decoded(without_tags(s)).map_values(|c: char| plain_typography(c))),
        ),
        MAX_LEN as nat,
    )
}

fn map_typography(chars: &Vec<char>) -> (r: Vec<char>)
    ensures
        r@ == chars@.map_values(|c: char| plain_typography(c)),
{
    let mut r: Vec<char> = Vec::new();
    let mut i: usize = 0;
    while i < chars.len()
        invariant
            i <= chars.len(),
            r@ == chars@.take(i as int).map_values(|c: char| plain_typography(c)),
        decreases chars.len() - i,
    {
        let c = chars[i];
        let p = if c == '\u{2018}' || c == '\u{2019}' {
            '\''
        } else if c == '\u{201C}' || c == '\u{201D}' {
            '"'
        } else if c == '\u{2013}' || c == '\u{2014}' {
            '-'
        } else if c == '\u{00A0}' {
            ' '
        } else {
            c
        };
        r.push(p);
        assert(r@ =~= chars@.take(i + 1).map_values(|c: char| plain_typography(c)));
        i += 1;
    }
    assert(chars@.take(chars@.len() as int) =~= chars@);
    r
}

/// Folds each run of whitespace into one space.
pub fn fold_spaces_of(chars: &Vec<char>) -> (r: Vec<char>)
    ensures
        r@ == spaces_folded(chars@),
{
    let mut out: Vec<char> = Vec::new();
    let mut last_space = false;
    let mut i: usize = 0;
    while i < chars.len()
        invariant
            i <= chars.len(),
            spaces_folded_read(chars@, i as nat) == (out@, last_space),
        decreases chars.len() - i,
    {
        let c = chars[i];
        if is_whitespace(c) {
            if !last_space {
                out.push(' ');
                last_space = true;
            }
        } else {
            out.push(c);
            last_space = false;
        }
        i += 1;
    }
    out
}

fn cap_bytes(chars: &Vec<char>, max: usize) -> (r: Vec<char>)
    ensures
        r@ == capped(chars@, max as nat),
{
    let mut out: Vec<char> = Vec::new();
    let mut bytes: usize = 0;
    let mut i: usize = 0;
    while i < chars.len()
        invariant
            i <= chars.len(),
            bytes == utf8_len_of(chars@, i as nat),
            bytes <= max,
            out@ == chars@.take(i as int),
        decreases chars.len() - i,
    {
        let c = chars[i];
        let w: usize = if (c as u32) < 0x80 {
            1
        } else if (c as u32) < 0x800 {
            2
        } else if (c as u32) < 0x10000 {
            3
        } else {
            4
        };
        if w > max - bytes {
            proof {
                lemma_cap_found(chars@, max as nat, i as nat, chars@.len());
            }
            return out;
        }
        bytes = bytes + w;
        out.push(c);
        assert(out@ =~= chars@.take(i + 1));
        i += 1;
    }
    assert(chars@.take(chars@.len() as int) =~= chars@);
    out
}

/// The byte length grows with the number of characters.
proof fn lemma_utf8_len_grows(s: Seq<char>, n: nat, m: nat)
    requires
        n <= m,
    ensures
        utf8_len_of(s, n) <= utf8_len_of(s, m),
    decreases m,
{
    if n < m {
        lemma_utf8_len_grows(s, n, (m - 1) as nat);
    }
}

/// Where `i` characters fit and `i + 1` do not, the cap is `i`.
proof fn lemma_cap_found(s: Seq<char>, max: nat, i: nat, n: nat)
    requires
        i < n,
        utf8_len_of(s, i) <= max,
        utf8_len_of(s, i + 1) > max,
    ensures
        capped_len(s, max, n) == i,
    decreases n,
{
    if n > i + 1 {
        lemma_utf8_len_grows(s, i + 1, n);
        lemma_cap_found(s, max, i, (n - 1) as nat);
    } else {
        if i > 0 {
            assert(capped_len(s, max, i) == i);
        }
    }
}

/// Normalizes a text: strips HTML tags, decodes character references,
/// maps typographic quotes and dashes to ASCII and the no-break space to
/// a space, trims, folds whitespace, and caps the length at 1500 bytes.
/// Where the cap falls inside a character, that character is left out.
pub fn normalize_text(s: &str) -> (r: String)
    ensures
        r@ == normalized_text(s@),
{
    let without = strip_tags(s);
    let unescaped = decode_entities(without.as_str());
    let mapped = map_typography(&chars_of(unescaped.as_str()));
    let folded = fold_spaces_of(&trim_chars(&mapped));
    let out = cap_bytes(&folded, MAX_LEN);
    string_of(&out)
}

/// The source is one of the whitelist, but for the case of ASCII
/// letters.
pub open spec fn whitelisted(source: Seq<char>, whitelist: Seq<String>) -> bool {
    exists|i: int| 0 <= i < whitelist.len() && text_eq_ignore_case(#[trigger] whitelist[i]@, source)
}

/// Returns true if the source is in the whitelist of authorities.
pub fn is_whitelisted(source: &str, whitelist: &Vec<String>) -> (r: bool)
    ensures
        r == whitelisted(source@, whitelist@),
{
    let mut i: usize = 0;
    while i < whitelist.len()
        invariant
            i <= whitelist.len(),
            forall|k: int| 0 <= k < i ==> !text_eq_ignore_case(#[trigger] whitelist@[k]@, source@),
        decreases whitelist.len() - i,
    {
        if eq_ignore_ascii_case(whitelist[i].as_str(), source) {
            return true;
        }
        i += 1;
    }
    false
}

/// An event as plain values, with its text normalized.
pub struct EventView {
    pub source: Seq<char>,
    pub published_at: u64,
    pub text: Seq<char>,
    pub url: Option<Seq<char>>,
    pub priority_hint: Option<u32>,
}

/// An event as plain values.
pub open spec fn event_view(ev: SourceEvent) -> EventView {
    EventView {
        source: ev.source@,
        published_at: ev.published_at,
        text: ev.text@,
        url: match ev.url {
            Some(u) => Some(u@),
            None => None,
        },
        priority_hint: ev.priority_hint,
    }
}

/// A list of events as plain values.
pub open spec fn event_views(events: Seq<SourceEvent>) -> Seq<EventView> {
    events.map_values(|ev: SourceEvent| event_view(ev))
}

/// An event with its text normalized.
pub open spec fn normalized_event(ev: EventView) -> EventView {
    EventView { text: normalized_text(ev.text), ..ev }
}

/// A normalized event passes the filter: its text is not empty, and its
/// source is whitelisted or there is no whitelist.
pub open spec fn passes_filter(ev: EventView, whitelist: Seq<String>) -> bool {
    ev.text.len() > 0 && (whitelist.len() == 0 || whitelisted(ev.source, whitelist))
}

/// The events that pass the filter, normalized, in order.
pub open spec fn filtered(events: Seq<EventView>, whitelist: Seq<String>) -> Seq<EventView> {
    events.map_values(|ev: EventView| normalized_event(ev)).filter(
        |ev: EventView| passes_filter(ev, whitelist),
    )
}

/// The event was published within the window before `now`.
pub open spec fn is_recent(ev: EventView, now: u64, window: u64) -> bool {
    now <= ev.published_at || now - ev.published_at <= window
}

/// The texts of the recent events among the first `n`.
pub open spec fn seen_texts(events: Seq<EventView>, now: u64, window: u64, n: nat) -> Set<Seq<char>>
    decreases n,
{
    if n == 0 {
        Set::empty()
    } else if is_recent(events[n - 1], now, window) {
        seen_texts(events, now, window, (n - 1) as nat).insert(events[n - 1].text)
    } else {
        seen_texts(events, now, window, (n - 1) as nat)
    }
}

/// Event `i` repeats an earlier one: it is recent, and so is an earlier
/// event with the same text.
pub open spec fn is_repeat(events: Seq<EventView>, now: u64, window: u64, i: int) -> bool {
    is_recent(events[i], now, window) && seen_texts(events, now, window, i as nat).contains(
        events[i].text,
    )
}

/// The events among the first `n` that repeat no earlier one, in order.
pub open spec fn deduplicated(events: Seq<EventView>, now: u64, window: u64, n: nat) -> Seq<
    EventView,
>
    decreases n,
{
    if n == 0 {
        Seq::empty()
    } else if is_repeat(events, now, window, n - 1) {
        deduplicated(events, now, window, (n - 1) as nat)
    } else {
        deduplicated(events, now, window, (n - 1) as nat).push(events[n - 1])
    }
}

fn contains_text(seen: &Vec<String>, text: &str) -> (r: bool)
    ensures
        r == views(seen@).to_set().contains(text@),
{
    let mut i: usize = 0;
    while i < seen.len()
        invariant
            i <= seen.len(),
            forall|k: int| 0 <= k < i ==> seen@[k]@ != text@,
        decreases seen.len() - i,
    {
        if str_eq(seen[i].as_str(), text) {
            assert(views(seen@)[i as int] == text@);
            return true;
        }
        i += 1;
    }
    proof {
        if views(seen@).contains(text@) {
            let k = choose|k: int| 0 <= k < views(seen@).len() && views(seen@)[k] == text@;
            assert(seen@[k]@ == text@);
        }
    }
    false
}

/// The first stage of the pipeline: normalizes the texts and keeps the
/// events that pass the filter.
pub fn normalize_and_filter(raw_events: Vec<SourceEvent>, whitelist: &Vec<String>) -> (r: Vec<
    SourceEvent,
>)
    ensures
        event_views(r@) == filtered(event_views(raw_events@), whitelist@),
{
    let mut out: Vec<SourceEvent> = Vec::new();
    let ghost raw = event_views(raw_events@);
    let ghost norm = |ev: EventView| normalized_event(ev);
    let ghost keep = |ev: EventView| passes_filter(ev, whitelist@);
    let mut i: usize = 0;
    proof {
        reveal(Seq::filter);
        assert(event_views(out@) =~= filtered(raw.take(0), whitelist@));
    }
    while i < raw_events.len()
        invariant
            i <= raw_events.len(),
            raw == event_views(raw_events@),
            event_views(out@) == filtered(raw.take(i as int), whitelist@),
        decreases raw_events.len() - i,
    {
        let ev = &raw_events[i];
        let text = normalize_text(ev.text.as_str());
        let keep_it = !text.as_str().is_empty() && (whitelist.len() == 0 || is_whitelisted(
            ev.source.as_str(),
            whitelist,
        ));
        proof {
            reveal(Seq::filter);
            let f = |ev: EventView| normalized_event(ev);
            assert(raw.take(i + 1).map_values(f).drop_last() =~= raw.take(i as int).map_values(f));
            assert(raw.take(i + 1).map_values(f).last() == normalized_event(raw[i as int]));
        }
        if keep_it {
            let kept = SourceEvent {
                source: ev.source.clone(),
                published_at: ev.published_at,
                text,
                url: match &ev.url {
                    Some(u) => Some(u.clone()),
                    None => None,
                },
                priority_hint: ev.priority_hint,
            };
            let ghost before = event_views(out@);
            out.push(kept);
            assert(event_views(out@) =~= before.push(normalized_event(raw[i as int])));
        }
        i += 1;
    }
    assert(raw.take(raw.len() as int) =~= raw);
    out
}

/// The second stage of the pipeline: drops the recent events whose text
/// an earlier recent event had already.
pub fn deduplicate(now: u64, events: Vec<SourceEvent>, dedup_window_secs: u64) -> (r: Vec<
    SourceEvent,
>)
    ensures
        event_views(r@) == deduplicated(
            event_views(events@),
            now,
            dedup_window_secs,
            events@.len(),
        ),
{
    let ghost all = event_views(events@);
    let mut seen: Vec<String> = Vec::new();
    let mut keep: Vec<SourceEvent> = Vec::new();
    let mut i: usize = 0;
    assert(views(seen@).to_set() =~= Set::empty());
    assert(event_views(keep@) =~= Seq::empty());
    while i < events.len()
        invariant
            i <= events.len(),
            all == event_views(events@),
            views(seen@).to_set() == seen_texts(all, now, dedup_window_secs, i as nat),
            event_views(keep@) == deduplicated(all, now, dedup_window_secs, i as nat),
        decreases events.len() - i,
    {
        let ev = &events[i];
        assert(all[i as int] == event_view(*ev));
        let recent = now <= ev.published_at || now - ev.published_at <= dedup_window_secs;
        let mut repeat = false;
        if recent {
            if contains_text(&seen, ev.text.as_str()) {
                repeat = true;
                assert(views(seen@).to_set().insert(ev.text@) =~= views(seen@).to_set());
            } else {
                let ghost before = views(seen@);
                seen.push(ev.text.clone());
                proof {
                    let after = views(seen@);
                    assert(after =~= before.push(ev.text@));
                    assert forall|t: Seq<char>| after.to_set().contains(t)
                        <==> before.to_set().insert(ev.text@).contains(t) by {
                        if after.contains(t) {
                            let k = choose|k: int| 0 <= k < after.len() && after[k] == t;
                            if k < before.len() {
                                assert(before[k] == t);
                            }
                        }
                        if before.contains(t) {
                            let k = choose|k: int| 0 <= k < before.len() && before[k] == t;
                            assert(after[k] == t);
                        }
                        if t == ev.text@ {
                            assert(after[before.len() as int] == t);
                        }
                    }
                    assert(after.to_set() =~= before.to_set().insert(ev.text@));
                }
            }
        }
        if !repeat {
            let kept = SourceEvent {
                source: ev.source.clone(),
                published_at: ev.published_at,
                text: ev.text.clone(),
                url: match &ev.url {
                    Some(u) => Some(u.clone()),
                    None => None,
                },
                priority_hint: ev.priority_hint,
            };
            let ghost before = event_views(keep@);
            keep.push(kept);
            assert(event_views(keep@) =~= before.push(all[i as int]));
        }
        i += 1;
    }
    keep
}

/// Ingest pipeline: normalize, filter by whitelist and non-empty text,
/// drop repeats. Returns the events that are kept, the number that the
/// filter took out, and the number that were dropped as repeats.
pub fn normalize_filter_dedup(
    now: u64,
    raw_events: Vec<SourceEvent>,
    whitelist: &Vec<String>,
    dedup_window_secs: u64,
) -> (r: (Vec<SourceEvent>, usize, usize))
    ensures
        event_views(r.0@) == deduplicated(
            filtered(event_views(raw_events@), whitelist@),
            now,
            dedup_window_secs,
            filtered(event_views(raw_events@), whitelist@).len(),
        ),
        r.1 == raw_events@.len() - filtered(event_views(raw_events@), whitelist@).len(),
        r.2 == filtered(event_views(raw_events@), whitelist@).len() - r.0@.len(),
{
    let total = raw_events.len();
    let ghost raw = event_views(raw_events@);
    let passed = normalize_and_filter(raw_events, whitelist);
    let passed_count = passed.len();
    proof {
        raw.map_values(|ev: EventView| normalized_event(ev)).lemma_filter_len(
            |ev: EventView| passes_filter(ev, whitelist@),
        );
        lemma_deduplicated_len(event_views(passed@), now, dedup_window_secs, passed@.len());
    }
    let kept = deduplicate(now, passed, dedup_window_secs);
    let kept_count = kept.len();
    (kept, total - passed_count, passed_count - kept_count)
}

/// Dropping repeats adds no event.
proof fn lemma_deduplicated_len(events: Seq<EventView>, now: u64, window: u64, n: nat)
    ensures
        deduplicated(events, now, window, n).len() <= n,
    decreases n,
{
    if n > 0 {
        lemma_deduplicated_len(events, now, window, (n - 1) as nat);
    }
}

/// One reason of an ingest decision.
#[derive(Debug, Clone)]
pub struct CompatReason {
    pub message: String,
}

/// What the ingest pipeline reports of one run.
#[derive(Debug, Clone)]
pub struct CompatDecision {
    pub reasons: Vec<CompatReason>,
}

/// The messages of a list of reasons.
pub open spec fn messages(reasons: Seq<CompatReason>) -> Seq<Seq<char>> {
    reasons.map_values(|r: CompatReason| r.message@)
}

/// The messages of an ingest decision: a header with the provider and the
/// number of events that were kept, then one message for each of them.
pub open spec fn ingest_messages(provider: Seq<char>, kept: Seq<SourceEvent>) -> Seq<Seq<char>> {
    seq!["ingest: provider="@ + provider + ", kept="@ + decimal(kept.len())] + kept.map_values(
        |e: SourceEvent| "ingest: "@ + e.text@,
    )
}

/// Reports the events that the pipeline kept: a header that starts with
/// `ingest:`, then the text of each event.
pub fn ingest_decision(provider_name: &str, kept: &Vec<SourceEvent>) -> (d: CompatDecision)
    ensures
        messages(d.reasons@) == ingest_messages(provider_name@, kept@),
{
    let mut reasons: Vec<CompatReason> = Vec::new();
    let mut header = concat2("ingest: provider=", provider_name);
    header.append(", kept=");
    header.append(decimal_string(kept.len() as u64).as_str());
    reasons.push(CompatReason { message: header });
    let ghost head = messages(reasons@);
    let ghost texts = kept@.map_values(|e: SourceEvent| "ingest: "@ + e.text@);
    assert(head =~= seq!["ingest: provider="@ + provider_name@ + ", kept="@ + decimal(kept@.len())]);
    let mut i: usize = 0;
    while i < kept.len()
        invariant
            i <= kept.len(),
            texts == kept@.map_values(|e: SourceEvent| "ingest: "@ + e.text@),
            messages(reasons@) == head + texts.take(i as int),
        decreases kept.len() - i,
    {
        let ghost before = messages(reasons@);
        reasons.push(CompatReason { message: concat2("ingest: ", kept[i].text.as_str()) });
        assert(messages(reasons@) =~= before.push(texts[i as int]));
        assert(head + texts.take(i + 1) =~= (head + texts.take(i as int)).push(texts[i as int]));
        i += 1;
    }
    assert(texts.take(kept@.len() as int) =~= texts);
    CompatDecision { reasons }
}

} // verus!
