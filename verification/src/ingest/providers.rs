//! What the RSS providers make of a feed once it is parsed: one event
//! for each item that has a text.

use crate::ingest::types::SourceEvent;
use crate::ingest::{normalize_text, normalized_text};
use crate::text::{chars_of, concat2, replace_chars, replaced, string_of};
use vstd::prelude::*;
use vstd::string::StringExecFns;

verus! {

/// One item of a feed.
#[derive(Debug, Clone)]
pub struct RssItem {
    pub title: Option<String>,
    pub link: Option<String>,
    pub pub_date: Option<String>,
    pub description: Option<String>,
}

/// The unix timestamp of a date that `OffsetDateTime::parse` reads in the
/// format of RFC 2822, `None` where it does not read one.
pub uninterp spec fn rfc2822_unix(ts: Seq<char>) -> Option<i64>;

/// Parses a date in the format of RFC 2822 with `OffsetDateTime::parse`
/// and takes its `unix_timestamp`.
#[verifier::external_body]
fn rfc2822_timestamp(ts: &str) -> (r: Option<i64>)
    ensures
        r == rfc2822_unix(ts@),
{
    time::OffsetDateTime::parse(ts, &time::format_description::well_known::Rfc2822).ok().map(
        |dt| dt.unix_timestamp(),
    )
}

/// The seconds since the epoch of a date in the format of RFC 2822, 0 for
/// a date before the epoch and for what is no such date.
pub open spec fn published_at(ts: Seq<char>) -> u64 {
    match rfc2822_unix(ts) {
        Some(secs) if secs >= 0 => secs as u64,
        _ => 0,
    }
}

/// Reads a date in the format of RFC 2822 as seconds since the epoch.
pub fn parse_rfc2822_to_unix(ts: &str) -> (r: u64)
    ensures
        r == published_at(ts@),
{
    match rfc2822_timestamp(ts) {
        Some(secs) => if secs >= 0 {
            secs as u64
        } else {
            0
        },
        None => 0,
    }
}

/// A text with the named character references that XML does not know
/// replaced by plain characters, one name after the other.
pub open spec fn scrubbed(s: Seq<char>) -> Seq<char> {
    let a = replaced(s, "&nbsp;"@, " "@);
    let b = replaced(a, "&ndash;"@, "-"@);
    let c = replaced(b, "&mdash;"@, "-"@);
    let d = replaced(c, "&ldquo;"@, "\""@);
    let e = replaced(d, "&rdquo;"@, "\""@);
    let f = replaced(e, "&lsquo;"@, "'"@);
    replaced(f, "&rsquo;"@, "'"@)
}

/// Replaces the named character references that an XML parser refuses.
pub fn scrub_html_entities_for_xml(s: &str) -> (r: String)
    ensures
        r@ == scrubbed(s@),
{
    let a = replace_chars(&chars_of(s), &chars_of("&nbsp;"), &chars_of(" "));
    let b = replace_chars(&a, &chars_of("&ndash;"), &chars_of("-"));
    let c = replace_chars(&b, &chars_of("&mdash;"), &chars_of("-"));
    let d = replace_chars(&c, &chars_of("&ldquo;"), &chars_of("\""));
    let e = replace_chars(&d, &chars_of("&rdquo;"), &chars_of("\""));
    let f = replace_chars(&e, &chars_of("&lsquo;"), &chars_of("'"));
    let g = replace_chars(&f, &chars_of("&rsquo;"), &chars_of("'"));
    string_of(&g)
}

/// An optional text, the empty text where it is absent.
pub open spec fn or_empty(s: Option<String>) -> Seq<char> {
    match s {
        Some(t) => t@,
        None => Seq::empty(),
    }
}

/// The text of an item: title and description, joined by a full stop,
/// normalized.
pub open spec fn item_text(it: RssItem) -> Seq<char> {
    normalized_text(or_empty(it.title) + ". "@ + or_empty(it.description))
}

/// What an item gives as an event: its normalized text, its date, its
/// link.
pub struct ItemView {
    pub text: Seq<char>,
    pub published_at: u64,
    pub url: Option<Seq<char>>,
}

/// An item as the event that it gives.
pub open spec fn item_view(it: RssItem) -> ItemView {
    ItemView {
        text: item_text(it),
        published_at: match it.pub_date {
            Some(d) => published_at(d@),
            None => 0,
        },
        url: match it.link {
            Some(l) => Some(l@),
            None => None,
        },
    }
}

/// An event as what it has from its item.
pub open spec fn event_item(ev: SourceEvent) -> ItemView {
    ItemView {
        text: ev.text@,
        published_at: ev.published_at,
        url: match ev.url {
            Some(l) => Some(l@),
            None => None,
        },
    }
}

/// The events of the items that have a text, in order.
pub open spec fn items_with_text(items: Seq<RssItem>) -> Seq<ItemView> {
    items.map_values(|it: RssItem| item_view(it)).filter(|v: ItemView| v.text.len() > 0)
}

/// Makes one event of each item of a feed. The text is the title and the
/// description, joined by a full stop and normalized; an item whose text
/// is empty then gives no event. Every event carries the name of the
/// source and its priority hint.
pub fn events_from_items(source: &str, priority_hint: Option<u32>, items: &Vec<RssItem>) -> (out:
    Vec<SourceEvent>)
    ensures
        out@.map_values(|ev: SourceEvent| event_item(ev)) == items_with_text(items@),
        forall|i: int|
            0 <= i < out@.len() ==> (#[trigger] out@[i]).source@ == source@ && out@[i].priority_hint
                == priority_hint,
{
    let mut out: Vec<SourceEvent> = Vec::new();
    let ghost views = items@.map_values(|it: RssItem| item_view(it));
    let ghost has_text = |v: ItemView| v.text.len() > 0;
    let mut i: usize = 0;
    proof {
        reveal(Seq::filter);
        assert(out@.map_values(|ev: SourceEvent| event_item(ev)) =~= views.take(0).filter(
            has_text,
        ));
    }
    while i < items.len()
        invariant
            i <= items.len(),
            views == items@.map_values(|it: RssItem| item_view(it)),
            has_text == |v: ItemView| v.text.len() > 0,
            out@.map_values(|ev: SourceEvent| event_item(ev)) == views.take(i as int).filter(
                has_text,
            ),
            forall|k: int|
                0 <= k < out@.len() ==> (#[trigger] out@[k]).source@ == source@
                    && out@[k].priority_hint == priority_hint,
        decreases items.len() - i,
    {
        let it = &items[i];
        let mut raw = match &it.title {
            Some(t) => concat2(t.as_str(), ". "),
            None => String::from_str(". "),
        };
        match &it.description {
            Some(d) => raw.append(d.as_str()),
            None => {},
        }
        proof {
            assert(raw@ =~= or_empty(it.title) + ". "@ + or_empty(it.description));
            reveal(Seq::filter);
            assert(views.take(i + 1).drop_last() =~= views.take(i as int));
            assert(views.take(i + 1).last() == item_view(*it));
        }
        let text = normalize_text(raw.as_str());
        if !text.as_str().is_empty() {
            let ev = SourceEvent {
                source: String::from_str(source),
                published_at: match &it.pub_date {
                    Some(d) => parse_rfc2822_to_unix(d.as_str()),
                    None => 0,
                },
                text,
                url: match &it.link {
                    Some(l) => Some(l.clone()),
                    None => None,
                },
                priority_hint,
            };
            let ghost before = out@.map_values(|ev: SourceEvent| event_item(ev));
            out.push(ev);
            assert(out@.map_values(|ev: SourceEvent| event_item(ev)) =~= before.push(
                item_view(*it),
            ));
        }
        i += 1;
    }
    assert(views.take(items@.len() as int) =~= views);
    out
}

} // verus!
