//! Cashtags such as `$DJI` and hashtags such as `#DJIA` in a text.

use crate::text::{
    chars_of, lower_chars, lowered, sort_dedup, strictly_sorted, string_of, upper_chars, uppered,
    views,
};
use crate::relevance::pattern::{
    find_matches, pattern_compiles, pattern_match_spans, span_text, spans_of, texts_match,
};
use vstd::prelude::*;

verus! {

/// The pattern of a cashtag: a dollar sign and one to five letters, up
/// to a word boundary.
pub const CASHTAG_PATTERN: &'static str = r"(?i)(?P<tag>\$[a-z]{1,5})\b";

/// The pattern of a hashtag: a hash sign and letters, digits or
/// underscores, up to a word boundary.
pub const HASHTAG_PATTERN: &'static str = r"(?i)(?P<tag>#[a-z0-9_]+)\b";

/// The texts of the matches of a pattern in a text, in order; none if the
/// pattern does not compile.
pub open spec fn match_texts(pattern: Seq<char>, text: Seq<char>) -> Seq<Seq<char>> {
    if pattern_compiles(pattern) {
        pattern_match_spans(pattern, text).map_values(|s: (usize, usize)| span_text(text, s))
    } else {
        Seq::empty()
    }
}

/// The cashtags of a text as they stand in it.
pub open spec fn cashtag_matches(text: Seq<char>) -> Seq<Seq<char>> {
    match_texts(CASHTAG_PATTERN@, text)
}

/// The hashtags of a text as they stand in it.
pub open spec fn hashtag_matches(text: Seq<char>) -> Seq<Seq<char>> {
    match_texts(HASHTAG_PATTERN@, text)
}

/// The texts of the matches of a pattern in a text.
fn find_texts(pattern: &str, input: &str) -> (r: Vec<String>)
    ensures
        views(r@) == match_texts(pattern@, input@),
{
    let mut out: Vec<String> = Vec::new();
    let found = match find_matches(pattern, input) {
        Some(found) => found,
        None => {
            assert(views(out@) =~= match_texts(pattern@, input@));
            return out;
        },
    };
    let ghost all = match_texts(pattern@, input@);
    let mut i: usize = 0;
    assert(views(out@) =~= all.take(0));
    while i < found.len()
        invariant
            i <= found.len(),
            pattern_compiles(pattern@),
            spans_of(found@) == pattern_match_spans(pattern@, input@),
            texts_match(found@, input@),
            all == match_texts(pattern@, input@),
            views(out@) == all.take(i as int),
        decreases found.len() - i,
    {
        assert(spans_of(found@)[i as int] == (found@[i as int].start, found@[i as int].end));
        let ghost before = views(out@);
        out.push(found[i].text.clone());
        assert(views(out@) =~= before.push(all[i as int]));
        assert(all.take(i + 1) =~= all.take(i as int).push(all[i as int]));
        i += 1;
    }
    assert(all.take(all.len() as int) =~= all);
    out
}

/// A match without its first character, the sign of the tag.
pub open spec fn symbol_of(m: Seq<char>) -> Seq<char> {
    if m.len() > 0 {
        m.skip(1)
    } else {
        m
    }
}

/// The symbols of the cashtags of a text, in upper case and in the order
/// of the text.
pub open spec fn cashtag_symbols(text: Seq<char>) -> Seq<Seq<char>> {
    cashtag_matches(text).map_values(|m: Seq<char>| uppered(symbol_of(m)))
}

/// The symbols of the hashtags of a text, in lower case and in the order
/// of the text.
pub open spec fn hashtag_symbols(text: Seq<char>) -> Seq<Seq<char>> {
    hashtag_matches(text).map_values(|m: Seq<char>| lowered(symbol_of(m)))
}

fn symbol(m: &str) -> (r: Vec<char>)
    ensures
        r@ == symbol_of(m@),
{
    let chars = chars_of(m);
    let mut out: Vec<char> = Vec::new();
    let mut i: usize = 1;
    if chars.len() == 0 {
        return out;
    }
    while i < chars.len()
        invariant
            1 <= i <= chars.len(),
            out@ == chars@.subrange(1, i as int),
        decreases chars.len() - i,
    {
        out.push(chars[i]);
        assert(out@ =~= chars@.subrange(1, i + 1));
        i += 1;
    }
    assert(chars@.subrange(1, chars@.len() as int) =~= chars@.skip(1));
    out
}

/// Extracts cashtags like `$DJI`, a dollar sign and one to five letters.
/// Returns the distinct symbols in upper case, without the sign, sorted.
pub fn parse_cashtags(input: &str) -> (tags: Vec<String>)
    ensures
        strictly_sorted(views(tags@)),
        views(tags@).to_set() == cashtag_symbols(input@).to_set(),
{
    let found = find_texts(CASHTAG_PATTERN, input);
    let mut tags: Vec<String> = Vec::new();
    let mut i: usize = 0;
    let ghost all = cashtag_symbols(input@);
    while i < found.len()
        invariant
            i <= found.len(),
            views(found@) == cashtag_matches(input@),
            all == cashtag_symbols(input@),
            views(tags@) == all.take(i as int),
        decreases found.len() - i,
    {
        assert(views(found@)[i as int] == found@[i as int]@);
        let ghost before = views(tags@);
        tags.push(string_of(&upper_chars(&symbol(found[i].as_str()))));
        assert(views(tags@) =~= before.push(all[i as int]));
        assert(all.take(i + 1) =~= all.take(i as int).push(all[i as int]));
        i += 1;
    }
    assert(all.take(all.len() as int) =~= all);
    sort_dedup(tags)
}

/// Extracts hashtags like `#DJIA`, a hash sign and letters, digits or
/// underscores. Returns the distinct tags in lower case, without the
/// sign, sorted.
pub fn parse_hashtags(input: &str) -> (tags: Vec<String>)
    ensures
        strictly_sorted(views(tags@)),
        views(tags@).to_set() == hashtag_symbols(input@).to_set(),
{
    let found = find_texts(HASHTAG_PATTERN, input);
    let mut tags: Vec<String> = Vec::new();
    let mut i: usize = 0;
    let ghost all = hashtag_symbols(input@);
    while i < found.len()
        invariant
            i <= found.len(),
            views(found@) == hashtag_matches(input@),
            all == hashtag_symbols(input@),
            views(tags@) == all.take(i as int),
        decreases found.len() - i,
    {
        assert(views(found@)[i as int] == found@[i as int]@);
        let ghost before = views(tags@);
        tags.push(string_of(&lower_chars(&symbol(found[i].as_str()))));
        assert(views(tags@) =~= before.push(all[i as int]));
        assert(all.take(i + 1) =~= all.take(i as int).push(all[i as int]));
        i += 1;
    }
    assert(all.take(all.len() as int) =~= all);
    sort_dedup(tags)
}

/// The first `max` entries of a list, or all if there are fewer: a short
/// form for logs.
pub fn truncate_vec(v: &Vec<String>, max: usize) -> (r: Vec<String>)
    ensures
        r@ == if v@.len() > max {
            v@.take(max as int)
        } else {
            v@
        },
{
    let n = if v.len() > max {
        max
    } else {
        v.len()
    };
    let mut r: Vec<String> = Vec::new();
    let mut i: usize = 0;
    while i < n
        invariant
            i <= n <= v.len(),
            r@ == v@.take(i as int),
        decreases n - i,
    {
        r.push(v[i].clone());
        assert(v@.take(i + 1) =~= v@.take(i as int).push(v@[i as int]));
        i += 1;
    }
    assert(v@.take(v@.len() as int) =~= v@);
    r
}

} // verus!
