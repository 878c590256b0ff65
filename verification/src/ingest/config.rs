//! The whitelist of sources, from TOML or JSON text.

use crate::text::{
    chars_of, contains_chars, occurs_in, sort_dedup, str_eq, strictly_sorted, string_of,
    trim_chars, trimmed, views,
};
use vstd::prelude::*;

verus! {

/// The environment variable that names the whitelist file.
pub const ENV_PATH: &'static str = "INGEST_WHITELIST_PATH";

/// The list of strings that `toml::from_str` and `Value::try_into` read
/// under `key` from a TOML document, `None` where the document does not
/// parse, has no such key, or holds something else than a list of
/// strings under it.
pub uninterp spec fn toml_string_list_at(text: Seq<char>, key: Seq<char>) -> Option<Seq<Seq<char>>>;

/// The list of strings that `serde_json::from_str` reads from a JSON
/// text, `None` where the text is no JSON array of strings.
pub uninterp spec fn json_string_list_of(text: Seq<char>) -> Option<Seq<Seq<char>>>;

/// The views of an optional list of strings.
pub open spec fn option_views(v: Option<Vec<String>>) -> Option<Seq<Seq<char>>> {
    match v {
        Some(items) => Some(views(items@)),
        None => None,
    }
}

/// Parses `s` as a TOML table with `toml::from_str`, and reads the value
/// under `key` as a list of strings with `Value::try_into`.
#[verifier::external_body]
fn toml_string_list(s: &str, key: &str) -> (r: Option<Vec<String>>)
    ensures
        option_views(r) == toml_string_list_at(s@, key@),
{
    let table: toml::Table = toml::from_str(s).ok()?;
    table.get(key)?.clone().try_into::<Vec<String>>().ok()
}

/// Parses `s` as a JSON array of strings with `serde_json::from_str`.
#[verifier::external_body]
fn json_string_list(s: &str) -> (r: Option<Vec<String>>)
    ensures
        option_views(r) == json_string_list_of(s@),
{
    serde_json::from_str::<Vec<String>>(s).ok()
}

/// The entries of a list, trimmed, without those that are empty then.
pub open spec fn cleaned(items: Seq<Seq<char>>) -> Seq<Seq<char>> {
    items.map_values(|s: Seq<char>| trimmed(s)).filter(|s: Seq<char>| s.len() > 0)
}

/// A list is the clean form of another: its entries are those of the
/// other, trimmed, without the empty ones, sorted and without repeats.
pub open spec fn is_clean_list(out: Seq<Seq<char>>, items: Seq<Seq<char>>) -> bool {
    strictly_sorted(out) && out.to_set() == cleaned(items).to_set()
}

/// Trims the entries, drops the empty ones, and returns what is left
/// sorted and without repeats.
pub fn clean_list(items: Vec<String>) -> (r: Vec<String>)
    ensures
        is_clean_list(views(r@), views(items@)),
{
    let mut kept: Vec<String> = Vec::new();
    let mut i: usize = 0;
    let ghost all = views(items@);
    proof {
        reveal(Seq::filter);
        assert(views(kept@) =~= cleaned(all.take(0)));
    }
    while i < items.len()
        invariant
            i <= items.len(),
            all == views(items@),
            views(kept@) == cleaned(all.take(i as int)),
        decreases items.len() - i,
    {
        let t = trim_chars(&chars_of(items[i].as_str()));
        proof {
            reveal(Seq::filter);
            let f = |s: Seq<char>| trimmed(s);
            assert(all.take(i + 1).map_values(f).drop_last() =~= all.take(i as int).map_values(f));
            assert(all.take(i + 1).map_values(f).last() == trimmed(all[i as int]));
        }
        if t.len() > 0 {
            let ghost before = views(kept@);
            kept.push(string_of(&t));
            assert(views(kept@) =~= before.push(t@));
        }
        i += 1;
    }
    assert(all.take(all.len() as int) =~= all);
    sort_dedup(kept)
}

/// TOML is tried first: the file is named `.toml`, or the text holds the
/// word `sources`.
pub open spec fn toml_first(s: Seq<char>, hint_ext: Seq<char>) -> bool {
    hint_ext == "toml"@ || occurs_in(s, "sources"@)
}

/// The raw list that a whitelist text holds: that of the format that is
/// tried first if it parses, else that of the other, else none.
pub open spec fn raw_whitelist(s: Seq<char>, hint_ext: Seq<char>) -> Option<Seq<Seq<char>>> {
    let toml = toml_string_list_at(s, "sources"@);
    let json = json_string_list_of(s);
    if toml_first(s, hint_ext) {
        if toml is Some {
            toml
        } else {
            json
        }
    } else {
        if json is Some {
            json
        } else {
            toml
        }
    }
}

/// Reads a whitelist from TOML, a table with the list `sources`, or from
/// JSON, an array of strings. `hint_ext` is the extension of the file in
/// lower case. Returns the clean list, or `None` if the text is neither.
pub fn parse_whitelist(s: &str, hint_ext: &str) -> (r: Option<Vec<String>>)
    ensures
        r is Some == raw_whitelist(s@, hint_ext@) is Some,
        r matches Some(list) ==> is_clean_list(views(list@), raw_whitelist(s@, hint_ext@)->0),
{
    let try_toml = str_eq(hint_ext, "toml") || contains_chars(&chars_of(s), &chars_of("sources"));
    if try_toml {
        match parse_toml(s) {
            Some(v) => {
                return Some(v);
            },
            None => {},
        }
    }
    match parse_json(s) {
        Some(v) => {
            return Some(v);
        },
        None => {},
    }
    if !try_toml {
        match parse_toml(s) {
            Some(v) => {
                return Some(v);
            },
            None => {},
        }
    }
    None
}

/// Reads a whitelist from a TOML table with the list `sources`.
pub fn parse_toml(s: &str) -> (r: Option<Vec<String>>)
    ensures
        r is Some == toml_string_list_at(s@, "sources"@) is Some,
        r matches Some(list) ==> is_clean_list(
            views(list@),
            toml_string_list_at(s@, "sources"@)->0,
        ),
{
    match toml_string_list(s, "sources") {
        Some(v) => Some(clean_list(v)),
        None => None,
    }
}

/// Reads a whitelist from a JSON array of strings.
pub fn parse_json(s: &str) -> (r: Option<Vec<String>>)
    ensures
        r is Some == json_string_list_of(s@) is Some,
        r matches Some(list) ==> is_clean_list(views(list@), json_string_list_of(s@)->0),
{
    match json_string_list(s) {
        Some(v) => Some(clean_list(v)),
        None => None,
    }
}

} // verus!
