//! Regular expressions: compiled once, then asked for the byte offsets
//! at which they match a text.

use regex::Regex;
use vstd::prelude::*;
use vstd::string::StringSliceAdditionalSpecFns;
use vstd::utf8::{decode_utf8, encode_utf8, encode_utf8_decode_utf8};

verus! {

/// `regex::Regex`, carried through the engine as an opaque value.
#[verifier::external_type_specification]
#[verifier::external_body]
pub struct ExRegex(Regex);

/// `regex::Error`, what a pattern that does not compile comes back with.
#[verifier::external_type_specification]
#[verifier::external_body]
pub struct ExRegexError(regex::Error);

/// Whether `Regex::new` accepts `pattern`.
pub uninterp spec fn pattern_compiles(pattern: Seq<char>) -> bool;

/// The pattern that a regex was compiled from: what `Regex::as_str`
/// returns.
pub uninterp spec fn regex_source(re: Regex) -> Seq<char>;

/// The start offsets that `Regex::find_iter` yields for `re` on `text`,
/// in the order in which it yields them.
pub uninterp spec fn regex_match_starts(re: Regex, text: Seq<char>) -> Seq<usize>;

/// Calls `Regex::new`. It returns `Ok` exactly for the patterns that the
/// regex crate accepts, and the regex it returns remembers the pattern.
/// Nothing is claimed of the error value.
#[verifier::external_body]
pub(crate) fn compile_regex(pattern: &str) -> (r: Result<Regex, regex::Error>)
    ensures
        r.is_ok() == pattern_compiles(pattern@),
        r matches Ok(re) ==> regex_source(re) == pattern@,
{
    Regex::new(pattern)
}

/// Writes out a `regex::Error` through its `Display` impl. Nothing is
/// claimed of the text.
#[verifier::external_body]
pub(crate) fn regex_error_text(e: &regex::Error) -> (r: String) {
    format!("{}", e)
}

/// One match of a pattern: its byte span and the text that matched.
pub struct MatchSpan {
    pub start: usize,
    pub end: usize,
    pub text: String,
}

/// The byte spans `(start, end)` of the matches that `Regex::find_iter`
/// yields on `text` for the regex that `Regex::new` compiles from
/// `pattern`, in order.
pub uninterp spec fn pattern_match_spans(pattern: Seq<char>, text: Seq<char>) -> Seq<(usize, usize)>;

/// The text that `Regex::replace_all` makes of `text` when it replaces
/// every match of the regex that `Regex::new` compiles from `pattern` by
/// `with`.
pub uninterp spec fn pattern_replaced(pattern: Seq<char>, text: Seq<char>, with: Seq<char>) -> Seq<
    char,
>;

/// Spans lie inside a text of `len` bytes, each with `start <= end`, and
/// follow one another without overlap.
pub open spec fn spans_in_order(spans: Seq<(usize, usize)>, len: nat) -> bool {
    &&& forall|i: int| 0 <= i < spans.len() ==> (#[trigger] spans[i]).0 <= spans[i].1 <= len
    &&& forall|i: int, j: int|
        0 <= i < j < spans.len() ==> (#[trigger] spans[i]).1 <= (#[trigger] spans[j]).0
}

/// The spans of a list of matches.
pub open spec fn spans_of(matches: Seq<MatchSpan>) -> Seq<(usize, usize)> {
    Seq::new(matches.len(), |i: int| (matches[i].start, matches[i].end))
}

/// The text of a span: what the bytes of the text between its two
/// offsets spell.
pub open spec fn span_text(text: Seq<char>, span: (usize, usize)) -> Seq<char> {
    decode_utf8(encode_utf8(text).subrange(span.0 as int, span.1 as int))
}

/// Every match holds the text of its span.
pub open spec fn texts_match(matches: Seq<MatchSpan>, text: Seq<char>) -> bool {
    forall|i: int|
        0 <= i < matches.len() ==> (#[trigger] matches[i]).text@ == span_text(
            text,
            (matches[i].start, matches[i].end),
        )
}

/// Compiles `pattern` with `Regex::new` and walks `text` with
/// `Regex::find_iter`; `None` if the pattern does not compile. The
/// contract claims what the regex crate documents of its matches: they
/// come in order and do not overlap, each has `start <= end` within the
/// haystack, and `Match::as_str` is the haystack between the two offsets.
#[verifier::external_body]
fn find_iter_matches(pattern: &str, text: &str) -> (r: Option<Vec<MatchSpan>>)
    ensures
        r is Some == pattern_compiles(pattern@),
        r matches Some(v) ==> spans_of(v@) == pattern_match_spans(pattern@, text@),
        r matches Some(v) ==> spans_in_order(spans_of(v@), text.spec_bytes().len()),
        r matches Some(v) ==> forall|i: int|
            0 <= i < v@.len() ==> encode_utf8((#[trigger] v@[i]).text@)
                == text.spec_bytes().subrange(v@[i].start as int, v@[i].end as int),
{
    let re = Regex::new(pattern).ok()?;
    Some(
        re.find_iter(text).map(
            |m| MatchSpan { start: m.start(), end: m.end(), text: m.as_str().to_string() },
        ).collect(),
    )
}

/// The matches of a pattern in a text, `None` if the pattern does not
/// compile.
pub fn find_matches(pattern: &str, text: &str) -> (r: Option<Vec<MatchSpan>>)
    ensures
        r is Some == pattern_compiles(pattern@),
        r matches Some(v) ==> spans_of(v@) == pattern_match_spans(pattern@, text@),
        r matches Some(v) ==> spans_in_order(spans_of(v@), text.spec_bytes().len()),
        r matches Some(v) ==> texts_match(v@, text@),
{
    let r = find_iter_matches(pattern, text);
    proof {
        if r is Some {
            let v = r->0;
            assert forall|i: int| 0 <= i < v@.len() implies (#[trigger] v@[i]).text@ == span_text(
                text@,
                (v@[i].start, v@[i].end),
            ) by {
                encode_utf8_decode_utf8(v@[i].text@);
            }
        }
    }
    r
}

/// Compiles `pattern` with `Regex::new` and replaces every match in
/// `text` by `with` through `Regex::replace_all`; `None` if the pattern
/// does not compile.
#[verifier::external_body]
pub(crate) fn replace_matches(pattern: &str, text: &str, with: &str) -> (r: Option<String>)
    ensures
        r is Some == pattern_compiles(pattern@),
        r matches Some(s) ==> s@ == pattern_replaced(pattern@, text@, with@),
{
    let re = Regex::new(pattern).ok()?;
    Some(re.replace_all(text, with).to_string())
}

/// Calls `Regex::find_iter` and keeps the start offset of each match.
#[verifier::external_body]
pub(crate) fn match_starts(re: &Regex, text: &str) -> (r: Vec<usize>)
    ensures
        r@ == regex_match_starts(*re, text@),
{
    re.find_iter(text).map(|m| m.start()).collect()
}

} // verus!
