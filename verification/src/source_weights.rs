//! Mapping from information sources to trust weights between 0 and 1,
//! kept in thousandths.
//!
//! A lookup ignores case, punctuation and dashes. It goes through the
//! aliases first, then looks for the exact name, then for a known name
//! inside the given one, and falls back to the default weight.

use crate::ingest::{fold_spaces_of, spaces_folded};
use crate::text::{
    chars_of, contains_chars, lower_char, occurs_in, str_eq, string_of, to_lower_char, trim_chars,
    trimmed,
};
use vstd::prelude::*;
use vstd::string::StringExecFns;

verus! {

/// The weight 1, in thousandths.
pub const WEIGHT_ONE: u32 = 1_000;

/// The default weight when the configuration gives none: 0.60.
pub const DEFAULT_WEIGHT: u32 = 600;

/// The weight of one canonical source name, in thousandths.
#[derive(Debug, Clone)]
pub struct SourceWeight {
    pub name: String,
    pub weight: u32,
}

/// A name that stands for a canonical source name.
#[derive(Debug, Clone)]
pub struct SourceAlias {
    pub alias: String,
    pub canonical: String,
}

/// Configuration of the source weights.
#[derive(Debug, Clone)]
pub struct SourceWeightsConfig {
    /// The weight of a source that is not found.
    pub default_weight: u32,
    /// The weights of the canonical names.
    pub weights: Vec<SourceWeight>,
    /// The aliases of the canonical names.
    pub aliases: Vec<SourceAlias>,
}

/// A separator or piece of punctuation as a space, any other character
/// as itself.
pub open spec fn separator_as_space(c: char) -> char {
    if c == '\u{2014}' || c == '\u{2013}' || c == '-' || c == '_' || c == '/' || c == '\\' || c
        == '\n' || c == '\r' || c == '\t' || c == '.' || c == ',' || c == '\u{201A}' || c
        == '\u{2019}' || c == '\'' {
        ' '
    } else {
        c
    }
}

/// The key of a source name: lower case, separators and punctuation as
/// spaces, runs of whitespace folded into one space, the ends trimmed.
pub open spec fn source_key(s: Seq<char>) -> Seq<char> {
    trimmed(spaces_folded(s.map_values(|c: char| separator_as_space(lower_char(c)))))
}

/// A weight clamped to the range from 0 to 1.
pub open spec fn clamp01(w: u32) -> u32 {
    if w > WEIGHT_ONE {
        WEIGHT_ONE
    } else {
        w
    }
}

/// The weight of the first entry of that name, from entry `i` on.
pub open spec fn weight_of_from(weights: Seq<SourceWeight>, name: Seq<char>, i: int) -> Option<u32>
    decreases weights.len() - i,
{
    if i < 0 || i >= weights.len() {
        None
    } else if weights[i].name@ == name {
        Some(weights[i].weight)
    } else {
        weight_of_from(weights, name, i + 1)
    }
}

/// The canonical name of the first alias of that name, from entry `i`
/// on.
pub open spec fn canonical_of_from(aliases: Seq<SourceAlias>, name: Seq<char>, i: int) -> Option<
    Seq<char>,
>
    decreases aliases.len() - i,
{
    if i < 0 || i >= aliases.len() {
        None
    } else if aliases[i].alias@ == name {
        Some(aliases[i].canonical@)
    } else {
        canonical_of_from(aliases, name, i + 1)
    }
}

/// The weight of the first entry whose name stands inside the given
/// one, from entry `i` on.
pub open spec fn weight_inside_from(weights: Seq<SourceWeight>, name: Seq<char>, i: int) -> Option<
    u32,
>
    decreases weights.len() - i,
{
    if i < 0 || i >= weights.len() {
        None
    } else if occurs_in(name, weights[i].name@) {
        Some(weights[i].weight)
    } else {
        weight_inside_from(weights, name, i + 1)
    }
}

/// The weight that an alias leads to: that of its canonical name, if the
/// name is an alias and the canonical name has a weight.
pub open spec fn weight_by_alias(cfg: SourceWeightsConfig, key: Seq<char>) -> Option<u32> {
    match canonical_of_from(cfg.aliases@, key, 0) {
        Some(canon) => weight_of_from(cfg.weights@, source_key(canon), 0),
        None => None,
    }
}

/// The weight of a source: by alias, else by its exact name, else by a
/// known name that stands inside it, else the default; clamped.
pub open spec fn weight_of(cfg: SourceWeightsConfig, source: Seq<char>) -> u32 {
    let key = source_key(source);
    if weight_by_alias(cfg, key) is Some {
        clamp01(weight_by_alias(cfg, key)->0)
    } else if weight_of_from(cfg.weights@, key, 0) is Some {
        clamp01(weight_of_from(cfg.weights@, key, 0)->0)
    } else if weight_inside_from(cfg.weights@, key, 0) is Some {
        clamp01(weight_inside_from(cfg.weights@, key, 0)->0)
    } else {
        clamp01(cfg.default_weight)
    }
}

/// Normalizes a source name to its key.
pub fn normalize(s: &str) -> (r: Vec<char>)
    ensures
        r@ == source_key(s@),
{
    let chars = chars_of(s);
    let mut mapped: Vec<char> = Vec::new();
    let mut i: usize = 0;
    while i < chars.len()
        invariant
            i <= chars.len(),
            chars@ == s@,
            mapped@ == s@.take(i as int).map_values(|c: char| separator_as_space(lower_char(c))),
        decreases chars.len() - i,
    {
        let c = to_lower_char(chars[i]);
        let m = if c == '\u{2014}' || c == '\u{2013}' || c == '-' || c == '_' || c == '/' || c
            == '\\' || c == '\n' || c == '\r' || c == '\t' || c == '.' || c == ',' || c
            == '\u{201A}' || c == '\u{2019}' || c == '\'' {
            ' '
        } else {
            c
        };
        mapped.push(m);
        assert(mapped@ =~= s@.take(i + 1).map_values(
            |c: char| separator_as_space(lower_char(c)),
        ));
        i += 1;
    }
    assert(s@.take(s@.len() as int) =~= s@);
    trim_chars(&fold_spaces_of(&mapped))
}

fn clamp(w: u32) -> (r: u32)
    ensures
        r == clamp01(w),
{
    if w > WEIGHT_ONE {
        WEIGHT_ONE
    } else {
        w
    }
}

impl SourceWeightsConfig {
    fn exact(&self, key: &Vec<char>) -> (r: Option<u32>)
        ensures
            r == weight_of_from(self.weights@, key@, 0),
    {
        let name = string_of(key);
        let mut i: usize = 0;
        while i < self.weights.len()
            invariant
                i <= self.weights.len(),
                name@ == key@,
                weight_of_from(self.weights@, key@, 0) == weight_of_from(
                    self.weights@,
                    key@,
                    i as int,
                ),
            decreases self.weights.len() - i,
        {
            if str_eq(self.weights[i].name.as_str(), name.as_str()) {
                return Some(self.weights[i].weight);
            }
            i += 1;
        }
        None
    }

    fn canonical(&self, key: &Vec<char>) -> (r: Option<usize>)
        ensures
            match r {
                Some(at) => at < self.aliases@.len() && canonical_of_from(
                    self.aliases@,
                    key@,
                    0,
                ) == Some(self.aliases@[at as int].canonical@),
                None => canonical_of_from(self.aliases@, key@, 0) is None,
            },
    {
        let name = string_of(key);
        let mut i: usize = 0;
        while i < self.aliases.len()
            invariant
                i <= self.aliases.len(),
                name@ == key@,
                canonical_of_from(self.aliases@, key@, 0) == canonical_of_from(
                    self.aliases@,
                    key@,
                    i as int,
                ),
            decreases self.aliases.len() - i,
        {
            if str_eq(self.aliases[i].alias.as_str(), name.as_str()) {
                return Some(i);
            }
            i += 1;
        }
        None
    }

    fn inside(&self, key: &Vec<char>) -> (r: Option<u32>)
        ensures
            r == weight_inside_from(self.weights@, key@, 0),
    {
        let mut i: usize = 0;
        while i < self.weights.len()
            invariant
                i <= self.weights.len(),
                weight_inside_from(self.weights@, key@, 0) == weight_inside_from(
                    self.weights@,
                    key@,
                    i as int,
                ),
            decreases self.weights.len() - i,
        {
            let known = chars_of(self.weights[i].name.as_str());
            if contains_chars(key, &known) {
                return Some(self.weights[i].weight);
            }
            i += 1;
        }
        None
    }

    /// Gets the weight for a given source name, in thousandths: by alias,
    /// by exact name, by a known name inside the given one, or the
    /// default.
    pub fn weight_for(&self, source: &str) -> (r: u32)
        ensures
            r == weight_of(*self, source@),
            r <= WEIGHT_ONE,
    {
        let s = normalize(source);
        match self.canonical(&s) {
            Some(at) => {
                let c = normalize(self.aliases[at].canonical.as_str());
                match self.exact(&c) {
                    Some(w) => {
                        return clamp(w);
                    },
                    None => {},
                }
            },
            None => {},
        }
        match self.exact(&s) {
            Some(w) => {
                return clamp(w);
            },
            None => {},
        }
        match self.inside(&s) {
            Some(w) => {
                return clamp(w);
            },
            None => {},
        }
        clamp(self.default_weight)
    }
}

/// The weights of the built-in seed: common political, financial and
/// technology sources, as name and weight in thousandths.
pub open spec fn seed_weights() -> Seq<(Seq<char>, u32)> {
    seq![
        ("trump"@, 980u32),
        ("biden"@, 950u32),
        ("powell"@, 970u32),
        ("fed"@, 950u32),
        ("fomc"@, 950u32),
        ("yellen"@, 930u32),
        ("musk"@, 970u32),
        ("xi"@, 950u32),
        ("wsj"@, 900u32),
        ("wall street journal"@, 900u32),
        ("reuters"@, 850u32),
        ("bloomberg"@, 850u32),
        ("financial times"@, 900u32),
        ("new york times"@, 880u32),
        ("apple"@, 900u32),
        ("microsoft"@, 900u32),
        ("alphabet"@, 880u32),
        ("google"@, 880u32),
        ("meta"@, 880u32),
        ("facebook"@, 880u32),
        ("jamie dimon"@, 900u32),
        ("jpmorgan"@, 880u32),
        ("blackrock"@, 860u32),
        ("goldman sachs"@, 860u32),
        ("vanguard"@, 840u32),
        ("ecb"@, 860u32),
        ("boe"@, 840u32),
    ]
}

/// The aliases of the built-in seed, as alias and canonical name.
pub open spec fn seed_aliases() -> Seq<(Seq<char>, Seq<char>)> {
    seq![
        ("@realdonaldtrump"@, "trump"@),
        ("president"@, "biden"@),
        ("potus"@, "biden"@),
        ("jerome powell"@, "powell"@),
        ("federal reserve"@, "fed"@),
        ("janet yellen"@, "yellen"@),
        ("u.s. treasury"@, "yellen"@),
        ("treasury"@, "yellen"@),
        ("elon"@, "musk"@),
        ("@elonmusk"@, "musk"@),
        ("xi jinping"@, "xi"@),
        ("xijinping"@, "xi"@),
        ("the wall street journal"@, "wall street journal"@),
        ("wsj.com"@, "wsj"@),
        ("ft"@, "financial times"@),
        ("nytimes"@, "new york times"@),
        ("nyt"@, "new york times"@),
        ("google inc"@, "google"@),
        ("alphabet inc"@, "alphabet"@),
        ("meta platforms"@, "meta"@),
        ("facebook inc"@, "facebook"@),
        ("jp morgan"@, "jpmorgan"@),
        ("j.p. morgan"@, "jpmorgan"@),
        ("gs"@, "goldman sachs"@),
        ("european central bank"@, "ecb"@),
        ("bank of england"@, "boe"@),
    ]
}

/// The weights of a configuration as plain values.
pub open spec fn weight_pairs(weights: Seq<SourceWeight>) -> Seq<(Seq<char>, u32)> {
    weights.map_values(|w: SourceWeight| (w.name@, w.weight))
}

/// The aliases of a configuration as plain values.
pub open spec fn alias_pairs(aliases: Seq<SourceAlias>) -> Seq<(Seq<char>, Seq<char>)> {
    aliases.map_values(|a: SourceAlias| (a.alias@, a.canonical@))
}

fn weight_entry(name: &str, weight: u32) -> (r: SourceWeight)
    ensures
        r.name@ == name@,
        r.weight == weight,
{
    SourceWeight { name: String::from_str(name), weight }
}

fn alias_entry(alias: &str, canonical: &str) -> (r: SourceAlias)
    ensures
        r.alias@ == alias@,
        r.canonical@ == canonical@,
{
    SourceAlias { alias: String::from_str(alias), canonical: String::from_str(canonical) }
}

impl SourceWeightsConfig {
    /// Built-in seed with common political, financial and technology
    /// sources: what is used when no configuration is found.
    pub fn default_seed() -> (cfg: SourceWeightsConfig)
        ensures
            cfg.default_weight == DEFAULT_WEIGHT,
            weight_pairs(cfg.weights@) == seed_weights(),
            alias_pairs(cfg.aliases@) == seed_aliases(),
    {
        let mut weights: Vec<SourceWeight> = Vec::new();
        weights.push(weight_entry("trump", 980));
        weights.push(weight_entry("biden", 950));
        weights.push(weight_entry("powell", 970));
        weights.push(weight_entry("fed", 950));
        weights.push(weight_entry("fomc", 950));
        weights.push(weight_entry("yellen", 930));
        weights.push(weight_entry("musk", 970));
        weights.push(weight_entry("xi", 950));
        weights.push(weight_entry("wsj", 900));
        weights.push(weight_entry("wall street journal", 900));
        weights.push(weight_entry("reuters", 850));
        weights.push(weight_entry("bloomberg", 850));
        weights.push(weight_entry("financial times", 900));
        weights.push(weight_entry("new york times", 880));
        weights.push(weight_entry("apple", 900));
        weights.push(weight_entry("microsoft", 900));
        weights.push(weight_entry("alphabet", 880));
        weights.push(weight_entry("google", 880));
        weights.push(weight_entry("meta", 880));
        weights.push(weight_entry("facebook", 880));
        weights.push(weight_entry("jamie dimon", 900));
        weights.push(weight_entry("jpmorgan", 880));
        weights.push(weight_entry("blackrock", 860));
        weights.push(weight_entry("goldman sachs", 860));
        weights.push(weight_entry("vanguard", 840));
        weights.push(weight_entry("ecb", 860));
        weights.push(weight_entry("boe", 840));
        let mut aliases: Vec<SourceAlias> = Vec::new();
        aliases.push(alias_entry("@realdonaldtrump", "trump"));
        aliases.push(alias_entry("president", "biden"));
        aliases.push(alias_entry("potus", "biden"));
        aliases.push(alias_entry("jerome powell", "powell"));
        aliases.push(alias_entry("federal reserve", "fed"));
        aliases.push(alias_entry("janet yellen", "yellen"));
        aliases.push(alias_entry("u.s. treasury", "yellen"));
        aliases.push(alias_entry("treasury", "yellen"));
        aliases.push(alias_entry("elon", "musk"));
        aliases.push(alias_entry("@elonmusk", "musk"));
        aliases.push(alias_entry("xi jinping", "xi"));
        aliases.push(alias_entry("xijinping", "xi"));
        aliases.push(alias_entry("the wall street journal", "wall street journal"));
        aliases.push(alias_entry("wsj.com", "wsj"));
        aliases.push(alias_entry("ft", "financial times"));
        aliases.push(alias_entry("nytimes", "new york times"));
        aliases.push(alias_entry("nyt", "new york times"));
        aliases.push(alias_entry("google inc", "google"));
        aliases.push(alias_entry("alphabet inc", "alphabet"));
        aliases.push(alias_entry("meta platforms", "meta"));
        aliases.push(alias_entry("facebook inc", "facebook"));
        aliases.push(alias_entry("jp morgan", "jpmorgan"));
        aliases.push(alias_entry("j.p. morgan", "jpmorgan"));
        aliases.push(alias_entry("gs", "goldman sachs"));
        aliases.push(alias_entry("european central bank", "ecb"));
        aliases.push(alias_entry("bank of england", "boe"));
        assert(weight_pairs(weights@) =~= seed_weights());
        assert(alias_pairs(aliases@) =~= seed_aliases());
        SourceWeightsConfig { default_weight: DEFAULT_WEIGHT, weights, aliases }
    }

    /// The configuration that was loaded, or the seed where none could
    /// be read or parsed.
    pub fn loaded_or_seed(loaded: Option<SourceWeightsConfig>) -> (cfg: SourceWeightsConfig)
        ensures
            loaded matches Some(c) ==> cfg == c,
            loaded is None ==> cfg.default_weight == DEFAULT_WEIGHT && weight_pairs(cfg.weights@)
                == seed_weights() && alias_pairs(cfg.aliases@) == seed_aliases(),
    {
        match loaded {
            Some(c) => c,
            None => Self::default_seed(),
        }
    }
}

} // verus!
