//! The declarative configuration of the engine: anchors, blockers,
//! combos, aliases, category weights and the threshold.

use vstd::prelude::*;

verus! {

/// One million: the denominator of a `Threshold`.
pub const MILLION: u32 = 1_000_000;

/// The threshold that is used when a configuration gives none that can
/// be read as a number: one half.
pub const DEFAULT_RELEVANCE_THRESHOLD: u32 = 500_000;

/// Where the configuration is looked for when nothing else is said.
pub const DEFAULT_RELEVANCE_CONFIG_PATH: &'static str = "config/relevance.toml";

/// The environment variable that names the configuration file.
pub const ENV_RELEVANCE_CONFIG_PATH: &'static str = "RELEVANCE_CONFIG_PATH";

/// The environment variable that overrides the threshold.
pub const ENV_RELEVANCE_THRESHOLD: &'static str = "RELEVANCE_THRESHOLD";

/// The tag that marks an anchor as naming a single company.
pub const SINGLE_STOCK_TAG: &'static str = "single_stock_only";

/// A threshold as a fixed-point number: `millionths / 1_000_000`.
#[derive(Debug, Clone, Copy, PartialEq, Eq, Structural)]
pub struct Threshold {
    pub millionths: u32,
}

impl Threshold {
    /// The threshold one half.
    pub fn default_value() -> (t: Threshold)
        ensures
            t.millionths == DEFAULT_RELEVANCE_THRESHOLD,
    {
        Threshold { millionths: DEFAULT_RELEVANCE_THRESHOLD }
    }

    /// An override of the threshold, given in millionths and clamped to
    /// the range from 0 to 1: a negative value becomes 0, a value above
    /// one million becomes 1.
    pub fn clamped(millionths: i64) -> (t: Threshold)
        ensures
            t.millionths == if millionths < 0 {
                0
            } else if millionths > MILLION {
                MILLION as int
            } else {
                millionths as int
            },
            t.millionths <= MILLION,
    {
        if millionths < 0 {
            Threshold { millionths: 0 }
        } else if millionths > MILLION as i64 {
            Threshold { millionths: MILLION }
        } else {
            Threshold { millionths: millionths as u32 }
        }
    }
}

/// Proximity requirement: a match qualifies only if some match of
/// `pattern` lies within `window` tokens of it, in either direction.
#[derive(Debug, Clone)]
pub struct NearCfg {
    pub pattern: String,
    pub window: usize,
}

/// One thing that can indicate relevance.
#[derive(Debug, Clone)]
pub struct AnchorCfg {
    pub id: String,
    pub category: String,
    pub pattern: String,
    pub near: Option<NearCfg>,
    pub tag: Option<String>,
}

/// A hard veto, with an optional exception.
#[derive(Debug, Clone)]
pub struct BlockerCfg {
    pub id: String,
    pub pattern: String,
    pub reason: String,
    pub action: String,
    pub near: Option<NearCfg>,
    pub unless_near: Option<NearCfg>,
}

/// One recipe: the categories or aliases whose slots must all be filled.
#[derive(Debug, Clone)]
pub struct ComboNeed {
    pub need: Vec<String>,
}

/// The recipes, of which one must be satisfied.
#[derive(Debug, Clone)]
pub struct ComboCfg {
    pub pass_any: Vec<ComboNeed>,
}

/// The weight of one category in the score.
#[derive(Debug, Clone)]
pub struct CategoryWeight {
    pub category: String,
    pub weight: u32,
}

/// A name that stands for a list of concrete categories inside combos.
#[derive(Debug, Clone)]
pub struct AliasCfg {
    pub name: String,
    pub categories: Vec<String>,
}

/// The threshold, and the window that the configuration documents.
#[derive(Debug, Clone)]
pub struct RelevanceSection {
    pub threshold: Threshold,
    pub near_default_window: usize,
}

/// The root of the configuration.
#[derive(Debug, Clone)]
pub struct RelevanceRoot {
    pub relevance: RelevanceSection,
    pub weights: Vec<CategoryWeight>,
    pub anchors: Vec<AnchorCfg>,
    pub blockers: Vec<BlockerCfg>,
    pub combos: ComboCfg,
    pub aliases: Vec<AliasCfg>,
}

} // verus!
