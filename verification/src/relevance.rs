//! The relevance gate: tokenizer, proximity index, compiled patterns,
//! blocker and anchor evaluation, combo solving, scoring and the engine
//! that ties them together.

pub mod ai_gate;
pub mod combo;
pub mod compile;
pub mod config;
pub mod engine;
pub mod gate;
pub mod handle;
pub mod pattern;
pub mod proximity;
pub mod score;
pub mod tags;
pub mod tokenizer;
pub mod weights;

pub use compile::{CompiledAnchor, CompiledBlocker, ConfigError, PatternRole};
pub use config::{
    AliasCfg, AnchorCfg, BlockerCfg, CategoryWeight, ComboCfg, ComboNeed, NearCfg, RelevanceRoot,
    RelevanceSection, Threshold, DEFAULT_RELEVANCE_CONFIG_PATH, DEFAULT_RELEVANCE_THRESHOLD,
    ENV_RELEVANCE_CONFIG_PATH, ENV_RELEVANCE_THRESHOLD,
};
pub use engine::RelevanceEngine;
pub use handle::{
    dev_logging_enabled, hot_reload_enabled, load, ConfigInput, ConfigLoadError, RelevanceHandle,
    ReloadWatch,
};
pub use score::{Relevance, Score};
pub use tags::{parse_cashtags, parse_hashtags, truncate_vec};
pub use tokenizer::{tokenize, Token};
