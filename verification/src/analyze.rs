//! Helpers of the analysis pipeline: contextual rules, reasons from named
//! entities, near-duplicate filtering and the hints of the AI adapter.

pub mod ai_adapter;
pub mod antispam;
pub mod ner;
pub mod rerank;
pub mod rules;
