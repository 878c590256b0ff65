//! What a source hands to the ingest pipeline.

use vstd::prelude::*;

verus! {

/// One statement of a source.
#[derive(Debug, Clone)]
pub struct SourceEvent {
    /// Logical source name, such as "Fed" or "Reuters".
    pub source: String,
    /// Unix timestamp in seconds of the publication.
    pub published_at: u64,
    /// The text of the statement.
    pub text: String,
    /// Optional permalink to the content.
    pub url: Option<String>,
    /// Optional importance hint in thousandths; higher means "pay
    /// attention".
    pub priority_hint: Option<u32>,
}

/// How often the scheduler runs, and how far back it looks for repeats.
#[derive(Clone, Copy, Debug)]
pub struct IngestSchedulerCfg {
    pub interval_secs: u64,
    pub dedup_window_secs: u64,
}

} // verus!
