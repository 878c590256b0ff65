//! Sentiment analysis of short market statements, such as headlines and
//! quotes, about a stock index.
//!
//! The heart of the crate is the relevance engine in [`relevance`]: a
//! classifier driven by a configuration of anchors, blockers, combos and
//! weights, which decides whether a statement is about the index at all
//! before anything else is made of it. Around it stand the lexicon
//! scoring of the sentiment, the detection of disruptive statements, the
//! decision that follows from them, and the pipeline that takes
//! statements in.
//!
//! The crate does no input or output and reads no clock: times, file
//! contents and settings of the environment are arguments.

pub mod analyze;
pub mod api;
pub mod change_detector;
pub mod debug;
pub mod decision;
pub mod disruption;
pub mod engine;
pub mod history;
pub mod ingest;
pub mod notify;
pub mod relevance;
pub mod rolling;
pub mod sentiment;
pub mod source_weights;
pub mod text;

pub use relevance::Relevance;
