//! The handle that owns the current engine, and the decisions of the
//! reload watcher. A reload replaces the whole engine or nothing.

use crate::relevance::compile::{first_failure, ConfigError};
use crate::relevance::config::RelevanceRoot;
use crate::relevance::engine::RelevanceEngine;
use crate::relevance::gate::Stage;
use crate::relevance::score::{Relevance, SCORE_LIMIT};
use crate::text::{concat2, eq_ignore_ascii_case, str_eq, text_eq_ignore_case};
use vstd::prelude::*;
use vstd::string::StringSliceAdditionalSpecFns;

verus! {

/// Holds the one engine that is current. Readers score through a shared
/// reference; a reload takes the handle exclusively for one assignment.
pub struct RelevanceHandle {
    pub engine: RelevanceEngine,
}

impl RelevanceHandle {
    /// A handle on `engine`.
    pub fn new(engine: RelevanceEngine) -> (h: RelevanceHandle)
        ensures
            h.engine == engine,
    {
        RelevanceHandle { engine }
    }

    /// The current engine.
    pub fn inner(&self) -> (e: &RelevanceEngine)
        ensures
            *e == self.engine,
    {
        &self.engine
    }

    /// Scores a text against the current engine.
    pub fn score(&self, text: &str) -> (rel: Relevance)
        requires
            text.spec_bytes().len() < usize::MAX,
        ensures
            rel@ == self.engine.outcome(text@),
            rel.score.in_unit_range(),
            rel.score.den <= SCORE_LIMIT,
    {
        self.engine.score(text)
    }

    /// Scores a text against the current engine and tells at which stage
    /// the evaluation ended.
    pub fn score_with_stage(&self, text: &str) -> (r: (Relevance, Stage))
        requires
            text.spec_bytes().len() < usize::MAX,
        ensures
            r.0@ == self.engine.outcome(text@),
            r.1 == self.engine.final_stage(text@),
            r.0.score.in_unit_range(),
            r.0.score.den <= SCORE_LIMIT,
    {
        self.engine.score_with_stage(text)
    }

    /// The same as `score`, for callers that know it by this name.
    pub fn evaluate(&self, text: &str) -> (rel: Relevance)
        requires
            text.spec_bytes().len() < usize::MAX,
        ensures
            rel@ == self.engine.outcome(text@),
            rel.score.in_unit_range(),
            rel.score.den <= SCORE_LIMIT,
    {
        self.score(text)
    }

    /// Takes in the outcome of reading the configuration anew. The engine
    /// is replaced, as a whole, only if the configuration was read and
    /// parsed and every pattern of it compiles; otherwise the handle keeps
    /// the engine it has, and the error says why.
    pub fn reload(&mut self, input: ConfigInput) -> (r: Result<(), ConfigLoadError>)
        ensures
            r is Ok == loads(input),
            r is Ok ==> final(self).engine.compiled_from(input->Parsed_0),
            r is Err ==> *final(self) == *old(self),
            r matches Err(e) ==> is_load_error_of(e, input),
    {
        match load(input) {
            Ok(engine) => {
                self.engine = engine;
                Ok(())
            },
            Err(e) => Err(e),
        }
    }
}

/// What came of reading the configuration file.
pub enum ConfigInput {
    /// The file could not be read.
    Unreadable(String),
    /// The text of the file is not of the declarative format.
    Malformed(String),
    /// The configuration that the file holds.
    Parsed(RelevanceRoot),
}

/// Why no engine could be loaded.
#[derive(Debug, Clone)]
pub enum ConfigLoadError {
    /// The file could not be read.
    Unreadable(String),
    /// The text of the file is not of the declarative format.
    Parse(String),
    /// A pattern of the configuration does not compile.
    Pattern(ConfigError),
}

/// The input leads to an engine: it was read and parsed, and every
/// pattern of it compiles.
pub open spec fn loads(input: ConfigInput) -> bool {
    input matches ConfigInput::Parsed(cfg) && first_failure(cfg) is None
}

/// The error is the one that the input calls for: that of the stage at
/// which loading it fails, with the detail that came with the input, or
/// with the pattern that fails first.
pub open spec fn is_load_error_of(e: ConfigLoadError, input: ConfigInput) -> bool {
    match input {
        ConfigInput::Unreadable(detail) => e matches ConfigLoadError::Unreadable(d) && d == detail,
        ConfigInput::Malformed(detail) => e matches ConfigLoadError::Parse(d) && d == detail,
        ConfigInput::Parsed(cfg) => e matches ConfigLoadError::Pattern(p) && first_failure(cfg)
            == Some((p.role, p.id@)),
    }
}

/// Loads an engine from what came of reading the configuration file.
pub fn load(input: ConfigInput) -> (r: Result<RelevanceEngine, ConfigLoadError>)
    ensures
        r is Ok == loads(input),
        r matches Ok(engine) ==> engine.compiled_from(input->Parsed_0),
        r matches Err(e) ==> is_load_error_of(e, input),
{
    match input {
        ConfigInput::Unreadable(detail) => Err(ConfigLoadError::Unreadable(detail)),
        ConfigInput::Malformed(detail) => Err(ConfigLoadError::Parse(detail)),
        ConfigInput::Parsed(cfg) => match RelevanceEngine::from_config(cfg) {
            Ok(engine) => Ok(engine),
            Err(e) => Err(ConfigLoadError::Pattern(e)),
        },
    }
}

impl ConfigLoadError {
    /// The error as one line.
    pub fn message(&self) -> (r: String)
        ensures
            r@ == match *self {
                ConfigLoadError::Unreadable(d) => "failed to read relevance config: "@ + d@,
                ConfigLoadError::Parse(d) => "failed to parse relevance config: "@ + d@,
                ConfigLoadError::Pattern(p) => ConfigError::spec_prefix(p.role) + p.id@
                    + ConfigError::spec_infix(p.role) + p.detail@,
            },
    {
        match self {
            ConfigLoadError::Unreadable(d) => concat2("failed to read relevance config: ", d.as_str()),
            ConfigLoadError::Parse(d) => concat2("failed to parse relevance config: ", d.as_str()),
            ConfigLoadError::Pattern(p) => p.message(),
        }
    }
}

/// A reload that fails, be it that the file could not be read, that its
/// text is malformed or that one of its patterns does not compile,
/// leaves every later score as it was before. Here `after` is the handle
/// that `reload` leaves, with the result `result`, when it is called on
/// the handle `before` with `input`.
pub proof fn lemma_failed_reload_keeps_scores(
    before: RelevanceHandle,
    after: RelevanceHandle,
    input: ConfigInput,
    result: Result<(), ConfigLoadError>,
    text: Seq<char>,
)
    requires
        !loads(input),
        result is Ok == loads(input),
        result is Err ==> after == before,
    ensures
        result is Err,
        after.engine.outcome(text) == before.engine.outcome(text),
        after.engine.final_stage(text) == before.engine.final_stage(text),
{
}

/// What the watcher remembers between two looks at the configuration
/// file: the modification time that it saw last.
pub struct ReloadWatch {
    pub last_mtime: Option<u128>,
}

/// The file is seen with a modification time that is newer than the one
/// that was seen last.
pub open spec fn newer(mtime: Option<u128>, last: Option<u128>) -> bool {
    mtime is Some && last is Some && mtime->0 > last->0
}

/// What the watcher remembers after a tick: the time it sees now, if that
/// is the first it sees or newer than the last, else what it remembered.
pub open spec fn remembered(mtime: Option<u128>, last: Option<u128>) -> Option<u128> {
    if mtime is Some && (last is None || newer(mtime, last)) {
        mtime
    } else {
        last
    }
}

impl ReloadWatch {
    /// A watcher that has not seen the file yet.
    pub fn new() -> (w: ReloadWatch)
        ensures
            w.last_mtime is None,
    {
        ReloadWatch { last_mtime: None }
    }

    /// One tick of the watcher. `mtime` is the modification time of the
    /// file, `None` when it is missing or unreadable. The first time that
    /// is seen is only remembered. Later, a time that is newer than the
    /// one remembered asks for a reload and is remembered in its place;
    /// anything else changes nothing.
    pub fn on_tick(&mut self, mtime: Option<u128>) -> (reload: bool)
        ensures
            reload == newer(mtime, old(self).last_mtime),
            final(self).last_mtime == remembered(mtime, old(self).last_mtime),
    {
        match mtime {
            None => false,
            Some(now) => match self.last_mtime {
                None => {
                    self.last_mtime = Some(now);
                    false
                },
                Some(prev) => {
                    if now > prev {
                        self.last_mtime = Some(now);
                        true
                    } else {
                        false
                    }
                },
            },
        }
    }
}

/// The name of a development environment: `local`, `development` or
/// `dev`, in any case.
pub open spec fn is_dev_name(name: Seq<char>) -> bool {
    text_eq_ignore_case(name, "local"@) || text_eq_ignore_case(name, "development"@)
        || text_eq_ignore_case(name, "dev"@)
}

/// The process runs in a development environment: a debug build, or an
/// environment with a development name.
pub open spec fn is_dev_environment(debug_build: bool, environment: Option<&str>) -> bool {
    debug_build || (environment matches Some(name) && is_dev_name(name@))
}

/// A switch is on: its value is exactly `1`.
pub open spec fn switched_on(flag: Option<&str>) -> bool {
    flag matches Some(v) && v@ == "1"@
}

/// Whether a name is that of a development environment.
pub fn names_dev_environment(name: &str) -> (r: bool)
    ensures
        r == is_dev_name(name@),
{
    eq_ignore_ascii_case(name, "local") || eq_ignore_ascii_case(name, "development")
        || eq_ignore_ascii_case(name, "dev")
}

fn dev_gate(flag: Option<&str>, debug_build: bool, environment: Option<&str>) -> (r: bool)
    ensures
        r == (switched_on(flag) && is_dev_environment(debug_build, environment)),
{
    let on = match flag {
        Some(v) => str_eq(v, "1"),
        None => false,
    };
    if !on {
        return false;
    }
    if debug_build {
        return true;
    }
    match environment {
        Some(name) => names_dev_environment(name),
        None => false,
    }
}

/// Whether the reload watcher may run: the hot-reload switch is on, and
/// the process runs in a development environment.
pub fn hot_reload_enabled(flag: Option<&str>, debug_build: bool, environment: Option<&str>) -> (r:
    bool)
    ensures
        r == (switched_on(flag) && is_dev_environment(debug_build, environment)),
{
    dev_gate(flag, debug_build, environment)
}

/// Whether relevance events may be logged: the logging switch is on,
/// and the process runs in a development environment.
pub fn dev_logging_enabled(flag: Option<&str>, debug_build: bool, environment: Option<&str>) -> (r:
    bool)
    ensures
        r == (switched_on(flag) && is_dev_environment(debug_build, environment)),
{
    dev_gate(flag, debug_build, environment)
}

} // verus!
