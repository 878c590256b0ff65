//! Compiles a configuration: every anchor and blocker pattern, and every
//! `near` and `unless_near` pattern, becomes a regular expression. The
//! first pattern that does not compile fails the whole configuration.

use crate::relevance::config::{AnchorCfg, BlockerCfg, NearCfg, RelevanceRoot};
use crate::relevance::pattern::{compile_regex, pattern_compiles, regex_error_text, regex_source};
use crate::text::concat2;
use regex::Regex;
use vstd::prelude::*;
use vstd::string::StringExecFns;

verus! {

/// An anchor with its compiled patterns.
pub struct CompiledAnchor {
    pub cfg: AnchorCfg,
    pub re: Regex,
    pub near: Option<(Regex, usize)>,
}

/// A blocker with its compiled patterns.
pub struct CompiledBlocker {
    pub cfg: BlockerCfg,
    pub re: Regex,
    pub near: Option<(Regex, usize)>,
    pub unless_near: Option<(Regex, usize)>,
}

/// Which pattern of an entry did not compile.
#[derive(Debug, Clone, Copy, PartialEq, Eq, Structural)]
pub enum PatternRole {
    Anchor,
    AnchorNear,
    Blocker,
    BlockerNear,
    BlockerUnlessNear,
}

/// Why a configuration was refused: the entry and the pattern at fault,
/// and what the regex compiler said of it.
#[derive(Debug, Clone)]
pub struct ConfigError {
    pub role: PatternRole,
    pub id: String,
    pub detail: String,
}

impl ConfigError {
    /// What stands before the id in the message.
    pub open spec fn spec_prefix(role: PatternRole) -> Seq<char> {
        match role {
            PatternRole::Anchor | PatternRole::AnchorNear => "anchor `"@,
            _ => "blocker `"@,
        }
    }

    /// What stands between the id and the detail in the message.
    pub open spec fn spec_infix(role: PatternRole) -> Seq<char> {
        match role {
            PatternRole::Anchor | PatternRole::Blocker => "` regex error: "@,
            PatternRole::AnchorNear | PatternRole::BlockerNear => "` near-regex error: "@,
            PatternRole::BlockerUnlessNear => "` unless_near regex error: "@,
        }
    }

    /// The error as one line: the kind of entry, its id, the pattern at
    /// fault and the compiler's words.
    pub fn message(&self) -> (r: String)
        ensures
            r@ == Self::spec_prefix(self.role) + self.id@ + Self::spec_infix(self.role)
                + self.detail@,
    {
        let prefix = match self.role {
            PatternRole::Anchor | PatternRole::AnchorNear => "anchor `",
            _ => "blocker `",
        };
        let infix = match self.role {
            PatternRole::Anchor | PatternRole::Blocker => "` regex error: ",
            PatternRole::AnchorNear | PatternRole::BlockerNear => "` near-regex error: ",
            PatternRole::BlockerUnlessNear => "` unless_near regex error: ",
        };
        let mut r = concat2(prefix, self.id.as_str());
        r.append(infix);
        r.append(self.detail.as_str());
        r
    }
}

/// A compiled `near` pattern belongs to its configuration: both are
/// absent, or the regex was compiled from the pattern and the windows
/// agree.
pub open spec fn near_compiled(near: Option<(Regex, usize)>, cfg: Option<NearCfg>) -> bool {
    match (near, cfg) {
        (None, None) => true,
        (Some((re, window)), Some(nc)) => regex_source(re) == nc.pattern@ && window == nc.window,
        _ => false,
    }
}

/// An optional `near` pattern compiles.
pub open spec fn near_compiles(cfg: Option<NearCfg>) -> bool {
    match cfg {
        None => true,
        Some(nc) => pattern_compiles(nc.pattern@),
    }
}

/// Which pattern of an anchor fails first, if any does.
pub open spec fn anchor_failure(a: AnchorCfg) -> Option<PatternRole> {
    if !pattern_compiles(a.pattern@) {
        Some(PatternRole::Anchor)
    } else if !near_compiles(a.near) {
        Some(PatternRole::AnchorNear)
    } else {
        None
    }
}

/// Which pattern of a blocker fails first, if any does.
pub open spec fn blocker_failure(b: BlockerCfg) -> Option<PatternRole> {
    if !pattern_compiles(b.pattern@) {
        Some(PatternRole::Blocker)
    } else if !near_compiles(b.near) {
        Some(PatternRole::BlockerNear)
    } else if !near_compiles(b.unless_near) {
        Some(PatternRole::BlockerUnlessNear)
    } else {
        None
    }
}

/// The first failure of a configuration, anchors before blockers, each
/// list in its order: the pattern at fault and the id of its entry.
pub open spec fn first_failure(cfg: RelevanceRoot) -> Option<(PatternRole, Seq<char>)> {
    if exists|i: int| 0 <= i < cfg.anchors@.len() && anchor_failure(cfg.anchors@[i]) is Some {
        let i = choose|i: int|
            0 <= i < cfg.anchors@.len() && anchor_failure(cfg.anchors@[i]) is Some && forall|j: int|
                0 <= j < i ==> anchor_failure(cfg.anchors@[j]) is None;
        Some((anchor_failure(cfg.anchors@[i])->0, cfg.anchors@[i].id@))
    } else if exists|i: int|
        0 <= i < cfg.blockers@.len() && blocker_failure(cfg.blockers@[i]) is Some {
        let i = choose|i: int|
            0 <= i < cfg.blockers@.len() && blocker_failure(cfg.blockers@[i]) is Some && forall|
                j: int,
            |
                0 <= j < i ==> blocker_failure(cfg.blockers@[j]) is None;
        Some((blocker_failure(cfg.blockers@[i])->0, cfg.blockers@[i].id@))
    } else {
        None
    }
}

/// A compiled anchor belongs to its configuration entry.
pub open spec fn anchor_compiled(a: CompiledAnchor, cfg: AnchorCfg) -> bool {
    &&& a.cfg == cfg
    &&& regex_source(a.re) == cfg.pattern@
    &&& near_compiled(a.near, cfg.near)
}

/// A compiled blocker belongs to its configuration entry.
pub open spec fn blocker_compiled(b: CompiledBlocker, cfg: BlockerCfg) -> bool {
    &&& b.cfg == cfg
    &&& regex_source(b.re) == cfg.pattern@
    &&& near_compiled(b.near, cfg.near)
    &&& near_compiled(b.unless_near, cfg.unless_near)
}

/// A copy of a list of strings.
pub fn clone_strings(v: &Vec<String>) -> (r: Vec<String>)
    ensures
        r@ == v@,
{
    let mut r: Vec<String> = Vec::new();
    let mut i: usize = 0;
    while i < v.len()
        invariant
            i <= v.len(),
            r@ == v@.take(i as int),
        decreases v.len() - i,
    {
        r.push(v[i].clone());
        assert(v@.take(i + 1) =~= v@.take(i as int).push(v@[i as int]));
        i += 1;
    }
    assert(v@.take(v@.len() as int) =~= v@);
    r
}

fn clone_near(n: &Option<NearCfg>) -> (r: Option<NearCfg>)
    ensures
        r == *n,
{
    match n {
        None => None,
        Some(nc) => Some(NearCfg { pattern: nc.pattern.clone(), window: nc.window }),
    }
}

fn clone_tag(t: &Option<String>) -> (r: Option<String>)
    ensures
        r == *t,
{
    match t {
        None => None,
        Some(s) => Some(s.clone()),
    }
}

fn clone_anchor(a: &AnchorCfg) -> (r: AnchorCfg)
    ensures
        r == *a,
{
    AnchorCfg {
        id: a.id.clone(),
        category: a.category.clone(),
        pattern: a.pattern.clone(),
        near: clone_near(&a.near),
        tag: clone_tag(&a.tag),
    }
}

fn clone_blocker(b: &BlockerCfg) -> (r: BlockerCfg)
    ensures
        r == *b,
{
    BlockerCfg {
        id: b.id.clone(),
        pattern: b.pattern.clone(),
        reason: b.reason.clone(),
        action: b.action.clone(),
        near: clone_near(&b.near),
        unless_near: clone_near(&b.unless_near),
    }
}

/// Compiles an optional `near` pattern.
fn compile_near(cfg: &Option<NearCfg>) -> (r: Result<Option<(Regex, usize)>, String>)
    ensures
        r is Ok == near_compiles(*cfg),
        r matches Ok(near) ==> near_compiled(near, *cfg),
{
    match cfg {
        None => Ok(None),
        Some(nc) => match compile_regex(nc.pattern.as_str()) {
            Ok(re) => Ok(Some((re, nc.window))),
            Err(e) => Err(regex_error_text(&e)),
        },
    }
}

/// Compiles one anchor: its pattern, then its `near` pattern.
pub fn compile_anchor(cfg: &AnchorCfg) -> (r: Result<CompiledAnchor, ConfigError>)
    ensures
        match r {
            Ok(a) => anchor_failure(*cfg) is None && anchor_compiled(a, *cfg),
            Err(e) => anchor_failure(*cfg) == Some(e.role) && e.id@ == cfg.id@,
        },
{
    let re = match compile_regex(cfg.pattern.as_str()) {
        Ok(re) => re,
        Err(e) => {
            return Err(
                ConfigError {
                    role: PatternRole::Anchor,
                    id: cfg.id.clone(),
                    detail: regex_error_text(&e),
                },
            );
        },
    };
    let near = match compile_near(&cfg.near) {
        Ok(near) => near,
        Err(detail) => {
            return Err(ConfigError { role: PatternRole::AnchorNear, id: cfg.id.clone(), detail });
        },
    };
    Ok(CompiledAnchor { cfg: clone_anchor(cfg), re, near })
}

/// Compiles one blocker: its pattern, then its `near` pattern, then its
/// `unless_near` pattern.
pub fn compile_blocker(cfg: &BlockerCfg) -> (r: Result<CompiledBlocker, ConfigError>)
    ensures
        match r {
            Ok(b) => blocker_failure(*cfg) is None && blocker_compiled(b, *cfg),
            Err(e) => blocker_failure(*cfg) == Some(e.role) && e.id@ == cfg.id@,
        },
{
    let re = match compile_regex(cfg.pattern.as_str()) {
        Ok(re) => re,
        Err(e) => {
            return Err(
                ConfigError {
                    role: PatternRole::Blocker,
                    id: cfg.id.clone(),
                    detail: regex_error_text(&e),
                },
            );
        },
    };
    let near = match compile_near(&cfg.near) {
        Ok(near) => near,
        Err(detail) => {
            return Err(ConfigError { role: PatternRole::BlockerNear, id: cfg.id.clone(), detail });
        },
    };
    let unless_near = match compile_near(&cfg.unless_near) {
        Ok(near) => near,
        Err(detail) => {
            return Err(
                ConfigError { role: PatternRole::BlockerUnlessNear, id: cfg.id.clone(), detail },
            );
        },
    };
    Ok(CompiledBlocker { cfg: clone_blocker(cfg), re, near, unless_near })
}

} // verus!
