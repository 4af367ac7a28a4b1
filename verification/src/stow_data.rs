//! What each command works on: target, packages and options.
use vstd::prelude::*;
use crate::color_support::ColorSupport;
use crate::paths::views;
use crate::regex::{create_matchers, matcher_groups, spec_matchers, RegexMatcher};
use crate::strategy::{LinkingStrategy, MatchingStrategy, RegexStrategy};

verus! {

/// The compiled ignore and override patterns of a stow.
pub struct StowFilter {
    pub ignored: Vec<RegexMatcher>,
    pub overrides: Vec<RegexMatcher>,
}

impl Default for StowFilter {
    fn default() -> (r: Self)
        ensures
            r.ignored@.len() == 0,
            r.overrides@.len() == 0,
    {
        StowFilter { ignored: Vec::new(), overrides: Vec::new() }
    }
}

/// How a stow treats the entries of its packages.
pub struct StowOptions {
    pub filter: StowFilter,
    pub dot_file_prefix: Option<String>,
    pub linking_strategy: LinkingStrategy,
    pub no_folding: bool,
}

impl Default for StowOptions {
    fn default() -> (r: Self)
        ensures
            r.filter.ignored@.len() == 0,
            r.filter.overrides@.len() == 0,
            r.dot_file_prefix is None,
            r.linking_strategy == LinkingStrategy::Short,
            !r.no_folding,
    {
        StowOptions {
            filter: StowFilter::default(),
            dot_file_prefix: None,
            linking_strategy: LinkingStrategy::Short,
            no_folding: false,
        }
    }
}

/// The engines and matching mode used to build the pattern matchers, and the
/// linking strategy of the stow.
#[derive(Debug, Clone, Copy, PartialEq, Eq, Structural)]
pub struct StowStrategies {
    pub linking: LinkingStrategy,
    pub regex: RegexStrategy,
    pub matching: MatchingStrategy,
}

impl Default for StowStrategies {
    fn default() -> (r: Self)
        ensures
            r.linking == LinkingStrategy::Short,
            r.regex == RegexStrategy::Rust,
            r.matching == MatchingStrategy::Combined,
    {
        StowStrategies {
            linking: LinkingStrategy::Short,
            regex: RegexStrategy::Rust,
            matching: MatchingStrategy::Combined,
        }
    }
}

impl StowStrategies {
    /// The matchers for `patterns`: one per pattern that compiles with the
    /// individual strategy, one for all of them (if they compile) with the
    /// combined strategy.
    pub fn create_matcher(&self, patterns: &Vec<String>) -> (r: Vec<RegexMatcher>)
        ensures
            matcher_groups(r@) == spec_matchers(self.regex, self.matching, views(patterns@)),
    {
        create_matchers(self.regex, self.matching, patterns)
    }
}

impl StowOptions {
    /// Options with the given prefix and folding, the linking strategy of
    /// `strategies`, and matchers built from the ignored and override patterns.
    pub fn new(
        dot_file_prefix: Option<String>,
        strategies: &StowStrategies,
        no_folding: bool,
        ignored: &Vec<String>,
        overrides: &Vec<String>,
    ) -> (r: Self)
        ensures
            r.dot_file_prefix == dot_file_prefix,
            r.no_folding == no_folding,
            r.linking_strategy == strategies.linking,
            matcher_groups(r.filter.ignored@) == spec_matchers(strategies.regex, strategies.matching, views(ignored@)),
            matcher_groups(r.filter.overrides@) == spec_matchers(strategies.regex, strategies.matching, views(overrides@)),
    {
        let ignored = strategies.create_matcher(ignored);
        let overrides = strategies.create_matcher(overrides);
        StowOptions {
            no_folding,
            linking_strategy: strategies.linking,
            dot_file_prefix,
            filter: StowFilter { ignored, overrides },
        }
    }
}

/// What a stow works on.
pub struct StowData {
    pub target: String,
    pub packages: Vec<String>,
    pub options: StowOptions,
}

impl StowData {
    pub fn new(target: String, packages: Vec<String>, options: StowOptions) -> (r: Self)
        ensures
            r.target == target,
            r.packages == packages,
            r.options == options,
    {
        StowData { target, packages, options }
    }
}

/// What an unstow works on.
#[derive(Debug, Clone)]
pub struct UnstowData {
    pub target: String,
    pub packages: Vec<String>,
    pub dot_file_prefix: Option<String>,
}

impl UnstowData {
    pub fn new(target: String, packages: Vec<String>, dot_file_prefix: Option<String>) -> (r: Self)
        ensures
            r.target == target,
            r.packages == packages,
            r.dot_file_prefix == dot_file_prefix,
    {
        UnstowData { target, packages, dot_file_prefix }
    }
}

/// What a restow works on: the unstow of the packages, then their stow.
pub struct RestowData {
    pub unstow: UnstowData,
    pub stow: StowData,
}

impl RestowData {
    pub fn new(target: String, packages: Vec<String>, options: StowOptions) -> (r: Self)
        ensures
            r.unstow.target == target,
            r.unstow.packages@ == packages@,
            r.unstow.dot_file_prefix == options.dot_file_prefix,
            r.stow.target == target,
            r.stow.packages == packages,
            r.stow.options == options,
    {
        let unstow = UnstowData::new(target.clone(), clone_strings(&packages), clone_prefix(&options.dot_file_prefix));
        RestowData { unstow, stow: StowData::new(target, packages, options) }
    }
}

/// What a list works on, and the colors of its lines.
pub struct ListData {
    pub target: String,
    pub packages: Vec<String>,
    pub dot_file_prefix: Option<String>,
    pub color_support: ColorSupport,
}

impl ListData {
    pub fn new(
        target: String,
        packages: Vec<String>,
        dot_file_prefix: Option<String>,
        color_support: ColorSupport,
    ) -> (r: Self)
        ensures
            r.target == target,
            r.packages == packages,
            r.dot_file_prefix == dot_file_prefix,
            r.color_support == color_support,
    {
        ListData { target, packages, dot_file_prefix, color_support }
    }
}

/// A copy of a list of strings.
pub fn clone_strings(v: &Vec<String>) -> (r: Vec<String>)
    ensures
        r@ == v@,
{
    let mut r: Vec<String> = Vec::new();
    let mut i: usize = 0;
    while i < v.len()
        invariant
            i <= v.len(),
            r@ == v@.take(i as int),
        decreases v.len() - i,
    {
        r.push(v[i].clone());
        assert(r@ =~= v@.take(i + 1));
        i = i + 1;
    }
    assert(v@.take(v.len() as int) =~= v@);
    r
}

/// A copy of an optional string.
pub fn clone_prefix(p: &Option<String>) -> (r: Option<String>)
    ensures
        r == *p,
{
    match p {
        Some(s) => Some(s.clone()),
        None => None,
    }
}

} // verus!
