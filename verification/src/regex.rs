//! Ignore and override patterns, compiled by the `grep` crate.
//!
//! A matcher is built from a list of patterns and behaves as their
//! alternation. What the engines accept and where they match is not written
//! out here: it is named by the uninterpreted functions below, which the
//! trusted wrappers tie to the calls into `grep`.
use vstd::prelude::*;
use vstd::utf8::encode_utf8;
use grep::matcher::Matcher;
use grep::regex::RegexMatcher as RustEngineMatcher;
use grep::pcre2::RegexMatcher as Pcre2EngineMatcher;
use crate::paths::views;
use crate::strategy::{MatchingStrategy, RegexStrategy};

verus! {

#[verifier::external_type_specification]
#[verifier::external_body]
pub struct ExRustRegexMatcher(RustEngineMatcher);

#[verifier::external_type_specification]
#[verifier::external_body]
pub struct ExPcre2RegexMatcher(Pcre2EngineMatcher);

/// Whether `grep_regex::RegexMatcherBuilder::new().build_many(patterns)` succeeds.
pub uninterp spec fn rust_regex_builds(patterns: Seq<Seq<char>>) -> bool;

/// `shortest_match` of the `grep_regex` matcher built from `patterns`, run
/// on the UTF-8 bytes of `haystack` (a search error read as no match).
pub uninterp spec fn rust_regex_shortest_match(patterns: Seq<Seq<char>>, haystack: Seq<char>) -> Option<usize>;

/// Whether `grep_pcre2::RegexMatcherBuilder::new().build_many(patterns)` succeeds.
pub uninterp spec fn pcre2_regex_builds(patterns: Seq<Seq<char>>) -> bool;

/// `shortest_match` of the `grep_pcre2` matcher built from `patterns`, run
/// on the UTF-8 bytes of `haystack` (a search error read as no match).
pub uninterp spec fn pcre2_shortest_match(patterns: Seq<Seq<char>>, haystack: Seq<char>) -> Option<usize>;

/// Whether the engine of `strategy` compiles the alternation of `patterns`.
pub open spec fn spec_builds(strategy: RegexStrategy, patterns: Seq<Seq<char>>) -> bool {
    match strategy {
        RegexStrategy::Rust => rust_regex_builds(patterns),
        RegexStrategy::Pcre2 => pcre2_regex_builds(patterns),
    }
}

/// The end of the shortest match of the alternation of `patterns` in `text`.
pub open spec fn spec_shortest_match(strategy: RegexStrategy, patterns: Seq<Seq<char>>, text: Seq<char>) -> Option<usize> {
    match strategy {
        RegexStrategy::Rust => rust_regex_shortest_match(patterns, text),
        RegexStrategy::Pcre2 => pcre2_shortest_match(patterns, text),
    }
}

/// A pattern list accepts a text when its shortest match ends exactly at the
/// end of the text's UTF-8 bytes.
pub open spec fn spec_accepts(strategy: RegexStrategy, patterns: Seq<Seq<char>>, text: Seq<char>) -> bool {
    spec_shortest_match(strategy, patterns, text) == Some(encode_utf8(text).len() as usize)
}

enum CompiledRegex {
    Rust(RustEngineMatcher),
    Pcre2(Pcre2EngineMatcher),
}

/// A compiled pattern list together with the patterns it was built from.
pub struct RegexMatcher {
    strategy: RegexStrategy,
    patterns: Vec<String>,
    compiled: CompiledRegex,
}

/// Builds a `grep_regex` matcher for the alternation of `patterns`
/// (`RegexMatcherBuilder::new().build_many`); `None` when the builder
/// reports an error. The matcher is kept with the patterns it came from.
#[verifier::external_body]
fn build_rust_matcher(patterns: Vec<String>) -> (r: Option<RegexMatcher>)
    ensures
        r is Some <==> rust_regex_builds(views(patterns@)),
        r matches Some(m) ==> m.strategy() == RegexStrategy::Rust && m.patterns() == views(patterns@),
{
    match grep::regex::RegexMatcherBuilder::new().build_many(&patterns) {
        Ok(c) => Some(RegexMatcher { strategy: RegexStrategy::Rust, patterns, compiled: CompiledRegex::Rust(c) }),
        Err(_) => None,
    }
}

/// Builds a `grep_pcre2` matcher for the alternation of `patterns`
/// (`RegexMatcherBuilder::new().build_many`); `None` when the builder
/// reports an error. The matcher is kept with the patterns it came from.
#[verifier::external_body]
fn build_pcre2_matcher(patterns: Vec<String>) -> (r: Option<RegexMatcher>)
    ensures
        r is Some <==> pcre2_regex_builds(views(patterns@)),
        r matches Some(m) ==> m.strategy() == RegexStrategy::Pcre2 && m.patterns() == views(patterns@),
{
    match grep::pcre2::RegexMatcherBuilder::new().build_many(&patterns) {
        Ok(c) => Some(RegexMatcher { strategy: RegexStrategy::Pcre2, patterns, compiled: CompiledRegex::Pcre2(c) }),
        Err(_) => None,
    }
}

/// `Matcher::shortest_match` of a `grep_regex` matcher on the bytes of
/// `haystack`, an error read as `None`. The claim is that the result is the
/// named result for the patterns the matcher was built from.
#[verifier::external_body]
fn rust_shortest_match(m: &RegexMatcher, haystack: &str) -> (r: Option<usize>)
    requires
        m.strategy() == RegexStrategy::Rust,
    ensures
        r == rust_regex_shortest_match(m.patterns(), haystack@),
{
    match &m.compiled {
        CompiledRegex::Rust(c) => c.shortest_match(haystack.as_bytes()).unwrap_or(None),
        CompiledRegex::Pcre2(_) => None,
    }
}

/// `Matcher::shortest_match` of a `grep_pcre2` matcher on the bytes of
/// `haystack`, an error read as `None`. The claim is that the result is the
/// named result for the patterns the matcher was built from.
#[verifier::external_body]
fn pcre2_shortest_match_of(m: &RegexMatcher, haystack: &str) -> (r: Option<usize>)
    requires
        m.strategy() == RegexStrategy::Pcre2,
    ensures
        r == pcre2_shortest_match(m.patterns(), haystack@),
{
    match &m.compiled {
        CompiledRegex::Pcre2(c) => c.shortest_match(haystack.as_bytes()).unwrap_or(None),
        CompiledRegex::Rust(_) => None,
    }
}

impl RegexMatcher {
    /// The engine the matcher was built with.
    pub closed spec fn strategy(&self) -> RegexStrategy {
        self.strategy
    }

    /// The patterns the matcher was built from.
    pub closed spec fn patterns(&self) -> Seq<Seq<char>> {
        views(self.patterns@)
    }

    /// Compiles the alternation of `patterns` with the engine of `strategy`;
    /// `None` when the engine rejects it.
    pub fn try_create_combined_matcher(strategy: RegexStrategy, patterns: Vec<String>) -> (r: Option<RegexMatcher>)
        ensures
            r is Some <==> spec_builds(strategy, views(patterns@)),
            r matches Some(m) ==> m.strategy() == strategy && m.patterns() == views(patterns@),
    {
        match strategy {
            RegexStrategy::Rust => build_rust_matcher(patterns),
            RegexStrategy::Pcre2 => build_pcre2_matcher(patterns),
        }
    }

    /// Compiles a single pattern; `None` when the engine rejects it.
    pub fn try_create_matcher(strategy: RegexStrategy, item: &str) -> (r: Option<RegexMatcher>)
        ensures
            r is Some <==> spec_builds(strategy, seq![item@]),
            r matches Some(m) ==> m.strategy() == strategy && m.patterns() == seq![item@],
    {
        let mut patterns: Vec<String> = Vec::new();
        patterns.push(item.to_owned());
        assert(views(patterns@) =~= seq![item@]);
        Self::try_create_combined_matcher(strategy, patterns)
    }

    /// The end of the shortest match in `text`.
    pub fn shortest_match(&self, text: &str) -> (r: Option<usize>)
        ensures
            r == spec_shortest_match(self.strategy(), self.patterns(), text@),
    {
        match self.strategy {
            RegexStrategy::Rust => rust_shortest_match(self, text),
            RegexStrategy::Pcre2 => pcre2_shortest_match_of(self, text),
        }
    }

    /// Whether the shortest match covers all of `text`.
    pub fn accepts(&self, text: &str) -> (r: bool)
        ensures
            r == spec_accepts(self.strategy(), self.patterns(), text@),
    {
        let n = text.len();
        match self.shortest_match(text) {
            Some(size) => size == n,
            None => false,
        }
    }
}

/// The pattern lists of a sequence of matchers.
pub open spec fn matcher_groups(ms: Seq<RegexMatcher>) -> Seq<(RegexStrategy, Seq<Seq<char>>)> {
    ms.map_values(|m: RegexMatcher| (m.strategy(), m.patterns()))
}

/// Whether one of the pattern lists accepts `text`.
pub open spec fn any_accepts(groups: Seq<(RegexStrategy, Seq<Seq<char>>)>, text: Seq<char>) -> bool {
    exists|i: int| 0 <= i < groups.len() && #[trigger] spec_accepts(groups[i].0, groups[i].1, text)
}

/// Whether one of `matchers` accepts all of `text` (`path_matches_filter`).
pub fn matches_any(matchers: &Vec<RegexMatcher>, text: &str) -> (r: bool)
    ensures
        r == any_accepts(matcher_groups(matchers@), text@),
{
    let mut i: usize = 0;
    while i < matchers.len()
        invariant
            i <= matchers.len(),
            forall|j: int| 0 <= j < i ==> !#[trigger] spec_accepts(matcher_groups(matchers@)[j].0, matcher_groups(matchers@)[j].1, text@),
        decreases matchers.len() - i,
    {
        if matchers[i].accepts(text) {
            assert(spec_accepts(matcher_groups(matchers@)[i as int].0, matcher_groups(matchers@)[i as int].1, text@));
            return true;
        }
        i = i + 1;
    }
    false
}

/// The single-pattern lists that the engine of `strategy` accepts, in order.
pub open spec fn buildable_singletons(strategy: RegexStrategy, ps: Seq<Seq<char>>) -> Seq<(RegexStrategy, Seq<Seq<char>>)>
    decreases ps.len(),
{
    if ps.len() == 0 {
        Seq::empty()
    } else {
        let rest = buildable_singletons(strategy, ps.drop_last());
        if spec_builds(strategy, seq![ps.last()]) {
            rest.push((strategy, seq![ps.last()]))
        } else {
            rest
        }
    }
}

/// The matchers that `create_matcher` builds: one per pattern that compiles
/// for the individual strategy, one for all patterns together (if they
/// compile) for the combined strategy.
pub open spec fn spec_matchers(regex: RegexStrategy, matching: MatchingStrategy, ps: Seq<Seq<char>>) -> Seq<(RegexStrategy, Seq<Seq<char>>)> {
    match matching {
        MatchingStrategy::Individual => buildable_singletons(regex, ps),
        MatchingStrategy::Combined => if spec_builds(regex, ps) {
            seq![(regex, ps)]
        } else {
            Seq::empty()
        },
    }
}

/// Builds the matchers for a list of patterns.
pub fn create_matchers(regex: RegexStrategy, matching: MatchingStrategy, patterns: &Vec<String>) -> (r: Vec<RegexMatcher>)
    ensures
        matcher_groups(r@) == spec_matchers(regex, matching, views(patterns@)),
{
    match matching {
        MatchingStrategy::Individual => {
            let mut out: Vec<RegexMatcher> = Vec::new();
            let mut i: usize = 0;
            while i < patterns.len()
                invariant
                    i <= patterns.len(),
                    matcher_groups(out@) == buildable_singletons(regex, views(patterns@).take(i as int)),
                decreases patterns.len() - i,
            {
                let ghost before = views(patterns@).take(i as int);
                proof {
                    let after = views(patterns@).take(i + 1);
                    assert(after.drop_last() =~= before);
                    assert(after.last() == patterns@[i as int]@);
                }
                match RegexMatcher::try_create_matcher(regex, patterns[i].as_str()) {
                    Some(m) => {
                        let ghost old_out = out@;
                        out.push(m);
                        assert(matcher_groups(out@) =~= matcher_groups(old_out).push((m.strategy(), m.patterns())));
                    },
                    None => {},
                }
                i = i + 1;
            }
            assert(views(patterns@).take(patterns.len() as int) =~= views(patterns@));
            out
        },
        MatchingStrategy::Combined => {
            let mut out: Vec<RegexMatcher> = Vec::new();
            match RegexMatcher::try_create_combined_matcher(regex, patterns.clone()) {
                Some(m) => {
                    out.push(m);
                    assert(matcher_groups(out@) =~= seq![(regex, views(patterns@))]);
                },
                None => {
                    assert(matcher_groups(out@) =~= Seq::<(RegexStrategy, Seq<Seq<char>>)>::empty());
                },
            }
            out
        },
    }
}

proof fn lemma_singletons_keep(strategy: RegexStrategy, ps: Seq<Seq<char>>, i: int)
    requires
        0 <= i < ps.len(),
        spec_builds(strategy, seq![ps[i]]),
    ensures
        exists|k: int|
            0 <= k < buildable_singletons(strategy, ps).len() && #[trigger] buildable_singletons(strategy, ps)[k] == (
            strategy,
            seq![ps[i]],
        ),
    decreases ps.len(),
{
    let rest = buildable_singletons(strategy, ps.drop_last());
    if i == ps.len() - 1 {
        assert(buildable_singletons(strategy, ps)[rest.len() as int] == (strategy, seq![ps[i]]));
    } else {
        assert(ps.drop_last()[i] == ps[i]);
        lemma_singletons_keep(strategy, ps.drop_last(), i);
        let k = choose|k: int| 0 <= k < rest.len() && #[trigger] rest[k] == (strategy, seq![ps[i]]);
        assert(buildable_singletons(strategy, ps)[k] == rest[k]);
    }
}

proof fn lemma_singletons_from(strategy: RegexStrategy, ps: Seq<Seq<char>>, k: int)
    requires
        0 <= k < buildable_singletons(strategy, ps).len(),
    ensures
        buildable_singletons(strategy, ps)[k].0 == strategy,
        buildable_singletons(strategy, ps)[k].1.len() == 1,
        ps.contains(buildable_singletons(strategy, ps)[k].1[0]),
    decreases ps.len(),
{
    let rest = buildable_singletons(strategy, ps.drop_last());
    if k < rest.len() {
        lemma_singletons_from(strategy, ps.drop_last(), k);
        let j = choose|j: int| 0 <= j < ps.drop_last().len() && ps.drop_last()[j] == rest[k].1[0];
        assert(ps[j] == rest[k].1[0]);
    } else {
        assert(ps[ps.len() - 1] == ps.last());
    }
}

/// No given pattern is dropped: with the combined strategy, when all the
/// patterns compile together, every one of them is in the single matcher;
/// with the individual strategy, every pattern that compiles alone has a
/// matcher of its own. So a text that a given pattern accepts reaches a
/// matcher built with that pattern.
pub proof fn lemma_matchers_keep_every_pattern(regex: RegexStrategy, matching: MatchingStrategy, ps: Seq<Seq<char>>, i: int)
    requires
        0 <= i < ps.len(),
        matching == MatchingStrategy::Individual ==> spec_builds(regex, seq![ps[i]]),
        matching == MatchingStrategy::Combined ==> spec_builds(regex, ps),
    ensures
        exists|k: int|
            0 <= k < spec_matchers(regex, matching, ps).len() && (#[trigger] spec_matchers(regex, matching, ps)[k]).0
                == regex && spec_matchers(regex, matching, ps)[k].1.contains(ps[i]),
{
    match matching {
        MatchingStrategy::Individual => {
            lemma_singletons_keep(regex, ps, i);
            let k = choose|k: int|
                0 <= k < buildable_singletons(regex, ps).len() && #[trigger] buildable_singletons(regex, ps)[k] == (
                regex,
                seq![ps[i]],
            );
            assert(seq![ps[i]][0] == ps[i]);
            assert(spec_matchers(regex, matching, ps)[k].1.contains(ps[i]));
        },
        MatchingStrategy::Combined => {
            assert(spec_matchers(regex, matching, ps)[0].1.contains(ps[i]));
        },
    }
}

/// No pattern is made up: every pattern of every matcher built is one of
/// the given patterns, and every matcher uses the given engine.
pub proof fn lemma_matchers_use_given_patterns(regex: RegexStrategy, matching: MatchingStrategy, ps: Seq<Seq<char>>, k: int, j: int)
    requires
        0 <= k < spec_matchers(regex, matching, ps).len(),
        0 <= j < spec_matchers(regex, matching, ps)[k].1.len(),
    ensures
        spec_matchers(regex, matching, ps)[k].0 == regex,
        ps.contains(spec_matchers(regex, matching, ps)[k].1[j]),
{
    match matching {
        MatchingStrategy::Individual => {
            lemma_singletons_from(regex, ps, k);
        },
        MatchingStrategy::Combined => {
            assert(ps[j] == spec_matchers(regex, matching, ps)[k].1[j]);
        },
    }
}

} // verus!
