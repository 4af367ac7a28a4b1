//! How packages are linked and how ignore/override patterns are compiled.
use vstd::prelude::*;
use vstd::string::*;
use crate::text::{eq_ignore_ascii_case, eq_ignore_ascii_case_spec};

verus! {

/// The regular-expression engine used for ignore and override patterns.
#[derive(Debug, Clone, Copy, PartialEq, Eq, Hash, PartialOrd, Ord, Structural)]
pub enum RegexStrategy {
    Rust,
    Pcre2,
}

/// Whether every pattern gets a matcher of its own or all patterns share one.
#[derive(Debug, Clone, Copy, PartialEq, Eq, Hash, PartialOrd, Ord, Structural)]
pub enum MatchingStrategy {
    Individual,
    Combined,
}

/// How symbolic links are written.
#[derive(Debug, Clone, Copy, PartialEq, Eq, Hash, PartialOrd, Ord, Structural)]
pub enum LinkingStrategy {
    Short,
    Full,
}

/// A text or a number that names no regex strategy.
#[derive(Debug, Clone)]
pub enum RegexStrategyError {
    InvalidRegexStrategyString { strategy: String },
    InvalidRegexStrategy { strategy: i64 },
}

/// A text or a number that names no matching strategy.
#[derive(Debug, Clone)]
pub enum MatchingStrategyError {
    InvalidMatchingStrategyString { strategy: String },
    InvalidMatchingStrategy { strategy: i64 },
}

/// A text or a number that names no linking strategy.
#[derive(Debug, Clone)]
pub enum LinkingStrategyError {
    InvalidLinkingStrategyString { strategy: String },
    InvalidLinkingStrategy { strategy: i64 },
}

impl Default for RegexStrategy {
    fn default() -> (r: Self)
        ensures
            r == RegexStrategy::Rust,
    {
        RegexStrategy::Rust
    }
}

impl Default for MatchingStrategy {
    fn default() -> (r: Self)
        ensures
            r == MatchingStrategy::Combined,
    {
        MatchingStrategy::Combined
    }
}

impl Default for LinkingStrategy {
    fn default() -> (r: Self)
        ensures
            r == LinkingStrategy::Short,
    {
        LinkingStrategy::Short
    }
}

impl RegexStrategy {
    /// The name under which the strategy is written in configuration files.
    pub open spec fn spec_name(self) -> Seq<char> {
        match self {
            RegexStrategy::Rust => "rust"@,
            RegexStrategy::Pcre2 => "pcre2"@,
        }
    }

    /// The strategy a text names, compared without ASCII case.
    pub open spec fn spec_parse(s: Seq<char>) -> Option<RegexStrategy> {
        if eq_ignore_ascii_case_spec(s, "rust"@) {
            Some(RegexStrategy::Rust)
        } else if eq_ignore_ascii_case_spec(s, "pcre2"@) {
            Some(RegexStrategy::Pcre2)
        } else {
            None
        }
    }

    /// The strategy with a given number: 0 is Rust, 1 is PCRE2.
    pub open spec fn spec_from_number(value: i64) -> Option<RegexStrategy> {
        if value == 0 {
            Some(RegexStrategy::Rust)
        } else if value == 1 {
            Some(RegexStrategy::Pcre2)
        } else {
            None
        }
    }

    /// Parses a strategy name without regard to ASCII case.
    pub fn from_str(s: &str) -> (r: Result<RegexStrategy, RegexStrategyError>)
        ensures
            match r {
                Ok(v) => Self::spec_parse(s@) == Some(v),
                Err(e) => Self::spec_parse(s@) is None && (e matches RegexStrategyError::InvalidRegexStrategyString { strategy } && strategy@ == s@),
            },
    {
        if eq_ignore_ascii_case(s, "rust") {
            Ok(RegexStrategy::Rust)
        } else if eq_ignore_ascii_case(s, "pcre2") {
            Ok(RegexStrategy::Pcre2)
        } else {
            Err(RegexStrategyError::InvalidRegexStrategyString { strategy: s.to_owned() })
        }
    }

    /// The strategy with the given number.
    pub fn try_from(value: i64) -> (r: Result<RegexStrategy, RegexStrategyError>)
        ensures
            match r {
                Ok(v) => Self::spec_from_number(value) == Some(v),
                Err(e) => Self::spec_from_number(value) is None && e == (RegexStrategyError::InvalidRegexStrategy { strategy: value }),
            },
    {
        match value {
            0 => Ok(RegexStrategy::Rust),
            1 => Ok(RegexStrategy::Pcre2),
            _ => Err(RegexStrategyError::InvalidRegexStrategy { strategy: value }),
        }
    }

    /// The name written for the strategy (also its display form).
    pub fn name(&self) -> (r: &'static str)
        ensures
            r@ == self.spec_name(),
    {
        match self {
            RegexStrategy::Rust => "rust",
            RegexStrategy::Pcre2 => "pcre2",
        }
    }
}

impl MatchingStrategy {
    /// The name under which the strategy is written in configuration files.
    pub open spec fn spec_name(self) -> Seq<char> {
        match self {
            MatchingStrategy::Individual => "individual"@,
            MatchingStrategy::Combined => "combined"@,
        }
    }

    /// The strategy a text names, compared without ASCII case.
    pub open spec fn spec_parse(s: Seq<char>) -> Option<MatchingStrategy> {
        if eq_ignore_ascii_case_spec(s, "individual"@) {
            Some(MatchingStrategy::Individual)
        } else if eq_ignore_ascii_case_spec(s, "combined"@) {
            Some(MatchingStrategy::Combined)
        } else {
            None
        }
    }

    /// The strategy with a given number: 0 is individual, 1 is combined.
    pub open spec fn spec_from_number(value: i64) -> Option<MatchingStrategy> {
        if value == 0 {
            Some(MatchingStrategy::Individual)
        } else if value == 1 {
            Some(MatchingStrategy::Combined)
        } else {
            None
        }
    }

    /// Parses a strategy name without regard to ASCII case.
    pub fn from_str(s: &str) -> (r: Result<MatchingStrategy, MatchingStrategyError>)
        ensures
            match r {
                Ok(v) => Self::spec_parse(s@) == Some(v),
                Err(e) => Self::spec_parse(s@) is None && (e matches MatchingStrategyError::InvalidMatchingStrategyString { strategy } && strategy@ == s@),
            },
    {
        if eq_ignore_ascii_case(s, "individual") {
            Ok(MatchingStrategy::Individual)
        } else if eq_ignore_ascii_case(s, "combined") {
            Ok(MatchingStrategy::Combined)
        } else {
            Err(MatchingStrategyError::InvalidMatchingStrategyString { strategy: s.to_owned() })
        }
    }

    /// The strategy with the given number.
    pub fn try_from(value: i64) -> (r: Result<MatchingStrategy, MatchingStrategyError>)
        ensures
            match r {
                Ok(v) => Self::spec_from_number(value) == Some(v),
                Err(e) => Self::spec_from_number(value) is None && e == (MatchingStrategyError::InvalidMatchingStrategy { strategy: value }),
            },
    {
        match value {
            0 => Ok(MatchingStrategy::Individual),
            1 => Ok(MatchingStrategy::Combined),
            _ => Err(MatchingStrategyError::InvalidMatchingStrategy { strategy: value }),
        }
    }

    /// The name written for the strategy (also its display form).
    pub fn name(&self) -> (r: &'static str)
        ensures
            r@ == self.spec_name(),
    {
        match self {
            MatchingStrategy::Individual => "individual",
            MatchingStrategy::Combined => "combined",
        }
    }
}

impl LinkingStrategy {
    /// The name under which the strategy is written in configuration files.
    pub open spec fn spec_name(self) -> Seq<char> {
        match self {
            LinkingStrategy::Short => "short"@,
            LinkingStrategy::Full => "full"@,
        }
    }

    /// The strategy a text names, compared without ASCII case.
    pub open spec fn spec_parse(s: Seq<char>) -> Option<LinkingStrategy> {
        if eq_ignore_ascii_case_spec(s, "short"@) {
            Some(LinkingStrategy::Short)
        } else if eq_ignore_ascii_case_spec(s, "full"@) {
            Some(LinkingStrategy::Full)
        } else {
            None
        }
    }

    /// The strategy with a given number: 0 is short, 1 is full.
    pub open spec fn spec_from_number(value: i64) -> Option<LinkingStrategy> {
        if value == 0 {
            Some(LinkingStrategy::Short)
        } else if value == 1 {
            Some(LinkingStrategy::Full)
        } else {
            None
        }
    }

    /// Parses a strategy name without regard to ASCII case.
    pub fn from_str(s: &str) -> (r: Result<LinkingStrategy, LinkingStrategyError>)
        ensures
            match r {
                Ok(v) => Self::spec_parse(s@) == Some(v),
                Err(e) => Self::spec_parse(s@) is None && (e matches LinkingStrategyError::InvalidLinkingStrategyString { strategy } && strategy@ == s@),
            },
    {
        if eq_ignore_ascii_case(s, "short") {
            Ok(LinkingStrategy::Short)
        } else if eq_ignore_ascii_case(s, "full") {
            Ok(LinkingStrategy::Full)
        } else {
            Err(LinkingStrategyError::InvalidLinkingStrategyString { strategy: s.to_owned() })
        }
    }

    /// The strategy with the given number.
    pub fn try_from(value: i64) -> (r: Result<LinkingStrategy, LinkingStrategyError>)
        ensures
            match r {
                Ok(v) => Self::spec_from_number(value) == Some(v),
                Err(e) => Self::spec_from_number(value) is None && e == (LinkingStrategyError::InvalidLinkingStrategy { strategy: value }),
            },
    {
        match value {
            0 => Ok(LinkingStrategy::Short),
            1 => Ok(LinkingStrategy::Full),
            _ => Err(LinkingStrategyError::InvalidLinkingStrategy { strategy: value }),
        }
    }

    /// The name written for the strategy (also its display form).
    pub fn name(&self) -> (r: &'static str)
        ensures
            r@ == self.spec_name(),
    {
        match self {
            LinkingStrategy::Short => "short",
            LinkingStrategy::Full => "full",
        }
    }
}

/// Reading a regex strategy's written name, in any letter case, gives the strategy back.
pub proof fn lemma_regex_strategy_name_round_trip(v: RegexStrategy, s: Seq<char>)
    requires
        eq_ignore_ascii_case_spec(s, v.spec_name()),
    ensures
        RegexStrategy::spec_parse(s) == Some(v),
{
    reveal_strlit("rust");
    reveal_strlit("pcre2");
    if v == RegexStrategy::Pcre2 {
        assert(!eq_ignore_ascii_case_spec(s, "rust"@));
    }
}

/// Reading a matching strategy's written name, in any letter case, gives the strategy back.
pub proof fn lemma_matching_strategy_name_round_trip(v: MatchingStrategy, s: Seq<char>)
    requires
        eq_ignore_ascii_case_spec(s, v.spec_name()),
    ensures
        MatchingStrategy::spec_parse(s) == Some(v),
{
    reveal_strlit("individual");
    reveal_strlit("combined");
    if v == MatchingStrategy::Combined {
        assert(!eq_ignore_ascii_case_spec(s, "individual"@));
    }
}

/// Reading a linking strategy's written name, in any letter case, gives the strategy back.
pub proof fn lemma_linking_strategy_name_round_trip(v: LinkingStrategy, s: Seq<char>)
    requires
        eq_ignore_ascii_case_spec(s, v.spec_name()),
    ensures
        LinkingStrategy::spec_parse(s) == Some(v),
{
    reveal_strlit("short");
    reveal_strlit("full");
    if v == LinkingStrategy::Full {
        assert(!eq_ignore_ascii_case_spec(s, "short"@));
    }
}

} // verus!
