//! Builders that collect a command's target, packages and options, and check
//! that the required ones are there.
use vstd::prelude::*;
use crate::color_support::ColorSupport;
use crate::command::{prefix_view, Command, CommandData};
use crate::command_error::CommandBuildError;
use crate::operation::CommandOperationImpl;
use crate::paths::views;
use crate::regex::{matcher_groups, spec_matchers};
use crate::stow_data::{ListData, RestowData, StowData, StowOptions, StowStrategies, UnstowData};

verus! {

/// What a [`CommandBuilder`] holds.
pub struct BuilderView {
    pub target: Option<Seq<char>>,
    pub packages: Option<Seq<Seq<char>>>,
    pub dot_file_prefix: Option<Seq<char>>,
    pub operation: CommandOperationImpl,
}

/// What a [`StowCommandBuilder`] (or a [`RestowCommandBuilder`]) holds. The
/// patterns are kept without repetition, in the order they were first given.
pub struct StowBuilderView {
    pub base: BuilderView,
    pub ignored: Seq<Seq<char>>,
    pub overrides: Seq<Seq<char>>,
    pub no_folding: bool,
    pub strategies: StowStrategies,
}

/// What a [`ListCommandBuilder`] holds.
pub struct ListBuilderView {
    pub base: BuilderView,
    pub color_support: ColorSupport,
}

/// The packages as character sequences.
pub open spec fn packages_view(p: Option<Vec<String>>) -> Option<Seq<Seq<char>>> {
    match p {
        Some(v) => Some(views(v@)),
        None => None,
    }
}

/// `s` without repetitions, each element kept where it first occurs.
pub open spec fn dedup(s: Seq<Seq<char>>) -> Seq<Seq<char>>
    decreases s.len(),
{
    if s.len() == 0 {
        Seq::empty()
    } else {
        let r = dedup(s.drop_last());
        if r.contains(s.last()) {
            r
        } else {
            r.push(s.last())
        }
    }
}

/// `s` with `x` added at the end, unless it is there already.
pub open spec fn insert_unique(s: Seq<Seq<char>>, x: Seq<char>) -> Seq<Seq<char>> {
    if s.contains(x) {
        s
    } else {
        s.push(x)
    }
}

/// Target and packages when both are set, or the error for the first one missing.
pub open spec fn required_parts(v: BuilderView) -> Result<(Seq<char>, Seq<Seq<char>>), CommandBuildError> {
    match v.target {
        None => Err(CommandBuildError::MissingTargetDirectory),
        Some(t) => match v.packages {
            None => Err(CommandBuildError::MissingStowDirectory),
            Some(p) => Ok((t, p)),
        },
    }
}

/// The stow data that a stow builder holding `v` builds.
pub open spec fn stow_data_built(v: StowBuilderView, d: StowData) -> bool {
    &&& required_parts(v.base) == Ok::<(Seq<char>, Seq<Seq<char>>), CommandBuildError>((d.target@, views(d.packages@)))
    &&& prefix_view(d.options.dot_file_prefix) == v.base.dot_file_prefix
    &&& d.options.no_folding == v.no_folding
    &&& d.options.linking_strategy == v.strategies.linking
    &&& matcher_groups(d.options.filter.ignored@) == spec_matchers(v.strategies.regex, v.strategies.matching, v.ignored)
    &&& matcher_groups(d.options.filter.overrides@) == spec_matchers(v.strategies.regex, v.strategies.matching, v.overrides)
}

/// The command that a stow builder holding `v` builds.
pub open spec fn stow_built(v: StowBuilderView, cmd: Command) -> bool {
    match cmd {
        Command::Stow(c) => stow_data_built(v, c.data) && c.operation == v.base.operation,
        _ => false,
    }
}

/// The command that a restow builder holding `v` builds: the unstow of the
/// target and packages, then their stow.
pub open spec fn restow_built(v: StowBuilderView, cmd: Command) -> bool {
    match cmd {
        Command::Restow(c) => {
            &&& stow_data_built(v, c.data.stow)
            &&& c.operation == v.base.operation
            &&& c.data.unstow.target == c.data.stow.target
            &&& c.data.unstow.packages@ == c.data.stow.packages@
            &&& c.data.unstow.dot_file_prefix == c.data.stow.options.dot_file_prefix
        },
        _ => false,
    }
}

/// The command that an unstow builder holding `v` builds.
pub open spec fn unstow_built(v: BuilderView, cmd: Command) -> bool {
    match cmd {
        Command::Unstow(c) => {
            &&& required_parts(v) == Ok::<(Seq<char>, Seq<Seq<char>>), CommandBuildError>((c.data.target@, views(c.data.packages@)))
            &&& prefix_view(c.data.dot_file_prefix) == v.dot_file_prefix
            &&& c.operation == v.operation
        },
        _ => false,
    }
}

/// The command that a list builder holding `v` builds.
pub open spec fn list_built(v: ListBuilderView, cmd: Command) -> bool {
    match cmd {
        Command::List(c) => {
            &&& required_parts(v.base) == Ok::<(Seq<char>, Seq<Seq<char>>), CommandBuildError>((c.data.target@, views(c.data.packages@)))
            &&& prefix_view(c.data.dot_file_prefix) == v.base.dot_file_prefix
            &&& c.data.color_support == v.color_support
            &&& c.operation == v.base.operation
        },
        _ => false,
    }
}

/// The outcome of building: the error for the first part missing, or a command
/// that satisfies `built`.
pub open spec fn build_result<T>(v: BuilderView, r: Result<T, CommandBuildError>, built: spec_fn(T) -> bool) -> bool {
    match r {
        Ok(c) => required_parts(v) is Ok && built(c),
        Err(e) => required_parts(v) == Err::<(Seq<char>, Seq<Seq<char>>), CommandBuildError>(e),
    }
}

/// Collects the settings shared by all commands.
pub struct CommandBuilder {
    target: Option<String>,
    packages: Option<Vec<String>>,
    dot_file_prefix: Option<String>,
    operation: CommandOperationImpl,
}

/// Collects the settings of a stow.
pub struct StowCommandBuilder {
    builder: CommandBuilder,
    ignored: Vec<String>,
    overrides: Vec<String>,
    no_folding: bool,
    strategies: StowStrategies,
}

/// Collects the settings of an unstow.
pub struct UnstowCommandBuilder {
    builder: CommandBuilder,
}

/// Collects the settings of a restow.
pub struct RestowCommandBuilder {
    stow_command: StowCommandBuilder,
}

/// Collects the settings of a list.
pub struct ListCommandBuilder {
    builder: CommandBuilder,
    color_support: ColorSupport,
}

impl View for CommandBuilder {
    type V = BuilderView;

    closed spec fn view(&self) -> BuilderView {
        BuilderView {
            target: prefix_view(self.target),
            packages: packages_view(self.packages),
            dot_file_prefix: prefix_view(self.dot_file_prefix),
            operation: self.operation,
        }
    }
}

impl View for StowCommandBuilder {
    type V = StowBuilderView;

    closed spec fn view(&self) -> StowBuilderView {
        StowBuilderView {
            base: self.builder@,
            ignored: views(self.ignored@),
            overrides: views(self.overrides@),
            no_folding: self.no_folding,
            strategies: self.strategies,
        }
    }
}

impl View for UnstowCommandBuilder {
    type V = BuilderView;

    closed spec fn view(&self) -> BuilderView {
        self.builder@
    }
}

impl View for RestowCommandBuilder {
    type V = StowBuilderView;

    closed spec fn view(&self) -> StowBuilderView {
        self.stow_command@
    }
}

impl View for ListCommandBuilder {
    type V = ListBuilderView;

    closed spec fn view(&self) -> ListBuilderView {
        ListBuilderView { base: self.builder@, color_support: self.color_support }
    }
}

/// Whether `v` holds a string equal to `x`.
fn contains_string(v: &Vec<String>, x: &String) -> (r: bool)
    ensures
        r == views(v@).contains(x@),
{
    let mut i: usize = 0;
    while i < v.len()
        invariant
            i <= v@.len(),
            forall|j: int| 0 <= j < i ==> views(v@)[j] != x@,
        decreases v.len() - i,
    {
        if v[i] == *x {
            assert(views(v@)[i as int] == x@);
            return true;
        }
        i = i + 1;
    }
    false
}

/// Adds `x` at the end of `v`, unless it is there already.
pub(crate) fn push_unique(v: &mut Vec<String>, x: String)
    ensures
        views(final(v)@) == insert_unique(views(old(v)@), x@),
{
    if !contains_string(v, &x) {
        let ghost before = v@;
        v.push(x);
        assert(views(v@) =~= views(before).push(x@));
    }
}

/// The strings of `v`, each kept where it first occurs.
pub(crate) fn unique_strings(v: Vec<String>) -> (r: Vec<String>)
    ensures
        views(r@) == dedup(views(v@)),
{
    let mut out: Vec<String> = Vec::new();
    let mut i: usize = 0;
    while i < v.len()
        invariant
            i <= v@.len(),
            views(out@) == dedup(views(v@).take(i as int)),
        decreases v.len() - i,
    {
        proof {
            let t = views(v@).take(i + 1);
            assert(t.drop_last() =~= views(v@).take(i as int));
            assert(t.last() == v@[i as int]@);
        }
        push_unique(&mut out, v[i].clone());
        i = i + 1;
    }
    assert(views(v@).take(v.len() as int) =~= views(v@));
    out
}

impl CommandBuilder {
    /// What a new builder holds: nothing set, a run on the file system.
    pub open spec fn new_view() -> BuilderView {
        BuilderView { target: None, packages: None, dot_file_prefix: None, operation: CommandOperationImpl::Default }
    }

    /// A builder with nothing set, for running on the file system.
    pub fn new() -> (r: Self)
        ensures
            r@ == (BuilderView { target: None, packages: None, dot_file_prefix: None, operation: CommandOperationImpl::Default }),
    {
        CommandBuilder { target: None, packages: None, dot_file_prefix: None, operation: CommandOperationImpl::Default }
    }

    /// Sets the target directory.
    pub fn with_target(self, target: String) -> (r: Self)
        ensures
            r@ == (BuilderView { target: Some(target@), ..self@ }),
    {
        CommandBuilder { target: Some(target), ..self }
    }

    /// Sets the packages to stow.
    pub fn with_packages(self, packages: Vec<String>) -> (r: Self)
        ensures
            r@ == (BuilderView { packages: Some(views(packages@)), ..self@ }),
    {
        CommandBuilder { packages: Some(packages), ..self }
    }

    /// Sets the dot-file prefix.
    pub fn with_dot_file_prefix(self, prefix: Option<String>) -> (r: Self)
        ensures
            r@ == (BuilderView { dot_file_prefix: prefix_view(prefix), ..self@ }),
    {
        CommandBuilder { dot_file_prefix: prefix, ..self }
    }

    /// Switches to a simulated run that prints in the given colors.
    pub fn simulate(self, color_support: ColorSupport) -> (r: Self)
        ensures
            r@ == (BuilderView { operation: CommandOperationImpl::Simulated(color_support), ..self@ }),
    {
        CommandBuilder { operation: CommandOperationImpl::Simulated(color_support), ..self }
    }

    /// Switches to a run on the file system.
    pub fn command(self) -> (r: Self)
        ensures
            r@ == (BuilderView { operation: CommandOperationImpl::Default, ..self@ }),
    {
        CommandBuilder { operation: CommandOperationImpl::Default, ..self }
    }

    /// Goes on with a stow, with no pattern, folding, and the default strategies.
    pub fn stow(self) -> (r: StowCommandBuilder)
        ensures
            r@ == self@.spec_stow_of(),
    {
        let r = StowCommandBuilder {
            builder: self,
            ignored: Vec::new(),
            overrides: Vec::new(),
            no_folding: false,
            strategies: StowStrategies::default(),
        };
        assert(views(r.ignored@) =~= Seq::<Seq<char>>::empty());
        assert(views(r.overrides@) =~= Seq::<Seq<char>>::empty());
        r
    }

    /// Goes on with an unstow.
    pub fn unstow(self) -> (r: UnstowCommandBuilder)
        ensures
            r@ == self@,
    {
        UnstowCommandBuilder { builder: self }
    }

    /// Goes on with a restow, with no pattern, folding, and the default strategies.
    pub fn restow(self) -> (r: RestowCommandBuilder)
        ensures
            r@ == self@.spec_stow_of(),
    {
        RestowCommandBuilder { stow_command: self.stow() }
    }

    /// Goes on with a list, uncolored.
    pub fn list(self) -> (r: ListCommandBuilder)
        ensures
            r@ == (ListBuilderView { base: self@, color_support: ColorSupport::Uncolored }),
    {
        ListCommandBuilder { builder: self, color_support: ColorSupport::Uncolored }
    }
}

impl Default for CommandBuilder {
    fn default() -> (r: Self)
        ensures
            r@ == (BuilderView { target: None, packages: None, dot_file_prefix: None, operation: CommandOperationImpl::Default }),
    {
        CommandBuilder::new()
    }
}

impl StowCommandBuilder {
    /// A stow builder with nothing set.
    pub fn new() -> (r: Self)
        ensures
            r@ == CommandBuilder::new_view().spec_stow_of(),
    {
        CommandBuilder::new().stow()
    }

    /// Sets whether directories are created in the target instead of linked.
    pub fn with_no_folding(self, no_folding: bool) -> (r: Self)
        ensures
            r@ == (StowBuilderView { no_folding, ..self@ }),
    {
        StowCommandBuilder { no_folding, ..self }
    }

    /// Sets the target directory.
    pub fn with_target(self, target: String) -> (r: Self)
        ensures
            r@ == (StowBuilderView { base: BuilderView { target: Some(target@), ..self@.base }, ..self@ }),
    {
        StowCommandBuilder { builder: self.builder.with_target(target), ..self }
    }

    /// Sets the packages to stow.
    pub fn with_packages(self, packages: Vec<String>) -> (r: Self)
        ensures
            r@ == (StowBuilderView { base: BuilderView { packages: Some(views(packages@)), ..self@.base }, ..self@ }),
    {
        StowCommandBuilder { builder: self.builder.with_packages(packages), ..self }
    }

    /// Replaces the ignored patterns.
    pub fn with_ignored(self, ignored: Vec<String>) -> (r: Self)
        ensures
            r@ == (StowBuilderView { ignored: dedup(views(ignored@)), ..self@ }),
    {
        StowCommandBuilder { ignored: unique_strings(ignored), ..self }
    }

    /// Adds one ignored pattern.
    pub fn with_ignored_item(self, item: String) -> (r: Self)
        ensures
            r@ == (StowBuilderView { ignored: insert_unique(self@.ignored, item@), ..self@ }),
    {
        let mut s = self;
        push_unique(&mut s.ignored, item);
        s
    }

    /// Replaces the override patterns.
    pub fn with_overrides(self, overrides: Vec<String>) -> (r: Self)
        ensures
            r@ == (StowBuilderView { overrides: dedup(views(overrides@)), ..self@ }),
    {
        StowCommandBuilder { overrides: unique_strings(overrides), ..self }
    }

    /// Adds one override pattern.
    pub fn with_override_item(self, item: String) -> (r: Self)
        ensures
            r@ == (StowBuilderView { overrides: insert_unique(self@.overrides, item@), ..self@ }),
    {
        let mut s = self;
        push_unique(&mut s.overrides, item);
        s
    }

    /// Sets the engines, matching mode and linking strategy.
    pub fn with_strategies(self, strategies: StowStrategies) -> (r: Self)
        ensures
            r@ == (StowBuilderView { strategies, ..self@ }),
    {
        StowCommandBuilder { strategies, ..self }
    }

    /// Sets the dot-file prefix.
    pub fn with_dot_file_prefix(self, prefix: Option<String>) -> (r: Self)
        ensures
            r@ == (StowBuilderView { base: BuilderView { dot_file_prefix: prefix_view(prefix), ..self@.base }, ..self@ }),
    {
        StowCommandBuilder { builder: self.builder.with_dot_file_prefix(prefix), ..self }
    }

    /// Switches to a simulated run; everything else is kept.
    pub fn simulate(self, color_support: ColorSupport) -> (r: Self)
        ensures
            r@ == (StowBuilderView {
                base: BuilderView { operation: CommandOperationImpl::Simulated(color_support), ..self@.base },
                ..self@
            }),
    {
        StowCommandBuilder { builder: self.builder.simulate(color_support), ..self }
    }

    /// Switches to a run on the file system.
    pub fn command(self) -> (r: Self)
        ensures
            r@ == (StowBuilderView { base: BuilderView { operation: CommandOperationImpl::Default, ..self@.base }, ..self@ }),
    {
        StowCommandBuilder { builder: self.builder.command(), ..self }
    }

    /// Builds the stow: fails with `MissingTargetDirectory` when no target is
    /// set, else with `MissingStowDirectory` when no package is set.
    pub fn build(self) -> (r: Result<Command, CommandBuildError>)
        ensures
            build_result(self@.base, r, (|cmd: Command| stow_built(self@, cmd))),
    {
        let StowCommandBuilder { builder, ignored, overrides, no_folding, strategies } = self;
        let CommandBuilder { target, packages, dot_file_prefix, operation } = builder;
        let target = match target {
            Some(t) => t,
            None => {
                return Err(CommandBuildError::MissingTargetDirectory);
            },
        };
        let packages = match packages {
            Some(p) => p,
            None => {
                return Err(CommandBuildError::MissingStowDirectory);
            },
        };
        let options = StowOptions::new(dot_file_prefix, &strategies, no_folding, &ignored, &overrides);
        Ok(Command::Stow(CommandData { data: StowData::new(target, packages, options), operation }))
    }
}

impl Default for StowCommandBuilder {
    fn default() -> (r: Self)
        ensures
            r@ == CommandBuilder::new_view().spec_stow_of(),
    {
        StowCommandBuilder::new()
    }
}

impl BuilderView {
    /// What [`CommandBuilder::stow`] gives for a builder holding `self`.
    pub open spec fn spec_stow_of(self) -> StowBuilderView {
        StowBuilderView {
            base: self,
            ignored: Seq::empty(),
            overrides: Seq::empty(),
            no_folding: false,
            strategies: StowStrategies {
                linking: crate::strategy::LinkingStrategy::Short,
                regex: crate::strategy::RegexStrategy::Rust,
                matching: crate::strategy::MatchingStrategy::Combined,
            },
        }
    }
}

impl UnstowCommandBuilder {
    /// An unstow builder with nothing set.
    pub fn new() -> (r: Self)
        ensures
            r@ == CommandBuilder::new_view(),
    {
        CommandBuilder::new().unstow()
    }

    /// Sets the target directory.
    pub fn with_target(self, target: String) -> (r: Self)
        ensures
            r@ == (BuilderView { target: Some(target@), ..self@ }),
    {
        UnstowCommandBuilder { builder: self.builder.with_target(target) }
    }

    /// Sets the packages to unstow.
    pub fn with_packages(self, packages: Vec<String>) -> (r: Self)
        ensures
            r@ == (BuilderView { packages: Some(views(packages@)), ..self@ }),
    {
        UnstowCommandBuilder { builder: self.builder.with_packages(packages) }
    }

    /// Switches to a simulated run.
    pub fn simulate(self, color_support: ColorSupport) -> (r: Self)
        ensures
            r@ == (BuilderView { operation: CommandOperationImpl::Simulated(color_support), ..self@ }),
    {
        UnstowCommandBuilder { builder: self.builder.simulate(color_support) }
    }

    /// Switches to a run on the file system.
    pub fn command(self) -> (r: Self)
        ensures
            r@ == (BuilderView { operation: CommandOperationImpl::Default, ..self@ }),
    {
        UnstowCommandBuilder { builder: self.builder.command() }
    }

    /// Sets the dot-file prefix.
    pub fn with_dot_file_prefix(self, prefix: Option<String>) -> (r: Self)
        ensures
            r@ == (BuilderView { dot_file_prefix: prefix_view(prefix), ..self@ }),
    {
        UnstowCommandBuilder { builder: self.builder.with_dot_file_prefix(prefix) }
    }

    /// Builds the unstow: fails with `MissingTargetDirectory` when no target
    /// is set, else with `MissingStowDirectory` when no package is set.
    pub fn build(self) -> (r: Result<Command, CommandBuildError>)
        ensures
            build_result(self@, r, (|cmd: Command| unstow_built(self@, cmd))),
    {
        let CommandBuilder { target, packages, dot_file_prefix, operation } = self.builder;
        let target = match target {
            Some(t) => t,
            None => {
                return Err(CommandBuildError::MissingTargetDirectory);
            },
        };
        let packages = match packages {
            Some(p) => p,
            None => {
                return Err(CommandBuildError::MissingStowDirectory);
            },
        };
        Ok(Command::Unstow(CommandData { data: UnstowData::new(target, packages, dot_file_prefix), operation }))
    }
}

impl Default for UnstowCommandBuilder {
    fn default() -> (r: Self)
        ensures
            r@ == CommandBuilder::new_view(),
    {
        UnstowCommandBuilder::new()
    }
}

impl RestowCommandBuilder {
    /// A restow builder with nothing set.
    pub fn new() -> (r: Self)
        ensures
            r@ == CommandBuilder::new_view().spec_stow_of(),
    {
        CommandBuilder::new().restow()
    }

    /// Sets whether directories are created in the target instead of linked.
    pub fn with_no_folding(self, no_folding: bool) -> (r: Self)
        ensures
            r@ == (StowBuilderView { no_folding, ..self@ }),
    {
        RestowCommandBuilder { stow_command: self.stow_command.with_no_folding(no_folding) }
    }

    /// Sets the target directory.
    pub fn with_target(self, target: String) -> (r: Self)
        ensures
            r@ == (StowBuilderView { base: BuilderView { target: Some(target@), ..self@.base }, ..self@ }),
    {
        RestowCommandBuilder { stow_command: self.stow_command.with_target(target) }
    }

    /// Sets the packages to restow.
    pub fn with_packages(self, packages: Vec<String>) -> (r: Self)
        ensures
            r@ == (StowBuilderView { base: BuilderView { packages: Some(views(packages@)), ..self@.base }, ..self@ }),
    {
        RestowCommandBuilder { stow_command: self.stow_command.with_packages(packages) }
    }

    /// Replaces the ignored patterns.
    pub fn with_ignored(self, ignored: Vec<String>) -> (r: Self)
        ensures
            r@ == (StowBuilderView { ignored: dedup(views(ignored@)), ..self@ }),
    {
        RestowCommandBuilder { stow_command: self.stow_command.with_ignored(ignored) }
    }

    /// Adds one ignored pattern.
    pub fn with_ignored_item(self, item: String) -> (r: Self)
        ensures
            r@ == (StowBuilderView { ignored: insert_unique(self@.ignored, item@), ..self@ }),
    {
        RestowCommandBuilder { stow_command: self.stow_command.with_ignored_item(item) }
    }

    /// Replaces the override patterns.
    pub fn with_overrides(self, overrides: Vec<String>) -> (r: Self)
        ensures
            r@ == (StowBuilderView { overrides: dedup(views(overrides@)), ..self@ }),
    {
        RestowCommandBuilder { stow_command: self.stow_command.with_overrides(overrides) }
    }

    /// Adds one override pattern.
    pub fn with_override_item(self, item: String) -> (r: Self)
        ensures
            r@ == (StowBuilderView { overrides: insert_unique(self@.overrides, item@), ..self@ }),
    {
        RestowCommandBuilder { stow_command: self.stow_command.with_override_item(item) }
    }

    /// Sets the engines, matching mode and linking strategy.
    pub fn with_strategies(self, strategies: StowStrategies) -> (r: Self)
        ensures
            r@ == (StowBuilderView { strategies, ..self@ }),
    {
        RestowCommandBuilder { stow_command: self.stow_command.with_strategies(strategies) }
    }

    /// Switches to a simulated run; everything else is kept.
    pub fn simulate(self, color_support: ColorSupport) -> (r: Self)
        ensures
            r@ == (StowBuilderView {
                base: BuilderView { operation: CommandOperationImpl::Simulated(color_support), ..self@.base },
                ..self@
            }),
    {
        RestowCommandBuilder { stow_command: self.stow_command.simulate(color_support) }
    }

    /// Switches to a run on the file system.
    pub fn command(self) -> (r: Self)
        ensures
            r@ == (StowBuilderView { base: BuilderView { operation: CommandOperationImpl::Default, ..self@.base }, ..self@ }),
    {
        RestowCommandBuilder { stow_command: self.stow_command.command() }
    }

    /// Sets the dot-file prefix.
    pub fn with_dot_file_prefix(self, prefix: Option<String>) -> (r: Self)
        ensures
            r@ == (StowBuilderView { base: BuilderView { dot_file_prefix: prefix_view(prefix), ..self@.base }, ..self@ }),
    {
        RestowCommandBuilder { stow_command: self.stow_command.with_dot_file_prefix(prefix) }
    }

    /// Builds the restow: fails with `MissingTargetDirectory` when no target
    /// is set, else with `MissingStowDirectory` when no package is set.
    pub fn build(self) -> (r: Result<Command, CommandBuildError>)
        ensures
            build_result(self@.base, r, (|cmd: Command| restow_built(self@, cmd))),
    {
        let StowCommandBuilder { builder, ignored, overrides, no_folding, strategies } = self.stow_command;
        let CommandBuilder { target, packages, dot_file_prefix, operation } = builder;
        let target = match target {
            Some(t) => t,
            None => {
                return Err(CommandBuildError::MissingTargetDirectory);
            },
        };
        let packages = match packages {
            Some(p) => p,
            None => {
                return Err(CommandBuildError::MissingStowDirectory);
            },
        };
        let options = StowOptions::new(dot_file_prefix, &strategies, no_folding, &ignored, &overrides);
        Ok(Command::Restow(CommandData { data: RestowData::new(target, packages, options), operation }))
    }
}

impl Default for RestowCommandBuilder {
    fn default() -> (r: Self)
        ensures
            r@ == CommandBuilder::new_view().spec_stow_of(),
    {
        RestowCommandBuilder::new()
    }
}

impl ListCommandBuilder {
    /// A list builder with nothing set.
    pub fn new() -> (r: Self)
        ensures
            r@ == (ListBuilderView { base: CommandBuilder::new_view(), color_support: ColorSupport::Uncolored }),
    {
        CommandBuilder::new().list()
    }

    /// Sets the target directory.
    pub fn with_target(self, target: String) -> (r: Self)
        ensures
            r@ == (ListBuilderView { base: BuilderView { target: Some(target@), ..self@.base }, ..self@ }),
    {
        ListCommandBuilder { builder: self.builder.with_target(target), ..self }
    }

    /// Sets the packages to list.
    pub fn with_packages(self, packages: Vec<String>) -> (r: Self)
        ensures
            r@ == (ListBuilderView { base: BuilderView { packages: Some(views(packages@)), ..self@.base }, ..self@ }),
    {
        ListCommandBuilder { builder: self.builder.with_packages(packages), ..self }
    }

    /// Switches to a simulated run.
    pub fn simulate(self, color_support: ColorSupport) -> (r: Self)
        ensures
            r@ == (ListBuilderView {
                base: BuilderView { operation: CommandOperationImpl::Simulated(color_support), ..self@.base },
                ..self@
            }),
    {
        ListCommandBuilder { builder: self.builder.simulate(color_support), ..self }
    }

    /// Switches to a run on the file system; everything else is kept.
    pub fn command(self) -> (r: Self)
        ensures
            r@ == (ListBuilderView {
                base: BuilderView { operation: CommandOperationImpl::Default, ..self@.base },
                ..self@
            }),
    {
        ListCommandBuilder { builder: self.builder.command(), ..self }
    }

    /// Sets the dot-file prefix.
    pub fn with_dot_file_prefix(self, prefix: Option<String>) -> (r: Self)
        ensures
            r@ == (ListBuilderView { base: BuilderView { dot_file_prefix: prefix_view(prefix), ..self@.base }, ..self@ }),
    {
        ListCommandBuilder { builder: self.builder.with_dot_file_prefix(prefix), ..self }
    }

    /// Sets the colors of the listed lines.
    pub fn with_color_support(self, color_support: ColorSupport) -> (r: Self)
        ensures
            r@ == (ListBuilderView { color_support, ..self@ }),
    {
        ListCommandBuilder { color_support, ..self }
    }

    /// Builds the list: fails with `MissingTargetDirectory` when no target is
    /// set, else with `MissingStowDirectory` when no package is set.
    pub fn build(self) -> (r: Result<Command, CommandBuildError>)
        ensures
            build_result(self@.base, r, (|cmd: Command| list_built(self@, cmd))),
    {
        let CommandBuilder { target, packages, dot_file_prefix, operation } = self.builder;
        let target = match target {
            Some(t) => t,
            None => {
                return Err(CommandBuildError::MissingTargetDirectory);
            },
        };
        let packages = match packages {
            Some(p) => p,
            None => {
                return Err(CommandBuildError::MissingStowDirectory);
            },
        };
        let data = ListData::new(target, packages, dot_file_prefix, self.color_support);
        Ok(Command::List(CommandData { data, operation }))
    }
}

impl Default for ListCommandBuilder {
    fn default() -> (r: Self)
        ensures
            r@ == (ListBuilderView { base: CommandBuilder::new_view(), color_support: ColorSupport::Uncolored }),
    {
        ListCommandBuilder::new()
    }
}

/// Patterns are kept as a set: adding a pattern that is already there
/// changes nothing, so adding one twice is adding it once.
pub proof fn lemma_insert_unique_idempotent(s: Seq<Seq<char>>, x: Seq<char>)
    ensures
        insert_unique(insert_unique(s, x), x) == insert_unique(s, x),
        insert_unique(s, x).contains(x),
{
    if !s.contains(x) {
        assert(s.push(x)[s.len() as int] == x);
    }
}

proof fn lemma_contains_last(s: Seq<Seq<char>>, x: Seq<char>)
    requires
        s.len() > 0,
    ensures
        s.contains(x) <==> (s.drop_last().contains(x) || x == s.last()),
{
    if s.contains(x) && x != s.last() {
        let i = choose|i: int| 0 <= i < s.len() && s[i] == x;
        assert(i != s.len() - 1);
        assert(s.drop_last()[i] == x);
    }
    if s.drop_last().contains(x) {
        let i = choose|i: int| 0 <= i < s.drop_last().len() && s.drop_last()[i] == x;
        assert(s[i] == x);
    }
    if x == s.last() {
        assert(s[s.len() - 1] == x);
    }
}

/// A list of patterns made free of repetition holds no pattern twice, and
/// holds exactly the patterns of the list.
pub proof fn lemma_dedup_set(s: Seq<Seq<char>>)
    ensures
        dedup(s).no_duplicates(),
        forall|x: Seq<char>| dedup(s).contains(x) <==> s.contains(x),
    decreases s.len(),
{
    if s.len() > 0 {
        lemma_dedup_set(s.drop_last());
        let r = dedup(s.drop_last());
        let l = s.last();
        assert forall|x: Seq<char>| dedup(s).contains(x) <==> s.contains(x) by {
            lemma_contains_last(s, x);
            if !r.contains(l) {
                let t = r.push(l);
                assert(t.drop_last() =~= r);
                lemma_contains_last(t, x);
            }
        }
        if !r.contains(l) {
            let t = r.push(l);
            assert forall|i: int, j: int| 0 <= i < t.len() && 0 <= j < t.len() && i != j implies t[i] != t[j] by {
                if i < r.len() && j < r.len() {
                    assert(t[i] == r[i] && t[j] == r[j]);
                } else if i < r.len() {
                    assert(t[i] == r[i]);
                    assert(r.contains(r[i]));
                } else {
                    assert(t[j] == r[j]);
                    assert(r.contains(r[j]));
                }
            }
        }
    }
}

} // verus!
