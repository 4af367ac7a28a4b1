//! Stow, unstow, restow and list: walking the packages and deciding, entry by
//! entry, what to link, create, remove or show in the target directory.
use vstd::prelude::*;
use vstd::string::*;
use crate::command_error::CommandError;
use crate::color_support::arrow_line;
use crate::operation::{change, ChangeKind, CommandOperation, CommandOperationImpl, FsChange, FsEvent, Recorder};
use crate::paths::{
    dot, file_name, inside, is_absolute, components, join, parent, rooted_remainder, same_path,
    lemma_join_file_name_inside, lemma_parent_components, lemma_prefix_inside, path_file_name,
    path_join, path_parent, path_rooted_remainder, paths_equal,
};
use crate::regex::{any_accepts, matcher_groups, matches_any};
use crate::strategy::RegexStrategy;
use crate::stow_data::{ListData, RestowData, StowData, StowFilter, UnstowData};

verus! {

/// A command's data, and how it is meant to be run.
pub struct CommandData<D> {
    pub data: D,
    pub operation: CommandOperationImpl,
}

/// A built command, ready to be executed.
pub enum Command {
    Stow(CommandData<StowData>),
    Unstow(CommandData<UnstowData>),
    Restow(CommandData<RestowData>),
    List(CommandData<ListData>),
}

// ---------------------------------------------------------------------------
// What is said of the changes a command asks for.

/// `new` starts with all of `old`.
pub open spec fn extends<T>(new: Seq<T>, old: Seq<T>) -> bool {
    &&& old.len() <= new.len()
    &&& forall|i: int| 0 <= i < old.len() ==> new[i] == old[i]
}

/// Every change of `log` from index `from` on has property `p`.
pub open spec fn all_from(log: Seq<FsChange>, from: int, p: spec_fn(FsChange) -> bool) -> bool {
    forall|i: int| from <= i < log.len() ==> #[trigger] p(log[i])
}

/// The change lies strictly inside `t`.
pub open spec fn inside_of(t: Seq<char>) -> spec_fn(FsChange) -> bool {
    |c: FsChange| inside(c.path, t)
}

/// The change lies inside `t` or is `t` itself.
pub open spec fn within(t: Seq<char>) -> spec_fn(FsChange) -> bool {
    |c: FsChange| inside(c.path, t) || c.path == t
}

/// A removal is of a path that one of the override pattern lists accepts.
pub open spec fn removal_overridden(groups: Seq<(RegexStrategy, Seq<Seq<char>>)>) -> spec_fn(FsChange) -> bool {
    |c: FsChange| c.kind == ChangeKind::Remove ==> any_accepts(groups, c.path)
}

/// The change removes a file, a directory or a link.
pub open spec fn is_removal() -> spec_fn(FsChange) -> bool {
    |c: FsChange| c.kind == ChangeKind::Remove || c.kind == ChangeKind::RemoveLink
}

/// The override pattern lists of a stow.
pub open spec fn override_groups(filter: StowFilter) -> Seq<(RegexStrategy, Seq<Seq<char>>)> {
    matcher_groups(filter.overrides@)
}

/// The ignore pattern lists of a stow.
pub open spec fn ignore_groups(filter: StowFilter) -> Seq<(RegexStrategy, Seq<Seq<char>>)> {
    matcher_groups(filter.ignored@)
}

/// The prefix as characters.
pub open spec fn prefix_view(p: Option<String>) -> Option<Seq<char>> {
    match p {
        Some(s) => Some(s@),
        None => None,
    }
}

/// What the changes of a stow from index `from` on satisfy: with no dot-file
/// prefix they all lie strictly inside the target, and a file is removed only
/// where an override pattern accepts its path.
pub open spec fn stow_keeps(data: StowData, log: Seq<FsChange>, from: int) -> bool {
    &&& data.options.dot_file_prefix is None ==> all_from(log, from, inside_of(data.target@))
    &&& all_from(log, from, removal_overridden(override_groups(data.options.filter)))
}

/// What the changes of an unstow from index `from` on satisfy: they are all
/// removals, and with no dot-file prefix they lie strictly inside the target.
pub open spec fn unstow_keeps(data: UnstowData, log: Seq<FsChange>, from: int) -> bool {
    &&& all_from(log, from, is_removal())
    &&& data.dot_file_prefix is None ==> all_from(log, from, inside_of(data.target@))
}

/// The name an entry gets in the target: its file name, with a leading
/// dot-file prefix replaced by `.`; `None` when the path has no file name.
pub open spec fn item_name(item: Seq<char>, prefix: Option<Seq<char>>) -> Option<Seq<char>> {
    match file_name(item) {
        None => None,
        Some(n) => match prefix {
            Some(p) => if p.len() <= n.len() && n.subrange(0, p.len() as int) == p {
                Some(dot() + n.subrange(p.len() as int, n.len() as int))
            } else {
                Some(n)
            },
            None => Some(n),
        },
    }
}

/// How far a walk may still descend below `t`: a path is a string, whose
/// length fits in `usize`, and each step down makes it longer.
pub open spec fn budget(t: Seq<char>) -> nat {
    if t.len() <= usize::MAX {
        (usize::MAX + 1 - t.len()) as nat
    } else {
        0
    }
}

// ---------------------------------------------------------------------------
// What is said of the questions a command puts to the file system, in
// order, with the answers it got. A predicate below takes `ev`, exactly the
// events of one call, and `r`, its result.

/// The events of `log` from index `from` on.
pub open spec fn since(log: Seq<FsEvent>, from: int) -> Seq<FsEvent> {
    log.subrange(from, log.len() as int)
}

/// An emptiness check of `path`: it asks whether `path` is a directory, and
/// only then reads it; `r` is whether the read gave no entry at all.
pub open spec fn empty_check(path: Seq<char>, ev: Seq<FsEvent>, r: bool) -> bool {
    &&& ev.len() >= 1
    &&& ev[0] matches FsEvent::IsDirectory { path: p, .. } && p == path
    &&& !ev[0]->IsDirectory_answer ==> ev.len() == 1 && !r
    &&& ev[0]->IsDirectory_answer ==> {
        &&& ev.len() == 2
        &&& ev[1] matches FsEvent::Listed { path: p, .. } && p == path
        &&& r == (ev[1]->Listed_answer matches Ok(v) && v@.len() == 0)
    }
}

/// The event at `i` removes a path that the two events before it found to
/// be a directory with no entry.
pub open spec fn removes_seen_empty(ev: Seq<FsEvent>, i: int) -> bool {
    &&& 2 <= i
    &&& ev[i] matches FsEvent::Changed { change: c, .. } && c == change(ChangeKind::Remove, c.path)
        && ev[i - 2] == (FsEvent::IsDirectory { path: c.path, answer: true })
        && (ev[i - 1] matches FsEvent::Listed { path: p, answer: Ok(v) } && p == c.path && v@.len() == 0)
}

/// A cleanup of the directories above `path`, up to `root`: it asks nothing
/// when there is no parent or the parent is `root`, begins with whether the
/// parent is a directory otherwise, removes only directories it has just
/// found empty, and fails only with the error of a removal, its last event.
pub open spec fn cleanup_done(path: Seq<char>, root: Seq<char>, ev: Seq<FsEvent>, r: Result<(), CommandError>) -> bool {
    &&& (match parent(path) { None => true, Some(p) => same_path(p, root) }) ==> ev.len() == 0 && r is Ok
    &&& parent(path) matches Some(p) ==> (!same_path(p, root) ==> ev.len() >= 1
        && (ev[0] matches FsEvent::IsDirectory { path: q, .. } && q == p))
    &&& forall|i: int| 0 <= i < ev.len() && (#[trigger] ev[i]) is Changed ==> removes_seen_empty(ev, i)
    &&& r matches Err(e) ==> ev.len() >= 1 && (ev[ev.len() - 1] matches FsEvent::Changed { answer: Err(e2), .. } && e2 == e)
}

/// [`removes_seen_empty`], on the events of `log` from `from` on.
pub open spec fn removes_seen_empty_from(log: Seq<FsEvent>, from: int, i: int) -> bool {
    &&& from + 2 <= i
    &&& log[i] matches FsEvent::Changed { change: c, .. } && c == change(ChangeKind::Remove, c.path)
        && log[i - 2] == (FsEvent::IsDirectory { path: c.path, answer: true })
        && (log[i - 1] matches FsEvent::Listed { path: p, answer: Ok(v) } && p == c.path && v@.len() == 0)
}

/// The first question of a cleanup above `path`, from `from` on in `log`.
pub open spec fn cleanup_first(path: Seq<char>, root: Seq<char>, log: Seq<FsEvent>, from: int) -> bool {
    parent(path) matches Some(p) && !same_path(p, root) && from < log.len()
        && (log[from] matches FsEvent::IsDirectory { path: q, .. } && q == p)
}

/// [`cleanup_done`], on the events of `log` from `from` on.
pub open spec fn cleanup_done_from(path: Seq<char>, root: Seq<char>, log: Seq<FsEvent>, from: int, r: Result<(), CommandError>) -> bool {
    &&& (match parent(path) { None => true, Some(p) => same_path(p, root) }) ==> log.len() == from && r is Ok
    &&& (parent(path) matches Some(p) && !same_path(p, root)) ==> cleanup_first(path, root, log, from)
    &&& forall|i: int| from <= i < log.len() && (#[trigger] log[i]) is Changed ==> removes_seen_empty_from(log, from, i)
    &&& r matches Err(e) ==> from < log.len() && (log[log.len() - 1] matches FsEvent::Changed { answer: Err(e2), .. } && e2 == e)
}

/// The canonical path of the entry whose events are `ev`.
pub open spec fn canon(ev: Seq<FsEvent>) -> Seq<char> {
    match ev[0]->Canonical_answer {
        Ok(c) => c@,
        Err(_) => Seq::empty(),
    }
}

/// The entry's place was found to be a link that points to the entry.
pub open spec fn links_back(ev: Seq<FsEvent>) -> bool {
    ev[1]->IsSymlink_answer && (ev[2]->LinkRead_answer matches Ok(p) && same_path(p@, canon(ev)))
}

/// The index of the first event after the questions about the entry's place.
pub open spec fn after_link(ev: Seq<FsEvent>) -> int {
    if ev[1]->IsSymlink_answer {
        3
    } else {
        2
    }
}

/// How the look at the entry `item` of an unstow or a list begins: its path
/// is made canonical first, and a failure is the result; an entry with no
/// file name fails with `InvalidStowItem`; else `Some` of its place in
/// `target`, after it asked whether the place is a link, and only then
/// where it points.
pub open spec fn entry_look(item: Seq<char>, target: Seq<char>, prefix: Option<Seq<char>>, ev: Seq<FsEvent>, r: Result<(), CommandError>) -> Option<Seq<char>> {
    if ev.len() >= 1 && (ev[0] matches FsEvent::Canonical { path, .. } && path == item) {
        match ev[0]->Canonical_answer {
            Err(m) => {
                if ev.len() == 1 && (r matches Err(CommandError::InvalidPath { path, message }) && path@ == item && message == m) {
                    Some(Seq::empty())
                } else {
                    None
                }
            },
            Ok(c) => match item_name(c@, prefix) {
                None => if ev.len() == 1 && (r matches Err(CommandError::InvalidStowItem { item: i }) && i@ == c@) {
                    Some(Seq::empty())
                } else {
                    None
                },
                Some(n) => if ev.len() >= 2 && (ev[1] matches FsEvent::IsSymlink { path, .. } && path == join(target, n))
                    && (ev[1]->IsSymlink_answer ==> ev.len() >= 3
                    && (ev[2] matches FsEvent::LinkRead { path, .. } && path == join(target, n))) {
                    Some(join(target, n))
                } else {
                    None
                },
            },
        }
    } else {
        None
    }
}

/// The look ended at its start: the path could not be made canonical, or
/// the entry has no name.
pub open spec fn look_stopped(ev: Seq<FsEvent>, prefix: Option<Seq<char>>) -> bool {
    match ev[0]->Canonical_answer {
        Err(_) => true,
        Ok(c) => item_name(c@, prefix) is None,
    }
}

/// From `at` on it asks whether `first` is a directory, and only when it
/// is, whether `second` is one.
pub open spec fn dirs_asked(ev: Seq<FsEvent>, at: int, first: Seq<char>, second: Seq<char>) -> bool {
    &&& at < ev.len()
    &&& ev[at] matches FsEvent::IsDirectory { path, .. } && path == first
    &&& ev[at]->IsDirectory_answer ==> at + 1 < ev.len()
        && (ev[at + 1] matches FsEvent::IsDirectory { path, .. } && path == second)
}

/// Both were found to be directories.
pub open spec fn both_dirs(ev: Seq<FsEvent>, at: int) -> bool {
    ev[at]->IsDirectory_answer && ev[at + 1]->IsDirectory_answer
}

/// The index after the questions of [`dirs_asked`].
pub open spec fn dirs_end(ev: Seq<FsEvent>, at: int) -> int {
    if ev[at]->IsDirectory_answer {
        at + 2
    } else {
        at + 1
    }
}

// ----- Stow.

/// The entry `item` of `package` is skipped by a stow: an ignore pattern
/// accepts its path, or its path below the package.
pub open spec fn stow_skips(item: Seq<char>, package: Seq<char>, filter: StowFilter) -> bool {
    ||| any_accepts(ignore_groups(filter), item)
    ||| (rooted_remainder(item, package) matches Some(u) && any_accepts(ignore_groups(filter), u))
}

/// A walk of the directory `entry` of `package` into `target`: it reads
/// the entries of `entry`, a failed read is the result, and then
/// [`stow_entries`].
pub open spec fn stow_walk(entry: Seq<char>, target: Seq<char>, package: Seq<char>, data: StowData, ev: Seq<FsEvent>, r: Result<(), CommandError>) -> bool
    decreases ev.len(), 3int, 0int,
{
    if ev.len() >= 1 {
        &&& ev[0] matches FsEvent::Listed { path, .. } && path == entry
        &&& match ev[0]->Listed_answer {
            Err(e) => ev.len() == 1 && r == Err::<(), CommandError>(e),
            Ok(v) => stow_entries(v@, target, package, data, ev.skip(1), r),
        }
    } else {
        false
    }
}

/// The entries `v` of a listing, stowed one after the other in their
/// order: an entry that could not be read is passed over, each other one
/// is stowed as [`stow_item_done`] says, with the events that follow, and
/// the first failure is the result, after which nothing more is asked.
pub open spec fn stow_entries(v: Seq<Result<String, CommandError>>, target: Seq<char>, package: Seq<char>, data: StowData, ev: Seq<FsEvent>, r: Result<(), CommandError>) -> bool
    decreases ev.len(), 2int, v.len(),
{
    if v.len() == 0 {
        ev.len() == 0 && r is Ok
    } else {
        match v.last() {
            Err(_) => stow_entries(v.drop_last(), target, package, data, ev, r),
            Ok(e) => {
                ||| r is Err && stow_entries(v.drop_last(), target, package, data, ev, r)
                ||| exists|k: int|
                    #![trigger ev.take(k)]
                    0 <= k <= ev.len() && stow_entries(v.drop_last(), target, package, data, ev.take(k), Ok(()))
                        && stow_item_done(e@, target, package, data, ev.skip(k), r)
            },
        }
    }
}

/// How a stow treats the entry `item` of `package`, to be placed in
/// `target`: a skipped entry asks nothing; a link is refused with
/// `InvalidStowItem`; it asks whether the entry is a directory; an entry
/// with no file name is refused; and then [`stow_place`], folding when the
/// entry is a directory and folding is off.
pub open spec fn stow_item_done(item: Seq<char>, target: Seq<char>, package: Seq<char>, data: StowData, ev: Seq<FsEvent>, r: Result<(), CommandError>) -> bool
    decreases ev.len(), 1int, 0int,
{
    let prefix = prefix_view(data.options.dot_file_prefix);
    if stow_skips(item, package, data.options.filter) {
        ev.len() == 0 && r is Ok
    } else if ev.len() >= 1 && (ev[0] matches FsEvent::IsSymlink { path, .. } && path == item) {
        if ev[0]->IsSymlink_answer {
            ev.len() == 1 && (r matches Err(CommandError::InvalidStowItem { item: i }) && i@ == item)
        } else if ev.len() >= 2 && (ev[1] matches FsEvent::IsDirectory { path, .. } && path == item) {
            match item_name(item, prefix) {
                None => ev.len() == 2 && (r matches Err(CommandError::InvalidStowItem { item: i }) && i@ == item),
                Some(n) => stow_place(
                    item,
                    join(target, n),
                    package,
                    data,
                    ev[1]->IsDirectory_answer && data.options.no_folding,
                    ev.skip(2),
                    r,
                ),
            }
        } else {
            false
        }
    } else {
        false
    }
}

/// What a stow does with a named entry `item` to be placed at `full`,
/// `fold` telling whether it is a directory and folding is off: it asks
/// whether `full` exists; a missing place is folded into when `fold`
/// ([`fold_done`]); else [`place_taken`].
pub open spec fn stow_place(item: Seq<char>, full: Seq<char>, package: Seq<char>, data: StowData, fold: bool, ev: Seq<FsEvent>, r: Result<(), CommandError>) -> bool
    decreases ev.len(), 0int, 2int,
{
    if fold {
        if ev.len() >= 1 && (ev[0] matches FsEvent::Exists { path, .. } && path == full) {
            if ev[0]->Exists_answer {
                place_taken(item, full, package, data, ev.skip(1), r)
            } else {
                fold_done(item, full, package, data, ev.skip(1), r)
            }
        } else {
            false
        }
    } else {
        place_taken(item, full, package, data, ev, r)
    }
}

/// It asks whether `full` exists: an existing place is handled as
/// [`existing_done`] says; else `full` becomes a link to `item`, and the
/// link's answer is the result.
pub open spec fn place_taken(item: Seq<char>, full: Seq<char>, package: Seq<char>, data: StowData, ev: Seq<FsEvent>, r: Result<(), CommandError>) -> bool
    decreases ev.len(), 0int, 1int,
{
    if ev.len() >= 1 && (ev[0] matches FsEvent::Exists { path, .. } && path == full) {
        if ev[0]->Exists_answer {
            existing_done(item, full, package, data, ev.skip(1), r)
        } else {
            ev.len() == 2 && ev[1] == (FsEvent::Changed {
                change: FsChange { kind: ChangeKind::Link, path: full, source: item },
                answer: r,
            })
        }
    } else {
        false
    }
}

/// A fold of `item` into `full`: the directory `full` is created first, a
/// failure is the result, and then each entry of `item` is stowed into it
/// ([`stow_walk`]).
pub open spec fn fold_done(item: Seq<char>, full: Seq<char>, package: Seq<char>, data: StowData, ev: Seq<FsEvent>, r: Result<(), CommandError>) -> bool
    decreases ev.len(), 0int, 0int,
{
    if ev.len() >= 1 && (ev[0] matches FsEvent::Changed { change: ch, .. } && ch == change(ChangeKind::CreateDirectory, full)) {
        match ev[0]->Changed_answer {
            Err(e) => ev.len() == 1 && r == Err::<(), CommandError>(e),
            Ok(_) => stow_walk(item, full, package, data, ev.skip(1), r),
        }
    } else {
        false
    }
}

/// How a stow treats an entry `item` whose place `full` exists: its path is
/// made canonical first (a failure is the result); a link at `full` that
/// points to it is kept, and a failed read of the link is the result; when
/// both are directories each entry of the entry is stowed into `full`; and
/// else [`replace_or_refuse`].
pub open spec fn existing_done(item: Seq<char>, full: Seq<char>, package: Seq<char>, data: StowData, ev: Seq<FsEvent>, r: Result<(), CommandError>) -> bool
    decreases ev.len(), 0int, 0int,
{
    if ev.len() >= 2 && (ev[0] matches FsEvent::Canonical { path, .. } && path == item) {
        match ev[0]->Canonical_answer {
            Err(m) => false,
            Ok(cs) => {
                let c = cs@;
                let j = if ev[1]->IsSymlink_answer { 3int } else { 2int };
                &&& ev[1] matches FsEvent::IsSymlink { path, .. } && path == full
                &&& ev[1]->IsSymlink_answer ==> ev.len() >= 3 && (ev[2] matches FsEvent::LinkRead { path, .. } && path == full)
                &&& ev[1]->IsSymlink_answer ==> (ev[2]->LinkRead_answer matches Err(e) ==> r == Err::<(), CommandError>(e) && ev.len() == 3)
                &&& ev[1]->IsSymlink_answer ==> ((ev[2]->LinkRead_answer matches Ok(p) && same_path(p@, c)) ==> r is Ok && ev.len() == 3)
                &&& (!ev[1]->IsSymlink_answer || (ev[2]->LinkRead_answer matches Ok(p) && !same_path(p@, c))) ==> {
                    &&& dirs_asked(ev, j, c, full)
                    &&& if both_dirs(ev, j) {
                        stow_walk(c, full, package, data, ev.skip(j + 2), r)
                    } else {
                        replace_or_refuse(c, full, data.options.filter, ev.skip(dirs_end(ev, j)), r)
                    }
                }
            },
        }
    } else {
        ev.len() == 1 && (ev[0] matches FsEvent::Canonical { path, answer: Err(m) } && path == item
            && (r matches Err(CommandError::InvalidPath { path: p, message }) && p@ == item && message == m))
    }
}

/// The last resort for an entry `c` whose place `full` is taken: when an
/// override pattern accepts `full` and it is a file, it is removed and
/// replaced by a link to the entry, and either failure is the result;
/// otherwise the stow fails with `DirectoryEntryAlreadyExists`, naming the
/// entry.
pub open spec fn replace_or_refuse(c: Seq<char>, full: Seq<char>, filter: StowFilter, ev: Seq<FsEvent>, r: Result<(), CommandError>) -> bool {
    let ov = any_accepts(override_groups(filter), full);
    &&& ov ==> ev.len() >= 1 && (ev[0] matches FsEvent::IsFile { path, .. } && path == full)
    &&& (ov && ev[0]->IsFile_answer) ==> {
        &&& ev.len() >= 2
        &&& ev[1] matches FsEvent::Changed { change: ch, .. } && ch == change(ChangeKind::Remove, full)
        &&& ev[1]->Changed_answer matches Err(e) ==> r == Err::<(), CommandError>(e) && ev.len() == 2
        &&& ev[1]->Changed_answer is Ok ==> ev.len() == 3 && ev[2] == (FsEvent::Changed {
            change: FsChange { kind: ChangeKind::Link, path: full, source: c },
            answer: r,
        })
    }
    &&& !(ov && ev[0]->IsFile_answer) ==> {
        &&& ev.len() == (if ov { 1int } else { 0int })
        &&& r matches Err(CommandError::DirectoryEntryAlreadyExists { directory: d }) && d@ == (match file_name(c) {
            Some(n) => n,
            None => "Unknown Name"@,
        })
    }
}

/// A stow of the package `directory`: a package that is the target itself
/// is refused with `InvalidStowDirectory`, asking nothing; then it asks
/// whether the target is a directory (else `InvalidTargetDirectory`) and
/// whether the package is one (else `StowDirectoryNotFound`); and then
/// each entry of the package is stowed into the target ([`stow_walk`]).
pub open spec fn stow_package_done(directory: Seq<char>, data: StowData, ev: Seq<FsEvent>, r: Result<(), CommandError>) -> bool {
    let t = data.target@;
    if same_path(directory, t) {
        ev.len() == 0 && (r matches Err(CommandError::InvalidStowDirectory { directory: d }) && d@ == directory)
    } else {
        &&& ev.len() >= 1
        &&& ev[0] matches FsEvent::IsDirectory { path, .. } && path == t
        &&& !ev[0]->IsDirectory_answer ==> ev.len() == 1
            && (r matches Err(CommandError::InvalidTargetDirectory { directory: d }) && d@ == t)
        &&& ev[0]->IsDirectory_answer ==> {
            &&& ev.len() >= 2
            &&& ev[1] matches FsEvent::IsDirectory { path, .. } && path == directory
            &&& !ev[1]->IsDirectory_answer ==> ev.len() == 2
                && (r matches Err(CommandError::StowDirectoryNotFound { directory: d }) && d@ == directory)
            &&& ev[1]->IsDirectory_answer ==> stow_walk(directory, t, directory, data, ev.skip(2), r)
        }
    }
}

/// The checks before a package is walked all passed: the package is not
/// the target, and both were found to be directories.
pub open spec fn package_checked(directory: Seq<char>, data: StowData, ev: Seq<FsEvent>) -> bool {
    !same_path(directory, data.target@) && ev.len() >= 2 && ev[0]->IsDirectory_answer && ev[1]->IsDirectory_answer
}

/// The packages `ps` stowed one after the other in their order, each as
/// [`stow_package_done`] says; the first failure is the result.
pub open spec fn stow_all(ps: Seq<String>, data: StowData, ev: Seq<FsEvent>, r: Result<(), CommandError>) -> bool
    decreases ps.len(),
{
    if ps.len() == 0 {
        ev.len() == 0 && r is Ok
    } else {
        ||| r is Err && stow_all(ps.drop_last(), data, ev, r)
        ||| exists|k: int|
            #![trigger ev.take(k)]
            0 <= k <= ev.len() && stow_all(ps.drop_last(), data, ev.take(k), Ok(()))
                && stow_package_done(ps.last()@, data, ev.skip(k), r)
    }
}

// ----- Unstow.

/// A walk of the directory `entry` out of `target`: it reads the entries of
/// `entry`, a failed read is the result, and then [`unstow_entries`].
pub open spec fn unstow_walk(entry: Seq<char>, target: Seq<char>, data: UnstowData, ev: Seq<FsEvent>, r: Result<(), CommandError>) -> bool
    decreases ev.len(), 3int, 0int,
{
    if ev.len() >= 1 {
        &&& ev[0] matches FsEvent::Listed { path, .. } && path == entry
        &&& match ev[0]->Listed_answer {
            Err(e) => ev.len() == 1 && r == Err::<(), CommandError>(e),
            Ok(v) => unstow_entries(v@, target, data, ev.skip(1), r),
        }
    } else {
        false
    }
}

/// The entries `v` of a listing, unstowed one after the other in their
/// order, each readable one as [`unstow_item_done`] says; the first failure
/// is the result.
pub open spec fn unstow_entries(v: Seq<Result<String, CommandError>>, target: Seq<char>, data: UnstowData, ev: Seq<FsEvent>, r: Result<(), CommandError>) -> bool
    decreases ev.len(), 2int, v.len(),
{
    if v.len() == 0 {
        ev.len() == 0 && r is Ok
    } else {
        match v.last() {
            Err(_) => unstow_entries(v.drop_last(), target, data, ev, r),
            Ok(e) => {
                ||| r is Err && unstow_entries(v.drop_last(), target, data, ev, r)
                ||| exists|k: int|
                    #![trigger ev.take(k)]
                    0 <= k <= ev.len() && unstow_entries(v.drop_last(), target, data, ev.take(k), Ok(()))
                        && unstow_item_done(e@, target, data, ev.skip(k), r)
            },
        }
    }
}

/// After a walk of the directory `full`: when it is now a directory with no
/// entry it is removed, a failed removal is the result, and the directories
/// left empty above it are cleaned up.
pub open spec fn emptied(full: Seq<char>, target: Seq<char>, ev: Seq<FsEvent>, r: Result<(), CommandError>) -> bool {
    &&& ev.len() >= 1
    &&& ev[0] matches FsEvent::IsDirectory { path, .. } && path == full
    &&& !ev[0]->IsDirectory_answer ==> ev.len() == 1 && r is Ok
    &&& ev[0]->IsDirectory_answer ==> {
        &&& ev.len() >= 2
        &&& ev[1] matches FsEvent::Listed { path, .. } && path == full
        &&& !(ev[1]->Listed_answer matches Ok(v) && v@.len() == 0) ==> ev.len() == 2 && r is Ok
        &&& (ev[1]->Listed_answer matches Ok(v) && v@.len() == 0) ==> {
            &&& ev.len() >= 3
            &&& ev[2] matches FsEvent::Changed { change: ch, .. } && ch == change(ChangeKind::Remove, full)
            &&& ev[2]->Changed_answer matches Err(e) ==> ev.len() == 3 && r == Err::<(), CommandError>(e)
            &&& ev[2]->Changed_answer is Ok ==> cleanup_done(full, target, ev.skip(3), r)
        }
    }
}

/// How an unstow treats the entry `item`, its place being in `target`:
/// [`entry_look`]; a link there that points to the entry is removed, a
/// failed removal is the result, and else the directories left empty above
/// it are cleaned up; otherwise, when the place and the entry are both
/// directories, each entry of the entry is unstowed from the place, and
/// then the place is removed if left empty ([`emptied`]); else it is done.
pub open spec fn unstow_item_done(item: Seq<char>, target: Seq<char>, data: UnstowData, ev: Seq<FsEvent>, r: Result<(), CommandError>) -> bool
    decreases ev.len(), 1int, 0int,
{
    let prefix = prefix_view(data.dot_file_prefix);
    match entry_look(item, target, prefix, ev, r) {
        None => false,
        Some(full) => if look_stopped(ev, prefix) {
            true
        } else {
            let c = canon(ev);
            let j = after_link(ev);
            if links_back(ev) {
                &&& j < ev.len()
                &&& ev[j] matches FsEvent::Changed { change: ch, .. } && ch == change(ChangeKind::RemoveLink, full)
                &&& ev[j]->Changed_answer matches Err(e) ==> r == Err::<(), CommandError>(e) && ev.len() == j + 1
                &&& ev[j]->Changed_answer is Ok ==> cleanup_done(full, target, ev.skip(j + 1), r)
            } else if dirs_asked(ev, j, full, c) {
                if both_dirs(ev, j) {
                    let w = ev.skip(j + 2);
                    ||| r is Err && unstow_walk(c, full, data, w, r)
                    ||| exists|k: int|
                        #![trigger w.take(k)]
                        0 <= k <= w.len() && unstow_walk(c, full, data, w.take(k), Ok(()))
                            && emptied(full, target, w.skip(k), r)
                } else {
                    r is Ok && ev.len() == dirs_end(ev, j)
                }
            } else {
                false
            }
        },
    }
}

/// The packages `ps` unstowed one after the other in their order, each
/// walked out of the target ([`unstow_walk`]); the first failure is the
/// result.
pub open spec fn unstow_all(ps: Seq<String>, data: UnstowData, ev: Seq<FsEvent>, r: Result<(), CommandError>) -> bool
    decreases ps.len(),
{
    if ps.len() == 0 {
        ev.len() == 0 && r is Ok
    } else {
        ||| r is Err && unstow_all(ps.drop_last(), data, ev, r)
        ||| exists|k: int|
            #![trigger ev.take(k)]
            0 <= k <= ev.len() && unstow_all(ps.drop_last(), data, ev.take(k), Ok(()))
                && unstow_walk(ps.last()@, data.target@, data, ev.skip(k), r)
    }
}

// ----- List.

/// A walk of the directory `entry` against `target`: it reads the entries
/// of `entry`, a failed read is the result, and then [`list_entries`].
pub open spec fn list_walk(entry: Seq<char>, target: Seq<char>, data: ListData, ev: Seq<FsEvent>, r: Result<(), CommandError>) -> bool
    decreases ev.len(), 3int, 0int,
{
    if ev.len() >= 1 {
        &&& ev[0] matches FsEvent::Listed { path, .. } && path == entry
        &&& match ev[0]->Listed_answer {
            Err(e) => ev.len() == 1 && r == Err::<(), CommandError>(e),
            Ok(v) => list_entries(v@, target, data, ev.skip(1), r),
        }
    } else {
        false
    }
}

/// The entries `v` of a listing, looked at one after the other in their
/// order, each readable one as [`list_item_done`] says; the first failure
/// is the result.
pub open spec fn list_entries(v: Seq<Result<String, CommandError>>, target: Seq<char>, data: ListData, ev: Seq<FsEvent>, r: Result<(), CommandError>) -> bool
    decreases ev.len(), 2int, v.len(),
{
    if v.len() == 0 {
        ev.len() == 0 && r is Ok
    } else {
        match v.last() {
            Err(_) => list_entries(v.drop_last(), target, data, ev, r),
            Ok(e) => {
                ||| r is Err && list_entries(v.drop_last(), target, data, ev, r)
                ||| exists|k: int|
                    #![trigger ev.take(k)]
                    0 <= k <= ev.len() && list_entries(v.drop_last(), target, data, ev.take(k), Ok(()))
                        && list_item_done(e@, target, data, ev.skip(k), r)
            },
        }
    }
}

/// How a list treats the entry `item` against `target`: [`entry_look`]; a
/// link at its place that points to it is shown as `LINK: entry => place`,
/// and nothing more is asked; otherwise, when the place and the entry are
/// both directories, each entry of the entry is listed against the place;
/// else it is done.
pub open spec fn list_item_done(item: Seq<char>, target: Seq<char>, data: ListData, ev: Seq<FsEvent>, r: Result<(), CommandError>) -> bool
    decreases ev.len(), 1int, 0int,
{
    let prefix = prefix_view(data.dot_file_prefix);
    match entry_look(item, target, prefix, ev, r) {
        None => false,
        Some(full) => if look_stopped(ev, prefix) {
            true
        } else {
            let c = canon(ev);
            let j = after_link(ev);
            if links_back(ev) {
                &&& ev.len() == j + 1
                &&& ev[j] == (FsEvent::Shown { line: arrow_line("LINK"@, c, full, data.color_support.list_colors()) })
                &&& r is Ok
            } else if dirs_asked(ev, j, full, c) {
                if both_dirs(ev, j) {
                    list_walk(c, full, data, ev.skip(j + 2), r)
                } else {
                    r is Ok && ev.len() == dirs_end(ev, j)
                }
            } else {
                false
            }
        },
    }
}

/// The packages `ps` listed one after the other in their order, each
/// walked against the target ([`list_walk`]); the first failure is the
/// result.
pub open spec fn list_all(ps: Seq<String>, data: ListData, ev: Seq<FsEvent>, r: Result<(), CommandError>) -> bool
    decreases ps.len(),
{
    if ps.len() == 0 {
        ev.len() == 0 && r is Ok
    } else {
        ||| r is Err && list_all(ps.drop_last(), data, ev, r)
        ||| exists|k: int|
            #![trigger ev.take(k)]
            0 <= k <= ev.len() && list_all(ps.drop_last(), data, ev.take(k), Ok(()))
                && list_walk(ps.last()@, data.target@, data, ev.skip(k), r)
    }
}

/// A restow: first the unstow of all packages ([`unstow_all`]); a failure
/// there is the result and nothing more is asked; else the stow of all
/// packages follows ([`stow_all`]), and its result is the result.
pub open spec fn restow_done(data: RestowData, ev: Seq<FsEvent>, r: Result<(), CommandError>) -> bool {
    ||| r is Err && unstow_all(data.unstow.packages@, data.unstow, ev, r)
    ||| exists|k: int|
        #![trigger ev.take(k)]
        0 <= k <= ev.len() && unstow_all(data.unstow.packages@, data.unstow, ev.take(k), Ok(()))
            && stow_all(data.stow.packages@, data.stow, ev.skip(k), r)
}

proof fn lemma_extends_trans<T>(a: Seq<T>, b: Seq<T>, c: Seq<T>)
    requires
        extends(b, a),
        extends(c, b),
    ensures
        extends(c, a),
{
}

proof fn lemma_all_from_join(l1: Seq<FsChange>, l2: Seq<FsChange>, from: int, p: spec_fn(FsChange) -> bool)
    requires
        extends(l2, l1),
        0 <= from <= l1.len(),
        all_from(l1, from, p),
        all_from(l2, l1.len() as int, p),
    ensures
        all_from(l2, from, p),
{
    assert forall|i: int| from <= i < l2.len() implies #[trigger] p(l2[i]) by {
        if i < l1.len() {
            assert(l2[i] == l1[i]);
        }
    }
}

proof fn lemma_all_from_empty(l: Seq<FsChange>, p: spec_fn(FsChange) -> bool)
    ensures
        all_from(l, l.len() as int, p),
{
}

/// Changes within a path that lies inside `t` lie inside `t`.
proof fn lemma_within_inside(log: Seq<FsChange>, from: int, full: Seq<char>, t: Seq<char>)
    requires
        all_from(log, from, within(full)),
        inside(full, t),
    ensures
        all_from(log, from, inside_of(t)),
{
    assert forall|i: int| from <= i < log.len() implies #[trigger] inside_of(t)(log[i]) by {
        assert(within(full)(log[i]));
        if log[i].path != full {
            crate::paths::lemma_inside_transitive(log[i].path, full, t);
        }
    }
}

/// Changes inside `full` are within `full`; changes inside a path inside `t` are inside `t`.
proof fn lemma_inside_within(log: Seq<FsChange>, from: int, full: Seq<char>)
    requires
        all_from(log, from, inside_of(full)),
    ensures
        all_from(log, from, within(full)),
{
    assert forall|i: int| from <= i < log.len() implies #[trigger] within(full)(log[i]) by {
        assert(inside_of(full)(log[i]));
    }
}

proof fn lemma_inside_chain(log: Seq<FsChange>, from: int, full: Seq<char>, t: Seq<char>)
    requires
        all_from(log, from, inside_of(full)),
        inside(full, t),
    ensures
        all_from(log, from, inside_of(t)),
{
    lemma_inside_within(log, from, full);
    lemma_within_inside(log, from, full, t);
}

/// The name an entry gets in the target is never empty, and with no prefix
/// it is the entry's file name.
proof fn lemma_item_name(item: Seq<char>, prefix: Option<Seq<char>>)
    requires
        item_name(item, prefix) is Some,
    ensures
        item_name(item, prefix).unwrap().len() > 0,
        prefix is None ==> item_name(item, prefix) == file_name(item),
{
    crate::paths::lemma_components_well_formed(item);
    let c = components(item);
    assert(c.last() == c[c.len() - 1]);
}

proof fn lemma_cleanup_since(path: Seq<char>, root: Seq<char>, log: Seq<FsEvent>, from: int, r: Result<(), CommandError>)
    requires
        0 <= from <= log.len(),
        cleanup_done_from(path, root, log, from, r),
    ensures
        cleanup_done(path, root, since(log, from), r),
{
    let ev = since(log, from);
    assert forall|i: int| 0 <= i < ev.len() && (#[trigger] ev[i]) is Changed implies removes_seen_empty(ev, i) by {
        assert(ev[i] == log[from + i]);
        assert(removes_seen_empty_from(log, from, from + i));
        assert(ev[i - 1] == log[from + i - 1]);
        assert(ev[i - 2] == log[from + i - 2]);
    }
    if ev.len() >= 1 {
        assert(ev[0] == log[from]);
        assert(ev[ev.len() - 1] == log[log.len() - 1]);
    }
}

/// A result that succeeded carries nothing.
proof fn lemma_ok_unit(r: Result<(), CommandError>)
    requires
        r is Ok,
    ensures
        r == Ok::<(), CommandError>(()),
{
    match r {
        Ok(u) => {
            let () = u;
        },
        Err(_) => {},
    }
}

/// The events from `from` on, split at `mid`.
proof fn lemma_since_split(log: Seq<FsEvent>, from: int, mid: int)
    requires
        0 <= from <= mid <= log.len(),
    ensures
        since(log, from).take(mid - from) == log.subrange(from, mid),
        since(log, from).skip(mid - from) == since(log, mid),
{
    assert(since(log, from).take(mid - from) =~= log.subrange(from, mid));
    assert(since(log, from).skip(mid - from) =~= since(log, mid));
}

/// A log that extends `old` holds, between `from` and the end of `old`,
/// what `old` holds from `from` on.
proof fn lemma_since_extends(old: Seq<FsEvent>, new: Seq<FsEvent>, from: int)
    requires
        extends(new, old),
        0 <= from <= old.len(),
    ensures
        new.subrange(from, old.len() as int) == since(old, from),
        since(new, from) == since(old, from) + since(new, old.len() as int),
{
    assert(new.subrange(from, old.len() as int) =~= since(old, from));
    assert(since(new, from) =~= since(old, from) + since(new, old.len() as int));
}

/// One more entry of a listing handled after those before it.
proof fn lemma_stow_entries_step(
    v: Seq<Result<String, CommandError>>,
    i: int,
    target: Seq<char>, package: Seq<char>, data: StowData,
    before: Seq<FsEvent>,
    item_ev: Seq<FsEvent>,
    r: Result<(), CommandError>,
)
    requires
        0 <= i < v.len(),
        stow_entries(v.take(i), target, package, data, before, Ok(())),
        v[i] matches Ok(e) && stow_item_done(e@, target, package, data, item_ev, r),
    ensures
        stow_entries(v.take(i + 1), target, package, data, before + item_ev, r),
{
    let w = v.take(i + 1);
    let ev = before + item_ev;
    let k = before.len() as int;
    assert(w.drop_last() =~= v.take(i));
    assert(w.len() > 0 && w.last() == v[i]);
    assert(ev.take(k) =~= before);
    assert(ev.skip(k) =~= item_ev);
    let e = w.last()->Ok_0;
    assert(stow_entries(w.drop_last(), target, package, data, ev.take(k), Ok(())));
    assert(stow_item_done(e@, target, package, data, ev.skip(k), r));
    assert(exists|k: int|
        #![trigger ev.take(k)]
        0 <= k <= ev.len() && stow_entries(w.drop_last(), target, package, data, ev.take(k), Ok(()))
            && stow_item_done(e@, target, package, data, ev.skip(k), r));
    assert(stow_entries(w, target, package, data, ev, r)) by {
        reveal_with_fuel(stow_entries, 2);
    }
}

/// An entry that could not be read is passed over.
proof fn lemma_stow_entries_pass(v: Seq<Result<String, CommandError>>, i: int, target: Seq<char>, package: Seq<char>, data: StowData, ev: Seq<FsEvent>)
    requires
        0 <= i < v.len(),
        stow_entries(v.take(i), target, package, data, ev, Ok(())),
        v[i] is Err,
    ensures
        stow_entries(v.take(i + 1), target, package, data, ev, Ok(())),
{
    let w = v.take(i + 1);
    assert(w.drop_last() =~= v.take(i));
    assert(w.len() > 0 && w.last() == v[i]);
    assert(stow_entries(w, target, package, data, ev, Ok(()))) by {
        reveal_with_fuel(stow_entries, 2);
    }
}

/// A failure among the first entries is the failure of the whole listing.
proof fn lemma_stow_entries_fail(v: Seq<Result<String, CommandError>>, i: int, target: Seq<char>, package: Seq<char>, data: StowData, ev: Seq<FsEvent>, r: Result<(), CommandError>)
    requires
        0 <= i <= v.len(),
        r is Err,
        stow_entries(v.take(i), target, package, data, ev, r),
    ensures
        stow_entries(v, target, package, data, ev, r),
    decreases v.len() - i,
{
    if i == v.len() {
        assert(v.take(i) =~= v);
    } else {
        let w = v.take(i + 1);
        assert(w.drop_last() =~= v.take(i));
        assert(w.len() > 0 && w.last() == v[i]);
        assert(stow_entries(w, target, package, data, ev, r)) by {
            reveal_with_fuel(stow_entries, 2);
        }
        lemma_stow_entries_fail(v, i + 1, target, package, data, ev, r);
    }
}

/// All the entries handled.
proof fn lemma_stow_entries_all(v: Seq<Result<String, CommandError>>, target: Seq<char>, package: Seq<char>, data: StowData, ev: Seq<FsEvent>, r: Result<(), CommandError>)
    requires
        stow_entries(v.take(v.len() as int), target, package, data, ev, r),
    ensures
        stow_entries(v, target, package, data, ev, r),
{
    assert(v.take(v.len() as int) =~= v);
}

/// One more entry of a listing handled after those before it.
proof fn lemma_unstow_entries_step(
    v: Seq<Result<String, CommandError>>,
    i: int,
    target: Seq<char>, data: UnstowData,
    before: Seq<FsEvent>,
    item_ev: Seq<FsEvent>,
    r: Result<(), CommandError>,
)
    requires
        0 <= i < v.len(),
        unstow_entries(v.take(i), target, data, before, Ok(())),
        v[i] matches Ok(e) && unstow_item_done(e@, target, data, item_ev, r),
    ensures
        unstow_entries(v.take(i + 1), target, data, before + item_ev, r),
{
    let w = v.take(i + 1);
    let ev = before + item_ev;
    let k = before.len() as int;
    assert(w.drop_last() =~= v.take(i));
    assert(w.len() > 0 && w.last() == v[i]);
    assert(ev.take(k) =~= before);
    assert(ev.skip(k) =~= item_ev);
    let e = w.last()->Ok_0;
    assert(unstow_entries(w.drop_last(), target, data, ev.take(k), Ok(())));
    assert(unstow_item_done(e@, target, data, ev.skip(k), r));
    assert(exists|k: int|
        #![trigger ev.take(k)]
        0 <= k <= ev.len() && unstow_entries(w.drop_last(), target, data, ev.take(k), Ok(()))
            && unstow_item_done(e@, target, data, ev.skip(k), r));
    assert(unstow_entries(w, target, data, ev, r)) by {
        reveal_with_fuel(unstow_entries, 2);
    }
}

/// An entry that could not be read is passed over.
proof fn lemma_unstow_entries_pass(v: Seq<Result<String, CommandError>>, i: int, target: Seq<char>, data: UnstowData, ev: Seq<FsEvent>)
    requires
        0 <= i < v.len(),
        unstow_entries(v.take(i), target, data, ev, Ok(())),
        v[i] is Err,
    ensures
        unstow_entries(v.take(i + 1), target, data, ev, Ok(())),
{
    let w = v.take(i + 1);
    assert(w.drop_last() =~= v.take(i));
    assert(w.len() > 0 && w.last() == v[i]);
    assert(unstow_entries(w, target, data, ev, Ok(()))) by {
        reveal_with_fuel(unstow_entries, 2);
    }
}

/// A failure among the first entries is the failure of the whole listing.
proof fn lemma_unstow_entries_fail(v: Seq<Result<String, CommandError>>, i: int, target: Seq<char>, data: UnstowData, ev: Seq<FsEvent>, r: Result<(), CommandError>)
    requires
        0 <= i <= v.len(),
        r is Err,
        unstow_entries(v.take(i), target, data, ev, r),
    ensures
        unstow_entries(v, target, data, ev, r),
    decreases v.len() - i,
{
    if i == v.len() {
        assert(v.take(i) =~= v);
    } else {
        let w = v.take(i + 1);
        assert(w.drop_last() =~= v.take(i));
        assert(w.len() > 0 && w.last() == v[i]);
        assert(unstow_entries(w, target, data, ev, r)) by {
            reveal_with_fuel(unstow_entries, 2);
        }
        lemma_unstow_entries_fail(v, i + 1, target, data, ev, r);
    }
}

/// All the entries handled.
proof fn lemma_unstow_entries_all(v: Seq<Result<String, CommandError>>, target: Seq<char>, data: UnstowData, ev: Seq<FsEvent>, r: Result<(), CommandError>)
    requires
        unstow_entries(v.take(v.len() as int), target, data, ev, r),
    ensures
        unstow_entries(v, target, data, ev, r),
{
    assert(v.take(v.len() as int) =~= v);
}

/// One more entry of a listing handled after those before it.
proof fn lemma_list_entries_step(
    v: Seq<Result<String, CommandError>>,
    i: int,
    target: Seq<char>, data: ListData,
    before: Seq<FsEvent>,
    item_ev: Seq<FsEvent>,
    r: Result<(), CommandError>,
)
    requires
        0 <= i < v.len(),
        list_entries(v.take(i), target, data, before, Ok(())),
        v[i] matches Ok(e) && list_item_done(e@, target, data, item_ev, r),
    ensures
        list_entries(v.take(i + 1), target, data, before + item_ev, r),
{
    let w = v.take(i + 1);
    let ev = before + item_ev;
    let k = before.len() as int;
    assert(w.drop_last() =~= v.take(i));
    assert(w.len() > 0 && w.last() == v[i]);
    assert(ev.take(k) =~= before);
    assert(ev.skip(k) =~= item_ev);
    let e = w.last()->Ok_0;
    assert(list_entries(w.drop_last(), target, data, ev.take(k), Ok(())));
    assert(list_item_done(e@, target, data, ev.skip(k), r));
    assert(exists|k: int|
        #![trigger ev.take(k)]
        0 <= k <= ev.len() && list_entries(w.drop_last(), target, data, ev.take(k), Ok(()))
            && list_item_done(e@, target, data, ev.skip(k), r));
    assert(list_entries(w, target, data, ev, r)) by {
        reveal_with_fuel(list_entries, 2);
    }
}

/// An entry that could not be read is passed over.
proof fn lemma_list_entries_pass(v: Seq<Result<String, CommandError>>, i: int, target: Seq<char>, data: ListData, ev: Seq<FsEvent>)
    requires
        0 <= i < v.len(),
        list_entries(v.take(i), target, data, ev, Ok(())),
        v[i] is Err,
    ensures
        list_entries(v.take(i + 1), target, data, ev, Ok(())),
{
    let w = v.take(i + 1);
    assert(w.drop_last() =~= v.take(i));
    assert(w.len() > 0 && w.last() == v[i]);
    assert(list_entries(w, target, data, ev, Ok(()))) by {
        reveal_with_fuel(list_entries, 2);
    }
}

/// A failure among the first entries is the failure of the whole listing.
proof fn lemma_list_entries_fail(v: Seq<Result<String, CommandError>>, i: int, target: Seq<char>, data: ListData, ev: Seq<FsEvent>, r: Result<(), CommandError>)
    requires
        0 <= i <= v.len(),
        r is Err,
        list_entries(v.take(i), target, data, ev, r),
    ensures
        list_entries(v, target, data, ev, r),
    decreases v.len() - i,
{
    if i == v.len() {
        assert(v.take(i) =~= v);
    } else {
        let w = v.take(i + 1);
        assert(w.drop_last() =~= v.take(i));
        assert(w.len() > 0 && w.last() == v[i]);
        assert(list_entries(w, target, data, ev, r)) by {
            reveal_with_fuel(list_entries, 2);
        }
        lemma_list_entries_fail(v, i + 1, target, data, ev, r);
    }
}

/// All the entries handled.
proof fn lemma_list_entries_all(v: Seq<Result<String, CommandError>>, target: Seq<char>, data: ListData, ev: Seq<FsEvent>, r: Result<(), CommandError>)
    requires
        list_entries(v.take(v.len() as int), target, data, ev, r),
    ensures
        list_entries(v, target, data, ev, r),
{
    assert(v.take(v.len() as int) =~= v);
}

/// One more package handled after those before it.
proof fn lemma_stow_all_step(ps: Seq<String>, i: int, data: StowData, before: Seq<FsEvent>, item_ev: Seq<FsEvent>, r: Result<(), CommandError>)
    requires
        0 <= i < ps.len(),
        stow_all(ps.take(i), data, before, Ok(())),
        stow_package_done(ps[i]@, data, item_ev, r),
    ensures
        stow_all(ps.take(i + 1), data, before + item_ev, r),
{
    let w = ps.take(i + 1);
    let ev = before + item_ev;
    let k = before.len() as int;
    assert(w.drop_last() =~= ps.take(i));
    assert(w.len() > 0 && w.last() == ps[i]);
    assert(ev.take(k) =~= before);
    assert(ev.skip(k) =~= item_ev);
    assert(stow_all(w.drop_last(), data, ev.take(k), Ok(())));
    assert(stow_package_done(w.last()@, data, ev.skip(k), r));
    assert(exists|k: int|
        #![trigger ev.take(k)]
        0 <= k <= ev.len() && stow_all(w.drop_last(), data, ev.take(k), Ok(()))
            && stow_package_done(w.last()@, data, ev.skip(k), r));
    assert(stow_all(w, data, ev, r)) by {
        reveal_with_fuel(stow_all, 2);
    }
}

/// A failure among the first packages is the failure of the whole command.
proof fn lemma_stow_all_fail(ps: Seq<String>, i: int, data: StowData, ev: Seq<FsEvent>, r: Result<(), CommandError>)
    requires
        0 <= i <= ps.len(),
        r is Err,
        stow_all(ps.take(i), data, ev, r),
    ensures
        stow_all(ps, data, ev, r),
    decreases ps.len() - i,
{
    if i == ps.len() {
        assert(ps.take(i) =~= ps);
    } else {
        let w = ps.take(i + 1);
        assert(w.drop_last() =~= ps.take(i));
        assert(stow_all(w, data, ev, r)) by {
            reveal_with_fuel(stow_all, 2);
        }
        lemma_stow_all_fail(ps, i + 1, data, ev, r);
    }
}

/// One more package handled after those before it.
proof fn lemma_unstow_all_step(ps: Seq<String>, i: int, data: UnstowData, before: Seq<FsEvent>, item_ev: Seq<FsEvent>, r: Result<(), CommandError>)
    requires
        0 <= i < ps.len(),
        unstow_all(ps.take(i), data, before, Ok(())),
        unstow_walk(ps[i]@, data.target@, data, item_ev, r),
    ensures
        unstow_all(ps.take(i + 1), data, before + item_ev, r),
{
    let w = ps.take(i + 1);
    let ev = before + item_ev;
    let k = before.len() as int;
    assert(w.drop_last() =~= ps.take(i));
    assert(w.len() > 0 && w.last() == ps[i]);
    assert(ev.take(k) =~= before);
    assert(ev.skip(k) =~= item_ev);
    assert(unstow_all(w.drop_last(), data, ev.take(k), Ok(())));
    assert(unstow_walk(w.last()@, data.target@, data, ev.skip(k), r));
    assert(exists|k: int|
        #![trigger ev.take(k)]
        0 <= k <= ev.len() && unstow_all(w.drop_last(), data, ev.take(k), Ok(()))
            && unstow_walk(w.last()@, data.target@, data, ev.skip(k), r));
    assert(unstow_all(w, data, ev, r)) by {
        reveal_with_fuel(unstow_all, 2);
    }
}

/// A failure among the first packages is the failure of the whole command.
proof fn lemma_unstow_all_fail(ps: Seq<String>, i: int, data: UnstowData, ev: Seq<FsEvent>, r: Result<(), CommandError>)
    requires
        0 <= i <= ps.len(),
        r is Err,
        unstow_all(ps.take(i), data, ev, r),
    ensures
        unstow_all(ps, data, ev, r),
    decreases ps.len() - i,
{
    if i == ps.len() {
        assert(ps.take(i) =~= ps);
    } else {
        let w = ps.take(i + 1);
        assert(w.drop_last() =~= ps.take(i));
        assert(unstow_all(w, data, ev, r)) by {
            reveal_with_fuel(unstow_all, 2);
        }
        lemma_unstow_all_fail(ps, i + 1, data, ev, r);
    }
}

/// One more package handled after those before it.
proof fn lemma_list_all_step(ps: Seq<String>, i: int, data: ListData, before: Seq<FsEvent>, item_ev: Seq<FsEvent>, r: Result<(), CommandError>)
    requires
        0 <= i < ps.len(),
        list_all(ps.take(i), data, before, Ok(())),
        list_walk(ps[i]@, data.target@, data, item_ev, r),
    ensures
        list_all(ps.take(i + 1), data, before + item_ev, r),
{
    let w = ps.take(i + 1);
    let ev = before + item_ev;
    let k = before.len() as int;
    assert(w.drop_last() =~= ps.take(i));
    assert(w.len() > 0 && w.last() == ps[i]);
    assert(ev.take(k) =~= before);
    assert(ev.skip(k) =~= item_ev);
    assert(list_all(w.drop_last(), data, ev.take(k), Ok(())));
    assert(list_walk(w.last()@, data.target@, data, ev.skip(k), r));
    assert(exists|k: int|
        #![trigger ev.take(k)]
        0 <= k <= ev.len() && list_all(w.drop_last(), data, ev.take(k), Ok(()))
            && list_walk(w.last()@, data.target@, data, ev.skip(k), r));
    assert(list_all(w, data, ev, r)) by {
        reveal_with_fuel(list_all, 2);
    }
}

/// A failure among the first packages is the failure of the whole command.
proof fn lemma_list_all_fail(ps: Seq<String>, i: int, data: ListData, ev: Seq<FsEvent>, r: Result<(), CommandError>)
    requires
        0 <= i <= ps.len(),
        r is Err,
        list_all(ps.take(i), data, ev, r),
    ensures
        list_all(ps, data, ev, r),
    decreases ps.len() - i,
{
    if i == ps.len() {
        assert(ps.take(i) =~= ps);
    } else {
        let w = ps.take(i + 1);
        assert(w.drop_last() =~= ps.take(i));
        assert(list_all(w, data, ev, r)) by {
            reveal_with_fuel(list_all, 2);
        }
        lemma_list_all_fail(ps, i + 1, data, ev, r);
    }
}

// ---------------------------------------------------------------------------
// Names.

/// The name `item` gets in the target: its file name, with a leading
/// `prefix` replaced by `.` (`dot-bashrc` becomes `.bashrc` for `dot-`).
/// Fails with [`CommandError::InvalidStowItem`] when `item` has no file name.
pub fn get_item_name(item: &str, prefix: &Option<String>) -> (r: Result<String, CommandError>)
    ensures
        match r {
            Ok(n) => item_name(item@, prefix_view(*prefix)) == Some(n@),
            Err(e) => item_name(item@, prefix_view(*prefix)) is None
                && (e matches CommandError::InvalidStowItem { item: i } && i@ == item@),
        },
{
    let name = match path_file_name(item) {
        Some(n) => n,
        None => {
            return Err(CommandError::InvalidStowItem { item: item.to_owned() });
        },
    };
    match prefix {
        Some(p) => {
            let pn = p.unicode_len();
            let nn = name.unicode_len();
            if pn <= nn {
                let head = name.as_str().substring_char(0, pn).to_owned();
                if head == *p {
                    let rest = name.as_str().substring_char(pn, nn);
                    let mut out = ".".to_owned();
                    proof {
                        reveal_strlit(".");
                    }
                    out.append(rest);
                    assert(out@ =~= dot() + name@.subrange(pn as int, nn as int));
                    return Ok(out);
                }
            }
            Ok(name)
        },
        None => Ok(name),
    }
}

// ---------------------------------------------------------------------------
// Stow.

/// Whether an ignore pattern accepts all of `path`.
fn is_ignored(path: &str, filter: &StowFilter) -> (r: bool)
    ensures
        r == any_accepts(ignore_groups(*filter), path@),
{
    matches_any(&filter.ignored, path)
}

/// Whether an override pattern accepts all of `path`.
fn should_override(path: &str, filter: &StowFilter) -> (r: bool)
    ensures
        r == any_accepts(override_groups(*filter), path@),
{
    matches_any(&filter.overrides, path)
}

fn process_stow<O: CommandOperation>(data: &StowData, fs: &mut Recorder<O>) -> (r: Result<(), CommandError>)
    ensures
        extends(final(fs).changes(), old(fs).changes()),
        stow_keeps(*data, final(fs).changes(), old(fs).changes().len() as int),
        data.packages@.len() == 0 ==> r is Ok && final(fs).changes() == old(fs).changes(),
        data.packages@.len() > 0 && same_path(data.packages@[0]@, data.target@) ==> final(fs).changes()
            == old(fs).changes() && (r matches Err(CommandError::InvalidStowDirectory { directory: d })
            && d@ == data.packages@[0]@),
        extends(final(fs).events(), old(fs).events()),
        stow_all(data.packages@, *data, since(final(fs).events(), old(fs).events().len() as int), r),
{
    let ghost start = fs.changes();
    let ghost estart = fs.events();
    let ghost from = estart.len() as int;
    proof {
        assert(since(estart, from) =~= Seq::<FsEvent>::empty());
        assert(data.packages@.take(0) =~= Seq::<String>::empty());
    }
    let mut i: usize = 0;
    while i < data.packages.len()
        invariant
            i <= data.packages@.len(),
            start == old(fs).changes(),
            extends(fs.changes(), start),
            stow_keeps(*data, fs.changes(), start.len() as int),
            i == 0 ==> fs.changes() == start,
            i > 0 ==> !same_path(data.packages@[0]@, data.target@),
            estart == old(fs).events(),
            from == estart.len(),
            extends(fs.events(), estart),
            stow_all(data.packages@.take(i as int), *data, since(fs.events(), from), Ok(())),
        decreases data.packages.len() - i,
    {
        let ghost before = fs.changes();
        let ghost ebefore = fs.events();
        let res = process_stow_package(data.packages[i].as_str(), data, fs);
        proof {
            lemma_extends_trans(estart, ebefore, fs.events());
            lemma_since_extends(ebefore, fs.events(), from);
            lemma_stow_all_step(data.packages@, i as int, *data, since(ebefore, from), since(fs.events(), ebefore.len() as int), res);
        }
        if res.is_err() {
                proof {
                    lemma_stow_all_fail(data.packages@, i + 1, *data, since(fs.events(), from), res);
                }
            return res;
        }
        proof {
            lemma_ok_unit(res);
            lemma_extends_trans(start, before, fs.changes());
            lemma_all_from_join(before, fs.changes(), start.len() as int, removal_overridden(override_groups(data.options.filter)));
            if data.options.dot_file_prefix is None {
                lemma_all_from_join(before, fs.changes(), start.len() as int, inside_of(data.target@));
            }
        }
        i = i + 1;
    }
    proof {
        assert(data.packages@.take(i as int) =~= data.packages@);
    }
    Ok(())
}

fn process_stow_package<O: CommandOperation>(directory: &str, data: &StowData, fs: &mut Recorder<O>) -> (r: Result<(), CommandError>)
    ensures
        extends(final(fs).changes(), old(fs).changes()),
        stow_keeps(*data, final(fs).changes(), old(fs).changes().len() as int),
        same_path(directory@, data.target@) ==> final(fs).changes() == old(fs).changes()
            && (r matches Err(CommandError::InvalidStowDirectory { directory: d }) && d@ == directory@),
        extends(final(fs).events(), old(fs).events()),
        stow_package_done(directory@, *data, since(final(fs).events(), old(fs).events().len() as int), r),
        !package_checked(directory@, *data, since(final(fs).events(), old(fs).events().len() as int))
            ==> final(fs).changes() == old(fs).changes(),
{
    let ghost estart = fs.events();
    let ghost from = estart.len() as int;
    proof {
        lemma_all_from_empty(fs.changes(), removal_overridden(override_groups(data.options.filter)));
        lemma_all_from_empty(fs.changes(), inside_of(data.target@));
    }
    if paths_equal(directory, data.target.as_str()) {
        proof {
            assert(since(fs.events(), from) =~= Seq::<FsEvent>::empty());
        }
        return Err(CommandError::InvalidStowDirectory { directory: directory.to_owned() });
    }
    if !fs.is_directory(data.target.as_str()) {
        return Err(CommandError::InvalidTargetDirectory { directory: data.target.as_str().to_owned() });
    }
    let ghost e1 = fs.events();
    if !fs.is_directory(directory) {
        proof {
            assert(since(fs.events(), from)[0] == e1[from]);
        }
        return Err(CommandError::StowDirectoryNotFound { directory: directory.to_owned() });
    }
    let ghost e2 = fs.events();
    let res = process_directory_entry(directory, data.target.as_str(), directory, data, fs);
    proof {
        let ev = since(fs.events(), from);
        assert(ev[0] == e1[from]);
        assert(ev[1] == e2[from + 1]);
        lemma_since_split(fs.events(), from, e2.len() as int);
    }
    res
}

/// Stows every entry of the directory `entry` into `target`.
fn process_directory_entry<O: CommandOperation>(
    entry: &str,
    target: &str,
    package: &str,
    data: &StowData,
    fs: &mut Recorder<O>,
) -> (r: Result<(), CommandError>)
    ensures
        extends(final(fs).changes(), old(fs).changes()),
        data.options.dot_file_prefix is None ==> all_from(final(fs).changes(), old(fs).changes().len() as int, inside_of(target@)),
        all_from(final(fs).changes(), old(fs).changes().len() as int, removal_overridden(override_groups(data.options.filter))),
        extends(final(fs).events(), old(fs).events()),
        stow_walk(entry@, target@, package@, *data, since(final(fs).events(), old(fs).events().len() as int), r),
    decreases budget(target@), 3nat,
{
    let ghost start = fs.changes();
    let ghost estart = fs.events();
    let ghost from = estart.len() as int;
    let ghost groups = override_groups(data.options.filter);
    proof {
        lemma_all_from_empty(start, removal_overridden(groups));
        lemma_all_from_empty(start, inside_of(target@));
    }
    // A path's length fits in `usize`; each step down lengthens it, which
    // bounds how deep a walk descends.
    let _length: usize = target.unicode_len();
    let listing = fs.read_directory(entry);
    let ghost eread = fs.events();
    let entries = match listing {
        Ok(v) => v,
        Err(e) => {
            return Err(e);
        },
    };
    proof {
        assert(since(eread, eread.len() as int) =~= Seq::<FsEvent>::empty());
        assert(entries@.take(0) =~= Seq::<Result<String, CommandError>>::empty());
    }
    let mut i: usize = 0;
    while i < entries.len()
        invariant
            i <= entries@.len(),
            target@.len() <= usize::MAX,
            start == old(fs).changes(),
            groups == override_groups(data.options.filter),
            extends(fs.changes(), start),
            data.options.dot_file_prefix is None ==> all_from(fs.changes(), start.len() as int, inside_of(target@)),
            all_from(fs.changes(), start.len() as int, removal_overridden(groups)),
            estart == old(fs).events(),
            from == estart.len(),
            eread == estart.push(FsEvent::Listed { path: entry@, answer: Ok(entries) }),
            extends(fs.events(), eread),
            stow_entries(entries@.take(i as int), target@, package@, *data, since(fs.events(), eread.len() as int), Ok(())),
        decreases entries.len() - i,
    {
        let ghost ebefore = fs.events();
        match &entries[i] {
            Ok(e) => {
                let ghost before = fs.changes();
                let res = stow_item(e.as_str(), target, package, data, fs);
                proof {
                    lemma_extends_trans(start, before, fs.changes());
                    lemma_all_from_join(before, fs.changes(), start.len() as int, removal_overridden(groups));
                    if data.options.dot_file_prefix is None {
                        lemma_all_from_join(before, fs.changes(), start.len() as int, inside_of(target@));
                    }
                    lemma_extends_trans(eread, ebefore, fs.events());
                    lemma_since_extends(ebefore, fs.events(), eread.len() as int);
                    lemma_stow_entries_step(entries@, i as int, target@, package@, *data, since(ebefore, eread.len() as int), since(fs.events(), ebefore.len() as int), res);
                }
                if res.is_err() {
                        proof {
                            lemma_stow_entries_fail(entries@, i + 1, target@, package@, *data, since(fs.events(), eread.len() as int), res);
                            lemma_since_split(fs.events(), from, eread.len() as int);
                        }
                    return res;
                }
                proof {
                    lemma_ok_unit(res);
                }
            },
            Err(_) => {
                proof {
                    lemma_stow_entries_pass(entries@, i as int, target@, package@, *data, since(fs.events(), eread.len() as int));
                }
            },
        }
        i = i + 1;
    }
    proof {
        lemma_stow_entries_all(entries@, target@, package@, *data, since(fs.events(), eread.len() as int), Ok(()));
        lemma_since_split(fs.events(), from, eread.len() as int);
    }
    Ok(())
}

/// Stows one entry of a package into `target`: skips it when ignored,
/// refuses a link, folds or descends into directories, and links the rest.
fn stow_item<O: CommandOperation>(
    item: &str,
    target: &str,
    package: &str,
    data: &StowData,
    fs: &mut Recorder<O>,
) -> (r: Result<(), CommandError>)
    requires
        target@.len() <= usize::MAX,
    ensures
        extends(final(fs).changes(), old(fs).changes()),
        data.options.dot_file_prefix is None ==> all_from(final(fs).changes(), old(fs).changes().len() as int, inside_of(target@)),
        all_from(final(fs).changes(), old(fs).changes().len() as int, removal_overridden(override_groups(data.options.filter))),
        any_accepts(ignore_groups(data.options.filter), item@) ==> r is Ok && final(fs).changes() == old(fs).changes(),
        extends(final(fs).events(), old(fs).events()),
        stow_item_done(item@, target@, package@, *data, since(final(fs).events(), old(fs).events().len() as int), r),
    decreases budget(target@), 2nat,
{
    let ghost start = fs.changes();
    let ghost estart = fs.events();
    let ghost from = estart.len() as int;
    let ghost groups = override_groups(data.options.filter);
    proof {
        lemma_all_from_empty(start, removal_overridden(groups));
        lemma_all_from_empty(start, inside_of(target@));
    }
    if is_ignored(item, &data.options.filter) {
        proof {
            assert(since(fs.events(), from) =~= Seq::<FsEvent>::empty());
        }
        return Ok(());
    }
    match path_rooted_remainder(item, package) {
        Some(updated_root) => {
            if is_ignored(updated_root.as_str(), &data.options.filter) {
                proof {
                    assert(since(fs.events(), from) =~= Seq::<FsEvent>::empty());
                }
                return Ok(());
            }
        },
        None => {},
    }
    if fs.is_symlink(item) {
        return Err(CommandError::InvalidStowItem { item: item.to_owned() });
    }
    let ghost e1 = fs.events();
    let is_dir = fs.is_directory(item);
    let no_folding = is_dir && data.options.no_folding;
    let ghost e2 = fs.events();
    proof {
        assert(since(e2, from)[0] == e1[from]);
    }
    let name = match get_item_name(item, &data.options.dot_file_prefix) {
        Ok(n) => n,
        Err(e) => {
            return Err(e);
        },
    };
    let full_path = path_join(target, name.as_str());
    proof {
        lemma_item_name(item@, prefix_view(data.options.dot_file_prefix));
        if data.options.dot_file_prefix is None {
            lemma_join_file_name_inside(target@, item@);
        }
        assert(full_path@.len() > target@.len());
    }
    if no_folding {
        let exists = fs.path_exists(full_path.as_str());
        if !exists {
            let ghost e3 = fs.events();
            let res = process_fold(item, full_path.as_str(), package, data, fs);
            proof {
                if data.options.dot_file_prefix is None {
                    lemma_within_inside(fs.changes(), start.len() as int, full_path@, target@);
                }
                lemma_extends_trans(e2, e3, fs.events());
                let ev = since(fs.events(), from);
                assert(ev[0] == e2[from]);
                assert(ev[1] == e2[from + 1]);
                assert(ev[2] == e3[from + 2]);
                lemma_since_split(fs.events(), from, from + 2);
                lemma_since_split(fs.events(), from, e3.len() as int);
                assert(ev.skip(2).skip(1) =~= ev.skip(3));
            }
            return res;
        }
    }
    let ghost e3 = fs.events();
    let exists = fs.path_exists(full_path.as_str());
    let ghost e4 = fs.events();
    if exists {
        let res = handle_existing_item(item, full_path.as_str(), package, data, fs);
        proof {
            if data.options.dot_file_prefix is None {
                lemma_within_inside(fs.changes(), start.len() as int, full_path@, target@);
            }
            lemma_extends_trans(e2, e4, fs.events());
            let ev = since(fs.events(), from);
            assert(ev[0] == e2[from]);
            assert(ev[1] == e2[from + 1]);
            if no_folding {
                assert(ev[2] == e3[from + 2]);
                assert(ev.skip(2).skip(1) =~= ev.skip(3));
            }
            assert(ev[e3.len() - from] == e4[e3.len() as int]);
            lemma_since_split(fs.events(), from, e3.len() as int);
            lemma_since_split(fs.events(), from, e4.len() as int);
            lemma_since_split(fs.events(), from, from + 2);
            assert(ev.skip(e3.len() - from).skip(1) =~= ev.skip(e4.len() - from));
        }
        return res;
    }
    let res = fs.link_item(item, full_path.as_str());
    proof {
        assert(fs.changes()[start.len() as int].path == full_path@);
        assert(fs.changes()[start.len() as int].kind == ChangeKind::Link);
        let ev = since(fs.events(), from);
        assert(ev[0] == e2[from]);
        assert(ev[1] == e2[from + 1]);
        if no_folding {
            assert(ev[2] == e3[from + 2]);
            assert(ev.skip(2).skip(1) =~= ev.skip(3));
        }
        assert(ev[e3.len() - from] == e4[e3.len() as int]);
        lemma_since_split(fs.events(), from, e3.len() as int);
        lemma_since_split(fs.events(), from, from + 2);
    }
    res
}

/// Creates the directory `full_path` and stows the entries of `item` into it.
fn process_fold<O: CommandOperation>(
    item: &str,
    full_path: &str,
    package: &str,
    data: &StowData,
    fs: &mut Recorder<O>,
) -> (r: Result<(), CommandError>)
    ensures
        extends(final(fs).changes(), old(fs).changes()),
        data.options.dot_file_prefix is None ==> all_from(final(fs).changes(), old(fs).changes().len() as int, within(full_path@)),
        all_from(final(fs).changes(), old(fs).changes().len() as int, removal_overridden(override_groups(data.options.filter))),
        extends(final(fs).events(), old(fs).events()),
        fold_done(item@, full_path@, package@, *data, since(final(fs).events(), old(fs).events().len() as int), r),
    decreases budget(full_path@) + 1, 0nat,
{
    let ghost start = fs.changes();
    let ghost estart = fs.events();
    let ghost from = estart.len() as int;
    let ghost groups = override_groups(data.options.filter);
    match fs.create_directory(full_path) {
        Ok(()) => {},
        Err(e) => {
            return Err(e);
        },
    }
    let ghost mid = fs.changes();
    let ghost emid = fs.events();
    proof {
        assert(mid[start.len() as int] == change(ChangeKind::CreateDirectory, full_path@));
        assert(all_from(mid, start.len() as int, within(full_path@)));
        assert(all_from(mid, start.len() as int, removal_overridden(groups)));
    }
    let res = process_directory_entry(item, full_path, package, data, fs);
    proof {
        lemma_extends_trans(start, mid, fs.changes());
        lemma_all_from_join(mid, fs.changes(), start.len() as int, removal_overridden(groups));
        if data.options.dot_file_prefix is None {
            lemma_inside_within(fs.changes(), mid.len() as int, full_path@);
            lemma_all_from_join(mid, fs.changes(), start.len() as int, within(full_path@));
        }
        lemma_extends_trans(estart, emid, fs.events());
        assert(since(fs.events(), from)[0] == emid[from]);
        lemma_since_split(fs.events(), from, emid.len() as int);
    }
    res
}

/// Decides what to do with an entry whose name already exists in the
/// target: keep a link that already points to it, descend when both are
/// directories, replace an overridden file, and fail otherwise.
fn handle_existing_item<O: CommandOperation>(
    item: &str,
    full_path: &str,
    package: &str,
    data: &StowData,
    fs: &mut Recorder<O>,
) -> (r: Result<(), CommandError>)
    ensures
        extends(final(fs).changes(), old(fs).changes()),
        data.options.dot_file_prefix is None ==> all_from(final(fs).changes(), old(fs).changes().len() as int, within(full_path@)),
        all_from(final(fs).changes(), old(fs).changes().len() as int, removal_overridden(override_groups(data.options.filter))),
        extends(final(fs).events(), old(fs).events()),
        existing_done(item@, full_path@, package@, *data, since(final(fs).events(), old(fs).events().len() as int), r),
    decreases budget(full_path@) + 1, 0nat,
{
    let ghost start = fs.changes();
    let ghost estart = fs.events();
    let ghost from = estart.len() as int;
    let ghost groups = override_groups(data.options.filter);
    proof {
        lemma_all_from_empty(start, removal_overridden(groups));
        lemma_all_from_empty(start, within(full_path@));
    }
    let canonical = fs.canonicalize(item);
    let item = match canonical {
        Ok(p) => p,
        Err(message) => {
            return Err(CommandError::InvalidPath { path: item.to_owned(), message });
        },
    };
    let ghost ecan = fs.events();
    let is_link = fs.is_symlink(full_path);
    if is_link {
        let read = fs.read_link(full_path);
        proof {
            let ev = since(fs.events(), from);
            assert(ev[0] == ecan[from]);
        }
        match read {
            Ok(link) => {
                if paths_equal(link.as_str(), item.as_str()) {
                    return Ok(());
                }
            },
            Err(e) => {
                return Err(e);
            },
        }
    }
    let ghost elink = fs.events();
    let ghost j: int = if is_link { 3 } else { 2 };
    proof {
        assert(since(elink, from)[0] == ecan[from]);
        assert(canon(since(elink, from)) == item@);
    }
    let d1 = fs.is_directory(item.as_str());
    let both = d1 && fs.is_directory(full_path);
    let ghost edirs = fs.events();
    proof {
        let ev = since(edirs, from);
        assert(ev[0] == elink[from]);
        assert(ev[1] == elink[from + 1]);
        if is_link {
            assert(ev[2] == elink[from + 2]);
        }
        assert(dirs_asked(ev, j, item@, full_path@));
        assert(both_dirs(ev, j) == both);
    }
    if both {
        let res = process_directory_entry(item.as_str(), full_path, package, data, fs);
        proof {
            if data.options.dot_file_prefix is None {
                lemma_inside_within(fs.changes(), start.len() as int, full_path@);
            }
            lemma_extends_trans(elink, edirs, fs.events());
            let ev = since(fs.events(), from);
            assert(ev[0] == elink[from]);
            assert(ev[1] == elink[from + 1]);
            if is_link {
                assert(ev[2] == elink[from + 2]);
            }
            assert(ev[j] == edirs[from + j]);
            assert(ev[j + 1] == edirs[from + j + 1]);
            lemma_since_split(fs.events(), from, edirs.len() as int);
        }
        return res;
    }
    let ghost k = dirs_end(since(edirs, from), j);
    let ov = should_override(full_path, &data.options.filter);
    let is_file = ov && fs.is_file(full_path);
    let ghost efile = fs.events();
    if is_file {
        let r1 = fs.remove_item(full_path);
        proof {
            assert(fs.changes()[start.len() as int] == change(ChangeKind::Remove, full_path@));
        }
        let ghost mid = fs.changes();
        let ghost emid = fs.events();
        if r1.is_err() {
                proof {
                    let ev = since(emid, from);
                    assert(ev[0] == elink[from]);
                    assert(ev[1] == elink[from + 1]);
                    if is_link {
                        assert(ev[2] == elink[from + 2]);
                    }
                    assert(ev[j] == edirs[from + j]);
                    if d1 {
                        assert(ev[j + 1] == edirs[from + j + 1]);
                    }
                    assert(ev[k] == efile[from + k]);
                    assert(ev.skip(k)[0] == ev[k]);
                    assert(ev.skip(k)[1] == ev[k + 1]);
                    assert(ev.skip(k).len() == 2);
                }
            return r1;
        }
        proof {
            lemma_ok_unit(r1);
        }
        let r2 = fs.link_item(item.as_str(), full_path);
        proof {
            assert(fs.changes()[mid.len() as int].path == full_path@);
            assert(fs.changes()[mid.len() as int].kind == ChangeKind::Link);
            assert(fs.changes()[start.len() as int] == mid[start.len() as int]);
            let ev = since(fs.events(), from);
            assert(ev[0] == elink[from]);
            assert(ev[1] == elink[from + 1]);
            if is_link {
                assert(ev[2] == elink[from + 2]);
            }
            assert(ev[j] == edirs[from + j]);
            if d1 {
                assert(ev[j + 1] == edirs[from + j + 1]);
            }
            assert(ev[k] == efile[from + k]);
            assert(ev[k + 1] == emid[from + k + 1]);
            assert(ev.skip(k)[0] == ev[k]);
            assert(ev.skip(k)[1] == ev[k + 1]);
            assert(ev.skip(k)[2] == ev[k + 2]);
            assert(ev.skip(k).len() == 3);
        }
        return r2;
    }
    let name = match path_file_name(item.as_str()) {
        Some(n) => n,
        None => "Unknown Name".to_owned(),
    };
    proof {
        let ev = since(fs.events(), from);
        assert(ev[0] == elink[from]);
        assert(ev[1] == elink[from + 1]);
        if is_link {
            assert(ev[2] == elink[from + 2]);
        }
        assert(ev[j] == edirs[from + j]);
        if d1 {
            assert(ev[j + 1] == edirs[from + j + 1]);
        }
        if ov {
            assert(ev.skip(k)[0] == ev[k]);
        }
        assert(ev.skip(k).len() == (if ov { 1int } else { 0int }));
    }
    Err(CommandError::DirectoryEntryAlreadyExists { directory: name })
}

// ---------------------------------------------------------------------------
// Unstow.

fn process_unstow<O: CommandOperation>(data: &UnstowData, fs: &mut Recorder<O>) -> (r: Result<(), CommandError>)
    ensures
        extends(final(fs).changes(), old(fs).changes()),
        unstow_keeps(*data, final(fs).changes(), old(fs).changes().len() as int),
        data.packages@.len() == 0 ==> r is Ok && final(fs).changes() == old(fs).changes(),
        extends(final(fs).events(), old(fs).events()),
        unstow_all(data.packages@, *data, since(final(fs).events(), old(fs).events().len() as int), r),
{
    let ghost start = fs.changes();
    let ghost estart = fs.events();
    let ghost from = estart.len() as int;
    proof {
        lemma_all_from_empty(start, is_removal());
        lemma_all_from_empty(start, inside_of(data.target@));
        assert(since(estart, from) =~= Seq::<FsEvent>::empty());
        assert(data.packages@.take(0) =~= Seq::<String>::empty());
    }
    let mut i: usize = 0;
    while i < data.packages.len()
        invariant
            i <= data.packages@.len(),
            start == old(fs).changes(),
            extends(fs.changes(), start),
            unstow_keeps(*data, fs.changes(), start.len() as int),
            i == 0 ==> fs.changes() == start,
            estart == old(fs).events(),
            from == estart.len(),
            extends(fs.events(), estart),
            unstow_all(data.packages@.take(i as int), *data, since(fs.events(), from), Ok(())),
        decreases data.packages.len() - i,
    {
        let ghost before = fs.changes();
        let ghost ebefore = fs.events();
        let res = unstow_directory_entry(data.packages[i].as_str(), data.target.as_str(), data, fs);
        proof {
            lemma_extends_trans(start, before, fs.changes());
            lemma_all_from_join(before, fs.changes(), start.len() as int, is_removal());
            if data.dot_file_prefix is None {
                lemma_all_from_join(before, fs.changes(), start.len() as int, inside_of(data.target@));
            }
            lemma_extends_trans(estart, ebefore, fs.events());
            lemma_since_extends(ebefore, fs.events(), from);
            lemma_unstow_all_step(data.packages@, i as int, *data, since(ebefore, from), since(fs.events(), ebefore.len() as int), res);
        }
        if res.is_err() {
                proof {
                    lemma_unstow_all_fail(data.packages@, i + 1, *data, since(fs.events(), from), res);
                }
            return res;
        }
        proof {
            lemma_ok_unit(res);
        }
        i = i + 1;
    }
    proof {
        assert(data.packages@.take(i as int) =~= data.packages@);
    }
    Ok(())
}

/// Unstows every entry of the directory `entry` from `target`.
fn unstow_directory_entry<O: CommandOperation>(
    entry: &str,
    target: &str,
    data: &UnstowData,
    fs: &mut Recorder<O>,
) -> (r: Result<(), CommandError>)
    ensures
        extends(final(fs).changes(), old(fs).changes()),
        all_from(final(fs).changes(), old(fs).changes().len() as int, is_removal()),
        data.dot_file_prefix is None ==> all_from(final(fs).changes(), old(fs).changes().len() as int, inside_of(target@)),
        extends(final(fs).events(), old(fs).events()),
        unstow_walk(entry@, target@, *data, since(final(fs).events(), old(fs).events().len() as int), r),
    decreases budget(target@), 1nat,
{
    let ghost start = fs.changes();
    let ghost estart = fs.events();
    let ghost from = estart.len() as int;
    proof {
        lemma_all_from_empty(start, is_removal());
        lemma_all_from_empty(start, inside_of(target@));
    }
    // A path's length fits in `usize`; each step down lengthens it, which
    // bounds how deep a walk descends.
    let _length: usize = target.unicode_len();
    let listing = fs.read_directory(entry);
    let ghost eread = fs.events();
    let entries = match listing {
        Ok(v) => v,
        Err(e) => {
            return Err(e);
        },
    };
    let mut i: usize = 0;
    proof {
        assert(since(eread, eread.len() as int) =~= Seq::<FsEvent>::empty());
        assert(entries@.take(0) =~= Seq::<Result<String, CommandError>>::empty());
    }
    while i < entries.len()
        invariant
            i <= entries@.len(),
            target@.len() <= usize::MAX,
            start == old(fs).changes(),
            extends(fs.changes(), start),
            all_from(fs.changes(), start.len() as int, is_removal()),
            data.dot_file_prefix is None ==> all_from(fs.changes(), start.len() as int, inside_of(target@)),
            estart == old(fs).events(),
            from == estart.len(),
            eread == estart.push(FsEvent::Listed { path: entry@, answer: Ok(entries) }),
            extends(fs.events(), eread),
            unstow_entries(entries@.take(i as int), target@, *data, since(fs.events(), eread.len() as int), Ok(())),
        decreases entries.len() - i,
    {
        let ghost ebefore = fs.events();
        match &entries[i] {
            Ok(e) => {
                let ghost before = fs.changes();
                let res = unstow_item(e.as_str(), target, data, fs);
                proof {
                    lemma_extends_trans(start, before, fs.changes());
                    lemma_all_from_join(before, fs.changes(), start.len() as int, is_removal());
                    if data.dot_file_prefix is None {
                        lemma_all_from_join(before, fs.changes(), start.len() as int, inside_of(target@));
                    }
                    lemma_extends_trans(eread, ebefore, fs.events());
                    lemma_since_extends(ebefore, fs.events(), eread.len() as int);
                    lemma_unstow_entries_step(entries@, i as int, target@, *data, since(ebefore, eread.len() as int), since(fs.events(), ebefore.len() as int), res);
                }
                if res.is_err() {
                        proof {
                            lemma_unstow_entries_fail(entries@, i + 1, target@, *data, since(fs.events(), eread.len() as int), res);
                            lemma_since_split(fs.events(), from, eread.len() as int);
                        }
                    return res;
                }
                proof {
                    lemma_ok_unit(res);
                }
            },
            Err(_) => {
                proof {
                    lemma_unstow_entries_pass(entries@, i as int, target@, *data, since(fs.events(), eread.len() as int));
                }
            },
        }
        i = i + 1;
    }
    proof {
        lemma_unstow_entries_all(entries@, target@, *data, since(fs.events(), eread.len() as int), Ok(()));
        lemma_since_split(fs.events(), from, eread.len() as int);
    }
    Ok(())
}

/// Whether `path` reads as a directory with no entry at all.
fn is_empty_directory<O: CommandOperation>(path: &str, fs: &mut Recorder<O>) -> (r: bool)
    ensures
        final(fs).changes() == old(fs).changes(),
        extends(final(fs).events(), old(fs).events()),
        empty_check(path@, since(final(fs).events(), old(fs).events().len() as int), r),
{
    if !fs.is_directory(path) {
        return false;
    }
    match fs.read_directory(path) {
        Ok(entries) => entries.len() == 0,
        Err(_) => false,
    }
}

/// Unstows one entry: removes the link in `target` that points to it, or
/// descends when both are directories and removes the directory left empty.
#[verifier::spinoff_prover]
#[verifier::rlimit(60)]
fn unstow_item<O: CommandOperation>(
    item: &str,
    target: &str,
    data: &UnstowData,
    fs: &mut Recorder<O>,
) -> (r: Result<(), CommandError>)
    requires
        target@.len() <= usize::MAX,
    ensures
        extends(final(fs).changes(), old(fs).changes()),
        all_from(final(fs).changes(), old(fs).changes().len() as int, is_removal()),
        data.dot_file_prefix is None ==> all_from(final(fs).changes(), old(fs).changes().len() as int, inside_of(target@)),
        extends(final(fs).events(), old(fs).events()),
        unstow_item_done(item@, target@, *data, since(final(fs).events(), old(fs).events().len() as int), r),
    decreases budget(target@), 0nat,
{
    let ghost start = fs.changes();
    let ghost estart = fs.events();
    let ghost from = estart.len() as int;
    let ghost prefix = prefix_view(data.dot_file_prefix);
    proof {
        lemma_all_from_empty(start, is_removal());
        lemma_all_from_empty(start, inside_of(target@));
    }
    let ghost item0 = item@;
    let canonical = fs.canonicalize(item);
    let item = match canonical {
        Ok(p) => p,
        Err(message) => {
            return Err(CommandError::InvalidPath { path: item.to_owned(), message });
        },
    };
    let ghost ecan = fs.events();
    let name = match get_item_name(item.as_str(), &data.dot_file_prefix) {
        Ok(n) => n,
        Err(e) => {
            return Err(e);
        },
    };
    let full_path = path_join(target, name.as_str());
    proof {
        lemma_item_name(item@, prefix_view(data.dot_file_prefix));
        if data.dot_file_prefix is None {
            lemma_join_file_name_inside(target@, item@);
        }
        assert(full_path@.len() > target@.len());
    }
    let is_link = fs.is_symlink(full_path.as_str());
    let links_here = is_link && match fs.read_link(full_path.as_str()) {
        Ok(p) => paths_equal(p.as_str(), item.as_str()),
        Err(_) => false,
    };
    let ghost elink = fs.events();
    let ghost j: int = if is_link { 3 } else { 2 };
    proof {
        let ev = since(elink, from);
        assert(ev[0] == ecan[from]);
        assert(ev[1] == elink[from + 1]);
        if is_link {
            assert(ev[2] == elink[from + 2]);
        }
        assert(canon(ev) == item@);
        assert(links_back(ev) == links_here);
        assert(entry_look(item0, target@, prefix, ev, Ok(())) == Some(full_path@));
    }
    if links_here {
        let r1 = fs.remove_link(full_path.as_str());
        let ghost mid = fs.changes();
        let ghost emid = fs.events();
        proof {
            assert(fs.changes()[start.len() as int] == change(ChangeKind::RemoveLink, full_path@));
            let ev = since(emid, from);
            assert(ev[0] == elink[from]);
            assert(ev[1] == elink[from + 1]);
            assert(ev[2] == elink[from + 2]);
            assert(canon(ev) == item@);
            assert(entry_look(item0, target@, prefix, ev, r1) == Some(full_path@));
        }
        if r1.is_err() {
            return r1;
        }
        proof {
            lemma_ok_unit(r1);
        }
        let r2 = cleanup_empty_parent(full_path.as_str(), target, fs);
        proof {
            lemma_extends_trans(start, mid, fs.changes());
            lemma_all_from_join(mid, fs.changes(), start.len() as int, is_removal());
            if data.dot_file_prefix is None {
                lemma_all_from_join(mid, fs.changes(), start.len() as int, inside_of(target@));
            }
            lemma_extends_trans(elink, emid, fs.events());
            let ev = since(fs.events(), from);
            assert(ev[0] == elink[from]);
            assert(ev[1] == elink[from + 1]);
            assert(ev[2] == elink[from + 2]);
            assert(ev[3] == emid[from + 3]);
            assert(canon(ev) == item@);
            assert(entry_look(item0, target@, prefix, ev, r2) == Some(full_path@));
            lemma_since_split(fs.events(), from, emid.len() as int);
        }
        return r2;
    }
    let d1 = fs.is_directory(full_path.as_str());
    let both = d1 && fs.is_directory(item.as_str());
    let ghost edirs = fs.events();
    proof {
        let ev = since(edirs, from);
        assert(ev[0] == elink[from]);
        assert(ev[1] == elink[from + 1]);
        if is_link {
            assert(ev[2] == elink[from + 2]);
        }
        assert(canon(ev) == item@);
        assert(links_back(ev) == links_here);
        assert(entry_look(item0, target@, prefix, ev, Ok(())) == Some(full_path@));
        assert(dirs_asked(ev, j, full_path@, item@));
        assert(both_dirs(ev, j) == both);
    }
    if !both {
        return Ok(());
    }
    let r1 = unstow_directory_entry(item.as_str(), full_path.as_str(), data, fs);
    let ghost ewalk = fs.events();
    proof {
        if data.dot_file_prefix is None {
            lemma_inside_chain(fs.changes(), start.len() as int, full_path@, target@);
        }
        lemma_extends_trans(elink, edirs, ewalk);
    }
    if r1.is_err() {
            proof {
                let ev = since(ewalk, from);
                assert(ev[0] == elink[from]);
                assert(ev[1] == elink[from + 1]);
                if is_link {
                    assert(ev[2] == elink[from + 2]);
                }
                assert(ev[j] == edirs[from + j]);
                assert(ev[j + 1] == edirs[from + j + 1]);
                assert(canon(ev) == item@);
                assert(entry_look(item0, target@, prefix, ev, r1) == Some(full_path@));
                lemma_since_split(ewalk, from, edirs.len() as int);
            }
        return r1;
    }
    proof {
        lemma_ok_unit(r1);
    }
    let ghost m0 = fs.changes();
    let empty = is_empty_directory(full_path.as_str(), fs);
    let ghost echeck = fs.events();
    let mut result: Result<(), CommandError> = Ok(());
    if empty {
        let ghost m1 = fs.changes();
        let r2 = fs.remove_item(full_path.as_str());
        proof {
            assert(fs.changes()[m1.len() as int] == change(ChangeKind::Remove, full_path@));
            assert(fs.changes()[m1.len() as int].path == full_path@);
            lemma_extends_trans(start, m1, fs.changes());
            lemma_all_from_join(m1, fs.changes(), start.len() as int, is_removal());
            if data.dot_file_prefix is None {
                lemma_all_from_join(m1, fs.changes(), start.len() as int, inside_of(target@));
            }
        }
        let ghost eremove = fs.events();
        match r2 {
            Ok(()) => {
                let ghost m2 = fs.changes();
                let r3 = cleanup_empty_parent(full_path.as_str(), target, fs);
                proof {
                    lemma_extends_trans(start, m2, fs.changes());
                    lemma_all_from_join(m2, fs.changes(), start.len() as int, is_removal());
                    if data.dot_file_prefix is None {
                        lemma_all_from_join(m2, fs.changes(), start.len() as int, inside_of(target@));
                    }
                    lemma_since_split(fs.events(), ewalk.len() as int, eremove.len() as int);
                }
                result = r3;
            },
            Err(e) => {
                result = Err(e);
            },
        }
        proof {
            lemma_extends_trans(ewalk, eremove, fs.events());
            let em = since(fs.events(), ewalk.len() as int);
            let ec = since(echeck, ewalk.len() as int);
            assert(em[0] == ec[0]);
            assert(em[1] == ec[1]);
            assert(em[2] == eremove[ewalk.len() + 2int]);
            assert(emptied(full_path@, target@, em, result));
        }
    } else {
        proof {
            assert(emptied(full_path@, target@, since(echeck, ewalk.len() as int), result));
        }
    }
    proof {
        lemma_extends_trans(elink, ewalk, fs.events());
        let ev = since(fs.events(), from);
        assert(ev[0] == elink[from]);
        assert(ev[1] == elink[from + 1]);
        if is_link {
            assert(ev[2] == elink[from + 2]);
        }
        assert(ev[j] == edirs[from + j]);
        assert(ev[j + 1] == edirs[from + j + 1]);
        assert(canon(ev) == item@);
        assert(entry_look(item0, target@, prefix, ev, result) == Some(full_path@));
        let w = ev.skip(j + 2);
        let k = ewalk.len() - edirs.len();
        assert(w.take(k) =~= since(ewalk, edirs.len() as int));
        assert(w.skip(k) =~= since(fs.events(), ewalk.len() as int));
        assert(unstow_walk(item@, full_path@, *data, w.take(k), Ok(())));
    }
    result
}

/// Removes the directories above `path` that are left empty, up to (and
/// not including) `target_root`.
fn cleanup_empty_parent<O: CommandOperation>(
    path: &str,
    target_root: &str,
    fs: &mut Recorder<O>,
) -> (r: Result<(), CommandError>)
    ensures
        extends(final(fs).changes(), old(fs).changes()),
        all_from(final(fs).changes(), old(fs).changes().len() as int, is_removal()),
        inside(path@, target_root@) ==> all_from(final(fs).changes(), old(fs).changes().len() as int, inside_of(target_root@)),
        extends(final(fs).events(), old(fs).events()),
        cleanup_done(path@, target_root@, since(final(fs).events(), old(fs).events().len() as int), r),
{
    let ghost start = fs.changes();
    let ghost estart = fs.events();
    let ghost from = estart.len() as int;
    let ghost cp = components(path@);
    let ghost ct = components(target_root@);
    proof {
        lemma_all_from_empty(start, is_removal());
        lemma_all_from_empty(start, inside_of(target_root@));
    }
    let mut current = path_parent(path);
    let ghost mut k: int = cp.len() - 1;
    let ghost mut first: bool = true;
    proof {
        if current is Some {
            lemma_parent_components(path@);
            assert(cp.drop_last() =~= cp.take(k));
        }
    }
    loop
        invariant
            start == old(fs).changes(),
            estart == old(fs).events(),
            from == estart.len(),
            cp == components(path@),
            ct == components(target_root@),
            extends(fs.changes(), start),
            all_from(fs.changes(), start.len() as int, is_removal()),
            inside(path@, target_root@) ==> all_from(fs.changes(), start.len() as int, inside_of(target_root@)),
            current matches Some(c) ==> components(c@) == cp.take(k) && is_absolute(c@) == is_absolute(path@)
                && 0 <= k < cp.len(),
            inside(path@, target_root@) && current is Some ==> k >= ct.len(),
            extends(fs.events(), estart),
            first ==> fs.events() == estart && (match current {
                Some(c) => parent(path@) == Some(c@),
                None => parent(path@) is None,
            }),
            !first ==> cleanup_first(path@, target_root@, fs.events(), from),
            forall|i: int| from <= i < fs.events().len() && (#[trigger] fs.events()[i]) is Changed
                ==> removes_seen_empty_from(fs.events(), from, i),
        ensures
            extends(fs.changes(), start),
            all_from(fs.changes(), start.len() as int, is_removal()),
            inside(path@, target_root@) ==> all_from(fs.changes(), start.len() as int, inside_of(target_root@)),
            extends(fs.events(), estart),
            cleanup_done_from(path@, target_root@, fs.events(), from, Ok(())),
        decreases k + 1,
    {
        let p = match current {
            Some(p) => p,
            None => {
                break;
            },
        };
        if paths_equal(p.as_str(), target_root) {
            break;
        }
        let ghost e1 = fs.events();
        let empty = is_empty_directory(p.as_str(), fs);
        let ghost e2 = fs.events();
        proof {
            assert(e2[e1.len() as int] == since(e2, e1.len() as int)[0]);
            if e2.len() > e1.len() + 1 {
                assert(e2[e1.len() + 1int] == since(e2, e1.len() as int)[1]);
            }
            assert forall|i: int| from <= i < e2.len() && (#[trigger] e2[i]) is Changed
                implies removes_seen_empty_from(e2, from, i) by {
                assert(i < e1.len());
                assert(e2[i] == e1[i]);
                assert(e1[i] is Changed);
                assert(removes_seen_empty_from(e1, from, i));
                assert(e2[i - 1] == e1[i - 1]);
                assert(e2[i - 2] == e1[i - 2]);
            }
            lemma_extends_trans(estart, e1, e2);
            if first {
                assert(e2[from] == e2[e1.len() as int]);
            } else {
                assert(e2[from] == e1[from]);
            }
        }
        if !empty {
            proof {
                first = false;
            }
            break;
        }
        let ghost before = fs.changes();
        proof {
            if inside(path@, target_root@) {
                if k == ct.len() {
                    assert(cp.take(k) =~= ct);
                    assert(same_path(p@, target_root@));
                }
                lemma_prefix_inside(path@, target_root@, p@, k);
            }
        }
        let res = fs.remove_item(p.as_str());
        let ghost e3 = fs.events();
        proof {
            assert(fs.changes()[before.len() as int] == change(ChangeKind::Remove, p@));
            lemma_extends_trans(start, before, fs.changes());
            lemma_all_from_join(before, fs.changes(), start.len() as int, is_removal());
            if inside(path@, target_root@) {
                lemma_all_from_join(before, fs.changes(), start.len() as int, inside_of(target_root@));
            }
            lemma_extends_trans(estart, e2, e3);
            assert(e3[e1.len() as int] == e2[e1.len() as int]);
            assert(e3[e1.len() + 1int] == e2[e1.len() + 1int]);
            assert(removes_seen_empty_from(e3, from, e2.len() as int));
            assert forall|i: int| from <= i < e3.len() && (#[trigger] e3[i]) is Changed
                implies removes_seen_empty_from(e3, from, i) by {
                if i < e2.len() {
                    assert(e3[i] == e2[i]);
                    assert(e3[i - 1] == e2[i - 1]);
                    assert(e3[i - 2] == e2[i - 2]);
                }
            }
            assert(e3[from] == e2[from]);
            first = false;
        }
        if res.is_err() {
                proof {
                    lemma_cleanup_since(path@, target_root@, fs.events(), from, res);
                }
            return res;
        }
        proof {
            lemma_ok_unit(res);
        }
        current = path_parent(p.as_str());
        proof {
            if current is Some {
                lemma_parent_components(p@);
                assert(cp.take(k).drop_last() =~= cp.take(k - 1));
            }
            k = k - 1;
        }
    }
    proof {
        lemma_cleanup_since(path@, target_root@, fs.events(), from, Ok(()));
    }
    Ok(())
}

// ---------------------------------------------------------------------------
// List.

fn process_list<O: CommandOperation>(data: &ListData, fs: &mut Recorder<O>) -> (r: Result<(), CommandError>)
    ensures
        final(fs).changes() == old(fs).changes(),
        extends(final(fs).events(), old(fs).events()),
        list_all(data.packages@, *data, since(final(fs).events(), old(fs).events().len() as int), r),
{
    let ghost estart = fs.events();
    let ghost from = estart.len() as int;
    let mut i: usize = 0;
    proof {
        assert(since(estart, from) =~= Seq::<FsEvent>::empty());
        assert(data.packages@.take(0) =~= Seq::<String>::empty());
    }
    while i < data.packages.len()
        invariant
            i <= data.packages@.len(),
            fs.changes() == old(fs).changes(),
            estart == old(fs).events(),
            from == estart.len(),
            extends(fs.events(), estart),
            list_all(data.packages@.take(i as int), *data, since(fs.events(), from), Ok(())),
        decreases data.packages.len() - i,
    {
        let ghost before = fs.events();
        let res = list_directory_entry(data.packages[i].as_str(), data.target.as_str(), data, fs);
        proof {
            lemma_extends_trans(estart, before, fs.events());
            lemma_since_extends(before, fs.events(), from);
            lemma_list_all_step(data.packages@, i as int, *data, since(before, from), since(fs.events(), before.len() as int), res);
        }
        if res.is_err() {
                proof {
                    lemma_list_all_fail(data.packages@, i + 1, *data, since(fs.events(), from), res);
                }
            return res;
        }
        proof {
            lemma_ok_unit(res);
        }
        i = i + 1;
    }
    proof {
        assert(data.packages@.take(i as int) =~= data.packages@);
    }
    Ok(())
}

/// Shows the links in `target` that point into the directory `entry`.
fn list_directory_entry<O: CommandOperation>(
    entry: &str,
    target: &str,
    data: &ListData,
    fs: &mut Recorder<O>,
) -> (r: Result<(), CommandError>)
    ensures
        final(fs).changes() == old(fs).changes(),
        extends(final(fs).events(), old(fs).events()),
        list_walk(entry@, target@, *data, since(final(fs).events(), old(fs).events().len() as int), r),
    decreases budget(target@), 1nat,
{
    let ghost estart = fs.events();
    let ghost from = estart.len() as int;
    // A path's length fits in `usize`; each step down lengthens it, which
    // bounds how deep a walk descends.
    let _length: usize = target.unicode_len();
    let listing = fs.read_directory(entry);
    let ghost eread = fs.events();
    let entries = match listing {
        Ok(v) => v,
        Err(e) => {
            return Err(e);
        },
    };
    let mut i: usize = 0;
    proof {
        assert(since(eread, eread.len() as int) =~= Seq::<FsEvent>::empty());
        assert(entries@.take(0) =~= Seq::<Result<String, CommandError>>::empty());
    }
    while i < entries.len()
        invariant
            i <= entries@.len(),
            target@.len() <= usize::MAX,
            fs.changes() == old(fs).changes(),
            estart == old(fs).events(),
            from == estart.len(),
            eread == estart.push(FsEvent::Listed { path: entry@, answer: Ok(entries) }),
            extends(fs.events(), eread),
            list_entries(entries@.take(i as int), target@, *data, since(fs.events(), eread.len() as int), Ok(())),
        decreases entries.len() - i,
    {
        let ghost before = fs.events();
        match &entries[i] {
            Ok(e) => {
                let res = list_item(e.as_str(), target, data, fs);
                proof {
                    lemma_extends_trans(eread, before, fs.events());
                    lemma_since_extends(before, fs.events(), eread.len() as int);
                    lemma_list_entries_step(entries@, i as int, target@, *data, since(before, eread.len() as int), since(fs.events(), before.len() as int), res);
                }
                if res.is_err() {
                        proof {
                            lemma_list_entries_fail(entries@, i + 1, target@, *data, since(fs.events(), eread.len() as int), res);
                            lemma_since_split(fs.events(), from, eread.len() as int);
                        }
                    return res;
                }
                proof {
                    lemma_ok_unit(res);
                }
            },
            Err(_) => {
                proof {
                    lemma_list_entries_pass(entries@, i as int, target@, *data, since(fs.events(), eread.len() as int));
                }
            },
        }
        i = i + 1;
    }
    proof {
        lemma_list_entries_all(entries@, target@, *data, since(fs.events(), eread.len() as int), Ok(()));
        lemma_since_split(fs.events(), from, eread.len() as int);
    }
    Ok(())
}

/// Shows the link in `target` that points to `item`, or descends when both
/// are directories.
fn list_item<O: CommandOperation>(item: &str, target: &str, data: &ListData, fs: &mut Recorder<O>) -> (r: Result<(), CommandError>)
    requires
        target@.len() <= usize::MAX,
    ensures
        final(fs).changes() == old(fs).changes(),
        extends(final(fs).events(), old(fs).events()),
        list_item_done(item@, target@, *data, since(final(fs).events(), old(fs).events().len() as int), r),
    decreases budget(target@), 0nat,
{
    let ghost estart = fs.events();
    let ghost from = estart.len() as int;
    let ghost prefix = prefix_view(data.dot_file_prefix);
    let ghost item0 = item@;
    let canonical = fs.canonicalize(item);
    let item = match canonical {
        Ok(p) => p,
        Err(message) => {
            return Err(CommandError::InvalidPath { path: item.to_owned(), message });
        },
    };
    let ghost ecan = fs.events();
    let name = match get_item_name(item.as_str(), &data.dot_file_prefix) {
        Ok(n) => n,
        Err(e) => {
            return Err(e);
        },
    };
    let full_path = path_join(target, name.as_str());
    proof {
        lemma_item_name(item@, prefix_view(data.dot_file_prefix));
        assert(full_path@.len() > target@.len());
    }
    let is_link = fs.is_symlink(full_path.as_str());
    let links_here = is_link && match fs.read_link(full_path.as_str()) {
        Ok(p) => paths_equal(p.as_str(), item.as_str()),
        Err(_) => false,
    };
    let ghost elink = fs.events();
    let ghost j: int = if is_link { 3 } else { 2 };
    proof {
        let ev = since(elink, from);
        assert(ev[0] == ecan[from]);
        assert(ev[1] == elink[from + 1]);
        if is_link {
            assert(ev[2] == elink[from + 2]);
        }
        assert(canon(ev) == item@);
        assert(links_back(ev) == links_here);
        assert(entry_look(item0, target@, prefix, ev, Ok(())) == Some(full_path@));
    }
    if links_here {
        let line = data.color_support.list_text(item.as_str(), full_path.as_str());
        fs.show(line);
        proof {
            let ev = since(fs.events(), from);
            assert(ev[0] == elink[from]);
            assert(ev[1] == elink[from + 1]);
            assert(ev[2] == elink[from + 2]);
            assert(canon(ev) == item@);
            assert(entry_look(item0, target@, prefix, ev, Ok(())) == Some(full_path@));
        }
        return Ok(());
    }
    let d1 = fs.is_directory(full_path.as_str());
    let both = d1 && fs.is_directory(item.as_str());
    let ghost edirs = fs.events();
    proof {
        let ev = since(edirs, from);
        assert(ev[0] == elink[from]);
        assert(ev[1] == elink[from + 1]);
        if is_link {
            assert(ev[2] == elink[from + 2]);
        }
        assert(canon(ev) == item@);
        assert(links_back(ev) == links_here);
        assert(entry_look(item0, target@, prefix, ev, Ok(())) == Some(full_path@));
        assert(dirs_asked(ev, j, full_path@, item@));
        assert(both_dirs(ev, j) == both);
    }
    if both {
        let res = list_directory_entry(item.as_str(), full_path.as_str(), data, fs);
        proof {
            lemma_extends_trans(elink, edirs, fs.events());
            let ev = since(fs.events(), from);
            assert(ev[0] == elink[from]);
            assert(ev[1] == elink[from + 1]);
            if is_link {
                assert(ev[2] == elink[from + 2]);
            }
            assert(ev[j] == edirs[from + j]);
            assert(ev[j + 1] == edirs[from + j + 1]);
            assert(canon(ev) == item@);
            assert(entry_look(item0, target@, prefix, ev, res) == Some(full_path@));
            lemma_since_split(fs.events(), from, edirs.len() as int);
        }
        return res;
    }
    Ok(())
}

// ---------------------------------------------------------------------------
// Restow and the command itself.

fn process_restow<O: CommandOperation>(data: &RestowData, fs: &mut Recorder<O>) -> (r: Result<(), CommandError>)
    ensures
        extends(final(fs).changes(), old(fs).changes()),
        restow_keeps(*data, old(fs).changes(), final(fs).changes()),
        extends(final(fs).events(), old(fs).events()),
        restow_done(*data, since(final(fs).events(), old(fs).events().len() as int), r),
{
    let ghost start = fs.changes();
    let ghost estart = fs.events();
    let ghost from = estart.len() as int;
    let r1 = process_unstow(&data.unstow, fs);
    let ghost mid = fs.changes();
    let ghost emid = fs.events();
    proof {
        lemma_all_from_empty(mid, removal_overridden(override_groups(data.stow.options.filter)));
        lemma_all_from_empty(mid, inside_of(data.stow.target@));
        assert(mid.take(mid.len() as int) =~= mid);
        assert(restow_split(*data, start, mid, mid.len() as int));
    }
    if r1.is_err() {
        return r1;
    }
    proof {
        lemma_ok_unit(r1);
    }
    let r2 = process_stow(&data.stow, fs);
    proof {
        lemma_extends_trans(start, mid, fs.changes());
        assert(fs.changes().take(mid.len() as int) =~= mid);
        assert(restow_split(*data, start, fs.changes(), mid.len() as int));
        lemma_extends_trans(estart, emid, fs.events());
        lemma_since_split(fs.events(), from, emid.len() as int);
        lemma_since_extends(emid, fs.events(), from);
        let ev = since(fs.events(), from);
        let k = emid.len() - from;
        assert(r1 == Ok::<(), CommandError>(()));
        assert(ev.take(k) =~= since(emid, from));
        assert(unstow_all(data.unstow.packages@, data.unstow, ev.take(k), Ok(())));
    }
    r2
}

/// The changes of a restow: removals of the unstow first, then the changes
/// of the stow, from index `m` on.
pub open spec fn restow_split(data: RestowData, old_log: Seq<FsChange>, log: Seq<FsChange>, m: int) -> bool {
    &&& old_log.len() <= m <= log.len()
    &&& unstow_keeps(data.unstow, log.take(m), old_log.len() as int)
    &&& stow_keeps(data.stow, log, m)
}

/// What a restow keeps: its changes split into an unstow part and a stow part.
pub open spec fn restow_keeps(data: RestowData, old_log: Seq<FsChange>, log: Seq<FsChange>) -> bool {
    exists|m: int| restow_split(data, old_log, log, m)
}

impl Command {
    /// The name of the command: `Stow`, `UnStow`, `ReStow` or `List`.
    pub fn name(&self) -> (r: &'static str)
        ensures
            r@ == (match self {
                Command::Stow(_) => "Stow"@,
                Command::Unstow(_) => "UnStow"@,
                Command::Restow(_) => "ReStow"@,
                Command::List(_) => "List"@,
            }),
    {
        match self {
            Command::Stow(_) => "Stow",
            Command::Unstow(_) => "UnStow",
            Command::Restow(_) => "ReStow",
            Command::List(_) => "List",
        }
    }

    /// How the command is meant to be run.
    pub fn operation(&self) -> (r: CommandOperationImpl)
        ensures
            r == (match self {
                Command::Stow(c) => c.operation,
                Command::Unstow(c) => c.operation,
                Command::Restow(c) => c.operation,
                Command::List(c) => c.operation,
            }),
    {
        match self {
            Command::Stow(c) => c.operation,
            Command::Unstow(c) => c.operation,
            Command::Restow(c) => c.operation,
            Command::List(c) => c.operation,
        }
    }

    /// Runs the command against `fs`.
    ///
    /// Whatever the file system answers: the changes asked for are only
    /// added to those before; a list asks for none; an unstow asks only for
    /// removals; a stow removes only files that an override pattern accepts;
    /// without a dot-file prefix every change of a stow or unstow lies
    /// strictly inside the target; a stow whose first package is the target
    /// fails with [`CommandError::InvalidStowDirectory`] and changes nothing;
    /// a command with no package succeeds and changes nothing. And what it
    /// asks of the file system, in order, with the answers it got, is a walk
    /// of every package entry by entry ([`stow_all`], [`unstow_all`],
    /// [`list_all`]; a restow unstows, then stows only if that succeeded,
    /// [`restow_done`]), the first failure being the result.
    pub fn execute<O: CommandOperation>(self, fs: &mut Recorder<O>) -> (r: Result<(), CommandError>)
        ensures
            extends(final(fs).changes(), old(fs).changes()),
            match self {
                Command::Stow(c) => {
                    &&& stow_keeps(c.data, final(fs).changes(), old(fs).changes().len() as int)
                    &&& c.data.packages@.len() == 0 ==> r is Ok && final(fs).changes() == old(fs).changes()
                    &&& c.data.packages@.len() > 0 && same_path(c.data.packages@[0]@, c.data.target@) ==> {
                        &&& final(fs).changes() == old(fs).changes()
                        &&& r matches Err(CommandError::InvalidStowDirectory { directory: d })
                        &&& d@ == c.data.packages@[0]@
                    }
                },
                Command::Unstow(c) => {
                    &&& unstow_keeps(c.data, final(fs).changes(), old(fs).changes().len() as int)
                    &&& c.data.packages@.len() == 0 ==> r is Ok && final(fs).changes() == old(fs).changes()
                },
                Command::Restow(c) => restow_keeps(c.data, old(fs).changes(), final(fs).changes()),
                Command::List(c) => final(fs).changes() == old(fs).changes(),
            },
            extends(final(fs).events(), old(fs).events()),
            match self {
                Command::Stow(c) => stow_all(c.data.packages@, c.data, since(final(fs).events(), old(fs).events().len() as int), r),
                Command::Unstow(c) => unstow_all(c.data.packages@, c.data, since(final(fs).events(), old(fs).events().len() as int), r),
                Command::Restow(c) => restow_done(c.data, since(final(fs).events(), old(fs).events().len() as int), r),
                Command::List(c) => list_all(c.data.packages@, c.data, since(final(fs).events(), old(fs).events().len() as int), r),
            },
    {
        match self {
            Command::Stow(c) => process_stow(&c.data, fs),
            Command::Unstow(c) => process_unstow(&c.data, fs),
            Command::Restow(c) => process_restow(&c.data, fs),
            Command::List(c) => process_list(&c.data, fs),
        }
    }
}

/// Without override patterns, a stow removes nothing: it only links and
/// creates directories.
pub proof fn lemma_stow_without_overrides_removes_nothing(data: StowData, log: Seq<FsChange>, from: int)
    requires
        stow_keeps(data, log, from),
        data.options.filter.overrides@.len() == 0,
    ensures
        forall|i: int| from <= i < log.len() ==> (#[trigger] log[i]).kind != ChangeKind::Remove,
{
    let groups = override_groups(data.options.filter);
    assert(groups.len() == 0);
    assert forall|i: int| from <= i < log.len() implies (#[trigger] log[i]).kind != ChangeKind::Remove by {
        assert(removal_overridden(groups)(log[i]));
        assert(!any_accepts(groups, log[i].path));
    }
}

/// A stow that finds the place of an entry already linked to the entry
/// (as a first stow leaves it) keeps that link: it succeeds and asks for no
/// change.
pub proof fn lemma_stow_keeps_existing_link(
    item: Seq<char>,
    full: Seq<char>,
    package: Seq<char>,
    data: StowData,
    ev: Seq<FsEvent>,
    r: Result<(), CommandError>,
)
    requires
        existing_done(item, full, package, data, ev, r),
        ev.len() >= 3,
        ev[0]->Canonical_answer matches Ok(c) && ev[1]->IsSymlink_answer && (ev[2]->LinkRead_answer matches Ok(p)
            && same_path(p@, c@)),
    ensures
        r is Ok,
        ev.len() == 3,
        forall|i: int| 0 <= i < ev.len() ==> !(#[trigger] ev[i] is Changed),
{
}

/// No change is asked among the events `ev`.
pub open spec fn asks_no_change(ev: Seq<FsEvent>) -> bool {
    forall|i: int| 0 <= i < ev.len() ==> !(#[trigger] ev[i] is Changed)
}

/// Every place asked about was there already, and none was a plain file:
/// each existence question got a yes, each is-file question a no.
pub open spec fn places_all_taken(ev: Seq<FsEvent>) -> bool {
    forall|i: int|
        0 <= i < ev.len() ==> (#[trigger] ev[i] matches FsEvent::Exists { answer, .. } ==> answer) && (ev[i] matches FsEvent::IsFile {
            answer,
            ..
        } ==> !answer)
}

proof fn lemma_taken_parts(ev: Seq<FsEvent>, k: int)
    requires
        places_all_taken(ev),
        0 <= k <= ev.len(),
    ensures
        places_all_taken(ev.take(k)),
        places_all_taken(ev.skip(k)),
{
    assert forall|i: int| 0 <= i < ev.skip(k).len() implies (#[trigger] ev.skip(k)[i] matches FsEvent::Exists { answer, .. }
        ==> answer) && (ev.skip(k)[i] matches FsEvent::IsFile { answer, .. } ==> !answer) by {
        assert(ev.skip(k)[i] == ev[k + i]);
    }
    assert forall|i: int| 0 <= i < ev.take(k).len() implies (#[trigger] ev.take(k)[i] matches FsEvent::Exists { answer, .. }
        ==> answer) && (ev.take(k)[i] matches FsEvent::IsFile { answer, .. } ==> !answer) by {
        assert(ev.take(k)[i] == ev[i]);
    }
}

/// Events with no change before `k`, and none from `k` on, ask for none.
proof fn lemma_no_change_join(ev: Seq<FsEvent>, k: int)
    requires
        0 <= k <= ev.len(),
        asks_no_change(ev.take(k)),
        asks_no_change(ev.skip(k)),
    ensures
        asks_no_change(ev),
{
    assert forall|i: int| 0 <= i < ev.len() implies !(#[trigger] ev[i] is Changed) by {
        if i < k {
            assert(ev.take(k)[i] == ev[i]);
        } else {
            assert(ev.skip(k)[i - k] == ev[i]);
        }
    }
}

/// The first `k` events ask no change, and none after them either.
proof fn lemma_no_change_after(ev: Seq<FsEvent>, k: int)
    requires
        0 <= k <= ev.len(),
        forall|i: int| 0 <= i < k ==> !(#[trigger] ev[i] is Changed),
        asks_no_change(ev.skip(k)),
    ensures
        asks_no_change(ev),
{
    assert forall|i: int| 0 <= i < ev.len() implies !(#[trigger] ev[i] is Changed) by {
        if i >= k {
            assert(ev.skip(k)[i - k] == ev[i]);
        }
    }
}

proof fn lemma_taken_walk(entry: Seq<char>, target: Seq<char>, package: Seq<char>, data: StowData, ev: Seq<FsEvent>, r: Result<(), CommandError>)
    requires
        stow_walk(entry, target, package, data, ev, r),
        places_all_taken(ev),
    ensures
        asks_no_change(ev),
    decreases ev.len(), 3int, 0int,
{
    if let Ok(v) = ev[0]->Listed_answer {
        lemma_taken_parts(ev, 1);
        lemma_taken_entries(v@, target, package, data, ev.skip(1), r);
        lemma_no_change_after(ev, 1);
    }
}

proof fn lemma_taken_entries(v: Seq<Result<String, CommandError>>, target: Seq<char>, package: Seq<char>, data: StowData, ev: Seq<FsEvent>, r: Result<(), CommandError>)
    requires
        stow_entries(v, target, package, data, ev, r),
        places_all_taken(ev),
    ensures
        asks_no_change(ev),
    decreases ev.len(), 2int, v.len(),
{
    reveal_with_fuel(stow_entries, 2);
    if v.len() > 0 {
        match v.last() {
            Err(_) => {
                lemma_taken_entries(v.drop_last(), target, package, data, ev, r);
            },
            Ok(e) => {
                if r is Err && stow_entries(v.drop_last(), target, package, data, ev, r) {
                    lemma_taken_entries(v.drop_last(), target, package, data, ev, r);
                } else {
                    let k = choose|k: int|
                        #![trigger ev.take(k)]
                        0 <= k <= ev.len() && stow_entries(v.drop_last(), target, package, data, ev.take(k), Ok(()))
                            && stow_item_done(e@, target, package, data, ev.skip(k), r);
                    lemma_taken_parts(ev, k);
                    lemma_taken_entries(v.drop_last(), target, package, data, ev.take(k), Ok(()));
                    lemma_taken_item(e@, target, package, data, ev.skip(k), r);
                    lemma_no_change_join(ev, k);
                }
            },
        }
    }
}

proof fn lemma_taken_item(item: Seq<char>, target: Seq<char>, package: Seq<char>, data: StowData, ev: Seq<FsEvent>, r: Result<(), CommandError>)
    requires
        stow_item_done(item, target, package, data, ev, r),
        places_all_taken(ev),
    ensures
        asks_no_change(ev),
    decreases ev.len(), 1int, 0int,
{
    let prefix = prefix_view(data.options.dot_file_prefix);
    if !stow_skips(item, package, data.options.filter) && !ev[0]->IsSymlink_answer {
        if let Some(n) = item_name(item, prefix) {
            lemma_taken_parts(ev, 2);
            lemma_taken_place(
                item,
                join(target, n),
                package,
                data,
                ev[1]->IsDirectory_answer && data.options.no_folding,
                ev.skip(2),
                r,
            );
            lemma_no_change_after(ev, 2);
        }
    }
}

proof fn lemma_taken_place(item: Seq<char>, full: Seq<char>, package: Seq<char>, data: StowData, fold: bool, ev: Seq<FsEvent>, r: Result<(), CommandError>)
    requires
        stow_place(item, full, package, data, fold, ev, r),
        places_all_taken(ev),
    ensures
        asks_no_change(ev),
    decreases ev.len(), 0int, 2int,
{
    if fold {
        assert(ev[0]->Exists_answer);
        lemma_taken_parts(ev, 1);
        lemma_taken_place_taken(item, full, package, data, ev.skip(1), r);
        lemma_no_change_after(ev, 1);
    } else {
        lemma_taken_place_taken(item, full, package, data, ev, r);
    }
}

proof fn lemma_taken_place_taken(item: Seq<char>, full: Seq<char>, package: Seq<char>, data: StowData, ev: Seq<FsEvent>, r: Result<(), CommandError>)
    requires
        place_taken(item, full, package, data, ev, r),
        places_all_taken(ev),
    ensures
        asks_no_change(ev),
    decreases ev.len(), 0int, 1int,
{
    assert(ev[0]->Exists_answer);
    lemma_taken_parts(ev, 1);
    lemma_taken_existing(item, full, package, data, ev.skip(1), r);
    lemma_no_change_after(ev, 1);
}

proof fn lemma_taken_existing(item: Seq<char>, full: Seq<char>, package: Seq<char>, data: StowData, ev: Seq<FsEvent>, r: Result<(), CommandError>)
    requires
        existing_done(item, full, package, data, ev, r),
        places_all_taken(ev),
    ensures
        asks_no_change(ev),
    decreases ev.len(), 0int, 0int,
{
    if ev.len() >= 2 && (ev[0] matches FsEvent::Canonical { path, .. } && path == item) {
        if let Ok(cs) = ev[0]->Canonical_answer {
            let c = cs@;
            let j = if ev[1]->IsSymlink_answer { 3int } else { 2int };
            if !ev[1]->IsSymlink_answer || (ev[2]->LinkRead_answer matches Ok(p) && !same_path(p@, c)) {
                if both_dirs(ev, j) {
                    lemma_taken_parts(ev, j + 2);
                    lemma_taken_walk(c, full, package, data, ev.skip(j + 2), r);
                    lemma_no_change_after(ev, j + 2);
                } else {
                    let k = dirs_end(ev, j);
                    let rest = ev.skip(k);
                    lemma_taken_parts(ev, k);
                    if any_accepts(override_groups(data.options.filter), full) {
                        assert(!rest[0]->IsFile_answer);
                    }
                    assert(asks_no_change(rest));
                    lemma_no_change_after(ev, k);
                }
            }
        }
    }
}

proof fn lemma_taken_package(directory: Seq<char>, data: StowData, ev: Seq<FsEvent>, r: Result<(), CommandError>)
    requires
        stow_package_done(directory, data, ev, r),
        places_all_taken(ev),
    ensures
        asks_no_change(ev),
{
    if !same_path(directory, data.target@) && ev[0]->IsDirectory_answer && ev[1]->IsDirectory_answer {
        lemma_taken_parts(ev, 2);
        lemma_taken_walk(directory, data.target@, directory, data, ev.skip(2), r);
        lemma_no_change_after(ev, 2);
    }
}

/// A stow that finds every place it asks about already there, and none of
/// them a plain file, asks for no change at all, whatever else the file
/// system answers. This is what a second stow of the same packages finds,
/// so a second stow changes nothing.
pub proof fn lemma_stow_on_taken_places_changes_nothing(ps: Seq<String>, data: StowData, ev: Seq<FsEvent>, r: Result<(), CommandError>)
    requires
        stow_all(ps, data, ev, r),
        places_all_taken(ev),
    ensures
        asks_no_change(ev),
    decreases ps.len(),
{
    reveal_with_fuel(stow_all, 2);
    if ps.len() > 0 {
        if r is Err && stow_all(ps.drop_last(), data, ev, r) {
            lemma_stow_on_taken_places_changes_nothing(ps.drop_last(), data, ev, r);
        } else {
            let k = choose|k: int|
                #![trigger ev.take(k)]
                0 <= k <= ev.len() && stow_all(ps.drop_last(), data, ev.take(k), Ok(()))
                    && stow_package_done(ps.last()@, data, ev.skip(k), r);
            lemma_taken_parts(ev, k);
            lemma_stow_on_taken_places_changes_nothing(ps.drop_last(), data, ev.take(k), Ok(()));
            lemma_taken_package(ps.last()@, data, ev.skip(k), r);
            lemma_no_change_join(ev, k);
        }
    }
}

/// A list descends into directories: when the place of an entry in the
/// target is not a link to the entry, and the place and the entry are both
/// directories, the list next reads the entry's own directory, to list its
/// entries against the place.
pub proof fn lemma_list_descends_into_directories(
    item: Seq<char>,
    target: Seq<char>,
    data: ListData,
    ev: Seq<FsEvent>,
    r: Result<(), CommandError>,
)
    requires
        list_item_done(item, target, data, ev, r),
        !look_stopped(ev, prefix_view(data.dot_file_prefix)),
        !links_back(ev),
        after_link(ev) + 1 < ev.len(),
        ev[after_link(ev)]->IsDirectory_answer,
        ev[after_link(ev) + 1]->IsDirectory_answer,
    ensures
        after_link(ev) + 2 < ev.len(),
        ev[after_link(ev) + 2] matches FsEvent::Listed { path, .. } && path == canon(ev),
{
    let j = after_link(ev);
    assert(ev.skip(j + 2)[0] == ev[j + 2]);
}

/// A removal of a link at `i` that follows a read of that link, three
/// events after an entry's path was made canonical, and the link points to
/// that entry.
pub open spec fn link_removal_checked(ev: Seq<FsEvent>, i: int) -> bool {
    (ev[i] matches FsEvent::Changed { change: ch, .. } && ch.kind == ChangeKind::RemoveLink) ==> {
        &&& 3 <= i
        &&& ev[i - 1] matches FsEvent::LinkRead { path, answer: Ok(p) } && path == ev[i]->Changed_change.path
            && (ev[i - 3] matches FsEvent::Canonical { answer: Ok(c), .. } && same_path(p@, c@))
    }
}

/// Every removal of a link among `ev` is [`link_removal_checked`].
pub open spec fn link_removals_checked(ev: Seq<FsEvent>) -> bool {
    forall|i: int| 0 <= i < ev.len() ==> #[trigger] link_removal_checked(ev, i)
}

proof fn lemma_checked_join(ev: Seq<FsEvent>, k: int)
    requires
        0 <= k <= ev.len(),
        link_removals_checked(ev.take(k)),
        link_removals_checked(ev.skip(k)),
    ensures
        link_removals_checked(ev),
{
    assert forall|i: int| 0 <= i < ev.len() implies #[trigger] link_removal_checked(ev, i) by {
        if i < k {
            let a = ev.take(k);
            assert(link_removal_checked(a, i));
            assert(a[i] == ev[i]);
            if i >= 3 {
                assert(a[i - 1] == ev[i - 1]);
                assert(a[i - 3] == ev[i - 3]);
            }
        } else {
            let b = ev.skip(k);
            assert(link_removal_checked(b, i - k));
            assert(b[i - k] == ev[i]);
            if i - k >= 3 {
                assert(b[i - k - 1] == ev[i - 1]);
                assert(b[i - k - 3] == ev[i - 3]);
            }
        }
    }
}

/// Events that change nothing but removals of paths (not of links).
proof fn lemma_checked_no_link_removal(ev: Seq<FsEvent>)
    requires
        forall|i: int| 0 <= i < ev.len() && (#[trigger] ev[i]) is Changed ==> ev[i]->Changed_change.kind == ChangeKind::Remove,
    ensures
        link_removals_checked(ev),
{
    assert forall|i: int| 0 <= i < ev.len() implies #[trigger] link_removal_checked(ev, i) by {
        if ev[i] is Changed {
            assert(ev[i]->Changed_change.kind == ChangeKind::Remove);
        }
    }
}

proof fn lemma_cleanup_checked(path: Seq<char>, root: Seq<char>, ev: Seq<FsEvent>, r: Result<(), CommandError>)
    requires
        cleanup_done(path, root, ev, r),
    ensures
        link_removals_checked(ev),
{
    assert forall|i: int| 0 <= i < ev.len() && (#[trigger] ev[i]) is Changed implies ev[i]->Changed_change.kind
        == ChangeKind::Remove by {
        assert(removes_seen_empty(ev, i));
    }
    lemma_checked_no_link_removal(ev);
}

proof fn lemma_emptied_checked(full: Seq<char>, target: Seq<char>, ev: Seq<FsEvent>, r: Result<(), CommandError>)
    requires
        emptied(full, target, ev, r),
    ensures
        link_removals_checked(ev),
{
    if ev.len() > 3 {
        lemma_cleanup_checked(full, target, ev.skip(3), r);
        assert(forall|i: int| 0 <= i < 3 ==> #[trigger] link_removal_checked(ev.take(3), i));
        lemma_checked_join(ev, 3);
    } else {
        assert(forall|i: int| 0 <= i < ev.len() ==> #[trigger] link_removal_checked(ev, i));
    }
}

proof fn lemma_unstow_walk_checked(entry: Seq<char>, target: Seq<char>, data: UnstowData, ev: Seq<FsEvent>, r: Result<(), CommandError>)
    requires
        unstow_walk(entry, target, data, ev, r),
    ensures
        link_removals_checked(ev),
    decreases ev.len(), 3int, 0int,
{
    if let Ok(v) = ev[0]->Listed_answer {
        lemma_unstow_entries_checked(v@, target, data, ev.skip(1), r);
        assert(link_removal_checked(ev.take(1), 0));
        lemma_checked_join(ev, 1);
    } else {
        assert(link_removal_checked(ev, 0));
    }
}

proof fn lemma_unstow_entries_checked(v: Seq<Result<String, CommandError>>, target: Seq<char>, data: UnstowData, ev: Seq<FsEvent>, r: Result<(), CommandError>)
    requires
        unstow_entries(v, target, data, ev, r),
    ensures
        link_removals_checked(ev),
    decreases ev.len(), 2int, v.len(),
{
    reveal_with_fuel(unstow_entries, 2);
    if v.len() > 0 {
        match v.last() {
            Err(_) => {
                lemma_unstow_entries_checked(v.drop_last(), target, data, ev, r);
            },
            Ok(e) => {
                if r is Err && unstow_entries(v.drop_last(), target, data, ev, r) {
                    lemma_unstow_entries_checked(v.drop_last(), target, data, ev, r);
                } else {
                    let k = choose|k: int|
                        #![trigger ev.take(k)]
                        0 <= k <= ev.len() && unstow_entries(v.drop_last(), target, data, ev.take(k), Ok(()))
                            && unstow_item_done(e@, target, data, ev.skip(k), r);
                    lemma_unstow_entries_checked(v.drop_last(), target, data, ev.take(k), Ok(()));
                    lemma_unstow_item_checked(e@, target, data, ev.skip(k), r);
                    lemma_checked_join(ev, k);
                }
            },
        }
    }
}

proof fn lemma_unstow_item_checked(item: Seq<char>, target: Seq<char>, data: UnstowData, ev: Seq<FsEvent>, r: Result<(), CommandError>)
    requires
        unstow_item_done(item, target, data, ev, r),
    ensures
        link_removals_checked(ev),
    decreases ev.len(), 1int, 0int,
{
    let prefix = prefix_view(data.dot_file_prefix);
    let full = entry_look(item, target, prefix, ev, r)->Some_0;
    if look_stopped(ev, prefix) {
        assert(link_removal_checked(ev, 0));
    } else {
        let c = canon(ev);
        let j = after_link(ev);
        if links_back(ev) {
            assert(forall|i: int| 0 <= i < j ==> !(#[trigger] ev[i] is Changed));
            assert(link_removal_checked(ev, j));
            if ev.len() > j + 1 {
                lemma_cleanup_checked(full, target, ev.skip(j + 1), r);
                assert(forall|i: int| 0 <= i < j + 1 ==> #[trigger] link_removal_checked(ev.take(j + 1), i)) by {
                    assert forall|i: int| 0 <= i < j + 1 implies #[trigger] link_removal_checked(ev.take(j + 1), i) by {
                        assert(ev.take(j + 1)[i] == ev[i]);
                        if i == j {
                            assert(ev.take(j + 1)[i - 1] == ev[i - 1]);
                            assert(ev.take(j + 1)[i - 3] == ev[i - 3]);
                        }
                    }
                }
                lemma_checked_join(ev, j + 1);
            } else {
                assert(forall|i: int| 0 <= i < ev.len() ==> #[trigger] link_removal_checked(ev, i));
            }
        } else if both_dirs(ev, j) && j + 2 <= ev.len() {
            let w = ev.skip(j + 2);
            if r is Err && unstow_walk(c, full, data, w, r) {
                lemma_unstow_walk_checked(c, full, data, w, r);
            } else {
                let k = choose|k: int|
                    #![trigger w.take(k)]
                    0 <= k <= w.len() && unstow_walk(c, full, data, w.take(k), Ok(()))
                        && emptied(full, target, w.skip(k), r);
                lemma_unstow_walk_checked(c, full, data, w.take(k), Ok(()));
                lemma_emptied_checked(full, target, w.skip(k), r);
                lemma_checked_join(w, k);
            }
            assert(forall|i: int| 0 <= i < j + 2 ==> #[trigger] link_removal_checked(ev.take(j + 2), i));
            assert(ev.skip(j + 2) == w);
            lemma_checked_join(ev, j + 2);
        } else {
            assert(forall|i: int| 0 <= i < ev.len() ==> #[trigger] link_removal_checked(ev, i));
        }
    }
}

/// An unstow removes a link only when it has read that link and found it
/// pointing to the package entry being unstowed: every removal of a link
/// follows a read of the same link whose answer is the same path as the
/// entry's canonical path, asked three events after that path was made
/// canonical. A link of another package at the same place is left alone.
pub proof fn lemma_unstow_removes_only_links_back(ps: Seq<String>, data: UnstowData, ev: Seq<FsEvent>, r: Result<(), CommandError>)
    requires
        unstow_all(ps, data, ev, r),
    ensures
        link_removals_checked(ev),
    decreases ps.len(),
{
    reveal_with_fuel(unstow_all, 2);
    if ps.len() == 0 {
        assert(forall|i: int| 0 <= i < ev.len() ==> #[trigger] link_removal_checked(ev, i));
    } else if r is Err && unstow_all(ps.drop_last(), data, ev, r) {
        lemma_unstow_removes_only_links_back(ps.drop_last(), data, ev, r);
    } else {
        let k = choose|k: int|
            #![trigger ev.take(k)]
            0 <= k <= ev.len() && unstow_all(ps.drop_last(), data, ev.take(k), Ok(()))
                && unstow_walk(ps.last()@, data.target@, data, ev.skip(k), r);
        lemma_unstow_removes_only_links_back(ps.drop_last(), data, ev.take(k), Ok(()));
        lemma_unstow_walk_checked(ps.last()@, data.target@, data, ev.skip(k), r);
        lemma_checked_join(ev, k);
    }
}

/// A stow that finds an entry's place taken by a link to something else
/// does not take that link for its own: it goes on to ask whether the entry
/// is a directory; and when it is not, and no override pattern accepts the
/// place, the stow fails with `DirectoryEntryAlreadyExists`, naming the
/// entry, and asks for no change.
pub proof fn lemma_stow_refuses_foreign_link(
    item: Seq<char>,
    full: Seq<char>,
    package: Seq<char>,
    data: StowData,
    ev: Seq<FsEvent>,
    r: Result<(), CommandError>,
)
    requires
        existing_done(item, full, package, data, ev, r),
        ev.len() >= 3,
        ev[0]->Canonical_answer is Ok,
        ev[1]->IsSymlink_answer,
        ev[2]->LinkRead_answer matches Ok(p) && !same_path(p@, canon(ev)),
        !any_accepts(override_groups(data.options.filter), full),
    ensures
        ev.len() >= 4,
        ev[3] matches FsEvent::IsDirectory { path, .. } && path == canon(ev),
        !ev[3]->IsDirectory_answer ==> {
            &&& ev.len() == 4
            &&& r matches Err(CommandError::DirectoryEntryAlreadyExists { directory: d }) && d@ == (match file_name(canon(ev)) {
                Some(n) => n,
                None => "Unknown Name"@,
            })
        },
{
    if !ev[3]->IsDirectory_answer {
        assert(ev.skip(4).len() == 0);
    }
}

proof fn lemma_list_entries_look_at_all(v: Seq<Result<String, CommandError>>, target: Seq<char>, data: ListData, ev: Seq<FsEvent>, m: int)
    requires
        list_entries(v, target, data, ev, Ok(())),
        0 <= m < v.len(),
        v[m] is Ok,
    ensures
        exists|i: int| 0 <= i < ev.len() && (#[trigger] ev[i] matches FsEvent::Canonical { path, .. } && path == v[m]->Ok_0@),
    decreases v.len(),
{
    reveal_with_fuel(list_entries, 2);
    let r: Result<(), CommandError> = Ok(());
    match v.last() {
        Err(_) => {
            assert(v.drop_last()[m] == v[m]);
            lemma_list_entries_look_at_all(v.drop_last(), target, data, ev, m);
        },
        Ok(e) => {
            let k = choose|k: int|
                #![trigger ev.take(k)]
                0 <= k <= ev.len() && list_entries(v.drop_last(), target, data, ev.take(k), Ok(()))
                    && list_item_done(e@, target, data, ev.skip(k), r);
            if m == v.len() - 1 {
                assert(ev.skip(k)[0] == ev[k]);
                assert(ev[k] matches FsEvent::Canonical { path, .. } && path == v[m]->Ok_0@);
            } else {
                assert(v.drop_last()[m] == v[m]);
                lemma_list_entries_look_at_all(v.drop_last(), target, data, ev.take(k), m);
                let i = choose|i: int|
                    0 <= i < ev.take(k).len() && (#[trigger] ev.take(k)[i] matches FsEvent::Canonical { path, .. } && path
                        == v[m]->Ok_0@);
                assert(ev.take(k)[i] == ev[i]);
            }
        },
    }
}

/// A walk that succeeds leaves out no entry it could read: for every
/// readable entry of the directory walked, its path is made canonical in one
/// of the events.
pub proof fn lemma_list_walk_looks_at_every_entry(entry: Seq<char>, target: Seq<char>, data: ListData, ev: Seq<FsEvent>, e: String)
    requires
        list_walk(entry, target, data, ev, Ok(())),
        ev[0]->Listed_answer matches Ok(v) && v@.contains(Ok::<String, CommandError>(e)),
    ensures
        exists|i: int| 0 <= i < ev.len() && (#[trigger] ev[i] matches FsEvent::Canonical { path, .. } && path == e@),
{
    let v = ev[0]->Listed_answer->Ok_0@;
    let m = choose|m: int| 0 <= m < v.len() && v[m] == Ok::<String, CommandError>(e);
    lemma_list_entries_look_at_all(v, target, data, ev.skip(1), m);
    let i = choose|i: int|
        0 <= i < ev.skip(1).len() && (#[trigger] ev.skip(1)[i] matches FsEvent::Canonical { path, .. } && path == e@);
    assert(ev.skip(1)[i] == ev[i + 1]);
}

proof fn lemma_unstow_entries_look_at_all(v: Seq<Result<String, CommandError>>, target: Seq<char>, data: UnstowData, ev: Seq<FsEvent>, m: int)
    requires
        unstow_entries(v, target, data, ev, Ok(())),
        0 <= m < v.len(),
        v[m] is Ok,
    ensures
        exists|i: int| 0 <= i < ev.len() && (#[trigger] ev[i] matches FsEvent::Canonical { path, .. } && path == v[m]->Ok_0@),
    decreases v.len(),
{
    reveal_with_fuel(unstow_entries, 2);
    let r: Result<(), CommandError> = Ok(());
    match v.last() {
        Err(_) => {
            assert(v.drop_last()[m] == v[m]);
            lemma_unstow_entries_look_at_all(v.drop_last(), target, data, ev, m);
        },
        Ok(e) => {
            let k = choose|k: int|
                #![trigger ev.take(k)]
                0 <= k <= ev.len() && unstow_entries(v.drop_last(), target, data, ev.take(k), Ok(()))
                    && unstow_item_done(e@, target, data, ev.skip(k), r);
            if m == v.len() - 1 {
                assert(ev.skip(k)[0] == ev[k]);
                assert(ev[k] matches FsEvent::Canonical { path, .. } && path == v[m]->Ok_0@);
            } else {
                assert(v.drop_last()[m] == v[m]);
                lemma_unstow_entries_look_at_all(v.drop_last(), target, data, ev.take(k), m);
                let i = choose|i: int|
                    0 <= i < ev.take(k).len() && (#[trigger] ev.take(k)[i] matches FsEvent::Canonical { path, .. } && path
                        == v[m]->Ok_0@);
                assert(ev.take(k)[i] == ev[i]);
            }
        },
    }
}

/// A walk that succeeds leaves out no entry it could read: for every
/// readable entry of the directory walked, its path is made canonical in one
/// of the events.
pub proof fn lemma_unstow_walk_looks_at_every_entry(entry: Seq<char>, target: Seq<char>, data: UnstowData, ev: Seq<FsEvent>, e: String)
    requires
        unstow_walk(entry, target, data, ev, Ok(())),
        ev[0]->Listed_answer matches Ok(v) && v@.contains(Ok::<String, CommandError>(e)),
    ensures
        exists|i: int| 0 <= i < ev.len() && (#[trigger] ev[i] matches FsEvent::Canonical { path, .. } && path == e@),
{
    let v = ev[0]->Listed_answer->Ok_0@;
    let m = choose|m: int| 0 <= m < v.len() && v[m] == Ok::<String, CommandError>(e);
    lemma_unstow_entries_look_at_all(v, target, data, ev.skip(1), m);
    let i = choose|i: int|
        0 <= i < ev.skip(1).len() && (#[trigger] ev.skip(1)[i] matches FsEvent::Canonical { path, .. } && path == e@);
    assert(ev.skip(1)[i] == ev[i + 1]);
}

proof fn lemma_stow_entries_look_at_all(v: Seq<Result<String, CommandError>>, target: Seq<char>, package: Seq<char>, data: StowData, ev: Seq<FsEvent>, m: int)
    requires
        stow_entries(v, target, package, data, ev, Ok(())),
        0 <= m < v.len(),
        v[m] is Ok,
        !stow_skips(v[m]->Ok_0@, package, data.options.filter),
    ensures
        exists|i: int| 0 <= i < ev.len() && (#[trigger] ev[i] matches FsEvent::IsSymlink { path, .. } && path == v[m]->Ok_0@),
    decreases v.len(),
{
    reveal_with_fuel(stow_entries, 2);
    let r: Result<(), CommandError> = Ok(());
    match v.last() {
        Err(_) => {
            assert(v.drop_last()[m] == v[m]);
            lemma_stow_entries_look_at_all(v.drop_last(), target, package, data, ev, m);
        },
        Ok(e) => {
            let k = choose|k: int|
                #![trigger ev.take(k)]
                0 <= k <= ev.len() && stow_entries(v.drop_last(), target, package, data, ev.take(k), Ok(()))
                    && stow_item_done(e@, target, package, data, ev.skip(k), r);
            if m == v.len() - 1 {
                assert(ev.skip(k)[0] == ev[k]);
                assert(ev[k] matches FsEvent::IsSymlink { path, .. } && path == v[m]->Ok_0@);
            } else {
                assert(v.drop_last()[m] == v[m]);
                lemma_stow_entries_look_at_all(v.drop_last(), target, package, data, ev.take(k), m);
                let i = choose|i: int|
                    0 <= i < ev.take(k).len() && (#[trigger] ev.take(k)[i] matches FsEvent::IsSymlink { path, .. } && path
                        == v[m]->Ok_0@);
                assert(ev.take(k)[i] == ev[i]);
            }
        },
    }
}

/// A walk that succeeds leaves out no entry it could read: for every
/// readable entry of the directory walked, it is asked whether it is a link in one
/// of the events.
pub proof fn lemma_stow_walk_looks_at_every_entry(entry: Seq<char>, target: Seq<char>, package: Seq<char>, data: StowData, ev: Seq<FsEvent>, e: String)
    requires
        stow_walk(entry, target, package, data, ev, Ok(())),
        ev[0]->Listed_answer matches Ok(v) && v@.contains(Ok::<String, CommandError>(e)),
        !stow_skips(e@, package, data.options.filter),
    ensures
        exists|i: int| 0 <= i < ev.len() && (#[trigger] ev[i] matches FsEvent::IsSymlink { path, .. } && path == e@),
{
    let v = ev[0]->Listed_answer->Ok_0@;
    let m = choose|m: int| 0 <= m < v.len() && v[m] == Ok::<String, CommandError>(e);
    lemma_stow_entries_look_at_all(v, target, package, data, ev.skip(1), m);
    let i = choose|i: int|
        0 <= i < ev.skip(1).len() && (#[trigger] ev.skip(1)[i] matches FsEvent::IsSymlink { path, .. } && path == e@);
    assert(ev.skip(1)[i] == ev[i + 1]);
}

} // verus!
