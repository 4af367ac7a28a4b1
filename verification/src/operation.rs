//! The file-system work that commands ask for, and a record of the changes
//! they asked for and of every question put, with its answer.
//!
//! Commands never touch the file system themselves: every question and every
//! change goes through a [`CommandOperation`], which the caller implements
//! (on the real file system, or as a simulation that only prints). Nothing is
//! assumed of its answers; the commands are verified for every answer.
use vstd::prelude::*;
use crate::color_support::{segment_views, ColorSupport, SegmentView, TextSegment};
use crate::command_error::CommandError;

verus! {

/// The questions and changes a command makes of the file system.
pub trait CommandOperation {
    /// Whether `path` is a directory (following links).
    fn is_directory(&self, path: &str) -> bool;

    /// Whether `path` is a symbolic link.
    fn is_symlink(&self, path: &str) -> bool;

    /// Whether `path` is a regular file (following links).
    fn is_file(&self, path: &str) -> bool;

    /// Whether anything exists at `path` (following links).
    fn path_exists(&self, path: &str) -> bool;

    /// The canonical, absolute form of `path`, or the system's message.
    fn canonicalize(&self, path: &str) -> Result<String, String>;

    /// The paths of the entries of the directory `path`; an entry that could
    /// not be read is an error of its own.
    fn read_directory(&self, path: &str) -> Result<Vec<Result<String, CommandError>>, CommandError>;

    /// Where the link at `path` points.
    fn read_link(&self, path: &str) -> Result<String, CommandError>;

    /// Makes `target` a symbolic link to `item`.
    fn link_item(&mut self, item: &str, target: &str) -> Result<(), CommandError>;

    /// Creates the directory `path`.
    fn create_directory(&mut self, path: &str) -> Result<(), CommandError>;

    /// Removes the file or empty directory at `path`.
    fn remove_item(&mut self, path: &str) -> Result<(), CommandError>;

    /// Removes the symbolic link at `path`.
    fn remove_link(&mut self, path: &str) -> Result<(), CommandError>;

    /// Shows one line of output.
    fn show(&mut self, line: Vec<TextSegment>);
}

/// How a built command is meant to be run: on the file system, or as a
/// simulation that prints each change, in the given colors, instead of making it.
#[derive(Debug, Clone, Copy, PartialEq, Eq, Structural)]
pub enum CommandOperationImpl {
    Default,
    Simulated(ColorSupport),
}

impl Default for CommandOperationImpl {
    fn default() -> (r: Self)
        ensures
            r == CommandOperationImpl::Default,
    {
        CommandOperationImpl::Default
    }
}

/// The kinds of change a command can ask for.
#[derive(Debug, Clone, Copy, PartialEq, Eq, Structural)]
pub enum ChangeKind {
    Link,
    CreateDirectory,
    Remove,
    RemoveLink,
}

/// One change asked of the file system: `path` is the path changed, `source`
/// what a link points to (empty for other kinds).
pub struct FsChange {
    pub kind: ChangeKind,
    pub path: Seq<char>,
    pub source: Seq<char>,
}

/// A change of the given kind at `path`, with no link source.
pub open spec fn change(kind: ChangeKind, path: Seq<char>) -> FsChange {
    FsChange { kind, path, source: Seq::empty() }
}

/// One question or change a command put to the file system, with the
/// answer it got.
pub enum FsEvent {
    IsDirectory { path: Seq<char>, answer: bool },
    IsSymlink { path: Seq<char>, answer: bool },
    IsFile { path: Seq<char>, answer: bool },
    Exists { path: Seq<char>, answer: bool },
    Canonical { path: Seq<char>, answer: Result<String, String> },
    Listed { path: Seq<char>, answer: Result<Vec<Result<String, CommandError>>, CommandError> },
    LinkRead { path: Seq<char>, answer: Result<String, CommandError> },
    Changed { change: FsChange, answer: Result<(), CommandError> },
    Shown { line: Seq<SegmentView> },
}

/// A [`CommandOperation`] together with the list of every change asked of it
/// so far, whether the file system carried it out or not, and of every
/// question and change put to it, with its answer.
pub struct Recorder<O> {
    inner: O,
    log: Ghost<Seq<FsChange>>,
    trail: Ghost<Seq<FsEvent>>,
}

impl<O: CommandOperation> Recorder<O> {
    /// The changes asked for so far, in order.
    pub closed spec fn changes(&self) -> Seq<FsChange> {
        self.log@
    }

    /// Everything put to the operation so far, in order, with its answers.
    pub closed spec fn events(&self) -> Seq<FsEvent> {
        self.trail@
    }

    /// The operation that is recorded.
    pub closed spec fn operation(&self) -> O {
        self.inner
    }

    /// Starts recording on `inner`, with nothing asked yet.
    pub fn new(inner: O) -> (r: Self)
        ensures
            r.changes() == Seq::<FsChange>::empty(),
            r.events() == Seq::<FsEvent>::empty(),
            r.operation() == inner,
    {
        Recorder { inner, log: Ghost(Seq::empty()), trail: Ghost(Seq::empty()) }
    }

    /// The operation that was recorded.
    pub fn into_inner(self) -> (r: O)
        ensures
            r == self.operation(),
    {
        self.inner
    }

    /// The operation that is recorded.
    pub fn inner(&self) -> (r: &O)
        ensures
            *r == self.operation(),
    {
        &self.inner
    }

    pub(crate) fn is_directory(&mut self, path: &str) -> (r: bool)
        ensures
            final(self).changes() == old(self).changes(),
            final(self).events() == old(self).events().push(FsEvent::IsDirectory { path: path@, answer: r }),
    {
        let r = self.inner.is_directory(path);
        proof {
            self.trail@ = self.trail@.push(FsEvent::IsDirectory { path: path@, answer: r });
        }
        r
    }

    pub(crate) fn is_symlink(&mut self, path: &str) -> (r: bool)
        ensures
            final(self).changes() == old(self).changes(),
            final(self).events() == old(self).events().push(FsEvent::IsSymlink { path: path@, answer: r }),
    {
        let r = self.inner.is_symlink(path);
        proof {
            self.trail@ = self.trail@.push(FsEvent::IsSymlink { path: path@, answer: r });
        }
        r
    }

    pub(crate) fn is_file(&mut self, path: &str) -> (r: bool)
        ensures
            final(self).changes() == old(self).changes(),
            final(self).events() == old(self).events().push(FsEvent::IsFile { path: path@, answer: r }),
    {
        let r = self.inner.is_file(path);
        proof {
            self.trail@ = self.trail@.push(FsEvent::IsFile { path: path@, answer: r });
        }
        r
    }

    pub(crate) fn path_exists(&mut self, path: &str) -> (r: bool)
        ensures
            final(self).changes() == old(self).changes(),
            final(self).events() == old(self).events().push(FsEvent::Exists { path: path@, answer: r }),
    {
        let r = self.inner.path_exists(path);
        proof {
            self.trail@ = self.trail@.push(FsEvent::Exists { path: path@, answer: r });
        }
        r
    }

    pub(crate) fn canonicalize(&mut self, path: &str) -> (r: Result<String, String>)
        ensures
            final(self).changes() == old(self).changes(),
            final(self).events() == old(self).events().push(FsEvent::Canonical { path: path@, answer: r }),
    {
        let r = self.inner.canonicalize(path);
        proof {
            self.trail@ = self.trail@.push(FsEvent::Canonical { path: path@, answer: r });
        }
        r
    }

    pub(crate) fn read_directory(&mut self, path: &str) -> (r: Result<Vec<Result<String, CommandError>>, CommandError>)
        ensures
            final(self).changes() == old(self).changes(),
            final(self).events() == old(self).events().push(FsEvent::Listed { path: path@, answer: r }),
    {
        let r = self.inner.read_directory(path);
        proof {
            self.trail@ = self.trail@.push(FsEvent::Listed { path: path@, answer: r });
        }
        r
    }

    pub(crate) fn read_link(&mut self, path: &str) -> (r: Result<String, CommandError>)
        ensures
            final(self).changes() == old(self).changes(),
            final(self).events() == old(self).events().push(FsEvent::LinkRead { path: path@, answer: r }),
    {
        let r = self.inner.read_link(path);
        proof {
            self.trail@ = self.trail@.push(FsEvent::LinkRead { path: path@, answer: r });
        }
        r
    }

    pub(crate) fn link_item(&mut self, item: &str, target: &str) -> (r: Result<(), CommandError>)
        ensures
            final(self).changes() == old(self).changes().push(
                FsChange { kind: ChangeKind::Link, path: target@, source: item@ },
            ),
            final(self).events() == old(self).events().push(FsEvent::Changed {
                change: FsChange { kind: ChangeKind::Link, path: target@, source: item@ },
                answer: r,
            }),
    {
        let ghost c = FsChange { kind: ChangeKind::Link, path: target@, source: item@ };
        let r = self.inner.link_item(item, target);
        proof {
            self.log@ = self.log@.push(c);
            self.trail@ = self.trail@.push(FsEvent::Changed { change: c, answer: r });
        }
        r
    }

    pub(crate) fn create_directory(&mut self, path: &str) -> (r: Result<(), CommandError>)
        ensures
            final(self).changes() == old(self).changes().push(change(ChangeKind::CreateDirectory, path@)),
            final(self).events() == old(self).events().push(
                FsEvent::Changed { change: change(ChangeKind::CreateDirectory, path@), answer: r },
            ),
    {
        let r = self.inner.create_directory(path);
        proof {
            self.log@ = self.log@.push(change(ChangeKind::CreateDirectory, path@));
            self.trail@ = self.trail@.push(FsEvent::Changed { change: change(ChangeKind::CreateDirectory, path@), answer: r });
        }
        r
    }

    pub(crate) fn remove_item(&mut self, path: &str) -> (r: Result<(), CommandError>)
        ensures
            final(self).changes() == old(self).changes().push(change(ChangeKind::Remove, path@)),
            final(self).events() == old(self).events().push(
                FsEvent::Changed { change: change(ChangeKind::Remove, path@), answer: r },
            ),
    {
        let r = self.inner.remove_item(path);
        proof {
            self.log@ = self.log@.push(change(ChangeKind::Remove, path@));
            self.trail@ = self.trail@.push(FsEvent::Changed { change: change(ChangeKind::Remove, path@), answer: r });
        }
        r
    }

    pub(crate) fn remove_link(&mut self, path: &str) -> (r: Result<(), CommandError>)
        ensures
            final(self).changes() == old(self).changes().push(change(ChangeKind::RemoveLink, path@)),
            final(self).events() == old(self).events().push(
                FsEvent::Changed { change: change(ChangeKind::RemoveLink, path@), answer: r },
            ),
    {
        let r = self.inner.remove_link(path);
        proof {
            self.log@ = self.log@.push(change(ChangeKind::RemoveLink, path@));
            self.trail@ = self.trail@.push(FsEvent::Changed { change: change(ChangeKind::RemoveLink, path@), answer: r });
        }
        r
    }

    pub(crate) fn show(&mut self, line: Vec<TextSegment>)
        ensures
            final(self).changes() == old(self).changes(),
            final(self).events() == old(self).events().push(FsEvent::Shown { line: segment_views(line@) }),
    {
        let ghost shown = segment_views(line@);
        self.inner.show(line);
        proof {
            self.trail@ = self.trail@.push(FsEvent::Shown { line: shown });
        }
    }
}

} // verus!
