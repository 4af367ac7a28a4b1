//! Errors of building and running commands.
use vstd::prelude::*;

verus! {

/// Why a command failed. Where the file system refused an operation, the
/// system's message is kept beside the path that was involved.
#[derive(Debug, Clone, PartialEq, Eq)]
pub enum CommandError {
    InvalidPath { path: String, message: String },
    SymLinkError { target: String, destination: String, message: String },
    DirectoryReadError { message: String },
    FileRemoveError { file: String, message: String },
    DirectoryRemoveError { directory: String, message: String },
    CreateDirectoryError { directory: String, message: String },
    ReadLinkError { path: String, message: String },
    InvalidTargetDirectory { directory: String },
    StowDirectoryNotFound { directory: String },
    InvalidStowDirectory { directory: String },
    DirectoryEntryAlreadyExists { directory: String },
    InvalidStowItem { item: String },
}

/// Why a command could not be built.
#[derive(Debug, Clone, Copy, PartialEq, Eq, Structural)]
pub enum CommandBuildError {
    MissingTargetDirectory,
    MissingStowDirectory,
}

} // verus!
