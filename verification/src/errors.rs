//! Error taxonomy: caller mistakes (`UserError`) and filesystem or
//! environment failures (`RuntimeError`).
use vstd::prelude::*;

verus! {

/// A failure caused by the caller's input or configuration.
#[derive(Debug, Clone, PartialEq, Eq)]
pub enum UserError {
    /// The entry title does not end in `.md`.
    InvalidTitle,
    /// An entry file with this path already exists.
    DuplicateEntry(String),
    /// No journal root was given and none is configured.
    NoJournalRootConfigured,
    /// A filesystem failure, with its cause.
    Filesystem(String),
}

/// A failure of the filesystem or of the on-disk structure.
#[derive(Debug, Clone, PartialEq, Eq)]
pub enum RuntimeError {
    /// Creating the target directory failed, with the cause.
    DirectoryCreateFailed(String),
    /// A year or month folder name does not match the layout; holds the
    /// offending name.
    InvalidStructure(String),
    /// A filesystem failure, with its cause.
    Filesystem(String),
}

} // verus!
