//! Worktree lifecycle manager.
//!
//! Manages multiple working copies ("worktrees") of a single
//! version-controlled repository: creating, archiving, reusing and
//! refreshing them. This crate holds the verified core — the persisted
//! configuration, the reconciler that classifies live worktrees as
//! active or archived, and the lifecycle operations that decide which
//! directory and branch to act on and what to persist afterward.
//! Process invocation, file I/O and rendering live outside the library
//! and drive it with plain values.

use vstd::prelude::*;

pub mod config;
pub mod lifecycle;
pub mod reconcile;
pub mod text;

verus! {

/// Errors the library surfaces to its caller.
#[derive(Clone, Copy, PartialEq, Eq, Structural, Debug)]
pub enum OpError {
    /// A repository with the given name is already tracked.
    RepoExists,
    /// No repository with the given name is tracked.
    RepoNotFound,
    /// A line of the live worktree listing did not have the expected
    /// whitespace-separated fields.
    MalformedListing,
}

impl OpError {
    /// A human-readable description of the error.
    pub fn message(&self) -> (r: &'static str)
        ensures
            r@ == match self {
                OpError::RepoExists => "Repository already exists"@,
                OpError::RepoNotFound => "Repository not found"@,
                OpError::MalformedListing => "Malformed worktree listing line"@,
            },
    {
        match self {
            OpError::RepoExists => "Repository already exists",
            OpError::RepoNotFound => "Repository not found",
            OpError::MalformedListing => "Malformed worktree listing line",
        }
    }
}

} // verus!
