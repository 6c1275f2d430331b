//! Installing reusable UI components into a project.
//!
//! The library resolves a component's internal dependencies from a
//! registry, chooses the workspace that receives each of its files,
//! rewrites import paths to the conventions of that workspace, plans the
//! writes so that a failed run can be undone, reconciles the packages that
//! the components need with what the project has, and keeps the re-exports
//! of a barrel file in step. Every function states its result over
//! sequences of characters and other plain values, and is proved to meet
//! what it states.
//!
//! Reading and writing files, talking to the registry and to the user are
//! left to the caller: the library is handed what was read and says what
//! is to be done.

use vstd::prelude::*;

pub mod barrel;
pub mod cache;
pub mod chars;
pub mod deps;
pub mod exports;
pub mod fetch;
pub mod framework;
pub mod gather;
pub mod imports;
pub mod init;
pub mod install;
pub mod ordered;
pub mod paths;
pub mod plan;
pub mod registry;
pub mod resolver;
pub mod setup;
pub mod string_map;
pub mod tailwind;
pub mod targets;
pub mod text;
pub mod types;
pub mod versions;
pub mod workspace;
pub mod writer;

verus! {

/// How a command ended when it did not fail.
#[derive(Clone, Copy, Debug, PartialEq, Eq, Structural)]
pub enum CommandOutcome {
    /// The work was done, or would have been in a dry run.
    Completed,
    /// There was nothing to do.
    NoOp,
}

} // verus!
