//! Interactive management of the hook scripts of a Git repository.
//!
//! The crate is built from four parts. [`hooks`] is the closed taxonomy of
//! Git hook identifiers with a canonical name in each direction. [`script`]
//! rewrites a hook's shell script so that it either contains exactly one
//! invocation line for this tool or none, whatever the script held before.
//! [`actions`] is the registry of selectable checks and commands, each with
//! its own applicability predicate over the repository state and the current
//! hook. [`orchestrate`] composes them: it plans which hook scripts to
//! rewrite, filters the registry, and aggregates the outcome of the chosen
//! actions into a process exit status.
//!
//! Probing the machine (is a command installed, does a file exist), reading
//! and writing the scripts on disk, and the interactive prompts are left to
//! the calling program; the functions here take the probe results and file
//! contents as plain values and state in their contracts what they decide.

pub mod actions;
pub mod hooks;
pub mod manifest;
pub mod orchestrate;
pub mod script;
