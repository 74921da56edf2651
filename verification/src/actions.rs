//! The action registry's building blocks: the repository-state snapshot
//! that validation predicates inspect, the polymorphic [`Action`] trait,
//! and the concrete action kinds.
//!
//! Validation is pure: it reads nothing but the snapshot and the hook.
//! Probing the machine (is a command installed, does a file exist) is the
//! calling program's job; it fills a [`RepoState`] once and hands it in.
//! Execution is equally separated: an action renders the shell command
//! that performs its work, and the calling program runs it only after
//! `validate` returned true for the current state and hook.

use vstd::prelude::*;

use crate::hooks::Hook;

verus! {

/// A snapshot of the repository state against which actions validate:
/// which tools are invocable and which manifest files exist at the
/// repository root.
#[derive(Clone, Copy, PartialEq, Eq, Structural, Debug)]
pub struct RepoState {
    /// Is the cargo command invocable?
    pub cargo_installed: bool,
    /// Does a Cargo manifest exist at the repository root?
    pub cargo_manifest: bool,
    /// Is the node runtime invocable?
    pub node_installed: bool,
    /// Does a package manifest exist at the repository root?
    pub node_manifest: bool,
    /// Is the yarn command invocable?
    pub yarn_installed: bool,
}

/// Both the Rust toolchain and a Cargo manifest are present.
pub fn validate_rust(state: &RepoState) -> (r: bool)
    ensures
        r == (state.cargo_installed && state.cargo_manifest),
{
    state.cargo_installed && state.cargo_manifest
}

/// Both the Node runtime and a package manifest are present.
pub fn validate_node(state: &RepoState) -> (r: bool)
    ensures
        r == (state.node_installed && state.node_manifest),
{
    state.node_installed && state.node_manifest
}

/// The package manager to prefer: yarn when it is installed, npm else.
pub fn get_package_manager(yarn_installed: bool) -> (r: String)
    ensures
        r@ == if yarn_installed {
            "yarn"@
        } else {
            "npm"@
        },
{
    if yarn_installed {
        "yarn".to_owned()
    } else {
        "npm".to_owned()
    }
}

/// Relies on std::path::Path::exists: whether the path names an entity
/// that exists on disk right now. What is on disk can change between any
/// two calls, so nothing is promised of the result.
#[verifier::external_body]
pub fn check_if_file_exists(path: &str) -> bool {
    std::path::Path::new(path).exists()
}

/// A user-selectable unit of work: a description for the menu, a pure
/// applicability predicate over the repository state and the current
/// hook, and the shell command that performs the work. The calling
/// program must run the command only for an action whose `validate`
/// returned true for the current state and hook; the orchestrator
/// enforces that ordering, not the action itself.
pub trait Action {
    /// When does this action apply?
    spec fn applicable(&self, state: RepoState, hook: Hook) -> bool;

    /// The description shown in the selection menu.
    spec fn description(&self) -> Seq<char>;

    /// The shell command that performs the work, from the repository root.
    spec fn command_spec(&self, repository_path: Seq<char>) -> Seq<char>;

    /// Decides applicability; inspects nothing but the snapshot and hook.
    fn validate(&self, state: &RepoState, hook: &Hook) -> (r: bool)
        ensures
            r == self.applicable(*state, *hook),
    ;

    /// Renders the description.
    fn describe(&self) -> (d: String)
        ensures
            d@ == self.description(),
    ;

    /// Renders the shell command to run from the repository root.
    fn command(&self, repository_path: &str) -> (c: String)
        ensures
            c@ == self.command_spec(repository_path@),
    ;
}

/// Checks formatting with the Rust toolchain's formatter.
pub struct CargoFmt {}

impl Action for CargoFmt {
    open spec fn applicable(&self, state: RepoState, hook: Hook) -> bool {
        state.cargo_installed && state.cargo_manifest
    }

    open spec fn description(&self) -> Seq<char> {
        "Rust: Check formatting with cargo fmt"@
    }

    open spec fn command_spec(&self, repository_path: Seq<char>) -> Seq<char> {
        "cargo fmt -- --check"@
    }

    fn validate(&self, state: &RepoState, hook: &Hook) -> (r: bool) {
        validate_rust(state)
    }

    fn describe(&self) -> (d: String) {
        "Rust: Check formatting with cargo fmt".to_owned()
    }

    fn command(&self, repository_path: &str) -> (c: String) {
        "cargo fmt -- --check".to_owned()
    }
}

/// Runs the Rust test suite.
pub struct CargoTest {}

impl Action for CargoTest {
    open spec fn applicable(&self, state: RepoState, hook: Hook) -> bool {
        state.cargo_installed && state.cargo_manifest
    }

    open spec fn description(&self) -> Seq<char> {
        "Rust: Run tests"@
    }

    open spec fn command_spec(&self, repository_path: Seq<char>) -> Seq<char> {
        "cargo test"@
    }

    fn validate(&self, state: &RepoState, hook: &Hook) -> (r: bool) {
        validate_rust(state)
    }

    fn describe(&self) -> (d: String) {
        "Rust: Run tests".to_owned()
    }

    fn command(&self, repository_path: &str) -> (c: String) {
        "cargo test".to_owned()
    }
}

/// Installs the crate on the local machine; scoped to the hooks after
/// which an install makes sense.
pub struct CargoInstall {}

impl Action for CargoInstall {
    open spec fn applicable(&self, state: RepoState, hook: Hook) -> bool {
        state.cargo_installed && state.cargo_manifest && (hook == Hook::PostUpdate || hook
            == Hook::PrePush || hook == Hook::PostCommit)
    }

    open spec fn description(&self) -> Seq<char> {
        "Rust: Install to local machine (default params)"@
    }

    open spec fn command_spec(&self, repository_path: Seq<char>) -> Seq<char> {
        "cargo install --path "@ + repository_path
    }

    fn validate(&self, state: &RepoState, hook: &Hook) -> (r: bool) {
        let scoped = *hook == Hook::PostUpdate || *hook == Hook::PrePush || *hook
            == Hook::PostCommit;
        validate_rust(state) && scoped
    }

    fn describe(&self) -> (d: String) {
        "Rust: Install to local machine (default params)".to_owned()
    }

    fn command(&self, repository_path: &str) -> (c: String) {
        let mut c = "cargo install --path ".to_owned();
        c.append(repository_path);
        c
    }
}

/// Publishes the crate to the registry; sensible only after a commit.
pub struct CargoPublish {}

impl Action for CargoPublish {
    open spec fn applicable(&self, state: RepoState, hook: Hook) -> bool {
        state.cargo_installed && state.cargo_manifest && hook == Hook::PostCommit
    }

    open spec fn description(&self) -> Seq<char> {
        "Rust: Publish on crates.io (default params)"@
    }

    open spec fn command_spec(&self, repository_path: Seq<char>) -> Seq<char> {
        "cargo publish --verbose"@
    }

    fn validate(&self, state: &RepoState, hook: &Hook) -> (r: bool) {
        validate_rust(state) && *hook == Hook::PostCommit
    }

    fn describe(&self) -> (d: String) {
        "Rust: Publish on crates.io (default params)".to_owned()
    }

    fn command(&self, repository_path: &str) -> (c: String) {
        "cargo publish --verbose".to_owned()
    }
}

/// A script discovered in the package manifest's script table, run
/// through npm.
pub struct NodeScript {
    /// The script's name in the manifest.
    pub cmd: String,
}

impl Action for NodeScript {
    open spec fn applicable(&self, state: RepoState, hook: Hook) -> bool {
        state.node_installed && state.node_manifest
    }

    open spec fn description(&self) -> Seq<char> {
        "Node script: "@ + self.cmd@
    }

    open spec fn command_spec(&self, repository_path: Seq<char>) -> Seq<char> {
        "npm run "@ + self.cmd@
    }

    fn validate(&self, state: &RepoState, hook: &Hook) -> (r: bool) {
        validate_node(state)
    }

    fn describe(&self) -> (d: String) {
        let mut d = "Node script: ".to_owned();
        d.append(self.cmd.as_str());
        d
    }

    fn command(&self, repository_path: &str) -> (c: String) {
        let mut c = "npm run ".to_owned();
        c.append(self.cmd.as_str());
        c
    }
}

/// Predicate conjunction: a tool-, manifest- and hook-gated action applies
/// exactly when all three conditions hold, so turning any one of them
/// false makes the whole predicate false.
pub proof fn lemma_predicate_conjunction(a: CargoInstall, state: RepoState, hook: Hook)
    ensures
        a.applicable(state, hook) <==> (state.cargo_installed && state.cargo_manifest && (hook
            == Hook::PostUpdate || hook == Hook::PrePush || hook == Hook::PostCommit)),
        !state.cargo_installed ==> !a.applicable(state, hook),
        !state.cargo_manifest ==> !a.applicable(state, hook),
        !(hook == Hook::PostUpdate || hook == Hook::PrePush || hook == Hook::PostCommit)
            ==> !a.applicable(state, hook),
{
}

} // verus!
