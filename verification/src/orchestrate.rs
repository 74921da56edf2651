//! The orchestrator's decision logic. The interactive prompts and the
//! running of child processes stay with the calling program; the functions
//! here decide, with exact contracts, which hooks get which activation
//! state, which registry entries apply, which commands the chosen actions
//! run, and how the results aggregate into a process exit status.

use vstd::prelude::*;

use crate::actions::{Action, CargoFmt, CargoInstall, CargoPublish, CargoTest, NodeScript, RepoState};
use crate::hooks::Hook;

verus! {

/// One entry of the process-wide action registry. New action kinds are
/// added here and reach the orchestrator through the [`Action`] trait
/// alone.
pub enum RegistryAction {
    /// Check formatting.
    Fmt(CargoFmt),
    /// Run the test suite.
    Test(CargoTest),
    /// Install locally after selected hooks.
    Install(CargoInstall),
    /// Publish to the registry after a commit.
    Publish(CargoPublish),
    /// A script discovered in the package manifest.
    Script(NodeScript),
}

impl Action for RegistryAction {
    open spec fn applicable(&self, state: RepoState, hook: Hook) -> bool {
        match self {
            RegistryAction::Fmt(a) => a.applicable(state, hook),
            RegistryAction::Test(a) => a.applicable(state, hook),
            RegistryAction::Install(a) => a.applicable(state, hook),
            RegistryAction::Publish(a) => a.applicable(state, hook),
            RegistryAction::Script(a) => a.applicable(state, hook),
        }
    }

    open spec fn description(&self) -> Seq<char> {
        match self {
            RegistryAction::Fmt(a) => a.description(),
            RegistryAction::Test(a) => a.description(),
            RegistryAction::Install(a) => a.description(),
            RegistryAction::Publish(a) => a.description(),
            RegistryAction::Script(a) => a.description(),
        }
    }

    open spec fn command_spec(&self, repository_path: Seq<char>) -> Seq<char> {
        match self {
            RegistryAction::Fmt(a) => a.command_spec(repository_path),
            RegistryAction::Test(a) => a.command_spec(repository_path),
            RegistryAction::Install(a) => a.command_spec(repository_path),
            RegistryAction::Publish(a) => a.command_spec(repository_path),
            RegistryAction::Script(a) => a.command_spec(repository_path),
        }
    }

    fn validate(&self, state: &RepoState, hook: &Hook) -> (r: bool) {
        match self {
            RegistryAction::Fmt(a) => a.validate(state, hook),
            RegistryAction::Test(a) => a.validate(state, hook),
            RegistryAction::Install(a) => a.validate(state, hook),
            RegistryAction::Publish(a) => a.validate(state, hook),
            RegistryAction::Script(a) => a.validate(state, hook),
        }
    }

    fn describe(&self) -> (d: String) {
        match self {
            RegistryAction::Fmt(a) => a.describe(),
            RegistryAction::Test(a) => a.describe(),
            RegistryAction::Install(a) => a.describe(),
            RegistryAction::Publish(a) => a.describe(),
            RegistryAction::Script(a) => a.describe(),
        }
    }

    fn command(&self, repository_path: &str) -> (c: String) {
        match self {
            RegistryAction::Fmt(a) => a.command(repository_path),
            RegistryAction::Test(a) => a.command(repository_path),
            RegistryAction::Install(a) => a.command(repository_path),
            RegistryAction::Publish(a) => a.command(repository_path),
            RegistryAction::Script(a) => a.command(repository_path),
        }
    }
}

/// The fixed registry, in menu order.
pub open spec fn registry_spec() -> Seq<RegistryAction> {
    seq![
        RegistryAction::Fmt(CargoFmt {  }),
        RegistryAction::Test(CargoTest {  }),
        RegistryAction::Install(CargoInstall {  }),
        RegistryAction::Publish(CargoPublish {  }),
    ]
}

/// Builds the registry once at the start of the run path: an immutable,
/// ordered collection, local to the invocation.
pub fn build_registry() -> (r: Vec<RegistryAction>)
    ensures
        r@ == registry_spec(),
{
    let mut r: Vec<RegistryAction> = Vec::new();
    r.push(RegistryAction::Fmt(CargoFmt {}));
    r.push(RegistryAction::Test(CargoTest {}));
    r.push(RegistryAction::Install(CargoInstall {}));
    r.push(RegistryAction::Publish(CargoPublish {}));
    proof {
        assert(r@ =~= registry_spec());
    }
    r
}

/// The positions, in order, of the actions applicable to the given state
/// and hook: every listed action validates true, every action that
/// validates true is listed, and the positions are strictly increasing.
pub fn filter_applicable<A: Action>(actions: &Vec<A>, state: &RepoState, hook: &Hook) -> (idx: Vec<
    usize,
>)
    ensures
        forall|k: int|
            0 <= k < idx@.len() ==> #[trigger] idx@[k] < actions@.len() && actions@[idx@[k] as int].applicable(
                *state,
                *hook,
            ),
        forall|k: int| 0 <= k < idx@.len() - 1 ==> #[trigger] idx@[k] < idx@[k + 1],
        forall|i: int|
            0 <= i < actions@.len() && (#[trigger] actions@[i]).applicable(*state, *hook)
                ==> idx@.contains(i as usize),
{
    broadcast use vstd::seq_lib::lemma_seq_contains_after_push;

    let n = actions.len();
    let mut idx: Vec<usize> = Vec::new();
    let mut i: usize = 0;
    while i < n
        invariant
            n == actions.len(),
            i <= n,
            forall|k: int|
                0 <= k < idx@.len() ==> #[trigger] idx@[k] < i && actions@[idx@[k] as int].applicable(
                    *state,
                    *hook,
                ),
            forall|k: int| 0 <= k < idx@.len() - 1 ==> #[trigger] idx@[k] < idx@[k + 1],
            forall|j: int|
                0 <= j < i && (#[trigger] actions@[j]).applicable(*state, *hook) ==> idx@.contains(
                    j as usize,
                ),
        decreases n - i,
    {
        let ghost prior = idx@;
        if actions[i].validate(state, hook) {
            idx.push(i);
        }
        proof {
            assert forall|j: int|
                0 <= j < i + 1 && (#[trigger] actions@[j]).applicable(*state, *hook)
                    implies idx@.contains(j as usize) by {
                if j < i {
                    let w = choose|w: int| 0 <= w < prior.len() && prior[w] == j as usize;
                    assert(idx@[w] == j as usize);
                } else {
                    assert(idx@[prior.len() as int] == i);
                }
            }
        }
        i = i + 1;
    }
    idx
}

/// When no action is applicable, the filtered registry is empty.
pub proof fn lemma_none_applicable_empty<A: Action>(
    actions: Seq<A>,
    state: RepoState,
    hook: Hook,
    idx: Seq<usize>,
)
    requires
        forall|i: int| 0 <= i < actions.len() ==> !(#[trigger] actions[i]).applicable(state, hook),
        forall|k: int|
            0 <= k < idx.len() ==> #[trigger] idx[k] < actions.len() && actions[idx[k] as int].applicable(
                state,
                hook,
            ),
    ensures
        idx.len() == 0,
{
    if idx.len() > 0 {
        assert(actions[idx[0] as int].applicable(state, hook));
        assert(!actions[idx[0] as int].applicable(state, hook));
    }
}

/// The commands of the chosen actions, one per selected position and in
/// selection order; nothing when a position lies outside the registry.
pub fn commands_for_selection<A: Action>(
    actions: &Vec<A>,
    selection: &Vec<usize>,
    repository_path: &str,
) -> (r: Option<Vec<String>>)
    ensures
        match r {
            Some(cmds) => {
                &&& cmds@.len() == selection@.len()
                &&& forall|k: int|
                    0 <= k < selection@.len() ==> #[trigger] selection@[k] < actions@.len() && cmds@[
                        k
                    ]@ == actions@[selection@[k] as int].command_spec(repository_path@)
            },
            None => exists|k: int|
                0 <= k < selection@.len() && #[trigger] selection@[k] >= actions@.len(),
        },
{
    let n = selection.len();
    let mut cmds: Vec<String> = Vec::new();
    let mut k: usize = 0;
    while k < n
        invariant
            n == selection.len(),
            k <= n,
            cmds@.len() == k,
            forall|t: int|
                0 <= t < k ==> #[trigger] selection@[t] < actions@.len() && cmds@[t]@ == actions@[
                    selection@[t] as int
                ].command_spec(repository_path@),
        decreases n - k,
    {
        let pos = selection[k];
        if pos >= actions.len() {
            return None;
        }
        cmds.push(actions[pos].command(repository_path));
        k = k + 1;
    }
    Some(cmds)
}

/// Pairs every hook of the enumerated set with its new activation state:
/// membership in the selection. Hooks outside the selection are paired
/// with false, so a previously active hook is explicitly deactivated.
pub fn plan_hook_states(hooks: &Vec<Hook>, selected: &Vec<usize>) -> (plan: Vec<(Hook, bool)>)
    ensures
        plan@.len() == hooks@.len(),
        forall|i: int|
            0 <= i < hooks@.len() ==> (#[trigger] plan@[i]).0 == hooks@[i] && plan@[i].1
                == selected@.contains(i as usize),
{
    let n = hooks.len();
    let mut plan: Vec<(Hook, bool)> = Vec::new();
    let mut i: usize = 0;
    while i < n
        invariant
            n == hooks.len(),
            i <= n,
            plan@.len() == i,
            forall|t: int|
                0 <= t < i ==> (#[trigger] plan@[t]).0 == hooks@[t] && plan@[t].1
                    == selected@.contains(t as usize),
        decreases n - i,
    {
        let active = contains_index(selected, i);
        plan.push((hooks[i], active));
        i = i + 1;
    }
    plan
}

/// Is `x` among the values of `v`?
fn contains_index(v: &Vec<usize>, x: usize) -> (b: bool)
    ensures
        b == v@.contains(x),
{
    let n = v.len();
    let mut i: usize = 0;
    while i < n
        invariant
            n == v.len(),
            i <= n,
            forall|t: int| 0 <= t < i ==> v@[t] != x,
        decreases n - i,
    {
        if v[i] == x {
            return true;
        }
        i = i + 1;
    }
    false
}

/// The terminal outcome of the run command.
#[derive(Clone, Copy, PartialEq, Eq, Structural, Debug)]
pub enum RunOutcome {
    /// The incoming hook name did not parse; fatal before any action.
    UnknownHook,
    /// No registered action validates true: nothing to do, not an error.
    NoApplicableActions,
    /// Every chosen action was attempted; true when at least one failed.
    Completed { any_failed: bool },
}

/// Aggregate failure: the run succeeds exactly when every attempted
/// action succeeded. The results of all chosen actions are aggregated
/// after every one of them has run; nothing short-circuits.
pub fn aggregate_outcomes(results: &Vec<bool>) -> (ok: bool)
    ensures
        ok == forall|i: int| 0 <= i < results@.len() ==> results@[i],
{
    let n = results.len();
    let mut i: usize = 0;
    let mut ok = true;
    while i < n
        invariant
            n == results.len(),
            i <= n,
            ok == forall|t: int| 0 <= t < i ==> results@[t],
        decreases n - i,
    {
        let here = results[i];
        proof {
            if !here {
                assert(!results@[i as int]);
            }
        }
        ok = ok && here;
        i = i + 1;
    }
    ok
}

/// The process exit status for an outcome: zero for success — absence of
/// applicable actions included — and one for an unknown hook or for at
/// least one failed action.
pub fn exit_code(outcome: &RunOutcome) -> (c: i32)
    ensures
        c == match outcome {
            RunOutcome::UnknownHook => 1int,
            RunOutcome::NoApplicableActions => 0int,
            RunOutcome::Completed { any_failed } => if *any_failed {
                1int
            } else {
                0int
            },
        },
{
    match outcome {
        RunOutcome::UnknownHook => 1,
        RunOutcome::NoApplicableActions => 0,
        RunOutcome::Completed { any_failed } => if *any_failed {
            1
        } else {
            0
        },
    }
}

} // verus!
