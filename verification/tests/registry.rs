use cpt_hook::actions::{
    get_package_manager, validate_node, validate_rust, Action, CargoFmt, CargoInstall,
    CargoPublish, CargoTest, NodeScript, RepoState,
};
use cpt_hook::hooks::Hook;
use cpt_hook::manifest::get_node_scripts;
use cpt_hook::orchestrate::{
    aggregate_outcomes, build_registry, commands_for_selection, exit_code, filter_applicable,
    plan_hook_states, RunOutcome,
};

fn state(cargo: bool, cargo_toml: bool, node: bool, package_json: bool) -> RepoState {
    RepoState {
        cargo_installed: cargo,
        cargo_manifest: cargo_toml,
        node_installed: node,
        node_manifest: package_json,
        yarn_installed: false,
    }
}

#[test]
fn predicate_needs_tool_and_manifest_and_hook() {
    let action = CargoInstall {};
    let good = state(true, true, false, false);
    assert!(action.validate(&good, &Hook::PrePush));
    assert!(!action.validate(&state(false, true, false, false), &Hook::PrePush));
    assert!(!action.validate(&state(true, false, false, false), &Hook::PrePush));
    assert!(!action.validate(&good, &Hook::PreCommit));
}

#[test]
fn install_hook_allow_list_is_exact() {
    let action = CargoInstall {};
    let good = state(true, true, false, false);
    for hook in Hook::all() {
        let expected = matches!(hook, Hook::PostUpdate | Hook::PrePush | Hook::PostCommit);
        assert_eq!(action.validate(&good, &hook), expected);
    }
}

#[test]
fn scenario_pre_push_scoped_actions() {
    let good = state(true, true, false, false);
    let hook = Hook::from("pre-push").unwrap();
    assert!(CargoInstall {}.validate(&good, &hook));
    assert!(!CargoPublish {}.validate(&good, &hook));
}

#[test]
fn fmt_and_test_ignore_the_hook() {
    let good = state(true, true, false, false);
    for hook in Hook::all() {
        assert!(CargoFmt {}.validate(&good, &hook));
        assert!(CargoTest {}.validate(&good, &hook));
    }
    assert!(!CargoFmt {}.validate(&state(true, false, false, false), &Hook::PreCommit));
}

#[test]
fn node_script_validates_on_node_state() {
    let action = NodeScript { cmd: String::from("build") };
    assert!(action.validate(&state(false, false, true, true), &Hook::PreCommit));
    assert!(!action.validate(&state(false, false, true, false), &Hook::PreCommit));
    assert!(!action.validate(&state(false, false, false, true), &Hook::PreCommit));
    assert_eq!(action.command("/repo"), "npm run build");
    assert_eq!(action.describe(), "Node script: build");
}

#[test]
fn validators_are_conjunctions() {
    assert!(validate_rust(&state(true, true, false, false)));
    assert!(!validate_rust(&state(true, false, false, false)));
    assert!(!validate_rust(&state(false, true, false, false)));
    assert!(validate_node(&state(false, false, true, true)));
    assert!(!validate_node(&state(false, false, false, true)));
}

#[test]
fn package_manager_prefers_yarn() {
    assert_eq!(get_package_manager(true), "yarn");
    assert_eq!(get_package_manager(false), "npm");
}

#[test]
fn registry_holds_the_fixed_actions_in_order() {
    let registry = build_registry();
    assert_eq!(registry.len(), 4);
    let descriptions: Vec<String> = registry.iter().map(|a| a.describe()).collect();
    assert_eq!(
        descriptions,
        vec![
            String::from("Rust: Check formatting with cargo fmt"),
            String::from("Rust: Run tests"),
            String::from("Rust: Install to local machine (default params)"),
            String::from("Rust: Publish on crates.io (default params)"),
        ]
    );
}

#[test]
fn filter_keeps_applicable_actions_in_registry_order() {
    let registry = build_registry();
    let good = state(true, true, false, false);
    let on_post_commit = filter_applicable(&registry, &good, &Hook::PostCommit);
    assert_eq!(on_post_commit, vec![0, 1, 2, 3]);
    let on_pre_commit = filter_applicable(&registry, &good, &Hook::PreCommit);
    assert_eq!(on_pre_commit, vec![0, 1]);
}

#[test]
fn empty_selection_short_circuit() {
    let registry = build_registry();
    let bare = state(false, false, false, false);
    let applicable = filter_applicable(&registry, &bare, &Hook::PrePush);
    assert!(applicable.is_empty());
    assert_eq!(exit_code(&RunOutcome::NoApplicableActions), 0);
}

#[test]
fn aggregate_failure_runs_everything_and_fails() {
    let registry = build_registry();
    let selection = vec![0usize, 1, 2];
    let cmds = commands_for_selection(&registry, &selection, "/repo").unwrap();
    assert_eq!(
        cmds,
        vec![
            String::from("cargo fmt -- --check"),
            String::from("cargo test"),
            String::from("cargo install --path /repo"),
        ]
    );
    let results = vec![true, false, true];
    assert!(!aggregate_outcomes(&results));
    assert_eq!(exit_code(&RunOutcome::Completed { any_failed: true }), 1);
    assert_eq!(exit_code(&RunOutcome::Completed { any_failed: false }), 0);
}

#[test]
fn selection_out_of_range_is_rejected() {
    let registry = build_registry();
    let selection = vec![0usize, 9];
    assert!(commands_for_selection(&registry, &selection, "/repo").is_none());
}

#[test]
fn aggregate_of_no_results_is_success() {
    assert!(aggregate_outcomes(&Vec::new()));
}

#[test]
fn unknown_hook_is_a_failure_exit() {
    assert_eq!(exit_code(&RunOutcome::UnknownHook), 1);
}

#[test]
fn init_plan_covers_every_hook() {
    let hooks = Hook::simple();
    let selected = vec![0usize, 3];
    let plan = plan_hook_states(&hooks, &selected);
    assert_eq!(plan.len(), hooks.len());
    for (i, (hook, active)) in plan.iter().enumerate() {
        assert_eq!(*hook, hooks[i]);
        assert_eq!(*active, i == 0 || i == 3);
    }
}

#[test]
fn node_scripts_come_from_the_manifest_script_table() {
    let manifest = "{\"name\":\"demo\",\"scripts\":{\"build\":\"tsc\",\"buildbefore\":\"echo b\",\"test\":\"jest\",\"testafter\":\"echo a\"}}";
    let scripts = get_node_scripts(Some(manifest));
    let names: Vec<String> = scripts.iter().map(|s| s.cmd.clone()).collect();
    assert_eq!(names, vec![String::from("build"), String::from("test")]);
}

#[test]
fn node_scripts_of_a_broken_or_missing_manifest_are_empty() {
    assert!(get_node_scripts(None).is_empty());
    assert!(get_node_scripts(Some("not json")).is_empty());
    assert!(get_node_scripts(Some("{\"name\":\"demo\"}")).is_empty());
    assert!(get_node_scripts(Some("{\"scripts\":[1,2]}")).is_empty());
}
