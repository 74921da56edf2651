use cpt_hook::hooks::Hook;
use cpt_hook::script::{hook_script_path, inject, prune_hook, render_hook_script};

fn activate(content: &str, hook: &Hook) -> String {
    render_hook_script(Some(content), hook, true)
}

fn deactivate(content: &str, hook: &Hook) -> String {
    render_hook_script(Some(content), hook, false)
}

#[test]
fn activation_is_idempotent_on_terminated_script() {
    let hook = Hook::PreCommit;
    let original = "#!/bin/sh\necho hello\n";
    let once = activate(original, &hook);
    let twice = activate(once.as_str(), &hook);
    assert_eq!(once, twice);
}

#[test]
fn activation_is_idempotent_without_trailing_newline() {
    let hook = Hook::PrePush;
    let original = "echo hi";
    let once = activate(original, &hook);
    let twice = activate(once.as_str(), &hook);
    assert_eq!(once, "echo hi\ncpt-hook run --hook \"pre-push\"");
    assert_eq!(once, twice);
}

#[test]
fn activation_is_idempotent_on_empty_script() {
    let hook = Hook::PostCommit;
    let once = activate("", &hook);
    let twice = activate(once.as_str(), &hook);
    assert_eq!(once, "\ncpt-hook run --hook \"post-commit\"");
    assert_eq!(once, twice);
}

#[test]
fn deactivation_is_idempotent() {
    let hook = Hook::PreCommit;
    let original = "#!/bin/sh\ncpt-hook run --hook \"pre-commit\"\necho hello\n";
    let once = deactivate(original, &hook);
    let twice = deactivate(once.as_str(), &hook);
    assert_eq!(once, "#!/bin/sh\necho hello\n");
    assert_eq!(once, twice);
}

#[test]
fn activate_then_deactivate_restores_original_lines() {
    let hook = Hook::PostMerge;
    let original = "#!/bin/sh\n# user comment\n\necho one\necho two\n";
    let active = activate(original, &hook);
    let restored = deactivate(active.as_str(), &hook);
    assert_eq!(restored, original);
}

#[test]
fn pruning_removes_exactly_the_marker_lines() {
    let original = "first\ncpt-hook run --hook \"pre-commit\"\nsecond\nthird\n";
    assert_eq!(prune_hook(original), "first\nsecond\nthird\n");
}

#[test]
fn pruning_removes_duplicated_marker_lines() {
    let original = "a\ncpt-hook run --hook \"pre-push\"\ncpt-hook run --hook \"pre-push\"\nb\n";
    assert_eq!(prune_hook(original), "a\nb\n");
}

#[test]
fn pruning_matches_marker_regardless_of_surroundings() {
    let original = "x\n   cpt-hook run --hook 'update'   \ny\n";
    assert_eq!(prune_hook(original), "x\ny\n");
}

#[test]
fn pruning_keeps_blank_lines_and_comments() {
    let original = "#!/bin/sh\n\n# comment\n\n";
    assert_eq!(prune_hook(original), original);
}

#[test]
fn pruning_a_marker_free_script_is_a_no_op() {
    let original = "#!/bin/sh\nexit 0";
    assert_eq!(prune_hook(original), original);
}

#[test]
fn missing_script_gets_the_default_template() {
    let hook = Hook::PreCommit;
    let inactive = render_hook_script(None, &hook, false);
    assert_eq!(inactive, "#!/bin/sh\n\n");
    let active = render_hook_script(None, &hook, true);
    assert_eq!(active, "#!/bin/sh\n\n\ncpt-hook run --hook \"pre-commit\"");
}

#[test]
fn reactivation_never_duplicates_the_invocation_line() {
    let hook = Hook::CommitMsg;
    let mut content = String::from("#!/bin/sh\n");
    for _ in 0..3 {
        content = activate(content.as_str(), &hook);
    }
    let occurrences = content.matches("cpt-hook run").count();
    assert_eq!(occurrences, 1);
}

#[test]
fn inject_appends_the_quoted_invocation_line() {
    let mut content = String::from("#!/bin/sh\n");
    inject(&mut content, "pre-rebase");
    assert_eq!(content, "#!/bin/sh\n\ncpt-hook run --hook \"pre-rebase\"");
}

#[test]
fn script_path_is_under_the_git_hooks_directory() {
    let path = hook_script_path("/work/repo", &Hook::PrePush);
    assert_eq!(path, "/work/repo/.git/hooks/pre-push");
}
