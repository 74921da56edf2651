use cpt_hook::hooks::{Hook, ParseError};

#[test]
fn all_hooks_round_trip_through_parse() {
    let hooks = Hook::all();
    assert_eq!(hooks.len(), 29);
    for hook in &hooks {
        let name = hook.name();
        let parsed = Hook::from(name.as_str()).expect("canonical name must parse");
        assert_eq!(parsed, *hook);
    }
}

#[test]
fn canonical_names_are_pairwise_distinct() {
    let hooks = Hook::all();
    for (i, a) in hooks.iter().enumerate() {
        for (j, b) in hooks.iter().enumerate() {
            if i != j {
                assert_ne!(a.name(), b.name());
            }
        }
    }
}

#[test]
fn parse_known_names() {
    assert_eq!(Hook::from("pre-commit").unwrap(), Hook::PreCommit);
    assert_eq!(Hook::from("pre-push").unwrap(), Hook::PrePush);
    assert_eq!(Hook::from("post-update").unwrap(), Hook::PostUpdate);
    assert_eq!(Hook::from("p4-prepare-changelist").unwrap(), Hook::P4PrepareChangelist);
}

#[test]
fn parse_unknown_name_fails_with_input() {
    let r = Hook::from("not-a-hook");
    match r {
        Ok(_) => panic!("an unknown name must not parse"),
        Err(ParseError::UnknownHookName { input }) => assert_eq!(input, "not-a-hook"),
    }
}

#[test]
fn parse_is_case_and_whitespace_exact() {
    assert!(Hook::from("Pre-Commit").is_err());
    assert!(Hook::from("pre-commit ").is_err());
    assert!(Hook::from("").is_err());
}

#[test]
fn simple_subset_is_part_of_all() {
    let all: Vec<String> = Hook::all().iter().map(|h| h.name()).collect();
    let simple = Hook::simple();
    assert_eq!(simple.len(), 8);
    for hook in &simple {
        assert!(all.contains(&hook.name()));
    }
}

#[test]
fn render_gives_canonical_names() {
    assert_eq!(Hook::ApplyPatchMsg.name(), "applypatch-msg");
    assert_eq!(Hook::FsMonitorWatchmanV2.name(), "fsmonitor-watchmanv2");
    assert_eq!(Hook::Update.name(), "update");
}
