use tmpl8::errors::Error;
use tmpl8::sync::{
    command_description, finish_refresh, needs_refresh, plan_sync, ForkSpec, GitCommand, SyncStep,
};

fn fork(regex: &str, replacement: &str, branch: &str) -> ForkSpec {
    ForkSpec {
        regex: regex.to_string(),
        replacement: replacement.to_string(),
        branch: branch.to_string(),
    }
}

fn argv(cmd: &GitCommand) -> Vec<String> {
    cmd.argv()
}

#[test]
fn fresh_stamp_skips_sync() {
    // identity matches, age 3599 s, not forced: no synchronization
    let stamp = Some("DEFAULT".to_string());
    assert!(!needs_refresh(&stamp, 3599, &"DEFAULT".to_string(), false));
}

#[test]
fn stale_stamp_syncs() {
    // identity matches but age 3601 s: synchronize
    let stamp = Some("DEFAULT".to_string());
    assert!(needs_refresh(&stamp, 3601, &"DEFAULT".to_string(), false));
}

#[test]
fn window_upper_bound_is_exclusive() {
    let stamp = Some("DEFAULT".to_string());
    assert!(needs_refresh(&stamp, 3600, &"DEFAULT".to_string(), false));
}

#[test]
fn force_overrides_freshness() {
    let stamp = Some("DEFAULT".to_string());
    assert!(needs_refresh(&stamp, 10, &"DEFAULT".to_string(), true));
}

#[test]
fn negative_age_syncs() {
    let stamp = Some("DEFAULT".to_string());
    assert!(needs_refresh(&stamp, -1, &"DEFAULT".to_string(), false));
}

#[test]
fn identity_change_syncs() {
    let stamp = Some("DEFAULT".to_string());
    assert!(needs_refresh(&stamp, 10, &"https://x f\n".to_string(), false));
}

#[test]
fn missing_stamp_syncs() {
    assert!(needs_refresh(&None, 0, &"DEFAULT".to_string(), false));
}

#[test]
fn plan_without_fork_uses_sentinel_identity() {
    let url = "https://github.com/up/x".to_string();
    let plan = plan_sync(&url, true, &"c/x".to_string(), &None, 9999, &None, false).unwrap();
    assert!(plan.setup.is_empty());
    match plan.step {
        SyncStep::Refresh { fork, ident } => {
            assert!(fork.is_none());
            assert_eq!(ident, "DEFAULT");
        },
        SyncStep::Skip => panic!("expected a refresh"),
    }
}

#[test]
fn plan_clones_missing_mirror() {
    let url = "https://example.com/up/x".to_string();
    let stamp = Some("DEFAULT".to_string());
    let plan = plan_sync(&url, false, &"cache/x".to_string(), &stamp, 0, &None, false).unwrap();
    assert_eq!(plan.setup.len(), 2);
    assert_eq!(
        argv(&plan.setup[0]),
        vec!["clone", "--depth=1", "https://example.com/up/x", "cache/x"]
    );
    assert_eq!(argv(&plan.setup[1]), vec!["branch", "-m", "DEFAULT"]);
}

#[test]
fn plan_with_fork_rewrites_the_url() {
    let url = "https://github.com/upstream/x".to_string();
    let f = fork("upstream", "fork", "feature");
    let plan = plan_sync(&url, true, &"c/x".to_string(), &None, 0, &Some(f), false).unwrap();
    match plan.step {
        SyncStep::Refresh { fork: Some(remote), ident } => {
            assert_eq!(remote.url, "https://github.com/fork/x");
            assert_eq!(remote.branch, "feature");
            assert_eq!(ident, "https://github.com/fork/x feature\n");
        },
        other => panic!("expected a fork refresh, got {:?}", other),
    }
}

#[test]
fn fork_identity_freshness_is_checked_against_the_fork() {
    let url = "https://github.com/upstream/x".to_string();
    let f = fork("upstream", "fork", "feature");
    let stamp = Some("https://github.com/fork/x feature\n".to_string());
    let plan = plan_sync(&url, true, &"c/x".to_string(), &stamp, 100, &Some(f), false).unwrap();
    assert!(matches!(plan.step, SyncStep::Skip));
}

#[test]
fn invalid_fork_pattern_is_refused() {
    let url = "https://github.com/upstream/x".to_string();
    let f = fork("(unclosed", "fork", "feature");
    let err = plan_sync(&url, true, &"c/x".to_string(), &None, 0, &Some(f), false).unwrap_err();
    assert_eq!(err, Error::BadPattern("(unclosed".to_string()));
}

#[test]
fn fetched_fork_detaches_and_stamps_fork_identity() {
    let ident = "https://github.com/fork/x feature\n".to_string();
    let out = finish_refresh(&ident, true);
    assert_eq!(out.commands.len(), 1);
    assert_eq!(
        argv(&out.commands[0]),
        vec!["-c", "advice.detachedHead=false", "checkout", "FETCH_HEAD"]
    );
    assert_eq!(out.stamp, ident);
}

#[test]
fn failed_fork_fetch_falls_back_to_the_sentinel() {
    // the fetch exited nonzero: check out the default branch, pull it, and
    // persist the sentinel identity, not the fork identity
    let ident = "https://github.com/fork/x feature\n".to_string();
    let out = finish_refresh(&ident, false);
    assert_eq!(out.commands.len(), 2);
    assert_eq!(argv(&out.commands[0]), vec!["checkout", "DEFAULT"]);
    assert_eq!(argv(&out.commands[1]), vec!["pull"]);
    assert_eq!(out.stamp, "DEFAULT");
}

#[test]
fn fetch_command_arguments_are_exact() {
    let cmd = GitCommand::Fetch { url: "https://f/x".to_string(), branch: "b".to_string() };
    assert_eq!(argv(&cmd), vec!["fetch", "--depth", "1", "https://f/x", "b"]);
}

#[test]
fn command_description_joins_program_and_arguments() {
    let args = vec!["clone".to_string(), "--depth=1".to_string(), "u".to_string()];
    assert_eq!(command_description("git", &args), "git clone --depth=1 u");
}

#[test]
fn command_description_of_no_arguments_keeps_the_space() {
    let args: Vec<String> = vec![];
    assert_eq!(command_description("git", &args), "git ");
}
