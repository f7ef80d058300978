use tree_hoprs::config::Config;
use tree_hoprs::config::RepoConfig;
use tree_hoprs::lifecycle::Action;
use tree_hoprs::lifecycle::ArchiveOutcome;
use tree_hoprs::lifecycle::branch_step;
use tree_hoprs::lifecycle::archive_decision;
use tree_hoprs::lifecycle::finish_create;
use tree_hoprs::lifecycle::list_cmd;
use tree_hoprs::lifecycle::pull_cmd;
use tree_hoprs::lifecycle::select_slot;
use tree_hoprs::lifecycle::update_step;
use tree_hoprs::lifecycle::worktree_step;

fn repo_values(inactive: Vec<&str>) -> RepoConfig {
    RepoConfig {
        base_tree: String::from("main"),
        base_path: String::from("/repo"),
        inactive_trees: inactive.into_iter().map(String::from).collect(),
    }
}

fn store_with(values: &RepoConfig) -> Config {
    Config {
        repos: vec![(String::from("repo"), values.clone())],
        active_repo: String::from("repo"),
    }
}

#[test]
fn create_fresh_slot_scenario() {
    // One existing directory entry ("main") under the base path.
    let mut values = repo_values(vec![]);
    let (path, reuse) = select_slot(&values, 1);
    assert_eq!(path, "/repo/tree1");
    assert!(!reuse);
    let branch = String::from("feature-x");
    match worktree_step(&values, &branch, &path, false, false) {
        Action::Run(c) => {
            assert_eq!(c.cwd, "/repo/main");
            assert_eq!(c.args, vec!["worktree", "add", "/repo/tree1", "feature-x"]);
        }
        Action::Report(_) => panic!("expected the command to run"),
    }
    let persist = finish_create(&mut values, reuse, false);
    assert!(!persist);
    assert!(values.inactive_trees.is_empty());
}

#[test]
fn create_reuses_archived_slot_scenario() {
    let mut values = repo_values(vec!["/repo/tree2"]);
    let (path, reuse) = select_slot(&values, 3);
    assert_eq!(path, "/repo/tree2");
    assert!(reuse);
    let branch = String::from("feature-y");
    // The slot is still a non-empty directory on disk: switch, not add.
    match worktree_step(&values, &branch, &path, true, false) {
        Action::Run(c) => {
            assert_eq!(c.cwd, "/repo/tree2");
            assert_eq!(c.args, vec!["switch", "feature-y"]);
        }
        Action::Report(_) => panic!("expected the command to run"),
    }
    let persist = finish_create(&mut values, reuse, false);
    assert!(persist);
    assert!(values.inactive_trees.is_empty());
}

#[test]
fn create_reuse_pops_oldest_only() {
    let mut values = repo_values(vec!["/repo/tree2", "/repo/tree4", "/repo/tree5"]);
    let (path, reuse) = select_slot(&values, 9);
    assert_eq!(path, "/repo/tree2");
    assert!(reuse);
    let persist = finish_create(&mut values, reuse, false);
    assert!(persist);
    assert_eq!(values.inactive_trees, vec!["/repo/tree4", "/repo/tree5"]);
}

#[test]
fn create_dry_run_changes_nothing() {
    let mut values = repo_values(vec!["/repo/tree2"]);
    let branch = String::from("feature-y");
    match branch_step(&values, &branch, true) {
        Action::Report(c) => {
            assert_eq!(c.cwd, "/repo/main");
            assert_eq!(c.args, vec!["branch", "feature-y"]);
        }
        Action::Run(_) => panic!("dry run must not run the branch command"),
    }
    let (path, reuse) = select_slot(&values, 3);
    match worktree_step(&values, &branch, &path, true, true) {
        Action::Report(_) => {}
        Action::Run(_) => panic!("dry run must not run the worktree command"),
    }
    let persist = finish_create(&mut values, reuse, true);
    assert!(!persist);
    assert_eq!(values.inactive_trees, vec!["/repo/tree2"]);
}

#[test]
fn archive_then_archive_again() {
    let values = repo_values(vec![]);
    let stored = store_with(&values);
    let listing = String::from("/repo/main abc000 [main]\n/repo/tree3 abc123 [feature-z]\n");
    let branch = String::from("feature-z");
    let updated = match archive_decision(&values, stored, &listing, &branch, false) {
        Ok(ArchiveOutcome::Archived { path, updated }) => {
            assert_eq!(path, "/repo/tree3");
            assert_eq!(updated.repos.len(), 1);
            assert_eq!(updated.repos[0].1.inactive_trees, vec!["/repo/tree3"]);
            updated
        }
        _ => panic!("expected the worktree to be archived"),
    };
    match archive_decision(&values, updated, &listing, &branch, false) {
        Ok(ArchiveOutcome::AlreadyInactive { path }) => {
            assert_eq!(path, "/repo/tree3");
        }
        _ => panic!("expected the second archival to be a no-op"),
    }
}

#[test]
fn archive_unknown_branch_is_a_noop() {
    let values = repo_values(vec![]);
    let stored = store_with(&values);
    let listing = String::from("/repo/main abc000 [main]\n");
    let branch = String::from("nonexistent-branch");
    match archive_decision(&values, stored, &listing, &branch, false) {
        Ok(ArchiveOutcome::NotFound) => {}
        _ => panic!("expected a successful not-found no-op"),
    }
}

#[test]
fn archive_dry_run_persists_nothing() {
    let values = repo_values(vec![]);
    let stored = store_with(&values);
    let listing = String::from("/repo/tree3 abc123 [feature-z]\n");
    let branch = String::from("feature-z");
    match archive_decision(&values, stored, &listing, &branch, true) {
        Ok(ArchiveOutcome::WouldArchive { path }) => {
            assert_eq!(path, "/repo/tree3");
        }
        _ => panic!("expected a dry-run report"),
    }
}

#[test]
fn archive_matches_by_line_text() {
    // The first line whose text contains the branch name wins, and its
    // first field is the path.
    let values = repo_values(vec![]);
    let stored = store_with(&values);
    let listing = String::from("/repo/main abc000 [main]\n/repo/tree7 abc1 [feat]\n");
    let branch = String::from("feat");
    match archive_decision(&values, stored, &listing, &branch, false) {
        Ok(ArchiveOutcome::Archived { path, .. }) => {
            assert_eq!(path, "/repo/tree7");
        }
        _ => panic!("expected the worktree to be archived"),
    }
}

#[test]
fn archive_without_active_repo_is_an_error() {
    let values = repo_values(vec![]);
    let stored = Config {
        repos: vec![],
        active_repo: String::from("repo"),
    };
    let listing = String::from("/repo/tree3 abc123 [feature-z]\n");
    let branch = String::from("feature-z");
    let e = archive_decision(&values, stored, &listing, &branch, false).unwrap_err();
    assert_eq!(e, tree_hoprs::OpError::RepoNotFound);
}

#[test]
fn archive_rejects_fieldless_matched_line() {
    // An empty branch name matches the listing's first line; a line of
    // bare whitespace has no fields to take a path from.
    let values = repo_values(vec![]);
    let stored = store_with(&values);
    let listing = String::from("   \n/repo/tree3 abc123 [feature-z]\n");
    let branch = String::new();
    let e = archive_decision(&values, stored, &listing, &branch, false).unwrap_err();
    assert_eq!(e, tree_hoprs::OpError::MalformedListing);
}

#[test]
fn update_and_pull_commands() {
    let values = repo_values(vec![]);
    let c = pull_cmd(&values);
    assert_eq!(c.cwd, "/repo/main");
    assert_eq!(c.args, vec!["pull"]);
    match update_step(&values, false) {
        Action::Run(c) => {
            assert_eq!(c.cwd, "/repo/main");
            assert_eq!(c.args, vec!["pull"]);
        }
        Action::Report(_) => panic!("expected the pull to run"),
    }
    match update_step(&values, true) {
        Action::Report(_) => {}
        Action::Run(_) => panic!("dry run must not run the pull"),
    }
    let l = list_cmd(&values);
    assert_eq!(l.cwd, "/repo/main");
    assert_eq!(l.args, vec!["worktree", "list"]);
}
