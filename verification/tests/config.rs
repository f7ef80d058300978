use tree_hoprs::OpError;
use tree_hoprs::config::Config;
use tree_hoprs::config::RepoConfig;

fn sample_values() -> RepoConfig {
    RepoConfig {
        base_tree: String::from("main"),
        base_path: String::from("/repo"),
        inactive_trees: vec![String::from("/repo/tree2")],
    }
}

#[test]
fn initial_config_tracks_one_repo() {
    let c = Config::initial(String::from("repo"), sample_values());
    assert_eq!(c.active_repo, "repo");
    let name = String::from("repo");
    let rc = c.get_repo(&name).unwrap();
    assert_eq!(rc.base_tree, "main");
    assert_eq!(rc.base_path, "/repo");
    assert_eq!(rc.inactive_trees, vec!["/repo/tree2"]);
}

#[test]
fn add_repo_rejects_duplicates() {
    let mut c = Config::initial(String::from("repo"), sample_values());
    let name = String::from("repo");
    let e = c
        .add_repo(&name, String::from("dev"), String::from("/elsewhere"))
        .unwrap_err();
    assert_eq!(e, OpError::RepoExists);
    assert_eq!(e.message(), "Repository already exists");
    // The existing entry is untouched.
    assert_eq!(c.get_repo(&name).unwrap().base_tree, "main");
}

#[test]
fn add_repo_starts_with_no_archived_slots() {
    let mut c = Config::initial(String::from("repo"), sample_values());
    let name = String::from("other");
    c.add_repo(&name, String::from("dev"), String::from("/elsewhere"))
        .unwrap();
    let rc = c.get_repo(&name).unwrap();
    assert_eq!(rc.base_tree, "dev");
    assert_eq!(rc.base_path, "/elsewhere");
    assert!(rc.inactive_trees.is_empty());
}

#[test]
fn delete_repo_requires_existing_name() {
    let mut c = Config::initial(String::from("repo"), sample_values());
    let missing = String::from("missing");
    let e = c.delete_repo(&missing).unwrap_err();
    assert_eq!(e, OpError::RepoNotFound);
    assert_eq!(e.message(), "Repository not found");
    let name = String::from("repo");
    c.delete_repo(&name).unwrap();
    assert!(c.get_repo(&name).is_none());
}

#[test]
fn insert_repo_replaces_in_place() {
    let mut c = Config::initial(String::from("repo"), sample_values());
    let name = String::from("repo");
    let replacement = RepoConfig {
        base_tree: String::from("dev"),
        base_path: String::from("/repo"),
        inactive_trees: Vec::new(),
    };
    c.insert_repo(&name, replacement);
    assert_eq!(c.repos.len(), 1);
    assert_eq!(c.get_repo(&name).unwrap().base_tree, "dev");
}

#[test]
fn set_active_repo_and_resolve() {
    let mut c = Config::initial(String::from("repo"), sample_values());
    let other = String::from("other");
    c.add_repo(&other, String::from("dev"), String::from("/elsewhere"))
        .unwrap();
    c.set_active_repo(String::from("other"));
    assert_eq!(c.active_repo, "other");
    let rc = c.resolve(None).unwrap();
    assert_eq!(rc.base_tree, "dev");
    let name = String::from("repo");
    let rc = c.resolve(Some(&name)).unwrap();
    assert_eq!(rc.base_tree, "main");
    let missing = String::from("missing");
    assert!(c.resolve(Some(&missing)).is_none());
}

#[test]
fn repo_names_lists_entries() {
    let mut c = Config::initial(String::from("repo"), sample_values());
    let other = String::from("other");
    c.add_repo(&other, String::from("dev"), String::from("/elsewhere"))
        .unwrap();
    let names = c.repo_names();
    assert_eq!(names, vec!["repo", "other"]);
}
