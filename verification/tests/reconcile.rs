use tree_hoprs::OpError;
use tree_hoprs::reconcile::list_active;
use tree_hoprs::reconcile::parse_record;
use tree_hoprs::text::to_chars;

#[test]
fn list_active_parses_and_strips_brackets() {
    let raw = String::from("/repo/main abc000 [main]\n/repo/tree1 def111 [feature-x]\n");
    let inactive: Vec<String> = Vec::new();
    let records = list_active(&raw, &inactive).unwrap();
    assert_eq!(records.len(), 2);
    assert_eq!(records[0].path, "/repo/main");
    assert_eq!(records[0].branch, "main");
    assert_eq!(records[1].path, "/repo/tree1");
    assert_eq!(records[1].branch, "feature-x");
}

#[test]
fn list_active_excludes_inactive_paths() {
    let raw = String::from("/repo/main abc000 [main]\n/repo/tree1 def111 [feature-x]\n");
    let inactive = vec![String::from("/repo/tree1")];
    let records = list_active(&raw, &inactive).unwrap();
    assert_eq!(records.len(), 1);
    assert_eq!(records[0].path, "/repo/main");
}

#[test]
fn list_active_rejects_malformed_line() {
    let raw = String::from("/repo/main abc000 [main]\nonly-two fields\n");
    let inactive: Vec<String> = Vec::new();
    let e = list_active(&raw, &inactive).unwrap_err();
    assert_eq!(e, OpError::MalformedListing);
    assert_eq!(e.message(), "Malformed worktree listing line");
}

#[test]
fn list_active_handles_crlf_and_final_line() {
    // A carriage return before the line feed is not part of the branch
    // field, and a final line without a line ending still counts.
    let raw = String::from("/repo/main abc000 [main]\r\n/repo/tree1 def111 [feature-x]");
    let inactive: Vec<String> = Vec::new();
    let records = list_active(&raw, &inactive).unwrap();
    assert_eq!(records.len(), 2);
    assert_eq!(records[0].branch, "main");
    assert_eq!(records[1].branch, "feature-x");
}

#[test]
fn list_active_empty_listing() {
    let raw = String::new();
    let inactive = vec![String::from("/repo/tree1")];
    let records = list_active(&raw, &inactive).unwrap();
    assert!(records.is_empty());
}

#[test]
fn parse_record_splits_on_any_whitespace_run() {
    let line = to_chars("/repo/tree1\t def111   [feature-x]");
    let rec = parse_record(&line).unwrap();
    assert_eq!(rec.path, "/repo/tree1");
    assert_eq!(rec.branch, "feature-x");
}

#[test]
fn parse_record_rejects_short_branch_field() {
    let line = to_chars("/repo/tree1 def111 x");
    let e = parse_record(&line).unwrap_err();
    assert_eq!(e, OpError::MalformedListing);
}
