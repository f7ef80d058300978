use tree_hoprs::text::chars_to_string;
use tree_hoprs::text::contains_string;
use tree_hoprs::text::contains_sub;
use tree_hoprs::text::path_join;
use tree_hoprs::text::sub_chars;
use tree_hoprs::text::to_chars;
use tree_hoprs::text::usize_to_string;

#[test]
fn decimal_rendering() {
    assert_eq!(usize_to_string(0), "0");
    assert_eq!(usize_to_string(7), "7");
    assert_eq!(usize_to_string(10), "10");
    assert_eq!(usize_to_string(42), "42");
    assert_eq!(usize_to_string(1203), "1203");
}

#[test]
fn chars_round_trip() {
    let v = to_chars("worktree list");
    assert_eq!(v.len(), 13);
    assert_eq!(chars_to_string(&v), "worktree list");
}

#[test]
fn sub_chars_takes_a_middle_slice() {
    let v = to_chars("[feature]");
    let inner = sub_chars(&v, 1, v.len() - 1);
    assert_eq!(chars_to_string(&inner), "feature");
}

#[test]
fn substring_search() {
    let hay = to_chars("/repo/tree3 abc123 [feature-z]");
    assert!(contains_sub(&hay, &to_chars("feature-z")));
    assert!(contains_sub(&hay, &to_chars("/repo/tree3")));
    assert!(contains_sub(&hay, &to_chars("")));
    assert!(!contains_sub(&hay, &to_chars("feature-q")));
}

#[test]
fn string_membership() {
    let v = vec![String::from("/repo/tree1"), String::from("/repo/tree2")];
    assert!(contains_string(&v, &String::from("/repo/tree2")));
    assert!(!contains_string(&v, &String::from("/repo/tree3")));
}

#[test]
fn path_joining() {
    assert_eq!(path_join(&String::from("/repo"), &String::from("main")), "/repo/main");
    assert_eq!(path_join(&String::from("/repo"), &String::from("tree1")), "/repo/tree1");
}
