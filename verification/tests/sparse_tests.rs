use submod::config::SubmoduleEntry;
use submod::sparse::{build_deny_all_sparse_patterns, expected_sparse_patterns, sparse_status, SparseStatus};

fn s(v: &[&str]) -> Vec<String> {
    v.iter().map(|x| x.to_string()).collect()
}

#[test]
fn deny_all_patterns_come_first_once() {
    assert_eq!(build_deny_all_sparse_patterns(&s(&["src/", "docs/"])), s(&["!/*", "src/", "docs/"]));
    assert_eq!(build_deny_all_sparse_patterns(&s(&["", "  ", "!/*", " !/* "])), Vec::<String>::new());
    assert_eq!(build_deny_all_sparse_patterns(&s(&["!/*", "a", " b "])), s(&["!/*", "a", " b "]));
    assert_eq!(build_deny_all_sparse_patterns(&[]), Vec::<String>::new());
}

#[test]
fn deny_all_patterns_are_stable_when_built_again() {
    let once = build_deny_all_sparse_patterns(&s(&["x/", "", "!/*", "y/"]));
    let twice = build_deny_all_sparse_patterns(&once);
    assert_eq!(once, twice);
}

#[test]
fn expected_patterns_follow_the_sparse_mode() {
    let mut e = SubmoduleEntry::new(None, None, None, None, None, None, None, None, None);
    e.sparse_paths = Some(s(&["src/"]));
    assert_eq!(expected_sparse_patterns(&e), s(&["!/*", "src/"]));
    e.use_git_default_sparse_checkout = Some(true);
    assert_eq!(expected_sparse_patterns(&e), s(&["src/"]));
    e.sparse_paths = None;
    assert_eq!(expected_sparse_patterns(&e), Vec::<String>::new());
}

#[test]
fn sparse_status_decisions() {
    assert_eq!(sparse_status(&[], false, false, Vec::new()), SparseStatus::NotEnabled);
    assert_eq!(sparse_status(&s(&["a"]), false, false, Vec::new()), SparseStatus::NotConfigured);
    assert_eq!(sparse_status(&s(&["a", "b"]), true, false, s(&["a", "b"])), SparseStatus::Correct);
    assert_eq!(
        sparse_status(&s(&["a", "b"]), true, false, s(&["b", "a"])),
        SparseStatus::Mismatch { expected: s(&["a", "b"]), actual: s(&["b", "a"]) }
    );
    assert_eq!(
        sparse_status(&s(&["a"]), true, true, s(&["a"])),
        SparseStatus::Mismatch { expected: s(&["a"]), actual: s(&["a"]) }
    );
    assert!(SparseStatus::NotConfigured.needs_change());
    assert!(!SparseStatus::Correct.needs_change());
}

#[test]
fn sparse_match_and_record_boundaries() {
    let expected = vec!["!/*".to_string(), "src".to_string()];
    assert!(submod::sparse::sparse_checkout_matches(&expected, true, false, &expected.clone()));
    assert!(!submod::sparse::sparse_checkout_matches(&expected, true, true, &expected.clone()));
    assert!(!submod::sparse::sparse_checkout_matches(&expected, false, false, &expected.clone()));
    assert!(submod::sparse::sparse_checkout_matches(&[], false, false, &vec![]));
    assert!(!submod::sparse::sparse_checkout_matches(&[], true, false, &vec![]));
    assert!(submod::sparse::any_pattern_breaks_records(&["a\nb".to_string()]));
    assert!(!submod::sparse::any_pattern_breaks_records(&expected));
}
