use submod::commands::UnsetSetting;
use submod::config::{SubmoduleDefaults, SubmoduleEntry};
use submod::edits::{change_defaults, change_entry, ChangeRequest, GlobalChange};
use submod::errors::SubmoduleError;
use submod::options::{SerializableBranch, SerializableIgnore, SerializableUpdate};

fn request() -> ChangeRequest {
    ChangeRequest {
        path: None,
        branch: None,
        sparse_paths: None,
        append_sparse: false,
        ignore: None,
        fetch: None,
        update: None,
        shallow: None,
        url: None,
        active: None,
        use_git_default_sparse_checkout: None,
        unset: Vec::new(),
        clear_sparse_paths: false,
    }
}

fn base() -> SubmoduleEntry {
    let mut e = SubmoduleEntry::new(
        Some("u".to_string()),
        Some("p".to_string()),
        Some(SerializableBranch::Name("main".to_string())),
        Some(SerializableIgnore::Dirty),
        None,
        None,
        Some(true),
        Some(true),
        None,
    );
    e.sparse_paths = Some(vec!["src/".to_string()]);
    e
}

#[test]
fn change_sets_unsets_and_lists_fields() {
    let mut q = request();
    q.unset = vec![UnsetSetting::Branch, UnsetSetting::Shallow];
    q.ignore = Some(SerializableIgnore::All);
    q.branch = Some("  develop ".to_string());
    q.sparse_paths = Some(vec!["docs/".to_string()]);
    q.append_sparse = true;
    let (e, fields) = change_entry(&base(), &q);
    assert_eq!(e.branch, Some(SerializableBranch::Name("develop".to_string())));
    assert_eq!(e.shallow, None);
    assert_eq!(e.ignore, Some(SerializableIgnore::All));
    assert_eq!(e.sparse_paths, Some(vec!["src/".to_string(), "docs/".to_string()]));
    assert_eq!(fields, vec!["branch", "shallow", "branch", "ignore", "sparse_paths"]);
}

#[test]
fn change_replaces_or_clears_sparse_paths() {
    let mut q = request();
    q.sparse_paths = Some(vec!["lib/".to_string()]);
    let (e, _) = change_entry(&base(), &q);
    assert_eq!(e.sparse_paths, Some(vec!["lib/".to_string()]));
    let mut q = request();
    q.clear_sparse_paths = true;
    let (e, fields) = change_entry(&base(), &q);
    assert_eq!(e.sparse_paths, Some(Vec::new()));
    assert_eq!(fields, vec!["sparse_paths"]);
}

#[test]
fn change_defaults_errors_and_edits() {
    let d = SubmoduleDefaults::default();
    let empty = GlobalChange {
        branch: None,
        ignore: None,
        fetch_recurse: None,
        update: None,
        use_git_default_sparse_checkout: None,
        unset: Vec::new(),
    };
    match change_defaults(&d, &empty) {
        Err(SubmoduleError::ConfigError(m)) => assert_eq!(m, "No settings provided to change."),
        other => panic!("unexpected {other:?}"),
    }
    let mut q = empty.clone();
    q.unset = vec![UnsetSetting::Ignore, UnsetSetting::Active];
    match change_defaults(&d, &q) {
        Err(SubmoduleError::ConfigError(m)) => {
            assert_eq!(m, "Unsupported global setting to unset: active")
        }
        other => panic!("unexpected {other:?}"),
    }
    let mut start = SubmoduleDefaults::default();
    start.ignore = Some(SerializableIgnore::All);
    let mut q = empty.clone();
    q.unset = vec![UnsetSetting::Ignore];
    q.update = Some(SerializableUpdate::Rebase);
    let (out, fields) = change_defaults(&start, &q).unwrap();
    assert_eq!(out.ignore, None);
    assert_eq!(out.update, Some(SerializableUpdate::Rebase));
    assert_eq!(fields, vec!["ignore", "update"]);
}
