use submod::config::{
    Config, OtherSubmoduleSettings, SubmoduleAddOptions, SubmoduleDefaults, SubmoduleEntries,
    SubmoduleEntry, SubmoduleGitOptions, SubmoduleUpdateOptions,
};
use submod::name_map::NameMap;
use submod::options::{
    SerializableBranch, SerializableFetchRecurse, SerializableIgnore, SerializableUpdate,
};

#[test]
fn test_defaults_merge_from_both_set() {
    let base = SubmoduleDefaults {
        branch: None,
        ignore: Some(SerializableIgnore::All),
        fetch_recurse: Some(SerializableFetchRecurse::Always),
        update: Some(SerializableUpdate::Rebase),
        use_git_default_sparse_checkout: None,
    };
    let other = SubmoduleDefaults {
        branch: None,
        ignore: Some(SerializableIgnore::Dirty),
        fetch_recurse: None,
        update: Some(SerializableUpdate::Merge),
        use_git_default_sparse_checkout: None,
    };
    let merged = base.merge_from(other);
    // other.ignore overrides
    assert_eq!(merged.ignore, Some(SerializableIgnore::Dirty));
    // other.fetch_recurse is None → base preserved
    assert_eq!(merged.fetch_recurse, Some(SerializableFetchRecurse::Always));
    // other.update overrides
    assert_eq!(merged.update, Some(SerializableUpdate::Merge));
}

#[test]
fn test_defaults_merge_from_empty_other() {
    let base = SubmoduleDefaults {
        branch: None,
        ignore: Some(SerializableIgnore::All),
        fetch_recurse: Some(SerializableFetchRecurse::Never),
        update: Some(SerializableUpdate::Checkout),
        use_git_default_sparse_checkout: None,
    };
    let other = SubmoduleDefaults::default();
    let merged = base.merge_from(other);
    // Base values should be preserved
    assert_eq!(merged.ignore, Some(SerializableIgnore::All));
    assert_eq!(merged.fetch_recurse, Some(SerializableFetchRecurse::Never));
    assert_eq!(merged.update, Some(SerializableUpdate::Checkout));
}

#[test]
fn test_defaults_merge_from_empty_base() {
    let base = SubmoduleDefaults::default();
    let other = SubmoduleDefaults {
        branch: None,
        ignore: Some(SerializableIgnore::Dirty),
        fetch_recurse: Some(SerializableFetchRecurse::Always),
        update: Some(SerializableUpdate::Merge),
        use_git_default_sparse_checkout: None,
    };
    let merged = base.merge_from(other);
    assert_eq!(merged.ignore, Some(SerializableIgnore::Dirty));
    assert_eq!(merged.fetch_recurse, Some(SerializableFetchRecurse::Always));
    assert_eq!(merged.update, Some(SerializableUpdate::Merge));
}

#[test]
fn test_defaults_merge_from_both_empty_gets_defaults() {
    let base = SubmoduleDefaults::default();
    let other = SubmoduleDefaults::default();
    let merged = base.merge_from(other);
    // Should fill in defaults via .or_else
    assert_eq!(merged.ignore, Some(SerializableIgnore::default()));
    assert_eq!(
        merged.fetch_recurse,
        Some(SerializableFetchRecurse::default())
    );
    assert_eq!(merged.update, Some(SerializableUpdate::default()));
}

#[test]
fn test_defaults_merge_from_carries_other_sparse_default() {
    // Regression (#62 P2): merge_from dropped other.use_git_default_sparse_checkout.
    let base = SubmoduleDefaults {
        branch: None,
        ignore: None,
        fetch_recurse: None,
        update: None,
        use_git_default_sparse_checkout: None,
    };
    let other = SubmoduleDefaults {
        branch: None,
        ignore: None,
        fetch_recurse: None,
        update: None,
        use_git_default_sparse_checkout: Some(true),
    };
    let merged = base.merge_from(other);
    assert_eq!(
        merged.use_git_default_sparse_checkout,
        Some(true),
        "other.use_git_default_sparse_checkout must override an unset base value"
    );
}

#[test]
fn test_defaults_merge_from_other_sparse_default_overrides_base() {
    // The override must win even when base already holds a value.
    let base = SubmoduleDefaults {
        branch: None,
        ignore: None,
        fetch_recurse: None,
        update: None,
        use_git_default_sparse_checkout: Some(true),
    };
    let other = SubmoduleDefaults {
        branch: None,
        ignore: None,
        fetch_recurse: None,
        update: None,
        use_git_default_sparse_checkout: Some(false),
    };
    let merged = base.merge_from(other);
    assert_eq!(
        merged.use_git_default_sparse_checkout,
        Some(false),
        "other's explicit sparse default must override base's"
    );
}

#[test]
fn test_defaults_merge_from_unset_other_sparse_default_preserves_base() {
    // When other leaves it unset, base's value must survive.
    let base = SubmoduleDefaults {
        branch: None,
        ignore: None,
        fetch_recurse: None,
        update: None,
        use_git_default_sparse_checkout: Some(true),
    };
    let other = SubmoduleDefaults::default();
    let merged = base.merge_from(other);
    assert_eq!(
        merged.use_git_default_sparse_checkout,
        Some(true),
        "an unset other must not clobber base's sparse default"
    );
}

#[test]
fn test_entry_is_local() {
    let mut entry = SubmoduleEntry::new(
        Some("./local-repo".to_string()),
        None,
        None,
        None,
        None,
        None,
        None,
        None,
        None,
    );
    assert!(entry.is_local());

    entry.url = Some("../sibling".to_string());
    assert!(entry.is_local());

    entry.url = Some("/absolute/path".to_string());
    assert!(entry.is_local());

    // Not local
    entry.url = Some("https://github.com/repo".to_string());
    assert!(!entry.is_local());

    // None url
    entry.url = None;
    assert!(!entry.is_local());
}

#[test]
fn test_entry_is_remote() {
    let mut entry = SubmoduleEntry::new(
        Some("https://github.com/user/repo".to_string()),
        None,
        None,
        None,
        None,
        None,
        None,
        None,
        None,
    );
    assert!(entry.is_remote());

    entry.url = Some("http://example.com/repo".to_string());
    assert!(entry.is_remote());

    entry.url = Some("ssh://git@github.com/repo".to_string());
    assert!(entry.is_remote());

    entry.url = Some("git@github.com:user/repo.git".to_string());
    assert!(entry.is_remote());

    entry.url = Some("git://example.com/repo".to_string());
    assert!(entry.is_remote());

    // Not remote
    entry.url = Some("./local".to_string());
    assert!(!entry.is_remote());

    entry.url = None;
    assert!(!entry.is_remote());

    // Protocol not at start
    entry.url = Some("/path/to/https://repo".to_string());
    assert!(!entry.is_remote());

    // Minimal protocol
    entry.url = Some("https://".to_string());
    assert!(entry.is_remote());
}

#[test]
fn test_entry_neither_local_nor_remote() {
    // A bare name isn't classified as either
    let entry = SubmoduleEntry::new(
        Some("just-a-name".to_string()),
        None,
        None,
        None,
        None,
        None,
        None,
        None,
        None,
    );
    assert!(!entry.is_local());
    assert!(!entry.is_remote());
}

#[test]
fn test_entry_from_gitmodules_full() {
    let mut map = NameMap::new();
    map.insert(
        "url".to_string(),
        "https://github.com/user/repo.git".to_string(),
    );
    map.insert("path".to_string(), "libs/repo".to_string());
    map.insert("branch".to_string(), "main".to_string());
    map.insert("ignore".to_string(), "dirty".to_string());
    map.insert("update".to_string(), "rebase".to_string());
    map.insert("fetchRecurseSubmodules".to_string(), "true".to_string());
    map.insert("active".to_string(), "true".to_string());
    map.insert("shallow".to_string(), "true".to_string());

    let entry = SubmoduleEntry::from_gitmodules("repo", &map);
    assert_eq!(
        entry.url,
        Some("https://github.com/user/repo.git".to_string())
    );
    assert_eq!(entry.path, Some("libs/repo".to_string()));
    assert_eq!(
        entry.branch,
        Some(SerializableBranch::Name("main".to_string()))
    );
    assert_eq!(entry.ignore, Some(SerializableIgnore::Dirty));
    assert_eq!(entry.update, Some(SerializableUpdate::Rebase));
    assert_eq!(entry.fetch_recurse, Some(SerializableFetchRecurse::Always));
    assert_eq!(entry.active, Some(true));
    assert_eq!(entry.shallow, Some(true));
}

#[test]
fn test_entry_from_gitmodules_minimal() {
    let mut map = NameMap::new();
    map.insert(
        "url".to_string(),
        "https://example.com/repo.git".to_string(),
    );

    let entry = SubmoduleEntry::from_gitmodules("mymod", &map);
    assert_eq!(entry.url, Some("https://example.com/repo.git".to_string()));
    // path defaults to name when not in the map
    assert!(entry.path.is_some());
    // active defaults to true, shallow to false
    assert_eq!(entry.active, Some(true));
    assert_eq!(entry.shallow, Some(false));
}

#[test]
fn test_entry_from_gitmodules_invalid_values_silently_ignored() {
    let mut map = NameMap::new();
    map.insert("url".to_string(), "https://example.com/repo".to_string());
    map.insert("ignore".to_string(), "INVALID".to_string());
    map.insert("update".to_string(), "BOGUS".to_string());
    map.insert("active".to_string(), "not-a-bool".to_string());

    let entry = SubmoduleEntry::from_gitmodules("mod", &map);
    // Invalid values should result in None (parsed with .ok())
    assert_eq!(entry.ignore, None);
    assert_eq!(entry.update, None);
    // Invalid bool parses to None, defaults to true
    assert_eq!(entry.active, Some(true));
}

#[test]
fn test_entry_from_gitmodules_branch_dot_alias() {
    let mut map = NameMap::new();
    map.insert("branch".to_string(), ".".to_string());
    map.insert("url".to_string(), "https://example.com/repo".to_string());

    let entry = SubmoduleEntry::from_gitmodules("mod", &map);
    assert_eq!(
        entry.branch,
        Some(SerializableBranch::CurrentInSuperproject)
    );
}

#[test]
fn test_entry_update_with_options() {
    let entry = SubmoduleEntry::new(
        Some("https://example.com".to_string()),
        Some("path".to_string()),
        Some(SerializableBranch::Name("main".to_string())),
        Some(SerializableIgnore::Nothing),
        Some(SerializableUpdate::Checkout),
        Some(SerializableFetchRecurse::OnDemand),
        Some(true),
        Some(false),
        None,
    );

    let opts = SubmoduleGitOptions {
        ignore: Some(SerializableIgnore::All),
        fetch_recurse: None,
        branch: Some(SerializableBranch::Name("develop".to_string())),
        update: None,
    };

    let updated = entry.update_with_options(opts);
    assert_eq!(updated.ignore, Some(SerializableIgnore::All));
    assert_eq!(
        updated.fetch_recurse,
        Some(SerializableFetchRecurse::OnDemand)
    ); // unchanged
    assert_eq!(
        updated.branch,
        Some(SerializableBranch::Name("develop".to_string()))
    );
    assert_eq!(updated.update, Some(SerializableUpdate::Checkout)); // unchanged
}

#[test]
fn test_entry_update_with_empty_options_preserves() {
    let entry = SubmoduleEntry::new(
        Some("url".to_string()),
        Some("path".to_string()),
        Some(SerializableBranch::Name("main".to_string())),
        Some(SerializableIgnore::Dirty),
        Some(SerializableUpdate::Rebase),
        Some(SerializableFetchRecurse::Always),
        Some(true),
        None,
        None,
    );
    // Default-derived SubmoduleGitOptions has all None fields
    let opts = SubmoduleGitOptions {
        ignore: None,
        fetch_recurse: None,
        branch: None,
        update: None,
    };
    let updated = entry.update_with_options(opts);
    // None options don't override existing values
    assert_eq!(updated.ignore, Some(SerializableIgnore::Dirty));
    assert_eq!(updated.update, Some(SerializableUpdate::Rebase));
    assert_eq!(
        updated.branch,
        Some(SerializableBranch::Name("main".to_string()))
    );
    assert_eq!(
        updated.fetch_recurse,
        Some(SerializableFetchRecurse::Always)
    );
}

#[test]
fn test_entries_add_checkout_replace() {
    let mut entries = SubmoduleEntries::default();
    entries.update_entry(
        "mod1".into(),
        SubmoduleEntry::new(
            Some("repo".into()),
            None,
            None,
            None,
            None,
            None,
            None,
            None,
            None,
        ),
    );
    entries.add_checkout("mod1", &["src/".to_string()], false);
    assert_eq!(
        entries.sparse_checkouts().unwrap().get("mod1").unwrap(),
        &vec!["src/".to_string()]
    );

    // Append
    entries.add_checkout("mod1", &["docs/".to_string()], false);
    assert_eq!(
        entries.sparse_checkouts().unwrap().get("mod1").unwrap(),
        &vec!["src/".to_string(), "docs/".to_string()]
    );

    // Replace
    entries.add_checkout("mod1", &["lib/".to_string()], true);
    assert_eq!(
        entries.sparse_checkouts().unwrap().get("mod1").unwrap(),
        &vec!["lib/".to_string()]
    );
}

#[test]
fn test_entries_add_checkout_when_none() {
    let mut entries = SubmoduleEntries::default();
    entries.update_entry(
        "mod1".into(),
        SubmoduleEntry::new(
            Some("repo".into()),
            None,
            None,
            None,
            None,
            None,
            None,
            None,
            None,
        ),
    );
    entries.add_checkout("mod1", &["src/".to_string()], false);
    assert!(entries.sparse_checkouts().is_some());
    assert_eq!(
        entries.sparse_checkouts().unwrap().get("mod1").unwrap(),
        &vec!["src/".to_string()]
    );
}

#[test]
fn test_entries_remove_sparse_path() {
    let mut entries = SubmoduleEntries::default();
    entries.update_entry(
        "mod1".into(),
        SubmoduleEntry::new(
            Some("repo".into()),
            None,
            None,
            None,
            None,
            None,
            None,
            None,
            None,
        ),
    );
    entries.add_checkout("mod1", &["src/".to_string(), "docs/".to_string()], false);

    entries.remove_sparse_path("mod1", "src/");
    assert_eq!(
        entries.sparse_checkouts().unwrap().get("mod1").unwrap(),
        &vec!["docs/".to_string()]
    );

    // Remove last path → entry is cleaned up
    entries.remove_sparse_path("mod1", "docs/");
    assert!(!entries.sparse_checkouts().unwrap().contains_key("mod1"));
}

#[test]
fn test_entries_add_sparse_path() {
    let mut entries = SubmoduleEntries::default();
    entries.update_entry(
        "mod1".into(),
        SubmoduleEntry::new(
            Some("repo".into()),
            None,
            None,
            None,
            None,
            None,
            None,
            None,
            None,
        ),
    );
    entries.add_sparse_path("mod1", "src/".to_string());
    assert_eq!(
        entries.sparse_checkouts().unwrap().get("mod1").unwrap(),
        &vec!["src/".to_string()]
    );
    entries.add_sparse_path("mod1", "docs/".to_string());
    assert_eq!(
        entries.sparse_checkouts().unwrap().get("mod1").unwrap(),
        &vec!["src/".to_string(), "docs/".to_string()]
    );
}

#[test]
fn test_entries_add_sparse_path_when_none() {
    let mut entries = SubmoduleEntries::default();
    entries.update_entry(
        "mod1".into(),
        SubmoduleEntry::new(
            Some("repo".into()),
            None,
            None,
            None,
            None,
            None,
            None,
            None,
            None,
        ),
    );
    entries.add_sparse_path("mod1", "src/".to_string());
    assert!(entries.sparse_checkouts().is_some());
}

#[test]
fn test_entries_delete_checkout() {
    let mut entries = SubmoduleEntries::default();
    entries.update_entry(
        "mod1".into(),
        SubmoduleEntry::new(
            Some("repo".into()),
            None,
            None,
            None,
            None,
            None,
            None,
            None,
            None,
        ),
    );
    entries.add_checkout("mod1", &["src/".to_string()], false);
    entries.delete_checkout("mod1");
    assert!(!entries.sparse_checkouts().unwrap().contains_key("mod1"));
}

#[test]
fn test_entries_update_entry_with_sparse() {
    let mut entries = SubmoduleEntries::default();
    let entry = SubmoduleEntry {
        url: Some("https://example.com/repo".to_string()),
        path: Some("libs/repo".to_string()),
        branch: None,
        ignore: None,
        update: None,
        fetch_recurse: None,
        active: Some(true),
        shallow: None,
        no_init: None,
        sparse_paths: Some(vec!["src/".to_string()]),
        use_git_default_sparse_checkout: None,
    };
    entries.update_entry("repo".to_string(), entry);

    assert!(entries.submodules().unwrap().contains_key("repo"));
    assert_eq!(
        entries.sparse_checkouts().unwrap().get("repo").unwrap(),
        &vec!["src/".to_string()]
    );
}

#[test]
fn test_entries_update_entry_removes_sparse_when_empty() {
    let mut entries = SubmoduleEntries::default();
    // First add with sparse
    let entry_with_sparse = SubmoduleEntry {
        url: Some("url".to_string()),
        path: Some("path".to_string()),
        branch: None,
        ignore: None,
        update: None,
        fetch_recurse: None,
        active: Some(true),
        shallow: None,
        no_init: None,
        sparse_paths: Some(vec!["src/".to_string()]),
        use_git_default_sparse_checkout: None,
    };
    entries.update_entry("repo".to_string(), entry_with_sparse);
    assert!(entries.sparse_checkouts().unwrap().contains_key("repo"));

    // Update without sparse → should remove from sparse map
    let entry_no_sparse = SubmoduleEntry {
        url: Some("url".to_string()),
        path: Some("path".to_string()),
        branch: None,
        ignore: None,
        update: None,
        fetch_recurse: None,
        active: Some(true),
        shallow: None,
        no_init: None,
        sparse_paths: None,
        use_git_default_sparse_checkout: None,
    };
    entries.update_entry("repo".to_string(), entry_no_sparse);
    assert!(!entries.sparse_checkouts().unwrap().contains_key("repo"));
}

#[test]
fn test_entries_contains_key() {
    let mut entries = SubmoduleEntries::default();
    assert!(!entries.contains_key("mod1"));

    let entry = SubmoduleEntry::new(
        Some("url".to_string()),
        Some("path".to_string()),
        None,
        None,
        None,
        None,
        Some(true),
        None,
        None,
    );
    entries = entries.add_submodule("mod1".to_string(), entry);
    assert!(entries.contains_key("mod1"));
    assert!(!entries.contains_key("mod2"));
}

#[test]
fn test_entries_submodule_names() {
    let mut entries = SubmoduleEntries::default();
    let entry = SubmoduleEntry::new(
        Some("url".to_string()),
        Some("path".to_string()),
        None,
        None,
        None,
        None,
        Some(true),
        None,
        None,
    );
    entries = entries.add_submodule("alpha".to_string(), entry.clone());
    entries = entries.add_submodule("beta".to_string(), entry);
    let names = entries.submodule_names().unwrap();
    assert!(names.contains(&"alpha".to_string()));
    assert!(names.contains(&"beta".to_string()));
    assert_eq!(names.len(), 2);
}

#[test]
fn test_entries_remove_submodule() {
    let entry = SubmoduleEntry::new(
        Some("url".to_string()),
        Some("path".to_string()),
        None,
        None,
        None,
        None,
        Some(true),
        None,
        None,
    );
    let mut entries = SubmoduleEntries::default()
        .add_submodule("mod1".to_string(), entry.clone())
        .add_submodule("mod2".to_string(), entry);
    assert!(entries.contains_key("mod1"));
    let _ = entries.remove_submodule("mod1");
    assert!(!entries.contains_key("mod1"));
    assert!(entries.contains_key("mod2"));
}

#[test]
fn test_entries_iter_joins_sparse() {
    let mut entries = SubmoduleEntries::default();
    let entry = SubmoduleEntry::new(
        Some("url".to_string()),
        Some("path".to_string()),
        None,
        None,
        None,
        None,
        Some(true),
        None,
        None,
    );
    entries = entries.add_submodule("mod1".to_string(), entry);
    entries.add_checkout("mod1", &["src/".to_string()], false);

    let items: Vec<_> = entries.iter().collect();
    assert_eq!(items.len(), 1);
    let (name, (_, sparse)) = &items[0];
    assert_eq!(*name, "mod1");
    assert_eq!(*sparse, vec!["src/".to_string()]);
}

#[test]
fn test_entries_iter_no_sparse() {
    let mut entries = SubmoduleEntries::default();
    let entry = SubmoduleEntry::new(
        Some("url".to_string()),
        Some("path".to_string()),
        None,
        None,
        None,
        None,
        Some(true),
        None,
        None,
    );
    entries = entries.add_submodule("mod1".to_string(), entry);

    let items: Vec<_> = entries.iter().collect();
    let (_, (_, sparse)) = &items[0];
    assert!(sparse.is_empty());
}

#[test]
fn test_apply_option_default_none_gets_default() {
    let mut val: Option<SerializableIgnore> = None;
    let default = Some(SerializableIgnore::Dirty);
    Config::apply_option_default(&mut val, default.as_ref(), SerializableIgnore::Unspecified);
    assert_eq!(val, Some(SerializableIgnore::Dirty));
}

#[test]
fn test_apply_option_default_unspecified_gets_default() {
    let mut val = Some(SerializableIgnore::Unspecified);
    let default = Some(SerializableIgnore::All);
    Config::apply_option_default(&mut val, default.as_ref(), SerializableIgnore::Unspecified);
    assert_eq!(val, Some(SerializableIgnore::All));
}

#[test]
fn test_apply_option_default_real_value_preserved() {
    let mut val = Some(SerializableIgnore::Dirty);
    let default = Some(SerializableIgnore::All);
    Config::apply_option_default(&mut val, default.as_ref(), SerializableIgnore::Unspecified);
    assert_eq!(val, Some(SerializableIgnore::Dirty));
}

#[test]
fn test_apply_option_default_none_value_none_default() {
    let mut val: Option<SerializableIgnore> = None;
    let default: Option<SerializableIgnore> = None;
    Config::apply_option_default(&mut val, default.as_ref(), SerializableIgnore::Unspecified);
    // Falls back to the sentinel
    assert_eq!(val, Some(SerializableIgnore::Unspecified));
}

#[test]
fn test_config_apply_defaults() {
    let defaults = SubmoduleDefaults {
        branch: None,
        ignore: Some(SerializableIgnore::Dirty),
        fetch_recurse: Some(SerializableFetchRecurse::Always),
        update: Some(SerializableUpdate::Rebase),
        use_git_default_sparse_checkout: None,
    };
    let entry = SubmoduleEntry::new(
        Some("url".to_string()),
        Some("path".to_string()),
        None,
        None,
        None,
        None,
        Some(true),
        None,
        None,
    );
    let entries = SubmoduleEntries::default().add_submodule("mod1".to_string(), entry);
    let config = Config::new(defaults, entries);

    let applied = config.apply_defaults();
    let sub = applied.submodules.get("mod1").unwrap();
    // Submodule had None → should get defaults
    assert_eq!(sub.ignore, Some(SerializableIgnore::Dirty));
    assert_eq!(sub.fetch_recurse, Some(SerializableFetchRecurse::Always));
    assert_eq!(sub.update, Some(SerializableUpdate::Rebase));
}

#[test]
fn test_config_apply_defaults_entry_overrides() {
    let defaults = SubmoduleDefaults {
        branch: None,
        ignore: Some(SerializableIgnore::Dirty),
        fetch_recurse: Some(SerializableFetchRecurse::Always),
        update: Some(SerializableUpdate::Rebase),
        use_git_default_sparse_checkout: None,
    };
    let entry = SubmoduleEntry::new(
        Some("url".to_string()),
        Some("path".to_string()),
        None,
        Some(SerializableIgnore::All), // explicit override
        None,
        None,
        Some(true),
        None,
        None,
    );
    let entries = SubmoduleEntries::default().add_submodule("mod1".to_string(), entry);
    let config = Config::new(defaults, entries);

    let applied = config.apply_defaults();
    let sub = applied.submodules.get("mod1").unwrap();
    // Explicit override preserved
    assert_eq!(sub.ignore, Some(SerializableIgnore::All));
    // Others get defaults
    assert_eq!(sub.fetch_recurse, Some(SerializableFetchRecurse::Always));
    assert_eq!(sub.update, Some(SerializableUpdate::Rebase));
}

#[test]
fn test_config_apply_defaults_no_submodules() {
    let config = Config::default();
    let applied = config.apply_defaults();
    // Should not panic
    assert!(applied.submodules.submodules().unwrap().is_empty());
}

#[test]
fn test_add_options_into_submodule_entry() {
    let opts = SubmoduleAddOptions {
        name: "mymod".to_string(),
        path: "libs/mymod".to_string(),
        url: "https://example.com/repo.git".to_string(),
        branch: Some(SerializableBranch::Name("main".to_string())),
        ignore: Some(SerializableIgnore::Dirty),
        update: None,
        fetch_recurse: None,
        shallow: true,
        no_init: false,
    };
    let entry = opts.into_submodule_entry();
    assert_eq!(entry.url, Some("https://example.com/repo.git".to_string()));
    assert_eq!(entry.path, Some("libs/mymod".to_string()));
    assert_eq!(
        entry.branch,
        Some(SerializableBranch::Name("main".to_string()))
    );
    assert_eq!(entry.shallow, Some(true));
    assert_eq!(entry.active, Some(true)); // no_init=false → active=true
}

#[test]
fn test_add_options_into_entry_no_init() {
    let opts = SubmoduleAddOptions {
        name: "mymod".to_string(),
        path: "libs/mymod".to_string(),
        url: "https://example.com/repo.git".to_string(),
        branch: None,
        ignore: None,
        update: None,
        fetch_recurse: None,
        shallow: false,
        no_init: true,
    };
    let entry = opts.into_submodule_entry();
    assert_eq!(entry.active, Some(false)); // no_init=true → active=false
    assert_eq!(entry.no_init, Some(true));
}

#[test]
fn test_add_options_entry_path_uses_git_separators() {
    // Join with the native separator the way path normalization does, so
    // the stored spelling stays `lib/noinit` even on Windows.
    let opts = SubmoduleAddOptions {
        name: "mymod".to_string(),
        path: std::path::PathBuf::from("lib").join("noinit").to_string_lossy().into_owned(),
        url: "https://example.com/repo.git".to_string(),
        branch: None,
        ignore: None,
        update: None,
        fetch_recurse: None,
        shallow: false,
        no_init: true,
    };
    let entry = opts.into_submodule_entry();
    assert_eq!(entry.path, Some("lib/noinit".to_string()));
}

#[test]
fn test_add_options_from_tuple_fallbacks() {
    // When url is None, falls back to path, then name
    let entry = SubmoduleEntry {
        url: None,
        path: Some("libs/mymod".to_string()),
        branch: None,
        ignore: None,
        update: None,
        fetch_recurse: None,
        active: None,
        shallow: None,
        no_init: None,
        sparse_paths: None,
        use_git_default_sparse_checkout: None,
    };
    let opts = SubmoduleAddOptions::from_submodule_entries_tuple(("mymod".to_string(), entry));
    // url fallback: path
    assert_eq!(opts.url, "libs/mymod");
    assert_eq!(opts.path, "libs/mymod");
}

#[test]
fn test_add_options_from_tuple_no_url_no_path() {
    let entry = SubmoduleEntry {
        url: None,
        path: None,
        branch: None,
        ignore: None,
        update: None,
        fetch_recurse: None,
        active: None,
        shallow: None,
        no_init: None,
        sparse_paths: None,
        use_git_default_sparse_checkout: None,
    };
    let opts = SubmoduleAddOptions::from_submodule_entries_tuple(("mymod".to_string(), entry));
    // Falls back to name for both url and path
    assert_eq!(opts.url, "mymod");
    assert_eq!(opts.path, "mymod");
}

#[test]
fn test_entry_git_options() {
    let entry = SubmoduleEntry::new(
        Some("url".to_string()),
        Some("path".to_string()),
        Some(SerializableBranch::Name("dev".to_string())),
        Some(SerializableIgnore::All),
        Some(SerializableUpdate::Merge),
        Some(SerializableFetchRecurse::Never),
        Some(true),
        None,
        None,
    );
    let opts = entry.git_options();
    assert_eq!(
        opts.branch,
        Some(SerializableBranch::Name("dev".to_string()))
    );
    assert_eq!(opts.ignore, Some(SerializableIgnore::All));
    assert_eq!(opts.update, Some(SerializableUpdate::Merge));
    assert_eq!(opts.fetch_recurse, Some(SerializableFetchRecurse::Never));
}

#[test]
fn test_other_settings_name_from_url() {
    assert_eq!(
        OtherSubmoduleSettings::name_from_url("https://github.com/user/repo.git"),
        "repo"
    );
    assert_eq!(
        OtherSubmoduleSettings::name_from_url("git@github.com:user/lib.git"),
        "lib"
    );
    assert_eq!(
        OtherSubmoduleSettings::name_from_url("https://github.com/user/repo/"),
        "repo"
    );
    assert_eq!(OtherSubmoduleSettings::name_from_url("simple"), "simple");
}

#[test]
fn test_git_options_new() {
    let opts = SubmoduleGitOptions::new(
        Some(SerializableIgnore::All),
        Some(SerializableFetchRecurse::Always),
        Some(SerializableBranch::Name("main".to_string())),
        Some(SerializableUpdate::Merge),
    );
    assert_eq!(opts.ignore, Some(SerializableIgnore::All));
    assert_eq!(opts.fetch_recurse, Some(SerializableFetchRecurse::Always));
}

#[test]
fn test_entries_from_gitmodules() {
    let mut outer = NameMap::new();
    let mut inner = NameMap::new();
    inner.insert(
        "url".to_string(),
        "https://example.com/repo.git".to_string(),
    );
    inner.insert("path".to_string(), "libs/repo".to_string());
    outer.insert("repo".to_string(), inner);

    let entries = SubmoduleEntries::from_gitmodules(outer);
    assert!(entries.contains_key("repo"));
    let entry = entries.get("repo").unwrap();
    assert_eq!(entry.url, Some("https://example.com/repo.git".to_string()));
}

#[test]
fn test_config_submodule_remote_check() {
    let mut config = Config::default();
    let entry = SubmoduleEntry::new(
        Some("https://github.com/user/repo".to_string()),
        Some("libs/repo".to_string()),
        None,
        None,
        None,
        None,
        Some(true),
        None,
        None,
    );
    config.add_submodule("repo".to_string(), entry);

    let retrieved = config
        .get_submodule("repo")
        .expect("submodule should exist");
    assert!(retrieved.is_remote());
}

#[test]
fn test_config_get_submodule() {
    let mut config = Config::default();
    let entry = SubmoduleEntry::new(
        Some("https://github.com/user/repo".to_string()),
        Some("libs/repo".to_string()),
        None,
        None,
        None,
        None,
        Some(true),
        None,
        None,
    );
    config.add_submodule("repo".to_string(), entry.clone());

    let retrieved = config
        .get_submodule("repo")
        .expect("submodule should exist");
    assert_eq!(retrieved, &entry);

    assert!(config.get_submodule("non-existent").is_none());
}

#[test]
fn test_update_options_from_options_never_selects_recursive_materialization() {
    // fetchRecurse controls fetching nested history. Recursive checkout is
    // an explicit lifecycle-command selection and remains off here.
    let always = SubmoduleUpdateOptions::from_options(SubmoduleGitOptions::new(
        None,
        Some(SerializableFetchRecurse::Always),
        None,
        Some(SerializableUpdate::Merge),
    ));
    assert!(
        !always.recursive,
        "fetchRecurse=always must not select recursive materialization"
    );
    assert_eq!(always.strategy, SerializableUpdate::Merge);
    assert!(!always.force, "from_options never forces");
    assert!(!always.remote, "from_options never selects remote tracking");

    // Every other fetch_recurse value (including None) also leaves it off.
    for fr in [
        None,
        Some(SerializableFetchRecurse::OnDemand),
        Some(SerializableFetchRecurse::Never),
    ] {
        let opts = SubmoduleUpdateOptions::from_options(SubmoduleGitOptions::new(
            None, fr, None, None,
        ));
        assert!(
            !opts.recursive,
            "fetchRecurse must stay independent of recursive checkout, got {fr:?}"
        );
        // An absent update strategy falls back to the Checkout default.
        assert_eq!(opts.strategy, SerializableUpdate::Checkout);
    }
}

#[test]
fn entry_from_settings_uses_default_git_options() {
    let settings = OtherSubmoduleSettings {
        url: Some("https://x/lib.git".to_string()),
        path: Some("vendor/lib".to_string()),
        name: Some("lib".to_string()),
        active: false,
        shallow: true,
        no_init: true,
    };
    let entry = SubmoduleEntry::from(settings);
    assert_eq!(entry.url.as_deref(), Some("https://x/lib.git"));
    assert_eq!(entry.path.as_deref(), Some("vendor/lib"));
    assert_eq!(entry.active, Some(false));
    assert_eq!(entry.shallow, Some(true));
    assert_eq!(entry.no_init, Some(true));
    assert_eq!(entry.ignore, Some(SerializableIgnore::Nothing));
    assert_eq!(entry.fetch_recurse, Some(SerializableFetchRecurse::OnDemand));
    assert_eq!(entry.update, Some(SerializableUpdate::Checkout));
    assert_eq!(entry.branch, None);
    assert_eq!(entry.sparse_paths, None);
}

#[test]
fn forced_update_options_set_recursive_and_force() {
    let options = SubmoduleUpdateOptions::new(SerializableUpdate::Merge, false, false);
    let forced = options.forced();
    assert!(forced.recursive);
    assert!(forced.force);
    assert_eq!(forced.strategy, SerializableUpdate::Merge);
    assert!(!forced.remote);
}

// spellchecker:off
#[test]
fn config_rejects_invalid_fields_before_actions() {
    for (source, context) in [
        ("schema_version='9.0.0'", "schema_version"),
        ("schema_version=1", "schema_version"),
        ("[module]\nurl='repo'\nfetch='always'\nfetchRecurse='never'", "conflicting aliases"),
        ("[defaults]\nignroe='all'", "ignroe"),
        ("[module]\nurl='repo'\nunknown=true", "unknown"),
        ("[module]\npath='child'", "url"),
        ("[module]\nurl='  '", "url"),
        ("[module]\nurl='repo'\npath='../outside'", "path"),
        ("[module]\nurl='repo'\npath='.'", "path"),
        ("[module]\nurl='repo'\npath='.git/config'", "path"),
        ("[module]\nurl='repo'\nactive='false'", "module"),
        ("[module]\nurl='repo'\nupdate='!evil'", "module"),
        ("[module]\nurl='repo'\nsparse_paths=[\"a\\nb\"]", "sparse_paths"),
        ("[module]\nurl='repo'\nsparse_paths=[true]", "module"),
        ("module=true", "module"),
    ] {
        let error = Config::parse(source).0.unwrap_err();
        assert!(error.contains(context), "{source}: {error}");
    }
}
// spellchecker:on

#[test]
fn sparse_patterns_have_one_authority() {
    let mut config = Config::parse("[module]\nurl='repo'\nsparse_paths=['src/']").0.unwrap();
    config.submodules.add_sparse_path("module", "docs/".into());
    let mut entry = config.get_submodule("module").unwrap().clone();
    assert_eq!(entry.sparse_paths.as_ref().unwrap().len(), 2);
    entry.sparse_paths = Some(vec!["lib/".into()]);
    config.submodules = config.submodules.add_submodule("module".into(), entry);
    assert_eq!(config.get_sparse_checkouts().next().unwrap().1, &vec!["lib/".to_string()]);
    let _ = config.submodules.remove_submodule("module");
    assert!(config.get_sparse_checkouts().next().is_none());
}

#[test]
fn test_config_toml_fetch_recurse_camelcase_key_is_parsed() {
    let toml_str = r#"
[defaults]
fetchRecurse = "always"

[mymod]
path = "libs/mymod"
url = "https://example.com/repo.git"
fetchRecurse = "never"
active = true
"#;
    let config = Config::parse(toml_str).0.unwrap();
    assert_eq!(
        config.defaults.fetch_recurse,
        Some(SerializableFetchRecurse::Always),
        "[defaults] fetchRecurse should parse into fetch_recurse"
    );
    let entry = config.submodules.get("mymod").unwrap();
    assert_eq!(
        entry.fetch_recurse,
        Some(SerializableFetchRecurse::Never),
        "per-submodule fetchRecurse should parse into fetch_recurse"
    );
}

#[test]
fn parse_reports_toml_syntax_errors_and_line_locations() {
    let (result, warnings) = Config::parse("[module\nurl='x'");
    assert!(result.is_err());
    assert!(warnings.is_empty());
    let (result, _) = Config::parse("[defaults]\nbranch='main'\n[module]\nurl='repo'\npath='../x'\n");
    assert_eq!(result.unwrap_err(), "[module].path (line 5): submodule path escapes the repository");
}
