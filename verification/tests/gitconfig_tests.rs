use submod::config::{Config, SubmoduleDefaults, SubmoduleEntry};
use submod::errors::SubmoduleError;
use submod::gitconfig::{
    config_key_regex_literal, managed_portable_fields, managed_settings,
    module_config_key_is_managed, preserve_unmanaged_module_config, ModuleConfigSnapshot,
};
use submod::options::{SerializableBranch, SerializableFetchRecurse, SerializableIgnore};

fn pair(k: &str, v: &str) -> (String, String) {
    (k.to_string(), v.to_string())
}

#[test]
fn managed_keys_ignore_ascii_case() {
    assert!(module_config_key_is_managed("lib", "submodule.lib.url"));
    assert!(module_config_key_is_managed("lib", "submodule.lib.FetchRecurseSubmodules"));
    assert!(module_config_key_is_managed("lib", "submodule.lib.ACTIVE"));
    assert!(!module_config_key_is_managed("lib", "submodule.lib.custom"));
    assert!(!module_config_key_is_managed("lib", "submodule.other.url"));
    assert!(!module_config_key_is_managed("lib", "submodule.lib.url.extra"));
}

#[test]
fn preserving_keeps_unmanaged_original_settings() {
    let desired = ModuleConfigSnapshot {
        local: vec![pair("submodule.m.url", "new"), pair("submodule.m.custom", "drop")],
        worktree: Some(vec![pair("submodule.m.active", "true")]),
    };
    let original = ModuleConfigSnapshot {
        local: vec![pair("submodule.m.url", "old"), pair("submodule.m.custom", "keep")],
        worktree: None,
    };
    let merged = preserve_unmanaged_module_config("m", &desired, &original);
    assert_eq!(merged.local, vec![pair("submodule.m.url", "new"), pair("submodule.m.custom", "keep")]);
    assert_eq!(merged.worktree, Some(vec![pair("submodule.m.active", "true")]));
    let again = preserve_unmanaged_module_config("m", &merged, &original);
    assert_eq!(again, merged);
}

#[test]
fn regex_literals_escape_special_characters() {
    assert_eq!(config_key_regex_literal("a.b"), "a\\.b");
    assert_eq!(config_key_regex_literal("x(y)[z]{1}+?*^$|\\"), "x\\(y\\)\\[z\\]\\{1\\}\\+\\?\\*\\^\\$\\|\\\\");
    assert_eq!(config_key_regex_literal("plain"), "plain");
}

#[test]
fn portable_fields_spell_values_as_git_does() {
    let mut e = SubmoduleEntry::new(
        Some("u".to_string()),
        None,
        Some(SerializableBranch::CurrentInSuperproject),
        Some(SerializableIgnore::Nothing),
        None,
        Some(SerializableFetchRecurse::Always),
        None,
        Some(false),
        None,
    );
    e.sparse_paths = None;
    let fields = managed_portable_fields(&e);
    assert_eq!(
        fields,
        vec![
            ("url", Some("u".to_string())),
            ("branch", Some(".".to_string())),
            ("ignore", Some("none".to_string())),
            ("update", None),
            ("fetchRecurseSubmodules", Some("true".to_string())),
            ("shallow", Some("false".to_string())),
        ]
    );
}

#[test]
fn managed_settings_fill_defaults() {
    let mut config = Config::default();
    config.defaults = SubmoduleDefaults {
        branch: Some(SerializableBranch::Name("main".to_string())),
        ignore: Some(SerializableIgnore::All),
        fetch_recurse: None,
        update: None,
        use_git_default_sparse_checkout: None,
    };
    config.add_submodule(
        "m".to_string(),
        SubmoduleEntry::new(Some("u".to_string()), None, None, None, None, None, None, None, None),
    );
    let e = managed_settings(&config, "m").unwrap();
    assert_eq!(e.branch, Some(SerializableBranch::Name("main".to_string())));
    assert_eq!(e.ignore, Some(SerializableIgnore::All));
    assert_eq!(e.active, Some(true));
    assert_eq!(e.path, None);
    match managed_settings(&config, "x") {
        Err(SubmoduleError::SubmoduleNotFound { name }) => assert_eq!(name, "x"),
        other => panic!("unexpected {other:?}"),
    }
}

#[test]
fn exit_codes_by_category() {
    assert_eq!(SubmoduleError::ConfigError("x".to_string()).exit_code(), 2);
    assert_eq!(SubmoduleError::InvalidPath("x".to_string()).exit_code(), 2);
    assert_eq!(SubmoduleError::SubmoduleNotFound { name: "x".to_string() }.exit_code(), 2);
    assert_eq!(SubmoduleError::CliError("x".to_string()).exit_code(), 1);
    assert_eq!(SubmoduleError::Drift("x".to_string()).exit_code(), 1);
}
