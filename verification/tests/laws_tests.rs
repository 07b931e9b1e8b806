use submod::config::{Config, SubmoduleDefaults, SubmoduleEntries, SubmoduleEntry};
use submod::options::{SerializableBranch, SerializableFetchRecurse, SerializableIgnore, SerializableUpdate};
use submod::options::GitmodulesConvert;
use submod::shells::Shell;

fn entry(branch: Option<SerializableBranch>) -> SubmoduleEntry {
    SubmoduleEntry::new(Some("repo".to_string()), None, branch, None, None, None, None, None, None)
}

fn config() -> Config {
    let defaults = SubmoduleDefaults {
        branch: Some(SerializableBranch::Name("main".to_string())),
        ignore: Some(SerializableIgnore::Dirty),
        fetch_recurse: None,
        update: None,
        use_git_default_sparse_checkout: Some(true),
    };
    let entries = SubmoduleEntries::default()
        .add_submodule("inherited".to_string(), entry(None))
        .add_submodule(
            "explicit".to_string(),
            entry(Some(SerializableBranch::Name("HEAD".to_string()))),
        );
    Config::new(defaults, entries)
}

#[test]
fn global_branch_is_inherited_and_explicit_head_kept() {
    let c = config();
    assert_eq!(c.get_submodule("inherited").unwrap().branch, None);
    assert_eq!(c.effective_entry("inherited").unwrap().branch, c.defaults.branch);
    assert_eq!(
        c.effective_entry("explicit").unwrap().branch,
        Some(SerializableBranch::Name("HEAD".to_string()))
    );
}

#[test]
fn effective_entry_fills_every_default() {
    let e = config().effective_entry("inherited").unwrap();
    assert_eq!(e.path.as_deref(), Some("inherited"));
    assert_eq!(e.ignore, Some(SerializableIgnore::Dirty));
    assert_eq!(e.update, Some(SerializableUpdate::Checkout));
    assert_eq!(e.fetch_recurse, Some(SerializableFetchRecurse::OnDemand));
    assert_eq!(e.use_git_default_sparse_checkout, Some(true));
    assert_eq!(e.active, Some(true));
    assert_eq!(e.shallow, Some(false));
    assert!(config().effective_entry("missing").is_none());
}

#[test]
fn resolution_is_stable_after_apply_defaults() {
    let c = config();
    let before: Vec<SubmoduleEntry> = ["inherited", "explicit"]
        .iter()
        .map(|n| c.effective_entry(n).unwrap())
        .collect();
    let applied = c.apply_defaults();
    for (i, n) in ["inherited", "explicit"].iter().enumerate() {
        assert_eq!(applied.get_submodule(n).unwrap(), &before[i]);
        assert_eq!(applied.effective_entry(n).unwrap(), before[i]);
    }
}

#[test]
fn empty_cli_overrides_change_nothing() {
    let mut c = config();
    c.merge_cli_overrides(Config::default());
    assert_eq!(c.defaults, config().defaults);
    assert_eq!(c.get_submodule("inherited"), config().get_submodule("inherited"));
    let mut cli = Config::default();
    cli.defaults.branch = Some(SerializableBranch::Name("develop".to_string()));
    cli.add_submodule("new".to_string(), entry(None));
    c.merge_cli_overrides(cli);
    assert_eq!(c.defaults.branch, Some(SerializableBranch::Name("develop".to_string())));
    assert_eq!(c.defaults.ignore, Some(SerializableIgnore::Dirty));
    assert!(c.get_submodule("new").is_some());
    assert!(c.get_submodule("explicit").is_some());
}

#[test]
fn shell_names_parse_back() {
    for sh in Shell::value_variants() {
        assert_eq!(sh.display_text().parse::<Shell>().unwrap(), sh);
    }
}

#[test]
fn spellings_round_trip() {
    for v in [SerializableIgnore::All, SerializableIgnore::Dirty, SerializableIgnore::Untracked, SerializableIgnore::Nothing] {
        assert_eq!(SerializableIgnore::from_gitmodules(&v.to_gitmodules()).unwrap(), v);
    }
    for v in [SerializableUpdate::Checkout, SerializableUpdate::Rebase, SerializableUpdate::Merge, SerializableUpdate::Nothing] {
        assert_eq!(SerializableUpdate::from_gitmodules(&v.to_gitmodules()).unwrap(), v);
    }
    for v in [SerializableFetchRecurse::OnDemand, SerializableFetchRecurse::Always, SerializableFetchRecurse::Never] {
        assert_eq!(SerializableFetchRecurse::from_gitmodules(&v.to_gitmodules()).unwrap(), v);
    }
}
