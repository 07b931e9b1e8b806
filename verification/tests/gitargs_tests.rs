use submod::config::{SubmoduleAddOptions, SubmoduleUpdateOptions};
use submod::gitargs::{
    add_args, add_branch, added_gitmodules_fields, is_incomplete_materialization, removal_command_args,
    update_args,
    update_check, AddBranch, UpdateCheck,
};
use submod::options::{SerializableBranch, SerializableFetchRecurse, SerializableIgnore, SerializableUpdate};

fn add_options(branch: Option<SerializableBranch>, shallow: bool) -> SubmoduleAddOptions {
    SubmoduleAddOptions {
        name: "lib".to_string(),
        path: "vendor/lib".to_string(),
        url: "https://example.com/lib.git".to_string(),
        branch,
        ignore: None,
        update: None,
        fetch_recurse: None,
        shallow,
        no_init: false,
    }
}

#[test]
fn update_args_follow_strategy_and_flags() {
    let plain = SubmoduleUpdateOptions::new(SerializableUpdate::Checkout, false, false);
    assert_eq!(update_args(&plain, false), Some(vec!["submodule", "update", "--init", "--checkout", "--"]));
    let all = SubmoduleUpdateOptions {
        strategy: SerializableUpdate::Rebase,
        recursive: true,
        force: false,
        remote: true,
    };
    assert_eq!(
        update_args(&all, true),
        Some(vec!["submodule", "update", "--init", "--rebase", "--recursive", "--force", "--remote", "--"])
    );
    let merge = SubmoduleUpdateOptions::new(SerializableUpdate::Merge, false, true);
    assert_eq!(update_args(&merge, false), Some(vec!["submodule", "update", "--init", "--merge", "--force", "--"]));
    let unspecified = SubmoduleUpdateOptions::new(SerializableUpdate::Unspecified, false, false);
    assert_eq!(update_args(&unspecified, false).unwrap()[3], "--checkout");
    let none = SubmoduleUpdateOptions::new(SerializableUpdate::Nothing, true, true);
    assert_eq!(update_args(&none, true), None);
}

#[test]
fn update_check_per_strategy() {
    assert_eq!(update_check(SerializableUpdate::Checkout), UpdateCheck::HeadAtTarget);
    assert_eq!(update_check(SerializableUpdate::Unspecified), UpdateCheck::HeadAtTarget);
    assert_eq!(update_check(SerializableUpdate::Merge), UpdateCheck::TargetIsAncestor);
    assert_eq!(update_check(SerializableUpdate::Rebase), UpdateCheck::TargetIsAncestor);
    assert_eq!(update_check(SerializableUpdate::Nothing), UpdateCheck::Holds);
}

#[test]
fn incomplete_materialization_needs_only_staged_deletions() {
    assert!(is_incomplete_materialization("D  a.txt\nD  b/c.rs\n", ""));
    assert!(!is_incomplete_materialization("D  a.txt\n?? x\n", ""));
    assert!(!is_incomplete_materialization("D  a.txt\n", "100644 abc 0\ta.txt\n"));
    assert!(!is_incomplete_materialization("", ""));
    assert!(!is_incomplete_materialization("D  a\n\nD  b\n", ""));
}

#[test]
fn add_branch_choices() {
    assert_eq!(add_branch(&None), AddBranch::Omit);
    assert_eq!(add_branch(&Some(SerializableBranch::CurrentInSuperproject)), AddBranch::Current);
    assert_eq!(add_branch(&Some(SerializableBranch::Name("HEAD".to_string()))), AddBranch::Omit);
    assert_eq!(
        add_branch(&Some(SerializableBranch::Name("main".to_string()))),
        AddBranch::Named("main".to_string())
    );
}

#[test]
fn add_args_in_order() {
    let opts = add_options(None, false);
    assert_eq!(
        add_args(&opts, false, None),
        vec!["submodule", "add", "--name", "lib", "--", "https://example.com/lib.git", "vendor/lib"]
    );
    let opts = add_options(Some(SerializableBranch::Name("dev".to_string())), true);
    assert_eq!(
        add_args(&opts, true, Some("dev")),
        vec![
            "submodule", "add", "--name", "lib", "--force", "--branch", "dev", "--depth", "1", "--",
            "https://example.com/lib.git", "vendor/lib"
        ]
    );
}

#[test]
fn added_fields_skip_unset_and_empty() {
    let mut opts = add_options(Some(SerializableBranch::CurrentInSuperproject), true);
    opts.ignore = Some(SerializableIgnore::Unspecified);
    opts.update = Some(SerializableUpdate::Rebase);
    opts.fetch_recurse = Some(SerializableFetchRecurse::Never);
    assert_eq!(
        added_gitmodules_fields(&opts),
        vec![
            ("branch", ".".to_string()),
            ("update", "rebase".to_string()),
            ("fetchRecurseSubmodules", "false".to_string()),
            ("shallow", "true".to_string()),
        ]
    );
    assert!(added_gitmodules_fields(&add_options(None, false)).is_empty());
}

#[test]
fn removal_commands_for_committed_and_new_gitlinks() {
    let committed = removal_command_args(true, false, "lib", ":(literal)vendor/lib");
    assert_eq!(committed, vec![vec!["rm", "--", ":(literal)vendor/lib"]]);
    let forced = removal_command_args(true, true, "lib", ":(literal)vendor/lib");
    assert_eq!(forced, vec![vec!["rm", "--force", "--", ":(literal)vendor/lib"]]);
    let fresh = removal_command_args(false, true, "lib", ":(literal)vendor/lib");
    assert_eq!(
        fresh,
        vec![
            vec!["submodule", "deinit", "--force", "--", ":(literal)vendor/lib"],
            vec!["rm", "--cached", "--", ":(literal)vendor/lib"],
            vec!["config", "--file", ".gitmodules", "--remove-section", "submodule.lib"],
            vec!["add", "--", ".gitmodules"],
        ]
    );
}
