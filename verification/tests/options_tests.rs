use std::str::FromStr;

use submod::options::{
    GitmodulesConvert, OptionsChecks, SerializableBranch, SerializableFetchRecurse,
    SerializableIgnore, SerializableUpdate,
};

#[test]
fn test_serializable_ignore_gitmodules_key() {
    assert_eq!(SerializableIgnore::All.gitmodules_key(), "ignore");
    assert_eq!(SerializableIgnore::Dirty.gitmodules_key(), "ignore");
    assert_eq!(SerializableIgnore::Untracked.gitmodules_key(), "ignore");
    assert_eq!(SerializableIgnore::Nothing.gitmodules_key(), "ignore");
    assert_eq!(SerializableIgnore::Unspecified.gitmodules_key(), "ignore");
}

#[test]
fn test_serializable_ignore_to_gitmodules() {
    assert_eq!(SerializableIgnore::All.to_gitmodules(), "all");
    assert_eq!(SerializableIgnore::Dirty.to_gitmodules(), "dirty");
    assert_eq!(SerializableIgnore::Untracked.to_gitmodules(), "untracked");
    assert_eq!(SerializableIgnore::Nothing.to_gitmodules(), "none");
    assert_eq!(SerializableIgnore::Unspecified.to_gitmodules(), "");
}

#[test]
fn test_serializable_ignore_from_gitmodules() {
    assert_eq!(
        SerializableIgnore::from_gitmodules("all").unwrap(),
        SerializableIgnore::All
    );
    assert_eq!(
        SerializableIgnore::from_gitmodules("dirty").unwrap(),
        SerializableIgnore::Dirty
    );
    assert_eq!(
        SerializableIgnore::from_gitmodules("untracked").unwrap(),
        SerializableIgnore::Untracked
    );
    assert_eq!(
        SerializableIgnore::from_gitmodules("none").unwrap(),
        SerializableIgnore::Nothing
    );
    assert_eq!(
        SerializableIgnore::from_gitmodules("").unwrap(),
        SerializableIgnore::Unspecified
    );

    assert!(SerializableIgnore::from_gitmodules("invalid").is_err());
    assert!(SerializableIgnore::from_gitmodules("ALL").is_err());
}

#[test]
fn test_serializable_ignore_from_gitmodules_bytes() {
    assert_eq!(
        SerializableIgnore::from_gitmodules_bytes(b"all").unwrap(),
        SerializableIgnore::All
    );
    assert_eq!(
        SerializableIgnore::from_gitmodules_bytes(b"dirty").unwrap(),
        SerializableIgnore::Dirty
    );
    assert_eq!(
        SerializableIgnore::from_gitmodules_bytes(b"untracked").unwrap(),
        SerializableIgnore::Untracked
    );
    assert_eq!(
        SerializableIgnore::from_gitmodules_bytes(b"none").unwrap(),
        SerializableIgnore::Nothing
    );
    assert_eq!(
        SerializableIgnore::from_gitmodules_bytes(b"").unwrap(),
        SerializableIgnore::Unspecified
    );

    assert!(SerializableIgnore::from_gitmodules_bytes(b"invalid").is_err());

    // Invalid UTF-8
    assert!(SerializableIgnore::from_gitmodules_bytes(&[0xFF, 0xFE, 0xFD]).is_err());
}

#[test]
fn test_ignore_display() {
    assert_eq!(SerializableIgnore::All.display_text(), "all");
    assert_eq!(SerializableIgnore::Dirty.display_text(), "dirty");
    assert_eq!(SerializableIgnore::Untracked.display_text(), "untracked");
    assert_eq!(SerializableIgnore::Nothing.display_text(), "none");
    assert_eq!(SerializableIgnore::Unspecified.display_text(), "");
}

#[test]
fn test_ignore_options_checks() {
    assert!(SerializableIgnore::Unspecified.is_unspecified());
    assert!(!SerializableIgnore::All.is_unspecified());
    assert!(!SerializableIgnore::Nothing.is_unspecified());

    assert!(SerializableIgnore::Nothing.is_default());
    assert!(!SerializableIgnore::All.is_default());
    assert!(!SerializableIgnore::Unspecified.is_default());
}

#[test]
fn test_ignore_gitmodules_key_path() {
    assert_eq!(
        SerializableIgnore::All.gitmodules_key_path("mymod"),
        "submodule.mymod.ignore"
    );
}

#[test]
fn test_fetch_recurse_gitmodules_key() {
    assert_eq!(
        SerializableFetchRecurse::OnDemand.gitmodules_key(),
        "fetchRecurseSubmodules"
    );
}

#[test]
fn test_fetch_recurse_to_gitmodules() {
    assert_eq!(
        SerializableFetchRecurse::OnDemand.to_gitmodules(),
        "on-demand"
    );
    assert_eq!(SerializableFetchRecurse::Always.to_gitmodules(), "true");
    assert_eq!(SerializableFetchRecurse::Never.to_gitmodules(), "false");
    assert_eq!(
        SerializableFetchRecurse::Unspecified.to_gitmodules(),
        "on-demand"
    );
}

#[test]
fn test_fetch_recurse_from_gitmodules() {
    assert_eq!(
        SerializableFetchRecurse::from_gitmodules("on-demand").unwrap(),
        SerializableFetchRecurse::OnDemand
    );
    assert_eq!(
        SerializableFetchRecurse::from_gitmodules("true").unwrap(),
        SerializableFetchRecurse::Always
    );
    assert_eq!(
        SerializableFetchRecurse::from_gitmodules("false").unwrap(),
        SerializableFetchRecurse::Never
    );
    assert_eq!(
        SerializableFetchRecurse::from_gitmodules("").unwrap(),
        SerializableFetchRecurse::Unspecified
    );
    assert!(SerializableFetchRecurse::from_gitmodules("invalid").is_err());
    assert!(SerializableFetchRecurse::from_gitmodules("ON-DEMAND").is_err());
}

#[test]
fn test_fetch_recurse_from_gitmodules_bytes() {
    assert_eq!(
        SerializableFetchRecurse::from_gitmodules_bytes(b"on-demand").unwrap(),
        SerializableFetchRecurse::OnDemand
    );
    assert_eq!(
        SerializableFetchRecurse::from_gitmodules_bytes(b"true").unwrap(),
        SerializableFetchRecurse::Always
    );
    assert!(SerializableFetchRecurse::from_gitmodules_bytes(&[0xFF]).is_err());
}

#[test]
fn test_fetch_recurse_options_checks() {
    assert!(SerializableFetchRecurse::Unspecified.is_unspecified());
    assert!(!SerializableFetchRecurse::OnDemand.is_unspecified());

    assert!(SerializableFetchRecurse::OnDemand.is_default());
    assert!(!SerializableFetchRecurse::Always.is_default());
}

#[test]
fn test_fetch_recurse_display() {
    assert_eq!(
        SerializableFetchRecurse::OnDemand.display_text(),
        "on-demand"
    );
    assert_eq!(SerializableFetchRecurse::Always.display_text(), "true");
    assert_eq!(SerializableFetchRecurse::Never.display_text(), "false");
}

#[test]
fn test_fetch_recurse_gitmodules_key_path() {
    assert_eq!(
        SerializableFetchRecurse::Always.gitmodules_key_path("sub1"),
        "submodule.sub1.fetchRecurseSubmodules"
    );
}

#[test]
fn test_branch_from_str_aliases() {
    assert_eq!(
        SerializableBranch::from_str(".").unwrap(),
        SerializableBranch::CurrentInSuperproject
    );
    assert_eq!(
        SerializableBranch::from_str("current").unwrap(),
        SerializableBranch::CurrentInSuperproject
    );
    assert_eq!(
        SerializableBranch::from_str("current-in-super-project").unwrap(),
        SerializableBranch::CurrentInSuperproject
    );
    assert_eq!(
        SerializableBranch::from_str("superproject").unwrap(),
        SerializableBranch::CurrentInSuperproject
    );
    assert_eq!(
        SerializableBranch::from_str("super").unwrap(),
        SerializableBranch::CurrentInSuperproject
    );
}

#[test]
fn test_branch_from_str_named() {
    assert_eq!(
        SerializableBranch::from_str("main").unwrap(),
        SerializableBranch::Name("main".to_string())
    );
    assert_eq!(
        SerializableBranch::from_str("develop").unwrap(),
        SerializableBranch::Name("develop".to_string())
    );
    assert_eq!(
        SerializableBranch::from_str("feature/my-feature").unwrap(),
        SerializableBranch::Name("feature/my-feature".to_string())
    );
}

#[test]
fn test_branch_display() {
    assert_eq!(
        SerializableBranch::CurrentInSuperproject.display_text(),
        "."
    );
    assert_eq!(
        SerializableBranch::Name("main".to_string()).display_text(),
        "main"
    );
}

#[test]
fn test_branch_to_gitmodules() {
    assert_eq!(
        SerializableBranch::CurrentInSuperproject.to_gitmodules(),
        "."
    );
    assert_eq!(
        SerializableBranch::Name("develop".to_string()).to_gitmodules(),
        "develop"
    );
}

#[test]
fn test_branch_gitmodules_key() {
    assert_eq!(
        SerializableBranch::CurrentInSuperproject.gitmodules_key(),
        "branch"
    );
}

#[test]
fn test_branch_from_gitmodules_aliases() {
    assert_eq!(
        SerializableBranch::from_gitmodules(".").unwrap(),
        SerializableBranch::CurrentInSuperproject
    );
    assert_eq!(
        SerializableBranch::from_gitmodules("current").unwrap(),
        SerializableBranch::CurrentInSuperproject
    );
    assert_eq!(
        SerializableBranch::from_gitmodules("superproject").unwrap(),
        SerializableBranch::CurrentInSuperproject
    );
    assert_eq!(
        SerializableBranch::from_gitmodules("super").unwrap(),
        SerializableBranch::CurrentInSuperproject
    );
}

#[test]
fn test_branch_from_gitmodules_named() {
    assert_eq!(
        SerializableBranch::from_gitmodules("main").unwrap(),
        SerializableBranch::Name("main".to_string())
    );
}

#[test]
fn test_branch_from_gitmodules_empty_is_err() {
    assert!(SerializableBranch::from_gitmodules("").is_err());
    assert!(SerializableBranch::from_gitmodules("   ").is_err());
}

#[test]
fn test_branch_from_gitmodules_bytes() {
    assert_eq!(
        SerializableBranch::from_gitmodules_bytes(b".").unwrap(),
        SerializableBranch::CurrentInSuperproject
    );
    assert_eq!(
        SerializableBranch::from_gitmodules_bytes(b"main").unwrap(),
        SerializableBranch::Name("main".to_string())
    );
    assert!(SerializableBranch::from_gitmodules_bytes(&[0xFF]).is_err());
}

#[test]
fn test_branch_set_branch_with_name() {
    let result = SerializableBranch::set_branch(Some("develop".to_string())).unwrap();
    assert_eq!(result, SerializableBranch::Name("develop".to_string()));
}

#[test]
fn test_branch_set_branch_with_alias() {
    let result = SerializableBranch::set_branch(Some(".".to_string())).unwrap();
    assert_eq!(result, SerializableBranch::CurrentInSuperproject);

    let result = SerializableBranch::set_branch(Some("super".to_string())).unwrap();
    assert_eq!(result, SerializableBranch::CurrentInSuperproject);
}

#[test]
fn test_branch_set_branch_empty_returns_default() {
    let result = SerializableBranch::set_branch(Some("".to_string())).unwrap();
    // Empty string → default
    assert_eq!(result, SerializableBranch::default());
}

#[test]
fn test_branch_set_branch_none_returns_default() {
    let result = SerializableBranch::set_branch(None).unwrap();
    assert_eq!(result, SerializableBranch::default());
}

#[test]
fn test_branch_set_branch_trims_whitespace() {
    let result = SerializableBranch::set_branch(Some("  main  ".to_string())).unwrap();
    assert_eq!(result, SerializableBranch::Name("main".to_string()));
}

#[test]
fn test_branch_gitmodules_key_path() {
    assert_eq!(
        SerializableBranch::Name("main".to_string()).gitmodules_key_path("mymod"),
        "submodule.mymod.branch"
    );
}

#[test]
fn test_update_gitmodules_key() {
    assert_eq!(SerializableUpdate::Checkout.gitmodules_key(), "update");
}

#[test]
fn test_update_to_gitmodules() {
    assert_eq!(SerializableUpdate::Checkout.to_gitmodules(), "checkout");
    assert_eq!(SerializableUpdate::Rebase.to_gitmodules(), "rebase");
    assert_eq!(SerializableUpdate::Merge.to_gitmodules(), "merge");
    assert_eq!(SerializableUpdate::Nothing.to_gitmodules(), "none");
    assert_eq!(SerializableUpdate::Unspecified.to_gitmodules(), "");
}

#[test]
fn test_update_from_gitmodules() {
    assert_eq!(
        SerializableUpdate::from_gitmodules("checkout").unwrap(),
        SerializableUpdate::Checkout
    );
    assert_eq!(
        SerializableUpdate::from_gitmodules("rebase").unwrap(),
        SerializableUpdate::Rebase
    );
    assert_eq!(
        SerializableUpdate::from_gitmodules("merge").unwrap(),
        SerializableUpdate::Merge
    );
    assert_eq!(
        SerializableUpdate::from_gitmodules("none").unwrap(),
        SerializableUpdate::Nothing
    );
    assert_eq!(
        SerializableUpdate::from_gitmodules("").unwrap(),
        SerializableUpdate::Unspecified
    );
    assert!(SerializableUpdate::from_gitmodules("invalid").is_err());
}

#[test]
fn test_update_from_gitmodules_bytes() {
    assert_eq!(
        SerializableUpdate::from_gitmodules_bytes(b"checkout").unwrap(),
        SerializableUpdate::Checkout
    );
    assert_eq!(
        SerializableUpdate::from_gitmodules_bytes(b"rebase").unwrap(),
        SerializableUpdate::Rebase
    );
    assert!(SerializableUpdate::from_gitmodules_bytes(&[0xFF]).is_err());
}

#[test]
fn test_update_options_checks() {
    assert!(SerializableUpdate::Unspecified.is_unspecified());
    assert!(!SerializableUpdate::Checkout.is_unspecified());

    assert!(SerializableUpdate::Checkout.is_default());
    assert!(!SerializableUpdate::Rebase.is_default());
}

#[test]
fn test_update_display() {
    assert_eq!(SerializableUpdate::Checkout.display_text(), "checkout");
    assert_eq!(SerializableUpdate::Rebase.display_text(), "rebase");
    assert_eq!(SerializableUpdate::Merge.display_text(), "merge");
    assert_eq!(SerializableUpdate::Nothing.display_text(), "none");
    assert_eq!(SerializableUpdate::Unspecified.display_text(), "");
}

#[test]
fn test_update_gitmodules_key_path() {
    assert_eq!(
        SerializableUpdate::Checkout.gitmodules_key_path("sub1"),
        "submodule.sub1.update"
    );
}

#[test]
fn test_branch_default() {
    let default = SerializableBranch::default();
    // Default should be a Name variant (the default for an unset branch)
    match &default {
        SerializableBranch::Name(_) => {} // expected
        SerializableBranch::CurrentInSuperproject => {
            // also acceptable
        }
    }
}

#[test]
fn current_in_superproject_falls_back_to_alias() {
    assert_eq!(SerializableBranch::current_in_superproject(None), Err(()));
    assert_eq!(
        SerializableBranch::current_in_superproject(Some(None)),
        Ok("current-in-super-project".to_string())
    );
    assert_eq!(
        SerializableBranch::current_in_superproject(Some(Some("main".to_string()))),
        Ok("main".to_string())
    );
}
