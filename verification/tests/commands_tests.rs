use submod::commands::{validate_invocation, CliProblem, Invocation, UnsetSetting};

fn settings(unset: Vec<UnsetSetting>, given: &[(UnsetSetting, bool)], global: bool) -> Invocation {
    Invocation::Settings { unset, supplied: given.to_vec(), global }
}

#[test]
fn unset_spellings() {
    assert_eq!(UnsetSetting::Branch.as_str(), "branch");
    assert_eq!(UnsetSetting::Fetch.as_str(), "fetch");
    assert_eq!(UnsetSetting::UseGitDefaultSparseCheckout.as_str(), "use-git-default-sparse-checkout");
}

#[test]
fn dry_run_only_for_mutating_commands() {
    assert_eq!(validate_invocation(true, &Invocation::ReadOnly), Err(CliProblem::DryRunReadOnly));
    assert_eq!(validate_invocation(false, &Invocation::ReadOnly), Ok(()));
    assert_eq!(validate_invocation(true, &Invocation::Other), Ok(()));
    assert_eq!(
        CliProblem::DryRunReadOnly.message(),
        "--dry-run is only valid for mutating commands"
    );
    assert!(CliProblem::DryRunReadOnly.is_conflict());
}

#[test]
fn unset_checks() {
    let inv = settings(vec![UnsetSetting::Branch, UnsetSetting::Branch], &[], false);
    let err = validate_invocation(false, &inv).unwrap_err();
    assert_eq!(err, CliProblem::DuplicateUnset(UnsetSetting::Branch));
    assert_eq!(err.message(), "Duplicate --unset setting: branch");
    let inv = settings(vec![UnsetSetting::Ignore], &[(UnsetSetting::Branch, true), (UnsetSetting::Ignore, true)], false);
    let err = validate_invocation(false, &inv).unwrap_err();
    assert_eq!(err.message(), "Cannot set and unset ignore together");
    let inv = settings(vec![UnsetSetting::Ignore], &[(UnsetSetting::Ignore, false)], false);
    assert_eq!(validate_invocation(false, &inv), Ok(()));
    let inv = settings(vec![UnsetSetting::Shallow], &[], true);
    let err = validate_invocation(false, &inv).unwrap_err();
    assert_eq!(err, CliProblem::UnsupportedGlobalUnset);
    assert_eq!(err.message(), "Unsupported global setting in --unset");
    assert!(!err.is_conflict());
    let inv = settings(vec![UnsetSetting::Shallow], &[], false);
    assert_eq!(validate_invocation(false, &inv), Ok(()));
}

#[test]
fn target_checks() {
    let inv = Invocation::Targets { names: vec!["a".to_string(), " ".to_string()] };
    assert_eq!(validate_invocation(false, &inv), Err(CliProblem::EmptyTarget));
    let inv = Invocation::Targets { names: vec!["a".to_string(), "b".to_string(), "a".to_string()] };
    let err = validate_invocation(false, &inv).unwrap_err();
    assert_eq!(err, CliProblem::DuplicateTarget("a".to_string()));
    assert_eq!(err.message(), "Duplicate submodule target: a");
    let inv = Invocation::Targets { names: vec!["a".to_string(), "b".to_string()] };
    assert_eq!(validate_invocation(false, &inv), Ok(()));
}
