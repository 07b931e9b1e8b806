use submod::add::{add_preview_line, check_addable, plan_add, AddRequest};
use submod::batch::{operation_name, preflight_check, reconcile_action, BatchRun, PreflightCheck, ReconcileAction};
use submod::check::{check_line, check_module, check_verdict, skip_reason, CheckFacts, CheckOutcome, SkipReason};
use submod::config::{Config, SubmoduleDefaults, SubmoduleEntries, SubmoduleEntry};
use submod::errors::SubmoduleError;
use submod::init::{init_target, init_update_options, plan_init, InitFacts, InitStep};
use submod::nuke::{
    add_options_for, nuke_failure_report, nuke_order, nuke_plan, nuke_preview_line,
    nuke_summary_line, rebuild_update_options, removed_line, select_nuke_targets,
    select_reset_targets,
};
use submod::options::{SerializableBranch, SerializableFetchRecurse, SerializableIgnore, SerializableUpdate};
use submod::order::{sort_texts, text_less};
use submod::plan::{ModuleOutcomeKind, OperationSummary, ReconcilePlan, ReconcileScope};
use submod::report::{list_report, registration_first_order, unmanaged_line, unmanaged_paths};
use submod::sparse::SparseStatus;
use submod::status::{status_flags_from_raw, SubmoduleStatusFlags, IN_CONFIG, IN_HEAD, WD_UNTRACKED};
use submod::commands::UnsetSetting;
use submod::report::{change_preview_line, delete_preview_line, done_line, global_preview_line};

fn s(x: &str) -> String {
    x.to_string()
}

fn entry(path: Option<&str>, url: Option<&str>) -> SubmoduleEntry {
    let mut e = SubmoduleEntry::new(
        url.map(s),
        path.map(s),
        None,
        None,
        None,
        None,
        None,
        None,
        None,
    );
    e.sparse_paths = None;
    e.active = None;
    e.shallow = None;
    e.no_init = None;
    e
}

fn config_with(entries: Vec<(&str, SubmoduleEntry)>) -> Config {
    let mut subs = SubmoduleEntries::default();
    for (n, e) in entries {
        subs = subs.add_submodule(s(n), e);
    }
    Config::new(SubmoduleDefaults::default(), subs)
}

fn facts() -> CheckFacts {
    CheckFacts {
        path_exists: true,
        git_exists: true,
        checkout_empty: false,
        registered: true,
        pinned: true,
        metadata_matches: true,
        update_matches: true,
        clean: true,
        sparse: SparseStatus::NotEnabled,
    }
}

fn plan(name: &str, kind: ModuleOutcomeKind, detail: &str) -> ReconcilePlan {
    ReconcilePlan {
        name: s(name),
        path: format!("libs/{name}"),
        kind,
        detail: s(detail),
        target: None,
        verbose_detail: None,
        registration_changed: false,
        metadata_changed: false,
        sparse_changed: false,
        remote_requested: false,
        recursive_requested: false,
        initial_head: None,
        initial_recursive_state: None,
    }
}

#[test]
fn check_reports_unchanged_module() {
    let e = entry(Some("libs/a"), Some("https://x/a.git"));
    let o = check_module(&e, &facts());
    assert_eq!(o, CheckOutcome::Unchanged);
    assert_eq!(check_line("a", "libs/a", &o), "a: unchanged (matches configured state)");
}

#[test]
fn check_reports_missing_checkout_as_drift() {
    let e = entry(Some("libs/a"), Some("https://x/a.git"));
    let mut f = facts();
    f.path_exists = false;
    let o = check_module(&e, &f);
    assert_eq!(o, CheckOutcome::Drift(vec![s("checkout is missing")]));
    assert_eq!(check_line("a", "libs/a", &o), "a: drift: checkout is missing");
}

#[test]
fn check_skips_absent_disabled_module() {
    let mut e = entry(Some("libs/a"), Some("https://x/a.git"));
    e.active = Some(false);
    let mut f = facts();
    f.path_exists = false;
    assert_eq!(skip_reason(&e), Some(SkipReason::Disabled));
    let o = check_module(&e, &f);
    assert_eq!(o, CheckOutcome::NotMaterialized(SkipReason::Disabled));
    assert_eq!(
        check_line("a", "libs/a", &o),
        "a: skipped-disabled at libs/a (not materialized)"
    );
}

#[test]
fn check_skipped_policy_module_with_matching_metadata() {
    let mut e = entry(Some("libs/a"), Some("https://x/a.git"));
    e.update = Some(SerializableUpdate::Nothing);
    let mut f = facts();
    f.update_matches = false;
    let o = check_module(&e, &f);
    assert_eq!(o, CheckOutcome::SkippedMatching(SkipReason::UpdateNone));
    assert_eq!(
        check_line("a", "libs/a", &o),
        "a: skipped-update-none (inspectable metadata matches)"
    );
}

#[test]
fn check_lists_every_issue_in_order() {
    let e = entry(Some("libs/a"), Some("https://x/a.git"));
    let f = CheckFacts {
        path_exists: true,
        git_exists: true,
        checkout_empty: false,
        registered: false,
        pinned: true,
        metadata_matches: false,
        update_matches: false,
        clean: false,
        sparse: SparseStatus::Mismatch { expected: vec![s("!/*"), s("src")], actual: vec![s("docs")] },
    };
    let o = check_module(&e, &f);
    assert_eq!(
        check_line("a", "libs/a", &o),
        "a: drift: portable Git registration is missing; managed Git metadata differs; checkout does not satisfy its parent-pin strategy; working tree has changes; sparse patterns differ (expected [\"!/*\", \"src\"], current [\"docs\"])"
    );
}

#[test]
fn check_not_a_repository_when_checkout_has_files() {
    let mut e = entry(Some("libs/a"), Some("https://x/a.git"));
    e.active = Some(false);
    let mut f = facts();
    f.git_exists = false;
    f.checkout_empty = false;
    let o = check_module(&e, &f);
    assert_eq!(o, CheckOutcome::Drift(vec![s("checkout is not a Git repository")]));
}

#[test]
fn check_verdict_counts_and_names_drift() {
    assert!(check_verdict(&vec![]).is_ok());
    match check_verdict(&vec![s("a"), s("b")]) {
        Err(SubmoduleError::Drift(m)) => assert_eq!(m, "2 managed submodule(s) have drift: a, b"),
        _ => panic!("expected drift"),
    }
}

#[test]
fn batch_actions_follow_scope() {
    let mut p = plan("a", ModuleOutcomeKind::Unchanged, "ok");
    assert_eq!(reconcile_action(ReconcileScope::Sync, false, &p), ReconcileAction::Nothing);
    p.kind = ModuleOutcomeKind::Changed;
    assert_eq!(reconcile_action(ReconcileScope::Init, false, &p), ReconcileAction::Init);
    assert_eq!(
        reconcile_action(ReconcileScope::Update, true, &p),
        ReconcileAction::Update { remote: true }
    );
    p.registration_changed = true;
    assert_eq!(
        reconcile_action(ReconcileScope::Update, true, &p),
        ReconcileAction::InitThenUpdate { remote: true }
    );
    assert_eq!(reconcile_action(ReconcileScope::Update, false, &p), ReconcileAction::Init);
    assert_eq!(
        reconcile_action(ReconcileScope::Sync, true, &p),
        ReconcileAction::InitThenUpdate { remote: false }
    );
    assert_eq!(operation_name(ReconcileScope::Init, false), "Initialization");
    assert_eq!(operation_name(ReconcileScope::Sync, true), "Sync incomplete");
}

#[test]
fn batch_failure_marks_failed_and_pending() {
    let plans = vec![
        plan("a", ModuleOutcomeKind::Changed, "init a"),
        plan("b", ModuleOutcomeKind::Changed, "init b"),
        plan("c", ModuleOutcomeKind::Changed, "init c"),
    ];
    let mut run = BatchRun::start(ReconcileScope::Init, false, plans);
    let first = run.current().unwrap().0.clone();
    run.record_success(first, false);
    let err = run.record_failure("boom");
    match err {
        SubmoduleError::IncompleteBatch { summary, cause } => {
            assert_eq!(summary.operation(), "Initialization incomplete");
            let ms = summary.modules();
            assert_eq!(ms.len(), 3);
            assert_eq!(ms[0].kind, ModuleOutcomeKind::Changed);
            assert_eq!(ms[1].kind, ModuleOutcomeKind::Failed);
            assert_eq!(
                ms[1].detail,
                "Init failed while attempting init b: boom; repair the reported cause and retry"
            );
            assert_eq!(ms[2].kind, ModuleOutcomeKind::Pending);
            assert_eq!(ms[2].detail, "not attempted; planned action: init c");
            assert_eq!(cause, "module \"b\" failed during Init at \"libs/b\": boom");
        }
        _ => panic!("expected an incomplete batch"),
    }
}

#[test]
fn batch_unresolved_policy_skip_is_incomplete() {
    let plans = vec![plan("a", ModuleOutcomeKind::SkippedPolicy, "skipped")];
    let mut run = BatchRun::start(ReconcileScope::Sync, false, plans);
    let p = run.current().unwrap().0.clone();
    run.record_success(p, true);
    assert!(run.current().is_none());
    match run.finish() {
        Err(SubmoduleError::IncompleteBatch { summary, cause }) => {
            assert_eq!(summary.operation(), "Sync incomplete");
            assert_eq!(
                summary.modules()[0].detail,
                "skipped; checkout changes were preserved and remain unresolved by this policy"
            );
            assert_eq!(
                cause,
                "local changes remain in policy-skipped module(s) a; preserve or resolve them explicitly"
            );
        }
        _ => panic!("expected an incomplete batch"),
    }
}

#[test]
fn batch_completes_with_summary() {
    let plans = vec![plan("a", ModuleOutcomeKind::Unchanged, "matched")];
    let mut run = BatchRun::start(ReconcileScope::Update, false, plans);
    let p = run.current().unwrap().0.clone();
    run.record_success(p, false);
    let summary = run.finish().unwrap();
    assert_eq!(summary.operation(), "Update");
    assert_eq!(
        summary.render(),
        "a at libs/a: unchanged: matched\nUpdate summary: 0 changed, 1 unchanged, 0 skipped, 0 failed, 0 pending.\n"
    );
}

#[test]
fn summary_render_empty_and_with_target() {
    let empty = OperationSummary::new("Sync", true, vec![]);
    assert_eq!(empty.render(), "No submodules configured.\n");
    let mut p = plan("a", ModuleOutcomeKind::Changed, "moved");
    p.target = Some(s("abc"));
    p.verbose_detail = Some(s("head=1"));
    let summary = OperationSummary::new("Sync", true, vec![p]);
    assert_eq!(
        summary.render(),
        "a at libs/a: would-change: moved (target abc)\n  head=1\nSync summary: 1 changed, 0 unchanged, 0 skipped, 0 failed, 0 pending.\n"
    );
}

#[test]
fn text_order_is_string_order() {
    assert!(text_less("a", "b"));
    assert!(text_less("a", "ab"));
    assert!(!text_less("b", "a"));
    assert!(!text_less("a", "a"));
    assert!(text_less("Z", "a"));
    let v = vec![s("pear"), s("apple"), s("fig"), s("apple")];
    assert_eq!(sort_texts(&v), vec![s("apple"), s("apple"), s("fig"), s("pear")]);
}

#[test]
fn nuke_selection_sorts_and_rejects() {
    let c = config_with(vec![
        ("b", entry(Some("libs/b"), Some("https://x/b.git"))),
        ("a", entry(None, Some("https://x/a.git"))),
    ]);
    assert_eq!(select_nuke_targets(&c, true, None).unwrap(), vec![s("a"), s("b")]);
    match select_nuke_targets(&c, false, None) {
        Err(SubmoduleError::ConfigError(m)) => {
            assert_eq!(m, "No submodules specified. Use --all or provide names.")
        }
        _ => panic!("expected an error"),
    }
    match select_nuke_targets(&c, false, Some(vec![s("b"), s("a"), s("b")])) {
        Err(SubmoduleError::ConfigError(m)) => {
            assert_eq!(m, "Duplicate submodule target in nuke selection")
        }
        _ => panic!("expected an error"),
    }
    match select_reset_targets(&c, false, vec![]) {
        Err(SubmoduleError::ConfigError(m)) => assert_eq!(m, "No submodules specified for reset"),
        _ => panic!("expected an error"),
    }
    assert_eq!(
        select_reset_targets(&c, false, vec![s("b"), s("zz")]).unwrap(),
        vec![s("b"), s("zz")]
    );
}

#[test]
fn nuke_plans_order_and_report() {
    let c = config_with(vec![
        ("a", entry(Some("libs/a"), Some("https://x/a.git"))),
        ("b", entry(None, Some("https://x/b.git"))),
    ]);
    let pa = nuke_plan(&c, "a", Some(s("reg-a")));
    let pb = nuke_plan(&c, "b", None);
    assert!(pa.registered);
    assert_eq!(pa.options.name, "reg-a");
    assert_eq!(pa.options.path, "libs/a");
    assert_eq!(pb.options.name, "b");
    assert_eq!(pb.options.path, "b");
    let order = nuke_order(vec![pa.clone(), pb.clone()], false);
    assert_eq!(order[0].name, "b");
    assert_eq!(order[1].name, "a");
    let kept = nuke_order(vec![pa.clone(), pb], true);
    assert_eq!(kept[0].name, "a");
    assert_eq!(
        nuke_preview_line(&pa, false, true),
        "Would rebuild submodule 'a' at 'libs/a', discarding selected checkout content while retaining its declaration, parent pin, and repository history."
    );
    assert_eq!(
        nuke_preview_line(&pa, true, false),
        "Would permanently remove submodule 'a' at 'libs/a' and retain only its recoverable Git repository."
    );
    assert_eq!(nuke_summary_line(2), "Nuke summary: 2 changed, 0 unchanged, 0 skipped, 0 failed.");
    assert_eq!(
        removed_line("a"),
        "a: changed: removed its checkout, Git registration, and TOML declaration; retained repository history remains recoverable"
    );
    let report = nuke_failure_report(&vec![s("a")], "b", "oops", &vec![s("c"), s("d")], true);
    assert_eq!(report.len(), 5);
    assert_eq!(report[1], "  completed: a");
    assert_eq!(report[2], "  failed: b: oops");
    assert_eq!(report[3], "  pending: c, d");
    assert!(add_options_for(&c, "zz").is_err());
    assert_eq!(add_options_for(&c, "b").unwrap().url, "https://x/b.git");
}

#[test]
fn rebuild_replaces_update_none_with_checkout() {
    let mut e = entry(Some("libs/a"), Some("https://x/a.git"));
    e.update = Some(SerializableUpdate::Nothing);
    assert_eq!(rebuild_update_options(&e).strategy, SerializableUpdate::Checkout);
    e.update = Some(SerializableUpdate::Rebase);
    assert_eq!(rebuild_update_options(&e).strategy, SerializableUpdate::Rebase);
}

#[test]
fn init_steps_for_each_situation() {
    let c = config_with(vec![
        ("a", entry(Some("libs/a"), Some("https://x/a.git"))),
        ("nourl", entry(Some("libs/n"), None)),
    ]);
    match init_target(&c, "nourl") {
        Err(SubmoduleError::ConfigError(m)) => assert_eq!(m, "No URL configured for submodule"),
        _ => panic!("expected an error"),
    }
    assert!(matches!(init_target(&c, "zz"), Err(SubmoduleError::SubmoduleNotFound { .. })));
    let e = init_target(&c, "a").unwrap();
    let fresh = InitFacts { registered: false, pinned: false, checkout_present: false };
    assert_eq!(
        plan_init(&e, fresh, false),
        vec![InitStep::AddRegistration, InitStep::SyncSettings, InitStep::ConfigureSparse]
    );
    let restored = InitFacts { registered: false, pinned: true, checkout_present: false };
    assert_eq!(
        plan_init(&e, restored, true),
        vec![
            InitStep::RestoreRegistration,
            InitStep::SyncSettings,
            InitStep::InitRegistered,
            InitStep::Update { recursive: true },
            InitStep::SyncSettings,
            InitStep::ConfigureSparse,
        ]
    );
    let present = InitFacts { registered: true, pinned: true, checkout_present: true };
    assert_eq!(
        plan_init(&e, present, false),
        vec![
            InitStep::VerifyCheckout,
            InitStep::SyncSettings,
            InitStep::Update { recursive: false },
            InitStep::ConfigureSparse,
        ]
    );
    let mut off = e.clone();
    off.active = Some(false);
    let unpinned = InitFacts { registered: true, pinned: false, checkout_present: false };
    assert_eq!(plan_init(&off, unpinned, false), vec![InitStep::SyncSettings]);
    assert_eq!(init_update_options(&e, true).strategy, SerializableUpdate::Checkout);
    assert!(init_update_options(&e, true).recursive);
}

#[test]
fn add_plan_and_preview() {
    let c = config_with(vec![("a", entry(Some("libs/a"), Some("https://x/a.git")))]);
    match check_addable(&c, "a") {
        Err(SubmoduleError::ConfigError(m)) => assert_eq!(m, "submodule \"a\" is already declared"),
        _ => panic!("expected an error"),
    }
    assert!(check_addable(&c, "b").is_ok());
    let mut d = SubmoduleDefaults::default();
    d.ignore = Some(SerializableIgnore::Dirty);
    let q = AddRequest {
        name: s("b"),
        path: s("libs/b"),
        url: s("https://x/b.git"),
        sparse_paths: None,
        branch: Some(SerializableBranch::Name(s("dev"))),
        ignore: None,
        fetch_recurse: Some(SerializableFetchRecurse::Never),
        update: Some(SerializableUpdate::Nothing),
        shallow: Some(true),
        no_init: false,
        use_git_default_sparse_checkout: None,
    };
    let p = plan_add(&d, q);
    assert_eq!(p.options.ignore, Some(SerializableIgnore::Dirty));
    assert!(p.options.shallow);
    assert_eq!(p.raw_entry.ignore, None);
    assert_eq!(p.managed.active, Some(true));
    assert_eq!(
        add_preview_line(&p),
        "b at libs/b: would-change: clone from https://x/b.git using branch dev, stage its .gitmodules registration and resulting gitlink, reconcile managed Git settings, and write the TOML declaration; the explicit add still creates this initial checkout despite update=none."
    );
}

#[test]
fn list_and_unmanaged_reports() {
    let mut off = entry(None, None);
    off.active = Some(false);
    let c = config_with(vec![
        ("b", entry(Some("libs/b"), Some("https://x/b.git"))),
        ("a", off),
    ]);
    let found = vec![(s("x/y"), false), (s("libs/b"), true), (s("x/y"), true)];
    assert_eq!(
        list_report(&c, true, &found),
        vec![
            s("Submodules:"),
            s("  a [disabled]"),
            s("    path: a"),
            s("    url:  <no url>"),
            s("  b [active]"),
            s("    path: libs/b"),
            s("    url:  https://x/b.git"),
            s("Additional submodules found in Git:"),
            s("  x/y [not inspected: checkout is uninitialized]"),
            s("Recursive inspection skipped for uninitialized checkouts:"),
            s("  x/y"),
        ]
    );
    let empty = config_with(vec![]);
    assert_eq!(list_report(&empty, false, &vec![]), vec![s("No submodules configured.")]);
    assert_eq!(
        unmanaged_paths(&c, &vec![s("z"), s("libs/b"), s("a"), s("m")]),
        vec![s("m"), s("z")]
    );
    assert_eq!(unmanaged_line("m"), "Unmanaged Git submodule preserved: m");
    assert_eq!(
        registration_first_order(&vec![s("a"), s("b"), s("c")], &vec![false, true, false]),
        vec![s("b"), s("a"), s("c")]
    );
}

#[test]
fn status_flags_keep_known_bits() {
    let flags = status_flags_from_raw(IN_HEAD | WD_UNTRACKED | (1 << 20));
    assert_eq!(flags.bits(), IN_HEAD | WD_UNTRACKED);
    assert!(flags.contains(IN_HEAD));
    assert!(!flags.contains(IN_CONFIG));
    let mut empty = SubmoduleStatusFlags::empty();
    empty.insert(IN_CONFIG | (1 << 30));
    assert_eq!(empty.bits(), IN_CONFIG);
    assert_eq!(SubmoduleStatusFlags::from_bits_truncate(u32::MAX).bits(), 16383);
}

#[test]
fn lifecycle_preview_lines() {
    assert_eq!(
        delete_preview_line("a", "libs/a", true, false),
        "Would delete submodule 'a' at 'libs/a': remove its checkout, registration, and declaration while retaining its repository."
    );
    assert_eq!(
        delete_preview_line("a", "libs/a", false, true),
        "Would delete submodule 'a' at 'libs/a': remove only its config declaration."
    );
    assert_eq!(
        change_preview_line("a", Some(("old", "new"))),
        "Would change submodule 'a' and move it from 'old' to 'new'."
    );
    assert_eq!(
        change_preview_line("a", None),
        "Would change submodule 'a' and reconcile its managed Git settings."
    );
    assert_eq!(
        global_preview_line(
            &vec![UnsetSetting::Fetch, UnsetSetting::UseGitDefaultSparseCheckout],
            &Some(SerializableBranch::CurrentInSuperproject)
        ),
        "Would change global defaults: unset fetch, unset use-git-default-sparse-checkout, branch=.."
    );
    assert_eq!(done_line("Deleted", "a"), "Deleted submodule 'a'.");
}

#[test]
fn stash_recovery_names() {
    assert!(submod::report::stash_oid_is_valid("0123456789abcdefABCDEF"));
    assert!(!submod::report::stash_oid_is_valid(""));
    assert!(!submod::report::stash_oid_is_valid("12g4"));
    assert_eq!(
        submod::report::recovery_branch("0123456789abcdef0123", 0),
        "submod-recovery-0123456789ab"
    );
    assert_eq!(submod::report::recovery_branch("abc", 12), "submod-recovery-abc-12");
    assert_eq!(
        submod::report::recovery_command("submod-recovery-abc", "abc"),
        "git stash branch submod-recovery-abc abc"
    );
}

#[test]
fn path_collisions_and_reserved_names() {
    let paths = vec![
        (s("a"), s("libs/a")),
        (s("b"), s("tools")),
        (s("c"), s("Libs/A/sub")),
        (s("d"), s("tools/x")),
    ];
    assert_eq!(submod::paths::find_path_collision(&paths), Some((0, 2)));
    let clear = vec![(s("a"), s("libs/a")), (s("b"), s("libs/b"))];
    assert_eq!(submod::paths::find_path_collision(&clear), None);
    assert!(submod::paths::is_reserved_or_unsafe_name("defaults"));
    assert!(submod::paths::is_reserved_or_unsafe_name("schema_version"));
    assert!(submod::paths::is_reserved_or_unsafe_name("a\\b"));
    assert!(submod::paths::is_reserved_or_unsafe_name("a\nb"));
    assert!(!submod::paths::is_reserved_or_unsafe_name("libs/a"));
}

#[test]
fn git_output_records() {
    assert_eq!(
        submod::gitout::parse_gitlink_record(b"160000 abc123 0\tlibs/a\n").unwrap(),
        Some(s("abc123"))
    );
    assert_eq!(submod::gitout::parse_gitlink_record(b"").unwrap(), None);
    assert_eq!(
        submod::gitout::parse_gitlink_record(b"100644 abc 0\tfile\n"),
        Err(submod::gitout::GitlinkProblem::NotGitlink)
    );
    assert_eq!(
        submod::gitout::parse_gitlink_record(b"160000 abc 1\tx\n160000 def 2\tx\n"),
        Err(submod::gitout::GitlinkProblem::SeveralRecords)
    );
    assert_eq!(
        submod::gitout::parse_gitlink_record(b"160000 abc 2\tx\n"),
        Err(submod::gitout::GitlinkProblem::NotStageZero)
    );
    assert_eq!(
        submod::gitout::GitlinkProblem::NotStageZero.message("libs/a"),
        "Managed submodule path libs/a has an unmerged index entry instead of stage 0"
    );
    let out = b"submodule.a.path\nlibs/a\0submodule.b.path\nlibs/b\0";
    assert_eq!(submod::gitout::parse_registration(out, b"libs/b").unwrap(), Some(s("b")));
    assert_eq!(submod::gitout::parse_registration(out, b"libs/c").unwrap(), None);
    let twice = b"submodule.a.path\nx\0submodule.b.path\nx\0";
    assert_eq!(
        submod::gitout::parse_registration(twice, b"x"),
        Err(submod::gitout::RegistrationProblem::Several)
    );
    assert_eq!(
        submod::gitout::parse_registration(b"no-newline\0", b"x"),
        Err(submod::gitout::RegistrationProblem::Malformed)
    );
    assert_eq!(
        submod::gitout::split_records(b"\0a\0\0bc\0", 0),
        vec![b"a".to_vec(), b"bc".to_vec()]
    );
    assert_eq!(submod::gitout::split_words(" a  b\tc "), vec![s("a"), s("b"), s("c")]);
}

#[test]
fn preflight_check_per_registration_state() {
    assert_eq!(preflight_check(true, true, false, ReconcileScope::Update), Some(PreflightCheck::Settings));
    assert_eq!(preflight_check(true, false, true, ReconcileScope::Init), Some(PreflightCheck::Settings));
    assert_eq!(preflight_check(true, false, false, ReconcileScope::Sync), Some(PreflightCheck::CompleteRegistration));
    assert_eq!(preflight_check(false, true, false, ReconcileScope::Update), Some(PreflightCheck::RestoreRegistration));
    assert_eq!(preflight_check(false, false, true, ReconcileScope::Update), Some(PreflightCheck::Nothing));
    assert_eq!(preflight_check(false, false, false, ReconcileScope::Update), None);
    assert_eq!(preflight_check(false, false, false, ReconcileScope::Init), Some(PreflightCheck::Add));
}

#[test]
fn stored_entry_drops_sentinels_and_keeps_sparse_paths() {
    let mut raw = entry(Some("vendor/lib"), Some("https://x/lib.git"));
    raw.ignore = Some(SerializableIgnore::Unspecified);
    raw.fetch_recurse = Some(SerializableFetchRecurse::Unspecified);
    raw.update = Some(SerializableUpdate::Rebase);
    let stored = submod::add::stored_entry(raw, Some(vec!["src/".to_string()]));
    assert_eq!(stored.ignore, None);
    assert_eq!(stored.fetch_recurse, None);
    assert_eq!(stored.update, Some(SerializableUpdate::Rebase));
    assert_eq!(stored.sparse_paths, Some(vec!["src/".to_string()]));
    assert_eq!(stored.path.as_deref(), Some("vendor/lib"));
}
