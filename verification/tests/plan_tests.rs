use submod::config::SubmoduleEntry;
use submod::options::{SerializableBranch, SerializableUpdate};
use submod::plan::{
    plan_module, ModuleFacts, ModuleOutcomeKind, OperationSummary, ReconcilePlan, ReconcileScope,
    WorkFacts,
};
use submod::sparse::SparseStatus;

fn entry(active: Option<bool>, update: Option<SerializableUpdate>) -> SubmoduleEntry {
    let mut e = SubmoduleEntry::new(
        Some("https://example.com/repo.git".to_string()),
        Some("libs/repo".to_string()),
        Some(SerializableBranch::Name("main".to_string())),
        None,
        update,
        None,
        active,
        None,
        None,
    );
    e.sparse_paths = None;
    e
}

fn facts(registered: bool, pin: Option<&str>, initialized: bool, changed: bool) -> ModuleFacts {
    ModuleFacts {
        registered,
        parent_pin: pin.map(|p| p.to_string()),
        initialized,
        metadata_changed: changed,
    }
}

fn plan(
    e: &SubmoduleEntry,
    scope: ReconcileScope,
    remote: bool,
    recursive: bool,
    f: &ModuleFacts,
    work: Option<WorkFacts>,
) -> ReconcilePlan {
    plan_module(
        "repo".to_string(),
        "libs/repo".to_string(),
        e,
        scope,
        remote,
        recursive,
        f,
        work,
        None,
        None,
        None,
    )
}

#[test]
fn plan_disabled_module_is_skipped() {
    let e = entry(Some(false), None);
    let p = plan(&e, ReconcileScope::Sync, false, false, &facts(true, Some("abc"), true, false), None);
    assert_eq!(p.kind, ModuleOutcomeKind::SkippedDisabled);
    assert_eq!(p.detail, "checkout disabled; managed metadata already matches");
    assert_eq!(p.target.as_deref(), Some("abc"));
    let p = plan(&e, ReconcileScope::Update, true, true, &facts(true, Some("abc"), true, true), None);
    assert_eq!(p.kind, ModuleOutcomeKind::ChangedSkippedDisabled);
    assert!(!p.remote_requested && !p.recursive_requested);
    assert!(p.metadata_changed);
}

#[test]
fn plan_update_none_is_skipped_by_policy() {
    let e = entry(None, Some(SerializableUpdate::Nothing));
    let p = plan(&e, ReconcileScope::Init, false, false, &facts(false, None, false, false), None);
    assert_eq!(p.kind, ModuleOutcomeKind::SkippedPolicy);
    assert_eq!(p.detail, "update=none; managed metadata already matches");
}

#[test]
fn plan_unregistered_module_registers() {
    let e = entry(None, None);
    let p = plan(&e, ReconcileScope::Init, false, false, &facts(false, None, false, false), None);
    assert_eq!(p.kind, ModuleOutcomeKind::Changed);
    assert_eq!(
        p.detail,
        "register and initialize from branch main; stage .gitmodules and the resulting gitlink"
    );
    assert!(p.registration_changed);
    let p = plan(&e, ReconcileScope::Update, true, false, &facts(false, None, false, false), None);
    assert_eq!(
        p.detail,
        "register and initialize from branch main; stage .gitmodules and the resulting gitlink; then fetch and update from the selected branch main; final remote target unresolved until execution"
    );
    assert_eq!(p.target, None);
    let p = plan(&e, ReconcileScope::Sync, false, false, &facts(false, Some("abc"), false, false), None);
    assert_eq!(
        p.detail,
        "restore the missing registration, stage .gitmodules, and materialize the recorded parent pin"
    );
    assert_eq!(p.target.as_deref(), Some("abc"));
}

#[test]
fn plan_uninitialized_module_materializes() {
    let mut e = entry(None, None);
    e.branch = None;
    let p = plan(&e, ReconcileScope::Update, true, false, &facts(true, Some("abc"), false, false), None);
    assert_eq!(
        p.detail,
        "materialize the recorded parent pin, then fetch and update from the selected remote default branch; final remote target unresolved until execution"
    );
    let p = plan(&e, ReconcileScope::Init, true, false, &facts(true, Some("abc"), false, false), None);
    assert_eq!(p.detail, "materialize the existing registration at its recorded parent pin");
    assert!(!p.remote_requested);
}

#[test]
fn plan_work_items() {
    let e = entry(None, None);
    let f = facts(true, Some("abc"), true, false);
    let work = WorkFacts { update_matches: Some(true), sparse: SparseStatus::Correct };
    let p = plan(&e, ReconcileScope::Sync, false, false, &f, Some(work));
    assert_eq!(p.kind, ModuleOutcomeKind::Unchanged);
    assert_eq!(
        p.detail,
        "registration, metadata, checkout target, and sparse policy already match"
    );
    let f = facts(true, Some("abc"), true, true);
    let work = WorkFacts { update_matches: Some(false), sparse: SparseStatus::NotConfigured };
    let p = plan(&e, ReconcileScope::Sync, false, true, &f, Some(work));
    assert_eq!(p.kind, ModuleOutcomeKind::Changed);
    assert_eq!(
        p.detail,
        "reconcile managed metadata and native-resolved local URL from https://example.com/repo.git (portable edits remain unstaged); apply the configured strategy to the recorded parent pin; reconcile the ordered sparse-checkout policy; reconcile selected nested submodules recursively"
    );
    assert!(p.sparse_changed && p.recursive_requested);
    let work = WorkFacts { update_matches: None, sparse: SparseStatus::NotEnabled };
    let p = plan(&e, ReconcileScope::Update, true, false, &facts(true, Some("abc"), true, false), Some(work));
    assert_eq!(
        p.detail,
        "fetch and update from the selected remote branch main; resolve its target during execution"
    );
    assert_eq!(p.target, None);
}

#[test]
fn finish_outcomes() {
    let e = entry(Some(false), None);
    let p = plan(&e, ReconcileScope::Sync, false, false, &facts(true, Some("abc"), true, true), None);
    assert!(p.is_skipped());
    let done = p.finish_skipped();
    assert_eq!(
        done.detail,
        "managed metadata reconciled; checkout remained skipped-disabled without materializing or moving HEAD"
    );
    let e = entry(None, None);
    let work = WorkFacts { update_matches: Some(true), sparse: SparseStatus::Correct };
    let mut p = plan(&e, ReconcileScope::Sync, false, false, &facts(true, Some("abc"), true, false), Some(work));
    p.initial_head = Some("old".to_string());
    p.verbose_detail = Some("effective".to_string());
    let done = p.finish_with_work("new".to_string(), "new".to_string(), None);
    assert_eq!(done.kind, ModuleOutcomeKind::Changed);
    assert_eq!(done.detail, "checkout moved from old to new");
    assert_eq!(done.target.as_deref(), Some("new"));
    assert_eq!(
        done.verbose_detail.as_deref(),
        Some("effective, result_head=new, selected_target=new")
    );
    let work = WorkFacts { update_matches: Some(true), sparse: SparseStatus::Correct };
    let mut p = plan(&e, ReconcileScope::Sync, false, true, &facts(true, Some("abc"), true, false), Some(work));
    p.initial_head = Some("same".to_string());
    p.initial_recursive_state = Some(vec![1, 2]);
    let done = p.finish_with_work("same".to_string(), "same".to_string(), Some(vec![1, 2]));
    assert_eq!(done.kind, ModuleOutcomeKind::Unchanged);
    assert_eq!(done.detail, "nested submodules already matched");
}

#[test]
fn summary_counts_and_line() {
    let e = entry(Some(false), None);
    let a = plan(&e, ReconcileScope::Sync, false, false, &facts(true, Some("abc"), true, true), None);
    let b = plan(&entry(None, None), ReconcileScope::Sync, false, false, &facts(false, None, false, false), None);
    let summary = OperationSummary::new("sync", false, vec![a, b]);
    let t = summary.tally();
    assert_eq!((t.changed, t.unchanged, t.skipped, t.failed, t.pending), (2, 0, 1, 0, 0));
    assert_eq!(
        summary.summary_line(),
        "sync summary: 2 changed, 0 unchanged, 1 skipped, 0 failed, 0 pending."
    );
    assert_eq!(OperationSummary::status_label(ModuleOutcomeKind::Changed, true), "would-change");
    assert_eq!(OperationSummary::status_label(ModuleOutcomeKind::ChangedSkippedPolicy, false), "changed/skipped-policy");
    let empty = OperationSummary::new("init", true, Vec::new());
    assert_eq!(
        empty.summary_line(),
        "init summary: 0 changed, 0 unchanged, 0 skipped, 0 failed, 0 pending."
    );
}

#[test]
fn summary_line_spells_large_counts() {
    let mut modules = Vec::new();
    for _ in 0..12 {
        modules.push(plan(&entry(Some(false), None), ReconcileScope::Sync, false, false, &facts(true, None, true, false), None));
    }
    let summary = OperationSummary::new("check", false, modules);
    assert_eq!(
        summary.summary_line(),
        "check summary: 0 changed, 0 unchanged, 12 skipped, 0 failed, 0 pending."
    );
}
