use submod::config::{Config, SubmoduleDefaults, SubmoduleEntries, SubmoduleEntry};
use submod::document::{plan_document_edits, EditIntent};
use submod::errors::SubmoduleError;
use submod::nuke::{nuke_plan, nuke_progress_line, nuke_steps, reinitialized_line, NukeStep};
use submod::options::{SerializableBranch, SerializableIgnore, SerializableUpdate};
use submod::plan::{ModuleOutcomeKind, ReconcilePlan};
use submod::rendering::render_document;
use submod::report::verbose_detail;
use submod::reset::{
    no_pin_error, no_stash_line, recovery_line, reset_done_line, reset_error, reset_failure_report,
    reset_preview_line, reset_progress_line, reset_summary_line, stash_line, ResetStop,
};

fn s(x: &str) -> String {
    x.to_string()
}

fn entry(path: &str, url: &str) -> SubmoduleEntry {
    let mut e = SubmoduleEntry::new(Some(s(url)), Some(s(path)), None, None, None, None, None, None, None);
    e.sparse_paths = None;
    e.active = None;
    e.shallow = None;
    e
}

fn config_with(entries: Vec<(&str, SubmoduleEntry)>) -> Config {
    let mut subs = SubmoduleEntries::default();
    for (n, e) in entries {
        subs = subs.add_submodule(s(n), e);
    }
    Config::new(SubmoduleDefaults::default(), subs)
}

fn plan(kind: ModuleOutcomeKind, metadata_changed: bool) -> ReconcilePlan {
    ReconcilePlan {
        name: s("lib"),
        path: s("libs/lib"),
        kind,
        detail: s(""),
        target: None,
        verbose_detail: None,
        registration_changed: false,
        metadata_changed,
        sparse_changed: false,
        remote_requested: false,
        recursive_requested: false,
        initial_head: Some(s("aaa")),
        initial_recursive_state: None,
    }
}

fn cli_error<T: std::fmt::Debug>(r: Result<T, SubmoduleError>) -> String {
    match r {
        Err(SubmoduleError::CliError(m)) => m,
        other => panic!("{other:?}"),
    }
}

#[test]
fn nuke_steps_follow_registration_and_kill() {
    let mut sparse = entry("libs/b", "https://x/b.git");
    sparse.sparse_paths = Some(vec![s("src")]);
    let c = config_with(vec![("a", entry("libs/a", "https://x/a.git")), ("b", sparse)]);
    let registered = nuke_plan(&c, "a", Some(s("a")));
    let unregistered = nuke_plan(&c, "b", None);
    assert_eq!(nuke_steps(&registered, true), vec![NukeStep::Delete]);
    assert_eq!(nuke_steps(&unregistered, true), vec![]);
    assert_eq!(nuke_steps(&registered, false), vec![NukeStep::Rebuild, NukeStep::Sync]);
    assert_eq!(
        nuke_steps(&unregistered, false),
        vec![NukeStep::Add, NukeStep::Sync, NukeStep::ConfigureSparse]
    );
    assert_eq!(nuke_progress_line("a", true), "Removing submodule 'a'...");
    assert_eq!(nuke_progress_line("a", false), "Rebuilding submodule 'a'...");
    assert_eq!(reinitialized_line("a"), "Reinitialized submodule 'a'.");
}

#[test]
fn verbose_detail_shows_effective_settings() {
    let mut e = entry("libs/a", "u");
    assert_eq!(
        verbose_detail(&e),
        "effective: branch=<remote-default>, update=None, ignore=None, active=true, shallow=false, sparse_paths=[]"
    );
    e.branch = Some(SerializableBranch::Name(s("main")));
    e.update = Some(SerializableUpdate::Rebase);
    e.ignore = Some(SerializableIgnore::Dirty);
    e.active = Some(false);
    e.shallow = Some(true);
    e.sparse_paths = Some(vec![s("src/"), s("a\"b")]);
    assert_eq!(
        verbose_detail(&e),
        "effective: branch=main, update=Some(Rebase), ignore=Some(Dirty), active=false, shallow=true, sparse_paths=[\"src/\", \"a\\\"b\"]"
    );
    e.branch = Some(SerializableBranch::CurrentInSuperproject);
    assert!(verbose_detail(&e).starts_with("effective: branch=., "));
}

#[test]
fn finishing_checks_target_update_and_metadata_in_order() {
    let p = plan(ModuleOutcomeKind::Changed, true);
    assert_eq!(
        cli_error(p.clone().finish_checked(s("bbb"), None, false, false, None)),
        "Parent index has no mode-160000 target for libs/lib"
    );
    assert_eq!(
        cli_error(p.clone().finish_checked(s("bbb"), Some(s("ccc")), false, false, None)),
        "checkout postcondition failed for \"lib\" at \"libs/lib\": expected target ccc"
    );
    assert_eq!(
        cli_error(p.clone().finish_checked(s("bbb"), Some(s("bbb")), true, false, None)),
        "managed metadata postcondition failed for \"lib\" at \"libs/lib\""
    );
    let done = p.finish_checked(s("bbb"), Some(s("bbb")), true, true, None).unwrap();
    assert_eq!(done.kind, ModuleOutcomeKind::Changed);
    assert_eq!(done.target, Some(s("bbb")));
    let unchanged = plan(ModuleOutcomeKind::Changed, false)
        .finish_checked(s("aaa"), Some(s("aaa")), true, false, None)
        .unwrap();
    assert_eq!(unchanged.kind, ModuleOutcomeKind::Unchanged);
}

#[test]
fn finishing_a_skipped_module_checks_changed_metadata() {
    let p = plan(ModuleOutcomeKind::ChangedSkippedDisabled, true);
    assert_eq!(
        cli_error(p.clone().finish_skipped_checked(false)),
        "managed metadata postcondition failed for \"lib\" at \"libs/lib\""
    );
    let done = p.finish_skipped_checked(true).unwrap();
    assert!(done.detail.starts_with("managed metadata reconciled"));
    let plain = plan(ModuleOutcomeKind::SkippedPolicy, false).finish_skipped_checked(false).unwrap();
    assert_eq!(plain.kind, ModuleOutcomeKind::SkippedPolicy);
}

#[test]
fn reset_texts() {
    assert_eq!(cli_error::<()>(Err(no_pin_error("libs/a"))), "No parent pin recorded for libs/a");
    assert_eq!(
        reset_preview_line("a", "libs/a", "abc"),
        "Would preserve local work and reset submodule 'a' at 'libs/a' to parent pin abc."
    );
    assert_eq!(reset_progress_line("a", "abc"), "Resetting a to parent pin abc...");
    assert_eq!(stash_line("f00"), "  Preserved local work in stash f00");
    assert_eq!(no_stash_line(), "  No local work needed a stash");
    assert_eq!(recovery_line("/r/a", "git stash apply f00", false), "  Recovery (run inside /r/a): git stash apply f00");
    assert_eq!(recovery_line("/r/a", "cmd", true), "  preserved work (run inside /r/a): cmd");
    assert_eq!(reset_done_line("a", "abc"), "a reset to abc");
    assert_eq!(reset_summary_line(12), "Reset summary: 12 changed, 0 unchanged, 0 skipped, 0 failed.");
    assert_eq!(
        reset_failure_report(ResetStop::Runtime, &vec![s("a"), s("b")], "c", "boom", &vec![s("d")]),
        vec![
            s("Reset stopped after a runtime failure."),
            s("  completed: a, b"),
            s("  failed: c: boom"),
            s("  pending: d"),
        ]
    );
    assert_eq!(
        reset_failure_report(ResetStop::Preservation, &vec![], "c", "x", &vec![])[0],
        "Reset stopped after preservation failed."
    );
    assert_eq!(
        cli_error::<()>(Err(reset_error(ResetStop::Preservation, "c", "x"))),
        "Could not preserve work for c; reset was not attempted: x"
    );
    assert_eq!(cli_error::<()>(Err(reset_error(ResetStop::Runtime, "c", "x"))), "Reset failed for c: x");
}

#[test]
fn saving_a_changed_configuration_reloads_as_it() {
    let loaded = "# keep me\n[defaults]\nignore = \"dirty\"\n\n[a]\npath = \"libs/a\" # mine\nurl = \"https://x/a.git\"\n\n[gone]\npath = \"libs/gone\"\nurl = \"https://x/gone.git\"\n";
    let (old, _) = Config::parse(loaded);
    let old = old.unwrap();
    let mut new = config_with(vec![
        ("a", entry("libs/a", "https://x/a2.git")),
        ("b", entry("libs/b", "https://x/b.git")),
    ]);
    new.defaults.ignore = Some(SerializableIgnore::Dirty);
    new.defaults.update = Some(SerializableUpdate::Rebase);
    let intent = EditIntent { defaults: Vec::new(), modules: Vec::new() };
    let edits = plan_document_edits(&old, &new, &intent);
    let written = String::from_utf8(render_document(Some(loaded.as_bytes()), &edits).unwrap()).unwrap();
    assert!(written.starts_with("# keep me\n"), "{written}");
    assert!(written.contains("path = \"libs/a\" # mine"), "{written}");
    let (reloaded, _) = Config::parse(&written);
    let reloaded = reloaded.unwrap();
    assert_eq!(reloaded.defaults, new.defaults, "{written}");
    assert_eq!(reloaded.get_submodule("a"), new.get_submodule("a"), "{written}");
    assert_eq!(reloaded.get_submodule("b"), new.get_submodule("b"), "{written}");
    assert!(reloaded.get_submodule("gone").is_none(), "{written}");
}
