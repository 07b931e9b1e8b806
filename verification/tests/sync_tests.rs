use submod::sync::{active_text, field_sync, url_needs_sync, FieldSync};

fn t(x: &str) -> Option<String> {
    Some(x.to_string())
}

#[test]
fn field_sync_writes_only_what_differs() {
    let nothing = FieldSync { write_portable: false, write_local: false, clear_worktree: false, url_changed: false };
    assert_eq!(field_sync("branch", &t("main"), &t("main"), &t("main"), false, true), nothing);
    assert_eq!(
        field_sync("branch", &t("main"), &t("dev"), &t("main"), false, false),
        FieldSync { write_portable: true, ..nothing }
    );
    assert_eq!(
        field_sync("ignore", &None, &None, &t("all"), true, true),
        FieldSync { write_local: true, clear_worktree: true, ..nothing }
    );
    // A worktree value only matters where the repository keeps per-worktree configuration.
    assert_eq!(field_sync("ignore", &None, &None, &None, true, false), nothing);
}

#[test]
fn field_sync_leaves_local_url_to_git() {
    let step = field_sync("url", &t("https://x/a.git"), &t("https://x/b.git"), &None, false, false);
    assert!(step.write_portable);
    assert!(!step.write_local);
    assert!(step.url_changed);
    let step = field_sync("url", &t("https://x/a.git"), &t("https://x/a.git"), &None, true, true);
    assert!(step.clear_worktree && step.url_changed && !step.write_portable);
}

#[test]
fn url_sync_needed_when_any_layer_is_off() {
    let expected = "https://x/a.git";
    assert!(!url_needs_sync(false, &t(expected), expected, &None));
    assert!(url_needs_sync(true, &t(expected), expected, &None));
    assert!(url_needs_sync(false, &None, expected, &None));
    assert!(url_needs_sync(false, &t("https://x/old.git"), expected, &None));
    assert!(url_needs_sync(false, &t(expected), expected, &Some((t("https://x/other.git"), expected.to_string()))));
    assert!(url_needs_sync(false, &t(expected), expected, &Some((None, expected.to_string()))));
    assert!(!url_needs_sync(false, &t(expected), expected, &Some((t(expected), expected.to_string()))));
}

#[test]
fn active_text_spells_the_flag() {
    assert_eq!(active_text(Some(true)), t("true"));
    assert_eq!(active_text(Some(false)), t("false"));
    assert_eq!(active_text(None), None);
}

#[test]
fn writing_what_sync_asks_for_settles_the_field() {
    let desired = t("rebase");
    let (mut portable, mut local, mut worktree) = (t("merge"), None, true);
    let step = field_sync("update", &desired, &portable, &local, worktree, true);
    if step.write_portable {
        portable = desired.clone();
    }
    if step.write_local {
        local = desired.clone();
    }
    if step.clear_worktree {
        worktree = false;
    }
    let again = field_sync("update", &desired, &portable, &local, worktree, true);
    assert_eq!(again, FieldSync { write_portable: false, write_local: false, clear_worktree: false, url_changed: false });
}
