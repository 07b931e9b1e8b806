use submod::preserve::{first_reset_conflict, paths_overlap, status_entries, status_entry};

#[test]
fn status_entry_reads_ignored_and_untracked_records() {
    assert_eq!(status_entry(b"!! build/"), Some((b"build".to_vec(), true)));
    assert_eq!(status_entry(b"?? notes.txt"), Some((b"notes.txt".to_vec(), false)));
    assert_eq!(status_entry(b" M src/lib.rs"), None);
    assert_eq!(status_entry(b"?? "), None);
    assert_eq!(status_entry(b"??x a"), None);
    // Only one trailing slash is removed.
    assert_eq!(status_entry(b"!! out//"), Some((b"out/".to_vec(), true)));
}

#[test]
fn status_entries_keeps_order_and_skips_tracked_changes() {
    let out = b"?? a.txt\0 M b.rs\0!! target/\0\0?? vendor/\0";
    assert_eq!(
        status_entries(out),
        vec![
            (b"a.txt".to_vec(), false),
            (b"target".to_vec(), true),
            (b"vendor".to_vec(), false),
        ]
    );
    assert!(status_entries(b"").is_empty());
}

#[test]
fn paths_overlap_follows_directory_boundaries() {
    assert!(paths_overlap(b"docs", b"docs"));
    assert!(paths_overlap(b"docs/readme.md", b"docs"));
    assert!(paths_overlap(b"docs", b"docs/readme.md"));
    assert!(!paths_overlap(b"docs2/readme.md", b"docs"));
    assert!(!paths_overlap(b"doc", b"docs"));
}

#[test]
fn first_reset_conflict_finds_first_overlapping_candidate() {
    let listing = b"README.md\0build/config.toml\0src/lib.rs\0";
    let candidates = vec![b"notes".to_vec(), b"build".to_vec(), b"src/lib.rs".to_vec()];
    assert_eq!(first_reset_conflict(listing, &candidates), Some(1));
    let harmless = vec![b"notes".to_vec(), b"buildx".to_vec()];
    assert_eq!(first_reset_conflict(listing, &harmless), None);
    assert_eq!(first_reset_conflict(b"", &candidates), None);
}
