use submod::config::{Config, SubmoduleDefaults, SubmoduleEntries, SubmoduleEntry};
use submod::document::{
    fetch_config_value, plan_document_edits, value_unchanged, DocEdit, DocValue, EditIntent, StoredValue,
};
use submod::options::{SerializableBranch, SerializableFetchRecurse, SerializableIgnore};

fn s(x: &str) -> String {
    x.to_string()
}

fn entry(path: &str, url: &str) -> SubmoduleEntry {
    SubmoduleEntry::new(Some(s(url)), Some(s(path)), None, None, None, None, None, None, None)
}

fn config(defaults: SubmoduleDefaults, entries: Vec<(&str, SubmoduleEntry)>) -> Config {
    let mut subs = SubmoduleEntries::default();
    for (n, e) in entries {
        subs = subs.add_submodule(s(n), e);
    }
    Config::new(defaults, subs)
}

fn no_intent() -> EditIntent {
    EditIntent { defaults: vec![], modules: vec![] }
}

#[test]
fn unchanged_config_needs_no_edit() {
    let c = config(SubmoduleDefaults::default(), vec![("a", entry("libs/a", "https://x/a.git"))]);
    let d = config(SubmoduleDefaults::default(), vec![("a", entry("libs/a", "https://x/a.git"))]);
    assert!(plan_document_edits(&c, &d, &no_intent()).is_empty());
}

#[test]
fn changed_url_rewrites_only_that_key() {
    let old = config(SubmoduleDefaults::default(), vec![("a", entry("libs/a", "https://x/a.git"))]);
    let new = config(SubmoduleDefaults::default(), vec![("a", entry("libs/a", "https://y/a.git"))]);
    assert_eq!(
        plan_document_edits(&old, &new, &no_intent()),
        vec![
            DocEdit::Table { name: s("a") },
            DocEdit::Put { table: s("a"), key: "url", value: Some(DocValue::Text(s("https://y/a.git"))) },
        ]
    );
}

#[test]
fn removed_and_added_modules() {
    let old = config(
        SubmoduleDefaults::default(),
        vec![("z", entry("libs/z", "https://x/z.git")), ("b", entry("libs/b", "https://x/b.git"))],
    );
    let new = config(SubmoduleDefaults::default(), vec![("b", entry("libs/b", "https://x/b.git")), ("c", entry("libs/c", "https://x/c.git"))]);
    let edits = plan_document_edits(&old, &new, &no_intent());
    assert_eq!(edits[0], DocEdit::DropTable { name: s("z") });
    assert_eq!(edits[1], DocEdit::Table { name: s("c") });
    assert_eq!(
        edits[2],
        DocEdit::Put { table: s("c"), key: "path", value: Some(DocValue::Text(s("libs/c"))) }
    );
    assert_eq!(edits[5], DocEdit::Put { table: s("c"), key: "ignore", value: None });
    assert_eq!(edits[6], DocEdit::Drop { table: s("c"), key: "fetch" });
    assert_eq!(edits[7], DocEdit::Drop { table: s("c"), key: "fetch_recurse" });
    assert_eq!(edits[8], DocEdit::Put { table: s("c"), key: "fetchRecurse", value: None });
    assert_eq!(edits.len(), 1 + 1 + 12);
}

#[test]
fn defaults_change_and_intent() {
    let old = config(SubmoduleDefaults::default(), vec![("a", entry("libs/a", "https://x/a.git"))]);
    let mut d = SubmoduleDefaults::default();
    d.ignore = Some(SerializableIgnore::All);
    d.fetch_recurse = Some(SerializableFetchRecurse::Always);
    let new = config(d, vec![("a", entry("libs/a", "https://x/a.git"))]);
    let intent = EditIntent { defaults: vec!["branch"], modules: vec![(s("a"), "shallow")] };
    assert_eq!(
        plan_document_edits(&old, &new, &intent),
        vec![
            DocEdit::Table { name: s("defaults") },
            DocEdit::Put { table: s("defaults"), key: "branch", value: None },
            DocEdit::Put { table: s("defaults"), key: "ignore", value: Some(DocValue::Text(s("all"))) },
            DocEdit::Drop { table: s("defaults"), key: "fetch" },
            DocEdit::Drop { table: s("defaults"), key: "fetch_recurse" },
            DocEdit::Put {
                table: s("defaults"),
                key: "fetchRecurse",
                value: Some(DocValue::Text(s("always"))),
            },
            DocEdit::Table { name: s("a") },
            DocEdit::Put { table: s("a"), key: "shallow", value: None },
        ]
    );
}

#[test]
fn values_are_spelled_as_toml_reads_them() {
    assert_eq!(fetch_config_value(SerializableFetchRecurse::Never), "never");
    assert_eq!(fetch_config_value(SerializableFetchRecurse::OnDemand), "on-demand");
    let old = config(SubmoduleDefaults::default(), vec![("a", entry("libs/a", "https://x/a.git"))]);
    let mut e = entry("libs/a", "https://x/a.git");
    e.branch = Some(SerializableBranch::CurrentInSuperproject);
    e.sparse_paths = Some(vec![s("src"), s("docs")]);
    let new = config(SubmoduleDefaults::default(), vec![("a", e)]);
    assert_eq!(
        plan_document_edits(&old, &new, &no_intent()),
        vec![
            DocEdit::Table { name: s("a") },
            DocEdit::Put { table: s("a"), key: "branch", value: Some(DocValue::Text(s("."))) },
            DocEdit::Put {
                table: s("a"),
                key: "sparse_paths",
                value: Some(DocValue::List(vec![s("src"), s("docs")])),
            },
        ]
    );
}

#[test]
fn value_unchanged_compares_kind_and_contents() {
    let text = DocValue::Text("lib".to_string());
    assert!(value_unchanged(&StoredValue::Text("lib".to_string()), &text));
    assert!(!value_unchanged(&StoredValue::Text("lib2".to_string()), &text));
    assert!(!value_unchanged(&StoredValue::Other, &text));
    assert!(value_unchanged(&StoredValue::Flag(true), &DocValue::Flag(true)));
    assert!(!value_unchanged(&StoredValue::Flag(false), &DocValue::Flag(true)));
    assert!(!value_unchanged(&StoredValue::Text("true".to_string()), &DocValue::Flag(true)));
    let list = DocValue::List(vec!["a".to_string(), "b".to_string()]);
    assert!(value_unchanged(&StoredValue::List(vec![Some("a".to_string()), Some("b".to_string())]), &list));
    assert!(!value_unchanged(&StoredValue::List(vec![Some("a".to_string()), None]), &list));
    assert!(!value_unchanged(&StoredValue::List(vec![Some("a".to_string())]), &list));
    assert!(!value_unchanged(&StoredValue::List(vec![Some("b".to_string()), Some("a".to_string())]), &list));
}
