use submod::config::SubmoduleEntries;
use submod::gitmodules::{classify_record, listing_records, put_setting, ListedField, ListedRecord};
use submod::name_map::NameMap;
use submod::options::SerializableUpdate;

fn setting(name: &str, field: ListedField) -> ListedRecord {
    ListedRecord::Setting { name: name.to_string(), field }
}

#[test]
fn classify_record_reads_submodule_settings() {
    assert_eq!(
        classify_record(b"submodule.lib.path\nvendor/lib"),
        setting("lib", ListedField::Kept("path", "vendor/lib".to_string()))
    );
    assert_eq!(
        classify_record(b"submodule.a.b.URL\nhttps://x/y.git"),
        setting("a.b", ListedField::Kept("url", "https://x/y.git".to_string()))
    );
    assert_eq!(
        classify_record(b"submodule.lib.fetchrecursesubmodules\ntrue"),
        setting("lib", ListedField::Kept("fetchRecurseSubmodules", "true".to_string()))
    );
    assert_eq!(classify_record(b"submodule.lib.active\ntrue"), setting("lib", ListedField::Ignored));
    assert_eq!(classify_record(b"submodule.lib.update\n!make"), setting("lib", ListedField::CustomUpdate));
    assert_eq!(
        classify_record(b"submodule.lib.update\nrebase"),
        setting("lib", ListedField::Kept("update", "rebase".to_string()))
    );
}

#[test]
fn classify_record_flags_other_and_broken_records() {
    assert_eq!(classify_record(b"core.bare\nfalse"), ListedRecord::Other);
    assert_eq!(classify_record(b"submodule.nodot\nx"), ListedRecord::Other);
    assert_eq!(classify_record(b"submodule.lib.path"), ListedRecord::Malformed);
    assert_eq!(classify_record(b"submodule.lib.path\n\xff"), ListedRecord::NotText);
}

#[test]
fn listing_records_in_order() {
    let out = b"submodule.a.path\na\0submodule.a.url\nhttps://x/a.git\0\0core.x\ny\0";
    assert_eq!(
        listing_records(out),
        vec![
            setting("a", ListedField::Kept("path", "a".to_string())),
            setting("a", ListedField::Kept("url", "https://x/a.git".to_string())),
            ListedRecord::Other,
        ]
    );
}

#[test]
fn put_setting_gathers_sections_into_entries() {
    let mut sections: NameMap<NameMap<String>> = NameMap::new();
    put_setting(&mut sections, "lib", "path", "vendor/lib".to_string());
    put_setting(&mut sections, "lib", "update", "merge".to_string());
    put_setting(&mut sections, "tool", "url", "https://x/tool.git".to_string());
    put_setting(&mut sections, "lib", "path", "libs/lib".to_string());
    assert_eq!(sections.len(), 2);
    assert_eq!(sections.get("lib").unwrap().get("path"), Some(&"libs/lib".to_string()));
    let entries = SubmoduleEntries::from_gitmodules(sections);
    let lib = entries.get("lib").unwrap();
    assert_eq!(lib.path.as_deref(), Some("libs/lib"));
    assert_eq!(lib.update, Some(SerializableUpdate::Merge));
    let tool = entries.get("tool").unwrap();
    assert_eq!(tool.path.as_deref(), Some("tool"));
    assert_eq!(tool.url.as_deref(), Some("https://x/tool.git"));
}

#[test]
fn written_setting_reads_back() {
    for (field, value) in [("fetchRecurseSubmodules", "on-demand"), ("update", "merge"), ("shallow", "true")] {
        let record = format!("submodule.libs.core.{field}\n{value}");
        assert_eq!(
            classify_record(record.as_bytes()),
            setting("libs.core", ListedField::Kept(field, value.to_string()))
        );
    }
}
