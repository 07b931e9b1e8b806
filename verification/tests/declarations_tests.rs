use submod::config::Config;
use submod::declarations::{location, ConfigWarning, Field, FieldValue, Section};
use submod::options::{SerializableBranch, SerializableFetchRecurse, SerializableIgnore};

fn text(key: &str, value: &str) -> Field {
    Field {
        key: key.to_string(),
        value: FieldValue::Text(value.to_string()),
        shown: format!("\"{value}\""),
    }
}

fn boolean(key: &str, value: bool) -> Field {
    Field { key: key.to_string(), value: FieldValue::Boolean(value), shown: value.to_string() }
}

fn section(name: &str, fields: Vec<Field>) -> Section {
    Section { name: name.to_string(), fields: Some(fields) }
}

#[test]
fn reads_defaults_and_modules() {
    let sections = vec![
        section("defaults", vec![text("branch", "main"), text("ignore", "dirty")]),
        section("module", vec![text("fetch", "true"), text("url", "repo")]),
    ];
    let (result, warnings) = Config::from_table(None, sections, None);
    let config = result.unwrap();
    assert_eq!(config.defaults.branch, Some(SerializableBranch::Name("main".to_string())));
    assert_eq!(config.defaults.ignore, Some(SerializableIgnore::Dirty));
    let entry = config.get_submodule("module").unwrap();
    assert_eq!(entry.fetch_recurse, Some(SerializableFetchRecurse::Always));
    assert_eq!(entry.url.as_deref(), Some("repo"));
    assert_eq!(
        warnings,
        vec![
            ConfigWarning::LegacyAlias { section: "module".to_string(), alias: "fetch".to_string() },
            ConfigWarning::LegacyFetchValue { section: "module".to_string() },
        ]
    );
    // The raw declaration keeps the path unset; resolution fills it.
    assert_eq!(entry.path, None);
    assert_eq!(config.effective_entry("module").unwrap().path.as_deref(), Some("module"));
}

#[test]
fn rejects_problems_in_order() {
    let cases: Vec<(Option<Field>, Vec<Section>, &str)> = vec![
        (Some(text("schema_version", "9.0.0")), vec![], "schema_version: unsupported version \"9.0.0\"; expected 1.0.0 or 1.1.0"),
        (
            Some(Field { key: "schema_version".to_string(), value: FieldValue::Other, shown: "1".to_string() }),
            vec![],
            "schema_version: unsupported version 1; expected 1.0.0 or 1.1.0",
        ),
        (None, vec![section("module", vec![text("fetch", "always"), text("fetchRecurse", "never"), text("url", "repo")])], "[module].fetchRecurse: conflicting aliases [\"fetchRecurse\", \"fetch\"]"),
        (None, vec![section("defaults", vec![text("ignroe", "all")])], "[defaults].ignroe: unknown field"),
        (None, vec![section("module", vec![text("url", "repo"), boolean("unknown", true)])], "[module].unknown: unknown field"),
        (None, vec![section("module", vec![text("path", "child")])], "[module].url: required nonempty URL without NUL/newlines"),
        (None, vec![section("module", vec![text("url", "  ")])], "[module].url: required nonempty URL without NUL/newlines"),
        (None, vec![section("module", vec![text("url", "repo"), text("path", "../outside")])], "[module].path: submodule path escapes the repository"),
        (None, vec![section("module", vec![text("url", "repo"), text("path", ".")])], "[module].path: submodule path cannot be empty"),
        (None, vec![section("module", vec![text("url", "repo"), text("path", ".git/config")])], "[module].path: submodule path cannot point into .git"),
        (None, vec![section("module", vec![text("url", "repo"), text("path", "/abs")])], "[module].path: submodule path must be relative"),
        (None, vec![section("module", vec![text("active", "false"), text("url", "repo")])], "[module].active: invalid value or type \"false\""),
        (None, vec![section("module", vec![text("update", "!evil"), text("url", "repo")])], "[module].update: invalid value or type \"!evil\""),
        (None, vec![section("defaults", vec![text("branch", "  ")])], "[defaults].branch: invalid branch \"  \""),
        (None, vec![section("defaults", vec![boolean("branch", true)])], "[defaults].branch: invalid value or type true"),
        (None, vec![Section { name: "module".to_string(), fields: None }], "[module]: expected a table"),
        (
            None,
            vec![section("module", vec![
                Field { key: "sparse_paths".to_string(), value: FieldValue::List(vec![Some("a\nb".to_string())]), shown: "[\"a\\nb\"]".to_string() },
                text("url", "repo"),
            ])],
            "[module].sparse_paths: patterns cannot contain NUL or newlines",
        ),
        (
            None,
            vec![section("module", vec![
                Field { key: "sparse_paths".to_string(), value: FieldValue::List(vec![None]), shown: "[true]".to_string() },
                text("url", "repo"),
            ])],
            "[module].sparse_paths: invalid value or type [true]",
        ),
    ];
    for (schema, sections, expected) in cases {
        let (result, _) = Config::from_table(schema, sections, None);
        assert_eq!(result.unwrap_err(), expected);
    }
}

#[test]
fn accepted_schema_versions_and_head_warning() {
    for v in ["1.0.0", "1.1.0"] {
        let sections = vec![section("m", vec![text("branch", "HEAD"), text("url", "r")])];
        let (result, warnings) = Config::from_table(Some(text("schema_version", v)), sections, None);
        assert!(result.is_ok());
        assert_eq!(warnings, vec![ConfigWarning::HeadBranch { section: "m".to_string() }]);
    }
}

#[test]
fn locations_name_lines_when_the_source_is_known() {
    let source = "[defaults]\nbranch = 'x'\n[module]\nurl = 'repo'\nfetch = 'bad'\n";
    assert_eq!(location(None, "module", "url"), "[module].url");
    assert_eq!(location(None, "module", ""), "[module]");
    assert_eq!(location(None, "", "schema_version"), "schema_version");
    assert_eq!(location(Some(source), "module", "url"), "[module].url (line 4)");
    assert_eq!(location(Some(source), "module", "fetchRecurse"), "[module].fetchRecurse (line 5)");
    assert_eq!(location(Some(source), "defaults", ""), "[defaults] (line 1)");
    let schema = "schema_version = '2'\n";
    assert_eq!(location(Some(schema), "", "schema_version"), "schema_version (line 1)");
}
