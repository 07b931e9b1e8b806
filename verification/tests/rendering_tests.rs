use submod::config::{Config, SubmoduleEntry};
use submod::document::{plan_document_edits, EditIntent};
use submod::options::SerializableFetchRecurse;
use submod::document::{DocEdit, DocValue};
use submod::errors::SubmoduleError;
use submod::generate::{check_generated, check_overwrite, generated_kind, generated_line, Generated};
use submod::names::{normalize_path, safe_human_text, sparse_paths, submodule_name};
use submod::rendering::{check_destination, check_unchanged, needs_write, render_document, Destination};

fn put(table: &str, key: &'static str, value: Option<DocValue>) -> DocEdit {
    DocEdit::Put { table: table.to_string(), key, value }
}

fn text(s: &str) -> Option<DocValue> {
    Some(DocValue::Text(s.to_string()))
}

fn config_error(r: Result<Vec<u8>, SubmoduleError>) -> String {
    match r {
        Err(SubmoduleError::ConfigError(m)) => m,
        Ok(bytes) => panic!("rendered {:?}", String::from_utf8_lossy(&bytes)),
        Err(other) => panic!("unexpected error {other:?}"),
    }
}

#[test]
fn render_builds_a_new_table_from_nothing() {
    let edits = vec![
        DocEdit::Table { name: "lib".to_string() },
        put("lib", "path", text("libs/lib")),
        put("lib", "url", text("https://example.com/lib.git")),
    ];
    let rendered = render_document(None, &edits).unwrap();
    assert_eq!(
        String::from_utf8(rendered).unwrap(),
        "[lib]\npath = \"libs/lib\"\nurl = \"https://example.com/lib.git\"\n"
    );
}

#[test]
fn render_keeps_comments_and_unchanged_values() {
    let loaded = b"# top\n[lib]\npath = \"libs/lib\" # keep\nurl = \"u\"\n";
    let edits = vec![put("lib", "path", text("libs/lib")), put("lib", "url", text("v"))];
    let rendered = render_document(Some(&loaded[..]), &edits).unwrap();
    assert_eq!(
        String::from_utf8(rendered).unwrap(),
        "# top\n[lib]\npath = \"libs/lib\" # keep\nurl = \"v\"\n"
    );
}

#[test]
fn render_with_no_edits_gives_back_the_loaded_text() {
    let loaded = b"# a comment\n[defaults]\nignore = \"dirty\"\n\n[lib]\npath = \"lib\"\nurl = \"u\"\n";
    let rendered = render_document(Some(&loaded[..]), &Vec::new()).unwrap();
    assert_eq!(rendered, loaded.to_vec());
}

#[test]
fn render_drops_tables_and_keys() {
    let loaded = b"[a]\npath = \"a\"\nurl = \"u\"\nbranch = \"main\"\n\n[b]\npath = \"b\"\nurl = \"w\"\n";
    let edits = vec![
        DocEdit::DropTable { name: "b".to_string() },
        DocEdit::Drop { table: "a".to_string(), key: "branch" },
        put("a", "shallow", Some(DocValue::Flag(true))),
        put("a", "sparse_paths", Some(DocValue::List(vec!["src".to_string()]))),
    ];
    let rendered = String::from_utf8(render_document(Some(&loaded[..]), &edits).unwrap()).unwrap();
    assert_eq!(rendered, "[a]\npath = \"a\"\nurl = \"u\"\nshallow = true\nsparse_paths = [\"src\"]\n");
}

#[test]
fn render_refuses_bytes_that_are_not_utf8() {
    let m = config_error(render_document(Some(&[0x5b, 0xff][..]), &Vec::new()));
    assert_eq!(m, "Loaded configuration is not UTF-8: invalid utf-8 sequence of 1 bytes from index 1");
}

#[test]
fn render_refuses_text_that_is_not_toml() {
    let m = config_error(render_document(Some(&b"[lib"[..]), &Vec::new()));
    assert!(m.starts_with("Failed to edit configuration: "), "{m}");
}

#[test]
fn render_refuses_edits_of_a_key_that_is_no_table() {
    let loaded = b"lib = 1\n";
    let m = config_error(render_document(Some(&loaded[..]), &vec![put("lib", "url", text("u"))]));
    assert_eq!(m, "[lib] must be a TOML table");
    let m = config_error(render_document(Some(&loaded[..]), &vec![DocEdit::Table { name: "lib".to_string() }]));
    assert_eq!(m, "[lib] must be a TOML table");
    let m = config_error(render_document(None, &vec![DocEdit::Drop { table: "x".to_string(), key: "url" }]));
    assert_eq!(m, "[x] must be a TOML table");
}

#[test]
fn render_refuses_a_document_that_does_not_load() {
    let edits = vec![
        DocEdit::Table { name: "lib".to_string() },
        put("lib", "path", text("../outside")),
        put("lib", "url", text("u")),
    ];
    let m = config_error(render_document(None, &edits));
    assert!(m.starts_with("Refusing to replace configuration with invalid rendered TOML: "), "{m}");
    assert!(m.contains("escapes the repository"), "{m}");
}

#[test]
fn writing_is_skipped_only_for_identical_bytes() {
    assert!(!needs_write(Some(&b"abc"[..]), b"abc"));
    assert!(needs_write(Some(&b"abc"[..]), b"abd"));
    assert!(needs_write(None, b""));
}

#[test]
fn destination_must_be_a_file_or_missing() {
    assert!(check_destination(Destination::Missing, "submod.toml").is_ok());
    assert!(check_destination(Destination::File, "submod.toml").is_ok());
    match check_destination(Destination::Symlink, "submod.toml") {
        Err(SubmoduleError::ConfigError(m)) => assert_eq!(m, "Refusing to write configuration through symlink submod.toml"),
        other => panic!("{other:?}"),
    }
    match check_destination(Destination::NotFile, "dir") {
        Err(SubmoduleError::ConfigError(m)) => assert_eq!(m, "Configuration destination is not a file: dir"),
        other => panic!("{other:?}"),
    }
}

#[test]
fn a_file_changed_since_load_is_not_replaced() {
    assert!(check_unchanged(Some(&b"x"[..]), Some(&b"x"[..]), "f").is_ok());
    assert!(check_unchanged(None, None, "f").is_ok());
    match check_unchanged(Some(&b"y"[..]), Some(&b"x"[..]), "f") {
        Err(SubmoduleError::ConfigError(m)) => {
            assert_eq!(m, "Configuration f changed after it was loaded; no changes were written")
        }
        other => panic!("{other:?}"),
    }
    assert!(check_unchanged(None, Some(&b"x"[..]), "f").is_err());
}

#[test]
fn control_characters_are_escaped_for_display() {
    assert_eq!(safe_human_text("plain"), "plain");
    assert_eq!(safe_human_text("a\tb\u{1b}[2Jc\nd\re"), "a\\tb\\u{1b}[2Jc\nd\\re");
    assert_eq!(safe_human_text("\u{0}\u{7f}\u{85}\u{9f}\u{a0}é"), "\\u{0}\\u{7f}\\u{85}\\u{9f}\u{a0}é");
    let odd = "x\u{1}y\u{10}";
    let expected: String = odd
        .chars()
        .map(|c| if c.is_control() && c != '\n' { c.escape_default().to_string() } else { c.to_string() })
        .collect();
    assert_eq!(safe_human_text(odd), expected);
}

#[test]
fn submodule_name_comes_from_name_path_or_url() {
    assert_eq!(submodule_name(Some("  lib ".to_string()), "u", None), Ok("lib".to_string()));
    assert_eq!(submodule_name(None, "u", Some("libs\\lib".to_string())), Ok("libs/lib".to_string()));
    assert_eq!(submodule_name(None, " https://example.com/org/lib.git/ ", None), Ok("lib".to_string()));
    assert_eq!(submodule_name(Some("   ".to_string()), "u", None), Err("the name cannot be empty".to_string()));
}

#[test]
fn sparse_patterns_are_trimmed_and_blank_ones_refused() {
    assert_eq!(sparse_paths(None), Ok(None));
    assert_eq!(
        sparse_paths(Some(vec![" src/ ".to_string(), "docs".to_string()])),
        Ok(Some(vec!["src/".to_string(), "docs".to_string()]))
    );
    assert_eq!(
        sparse_paths(Some(vec!["src".to_string(), "  ".to_string()])),
        Err("a sparse path cannot be blank".to_string())
    );
}

#[test]
fn command_line_paths_are_normalized() {
    assert_eq!(normalize_path("libs\\lib/./x/"), Ok("libs/lib/x".to_string()));
    assert_eq!(normalize_path("/abs"), Err("submodule path must be relative".to_string()));
    assert_eq!(normalize_path("a/../b"), Err("submodule path escapes the repository".to_string()));
    assert_eq!(normalize_path("./"), Err("submodule path cannot be empty".to_string()));
    assert_eq!(normalize_path(".git\\hooks"), Err("submodule path cannot point into .git".to_string()));
}

#[test]
fn generation_kind_overwrite_and_lines() {
    assert_eq!(generated_kind(true, true), Generated::Template);
    assert_eq!(generated_kind(true, false), Generated::FromSetup);
    assert_eq!(generated_kind(false, false), Generated::Empty);
    assert!(check_overwrite(false, false, "s.toml").is_ok());
    assert!(check_overwrite(true, true, "s.toml").is_ok());
    match check_overwrite(true, false, "s.toml") {
        Err(SubmoduleError::ConfigError(m)) => {
            assert_eq!(m, "Output file 's.toml' already exists. Use --force to overwrite.")
        }
        other => panic!("{other:?}"),
    }
    assert_eq!(generated_line(Generated::Template, true, "s.toml"), "Would generate template config at 's.toml'.");
    assert_eq!(generated_line(Generated::FromSetup, false, "s.toml"), "Generated config from .gitmodules at 's.toml'.");
    assert_eq!(generated_line(Generated::Empty, false, "s.toml"), "Generated empty config at 's.toml'.");
}

#[test]
fn generated_text_must_load() {
    assert!(check_generated(Generated::Empty, "[defaults]\n").is_ok());
    match check_generated(Generated::Template, "[lib\n") {
        Err(SubmoduleError::ConfigError(m)) => assert!(m.starts_with("Bundled template is invalid: "), "{m}"),
        other => panic!("{other:?}"),
    }
    match check_generated(Generated::Empty, "[lib]\npath = '/abs'\nurl = 'u'\n") {
        Err(SubmoduleError::ConfigError(m)) => assert!(m.starts_with("Generated empty config is invalid: "), "{m}"),
        other => panic!("{other:?}"),
    }
}

#[test]
fn rendered_fetch_recurse_survives_a_load() {
    let mut config = Config::default();
    config.defaults.fetch_recurse = Some(SerializableFetchRecurse::Always);
    config.add_submodule(
        "mymod".to_string(),
        SubmoduleEntry::new(
            Some("https://example.com/repo.git".to_string()),
            Some("libs/mymod".to_string()),
            None,
            None,
            None,
            Some(SerializableFetchRecurse::Never),
            Some(true),
            None,
            None,
        ),
    );
    let intent = EditIntent { defaults: Vec::new(), modules: Vec::new() };
    let edits = plan_document_edits(&Config::default(), &config, &intent);
    let written = String::from_utf8(render_document(None, &edits).unwrap()).unwrap();
    let (reloaded, _) = Config::parse(&written);
    let reloaded = reloaded.unwrap();
    assert_eq!(reloaded.defaults.fetch_recurse, Some(SerializableFetchRecurse::Always), "{written}");
    assert_eq!(
        reloaded.get_submodule("mymod").unwrap().fetch_recurse,
        Some(SerializableFetchRecurse::Never),
        "{written}"
    );
}

#[test]
fn replacement_refuses_any_change_of_content_or_presence() {
    let loaded = b"[defaults]\nignore = \"dirty\"\n";
    let external = b"[defaults]\nignore = \"all\" # external\n";
    match check_unchanged(Some(&external[..]), Some(&loaded[..]), "submod.toml") {
        Err(SubmoduleError::ConfigError(m)) => assert!(m.contains("changed after it was loaded")),
        other => panic!("{other:?}"),
    }
    assert!(check_unchanged(Some(&b""[..]), None, "appeared.toml").is_err());
    assert!(check_unchanged(None, Some(&b""[..]), "deleted.toml").is_err());
}
