use submod::urls::{remote_url_is_relative, resolve_relative_submodule_url, starts_dot_component, RelativeUrlError};

#[test]
fn resolve_relative_url_normalizes_absolute_url_separators() {
    // A Windows-spelled file base must resolve to a canonical URL so
    // exact-match remote lookups keep working; relative results are
    // untouched.
    assert_eq!(
        resolve_relative_submodule_url("file://C:\\Users\\me\\super.git", "../reachable.git", None)
            .unwrap(),
        "file://C:/Users/me/reachable.git"
    );
    assert_eq!(
        resolve_relative_submodule_url("file://C:/Users/me/super.git", "../reachable.git", None)
            .unwrap(),
        "file://C:/Users/me/reachable.git"
    );
    assert_eq!(
        resolve_relative_submodule_url("../base.git", "../sib.git", None).unwrap(),
        "../sib.git"
    );
}

#[test]
fn resolve_keeps_urls_that_are_not_dot_relative() {
    assert_eq!(
        resolve_relative_submodule_url("https://example.com/o/super.git", "https://x/y.git", None)
            .unwrap(),
        "https://x/y.git"
    );
    assert_eq!(resolve_relative_submodule_url("", "plain", None).unwrap(), "plain");
}

#[test]
fn resolve_against_absolute_and_scp_remotes() {
    assert_eq!(
        resolve_relative_submodule_url("https://example.com/o/super.git/", "./sub.git", None)
            .unwrap(),
        "https://example.com/o/super.git/sub.git"
    );
    assert_eq!(
        resolve_relative_submodule_url("git@host:org/super.git", "../other.git", None).unwrap(),
        "git@host:org/other.git"
    );
    assert_eq!(
        resolve_relative_submodule_url("host:repo", "../x", None).unwrap(),
        "host:x"
    );
    // The up path is ignored for an absolute remote.
    assert_eq!(
        resolve_relative_submodule_url("https://h/o/s.git", "../t.git", Some("../../")).unwrap(),
        "https://h/o/t.git"
    );
    // A trailing separator on the relative URL is dropped.
    assert_eq!(
        resolve_relative_submodule_url("https://h/o/s.git", "../t/", None).unwrap(),
        "https://h/o/t"
    );
}

#[test]
fn resolve_against_relative_remotes() {
    assert_eq!(
        resolve_relative_submodule_url("../base.git", "../sib.git", Some("../../")).unwrap(),
        "../../../sib.git"
    );
    assert_eq!(
        resolve_relative_submodule_url("repo", "./child", None).unwrap(),
        "repo/child"
    );
    assert_eq!(
        resolve_relative_submodule_url("repo", "./child", Some("../")).unwrap(),
        "../repo/child"
    );
}

#[test]
fn resolve_errors() {
    assert_eq!(
        resolve_relative_submodule_url("", "./x", None),
        Err(RelativeUrlError::EmptyRemote)
    );
    assert_eq!(
        resolve_relative_submodule_url("//", "../x", None),
        Err(RelativeUrlError::EmptyRemote)
    );
    assert_eq!(
        resolve_relative_submodule_url("repo", "../../x", None),
        Err(RelativeUrlError::CannotStrip)
    );
    // An absolute remote without components left resolves against ".".
    assert_eq!(resolve_relative_submodule_url("/a", "../../x", None).unwrap(), "x");
}

#[test]
fn relative_remote_urls() {
    assert!(remote_url_is_relative("../base.git"));
    assert!(remote_url_is_relative("repo"));
    assert!(remote_url_is_relative("dir/with:colon"));
    assert!(!remote_url_is_relative("/abs/path"));
    assert!(!remote_url_is_relative("\\windows"));
    assert!(!remote_url_is_relative("https://example.com/repo"));
    assert!(!remote_url_is_relative("git@host:repo"));
}

#[test]
fn dot_components() {
    assert!(starts_dot_component("./x", false));
    assert!(starts_dot_component(".\\x", false));
    assert!(!starts_dot_component("../x", false));
    assert!(starts_dot_component("../x", true));
    assert!(!starts_dot_component("..", true));
    assert!(!starts_dot_component(".x", false));
    assert!(!starts_dot_component("", false));
}
