use submod::paths::{normalize_submodule_path, paths_collide, PathProblem};

#[test]
fn managed_paths_collide_when_nested_or_equal() {
    assert!(paths_collide("libs/a", "libs/a"));
    assert!(paths_collide("libs", "libs/a"));
    assert!(paths_collide("libs/a/b", "libs/a"));
    assert!(paths_collide("Libs/A", "libs/a"));
    assert!(paths_collide("libs//a/", "./libs/a") == false);
    assert!(!paths_collide("libs/a", "libs/ab"));
    assert!(!paths_collide("libs/a", "other/a"));
}

#[test]
fn collision_is_symmetric() {
    for (a, b) in [("x", "x/y"), ("x/y", "z"), ("A", "a/b")] {
        assert_eq!(paths_collide(a, b), paths_collide(b, a));
    }
}

#[test]
fn normalize_submodule_path_forms_and_problems() {
    assert_eq!(normalize_submodule_path("libs//a/./b/"), Ok("libs/a/b".to_string()));
    assert_eq!(normalize_submodule_path("./x"), Ok("x".to_string()));
    assert_eq!(normalize_submodule_path("../outside"), Err(PathProblem::Escapes));
    assert_eq!(normalize_submodule_path("a/../b"), Err(PathProblem::Escapes));
    assert_eq!(normalize_submodule_path("."), Err(PathProblem::Empty));
    assert_eq!(normalize_submodule_path(""), Err(PathProblem::Empty));
    assert_eq!(normalize_submodule_path(".git/config"), Err(PathProblem::GitDir));
    assert_eq!(normalize_submodule_path("a/.GIT"), Err(PathProblem::GitDir));
    assert_eq!(normalize_submodule_path("/abs"), Err(PathProblem::Absolute));
    assert_eq!(PathProblem::Escapes.message(), "submodule path escapes the repository");
}
