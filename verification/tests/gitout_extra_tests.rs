use submod::gitconfig::{config_pairs, PairProblem};
use submod::gitout::{gitfile_target, has_gitlink_record};

#[test]
fn has_gitlink_record_finds_nested_registrations() {
    assert!(has_gitlink_record(b"100644 abc 0\tREADME\0160000 def 0\tlib\0"));
    assert!(!has_gitlink_record(b"100644 abc 0\tREADME\0100755 def 0\trun.sh\0"));
    assert!(!has_gitlink_record(b""));
    assert!(!has_gitlink_record(b"16000 x\0"));
}

#[test]
fn config_pairs_reads_key_value_records() {
    let out = b"submodule.lib.url\nhttps://x/lib.git\0submodule.lib.active\ntrue\0";
    assert_eq!(
        config_pairs(out),
        Ok(vec![
            ("submodule.lib.url".to_string(), "https://x/lib.git".to_string()),
            ("submodule.lib.active".to_string(), "true".to_string()),
        ])
    );
    assert_eq!(config_pairs(b""), Ok(vec![]));
    assert_eq!(config_pairs(b"submodule.lib.url\0"), Err(PairProblem::Malformed));
    assert_eq!(config_pairs(b"k\n\xfe\0"), Err(PairProblem::NotText));
    assert_eq!(config_pairs(b"a\nb\0nonewline\0k\n\xfe\0"), Err(PairProblem::Malformed));
}

#[test]
fn gitfile_target_reads_the_gitdir_line() {
    assert_eq!(gitfile_target(b"gitdir: ../.git/modules/lib\n"), Some(b"../.git/modules/lib".to_vec()));
    assert_eq!(gitfile_target(b"gitdir: /abs/dir\r\n"), Some(b"/abs/dir".to_vec()));
    assert_eq!(gitfile_target(b"gitdir: x"), Some(b"x".to_vec()));
    assert_eq!(gitfile_target(b"gitdir: "), Some(Vec::new()));
    assert_eq!(gitfile_target(b"gitdir:x\n"), None);
    assert_eq!(gitfile_target(b""), None);
    assert_eq!(gitfile_target(b"gitdir: a\n\n"), Some(b"a\n".to_vec()));
}
