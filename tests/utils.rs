use plox::utils::{common_path_ancestor_inner, get_cache_dir_inner, validate_standalone_filename};
use std::path::PathBuf;

fn ancestor(paths: &[&str]) -> PathBuf {
    let v: Vec<String> = paths.iter().map(|p| p.to_string()).collect();
    PathBuf::from(common_path_ancestor_inner(&v).unwrap())
}

fn check_common_path_ancestor() {
    assert_eq!(ancestor(&["/a/b/c/log1", "/a/b/d/log2"]), PathBuf::from("/a/b"));
    assert_eq!(ancestor(&["/a/b/d/log1", "/a/b/d/log2"]), PathBuf::from("/a/b/d"));
    assert_eq!(ancestor(&["/a/b/d/log1", "/a/b/d/log2"]), PathBuf::from("/a/b/d"));
    assert_eq!(ancestor(&["/a/c/d/log1", "/a/b/d/log2"]), PathBuf::from("/a"));
    assert_eq!(ancestor(&["/a/c/d/log1"]), PathBuf::from("/a/c/d/"));
    assert_eq!(ancestor(&["/log1"]), PathBuf::from("/"));
    assert_eq!(ancestor(&["/log1", "/log2"]), PathBuf::from("/"));
}

#[test]
fn utils_test_common_path_ancestor() {
    check_common_path_ancestor();
}

#[test]
fn process_log_test_common_path_ancestor() {
    check_common_path_ancestor();
}

#[test]
fn common_ancestor_none_cases() {
    assert_eq!(common_path_ancestor_inner(&vec![]), None);
    assert_eq!(common_path_ancestor_inner(&vec!["a/x".to_string(), "b/y".to_string()]), None);
}

#[test]
fn cache_dir_mirrors_under_root() {
    assert_eq!(
        get_cache_dir_inner(&Some("/home/u/.cache/plox".to_string()), "/var/log/app/debug.log"),
        "/home/u/.cache/plox/var/log/app"
    );
    assert_eq!(get_cache_dir_inner(&None, "/var/log/app/debug.log"), "/var/log/app/.plox");
}

#[test]
fn standalone_filename() {
    assert_eq!(validate_standalone_filename("out.png"), Ok("out.png".to_string()));
    assert!(validate_standalone_filename("dir/out.png").is_err());
    assert!(validate_standalone_filename("/out.png").is_err());
}
