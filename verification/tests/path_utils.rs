use rusty_attachments::error::PathError;
use rusty_attachments::path_utils::{
    from_posix_path, is_within_root, lexical_normalize, normalize_for_manifest, to_absolute,
    to_long_path, to_posix_path,
};

#[test]
fn test_lexical_normalize_removes_dot() {
    let normalized: String = lexical_normalize("/a/./b/./c");
    assert_eq!(normalized, "/a/b/c");
}

#[test]
fn test_lexical_normalize_resolves_dotdot() {
    let normalized: String = lexical_normalize("/a/b/../c");
    assert_eq!(normalized, "/a/c");
}

#[test]
fn test_lexical_normalize_preserves_root_dotdot() {
    // Can't go above root, so extra .. are preserved
    let normalized: String = lexical_normalize("/a/../../../b");
    assert_eq!(normalized, "/../../b");
}

#[test]
fn test_lexical_normalize_within_root() {
    let normalized: String = lexical_normalize("/a/b/c/../../d");
    assert_eq!(normalized, "/a/d");
}

#[test]
fn test_to_posix_path() {
    let posix: String = to_posix_path("a/b/c");
    assert_eq!(posix, "a/b/c");
}

#[test]
fn test_from_posix_path() {
    let result: String = from_posix_path("a/b/c", "/root");
    assert_eq!(result, "/root/a/b/c");
}

#[test]
fn test_from_posix_path_empty_components() {
    let result: String = from_posix_path("a//b", "/root");
    assert_eq!(result, "/root/a/b");
}

#[test]
fn test_is_within_root_true() {
    assert!(is_within_root("/project/assets/file.txt", "/project"));
}

#[test]
fn test_is_within_root_false() {
    assert!(!is_within_root("/etc/passwd", "/project"));
}

#[test]
fn test_is_within_root_with_dotdot() {
    assert!(!is_within_root("/project/../etc/passwd", "/project"));
}

#[test]
fn test_to_long_path_short() {
    let result: String = to_long_path("/short/path");
    assert_eq!(result, "/short/path");
}

#[test]
fn lexical_normalize_is_idempotent() {
    for p in ["/a/./b/../c", "a/../../b", "./x/y/..", "/../a", "a//b/./c/"] {
        let once = lexical_normalize(p);
        assert_eq!(lexical_normalize(&once), once);
    }
}

#[test]
fn lexical_normalize_relative_keeps_leading_dotdot() {
    assert_eq!(lexical_normalize("a/../../b"), "../b");
    assert_eq!(lexical_normalize("./a/b"), "a/b");
}

#[test]
fn to_posix_path_collapses_separators() {
    assert_eq!(to_posix_path("/a//b/./c/"), "//a/b/c");
}

#[test]
fn to_absolute_joins_relative_paths() {
    assert_eq!(to_absolute("a/b", "/work"), "/work/a/b");
    assert_eq!(to_absolute("/x/y", "/work"), "/x/y");
    assert_eq!(to_absolute("a", "/work/"), "/work/a");
}

#[test]
fn normalize_for_manifest_relative_to_root() {
    let r = normalize_for_manifest("/project/assets/./tex/../file.txt", "/project", "/cwd");
    assert_eq!(r.ok(), Some("assets/file.txt".to_string()));
    let r = normalize_for_manifest("sub/file.txt", "/cwd", "/cwd");
    assert_eq!(r.ok(), Some("sub/file.txt".to_string()));
}

#[test]
fn normalize_for_manifest_outside_root_errors() {
    match normalize_for_manifest("/etc/passwd", "/project", "/cwd") {
        Err(PathError::PathOutsideRoot { path, root }) => {
            assert_eq!(path, "/etc/passwd");
            assert_eq!(root, "/project");
        }
        _ => panic!("expected PathOutsideRoot"),
    }
}

#[test]
fn path_error_display_text() {
    let e = PathError::PathOutsideRoot { path: "/a".to_string(), root: "/b".to_string() };
    assert_eq!(e.to_string(), "Path is outside root: /a not in /b");
    let e = PathError::InvalidPath { path: "x".to_string() };
    assert_eq!(e.to_string(), "Invalid path: x");
}

#[test]
fn normalize_for_manifest_readme_example() {
    let r = normalize_for_manifest("/project/assets/file.txt", "/project", "/");
    assert_eq!(r.ok(), Some("assets/file.txt".to_string()));
}
