use rusty_attachments::fs_error::FileSystemError;
use rusty_attachments::glob::{escape_glob, GlobFilter};

#[test]
fn test_empty_filter_matches_all() {
    let filter: GlobFilter = GlobFilter::new();
    assert!(filter.matches("any/path/file.txt"));
    assert!(filter.matches("file.rs"));
    assert!(filter.matches("deep/nested/path/file.py"));
}

#[test]
fn test_include_only() {
    let filter: GlobFilter = GlobFilter::include_only(vec!["*.txt".to_string()]).unwrap();
    assert!(filter.matches("file.txt"));
    assert!(!filter.matches("file.rs"));
    assert!(filter.matches("path/file.txt"));
}

#[test]
fn test_include_recursive() {
    let filter: GlobFilter = GlobFilter::include_only(vec!["**/*.txt".to_string()]).unwrap();
    assert!(filter.matches("file.txt"));
    assert!(filter.matches("path/file.txt"));
    assert!(filter.matches("deep/nested/file.txt"));
    assert!(!filter.matches("file.rs"));
}

#[test]
fn test_exclude_only() {
    let filter: GlobFilter = GlobFilter::exclude(vec!["*.tmp".to_string()]).unwrap();
    assert!(filter.matches("file.txt"));
    assert!(!filter.matches("file.tmp"));
}

#[test]
fn test_exclude_recursive() {
    let filter: GlobFilter = GlobFilter::exclude(vec!["**/__pycache__/**".to_string()]).unwrap();
    assert!(filter.matches("src/main.py"));
    assert!(!filter.matches("src/__pycache__/main.pyc"));
    assert!(!filter.matches("__pycache__/file.pyc"));
}

#[test]
fn test_include_and_exclude() {
    let filter: GlobFilter = GlobFilter::with_patterns(
        vec!["**/*.py".to_string()],
        vec!["**/test_*.py".to_string()],
    )
    .unwrap();
    assert!(filter.matches("src/main.py"));
    assert!(filter.matches("lib/utils.py"));
    assert!(!filter.matches("tests/test_main.py"));
    assert!(!filter.matches("src/test_utils.py"));
    assert!(!filter.matches("file.txt"));
}

#[test]
fn test_multiple_include_patterns() {
    let filter: GlobFilter =
        GlobFilter::include_only(vec!["**/*.py".to_string(), "**/*.rs".to_string()]).unwrap();
    assert!(filter.matches("src/main.py"));
    assert!(filter.matches("src/lib.rs"));
    assert!(!filter.matches("src/file.txt"));
}

#[test]
fn test_invalid_pattern() {
    let result: Result<GlobFilter, FileSystemError> =
        GlobFilter::include_only(vec!["[invalid".to_string()]);
    assert!(result.is_err());
}

#[test]
fn invalid_pattern_names_the_pattern() {
    match GlobFilter::with_patterns(vec!["*.rs".to_string()], vec!["[bad".to_string()]) {
        Err(FileSystemError::InvalidGlobPattern { pattern, .. }) => assert_eq!(pattern, "[bad"),
        _ => panic!("expected InvalidGlobPattern"),
    }
}

#[test]
fn test_brace_expansion() {
    let filter: GlobFilter =
        GlobFilter::include_only(vec!["**/*.{png,jpg,jpeg}".to_string()]).unwrap();
    assert!(filter.matches("textures/wood.png"));
    assert!(filter.matches("images/photo.jpg"));
    assert!(filter.matches("assets/image.jpeg"));
    assert!(!filter.matches("file.gif"));
}

#[test]
fn test_include_subdir_pattern() {
    let filter: GlobFilter = GlobFilter::include_only(vec!["nested/**".to_string()]).unwrap();
    assert!(filter.matches("nested/file.txt"));
    assert!(filter.matches("nested/deep/file.txt"));
    assert!(!filter.matches("other/file.txt"));
    assert!(!filter.matches("file.txt"));
}

#[test]
fn test_exclude_subdir_pattern() {
    let filter: GlobFilter = GlobFilter::exclude(vec!["nested/**".to_string()]).unwrap();
    assert!(filter.matches("file.txt"));
    assert!(filter.matches("other/file.txt"));
    assert!(!filter.matches("nested/file.txt"));
    assert!(!filter.matches("nested/deep/file.txt"));
}

#[test]
fn test_include_specific_filename_pattern() {
    let filter: GlobFilter =
        GlobFilter::include_only(vec!["*include.txt".to_string(), "*/*include.txt".to_string()])
            .unwrap();
    assert!(filter.matches("include.txt"));
    assert!(filter.matches("nested/nested_include.txt"));
    assert!(!filter.matches("exclude.txt"));
    assert!(!filter.matches("nested/nested_exclude.txt"));
}

#[test]
fn test_exclude_specific_filename_pattern() {
    let filter: GlobFilter =
        GlobFilter::exclude(vec!["*exclude.txt".to_string(), "*/*exclude.txt".to_string()])
            .unwrap();
    assert!(filter.matches("include.txt"));
    assert!(filter.matches("nested/nested_include.txt"));
    assert!(!filter.matches("exclude.txt"));
    assert!(!filter.matches("nested/nested_exclude.txt"));
}

#[test]
fn test_nonexistent_pattern_matches_nothing() {
    let filter: GlobFilter = GlobFilter::include_only(vec!["nonexistent/**".to_string()]).unwrap();
    assert!(!filter.matches("file.txt"));
    assert!(!filter.matches("other/file.txt"));
    assert!(!filter.matches("nested/file.txt"));
}

#[test]
fn test_exclude_nonexistent_pattern_matches_all() {
    let filter: GlobFilter = GlobFilter::exclude(vec!["nonexistent/**".to_string()]).unwrap();
    assert!(filter.matches("file.txt"));
    assert!(filter.matches("other/file.txt"));
    assert!(filter.matches("nested/file.txt"));
}

#[test]
fn test_is_empty() {
    let empty_filter: GlobFilter = GlobFilter::new();
    assert!(empty_filter.is_empty());

    let include_filter: GlobFilter = GlobFilter::include_only(vec!["*.txt".to_string()]).unwrap();
    assert!(!include_filter.is_empty());

    let exclude_filter: GlobFilter = GlobFilter::exclude(vec!["*.tmp".to_string()]).unwrap();
    assert!(!exclude_filter.is_empty());
}

#[test]
fn test_pattern_accessors() {
    let filter: GlobFilter =
        GlobFilter::with_patterns(vec!["*.py".to_string()], vec!["*.tmp".to_string()]).unwrap();
    assert_eq!(filter.include_patterns(), &["*.py".to_string()]);
    assert_eq!(filter.exclude_patterns(), &["*.tmp".to_string()]);
}

#[test]
fn test_hidden_files() {
    let filter: GlobFilter = GlobFilter::exclude(vec!["**/.*".to_string()]).unwrap();
    assert!(filter.matches("file.txt"));
    assert!(!filter.matches(".hidden"));
    assert!(!filter.matches("dir/.hidden"));
    assert!(!filter.matches(".git/config"));
}

#[test]
fn test_node_modules_exclusion() {
    let filter: GlobFilter = GlobFilter::exclude(vec!["**/node_modules/**".to_string()]).unwrap();
    assert!(filter.matches("src/index.js"));
    assert!(!filter.matches("node_modules/lodash/index.js"));
    assert!(!filter.matches("packages/app/node_modules/react/index.js"));
}

#[test]
fn test_escape_glob_brackets() {
    assert_eq!(escape_glob("file[1].txt"), r"file\[1\].txt");
    assert_eq!(escape_glob("[test]"), r"\[test\]");
}

#[test]
fn test_escape_glob_asterisk() {
    assert_eq!(escape_glob("test*.log"), r"test\*.log");
    assert_eq!(escape_glob("**/*.txt"), r"\*\*/\*.txt");
}

#[test]
fn test_escape_glob_question_mark() {
    assert_eq!(escape_glob("file?.txt"), r"file\?.txt");
}

#[test]
fn test_escape_glob_braces() {
    assert_eq!(escape_glob("file{1,2}.txt"), r"file\{1,2\}.txt");
}

#[test]
fn test_escape_glob_exclamation() {
    assert_eq!(escape_glob("!important.txt"), r"\!important.txt");
}

#[test]
fn test_escape_glob_multiple_special_chars() {
    assert_eq!(escape_glob("test[*?{!}].txt"), r"test\[\*\?\{\!\}\].txt");
}

#[test]
fn test_escape_glob_no_special_chars() {
    assert_eq!(escape_glob("normal_file.txt"), "normal_file.txt");
}

#[test]
fn test_escaped_pattern_matches_literal() {
    let literal_path: String = escape_glob("file[1].txt");
    let filter: GlobFilter = GlobFilter::include_only(vec![literal_path]).unwrap();
    assert!(filter.matches("file[1].txt"));
    assert!(!filter.matches("file1.txt"));
}

#[test]
fn test_escaped_pattern_with_wildcard() {
    let pattern: String = format!("{}/**", escape_glob("output[v1]"));
    let filter: GlobFilter = GlobFilter::include_only(vec![pattern]).unwrap();
    assert!(filter.matches("output[v1]/file.txt"));
    assert!(filter.matches("output[v1]/subdir/file.txt"));
    assert!(!filter.matches("outputv1/file.txt"));
    assert!(!filter.matches("output[v2]/file.txt"));
}

#[test]
fn test_unescaped_brackets_as_character_class() {
    let filter: GlobFilter = GlobFilter::include_only(vec!["file[1].txt".to_string()]).unwrap();
    assert!(filter.matches("file1.txt"));
    assert!(!filter.matches("file[1].txt"));
}

#[test]
fn test_real_world_scenario_output_directories() {
    let output_dirs: Vec<&str> = vec!["renders[final]", "cache*temp", "logs?debug"];
    let patterns: Vec<String> = output_dirs
        .iter()
        .map(|dir| format!("{}/**", escape_glob(dir)))
        .collect();
    let filter: GlobFilter = GlobFilter::include_only(patterns).unwrap();
    assert!(filter.matches("renders[final]/image.png"));
    assert!(filter.matches("cache*temp/data.bin"));
    assert!(filter.matches("logs?debug/output.log"));
    assert!(!filter.matches("rendersfinal/image.png"));
    assert!(!filter.matches("cache_temp/data.bin"));
    assert!(!filter.matches("logs_debug/output.log"));
}
