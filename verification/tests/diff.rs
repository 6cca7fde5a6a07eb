use rusty_attachments::diff::{
    is_executable, needs_content_hash, CurrentFileInfo, DiffEngine, DiffMode, DiffOptions, DiffResult,
    ManifestFileInfo,
};
use rusty_attachments::glob::GlobFilter;
use rusty_attachments::hash::hash_bytes;
use rusty_attachments::manifest_data::{
    get_manifest_content_type, ManifestData, ManifestDirectoryPath, ManifestFilePath,
    ManifestPathV2023, ManifestVersion,
};
use rusty_attachments::scanner::{
    build_manifest, build_v2023_manifest, build_v2025_manifest, hashing_progress,
    listed_entry_action, scanned_file,
    walk_action, FileDigest, ScanPhase, ScannedFile, SnapshotOptions, StatResult, SymlinkInfo,
    WalkAction,
};
use std::time::Duration;

fn v2023(entries: &[(&str, &str, u64, i64)]) -> ManifestData {
    ManifestData::V2023_03_03 {
        paths: entries
            .iter()
            .map(|(p, h, s, m)| ManifestPathV2023 {
                path: p.to_string(),
                hash: h.to_string(),
                size: *s,
                mtime: *m,
            })
            .collect(),
    }
}

fn current(entries: &[(&str, u64, i64)]) -> Vec<(String, CurrentFileInfo)> {
    entries
        .iter()
        .map(|(p, s, m)| {
            (
                p.to_string(),
                CurrentFileInfo { size: *s, mtime: *m, runnable: false, abs_path: format!("/r/{}", p) },
            )
        })
        .collect()
}

fn run(
    cur: &Vec<(String, CurrentFileInfo)>,
    dirs: &Vec<String>,
    m: &ManifestData,
    options: &DiffOptions,
    hashes: &Vec<Option<String>>,
) -> DiffResult {
    DiffEngine::new().diff(
        cur,
        dirs,
        m,
        options,
        hashes,
        Duration::from_millis(3),
        Duration::from_millis(1),
    )
}

fn fast() -> DiffOptions {
    DiffOptions { root: "/r".into(), mode: DiffMode::Fast, ..Default::default() }
}

#[test]
fn test_diff_engine_no_change() {
    let m = v2023(&[("test_file", "h", 10, 1000)]);
    let cur = current(&[("test_file", 10, 1000)]);
    let r = run(&cur, &vec![], &m, &fast(), &vec![None]);
    assert_eq!(r.added.len(), 0);
    assert_eq!(r.modified.len(), 0);
    assert_eq!(r.deleted.len(), 0);
    assert_eq!(r.unchanged, vec!["test_file".to_string()]);
    assert_eq!(r.stats.files_scanned, 1);
    assert_eq!(r.stats.walk_duration, Duration::from_millis(3));
}

#[test]
fn test_diff_engine_new_and_deleted_files() {
    let m = v2023(&[("test_file", "h", 10, 1000)]);
    let cur = current(&[("new_file", 0, 5), ("new_dir/new_file2", 0, 5)]);
    let r = run(&cur, &vec![], &m, &fast(), &vec![None, None]);
    assert_eq!(r.modified.len(), 0);
    let added: Vec<&str> = r.added.iter().map(|e| e.path.as_str()).collect();
    assert_eq!(added, vec!["new_file", "new_dir/new_file2"]);
    assert_eq!(r.deleted, vec!["test_file".to_string()]);
}

#[test]
fn test_diff_engine_modified_size_and_mtime() {
    let m = v2023(&[("a", "h", 10, 1000), ("b", "h", 10, 1000), ("c", "h", 10, 1000)]);
    let cur = current(&[("a", 30, 1000), ("b", 10, 1002), ("c", 10, 1001)]);
    let r = run(&cur, &vec![], &m, &fast(), &vec![None, None, None]);
    let modified: Vec<&str> = r.modified.iter().map(|e| e.path.as_str()).collect();
    assert_eq!(modified, vec!["a", "b"]);
    assert_eq!(r.unchanged, vec!["c".to_string()]);
}

#[test]
fn test_diff_engine_hash_mode() {
    let m = v2023(&[("same", "h1", 10, 1000), ("changed", "h2", 10, 1000)]);
    let cur = current(&[("same", 10, 9999), ("changed", 10, 1000)]);
    let options = DiffOptions { mode: DiffMode::Hash, ..fast() };
    let hashes = vec![Some("h1".to_string()), Some("other".to_string())];
    let r = run(&cur, &vec![], &m, &options, &hashes);
    assert_eq!(r.unchanged, vec!["same".to_string()]);
    assert_eq!(r.modified.len(), 1);
    assert_eq!(r.modified[0].path, "changed");
    assert_eq!(r.modified[0].hash, None);
    assert_eq!(r.stats.files_hashed, 2);
    assert_eq!(r.stats.bytes_hashed, 20);
}

#[test]
fn test_diff_engine_with_filter() {
    let m = v2023(&[("file1.txt", "h", 1, 1), ("file2.log", "h", 1, 1)]);
    let cur = current(&[("file1.txt", 1, 1), ("new.txt", 2, 2)]);
    let options = DiffOptions {
        filter: GlobFilter::include_only(vec!["**/*.txt".to_string()]).ok().unwrap(),
        ..fast()
    };
    let r = run(&cur, &vec![], &m, &options, &vec![None, None]);
    assert_eq!(r.added.len(), 1);
    assert_eq!(r.added[0].path, "new.txt");
    assert_eq!(r.unchanged.len(), 1);
    assert_eq!(r.deleted.len(), 0);
}

#[test]
fn test_diff_engine_v2025_directories() {
    let m = ManifestData::V2025_12_04_beta {
        dirs: vec![ManifestDirectoryPath::new("subdir".into()), ManifestDirectoryPath::new("gone".into())],
        paths: vec![ManifestFilePath::file("subdir/file.txt".into(), "h".into(), 7, 7)],
        parent_manifest_hash: None,
    };
    let cur = current(&[("subdir/file.txt", 7, 7), ("newdir/newfile.txt", 11, 8)]);
    let dirs = vec!["subdir".to_string(), "newdir".to_string()];
    let r = run(&cur, &dirs, &m, &fast(), &vec![None, None]);
    assert_eq!(r.added.len(), 1);
    assert_eq!(r.added[0].path, "newdir/newfile.txt");
    assert!(r.added_dirs.contains(&"newdir".to_string()));
    assert!(r.deleted_dirs.contains(&"gone".to_string()));
    assert_eq!(r.stats.dirs_scanned, 2);
}

#[test]
fn test_diff_engine_empty() {
    let m = v2023(&[]);
    let r = run(&vec![], &vec![], &m, &fast(), &vec![]);
    assert_eq!(r.added.len() + r.modified.len() + r.deleted.len() + r.unchanged.len(), 0);
}

#[test]
fn test_diff_engine_create_diff_manifest() {
    let parent = v2023(&[("original.txt", "h", 16, 1)]);
    let cur = current(&[("new.txt", 11, 2)]);
    let engine = DiffEngine::new();
    let r = run(&cur, &vec![], &parent, &fast(), &vec![None]);
    let bytes: &[u8] = b"parent manifest bytes";
    let d = engine.create_diff_manifest(bytes, &r, &vec!["newhash".to_string()], &vec![]);
    assert_eq!(d.version(), ManifestVersion::V2025_12_04_beta);
    match d {
        ManifestData::V2025_12_04_beta { paths, parent_manifest_hash, .. } => {
            assert_eq!(parent_manifest_hash, Some(hash_bytes(bytes)));
            let added: Vec<_> = paths.iter().filter(|p| !p.deleted).collect();
            let deleted: Vec<_> = paths.iter().filter(|p| p.deleted).collect();
            assert_eq!(added.len(), 1);
            assert_eq!(added[0].path, "new.txt");
            assert_eq!(added[0].hash, Some("newhash".to_string()));
            assert_eq!(deleted.len(), 1);
            assert_eq!(deleted[0].path, "original.txt");
        }
        _ => panic!("Expected V2025 manifest"),
    }
}

#[test]
fn test_is_modified_fast_and_hash() {
    let engine = DiffEngine::new();
    let m = ManifestFileInfo { size: 10, mtime: 100, hash: "h".into() };
    let c = CurrentFileInfo { size: 10, mtime: 101, runnable: false, abs_path: "/x".into() };
    assert!(!engine.is_modified_fast(&c, &m));
    let c2 = CurrentFileInfo { mtime: 98, ..c.clone_info() };
    assert!(engine.is_modified_fast(&c2, &m));
    assert_eq!(engine.is_modified_hash(&c, &m, "h"), (false, 10));
    assert_eq!(engine.is_modified_hash(&c, &m, "g"), (true, 10));
    let c3 = CurrentFileInfo { size: 11, ..c.clone_info() };
    assert_eq!(engine.is_modified_hash(&c3, &m, "h"), (true, 0));
}

trait CloneInfo {
    fn clone_info(&self) -> CurrentFileInfo;
}

impl CloneInfo for CurrentFileInfo {
    fn clone_info(&self) -> CurrentFileInfo {
        CurrentFileInfo {
            size: self.size,
            mtime: self.mtime,
            runnable: self.runnable,
            abs_path: self.abs_path.clone(),
        }
    }
}

#[test]
fn test_is_executable_bits() {
    assert!(is_executable(0o755));
    assert!(is_executable(0o001));
    assert!(!is_executable(0o644));
}

// ---- manifests ----

#[test]
fn test_manifest_content_types() {
    assert_eq!(get_manifest_content_type(&v2023(&[])), "application/x-deadline-manifest-2023-03-03");
    let m = ManifestData::V2025_12_04_beta { dirs: vec![], paths: vec![], parent_manifest_hash: None };
    assert_eq!(get_manifest_content_type(&m), "application/x-deadline-manifest-2025-12-04-beta");
    let m = ManifestData::V2025_12_04_beta {
        dirs: vec![],
        paths: vec![],
        parent_manifest_hash: Some("p".into()),
    };
    assert_eq!(get_manifest_content_type(&m), "application/x-deadline-manifest-diff-2025-12-04-beta");
}

#[test]
fn test_manifest_file_path_constructors() {
    let p = ManifestFilePath::symlink("l".into(), "t".into());
    assert_eq!(p.symlink_target, Some("t".to_string()));
    assert!(p.hash.is_none());
    let p = ManifestFilePath::deleted("d".into());
    assert!(p.deleted);
    let p = ManifestFilePath::chunked("c".into(), vec!["a".into(), "b".into()], 5, 6).with_runnable(true);
    assert!(p.runnable);
    assert_eq!(p.chunkhashes.map(|c| c.len()), Some(2));
}

// ---- scanner ----

fn stat(size: u64, mode: u32, is_dir: bool, is_symlink: bool) -> StatResult {
    StatResult { size, mtime_us: 77, mode, is_dir, is_symlink }
}

#[test]
fn test_walk_action_choices() {
    let opts = SnapshotOptions::default();
    assert_eq!(walk_action(&stat(0, 0, false, true), &opts), WalkAction::Symlink);
    assert_eq!(walk_action(&stat(0, 0, true, false), &opts), WalkAction::Directory);
    assert_eq!(walk_action(&stat(0, 0, false, false), &opts), WalkAction::File);
    let opts = SnapshotOptions { include_empty_dirs: false, follow_symlinks: true, ..Default::default() };
    assert_eq!(walk_action(&stat(0, 0, true, false), &opts), WalkAction::Skip);
    assert_eq!(walk_action(&stat(0, 0, false, true), &opts), WalkAction::File);
}

#[test]
fn test_scanned_file_and_v2023_manifest() {
    let f = scanned_file("/r/a.sh", "a.sh".into(), &stat(12, 0o755, false, false));
    assert!(f.runnable);
    assert_eq!(f.size, 12);
    let files = vec![f];
    let m = build_v2023_manifest(&files, Some(&vec!["hh".to_string()]));
    match m {
        ManifestData::V2023_03_03 { paths } => {
            assert_eq!(paths.len(), 1);
            assert_eq!(paths[0].path, "a.sh");
            assert_eq!(paths[0].hash, "hh");
            assert_eq!(paths[0].mtime, 77);
        }
        _ => panic!("Expected v2023 manifest"),
    }
}

#[test]
fn test_v2025_manifest_with_symlinks_and_dirs() {
    let files = vec![ScannedFile {
        path: "/r/x".into(),
        relative_path: "x".into(),
        size: 3,
        mtime_us: 9,
        runnable: false,
    }];
    let digests = vec![FileDigest { hash: "hx".into(), chunkhashes: None }];
    let links = vec![SymlinkInfo { relative_path: "ln".into(), target: "x".into() }];
    let m = build_v2025_manifest(&files, Some(&digests), &links, &vec!["d".to_string()]);
    match m {
        ManifestData::V2025_12_04_beta { dirs, paths, parent_manifest_hash } => {
            assert!(parent_manifest_hash.is_none());
            assert_eq!(paths.len(), 2);
            assert_eq!(paths[0].hash, Some("hx".to_string()));
            assert_eq!(paths[1].symlink_target, Some("x".to_string()));
            assert_eq!(dirs.len(), 1);
            assert_eq!(dirs[0].path, "d");
        }
        _ => panic!("Expected v2025 manifest"),
    }
}

#[test]
fn test_build_manifest_versions() {
    let files: Vec<ScannedFile> = vec![];
    let links = vec![SymlinkInfo { relative_path: "ln".into(), target: "x".into() }];
    let m = build_manifest(&files, None, &links, &vec![], ManifestVersion::V2023_03_03);
    assert_eq!(m.version(), ManifestVersion::V2023_03_03);
    assert_eq!(m.file_count(), 0);
    let m = build_manifest(&files, None, &links, &vec![], ManifestVersion::V2025_12_04_beta);
    assert_eq!(m.file_count(), 1);
}

#[test]
fn test_hashing_progress() {
    let p = hashing_progress("a/b", 3, 10, 500);
    assert_eq!(p.phase, ScanPhase::Hashing);
    assert_eq!(p.current_path, Some("a/b".to_string()));
    assert_eq!(p.total_files, Some(10));
    assert_eq!(p.total_bytes, None);
}

#[test]
fn test_listed_entry_action() {
    let opts = SnapshotOptions::default();
    let st = stat(1, 0o644, false, false);
    assert!(matches!(
        listed_entry_action("/root/a.txt", "/root", Some(&st), &opts),
        Ok(WalkAction::File)
    ));
    assert!(listed_entry_action("/rootx/a.txt", "/root", Some(&st), &opts).is_err());
    assert!(matches!(listed_entry_action("/root/a", "/root", None, &opts), Ok(WalkAction::Skip)));
    let dir = stat(0, 0o755, true, false);
    assert!(matches!(listed_entry_action("/root/d", "/root", Some(&dir), &opts), Ok(WalkAction::Skip)));
    let link = stat(0, 0o777, false, true);
    assert!(matches!(
        listed_entry_action("/root/l", "/root", Some(&link), &opts),
        Ok(WalkAction::Symlink)
    ));
}

#[test]
fn test_build_manifest_v2023_uses_digest_hashes() {
    let files = vec![ScannedFile {
        path: "/r/x".into(),
        relative_path: "x".into(),
        size: 3,
        mtime_us: 9,
        runnable: false,
    }];
    let digests = vec![FileDigest { hash: "hx".into(), chunkhashes: None }];
    let m = build_manifest(&files, Some(&digests), &vec![], &vec![], ManifestVersion::V2023_03_03);
    match m {
        ManifestData::V2023_03_03 { paths } => assert_eq!(paths[0].hash, "hx"),
        _ => panic!("Expected v2023 manifest"),
    }
}

#[test]
fn test_needs_content_hash() {
    let lookup: Vec<(String, ManifestFileInfo)> = vec![
        ("a.txt".to_string(), ManifestFileInfo { size: 5, mtime: 1, hash: "h".to_string() }),
        ("b.txt".to_string(), ManifestFileInfo { size: 7, mtime: 1, hash: "g".to_string() }),
    ];
    assert!(needs_content_hash(&lookup, "a.txt", 5));
    assert!(!needs_content_hash(&lookup, "a.txt", 6));
    assert!(!needs_content_hash(&lookup, "c.txt", 5));
}
