use rusty_attachments::grouping::{
    common_path, common_path_with, common_prefix, group_asset_paths, group_asset_paths_validated,
    group_asset_paths_validated_with, group_root_with, input_check_path, normalize_path, parent_path,
    AssetRootGroup, PathGroupingError, PathGroupingResult, PathValidationMode,
};
use rusty_attachments::profile_types::{
    FileSystemLocation, FileSystemLocationType, StorageProfile,
};

fn create_test_profile() -> StorageProfile {
    StorageProfile::with_locations(vec![
        FileSystemLocation {
            name: "ProjectFiles".into(),
            path: "/mnt/projects".into(),
            location_type: FileSystemLocationType::Local,
        },
        FileSystemLocation {
            name: "SharedAssets".into(),
            path: "/mnt/shared".into(),
            location_type: FileSystemLocationType::Shared,
        },
    ])
}

fn strings(v: &[&str]) -> Vec<String> {
    v.iter().map(|s| s.to_string()).collect()
}

#[test]
fn test_group_asset_paths_empty() {
    let groups: Vec<AssetRootGroup> =
        group_asset_paths(&vec![], &vec![], &vec![], None, Some("/"));
    assert!(groups.is_empty());
}

#[test]
fn test_group_asset_paths_skips_shared() {
    let profile: StorageProfile = create_test_profile();
    let inputs = strings(&["/mnt/shared/asset.exr", "/mnt/projects/scene.blend"]);

    let groups: Vec<AssetRootGroup> =
        group_asset_paths(&inputs, &vec![], &vec![], Some(&profile), Some("/"));

    assert_eq!(groups.len(), 1);
    assert_eq!(groups[0].inputs.len(), 1);
    assert!(groups[0].inputs.iter().any(|p| p.contains("projects")));
}

#[test]
fn test_group_asset_paths_with_local_location() {
    let profile: StorageProfile = create_test_profile();
    let inputs = strings(&[
        "/mnt/projects/job1/scene.blend",
        "/mnt/projects/job1/textures/wood.png",
    ]);
    let outputs = strings(&["/mnt/projects/job1/renders"]);

    let groups: Vec<AssetRootGroup> =
        group_asset_paths(&inputs, &outputs, &vec![], Some(&profile), Some("/"));

    assert_eq!(groups.len(), 1);
    assert_eq!(groups[0].file_system_location_name, Some("ProjectFiles".into()));
    assert_eq!(groups[0].inputs.len(), 2);
    assert_eq!(groups[0].outputs.len(), 1);
}

#[test]
fn test_group_asset_paths_multiple_groups() {
    let profile: StorageProfile = StorageProfile::with_locations(vec![
        FileSystemLocation {
            name: "Project1".into(),
            path: "/projects/proj1".into(),
            location_type: FileSystemLocationType::Local,
        },
        FileSystemLocation {
            name: "Project2".into(),
            path: "/projects/proj2".into(),
            location_type: FileSystemLocationType::Local,
        },
    ]);
    let inputs = strings(&["/projects/proj1/scene.blend", "/projects/proj2/scene.blend"]);

    let groups: Vec<AssetRootGroup> =
        group_asset_paths(&inputs, &vec![], &vec![], Some(&profile), Some("/"));

    assert_eq!(groups.len(), 2);

    let proj1_group: Option<&AssetRootGroup> = groups
        .iter()
        .find(|g| g.file_system_location_name == Some("Project1".into()));
    let proj2_group: Option<&AssetRootGroup> = groups
        .iter()
        .find(|g| g.file_system_location_name == Some("Project2".into()));

    assert!(proj1_group.is_some());
    assert!(proj2_group.is_some());
}

#[test]
fn test_group_asset_paths_without_locations_share_one_root() {
    let inputs = strings(&["/zeta/a.txt", "/alpha/b.txt", "/alpha/c/d.txt"]);
    let groups: Vec<AssetRootGroup> = group_asset_paths(&inputs, &vec![], &vec![], None, None);
    assert_eq!(groups.len(), 1);
    assert_eq!(groups[0].root_path, "/");
    assert_eq!(groups[0].inputs.len(), 3);
    assert_eq!(groups[0].file_system_location_name, None);
}

#[test]
fn test_group_asset_paths_sorted_by_root() {
    let profile: StorageProfile = StorageProfile::with_locations(vec![
        FileSystemLocation {
            name: "Zed".into(),
            path: "/projects/zed".into(),
            location_type: FileSystemLocationType::Local,
        },
        FileSystemLocation {
            name: "Abc".into(),
            path: "/projects/abc".into(),
            location_type: FileSystemLocationType::Local,
        },
    ]);
    let inputs = strings(&["/projects/zed/x/1.txt", "/projects/abc/y/2.txt", "/projects/abc/y/3.txt"]);
    let groups: Vec<AssetRootGroup> =
        group_asset_paths(&inputs, &vec![], &vec![], Some(&profile), None);
    assert_eq!(groups.len(), 2);
    assert_eq!(groups[0].root_path, "/projects/abc/y");
    assert_eq!(groups[0].file_system_location_name, Some("Abc".to_string()));
    assert_eq!(groups[1].root_path, "/projects/zed/x/1.txt");
}

#[test]
fn test_group_asset_paths_relative_against_cwd() {
    let inputs = strings(&["data/../scene.blend"]);
    let groups: Vec<AssetRootGroup> =
        group_asset_paths(&inputs, &vec![], &vec![], None, Some("/work/job"));
    assert_eq!(groups.len(), 1);
    assert_eq!(groups[0].inputs, vec!["/work/job/scene.blend".to_string()]);
}

#[test]
fn test_group_asset_paths_validated_missing_files_strict() {
    let inputs = strings(&["/nonexistent/file.txt"]);

    let result: Result<PathGroupingResult, PathGroupingError> = group_asset_paths_validated(
        &inputs,
        &vec![],
        &vec![],
        None,
        PathValidationMode { require_paths_exist: true },
        Some("/"),
    );

    assert!(result.is_err());
    match result.err().unwrap() {
        PathGroupingError::MisconfiguredInputs { missing, .. } => {
            assert!(!missing.is_empty());
        }
        _ => panic!("Expected MisconfiguredInputs error"),
    }
}

#[test]
fn test_group_asset_paths_validated_missing_files_lenient() {
    let inputs = strings(&["/nonexistent/file.txt"]);

    let result: Result<PathGroupingResult, PathGroupingError> = group_asset_paths_validated(
        &inputs,
        &vec![],
        &vec![],
        None,
        PathValidationMode { require_paths_exist: false },
        Some("/"),
    );

    assert!(result.is_ok());
    let grouping_result: PathGroupingResult = result.ok().unwrap();
    assert_eq!(grouping_result.demoted_to_references.len(), 1);
}

#[test]
fn test_group_asset_paths_validated_directory_as_input() {
    let inputs = strings(&["/"]);

    let result: Result<PathGroupingResult, PathGroupingError> = group_asset_paths_validated(
        &inputs,
        &vec![],
        &vec![],
        None,
        PathValidationMode { require_paths_exist: true },
        Some("/"),
    );

    assert!(result.is_err());
    match result.err().unwrap() {
        PathGroupingError::MisconfiguredInputs { directories, message, .. } => {
            assert!(!directories.is_empty());
            assert_eq!(
                message,
                "Job submission contains missing input files or directories specified as files."
            );
        }
        _ => panic!("Expected MisconfiguredInputs error"),
    }
}

#[test]
fn test_group_asset_paths_validated_tracks_skipped_shared() {
    let profile: StorageProfile = create_test_profile();
    let inputs = strings(&["/mnt/shared/asset.exr"]);

    let result: Result<PathGroupingResult, PathGroupingError> = group_asset_paths_validated(
        &inputs,
        &vec![],
        &vec![],
        Some(&profile),
        PathValidationMode { require_paths_exist: false },
        Some("/"),
    );

    assert!(result.is_ok());
    let grouping_result: PathGroupingResult = result.ok().unwrap();
    assert_eq!(grouping_result.skipped_shared.len(), 1);
}

#[test]
fn test_path_validation_mode_default_is_lenient() {
    let mode: PathValidationMode = Default::default();
    assert!(!mode.require_paths_exist);
}

#[test]
fn test_grouping_error_to_string() {
    let e = PathGroupingError::MissingInputFiles { missing: strings(&["/a", "/b"]) };
    assert_eq!(e.to_string(), "Missing input files:\n\t/a\n\t/b");
    let e = PathGroupingError::DirectoriesAsFiles { directories: strings(&["/d"]) };
    assert_eq!(e.to_string(), "Directories specified as input files:\n\t/d");
}

#[test]
fn test_common_path_single() {
    let paths = strings(&["/a/b/c"]);
    assert_eq!(common_path(&paths), Some("/a/b/c".to_string()));
}

#[test]
fn test_common_path_multiple() {
    let paths = strings(&["/a/b/c", "/a/b/d"]);
    assert_eq!(common_path(&paths), Some("/a/b".to_string()));
}

#[test]
fn test_common_path_empty() {
    let paths: Vec<String> = vec![];
    assert_eq!(common_path(&paths), None);
}

#[test]
fn test_common_path_no_common() {
    let paths = strings(&["/a/b", "/x/y"]);
    assert_eq!(common_path(&paths), Some("/".to_string()));
}

#[test]
fn test_common_path_utf8_paths() {
    let paths = strings(&["/プロジェクト/ファイル1.txt", "/プロジェクト/ファイル2.txt"]);
    assert_eq!(common_path(&paths), Some("/プロジェクト".to_string()));
}

#[test]
fn test_common_path_utf8_partial_match() {
    let paths = strings(&["/日本語/テスト", "/日本/別のパス"]);
    assert_eq!(common_path(&paths), Some("/".to_string()));
}

#[test]
fn test_common_path_mixed_ascii_utf8() {
    let paths = strings(&["/projects/日本語/file.txt", "/projects/日本語/other.txt"]);
    assert_eq!(common_path(&paths), Some("/projects/日本語".to_string()));
}

#[test]
fn test_parent_path_cases() {
    assert_eq!(parent_path("/a/b/c"), Some("/a/b".to_string()));
    assert_eq!(parent_path("/a"), Some("/".to_string()));
    assert_eq!(parent_path("/"), None);
}

#[test]
fn test_normalize_path_cases() {
    assert_eq!(normalize_path("/a/./b/../c", None), "/a/c");
    assert_eq!(normalize_path("x/y", Some("/base")), "/base/x/y");
}

#[test]
fn test_common_prefix_is_the_queried_path() {
    assert_eq!(common_prefix(&strings(&["/a/b/c", "/a/b/d"])), Some("/a/b".to_string()));
    assert_eq!(common_prefix(&strings(&["/a/b/c"])), None);
    assert_eq!(common_prefix(&strings(&["a/b", "x/y"])), None);
}

#[test]
fn test_common_path_with_answers() {
    let paths = strings(&["/a/b/f.txt", "/a/b/f.txt"]);
    assert_eq!(common_path_with(&paths, false), Some("/a/b/f.txt".to_string()));
    assert_eq!(common_path_with(&paths, true), Some("/a/b".to_string()));
    assert_eq!(common_path_with(&strings(&["/a/b", "/x/y"]), false), Some("/".to_string()));
}

#[test]
fn test_group_root_with_answers() {
    let paths = strings(&["/p/one.txt"]);
    assert_eq!(group_root_with(&paths, false, false), "/p/one.txt");
    assert_eq!(group_root_with(&paths, false, true), "/p");
    let none: Vec<String> = Vec::new();
    assert_eq!(group_root_with(&none, false, true), "");
}

#[test]
fn test_input_check_path() {
    let profile = create_test_profile();
    assert_eq!(input_check_path("in/../a.txt", None, Some("/w")), Some("/w/a.txt".to_string()));
    assert_eq!(input_check_path("/mnt/shared/x", Some(&profile), None), None);
}

#[test]
fn test_group_asset_paths_validated_with_answers() {
    let inputs = strings(&["/p/a.txt", "/p/missing.txt", "/p/dir"]);
    let none: Vec<String> = Vec::new();
    let exists = vec![true, false, true];
    let is_dir = vec![false, false, true];
    let strict = PathValidationMode { require_paths_exist: true };
    match group_asset_paths_validated_with(&inputs, &none, &none, None, strict, None, &exists, &is_dir) {
        Err(PathGroupingError::MisconfiguredInputs { missing, directories, .. }) => {
            assert_eq!(missing, strings(&["/p/missing.txt"]));
            assert_eq!(directories, strings(&["/p/dir"]));
        },
        _ => panic!("expected MisconfiguredInputs"),
    }
    let lenient = PathValidationMode { require_paths_exist: false };
    let exists2 = vec![true, false, true];
    let is_dir2 = vec![false, false, false];
    let r = group_asset_paths_validated_with(&inputs, &none, &none, None, lenient, None, &exists2, &is_dir2)
        .ok()
        .unwrap();
    assert_eq!(r.demoted_to_references, strings(&["/p/missing.txt"]));
    assert_eq!(r.groups.len(), 1);
    assert_eq!(r.groups[0].inputs, strings(&["/p/a.txt", "/p/dir"]));
}
