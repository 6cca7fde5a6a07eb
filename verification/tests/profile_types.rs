use rusty_attachments::profile_types::{
    FileSystemLocation, FileSystemLocationType, StorageProfile, StorageProfileOsFamily,
    StorageProfileWithId,
};
use std::collections::HashMap;

fn create_test_profile() -> StorageProfile {
    StorageProfile::with_locations(vec![
        FileSystemLocation {
            name: "ProjectFiles".into(),
            path: "/mnt/projects".into(),
            location_type: FileSystemLocationType::Local,
        },
        FileSystemLocation {
            name: "SharedAssets".into(),
            path: "/mnt/shared".into(),
            location_type: FileSystemLocationType::Shared,
        },
        FileSystemLocation {
            name: "DeepLocal".into(),
            path: "/mnt/projects/deep/nested".into(),
            location_type: FileSystemLocationType::Local,
        },
    ])
}

fn as_map(v: Vec<(String, String)>) -> HashMap<String, String> {
    v.into_iter().collect()
}

#[test]
fn test_local_locations() {
    let profile: StorageProfile = create_test_profile();
    let locals: HashMap<String, String> = as_map(profile.local_locations());

    assert_eq!(locals.len(), 2);
    assert_eq!(locals.get("/mnt/projects").map(|s| s.as_str()), Some("ProjectFiles"));
    assert_eq!(locals.get("/mnt/projects/deep/nested").map(|s| s.as_str()), Some("DeepLocal"));
}

#[test]
fn test_shared_locations() {
    let profile: StorageProfile = create_test_profile();
    let shared: HashMap<String, String> = as_map(profile.shared_locations());

    assert_eq!(shared.len(), 1);
    assert_eq!(shared.get("/mnt/shared").map(|s| s.as_str()), Some("SharedAssets"));
}

#[test]
fn test_is_shared() {
    let profile: StorageProfile = create_test_profile();

    assert!(profile.is_shared("/mnt/shared/file.txt"));
    assert!(profile.is_shared("/mnt/shared/deep/file.txt"));
    assert!(!profile.is_shared("/mnt/projects/file.txt"));
    assert!(!profile.is_shared("/other/file.txt"));
}

#[test]
fn test_is_shared_is_component_wise() {
    let profile: StorageProfile = create_test_profile();
    assert!(!profile.is_shared("/mnt/sharedother/file.txt"));
    assert!(profile.is_shared("/mnt/shared"));
}

#[test]
fn test_find_local_location_most_specific() {
    let profile: StorageProfile = create_test_profile();

    let result: Option<(&str, &str)> =
        profile.find_local_location("/mnt/projects/deep/nested/file.txt");
    assert_eq!(result, Some(("/mnt/projects/deep/nested", "DeepLocal")));

    let result: Option<(&str, &str)> = profile.find_local_location("/mnt/projects/other/file.txt");
    assert_eq!(result, Some(("/mnt/projects", "ProjectFiles")));

    let result: Option<(&str, &str)> = profile.find_local_location("/other/file.txt");
    assert_eq!(result, None);
}

#[test]
fn test_os_family_is_posix() {
    assert!(!StorageProfileOsFamily::Windows.is_posix());
    assert!(StorageProfileOsFamily::Linux.is_posix());
    assert!(StorageProfileOsFamily::Macos.is_posix());
}

#[test]
fn test_new_profile_is_empty() {
    let profile = StorageProfile::new();
    assert!(profile.file_system_locations.is_empty());
    assert!(profile.local_locations().is_empty());
}

#[test]
fn test_profile_with_id_to_storage_profile() {
    let p = StorageProfileWithId {
        storage_profile_id: "sp-1".into(),
        display_name: "Linux".into(),
        os_family: StorageProfileOsFamily::Linux,
        file_system_locations: vec![FileSystemLocation {
            name: "Proj".into(),
            path: "/proj".into(),
            location_type: FileSystemLocationType::Local,
        }],
    };
    let sp = p.to_storage_profile();
    assert_eq!(sp.file_system_locations.len(), 1);
    assert_eq!(sp.file_system_locations[0].name, "Proj");
    assert_eq!(sp.file_system_locations[0].path, "/proj");
}
