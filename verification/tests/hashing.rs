use rusty_attachments::hash::{format_hash_hex, hash_bytes, Xxh3Hasher};
use rusty_attachments::hash_upload::{
    build_result_manifest, build_result_manifest_staged, collect_work_items, memory_budget, parse_meminfo_value, permits_needed, pool_permits, HashUploadOptions,
    ProcessedItem, ProgressTracker, StagedPipelineConfig, StagedProcessedItem,
    UploadDeduplicator, UploadIntent, UploadResult, WorkItem, DEFAULT_MEMORY_BUDGET,
};
use rusty_attachments::machine_id::{machine_id_from, trim_text, UNKNOWN_MACHINE_ID};
use rusty_attachments::manifest_storage::{
    build_partial_input_manifest_prefix, compute_manifest_name_hash, compute_root_path_hash,
    format_input_manifest_s3_key, format_step_output_manifest_s3_key,
    format_task_output_manifest_s3_key, generate_random_guid, plan_input_manifest_upload,
    plan_output_manifest_upload, ManifestLocation,
    ManifestS3Metadata, METADATA_KEY_ASSET_ROOT, METADATA_KEY_ASSET_ROOT_JSON,
    METADATA_KEY_FILE_SYSTEM_LOCATION_NAME,
};
use rusty_attachments::manifest_data::{ManifestData, ManifestFilePath, ManifestPathV2023};
use std::collections::HashMap;

// ---- hashing ----

#[test]
fn test_hash_bytes_empty() {
    let hash: String = hash_bytes(b"");
    assert_eq!(hash.len(), 32);
    assert_eq!(hash, "99aa06d3014798d86001c324468d497f");
}

#[test]
fn test_hash_bytes_hello() {
    let hash: String = hash_bytes(b"hello world");
    assert_eq!(hash.len(), 32);
    assert_eq!(hash, hash_bytes(b"hello world"));
}

#[test]
fn test_hash_bytes_different_inputs() {
    let hash1: String = hash_bytes(b"hello");
    let hash2: String = hash_bytes(b"world");
    assert_ne!(hash1, hash2);
}

#[test]
fn test_xxh3_hasher_incremental() {
    let mut hasher: Xxh3Hasher = Xxh3Hasher::new();
    hasher.update(b"hello ");
    hasher.update(b"world");
    let incremental: String = hasher.finish_hex();

    let direct: String = hash_bytes(b"hello world");
    assert_eq!(incremental, direct);
}

#[test]
fn test_format_hash_hex_pads() {
    assert_eq!(format_hash_hex(0), "00000000000000000000000000000000");
    assert_eq!(format_hash_hex(0xab), "000000000000000000000000000000ab");
    assert_eq!(format_hash_hex(u128::MAX), "ffffffffffffffffffffffffffffffff");
}

// ---- machine id ----

#[test]
fn test_machine_id_from_contents() {
    assert_eq!(machine_id_from(Some("  abc123\n")), "abc123");
    assert_eq!(machine_id_from(Some(" \n\t")), UNKNOWN_MACHINE_ID);
    assert_eq!(machine_id_from(None), "unknown-machine-id");
}

#[test]
fn test_machine_id_from_is_deterministic() {
    assert_eq!(machine_id_from(Some("id\n")), machine_id_from(Some("id\n")));
}

#[test]
fn test_trim_text() {
    assert_eq!(trim_text("\u{3000} x y \t"), "x y");
    assert_eq!(trim_text(""), "");
}

// ---- hash upload options ----

#[test]
fn test_default_options() {
    let opts = HashUploadOptions::default();
    assert_eq!(opts.max_memory_bytes, 5 * 1024 * 1024 * 1024);
    assert_eq!(opts.max_concurrency, 32);
    assert_eq!(opts.chunk_size, 256 * 1024 * 1024);
    assert!(opts.use_hash_cache);
    assert!(opts.use_s3_check_cache);
    assert!(!opts.force_rehash);
}

#[test]
fn test_builder_pattern() {
    let opts = HashUploadOptions::new()
        .with_max_memory(512 * 1024 * 1024)
        .with_max_concurrency(20)
        .with_chunk_size(128 * 1024 * 1024)
        .with_hash_cache(false)
        .with_s3_check_cache(false)
        .with_force_rehash(true);

    assert_eq!(opts.max_memory_bytes, 512 * 1024 * 1024);
    assert_eq!(opts.max_concurrency, 20);
    assert_eq!(opts.chunk_size, 128 * 1024 * 1024);
    assert!(!opts.use_hash_cache);
    assert!(!opts.use_s3_check_cache);
    assert!(opts.force_rehash);
}

#[test]
fn test_auto_memory_returns_reasonable_value() {
    for (total, avail) in [(0u64, 0u64), (16 * 1024 * 1024, 8 * 1024 * 1024), (u32::MAX as u64, u32::MAX as u64)] {
        let mem: u64 = memory_budget(total, avail);
        assert!(mem >= 256 * 1024 * 1024);
        assert!(mem <= 16 * 1024 * 1024 * 1024);
    }
    assert!(DEFAULT_MEMORY_BUDGET >= 256 * 1024 * 1024);
}

#[test]
fn test_memory_budget_exact() {
    // 16 GiB total, 8 GiB available: max(4 GiB, 7 GiB) = 7 GiB
    assert_eq!(memory_budget(16 * 1024 * 1024, 8 * 1024 * 1024), 7 * 1024 * 1024 * 1024);
    assert_eq!(memory_budget(0, 0), 256 * 1024 * 1024);
}

#[test]
fn test_parse_meminfo_value() {
    assert_eq!(parse_meminfo_value("MemTotal:       16384 kB"), 16384);
    assert_eq!(parse_meminfo_value("MemTotal:"), 0);
    assert_eq!(parse_meminfo_value("MemTotal: abc kB"), 0);
}

#[test]
fn test_memory_pool_sizing() {
    assert_eq!(pool_permits(10 * 1024 * 1024, 1024 * 1024), 10);
    assert_eq!(pool_permits(10, 1024), 1);
    assert_eq!(permits_needed(0, 1024), 1);
    assert_eq!(permits_needed(1024, 1024), 1);
    assert_eq!(permits_needed(1025, 1024), 2);
}

// ---- progress ----

#[test]
fn test_new_tracker() {
    let tracker = ProgressTracker::new(100, 1000);
    assert_eq!(tracker.total_files, 100);
    assert_eq!(tracker.total_bytes, 1000);
    assert_eq!(tracker.hashed_files, 0);
    assert_eq!(tracker.uploaded_files, 0);
}

#[test]
fn test_record_hash_computed() {
    let mut tracker = ProgressTracker::new(10, 1000);
    tracker.record_hash_complete(100, false);
    assert_eq!(tracker.hashed_files, 1);
    assert_eq!(tracker.hashed_bytes, 100);
    assert_eq!(tracker.hash_skipped_files, 0);
}

#[test]
fn test_record_hash_cached() {
    let mut tracker = ProgressTracker::new(10, 1000);
    tracker.record_hash_complete(100, true);
    assert_eq!(tracker.hashed_files, 0);
    assert_eq!(tracker.hash_skipped_files, 1);
    assert_eq!(tracker.hash_skipped_bytes, 100);
}

#[test]
fn test_record_upload_transferred() {
    let mut tracker = ProgressTracker::new(10, 1000);
    tracker.record_upload_complete(100, false);
    assert_eq!(tracker.uploaded_files, 1);
    assert_eq!(tracker.uploaded_bytes, 100);
    assert_eq!(tracker.upload_skipped_files, 0);
}

#[test]
fn test_record_upload_skipped() {
    let mut tracker = ProgressTracker::new(10, 1000);
    tracker.record_upload_complete(100, true);
    assert_eq!(tracker.uploaded_files, 0);
    assert_eq!(tracker.upload_skipped_files, 1);
    assert_eq!(tracker.upload_skipped_bytes, 100);
}

#[test]
fn test_files_hashed_total() {
    let mut tracker = ProgressTracker::new(10, 1000);
    tracker.record_hash_complete(100, false);
    tracker.record_hash_complete(100, true);
    tracker.record_hash_complete(100, false);
    assert_eq!(tracker.files_hashed(), 3);
}

#[test]
fn test_upload_totals() {
    let mut tracker = ProgressTracker::new(10, 1000);
    tracker.record_upload_complete(300, false);
    tracker.record_upload_complete(200, true);
    assert_eq!(tracker.files_uploaded(), 2);
    assert_eq!(tracker.processed_upload_bytes(), 500);
}

// ---- deduplication ----

#[test]
fn test_first_uploader_proceeds() {
    let mut dedup = UploadDeduplicator::new();
    match dedup.register("hash1") {
        UploadIntent::Proceed => {}
        UploadIntent::Wait => panic!("Expected Proceed"),
    }
    assert_eq!(dedup.in_flight_count(), 1);
}

#[test]
fn test_second_uploader_waits() {
    let mut dedup = UploadDeduplicator::new();
    match dedup.register("hash1") {
        UploadIntent::Proceed => {}
        UploadIntent::Wait => panic!("Expected Proceed"),
    }
    match dedup.register("hash1") {
        UploadIntent::Proceed => panic!("Expected Wait"),
        UploadIntent::Wait => {}
    }
}

#[test]
fn test_complete_notifies_waiters() {
    let mut dedup = UploadDeduplicator::new();
    assert_eq!(dedup.register("hash1"), UploadIntent::Proceed);
    assert_eq!(dedup.register("hash1"), UploadIntent::Wait);
    assert_eq!(dedup.complete("hash1"), Some(UploadResult::Success));
    assert_eq!(dedup.in_flight_count(), 0);
}

#[test]
fn test_failed_allows_retry() {
    let mut dedup = UploadDeduplicator::new();
    assert_eq!(dedup.register("hash1"), UploadIntent::Proceed);
    assert_eq!(dedup.failed("hash1"), Some(UploadResult::Failed));
    assert_eq!(dedup.register("hash1"), UploadIntent::Proceed);
}

#[test]
fn test_different_hashes_independent() {
    let mut dedup = UploadDeduplicator::new();
    match dedup.register("hash1") {
        UploadIntent::Proceed => {}
        UploadIntent::Wait => panic!("Expected Proceed"),
    }
    match dedup.register("hash2") {
        UploadIntent::Proceed => {}
        UploadIntent::Wait => panic!("Expected Proceed for different hash"),
    }
    assert_eq!(dedup.in_flight_count(), 2);
}

#[test]
fn test_complete_unknown_hash() {
    let mut dedup = UploadDeduplicator::default();
    assert_eq!(dedup.complete("nope"), None);
    assert_eq!(dedup.in_flight_count(), 0);
}

// ---- manifest storage ----

#[test]
fn test_generate_random_guid() {
    let guid1: String = generate_random_guid();
    let guid2: String = generate_random_guid();
    assert_eq!(guid1.len(), 32);
    assert_eq!(guid2.len(), 32);
    assert_ne!(guid1, guid2);
    assert!(guid1.chars().all(|c| c.is_ascii_hexdigit()));
}

#[test]
fn test_build_partial_input_manifest_prefix() {
    let p = build_partial_input_manifest_prefix("farm-1", "queue-2");
    assert!(p.starts_with("farm-1/queue-2/Inputs/"));
    assert_eq!(p.len(), "farm-1/queue-2/Inputs/".len() + 32);
}

#[test]
fn test_compute_manifest_name_hash() {
    let hash1: String = compute_manifest_name_hash("/path/to/assets");
    let hash2: String = compute_manifest_name_hash("/path/to/assets");
    let hash3: String = compute_manifest_name_hash("/different/path");
    assert_eq!(hash1, hash2);
    assert_ne!(hash1, hash3);
    assert_eq!(hash1.len(), 32);
    assert_eq!(hash1, hash_bytes(b"/path/to/assets"));
}

#[test]
fn test_compute_root_path_hash() {
    let hash1: String = compute_root_path_hash(None, "/mnt/projects/job1");
    let hash2: String = compute_root_path_hash(Some("ProjectShare"), "/mnt/projects/job1");
    assert_ne!(hash1, hash2);
    assert_eq!(hash1.len(), 32);
    assert_eq!(hash2.len(), 32);
    assert_eq!(hash2, hash_bytes(b"ProjectShare/mnt/projects/job1"));
}

fn as_map(v: Vec<(String, String)>) -> HashMap<String, String> {
    v.into_iter().collect()
}

#[test]
fn test_manifest_s3_metadata_ascii() {
    let metadata: ManifestS3Metadata = ManifestS3Metadata::new("/ascii/path");
    let s3_meta: HashMap<String, String> = as_map(metadata.to_s3_metadata());
    assert_eq!(s3_meta.get(METADATA_KEY_ASSET_ROOT), Some(&"/ascii/path".to_string()));
    assert!(!s3_meta.contains_key(METADATA_KEY_ASSET_ROOT_JSON));
}

#[test]
fn test_manifest_s3_metadata_non_ascii() {
    let metadata: ManifestS3Metadata = ManifestS3Metadata::new("/path/日本語");
    let s3_meta: HashMap<String, String> = as_map(metadata.to_s3_metadata());
    assert!(s3_meta.contains_key(METADATA_KEY_ASSET_ROOT));
    assert!(s3_meta.contains_key(METADATA_KEY_ASSET_ROOT_JSON));
    let json_value: &String = s3_meta.get(METADATA_KEY_ASSET_ROOT_JSON).unwrap();
    assert!(json_value.starts_with('"'));
}

#[test]
fn test_manifest_s3_metadata_with_location() {
    let metadata: ManifestS3Metadata = ManifestS3Metadata::with_location("/path", "MyLocation");
    let s3_meta: HashMap<String, String> = as_map(metadata.to_s3_metadata());
    assert_eq!(
        s3_meta.get(METADATA_KEY_FILE_SYSTEM_LOCATION_NAME),
        Some(&"MyLocation".to_string())
    );
}

#[test]
fn test_manifest_s3_metadata_roundtrip() {
    let original: ManifestS3Metadata =
        ManifestS3Metadata::with_location("/path/to/assets", "SharedDrive");
    let s3_meta = original.to_s3_metadata();
    let parsed: ManifestS3Metadata = ManifestS3Metadata::from_s3_metadata(&s3_meta).unwrap();
    assert_eq!(parsed.asset_root, original.asset_root);
    assert_eq!(parsed.file_system_location_name, original.file_system_location_name);
}

#[test]
fn test_manifest_s3_metadata_roundtrip_non_ascii() {
    let original: ManifestS3Metadata = ManifestS3Metadata::new("/データ/\"quoted\"");
    let parsed = ManifestS3Metadata::from_s3_metadata(&original.to_s3_metadata()).unwrap();
    assert_eq!(parsed.asset_root, original.asset_root);
    assert_eq!(parsed.file_system_location_name, None);
}

#[test]
fn test_manifest_s3_metadata_missing_root() {
    let meta: Vec<(String, String)> = vec![("other".into(), "x".into())];
    assert!(ManifestS3Metadata::from_s3_metadata(&meta).is_none());
}

#[test]
fn test_manifest_location_prefixes() {
    let location: ManifestLocation =
        ManifestLocation::new("my-bucket", "DeadlineCloud", "farm-123", "queue-456");
    assert_eq!(location.manifest_prefix(), "DeadlineCloud/Manifests");
    assert_eq!(
        location.input_manifest_prefix(),
        "DeadlineCloud/Manifests/farm-123/queue-456/Inputs"
    );
}

#[test]
fn test_manifest_location_empty_prefix() {
    let location: ManifestLocation = ManifestLocation::new("my-bucket", "", "farm-123", "queue-456");
    assert_eq!(location.manifest_prefix(), "Manifests");
    assert_eq!(location.input_manifest_prefix(), "Manifests/farm-123/queue-456/Inputs");
}

#[test]
fn test_format_input_manifest_s3_key() {
    let key: String = format_input_manifest_s3_key(
        "DeadlineCloud/Manifests",
        "farm-123",
        "queue-456",
        "abcd1234",
        "e5f6g7h8_input",
    );
    assert_eq!(key, "DeadlineCloud/Manifests/farm-123/queue-456/Inputs/abcd1234/e5f6g7h8_input");
}

#[test]
fn test_format_input_manifest_s3_key_empty_prefix() {
    let key: String =
        format_input_manifest_s3_key("Manifests", "farm-123", "queue-456", "guid1234", "hash_input");
    assert_eq!(key, "Manifests/farm-123/queue-456/Inputs/guid1234/hash_input");
}

#[test]
fn test_format_task_output_manifest_s3_key() {
    let key: String = format_task_output_manifest_s3_key(
        "DeadlineCloud/Manifests",
        "farm-123",
        "queue-456",
        "job-789",
        "step-abc",
        "task-def",
        "2025-05-22T22:17:03.409012Z",
        "sessionaction-xyz",
        "hash123_output",
    );
    assert_eq!(
        key,
        "DeadlineCloud/Manifests/farm-123/queue-456/job-789/step-abc/task-def/2025-05-22T22:17:03.409012Z_sessionaction-xyz/hash123_output"
    );
}

#[test]
fn test_format_step_output_manifest_s3_key() {
    let key: String = format_step_output_manifest_s3_key(
        "DeadlineCloud/Manifests",
        "farm-123",
        "queue-456",
        "job-789",
        "step-abc",
        "2025-05-22T22:17:03.409012Z",
        "sessionaction-xyz",
        "hash123_output",
    );
    assert_eq!(
        key,
        "DeadlineCloud/Manifests/farm-123/queue-456/job-789/step-abc/2025-05-22T22:17:03.409012Z_sessionaction-xyz/hash123_output"
    );
}

#[test]
fn test_format_task_vs_step_output_manifest_s3_key_difference() {
    let task_key: String = format_task_output_manifest_s3_key(
        "Manifests",
        "farm",
        "queue",
        "job",
        "step",
        "task",
        "2025-01-01T00:00:00.000000Z",
        "session",
        "hash_output",
    );
    let step_key: String = format_step_output_manifest_s3_key(
        "Manifests",
        "farm",
        "queue",
        "job",
        "step",
        "2025-01-01T00:00:00.000000Z",
        "session",
        "hash_output",
    );
    assert!(task_key.contains("/task/"));
    assert!(!step_key.contains("/task/"));
    assert!(task_key.ends_with("hash_output"));
    assert!(step_key.ends_with("hash_output"));
}

// ---- result manifests and upload plans ----

#[test]
fn test_build_result_manifest_v2023() {
    let m = ManifestData::V2023_03_03 {
        paths: vec![
            ManifestPathV2023 { path: "a.txt".into(), hash: "".into(), size: 1, mtime: 2 },
            ManifestPathV2023 { path: "b.txt".into(), hash: "old".into(), size: 3, mtime: 4 },
        ],
    };
    let processed: Vec<ProcessedItem> = [("/root/a.txt", "h1"), ("/root/a.txt", "h2"), ("/other/b.txt", "x")]
        .iter()
        .map(|(p, h)| ProcessedItem {
            path: p.to_string(),
            hash: h.to_string(),
            size: 0,
            upload_skipped: false,
            hash_cached: false,
        })
        .collect();
    match build_result_manifest(m, "/root", &processed) {
        Ok(ManifestData::V2023_03_03 { paths }) => {
            assert_eq!(paths[0].hash, "h2");
            assert_eq!(paths[1].hash, "old");
            assert_eq!(paths[1].size, 3);
        }
        _ => panic!("Expected a v2023 manifest"),
    }
}

#[test]
fn test_build_result_manifest_v2025_skips_symlinks() {
    let m = ManifestData::V2025_12_04_beta {
        dirs: vec![],
        paths: vec![
            ManifestFilePath::file("f".into(), "".into(), 1, 1),
            ManifestFilePath::symlink("l".into(), "f".into()),
        ],
        parent_manifest_hash: Some("p".into()),
    };
    let processed: Vec<StagedProcessedItem> = [("r/f", "hf"), ("r/l", "hl")]
        .iter()
        .map(|(p, h)| StagedProcessedItem {
            path: p.to_string(),
            hash: h.to_string(),
            size: 1,
            upload_skipped: true,
            hash_cached: true,
        })
        .collect();
    match build_result_manifest_staged(m, "r", &processed) {
        Ok(ManifestData::V2025_12_04_beta { paths, parent_manifest_hash, .. }) => {
            assert_eq!(paths[0].hash, Some("hf".to_string()));
            assert_eq!(paths[1].hash, None);
            assert_eq!(parent_manifest_hash, Some("p".to_string()));
        }
        _ => panic!("Expected a v2025 manifest"),
    }
}

#[test]
fn test_plan_input_manifest_upload() {
    let loc = ManifestLocation::new("bucket", "Root", "farm-1", "queue-1");
    let m = ManifestData::V2023_03_03 { paths: vec![] };
    let plan = plan_input_manifest_upload(&loc, &m, b"{}", "/assets", Some("Loc"));
    assert_eq!(plan.bucket, "bucket");
    let prefix = "Root/Manifests/farm-1/queue-1/Inputs/";
    assert!(plan.key.starts_with(prefix));
    let suffix = format!("/{}_input", compute_manifest_name_hash("/assets"));
    assert!(plan.key.ends_with(&suffix));
    assert_eq!(plan.key.len(), prefix.len() + 32 + suffix.len());
    assert_eq!(plan.content_type, "application/x-deadline-manifest-2023-03-03");
    assert_eq!(plan.manifest_hash, hash_bytes(b"{}"));
    let meta = as_map(plan.metadata);
    assert_eq!(meta.get(METADATA_KEY_FILE_SYSTEM_LOCATION_NAME), Some(&"Loc".to_string()));
}

#[test]
fn test_plan_output_manifest_upload() {
    let loc = ManifestLocation::new("bucket", "", "farm", "queue");
    let m = ManifestData::V2025_12_04_beta { dirs: vec![], paths: vec![], parent_manifest_hash: None };
    let ts = "2025-01-01T00:00:00.000000Z";
    let task = plan_output_manifest_upload(&loc, "job", "step", Some("task"), "sa", ts, &m, b"x", "/out", None);
    let name = format!("{}_output", compute_root_path_hash(None, "/out"));
    assert_eq!(task.key, format!("Manifests/farm/queue/job/step/task/{}_sa/{}", ts, name));
    let step = plan_output_manifest_upload(&loc, "job", "step", None, "sa", ts, &m, b"x", "/out", None);
    assert_eq!(step.key, format!("Manifests/farm/queue/job/step/{}_sa/{}", ts, name));
    assert_eq!(step.content_type, "application/x-deadline-manifest-2025-12-04-beta");
}

#[test]
fn test_staged_pipeline_config() {
    let d = StagedPipelineConfig::default();
    assert_eq!((d.read_concurrency, d.hash_concurrency, d.upload_concurrency), (16, 16, 32));
    assert_eq!(d.max_memory_bytes, 5 * 1024 * 1024 * 1024);
    assert_eq!(d.permit_size, 64 * 1024 * 1024);
    let opts = HashUploadOptions::new().with_max_memory(1234);
    let c = StagedPipelineConfig::from(&opts);
    assert_eq!(c.max_memory_bytes, 1234);
    assert_eq!(c.upload_concurrency, 32);
}

#[test]
fn test_collect_work_items_v2023() {
    let paths: Vec<ManifestPathV2023> = vec![
        ManifestPathV2023 { path: "file1.txt".to_string(), hash: "abc".to_string(), size: 100, mtime: 1000 },
        ManifestPathV2023 { path: "file2.txt".to_string(), hash: "def".to_string(), size: 200, mtime: 2000 },
    ];
    let manifest = ManifestData::V2023_03_03 { paths };
    let (items, total): (Vec<WorkItem>, u64) = collect_work_items(&manifest, "/root").ok().unwrap();
    assert_eq!(items.len(), 2);
    assert_eq!(items[0].path, "/root/file1.txt");
    assert_eq!(items[0].size, 100);
    assert_eq!(items[1].path, "/root/file2.txt");
    assert_eq!(items[1].size, 200);
    assert_eq!(total, 300);
}

#[test]
fn test_collect_work_items_v2025_skips_symlinks_and_deletions() {
    let manifest = ManifestData::V2025_12_04_beta {
        dirs: vec![],
        paths: vec![
            ManifestFilePath::file("a".into(), "h".into(), 5, 6),
            ManifestFilePath::symlink("l".into(), "a".into()),
            ManifestFilePath::deleted("gone".into()),
        ],
        parent_manifest_hash: None,
    };
    let (items, total) = collect_work_items(&manifest, "/r").ok().unwrap();
    assert_eq!(items.len(), 1);
    assert_eq!(items[0].path, "/r/a");
    assert_eq!(items[0].mtime, 6);
    assert_eq!(total, 5);
}

#[test]
fn test_upload_statistics_from_tracker() {
    let mut tracker = ProgressTracker::new(3, 600);
    tracker.record_hash_complete(100, false);
    tracker.record_hash_complete(200, true);
    tracker.record_upload_complete(100, false);
    tracker.record_upload_complete(200, true);
    let s = tracker.upload_statistics();
    assert_eq!(s.files_processed, 2);
    assert_eq!(s.files_transferred, 1);
    assert_eq!(s.files_skipped, 1);
    assert_eq!(s.bytes_transferred, 100);
    assert_eq!(s.bytes_skipped, 200);
    assert!(s.errors.is_empty());
}
