use rusty_attachments::caches::{
    parse_i64, HashCacheError, s3_check_entry_expired, HashCacheEntry, HashCacheKey, S3CheckCacheEntry,
    S3CheckCacheKey,
};
use rusty_attachments::constants::SMALL_FILE_THRESHOLD;
use rusty_attachments::data_cache::{s3_cache_object_key, FileSystemDataCache};
use rusty_attachments::download::{
    check_file_size, conflict_action, copy_candidate_text, executable_mode, first_free_copy, generate_unique_copy_path,
    mtime_parts,
    post_download_steps, ConflictAction, DownloadEntry, DownloadOptions,
    DEFAULT_DOWNLOAD_CONCURRENCY,
};
use rusty_attachments::storage_error::{CrtError, StorageError, TransferError};
use rusty_attachments::storage_types::{
    ConflictResolution, HashAlgorithm, S3Location, TransferStatistics,
};
use rusty_attachments::upload::{
    cas_object_present, chunked_upload_stats, separate_files_by_size, upload_kind, UploadEntry,
    UploadKind, UploadOptions, DEFAULT_UPLOAD_CONCURRENCY,
};

// ---- storage types ----

#[test]
fn test_s3_location_cas_key() {
    let loc = S3Location::new("bucket", "DeadlineCloud", "Data", "Manifests");
    assert_eq!(loc.cas_key("abc123", HashAlgorithm::Xxh128), "DeadlineCloud/Data/abc123.xxh128");
}

#[test]
fn test_s3_location_cas_key_empty_prefix() {
    let loc = S3Location::new("bucket", "", "Data", "Manifests");
    assert_eq!(loc.cas_key("abc123", HashAlgorithm::Xxh128), "Data/abc123.xxh128");
}

#[test]
fn test_s3_location_manifest_key() {
    let loc = S3Location::new("bucket", "DeadlineCloud", "Data", "Manifests");
    assert_eq!(
        loc.manifest_key("farm-123/queue-456/input.manifest"),
        "DeadlineCloud/Manifests/farm-123/queue-456/input.manifest"
    );
}

#[test]
fn test_s3_location_full_prefixes() {
    let loc = S3Location::new("bucket", "Root", "Data", "Manifests");
    assert_eq!(loc.full_cas_prefix(), "Root/Data");
    assert_eq!(loc.full_manifest_prefix(), "Root/Manifests");
    let loc = S3Location::new("bucket", "", "Data", "Manifests");
    assert_eq!(loc.full_cas_prefix(), "Data");
}

#[test]
fn test_hash_algorithm_extension() {
    assert_eq!(HashAlgorithm::Xxh128.extension(), "xxh128");
}

#[test]
fn test_transfer_statistics_merge() {
    let mut stats1 = TransferStatistics::uploaded(100);
    let stats2 = TransferStatistics::skipped(200);
    stats1.merge(stats2);

    assert_eq!(stats1.files_processed, 2);
    assert_eq!(stats1.files_transferred, 1);
    assert_eq!(stats1.files_skipped, 1);
    assert_eq!(stats1.bytes_transferred, 100);
    assert_eq!(stats1.bytes_skipped, 200);
}

#[test]
fn test_transfer_statistics_merge_keeps_errors() {
    let mut a = TransferStatistics::default();
    let mut b = TransferStatistics::default();
    b.errors.push(TransferError::new("k", StorageError::Cancelled));
    a.merge(b);
    assert_eq!(a.errors.len(), 1);
    assert_eq!(a.errors[0].key, "k");
}

#[test]
fn test_conflict_resolution_default_is_overwrite() {
    let r: ConflictResolution = Default::default();
    assert!(matches!(r, ConflictResolution::Overwrite));
}

// ---- storage errors ----

#[test]
fn test_storage_error_display_texts() {
    let e = StorageError::NotFound { bucket: "b".into(), key: "k".into() };
    assert_eq!(e.to_string(), "Object not found: s3://b/k");
    let e = StorageError::SizeMismatch { key: "k".into(), expected: 10, actual: 5 };
    assert_eq!(e.to_string(), "Size mismatch for k: expected 10 bytes, got 5");
    let e = StorageError::Cancelled;
    assert_eq!(e.to_string(), "Operation cancelled");
    let e = StorageError::InvalidConfig { message: "bad".into() };
    assert_eq!(e.to_string(), "Invalid configuration: bad");
}

#[test]
fn test_storage_error_is_retryable() {
    assert!(StorageError::NetworkError { message: "x".into(), retryable: true }.is_retryable());
    assert!(!StorageError::NetworkError { message: "x".into(), retryable: false }.is_retryable());
    assert!(!StorageError::Cancelled.is_retryable());
}

#[test]
fn test_crt_error_conversion() {
    let e = CrtError::SdkError { message: "boom".into(), retryable: true }.into_storage_error();
    assert!(e.is_retryable());
    let e = CrtError::ConfigError("cfg".into()).into_storage_error();
    assert_eq!(e.to_string(), "Invalid configuration: cfg");
}

// ---- data cache ----

#[test]
fn test_filesystem_cache_requires_absolute_path() {
    let result: Result<FileSystemDataCache, StorageError> =
        FileSystemDataCache::new("relative/path");
    assert!(result.is_err());
}

#[test]
fn test_get_object_key() {
    let cache: FileSystemDataCache = FileSystemDataCache::new("/tmp/cache").ok().unwrap();
    let key: String = cache.get_object_key("abc123", HashAlgorithm::Xxh128);
    assert_eq!(key, "abc123.xxh128");
    assert_eq!(cache.get_full_path("abc123", HashAlgorithm::Xxh128), "/tmp/cache/abc123.xxh128");
}

#[test]
fn test_s3_cache_object_key() {
    assert_eq!(s3_cache_object_key("Data", "h", HashAlgorithm::Xxh128), "Data/h.xxh128");
}

// ---- download ----

#[test]
fn test_download_options_default() {
    let options = DownloadOptions::default();
    assert!(options.verify_size);
    assert!(options.set_mtime);
    assert!(options.set_executable);
    assert_eq!(options.max_concurrency, DEFAULT_DOWNLOAD_CONCURRENCY);
    assert_eq!(options.small_file_threshold, SMALL_FILE_THRESHOLD);
}

#[test]
fn test_download_options_no_verification() {
    let options = DownloadOptions::no_verification();
    assert!(!options.verify_size);
    assert!(!options.set_mtime);
    assert!(!options.set_executable);
    assert_eq!(options.max_concurrency, DEFAULT_DOWNLOAD_CONCURRENCY);
}

#[test]
fn test_download_options_with_concurrency() {
    let options = DownloadOptions::default().with_max_concurrency(20);
    assert_eq!(options.max_concurrency, 20);
}

#[test]
fn test_download_options_with_threshold() {
    let options = DownloadOptions::default().with_small_file_threshold(100 * 1024 * 1024);
    assert_eq!(options.small_file_threshold, 100 * 1024 * 1024);
}

#[test]
fn test_generate_unique_copy_path() {
    let result = generate_unique_copy_path("/nonexistent/dir/test.txt").ok().unwrap();
    assert_eq!(result, "/nonexistent/dir/test (1).txt");
}

#[test]
fn test_generate_unique_copy_path_no_extension() {
    let result = generate_unique_copy_path("/nonexistent/dir/README").ok().unwrap();
    assert_eq!(result, "/nonexistent/dir/README (1)");
}

#[test]
fn test_first_free_copy_skips_taken_candidates() {
    let taken: Vec<bool> = vec![true, true, false];
    assert_eq!(first_free_copy("/dir/test.txt", &taken), Some("/dir/test (3).txt".to_string()));
    let free_first: Vec<bool> = vec![false];
    assert_eq!(first_free_copy("/dir/README", &free_first), Some("/dir/README (1)".to_string()));
}

#[test]
fn test_copy_candidate_text() {
    assert_eq!(copy_candidate_text("/dir/test.txt", 1), "/dir/test (1).txt");
    assert_eq!(copy_candidate_text("/dir/archive.tar.gz", 12), "/dir/archive.tar (12).gz");
    assert_eq!(copy_candidate_text("/dir/.hidden", 2), "/dir/.hidden (2)");
}

#[test]
fn test_first_free_copy_all_taken() {
    let taken: Vec<bool> = vec![true, true];
    assert_eq!(first_free_copy("/dir/test.txt", &taken), None);
    let none: Vec<bool> = Vec::new();
    assert_eq!(first_free_copy("/dir/test.txt", &none), None);
}

#[test]
fn test_verify_file_size() {
    assert!(check_file_size("/x/test.txt", 5, 5).is_ok());
    let result = check_file_size("/x/test.txt", 10, 5);
    assert!(matches!(result, Err(StorageError::SizeMismatch { expected: 10, actual: 5, .. })));
}

#[test]
fn test_conflict_actions() {
    assert_eq!(conflict_action(false, ConflictResolution::Skip), ConflictAction::Write);
    assert_eq!(conflict_action(true, ConflictResolution::Skip), ConflictAction::Skip);
    assert_eq!(conflict_action(true, ConflictResolution::Overwrite), ConflictAction::Write);
    assert_eq!(conflict_action(true, ConflictResolution::CreateCopy), ConflictAction::WriteCopy);
}

#[test]
fn test_executable_mode_adds_execute_bits() {
    assert_eq!(executable_mode(0o644), 0o755);
    assert_eq!(executable_mode(0o600), 0o700);
    assert_eq!(executable_mode(0o755), 0o755);
}

#[test]
fn test_mtime_parts() {
    assert_eq!(mtime_parts(1_500_000), (1, 500_000_000));
    assert_eq!(mtime_parts(0), (0, 0));
    assert_eq!(mtime_parts(1_234_567_890_123_456), (1_234_567_890, 123_456_000));
}

#[test]
fn test_post_download_steps() {
    let entry = DownloadEntry {
        relative_path: "a".into(),
        hash: Some("h".into()),
        chunkhashes: None,
        symlink_target: None,
        size: 1,
        mtime: Some(42),
        runnable: true,
    };
    let steps = post_download_steps(&DownloadOptions::default(), &entry);
    assert!(steps.verify_size);
    assert_eq!(steps.set_mtime, Some(42));
    assert!(steps.set_executable);
    let steps = post_download_steps(&DownloadOptions::no_verification(), &entry);
    assert!(!steps.verify_size);
    assert_eq!(steps.set_mtime, None);
    assert!(!steps.set_executable);
}

// ---- upload ----

#[test]
fn test_separate_files_by_size() {
    let entries: Vec<UploadEntry> = vec![
        UploadEntry {
            local_path: "small1.txt".to_string(),
            hash: Some("hash1".to_string()),
            chunkhashes: None,
            size: 1000,
        },
        UploadEntry {
            local_path: "large1.bin".to_string(),
            hash: Some("hash2".to_string()),
            chunkhashes: None,
            size: 100_000_000,
        },
        UploadEntry {
            local_path: "small2.txt".to_string(),
            hash: Some("hash3".to_string()),
            chunkhashes: None,
            size: 5000,
        },
    ];

    let threshold: u64 = SMALL_FILE_THRESHOLD;
    let (small, large) = separate_files_by_size(entries, threshold);

    assert_eq!(small.len(), 2);
    assert_eq!(large.len(), 1);
    assert_eq!(large[0].local_path, "large1.bin");
}

#[test]
fn test_upload_options_default() {
    let options = UploadOptions::default();
    assert_eq!(options.max_concurrency, DEFAULT_UPLOAD_CONCURRENCY);
    assert_eq!(options.small_file_threshold, SMALL_FILE_THRESHOLD);
}

#[test]
fn test_upload_options_with_concurrency() {
    let options = UploadOptions::default().with_max_concurrency(20);
    assert_eq!(options.max_concurrency, 20);
}

#[test]
fn test_upload_options_with_threshold() {
    let options = UploadOptions::default().with_small_file_threshold(100 * 1024 * 1024);
    assert_eq!(options.small_file_threshold, 100 * 1024 * 1024);
}

#[test]
fn test_upload_kind_variants() {
    let e = UploadEntry { local_path: "a".into(), hash: Some("h".into()), chunkhashes: None, size: 1 };
    assert!(matches!(upload_kind(&e), Ok(UploadKind::Single(h)) if h == "h"));
    let e = UploadEntry {
        local_path: "a".into(),
        hash: None,
        chunkhashes: Some(vec!["c1".into(), "c2".into()]),
        size: 1,
    };
    assert!(matches!(upload_kind(&e), Ok(UploadKind::Chunked(v)) if v.len() == 2));
    let e = UploadEntry { local_path: "a".into(), hash: None, chunkhashes: None, size: 1 };
    match upload_kind(&e) {
        Err(err) => assert_eq!(err.to_string(), "Entry a has no hash or chunkhashes"),
        Ok(_) => panic!("expected an error"),
    }
}

#[test]
fn test_cas_object_present() {
    assert!(cas_object_present(true, None, 10));
    assert!(cas_object_present(false, Some(10), 10));
    assert!(!cas_object_present(false, Some(9), 10));
    assert!(!cas_object_present(false, None, 10));
}

#[test]
fn test_chunked_upload_stats() {
    let s = chunked_upload_stats(&vec![100, 100, 50], &vec![true, false, false]);
    assert_eq!(s.files_processed, 1);
    assert_eq!(s.files_skipped, 1);
    assert_eq!(s.files_transferred, 2);
    assert_eq!(s.bytes_skipped, 100);
    assert_eq!(s.bytes_transferred, 150);
}

// ---- caches ----

#[test]
fn test_hash_cache_key_new() {
    let key: HashCacheKey = HashCacheKey::new("test/file.txt", 1024, 1234567890);
    assert_eq!(key.path, "test/file.txt");
    assert_eq!(key.size, 1024);
    assert_eq!(key.mtime, 1234567890);
}

#[test]
fn test_hash_cache_key_equality() {
    let key1: HashCacheKey = HashCacheKey::new("file.txt", 100, 1000);
    let key2: HashCacheKey = HashCacheKey::new("file.txt", 100, 1000);
    let key3: HashCacheKey = HashCacheKey::new("file.txt", 100, 2000);
    assert_eq!(key1, key2);
    assert_ne!(key1, key3);
}

#[test]
fn test_hash_cache_entry_new() {
    let entry: HashCacheEntry = HashCacheEntry::new("abc123", HashAlgorithm::Xxh128, 1000, 2000);
    assert_eq!(entry.hash, "abc123");
    assert_eq!(entry.hash_alg, HashAlgorithm::Xxh128);
    assert_eq!(entry.created_at, 1000);
    assert_eq!(entry.expires_at, 2000);
}

#[test]
fn test_hash_cache_entry_is_expired() {
    let entry: HashCacheEntry = HashCacheEntry::new("abc123", HashAlgorithm::Xxh128, 1000, 2000);
    assert!(!entry.is_expired(1500));
    assert!(entry.is_expired(2000));
    assert!(entry.is_expired(2500));
}

#[test]
fn test_hash_cache_entry_with_ttl() {
    let entry = HashCacheEntry::with_ttl("h", HashAlgorithm::Xxh128, 1000, 2);
    assert_eq!(entry.created_at, 1000);
    assert_eq!(entry.expires_at, 1000 + 2 * 86400);
    assert!(!entry.is_expired(1000 + 2 * 86400 - 1));
    assert!(entry.is_expired(1000 + 2 * 86400));
}

#[test]
fn test_s3_check_cache_key_new() {
    let key: S3CheckCacheKey = S3CheckCacheKey::new("my-bucket", "Data/abc123.xxh128");
    assert_eq!(key.s3_key, "my-bucket/Data/abc123.xxh128");
}

#[test]
fn test_s3_check_cache_key_from_s3_key() {
    let key: S3CheckCacheKey = S3CheckCacheKey::from_s3_key("my-bucket/Data/abc123.xxh128");
    assert_eq!(key.s3_key, "my-bucket/Data/abc123.xxh128");
}

#[test]
fn test_s3_check_cache_key_bucket() {
    let key: S3CheckCacheKey = S3CheckCacheKey::new("my-bucket", "Data/abc123.xxh128");
    assert_eq!(key.bucket(), Some("my-bucket"));
}

#[test]
fn test_s3_check_cache_key_key() {
    let key: S3CheckCacheKey = S3CheckCacheKey::new("my-bucket", "Data/abc123.xxh128");
    assert_eq!(key.key(), Some("Data/abc123.xxh128"));
}

#[test]
fn test_s3_check_cache_key_without_slash() {
    let key: S3CheckCacheKey = S3CheckCacheKey::from_s3_key("plain");
    assert_eq!(key.bucket(), None);
    assert_eq!(key.key(), None);
}

#[test]
fn test_s3_check_cache_key_equality() {
    let key1: S3CheckCacheKey = S3CheckCacheKey::new("bucket", "key");
    let key2: S3CheckCacheKey = S3CheckCacheKey::new("bucket", "key");
    let key3: S3CheckCacheKey = S3CheckCacheKey::new("bucket", "other");
    assert_eq!(key1, key2);
    assert_ne!(key1, key3);
}

#[test]
fn test_s3_check_cache_entry_new() {
    let entry: S3CheckCacheEntry =
        S3CheckCacheEntry::new("my-bucket", "Data/abc.xxh128", "1234567890");
    assert_eq!(entry.s3_key, "my-bucket/Data/abc.xxh128");
    assert_eq!(entry.last_seen_time, "1234567890");
}

#[test]
fn test_s3_check_cache_entry_from_s3_key() {
    let entry: S3CheckCacheEntry =
        S3CheckCacheEntry::from_s3_key("my-bucket/Data/abc.xxh128", "1234567890");
    assert_eq!(entry.s3_key, "my-bucket/Data/abc.xxh128");
    assert_eq!(entry.last_seen_time, "1234567890");
}

#[test]
fn test_s3_check_cache_entry_last_seen_timestamp() {
    let entry: S3CheckCacheEntry = S3CheckCacheEntry::new("bucket", "key", "1234567890");
    assert_eq!(entry.last_seen_timestamp(), Some(1234567890));
    let invalid_entry: S3CheckCacheEntry = S3CheckCacheEntry::new("bucket", "key", "not-a-number");
    assert_eq!(invalid_entry.last_seen_timestamp(), None);
}

#[test]
fn test_parse_i64_cases() {
    assert_eq!(parse_i64("-42"), Some(-42));
    assert_eq!(parse_i64("+7"), Some(7));
    assert_eq!(parse_i64(""), None);
    assert_eq!(parse_i64("9223372036854775807"), Some(i64::MAX));
    assert_eq!(parse_i64("9223372036854775808"), None);
}

#[test]
fn test_s3_check_entry_expired() {
    assert!(!s3_check_entry_expired("1000", 1000 + 86400, 1));
    assert!(s3_check_entry_expired("999", 1000 + 86400, 1));
    assert!(s3_check_entry_expired("garbage", 0, 1));
}

#[test]
fn test_hash_cache_error_text() {
    assert_eq!(HashCacheError::Sqlite("locked".into()).to_string(), "SQLite error: locked");
    assert_eq!(HashCacheError::InvalidEntry("x".into()).to_string(), "Invalid cache entry: x");
    let io = std::io::Error::new(std::io::ErrorKind::Other, "disk");
    assert_eq!(HashCacheError::Io(io).to_string(), "I/O error: disk");
}
