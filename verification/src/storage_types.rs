//! Shared data structures for storage operations.

use vstd::prelude::*;

use crate::storage_error::TransferError;
use crate::text::{append_str, own, string_of};

verus! {

/// Hash algorithms that name CAS objects.
#[derive(PartialEq, Eq, Structural, Clone, Copy, Debug)]
pub enum HashAlgorithm {
    /// XXH3 with 128-bit output.
    Xxh128,
}

/// The file extension of an algorithm's CAS objects.
pub open spec fn algorithm_extension(a: HashAlgorithm) -> Seq<char> {
    match a {
        HashAlgorithm::Xxh128 => "xxh128"@,
    }
}

impl HashAlgorithm {
    /// The file extension used for objects hashed with this algorithm.
    pub fn extension(&self) -> (r: &'static str)
        ensures
            r@ == algorithm_extension(*self),
    {
        match self {
            HashAlgorithm::Xxh128 => "xxh128",
        }
    }
}

/// AWS credentials.
pub struct AwsCredentials {
    pub access_key_id: String,
    pub secret_access_key: String,
    pub session_token: Option<String>,
}

/// S3 bucket and prefix configuration for CAS storage.
pub struct S3Location {
    /// S3 bucket name.
    pub bucket: String,
    /// Root prefix for all operations (e.g., "DeadlineCloud").
    pub root_prefix: String,
    /// CAS data prefix (e.g., "Data").
    pub cas_prefix: String,
    /// Manifest prefix (e.g., "Manifests").
    pub manifest_prefix: String,
}

/// `prefix/rest` when the root prefix is set, else `rest` alone.
pub open spec fn under_root(root: Seq<char>, rest: Seq<char>) -> Seq<char> {
    if root.len() == 0 {
        rest
    } else {
        root + "/"@ + rest
    }
}

impl S3Location {
    /// Create a new S3 location configuration.
    pub fn new(bucket: &str, root_prefix: &str, cas_prefix: &str, manifest_prefix: &str) -> (r: Self)
        ensures
            r.bucket@ == bucket@,
            r.root_prefix@ == root_prefix@,
            r.cas_prefix@ == cas_prefix@,
            r.manifest_prefix@ == manifest_prefix@,
    {
        S3Location {
            bucket: own(bucket),
            root_prefix: own(root_prefix),
            cas_prefix: own(cas_prefix),
            manifest_prefix: own(manifest_prefix),
        }
    }

    /// The full S3 key for a CAS object:
    /// `{root_prefix}/{cas_prefix}/{hash}.{extension}`, without the root
    /// part when the root prefix is empty.
    pub fn cas_key(&self, hash: &str, algorithm: HashAlgorithm) -> (r: String)
        ensures
            r@ == under_root(
                self.root_prefix@,
                self.cas_prefix@ + "/"@ + hash@ + "."@ + algorithm_extension(algorithm),
            ),
    {
        let mut out: Vec<char> = Vec::new();
        if self.root_prefix.as_str().unicode_len() != 0 {
            append_str(&mut out, self.root_prefix.as_str());
            append_str(&mut out, "/");
        }
        append_str(&mut out, self.cas_prefix.as_str());
        append_str(&mut out, "/");
        append_str(&mut out, hash);
        append_str(&mut out, ".");
        append_str(&mut out, algorithm.extension());
        assert(out@ =~= under_root(
            self.root_prefix@,
            self.cas_prefix@ + "/"@ + hash@ + "."@ + algorithm_extension(algorithm),
        ));
        string_of(&out)
    }

    /// The full S3 key for a manifest: `{root_prefix}/{manifest_prefix}/{path}`,
    /// without the root part when the root prefix is empty.
    pub fn manifest_key(&self, path: &str) -> (r: String)
        ensures
            r@ == under_root(self.root_prefix@, self.manifest_prefix@ + "/"@ + path@),
    {
        let mut out: Vec<char> = Vec::new();
        if self.root_prefix.as_str().unicode_len() != 0 {
            append_str(&mut out, self.root_prefix.as_str());
            append_str(&mut out, "/");
        }
        append_str(&mut out, self.manifest_prefix.as_str());
        append_str(&mut out, "/");
        append_str(&mut out, path);
        assert(out@ =~= under_root(self.root_prefix@, self.manifest_prefix@ + "/"@ + path@));
        string_of(&out)
    }

    /// The full CAS prefix.
    pub fn full_cas_prefix(&self) -> (r: String)
        ensures
            r@ == under_root(self.root_prefix@, self.cas_prefix@),
    {
        let mut out: Vec<char> = Vec::new();
        if self.root_prefix.as_str().unicode_len() != 0 {
            append_str(&mut out, self.root_prefix.as_str());
            append_str(&mut out, "/");
        }
        append_str(&mut out, self.cas_prefix.as_str());
        assert(out@ =~= under_root(self.root_prefix@, self.cas_prefix@));
        string_of(&out)
    }

    /// The full manifest prefix.
    pub fn full_manifest_prefix(&self) -> (r: String)
        ensures
            r@ == under_root(self.root_prefix@, self.manifest_prefix@),
    {
        let mut out: Vec<char> = Vec::new();
        if self.root_prefix.as_str().unicode_len() != 0 {
            append_str(&mut out, self.root_prefix.as_str());
            append_str(&mut out, "/");
        }
        append_str(&mut out, self.manifest_prefix.as_str());
        assert(out@ =~= under_root(self.root_prefix@, self.manifest_prefix@));
        string_of(&out)
    }
}

/// A CAS key is the full CAS prefix, a separator, then the object's file
/// name; a manifest key is the full manifest prefix, a separator, then the
/// manifest's path.
pub proof fn lemma_keys_extend_prefixes(
    root: Seq<char>,
    cas: Seq<char>,
    manifests: Seq<char>,
    hash: Seq<char>,
    ext: Seq<char>,
    path: Seq<char>,
)
    ensures
        under_root(root, cas + "/"@ + hash + "."@ + ext) == under_root(root, cas) + "/"@ + hash
            + "."@ + ext,
        under_root(root, manifests + "/"@ + path) == under_root(root, manifests) + "/"@ + path,
{
    assert(under_root(root, cas + "/"@ + hash + "."@ + ext) =~= under_root(root, cas) + "/"@ + hash
        + "."@ + ext);
    assert(under_root(root, manifests + "/"@ + path) =~= under_root(root, manifests) + "/"@ + path);
}

/// Source of data for upload.
pub enum DataSource {
    /// Read from file at path.
    FilePath(String),
    /// Read from file at path, specific byte range (for chunked uploads).
    FileRange { path: String, offset: u64, length: u64 },
    /// In-memory bytes.
    Bytes(Vec<u8>),
}

/// Destination for downloaded data.
pub enum DataDestination {
    /// Write to file at path.
    FilePath(String),
    /// Write to file at path, specific offset (for chunked downloads).
    FileOffset { path: String, offset: u64 },
    /// Return as in-memory bytes.
    Memory,
}

/// Request to upload a single object to CAS.
pub struct CasUploadRequest {
    /// Content hash (becomes the S3 key).
    pub hash: String,
    /// Hash algorithm used.
    pub algorithm: HashAlgorithm,
    /// Expected size in bytes.
    pub size: u64,
    /// Data source - either file path or in-memory bytes.
    pub source: DataSource,
}

/// Request to download a single object from CAS.
pub struct CasDownloadRequest {
    /// Content hash (the S3 key).
    pub hash: String,
    /// Hash algorithm used.
    pub algorithm: HashAlgorithm,
    /// Expected size in bytes (for validation).
    pub expected_size: u64,
    /// Destination - either file path or in-memory buffer.
    pub destination: DataDestination,
}

/// Result of a single upload operation.
pub struct UploadResult {
    /// The hash/key that was uploaded.
    pub hash: String,
    /// Bytes transferred (0 if skipped due to existence check).
    pub bytes_transferred: u64,
    /// Whether the object was actually uploaded (false if already existed).
    pub was_uploaded: bool,
}

/// Result of a single download operation.
pub struct DownloadResult {
    /// The hash/key that was downloaded.
    pub hash: String,
    /// Bytes transferred.
    pub bytes_transferred: u64,
    /// Downloaded data (only populated if destination was Memory).
    pub data: Option<Vec<u8>>,
}

/// Aggregated statistics for batch operations.
pub struct TransferStatistics {
    /// Total files processed.
    pub files_processed: u64,
    /// Files actually transferred (not skipped).
    pub files_transferred: u64,
    /// Files skipped (already existed or unchanged).
    pub files_skipped: u64,
    /// Total bytes transferred.
    pub bytes_transferred: u64,
    /// Total bytes skipped.
    pub bytes_skipped: u64,
    /// Errors encountered (non-fatal).
    pub errors: Vec<TransferError>,
}

impl Default for TransferStatistics {
    fn default() -> (r: Self)
        ensures
            r.files_processed == 0,
            r.files_transferred == 0,
            r.files_skipped == 0,
            r.bytes_transferred == 0,
            r.bytes_skipped == 0,
            r.errors@.len() == 0,
    {
        TransferStatistics {
            files_processed: 0,
            files_transferred: 0,
            files_skipped: 0,
            bytes_transferred: 0,
            bytes_skipped: 0,
            errors: Vec::new(),
        }
    }
}

/// Every processed file was either transferred or skipped.
pub open spec fn stats_balanced(s: TransferStatistics) -> bool {
    s.files_processed == s.files_transferred + s.files_skipped
}

/// The sum of two statistics' counters fits in `u64`.
pub open spec fn stats_can_merge(a: TransferStatistics, b: TransferStatistics) -> bool {
    &&& a.files_processed + b.files_processed <= u64::MAX
    &&& a.files_transferred + b.files_transferred <= u64::MAX
    &&& a.files_skipped + b.files_skipped <= u64::MAX
    &&& a.bytes_transferred + b.bytes_transferred <= u64::MAX
    &&& a.bytes_skipped + b.bytes_skipped <= u64::MAX
}

impl TransferStatistics {
    /// Statistics for one skipped file of `size` bytes.
    pub fn skipped(size: u64) -> (r: Self)
        ensures
            r.files_processed == 1,
            r.files_transferred == 0,
            r.files_skipped == 1,
            r.bytes_transferred == 0,
            r.bytes_skipped == size,
            r.errors@.len() == 0,
    {
        TransferStatistics {
            files_processed: 1,
            files_transferred: 0,
            files_skipped: 1,
            bytes_transferred: 0,
            bytes_skipped: size,
            errors: Vec::new(),
        }
    }

    /// Statistics for one uploaded file of `size` bytes.
    pub fn uploaded(size: u64) -> (r: Self)
        ensures
            r.files_processed == 1,
            r.files_transferred == 1,
            r.files_skipped == 0,
            r.bytes_transferred == size,
            r.bytes_skipped == 0,
            r.errors@.len() == 0,
    {
        TransferStatistics {
            files_processed: 1,
            files_transferred: 1,
            files_skipped: 0,
            bytes_transferred: size,
            bytes_skipped: 0,
            errors: Vec::new(),
        }
    }

    /// Merge another statistics into this one: counters add up and the
    /// other's errors follow this one's.
    pub fn merge(&mut self, other: Self)
        requires
            stats_can_merge(*old(self), other),
        ensures
            final(self).files_processed == old(self).files_processed + other.files_processed,
            final(self).files_transferred == old(self).files_transferred + other.files_transferred,
            final(self).files_skipped == old(self).files_skipped + other.files_skipped,
            final(self).bytes_transferred == old(self).bytes_transferred + other.bytes_transferred,
            final(self).bytes_skipped == old(self).bytes_skipped + other.bytes_skipped,
            final(self).errors@ == old(self).errors@ + other.errors@,
    {
        let mut other = other;
        self.files_processed = self.files_processed + other.files_processed;
        self.files_transferred = self.files_transferred + other.files_transferred;
        self.files_skipped = self.files_skipped + other.files_skipped;
        self.bytes_transferred = self.bytes_transferred + other.bytes_transferred;
        self.bytes_skipped = self.bytes_skipped + other.bytes_skipped;
        self.errors.append(&mut other.errors);
    }
}

/// Merging keeps the balance: when every processed file of both
/// statistics was transferred or skipped, the same holds of their merge.
pub proof fn lemma_merge_keeps_balance(a: TransferStatistics, b: TransferStatistics)
    requires
        stats_balanced(a),
        stats_balanced(b),
    ensures
        a.files_processed + b.files_processed == (a.files_transferred + b.files_transferred) + (
        a.files_skipped + b.files_skipped),
{
}

/// Progress update for transfer operations.
pub struct TransferProgress {
    /// Current operation type.
    pub operation: OperationType,
    /// Current file/object being processed.
    pub current_key: String,
    /// Bytes transferred so far for current object.
    pub current_bytes: u64,
    /// Total bytes for current object.
    pub current_total: u64,
    /// Overall progress: objects completed.
    pub overall_completed: u64,
    /// Overall progress: total objects.
    pub overall_total: u64,
    /// Overall bytes transferred.
    pub overall_bytes: u64,
    /// Overall total bytes.
    pub overall_total_bytes: u64,
}

/// Type of operation in progress.
#[derive(PartialEq, Eq, Structural, Clone, Copy, Debug)]
pub enum OperationType {
    CheckingExistence,
    Uploading,
    Downloading,
    Hashing,
}

/// How to handle conflicts when downloading files.
#[derive(PartialEq, Eq, Structural, Clone, Copy, Debug)]
pub enum ConflictResolution {
    /// Skip files that already exist locally.
    Skip,
    /// Overwrite existing files.
    Overwrite,
    /// Create copy with suffix: "file (1).ext".
    CreateCopy,
}

impl Default for ConflictResolution {
    fn default() -> (r: Self)
        ensures
            r == ConflictResolution::Overwrite,
    {
        ConflictResolution::Overwrite
    }
}

/// Information about an S3 object from list/head operations.
pub struct ObjectInfo {
    /// S3 object key.
    pub key: String,
    /// Object size in bytes.
    pub size: u64,
    /// Last modified timestamp (Unix epoch seconds).
    pub last_modified: Option<i64>,
    /// ETag (usually MD5 hash for non-multipart uploads).
    pub etag: Option<String>,
}

} // verus!
