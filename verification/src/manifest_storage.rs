//! Manifest naming, S3 keys and S3 metadata.
//!
//! Input manifests are stored at
//! `{root_prefix}/Manifests/{farm_id}/{queue_id}/Inputs/{guid}/{hash}_input`;
//! task-level output manifests at
//! `{manifest_prefix}/{farm_id}/{queue_id}/{job_id}/{step_id}/{task_id}/{timestamp}_{session_action_id}/{hash}_output`;
//! step-level ones the same without the task.

use vstd::prelude::*;
use vstd::string::StrSliceExecFns;

use crate::hash::{hash_bytes, hash_hex, xxh3_128_of};
use crate::manifest_data::{get_manifest_content_type, manifest_content_type, ManifestData};
use crate::storage_types::S3Location;
use crate::text::{append_str, opt_str_text, opt_text, own, string_of};

verus! {

/// Content type for v2023-03-03 snapshot manifests.
pub const CONTENT_TYPE_V2023_03_03: &'static str = "application/x-deadline-manifest-2023-03-03";

/// Content type for v2025-12-04-beta snapshot manifests.
pub const CONTENT_TYPE_V2025_12_04_BETA: &'static str = "application/x-deadline-manifest-2025-12-04-beta";

/// Content type for v2025-12-04-beta diff manifests.
pub const CONTENT_TYPE_V2025_12_04_BETA_DIFF: &'static str =
    "application/x-deadline-manifest-diff-2025-12-04-beta";

/// S3 metadata key for asset root (ASCII paths).
pub const METADATA_KEY_ASSET_ROOT: &'static str = "asset-root";

/// S3 metadata key for asset root (JSON-encoded, for non-ASCII paths).
pub const METADATA_KEY_ASSET_ROOT_JSON: &'static str = "asset-root-json";

/// S3 metadata key for file system location name.
pub const METADATA_KEY_FILE_SYSTEM_LOCATION_NAME: &'static str = "file-system-location-name";

// ---------------------------------------------------------------------------
// Outside calls
// ---------------------------------------------------------------------------

/// The error type of `serde_json`.
#[verifier::external_type_specification]
#[verifier::external_body]
pub struct ExJsonError(serde_json::Error);

/// The JSON text `serde_json` writes for a string.
pub uninterp spec fn json_encoded(s: Seq<char>) -> Seq<char>;

/// The string `serde_json` reads from JSON text, if the text is a JSON
/// string.
pub uninterp spec fn json_decoded(t: Seq<char>) -> Option<Seq<char>>;

/// `serde_json::to_string` on a string. A string's `Serialize` never fails
/// and writes to a vector, so the call succeeds; reading the text back
/// with `serde_json::from_str` gives the string again.
#[verifier::external_body]
fn json_encode_str(s: &String) -> (r: Result<String, serde_json::Error>)
    ensures
        r is Ok,
        r matches Ok(t) ==> t@ == json_encoded(s@),
        r matches Ok(t) ==> json_decoded(t@) == Some(s@),
{
    serde_json::to_string(s)
}

/// `serde_json::from_str::<String>`: the decoded string when the text is a
/// JSON string, an error otherwise.
#[verifier::external_body]
fn json_decode_str(t: &str) -> (r: Result<String, serde_json::Error>)
    ensures
        match r {
            Ok(s) => json_decoded(t@) == Some(s@),
            Err(_) => json_decoded(t@) is None,
        },
{
    serde_json::from_str::<String>(t)
}

/// A lowercase hex digit.
pub open spec fn is_lower_hex(c: char) -> bool {
    ('0' <= c <= '9') || ('a' <= c <= 'f')
}

/// `uuid::Uuid::new_v4().simple().to_string()`: a random UUID in its
/// simple form, 32 lowercase hex digits without dashes. Which UUID comes
/// out is chance; only its shape is stated.
#[verifier::external_body]
fn random_uuid_simple() -> (r: String)
    ensures
        r@.len() == 32,
        forall|i: int| 0 <= i < 32 ==> is_lower_hex(#[trigger] r@[i]),
{
    uuid::Uuid::new_v4().simple().to_string()
}

// ---------------------------------------------------------------------------
// Manifest locations
// ---------------------------------------------------------------------------

/// Location for storing/retrieving manifests.
pub struct ManifestLocation {
    /// S3 bucket name.
    pub bucket: String,
    /// Root prefix for all operations (e.g., "DeadlineCloud").
    pub root_prefix: String,
    /// Farm ID.
    pub farm_id: String,
    /// Queue ID.
    pub queue_id: String,
}

/// `{root_prefix}/Manifests`, or `Manifests` with an empty root prefix.
pub open spec fn manifest_prefix_text(root: Seq<char>) -> Seq<char> {
    if root.len() == 0 {
        "Manifests"@
    } else {
        root + "/Manifests"@
    }
}

impl ManifestLocation {
    /// Create a new manifest location.
    pub fn new(bucket: &str, root_prefix: &str, farm_id: &str, queue_id: &str) -> (r: Self)
        ensures
            r.bucket@ == bucket@,
            r.root_prefix@ == root_prefix@,
            r.farm_id@ == farm_id@,
            r.queue_id@ == queue_id@,
    {
        ManifestLocation {
            bucket: own(bucket),
            root_prefix: own(root_prefix),
            farm_id: own(farm_id),
            queue_id: own(queue_id),
        }
    }

    /// Create from an S3Location and farm/queue IDs.
    pub fn from_s3_location(location: &S3Location, farm_id: &str, queue_id: &str) -> (r: Self)
        ensures
            r.bucket@ == location.bucket@,
            r.root_prefix@ == location.root_prefix@,
            r.farm_id@ == farm_id@,
            r.queue_id@ == queue_id@,
    {
        ManifestLocation::new(
            location.bucket.as_str(),
            location.root_prefix.as_str(),
            farm_id,
            queue_id,
        )
    }

    /// The full manifest prefix: `{root_prefix}/Manifests`.
    pub fn manifest_prefix(&self) -> (r: String)
        ensures
            r@ == manifest_prefix_text(self.root_prefix@),
    {
        let mut out: Vec<char> = Vec::new();
        if self.root_prefix.as_str().unicode_len() == 0 {
            append_str(&mut out, "Manifests");
        } else {
            append_str(&mut out, self.root_prefix.as_str());
            append_str(&mut out, "/Manifests");
        }
        assert(out@ =~= manifest_prefix_text(self.root_prefix@));
        string_of(&out)
    }

    /// The input manifest prefix for this farm/queue:
    /// `{root_prefix}/Manifests/{farm_id}/{queue_id}/Inputs`.
    pub fn input_manifest_prefix(&self) -> (r: String)
        ensures
            r@ == manifest_prefix_text(self.root_prefix@) + "/"@ + self.farm_id@ + "/"@
                + self.queue_id@ + "/Inputs"@,
    {
        let mut out: Vec<char> = Vec::new();
        append_str(&mut out, self.manifest_prefix().as_str());
        append_str(&mut out, "/");
        append_str(&mut out, self.farm_id.as_str());
        append_str(&mut out, "/");
        append_str(&mut out, self.queue_id.as_str());
        append_str(&mut out, "/Inputs");
        string_of(&out)
    }
}

// ---------------------------------------------------------------------------
// S3 metadata
// ---------------------------------------------------------------------------

/// S3 metadata attached to manifest uploads.
pub struct ManifestS3Metadata {
    /// Root path the manifest was created from.
    pub asset_root: String,
    /// Optional file system location name (for storage profile mapping).
    pub file_system_location_name: Option<String>,
}

/// Whether every character of the text is ASCII.
pub open spec fn ascii_text(s: Seq<char>) -> bool {
    forall|i: int| 0 <= i < s.len() ==> (#[trigger] s[i] as u32) < 128
}

/// The texts of metadata entries, as (key, value) pairs.
pub open spec fn entries_text(v: Seq<(String, String)>) -> Seq<(Seq<char>, Seq<char>)> {
    Seq::new(v.len(), |i: int| (v[i].0@, v[i].1@))
}

/// The metadata headers written for an asset root and location name: an
/// ASCII root goes under `asset-root`; any other root is JSON-encoded and
/// goes under both `asset-root` and `asset-root-json`; the location name,
/// when there is one, goes under `file-system-location-name`.
pub open spec fn metadata_entries(root: Seq<char>, name: Option<Seq<char>>) -> Seq<
    (Seq<char>, Seq<char>),
> {
    let roots = if ascii_text(root) {
        seq![("asset-root"@, root)]
    } else {
        seq![("asset-root"@, json_encoded(root)), ("asset-root-json"@, json_encoded(root))]
    };
    match name {
        Some(n) => roots.push(("file-system-location-name"@, n)),
        None => roots,
    }
}

/// The value of the first entry with the given key.
pub open spec fn lookup(entries: Seq<(Seq<char>, Seq<char>)>, key: Seq<char>) -> Option<Seq<char>>
    decreases entries.len(),
{
    if entries.len() == 0 {
        None
    } else if entries[0].0 == key {
        Some(entries[0].1)
    } else {
        lookup(entries.drop_first(), key)
    }
}

/// What `from_s3_metadata` reads from entries: the asset root from a
/// decodable `asset-root-json`, or else from `asset-root` (none without
/// either), and the location name if present.
pub open spec fn metadata_from_entries(entries: Seq<(Seq<char>, Seq<char>)>) -> Option<
    (Seq<char>, Option<Seq<char>>),
> {
    let from_json = match lookup(entries, "asset-root-json"@) {
        Some(j) => json_decoded(j),
        None => None,
    };
    let root = match from_json {
        Some(r) => Some(r),
        None => lookup(entries, "asset-root"@),
    };
    match root {
        Some(r) => Some((r, lookup(entries, "file-system-location-name"@))),
        None => None,
    }
}

fn is_ascii_str(s: &str) -> (r: bool)
    ensures
        r == ascii_text(s@),
{
    let n = s.unicode_len();
    let mut i: usize = 0;
    while i < n
        invariant
            n == s@.len(),
            i <= n,
            forall|j: int| 0 <= j < i ==> (#[trigger] s@[j] as u32) < 128,
        decreases n - i,
    {
        let c = s.get_char(i);
        if (c as u32) >= 128 {
            return false;
        }
        i = i + 1;
    }
    true
}

/// The value of the first entry with the given key.
fn find_entry<'a>(entries: &'a Vec<(String, String)>, key: &str) -> (r: Option<&'a String>)
    ensures
        match r {
            Some(v) => lookup(entries_text(entries@), key@) == Some(v@),
            None => lookup(entries_text(entries@), key@) is None,
        },
{
    let ghost all = entries_text(entries@);
    let mut i: usize = 0;
    assert(all.skip(0) =~= all);
    while i < entries.len()
        invariant
            i <= entries.len(),
            all == entries_text(entries@),
            lookup(all, key@) == lookup(all.skip(i as int), key@),
        decreases entries.len() - i,
    {
        assert(all.skip(i as int)[0] == all[i as int]);
        if crate::text::str_eq(entries[i].0.as_str(), key) {
            return Some(&entries[i].1);
        }
        assert(all.skip(i as int).drop_first() =~= all.skip(i + 1));
        i = i + 1;
    }
    None
}

impl ManifestS3Metadata {
    /// Create new metadata with just an asset root.
    pub fn new(asset_root: &str) -> (r: Self)
        ensures
            r.asset_root@ == asset_root@,
            r.file_system_location_name is None,
    {
        ManifestS3Metadata { asset_root: own(asset_root), file_system_location_name: None }
    }

    /// Create new metadata with asset root and file system location.
    pub fn with_location(asset_root: &str, file_system_location_name: &str) -> (r: Self)
        ensures
            r.asset_root@ == asset_root@,
            opt_text(r.file_system_location_name) == Some(file_system_location_name@),
    {
        ManifestS3Metadata {
            asset_root: own(asset_root),
            file_system_location_name: Some(own(file_system_location_name)),
        }
    }

    /// Build S3 metadata headers for upload (see `metadata_entries`).
    /// Parsing the headers back gives this metadata again.
    pub fn to_s3_metadata(&self) -> (r: Vec<(String, String)>)
        ensures
            entries_text(r@) == metadata_entries(
                self.asset_root@,
                opt_text(self.file_system_location_name),
            ),
            metadata_from_entries(entries_text(r@)) == Some(
                (self.asset_root@, opt_text(self.file_system_location_name)),
            ),
    {
        let mut metadata: Vec<(String, String)> = Vec::new();
        if is_ascii_str(self.asset_root.as_str()) {
            metadata.push((own(METADATA_KEY_ASSET_ROOT), own(self.asset_root.as_str())));
        } else {
            let json_encoded_root = match json_encode_str(&self.asset_root) {
                Ok(t) => t,
                Err(_) => own(self.asset_root.as_str()),
            };
            metadata.push((own(METADATA_KEY_ASSET_ROOT), own(json_encoded_root.as_str())));
            metadata.push((own(METADATA_KEY_ASSET_ROOT_JSON), json_encoded_root));
        }
        proof {
            lemma_metadata_roundtrip(self.asset_root@, opt_text(self.file_system_location_name));
        }
        match &self.file_system_location_name {
            Some(location) => {
                metadata.push((own(METADATA_KEY_FILE_SYSTEM_LOCATION_NAME), own(location.as_str())));
            },
            None => {},
        }
        proof {
            reveal_strlit("asset-root");
            reveal_strlit("asset-root-json");
            reveal_strlit("file-system-location-name");
        }
        assert(entries_text(metadata@) =~= metadata_entries(
            self.asset_root@,
            opt_text(self.file_system_location_name),
        ));
        metadata
    }

    /// Parse S3 metadata from download response: prefers a decodable
    /// `asset-root-json`, falls back to `asset-root`; `None` when neither
    /// gives a root.
    pub fn from_s3_metadata(metadata: &Vec<(String, String)>) -> (r: Option<Self>)
        ensures
            match metadata_from_entries(entries_text(metadata@)) {
                Some((root, name)) => r matches Some(m) && m.asset_root@ == root && opt_text(
                    m.file_system_location_name,
                ) == name,
                None => r is None,
            },
    {
        let from_json: Option<String> = match find_entry(metadata, METADATA_KEY_ASSET_ROOT_JSON) {
            Some(v) => match json_decode_str(v.as_str()) {
                Ok(s) => Some(s),
                Err(_) => None,
            },
            None => None,
        };
        let asset_root: String = match from_json {
            Some(r) => r,
            None => match find_entry(metadata, METADATA_KEY_ASSET_ROOT) {
                Some(v) => own(v.as_str()),
                None => {
                    return None;
                },
            },
        };
        let file_system_location_name: Option<String> = match find_entry(
            metadata,
            METADATA_KEY_FILE_SYSTEM_LOCATION_NAME,
        ) {
            Some(v) => Some(own(v.as_str())),
            None => None,
        };
        Some(ManifestS3Metadata { asset_root, file_system_location_name })
    }
}

/// Reading back the metadata headers written for an asset root and a
/// location name gives the same root and name, whether the root is ASCII or
/// JSON-encoded.
pub proof fn lemma_metadata_roundtrip(root: Seq<char>, name: Option<Seq<char>>)
    requires
        !ascii_text(root) ==> json_decoded(json_encoded(root)) == Some(root),
    ensures
        metadata_from_entries(metadata_entries(root, name)) == Some((root, name)),
{
    reveal_strlit("asset-root");
    reveal_strlit("asset-root-json");
    reveal_strlit("file-system-location-name");
    reveal_with_fuel(lookup, 4);
    let a = "asset-root"@;
    let j = "asset-root-json"@;
    let f = "file-system-location-name"@;
    assert(a.len() == 10 && j.len() == 15 && f.len() == 25);
    assert(a != j && a != f && j != f);
    let e = metadata_entries(root, name);
    assert(e.drop_first().drop_first().drop_first().len() == 0 || e.len() <= 2);
}

// ---------------------------------------------------------------------------
// Hashes, names and keys
// ---------------------------------------------------------------------------

/// Generate a random GUID (32 lowercase hex characters, no dashes).
pub fn generate_random_guid() -> (r: String)
    ensures
        r@.len() == 32,
        forall|i: int| 0 <= i < 32 ==> is_lower_hex(#[trigger] r@[i]),
{
    random_uuid_simple()
}

/// The UTF-8 bytes of text.
pub open spec fn utf8(s: Seq<char>) -> Seq<u8> {
    vstd::utf8::encode_utf8(s)
}

/// The hash used for manifest naming: XXH128 of the source root's UTF-8
/// bytes.
pub fn compute_manifest_name_hash(source_root: &str) -> (r: String)
    ensures
        r@ == hash_hex(xxh3_128_of(utf8(source_root@))),
{
    let bytes = source_root.as_bytes_vec();
    hash_bytes(bytes.as_slice())
}

/// The hash used to match manifest S3 keys to job attachment roots: XXH128
/// of the location name (or nothing) followed by the root path.
pub fn compute_root_path_hash(file_system_location_name: Option<&str>, root_path: &str) -> (r:
    String)
    ensures
        r@ == hash_hex(
            xxh3_128_of(
                utf8(
                    match file_system_location_name {
                        Some(n) => n@,
                        None => Seq::<char>::empty(),
                    } + root_path@,
                ),
            ),
        ),
{
    let mut data: Vec<char> = Vec::new();
    match file_system_location_name {
        Some(n) => append_str(&mut data, n),
        None => {},
    }
    append_str(&mut data, root_path);
    let text = string_of(&data);
    compute_manifest_name_hash(text.as_str())
}

/// The partial input manifest prefix (without root prefix):
/// `{farm_id}/{queue_id}/Inputs/{guid}` with a fresh random GUID.
pub fn build_partial_input_manifest_prefix(farm_id: &str, queue_id: &str) -> (r: String)
    ensures
        exists|guid: Seq<char>|
            {
                &&& guid.len() == 32
                &&& forall|i: int| 0 <= i < 32 ==> is_lower_hex(#[trigger] guid[i])
                &&& r@ == farm_id@ + "/"@ + queue_id@ + "/Inputs/"@ + guid
            },
{
    let guid = generate_random_guid();
    let mut out: Vec<char> = Vec::new();
    append_str(&mut out, farm_id);
    append_str(&mut out, "/");
    append_str(&mut out, queue_id);
    append_str(&mut out, "/Inputs/");
    append_str(&mut out, guid.as_str());
    string_of(&out)
}

/// The full S3 key for an input manifest:
/// `{manifest_prefix}/{farm_id}/{queue_id}/Inputs/{guid}/{manifest_name}`.
pub fn format_input_manifest_s3_key(
    manifest_prefix: &str,
    farm_id: &str,
    queue_id: &str,
    guid: &str,
    manifest_name: &str,
) -> (r: String)
    ensures
        r@ == manifest_prefix@ + "/"@ + farm_id@ + "/"@ + queue_id@ + "/Inputs/"@ + guid@ + "/"@
            + manifest_name@,
{
    let mut out: Vec<char> = Vec::new();
    append_str(&mut out, manifest_prefix);
    append_str(&mut out, "/");
    append_str(&mut out, farm_id);
    append_str(&mut out, "/");
    append_str(&mut out, queue_id);
    append_str(&mut out, "/Inputs/");
    append_str(&mut out, guid);
    append_str(&mut out, "/");
    append_str(&mut out, manifest_name);
    string_of(&out)
}

/// The full S3 key for a task-level output manifest:
/// `{manifest_prefix}/{farm_id}/{queue_id}/{job_id}/{step_id}/{task_id}/{timestamp}_{session_action_id}/{manifest_name}`.
pub fn format_task_output_manifest_s3_key(
    manifest_prefix: &str,
    farm_id: &str,
    queue_id: &str,
    job_id: &str,
    step_id: &str,
    task_id: &str,
    timestamp_str: &str,
    session_action_id: &str,
    manifest_name: &str,
) -> (r: String)
    ensures
        r@ == manifest_prefix@ + "/"@ + farm_id@ + "/"@ + queue_id@ + "/"@ + job_id@ + "/"@
            + step_id@ + "/"@ + task_id@ + "/"@ + timestamp_str@ + "_"@ + session_action_id@
            + "/"@ + manifest_name@,
{
    let mut out: Vec<char> = Vec::new();
    append_str(&mut out, manifest_prefix);
    append_str(&mut out, "/");
    append_str(&mut out, farm_id);
    append_str(&mut out, "/");
    append_str(&mut out, queue_id);
    append_str(&mut out, "/");
    append_str(&mut out, job_id);
    append_str(&mut out, "/");
    append_str(&mut out, step_id);
    append_str(&mut out, "/");
    append_str(&mut out, task_id);
    append_str(&mut out, "/");
    append_str(&mut out, timestamp_str);
    append_str(&mut out, "_");
    append_str(&mut out, session_action_id);
    append_str(&mut out, "/");
    append_str(&mut out, manifest_name);
    string_of(&out)
}

/// The full S3 key for a step-level output manifest (no task):
/// `{manifest_prefix}/{farm_id}/{queue_id}/{job_id}/{step_id}/{timestamp}_{session_action_id}/{manifest_name}`.
pub fn format_step_output_manifest_s3_key(
    manifest_prefix: &str,
    farm_id: &str,
    queue_id: &str,
    job_id: &str,
    step_id: &str,
    timestamp_str: &str,
    session_action_id: &str,
    manifest_name: &str,
) -> (r: String)
    ensures
        r@ == manifest_prefix@ + "/"@ + farm_id@ + "/"@ + queue_id@ + "/"@ + job_id@ + "/"@
            + step_id@ + "/"@ + timestamp_str@ + "_"@ + session_action_id@ + "/"@
            + manifest_name@,
{
    let mut out: Vec<char> = Vec::new();
    append_str(&mut out, manifest_prefix);
    append_str(&mut out, "/");
    append_str(&mut out, farm_id);
    append_str(&mut out, "/");
    append_str(&mut out, queue_id);
    append_str(&mut out, "/");
    append_str(&mut out, job_id);
    append_str(&mut out, "/");
    append_str(&mut out, step_id);
    append_str(&mut out, "/");
    append_str(&mut out, timestamp_str);
    append_str(&mut out, "_");
    append_str(&mut out, session_action_id);
    append_str(&mut out, "/");
    append_str(&mut out, manifest_name);
    string_of(&out)
}

/// Result of uploading a manifest.
pub struct ManifestUploadResult {
    /// Full S3 key where the manifest was uploaded.
    pub s3_key: String,
    /// Hash of the manifest content.
    pub manifest_hash: String,
}

/// Metadata returned when downloading a manifest.
pub struct ManifestDownloadMetadata {
    /// Root path the manifest was created from.
    pub asset_root: String,
    /// Optional file system location name.
    pub file_system_location_name: Option<String>,
    /// Content type from S3.
    pub content_type: Option<String>,
    /// S3 LastModified timestamp (seconds since epoch).
    pub last_modified: Option<i64>,
}

// ---------------------------------------------------------------------------
// Manifest uploads
// ---------------------------------------------------------------------------

/// What is sent to store a manifest: where it goes, its content type and
/// metadata headers, and the hash of its bytes.
pub struct ManifestUpload {
    /// S3 bucket.
    pub bucket: String,
    /// Full S3 key.
    pub key: String,
    /// Content type of the manifest.
    pub content_type: String,
    /// Metadata headers, as (key, value) pairs.
    pub metadata: Vec<(String, String)>,
    /// Hash of the manifest's bytes.
    pub manifest_hash: String,
}

/// The metadata of a manifest upload: for the asset root, with the
/// location name when there is one.
fn upload_metadata(asset_root: &str, file_system_location_name: Option<&str>) -> (r: Vec<
    (String, String),
>)
    ensures
        entries_text(r@) == metadata_entries(asset_root@, opt_str_text(file_system_location_name)),
{
    let m = match file_system_location_name {
        Some(loc) => ManifestS3Metadata::with_location(asset_root, loc),
        None => ManifestS3Metadata::new(asset_root),
    };
    m.to_s3_metadata()
}

/// The upload of an input manifest: under a fresh random GUID at
/// `{manifest_prefix}/{farm_id}/{queue_id}/Inputs/{guid}/{name_hash}_input`,
/// where the name hash is that of the asset root, with the asset root's
/// metadata, the manifest's content type and the hash of its bytes.
pub fn plan_input_manifest_upload(
    location: &ManifestLocation,
    manifest: &ManifestData,
    manifest_bytes: &[u8],
    asset_root: &str,
    file_system_location_name: Option<&str>,
) -> (r: ManifestUpload)
    ensures
        r.bucket@ == location.bucket@,
        exists|guid: Seq<char>|
            {
                &&& guid.len() == 32
                &&& forall|i: int| 0 <= i < 32 ==> is_lower_hex(#[trigger] guid[i])
                &&& r.key@ == manifest_prefix_text(location.root_prefix@) + "/"@ + location.farm_id@
                    + "/"@ + location.queue_id@ + "/Inputs/"@ + guid + "/"@ + hash_hex(
                    xxh3_128_of(utf8(asset_root@)),
                ) + "_input"@
            },
        r.content_type@ == manifest_content_type(*manifest),
        entries_text(r.metadata@) == metadata_entries(
            asset_root@,
            opt_str_text(file_system_location_name),
        ),
        r.manifest_hash@ == hash_hex(xxh3_128_of(manifest_bytes@)),
{
    let manifest_hash = hash_bytes(manifest_bytes);
    let mut name: Vec<char> = Vec::new();
    append_str(&mut name, compute_manifest_name_hash(asset_root).as_str());
    append_str(&mut name, "_input");
    let manifest_name = string_of(&name);
    let guid = generate_random_guid();
    let key = format_input_manifest_s3_key(
        location.manifest_prefix().as_str(),
        location.farm_id.as_str(),
        location.queue_id.as_str(),
        guid.as_str(),
        manifest_name.as_str(),
    );
    ManifestUpload {
        bucket: own(location.bucket.as_str()),
        key,
        content_type: own(get_manifest_content_type(manifest)),
        metadata: upload_metadata(asset_root, file_system_location_name),
        manifest_hash,
    }
}

/// The name hash of an output manifest: the root path hash of the
/// location name (or nothing) and the asset root.
pub open spec fn output_name_hash(name: Option<Seq<char>>, asset_root: Seq<char>) -> Seq<char> {
    hash_hex(
        xxh3_128_of(
            utf8(
                match name {
                    Some(n) => n,
                    None => Seq::<char>::empty(),
                } + asset_root,
            ),
        ),
    )
}

/// The upload of an output manifest: at the task-level key when a task is
/// given, else at the step-level key, named `{name_hash}_output` (see
/// `output_name_hash`), with the asset root's metadata, the manifest's
/// content type and the hash of its bytes. `timestamp_str` is the session
/// action's time as an ISO 8601 string.
pub fn plan_output_manifest_upload(
    location: &ManifestLocation,
    job_id: &str,
    step_id: &str,
    task_id: Option<&str>,
    session_action_id: &str,
    timestamp_str: &str,
    manifest: &ManifestData,
    manifest_bytes: &[u8],
    asset_root: &str,
    file_system_location_name: Option<&str>,
) -> (r: ManifestUpload)
    ensures
        r.bucket@ == location.bucket@,
        r.key@ == manifest_prefix_text(location.root_prefix@) + "/"@ + location.farm_id@ + "/"@
            + location.queue_id@ + "/"@ + job_id@ + "/"@ + step_id@ + "/"@ + match task_id {
            Some(t) => t@ + "/"@,
            None => Seq::<char>::empty(),
        } + timestamp_str@ + "_"@ + session_action_id@ + "/"@ + output_name_hash(
            opt_str_text(file_system_location_name),
            asset_root@,
        ) + "_output"@,
        r.content_type@ == manifest_content_type(*manifest),
        entries_text(r.metadata@) == metadata_entries(
            asset_root@,
            opt_str_text(file_system_location_name),
        ),
        r.manifest_hash@ == hash_hex(xxh3_128_of(manifest_bytes@)),
{
    let mut name: Vec<char> = Vec::new();
    append_str(
        &mut name,
        compute_root_path_hash(file_system_location_name, asset_root).as_str(),
    );
    append_str(&mut name, "_output");
    let manifest_name = string_of(&name);
    let prefix = location.manifest_prefix();
    let key = match task_id {
        Some(tid) => format_task_output_manifest_s3_key(
            prefix.as_str(),
            location.farm_id.as_str(),
            location.queue_id.as_str(),
            job_id,
            step_id,
            tid,
            timestamp_str,
            session_action_id,
            manifest_name.as_str(),
        ),
        None => format_step_output_manifest_s3_key(
            prefix.as_str(),
            location.farm_id.as_str(),
            location.queue_id.as_str(),
            job_id,
            step_id,
            timestamp_str,
            session_action_id,
            manifest_name.as_str(),
        ),
    };
    proof {
        reveal_strlit("/");
        reveal_strlit("_");
    }
    assert(key@ =~= manifest_prefix_text(location.root_prefix@) + "/"@ + location.farm_id@ + "/"@
        + location.queue_id@ + "/"@ + job_id@ + "/"@ + step_id@ + "/"@ + match task_id {
        Some(t) => t@ + "/"@,
        None => Seq::<char>::empty(),
    } + timestamp_str@ + "_"@ + session_action_id@ + "/"@ + output_name_hash(
        opt_str_text(file_system_location_name),
        asset_root@,
    ) + "_output"@);
    ManifestUpload {
        bucket: own(location.bucket.as_str()),
        key,
        content_type: own(get_manifest_content_type(manifest)),
        metadata: upload_metadata(asset_root, file_system_location_name),
        manifest_hash: hash_bytes(manifest_bytes),
    }
}

} // verus!
