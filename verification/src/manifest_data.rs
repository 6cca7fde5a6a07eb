//! The entries of an asset manifest that this library reads and builds.
//!
//! A manifest lists files (with hash, size and modification time) and, from
//! version 2025-12-04-beta on, directories, symlinks, chunked files and
//! deletion markers. Encoding manifests to and from JSON is not done here.

use vstd::prelude::*;

use crate::text::{copy_opt, copy_strings, opt_text, own, strs};

verus! {

/// Manifest format versions.
#[derive(PartialEq, Eq, Structural, Clone, Copy, Debug)]
pub enum ManifestVersion {
    V2023_03_03,
    V2025_12_04_beta,
}

/// A file of a v2023-03-03 manifest.
pub struct ManifestPathV2023 {
    /// Relative POSIX path.
    pub path: String,
    /// Content hash.
    pub hash: String,
    /// Size in bytes.
    pub size: u64,
    /// Modification time in microseconds since the epoch.
    pub mtime: i64,
}

/// A file, symlink or deletion marker of a v2025-12-04-beta manifest.
pub struct ManifestFilePath {
    /// Relative POSIX path.
    pub path: String,
    /// Content hash of a file stored whole.
    pub hash: Option<String>,
    /// Chunk hashes of a file stored in chunks.
    pub chunkhashes: Option<Vec<String>>,
    /// Size in bytes.
    pub size: Option<u64>,
    /// Modification time in microseconds since the epoch.
    pub mtime: Option<i64>,
    /// Whether the file is executable.
    pub runnable: bool,
    /// Target of a symlink.
    pub symlink_target: Option<String>,
    /// Whether this entry marks a deletion.
    pub deleted: bool,
}

/// A directory of a v2025-12-04-beta manifest.
pub struct ManifestDirectoryPath {
    /// Relative POSIX path.
    pub path: String,
    /// Whether this entry marks a deletion.
    pub deleted: bool,
}

/// The contents of a manifest of either version.
pub enum ManifestData {
    V2023_03_03 { paths: Vec<ManifestPathV2023> },
    V2025_12_04_beta {
        dirs: Vec<ManifestDirectoryPath>,
        paths: Vec<ManifestFilePath>,
        parent_manifest_hash: Option<String>,
    },
}

/// A v2025-12-04-beta entry as plain values: (path, hash, chunk hashes,
/// size, mtime, runnable, symlink target, deleted).
pub open spec fn entry_view(p: ManifestFilePath) -> (
    Seq<char>,
    Option<Seq<char>>,
    Option<Seq<Seq<char>>>,
    Option<u64>,
    Option<i64>,
    bool,
    Option<Seq<char>>,
    bool,
) {
    (
        p.path@,
        opt_text(p.hash),
        match p.chunkhashes {
            Some(c) => Some(strs(c@)),
            None => None,
        },
        p.size,
        p.mtime,
        p.runnable,
        opt_text(p.symlink_target),
        p.deleted,
    )
}

/// A copy of an entry.
pub fn copy_entry(p: &ManifestFilePath) -> (r: ManifestFilePath)
    ensures
        entry_view(r) == entry_view(*p),
{
    ManifestFilePath {
        path: own(p.path.as_str()),
        hash: copy_opt(&p.hash),
        chunkhashes: match &p.chunkhashes {
            Some(c) => Some(copy_strings(c)),
            None => None,
        },
        size: p.size,
        mtime: p.mtime,
        runnable: p.runnable,
        symlink_target: copy_opt(&p.symlink_target),
        deleted: p.deleted,
    }
}

impl ManifestFilePath {
    /// A file stored whole.
    pub fn file(path: String, hash: String, size: u64, mtime: i64) -> (r: Self)
        ensures
            r.path@ == path@,
            opt_text(r.hash) == Some(hash@),
            r.chunkhashes is None,
            r.size == Some(size),
            r.mtime == Some(mtime),
            !r.runnable,
            r.symlink_target is None,
            !r.deleted,
    {
        ManifestFilePath {
            path,
            hash: Some(hash),
            chunkhashes: None,
            size: Some(size),
            mtime: Some(mtime),
            runnable: false,
            symlink_target: None,
            deleted: false,
        }
    }

    /// A file stored in chunks.
    pub fn chunked(path: String, chunkhashes: Vec<String>, size: u64, mtime: i64) -> (r: Self)
        ensures
            r.path@ == path@,
            r.hash is None,
            r.chunkhashes matches Some(c) && strs(c@) == strs(chunkhashes@),
            r.size == Some(size),
            r.mtime == Some(mtime),
            !r.runnable,
            r.symlink_target is None,
            !r.deleted,
    {
        ManifestFilePath {
            path,
            hash: None,
            chunkhashes: Some(chunkhashes),
            size: Some(size),
            mtime: Some(mtime),
            runnable: false,
            symlink_target: None,
            deleted: false,
        }
    }

    /// A symlink.
    pub fn symlink(path: String, target: String) -> (r: Self)
        ensures
            r.path@ == path@,
            r.hash is None,
            r.chunkhashes is None,
            r.size is None,
            r.mtime is None,
            !r.runnable,
            opt_text(r.symlink_target) == Some(target@),
            !r.deleted,
    {
        ManifestFilePath {
            path,
            hash: None,
            chunkhashes: None,
            size: None,
            mtime: None,
            runnable: false,
            symlink_target: Some(target),
            deleted: false,
        }
    }

    /// A deletion marker.
    pub fn deleted(path: String) -> (r: Self)
        ensures
            r.path@ == path@,
            r.hash is None,
            r.chunkhashes is None,
            r.size is None,
            r.mtime is None,
            !r.runnable,
            r.symlink_target is None,
            r.deleted,
    {
        ManifestFilePath {
            path,
            hash: None,
            chunkhashes: None,
            size: None,
            mtime: None,
            runnable: false,
            symlink_target: None,
            deleted: true,
        }
    }

    /// The same entry with the executable flag set as given.
    pub fn with_runnable(self, runnable: bool) -> (r: Self)
        ensures
            r.path == self.path,
            r.hash == self.hash,
            r.chunkhashes == self.chunkhashes,
            r.size == self.size,
            r.mtime == self.mtime,
            r.runnable == runnable,
            r.symlink_target == self.symlink_target,
            r.deleted == self.deleted,
    {
        let mut s = self;
        s.runnable = runnable;
        s
    }
}

impl ManifestDirectoryPath {
    /// A directory.
    pub fn new(path: String) -> (r: Self)
        ensures
            r.path@ == path@,
            !r.deleted,
    {
        ManifestDirectoryPath { path, deleted: false }
    }

    /// A directory deletion marker.
    pub fn deleted(path: String) -> (r: Self)
        ensures
            r.path@ == path@,
            r.deleted,
    {
        ManifestDirectoryPath { path, deleted: true }
    }
}

impl ManifestData {
    /// The manifest's format version.
    pub fn version(&self) -> (r: ManifestVersion)
        ensures
            r == (match self {
                ManifestData::V2023_03_03 { .. } => ManifestVersion::V2023_03_03,
                ManifestData::V2025_12_04_beta { .. } => ManifestVersion::V2025_12_04_beta,
            }),
    {
        match self {
            ManifestData::V2023_03_03 { .. } => ManifestVersion::V2023_03_03,
            ManifestData::V2025_12_04_beta { .. } => ManifestVersion::V2025_12_04_beta,
        }
    }

    /// The number of path entries.
    pub fn file_count(&self) -> (r: usize)
        ensures
            r == (match self {
                ManifestData::V2023_03_03 { paths } => paths@.len(),
                ManifestData::V2025_12_04_beta { paths, .. } => paths@.len(),
            }),
    {
        match self {
            ManifestData::V2023_03_03 { paths } => paths.len(),
            ManifestData::V2025_12_04_beta { paths, .. } => paths.len(),
        }
    }
}

/// The content type of a manifest for S3 upload: by version, and for
/// v2025-12-04-beta whether it is a diff (has a parent manifest hash).
pub open spec fn manifest_content_type(m: ManifestData) -> Seq<char> {
    match m {
        ManifestData::V2023_03_03 { .. } => crate::manifest_storage::CONTENT_TYPE_V2023_03_03@,
        ManifestData::V2025_12_04_beta { parent_manifest_hash, .. } => if parent_manifest_hash
            is Some {
            crate::manifest_storage::CONTENT_TYPE_V2025_12_04_BETA_DIFF@
        } else {
            crate::manifest_storage::CONTENT_TYPE_V2025_12_04_BETA@
        },
    }
}

/// The content type of a manifest for S3 upload (see
/// `manifest_content_type`).
pub fn get_manifest_content_type(manifest: &ManifestData) -> (r: &'static str)
    ensures
        r@ == manifest_content_type(*manifest),
{
    match manifest {
        ManifestData::V2023_03_03 { .. } => crate::manifest_storage::CONTENT_TYPE_V2023_03_03,
        ManifestData::V2025_12_04_beta { parent_manifest_hash, .. } => {
            if parent_manifest_hash.is_some() {
                crate::manifest_storage::CONTENT_TYPE_V2025_12_04_BETA_DIFF
            } else {
                crate::manifest_storage::CONTENT_TYPE_V2025_12_04_BETA
            }
        },
    }
}

} // verus!
