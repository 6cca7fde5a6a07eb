//! Snapshot building: turning discovered files, symlinks and directories
//! into manifest entries.
//!
//! Walking the directory, reading file metadata and hashing file contents
//! happen around this module; here each walked entry is classified and the
//! manifest of either version is assembled from the entries and hashes.

use vstd::prelude::*;

use crate::cas::needs_chunking;
use crate::constants::CHUNK_SIZE_V2;
use crate::diff::{
    deleted_model, diff_files, is_executable, lookup_model, lookup_v2023, modified_fast, passes,
    text_insert, text_pos, CurrentFileInfo, DiffMode,
};
use crate::keyed::has_key;
use crate::glob::GlobFilter;
use crate::manifest_data::{
    ManifestData, ManifestDirectoryPath, ManifestFilePath, ManifestPathV2023, ManifestVersion,
};
use crate::storage_types::HashAlgorithm;
use crate::fs_error::FileSystemError;
use crate::path_model::path_starts_with_spec;
use crate::path_utils::path_starts_with;
use crate::text::{copy_strings, lemma_strs_push, opt_text, own, strs};

verus! {

/// Options for creating a directory snapshot.
pub struct SnapshotOptions {
    /// Root directory to snapshot.
    pub root: String,
    /// Explicit list of input files (skips directory walking if provided).
    pub input_files: Option<Vec<String>>,
    /// Manifest version to create.
    pub version: ManifestVersion,
    /// Glob filter for include/exclude patterns.
    pub filter: GlobFilter,
    /// Hash algorithm to use.
    pub hash_algorithm: HashAlgorithm,
    /// Whether to follow symlinks (false = capture as symlinks).
    pub follow_symlinks: bool,
    /// Whether to include empty directories (v2025 only).
    pub include_empty_dirs: bool,
}

impl Default for SnapshotOptions {
    fn default() -> (r: Self)
        ensures
            r.root@.len() == 0,
            r.input_files is None,
            r.version == ManifestVersion::V2025_12_04_beta,
            r.filter.include_view().len() == 0,
            r.filter.exclude_view().len() == 0,
            r.hash_algorithm == HashAlgorithm::Xxh128,
            !r.follow_symlinks,
            r.include_empty_dirs,
    {
        SnapshotOptions {
            root: String::new(),
            input_files: None,
            version: ManifestVersion::V2025_12_04_beta,
            filter: GlobFilter::new(),
            hash_algorithm: HashAlgorithm::Xxh128,
            follow_symlinks: false,
            include_empty_dirs: true,
        }
    }
}

/// Phase of the scan operation.
#[derive(PartialEq, Eq, Structural, Clone, Copy, Debug)]
pub enum ScanPhase {
    /// Walking directory tree.
    Walking,
    /// Hashing file contents.
    Hashing,
    /// Building manifest.
    Building,
    /// Complete.
    Complete,
}

/// Progress updates during file system operations.
pub struct ScanProgress {
    /// Current operation phase.
    pub phase: ScanPhase,
    /// Current file being processed.
    pub current_path: Option<String>,
    /// Files processed so far.
    pub files_processed: u64,
    /// Total files found (if known).
    pub total_files: Option<u64>,
    /// Bytes processed (for hashing phase).
    pub bytes_processed: u64,
    /// Total bytes to process (if known).
    pub total_bytes: Option<u64>,
}

/// The progress reported before hashing a file: the hashing phase, the
/// file's relative path, the files and bytes done so far, and the total
/// number of files.
pub fn hashing_progress(
    relative_path: &str,
    files_processed: u64,
    total_files: u64,
    bytes_processed: u64,
) -> (r: ScanProgress)
    ensures
        r.phase == ScanPhase::Hashing,
        opt_text(r.current_path) == Some(relative_path@),
        r.files_processed == files_processed,
        r.total_files == Some(total_files),
        r.bytes_processed == bytes_processed,
        r.total_bytes is None,
{
    ScanProgress {
        phase: ScanPhase::Hashing,
        current_path: Some(own(relative_path)),
        files_processed,
        total_files: Some(total_files),
        bytes_processed,
        total_bytes: None,
    }
}

/// File metadata as read from disk (without following symlinks).
pub struct StatResult {
    /// Size in bytes.
    pub size: u64,
    /// Modification time in microseconds since the epoch.
    pub mtime_us: i64,
    /// Unix permission bits.
    pub mode: u32,
    /// Whether the entry is a directory.
    pub is_dir: bool,
    /// Whether the entry is a symlink.
    pub is_symlink: bool,
}

/// A file discovered for a snapshot.
pub struct ScannedFile {
    /// Absolute path to the file.
    pub path: String,
    /// Relative path for manifest (POSIX format).
    pub relative_path: String,
    /// File size in bytes.
    pub size: u64,
    /// Modification time in microseconds.
    pub mtime_us: i64,
    /// Whether file has execute permission.
    pub runnable: bool,
}

/// A symlink discovered for a snapshot.
pub struct SymlinkInfo {
    /// Relative path of the link (POSIX format).
    pub relative_path: String,
    /// Target the link points to.
    pub target: String,
}

/// How a walked entry enters a snapshot.
#[derive(PartialEq, Eq, Structural, Clone, Copy, Debug)]
pub enum WalkAction {
    /// Record it as a symlink.
    Symlink,
    /// Record it as a directory.
    Directory,
    /// Record it as a file.
    File,
    /// Leave it out.
    Skip,
}

/// How a walked entry that passed the filter enters a snapshot: a symlink
/// is recorded as one unless symlinks are followed; a directory is
/// recorded when empty directories are included; anything else is a file.
pub fn walk_action(stat: &StatResult, options: &SnapshotOptions) -> (r: WalkAction)
    ensures
        r == (if stat.is_symlink && !options.follow_symlinks {
            WalkAction::Symlink
        } else if stat.is_dir {
            if options.include_empty_dirs {
                WalkAction::Directory
            } else {
                WalkAction::Skip
            }
        } else {
            WalkAction::File
        }),
{
    if stat.is_symlink && !options.follow_symlinks {
        WalkAction::Symlink
    } else if stat.is_dir {
        if options.include_empty_dirs {
            WalkAction::Directory
        } else {
            WalkAction::Skip
        }
    } else {
        WalkAction::File
    }
}

/// How a file of an explicit input list enters a snapshot: a path not
/// under the root (component-wise) is a `PathOutsideRoot` error; one whose
/// metadata could not be read is left out; a symlink is recorded as one
/// unless symlinks are followed; a directory is left out; anything else is
/// a file.
pub fn listed_entry_action(
    file_path: &str,
    root: &str,
    stat: Option<&StatResult>,
    options: &SnapshotOptions,
) -> (r: Result<WalkAction, FileSystemError>)
    ensures
        r is Err <==> !path_starts_with_spec(file_path@, root@),
        r matches Err(e) ==> e matches FileSystemError::PathOutsideRoot { path, root: rt } && path@
            == file_path@ && rt@ == root@,
        r matches Ok(a) ==> a == match stat {
            None => WalkAction::Skip,
            Some(s) => if s.is_symlink && !options.follow_symlinks {
                WalkAction::Symlink
            } else if s.is_dir {
                WalkAction::Skip
            } else {
                WalkAction::File
            },
        },
{
    if !path_starts_with(file_path, root) {
        return Err(FileSystemError::PathOutsideRoot { path: own(file_path), root: own(root) });
    }
    match stat {
        None => Ok(WalkAction::Skip),
        Some(s) => {
            if s.is_symlink && !options.follow_symlinks {
                Ok(WalkAction::Symlink)
            } else if s.is_dir {
                Ok(WalkAction::Skip)
            } else {
                Ok(WalkAction::File)
            }
        },
    }
}

/// The file record of a walked file.
pub fn scanned_file(path: &str, relative_path: String, stat: &StatResult) -> (r: ScannedFile)
    ensures
        r.path@ == path@,
        r.relative_path@ == relative_path@,
        r.size == stat.size,
        r.mtime_us == stat.mtime_us,
        r.runnable == (stat.mode & 0o111u32 != 0),
{
    ScannedFile {
        path: own(path),
        relative_path,
        size: stat.size,
        mtime_us: stat.mtime_us,
        runnable: is_executable(stat.mode),
    }
}

/// A v2023-03-03 manifest built from files: one path per file, with its
/// relative path, size and mtime, and the hash given for it (or an empty
/// hash when none are given).
pub open spec fn v2023_built(
    r: ManifestData,
    files: Seq<ScannedFile>,
    hashes: Option<Seq<Seq<char>>>,
) -> bool {
    r matches ManifestData::V2023_03_03 { paths } && paths@.len() == files.len() && forall|i: int|
        0 <= i < files.len() ==> {
            &&& (#[trigger] paths@[i]).path@ == files[i].relative_path@
            &&& paths@[i].size == files[i].size
            &&& paths@[i].mtime == files[i].mtime_us
            &&& paths@[i].hash@ == match hashes {
                Some(h) => h[i],
                None => Seq::<char>::empty(),
            }
        }
}

/// Build a v2023-03-03 manifest: one path per file, with the hash computed
/// for it (or an empty hash when `hashes` is `None`).
pub fn build_v2023_manifest(files: &Vec<ScannedFile>, hashes: Option<&Vec<String>>) -> (r:
    ManifestData)
    requires
        hashes matches Some(h) ==> h.len() == files.len(),
    ensures
        v2023_built(
            r,
            files@,
            match hashes {
                Some(h) => Some(strs(h@)),
                None => None,
            },
        ),
{
    let mut paths: Vec<ManifestPathV2023> = Vec::new();
    let mut i: usize = 0;
    while i < files.len()
        invariant
            i <= files.len(),
            hashes matches Some(h) ==> h.len() == files.len(),
            paths@.len() == i,
            forall|j: int|
                0 <= j < i ==> {
                    &&& (#[trigger] paths@[j]).path@ == files@[j].relative_path@
                    &&& paths@[j].size == files@[j].size
                    &&& paths@[j].mtime == files@[j].mtime_us
                    &&& paths@[j].hash@ == match hashes {
                        Some(h) => h@[j]@,
                        None => Seq::<char>::empty(),
                    }
                },
        decreases files.len() - i,
    {
        let f = &files[i];
        let hash = match hashes {
            Some(h) => own(h[i].as_str()),
            None => String::new(),
        };
        paths.push(
            ManifestPathV2023 {
                path: own(f.relative_path.as_str()),
                hash,
                size: f.size,
                mtime: f.mtime_us,
            },
        );
        i = i + 1;
    }
    ManifestData::V2023_03_03 { paths }
}

/// The hashes of a file's contents: its hash, and for a file larger than a
/// chunk, the hashes of its chunks.
pub struct FileDigest {
    /// Hash of the whole file.
    pub hash: String,
    /// Hashes of the chunks, for files larger than `CHUNK_SIZE_V2`.
    pub chunkhashes: Option<Vec<String>>,
}

/// The manifest entry of a hashed file: chunked when the file is larger
/// than a chunk, stored whole otherwise.
pub open spec fn hashed_entry_ok(p: ManifestFilePath, f: ScannedFile, d: FileDigest) -> bool {
    &&& p.path@ == f.relative_path@
    &&& p.size == Some(f.size)
    &&& p.mtime == Some(f.mtime_us)
    &&& p.runnable == f.runnable
    &&& p.symlink_target is None
    &&& !p.deleted
    &&& if f.size > CHUNK_SIZE_V2 {
        &&& p.hash is None
        &&& p.chunkhashes matches Some(c) && d.chunkhashes matches Some(dc) && strs(c@) == strs(
            dc@,
        )
    } else {
        &&& opt_text(p.hash) == Some(d.hash@)
        &&& p.chunkhashes is None
    }
}

/// The manifest entry of a file without hashes: an empty hash.
pub open spec fn unhashed_entry_ok(p: ManifestFilePath, f: ScannedFile) -> bool {
    &&& p.path@ == f.relative_path@
    &&& opt_text(p.hash) == Some(Seq::<char>::empty())
    &&& p.chunkhashes is None
    &&& p.size == Some(f.size)
    &&& p.mtime == Some(f.mtime_us)
    &&& p.runnable == f.runnable
    &&& p.symlink_target is None
    &&& !p.deleted
}

/// The manifest entry of a symlink.
pub open spec fn symlink_entry_ok(p: ManifestFilePath, s: SymlinkInfo) -> bool {
    &&& p.path@ == s.relative_path@
    &&& p.hash is None
    &&& p.chunkhashes is None
    &&& p.size is None
    &&& p.mtime is None
    &&& !p.runnable
    &&& opt_text(p.symlink_target) == Some(s.target@)
    &&& !p.deleted
}

/// A v2025-12-04-beta snapshot manifest built from files, symlinks and
/// directories: the files first (see `hashed_entry_ok` and
/// `unhashed_entry_ok`), then the symlinks, and the directories; no parent.
pub open spec fn v2025_built(
    r: ManifestData,
    files: Seq<ScannedFile>,
    digests: Option<Seq<FileDigest>>,
    symlinks: Seq<SymlinkInfo>,
    dirs: Seq<String>,
) -> bool {
    r matches ManifestData::V2025_12_04_beta { dirs: ds, paths, parent_manifest_hash } && {
        &&& parent_manifest_hash is None
        &&& paths@.len() == files.len() + symlinks.len()
        &&& forall|i: int|
            0 <= i < files.len() ==> match digests {
                Some(d) => hashed_entry_ok(#[trigger] paths@[i], files[i], d[i]),
                None => unhashed_entry_ok(#[trigger] paths@[i], files[i]),
            }
        &&& forall|i: int|
            0 <= i < symlinks.len() ==> symlink_entry_ok(
                #[trigger] paths@[files.len() + i],
                symlinks[i],
            )
        &&& ds@.len() == dirs.len()
        &&& forall|i: int|
            0 <= i < dirs.len() ==> (#[trigger] ds@[i]).path@ == dirs[i]@ && !ds@[i].deleted
    }
}

/// Build a v2025-12-04-beta snapshot manifest: the files (chunked when
/// larger than a chunk, with `digests` giving each file's hashes, or with
/// empty hashes when `digests` is `None`), then the symlinks, and the
/// directories.
pub fn build_v2025_manifest(
    files: &Vec<ScannedFile>,
    digests: Option<&Vec<FileDigest>>,
    symlinks: &Vec<SymlinkInfo>,
    dirs: &Vec<String>,
) -> (r: ManifestData)
    requires
        digests matches Some(d) ==> d.len() == files.len() && forall|i: int|
            0 <= i < files.len() && files@[i].size > CHUNK_SIZE_V2 ==> (
            #[trigger] d@[i]).chunkhashes is Some,
    ensures
        v2025_built(
            r,
            files@,
            match digests {
                Some(d) => Some(d@),
                None => None,
            },
            symlinks@,
            dirs@,
        ),
{
    let mut file_paths: Vec<ManifestFilePath> = Vec::new();
    let mut i: usize = 0;
    while i < files.len()
        invariant
            i <= files.len(),
            digests matches Some(d) ==> d.len() == files.len() && forall|j: int|
                0 <= j < files.len() && files@[j].size > CHUNK_SIZE_V2 ==> (
                #[trigger] d@[j]).chunkhashes is Some,
            file_paths@.len() == i,
            forall|j: int|
                0 <= j < i ==> match digests {
                    Some(d) => hashed_entry_ok(#[trigger] file_paths@[j], files@[j], d@[j]),
                    None => unhashed_entry_ok(#[trigger] file_paths@[j], files@[j]),
                },
        decreases files.len() - i,
    {
        let f = &files[i];
        let entry = match digests {
            Some(d) => {
                let dg = &d[i];
                if needs_chunking(f.size, CHUNK_SIZE_V2) {
                    let chunks = match &dg.chunkhashes {
                        Some(c) => copy_strings(c),
                        None => Vec::new(),
                    };
                    ManifestFilePath::chunked(
                        own(f.relative_path.as_str()),
                        chunks,
                        f.size,
                        f.mtime_us,
                    ).with_runnable(f.runnable)
                } else {
                    ManifestFilePath::file(
                        own(f.relative_path.as_str()),
                        own(dg.hash.as_str()),
                        f.size,
                        f.mtime_us,
                    ).with_runnable(f.runnable)
                }
            },
            None => ManifestFilePath::file(
                own(f.relative_path.as_str()),
                String::new(),
                f.size,
                f.mtime_us,
            ).with_runnable(f.runnable),
        };
        file_paths.push(entry);
        i = i + 1;
    }
    let n: usize = files.len();
    let mut k: usize = 0;
    while k < symlinks.len()
        invariant
            n == files.len(),
            k <= symlinks.len(),
            file_paths@.len() == n + k,
            forall|j: int|
                0 <= j < n ==> match digests {
                    Some(d) => hashed_entry_ok(#[trigger] file_paths@[j], files@[j], d@[j]),
                    None => unhashed_entry_ok(#[trigger] file_paths@[j], files@[j]),
                },
            forall|j: int|
                0 <= j < k ==> symlink_entry_ok(#[trigger] file_paths@[n + j], symlinks@[j]),
        decreases symlinks.len() - k,
    {
        let s = &symlinks[k];
        file_paths.push(
            ManifestFilePath::symlink(own(s.relative_path.as_str()), own(s.target.as_str())),
        );
        k = k + 1;
    }
    let mut dir_paths: Vec<ManifestDirectoryPath> = Vec::new();
    let mut m: usize = 0;
    while m < dirs.len()
        invariant
            m <= dirs.len(),
            dir_paths@.len() == m,
            forall|j: int|
                0 <= j < m ==> (#[trigger] dir_paths@[j]).path@ == dirs@[j]@ && !dir_paths@[j].deleted,
        decreases dirs.len() - m,
    {
        dir_paths.push(ManifestDirectoryPath::new(own(dirs[m].as_str())));
        m = m + 1;
    }
    ManifestData::V2025_12_04_beta { dirs: dir_paths, paths: file_paths, parent_manifest_hash: None }
}

/// The hashes of files' digests.
pub open spec fn digest_hashes(d: Seq<FileDigest>) -> Seq<Seq<char>> {
    Seq::new(d.len(), |i: int| d[i].hash@)
}

/// Build a manifest of the requested version (see `build_v2023_manifest`
/// and `build_v2025_manifest`; a v2023 manifest holds the files only, with
/// the digests' whole-file hashes).
pub fn build_manifest(
    files: &Vec<ScannedFile>,
    digests: Option<&Vec<FileDigest>>,
    symlinks: &Vec<SymlinkInfo>,
    dirs: &Vec<String>,
    version: ManifestVersion,
) -> (r: ManifestData)
    requires
        digests matches Some(d) ==> d.len() == files.len() && forall|i: int|
            0 <= i < files.len() && files@[i].size > CHUNK_SIZE_V2 ==> (
            #[trigger] d@[i]).chunkhashes is Some,
    ensures
        version == ManifestVersion::V2023_03_03 ==> v2023_built(
            r,
            files@,
            match digests {
                Some(d) => Some(digest_hashes(d@)),
                None => None,
            },
        ),
        version == ManifestVersion::V2025_12_04_beta ==> v2025_built(
            r,
            files@,
            match digests {
                Some(d) => Some(d@),
                None => None,
            },
            symlinks@,
            dirs@,
        ),
{
    match version {
        ManifestVersion::V2023_03_03 => {
            let hashes: Option<Vec<String>> = match digests {
                Some(d) => {
                    let mut v: Vec<String> = Vec::new();
                    let mut i: usize = 0;
                    while i < d.len()
                        invariant
                            i <= d.len(),
                            strs(v@) == digest_hashes(d@).subrange(0, i as int),
                        decreases d.len() - i,
                    {
                        let c = own(d[i].hash.as_str());
                        proof {
                            lemma_strs_push(v@, c);
                        }
                        v.push(c);
                        assert(digest_hashes(d@).subrange(0, i + 1) =~= digest_hashes(d@).subrange(
                            0,
                            i as int,
                        ).push(d@[i as int].hash@));
                        i = i + 1;
                    }
                    assert(digest_hashes(d@).subrange(0, i as int) =~= digest_hashes(d@));
                    Some(v)
                },
                None => None,
            };
            build_v2023_manifest(files, hashes.as_ref())
        },
        ManifestVersion::V2025_12_04_beta => build_v2025_manifest(files, digests, symlinks, dirs),
    }
}

// ---------------------------------------------------------------------------
// Snapshot, then diff
// ---------------------------------------------------------------------------

proof fn lemma_text_pos<V>(t: Seq<(Seq<char>, V)>, k: Seq<char>)
    ensures
        -1 <= text_pos(t, k) < t.len(),
        text_pos(t, k) >= 0 ==> t[text_pos(t, k)].0 == k,
        text_pos(t, k) == -1 ==> forall|i: int| 0 <= i < t.len() ==> (#[trigger] t[i]).0 != k,
        (forall|i: int, j: int| 0 <= i < j < t.len() ==> (#[trigger] t[i]).0 != (#[trigger] t[j]).0)
            ==> forall|i: int| 0 <= i < t.len() && (#[trigger] t[i]).0 == k ==> text_pos(t, k) == i,
    decreases t.len(),
{
    if t.len() > 0 {
        lemma_text_pos(t.drop_last(), k);
        assert forall|i: int| 0 <= i < t.len() - 1 implies t.drop_last()[i] == t[i] by {}
    }
}

/// The table of a snapshot's paths: each path with its size, mtime and
/// hash, in order.
pub open spec fn snapshot_table(ps: Seq<ManifestPathV2023>) -> Seq<
    (Seq<char>, (u64, i64, Seq<char>)),
> {
    Seq::new(ps.len(), |i: int| (ps[i].path@, (ps[i].size, ps[i].mtime, ps[i].hash@)))
}

proof fn lemma_lookup_distinct(ps: Seq<ManifestPathV2023>, f: GlobFilter, k: int)
    requires
        0 <= k <= ps.len(),
        forall|i: int| 0 <= i < ps.len() ==> passes(f, (#[trigger] ps[i]).path@),
        forall|i: int, j: int| 0 <= i < j < ps.len() ==> (#[trigger] ps[i]).path@ != (#[trigger] ps[j]).path@,
    ensures
        lookup_v2023(ps.subrange(0, k), f) == snapshot_table(ps.subrange(0, k)),
    decreases k,
{
    if k > 0 {
        let s = ps.subrange(0, k);
        let prev = ps.subrange(0, k - 1);
        assert(s.drop_last() =~= prev);
        lemma_lookup_distinct(ps, f, k - 1);
        let t = snapshot_table(prev);
        let p = s.last();
        assert(p == ps[k - 1]);
        assert(passes(f, ps[k - 1].path@));
        lemma_text_pos(t, p.path@);
        if text_pos(t, p.path@) >= 0 {
            let q = text_pos(t, p.path@);
            assert(t[q].0 == ps[q].path@);
            assert(ps[q].path@ != ps[k - 1].path@);
        }
        assert(text_insert(t, p.path@, (p.size, p.mtime, p.hash@)) =~= snapshot_table(s));
    }
}

proof fn lemma_diff_prefix_unchanged(
    cur: Seq<(String, CurrentFileInfo)>,
    ps: Seq<ManifestPathV2023>,
    hs: Seq<Option<String>>,
    k: int,
)
    requires
        0 <= k <= cur.len(),
        cur.len() == ps.len(),
        forall|i: int, j: int| 0 <= i < j < ps.len() ==> (#[trigger] ps[i]).path@ != (#[trigger] ps[j]).path@,
        forall|i: int|
            0 <= i < cur.len() ==> {
                &&& (#[trigger] cur[i]).0@ == ps[i].path@
                &&& cur[i].1.size == ps[i].size
                &&& cur[i].1.mtime == ps[i].mtime
            },
    ensures
        diff_files(cur.subrange(0, k), snapshot_table(ps), DiffMode::Fast, hs).added.len() == 0,
        diff_files(cur.subrange(0, k), snapshot_table(ps), DiffMode::Fast, hs).modified.len() == 0,
        diff_files(cur.subrange(0, k), snapshot_table(ps), DiffMode::Fast, hs).unchanged == Seq::new(
            k as nat,
            |i: int| ps[i].path@,
        ),
    decreases k,
{
    let look = snapshot_table(ps);
    if k > 0 {
        let s = cur.subrange(0, k);
        assert(s.drop_last() =~= cur.subrange(0, k - 1));
        lemma_diff_prefix_unchanged(cur, ps, hs, k - 1);
        let path = s.last().0@;
        assert(s.last() == cur[k - 1]);
        assert(look[k - 1].0 == ps[k - 1].path@);
        lemma_text_pos(look, path);
        assert forall|i: int, j: int| 0 <= i < j < look.len() implies (#[trigger] look[i]).0 != (
        #[trigger] look[j]).0 by {
            assert(look[i].0 == ps[i].path@);
            assert(look[j].0 == ps[j].path@);
        }
        assert(text_pos(look, path) == k - 1);
        assert(!modified_fast(cur[k - 1].1, look[k - 1].1));
        assert(Seq::new((k - 1) as nat, |i: int| ps[i].path@).push(path) =~= Seq::new(
            k as nat,
            |i: int| ps[i].path@,
        ));
    }
}

proof fn lemma_nothing_deleted(
    cur: Seq<(String, CurrentFileInfo)>,
    ps: Seq<ManifestPathV2023>,
    k: int,
)
    requires
        0 <= k <= ps.len(),
        cur.len() == ps.len(),
        forall|i: int| 0 <= i < cur.len() ==> (#[trigger] cur[i]).0@ == ps[i].path@,
    ensures
        deleted_model(snapshot_table(ps).subrange(0, k), cur).len() == 0,
    decreases k,
{
    if k > 0 {
        let look = snapshot_table(ps);
        let s = look.subrange(0, k);
        assert(s.drop_last() =~= look.subrange(0, k - 1));
        lemma_nothing_deleted(cur, ps, k - 1);
        assert(s.last().0 == ps[k - 1].path@);
        assert(cur[k - 1].0@ == ps[k - 1].path@);
        assert(has_key(cur, s.last().0));
    }
}

/// Diffing a directory against its own snapshot reports no change: when
/// the walked files are the snapshot's files (same relative paths, all
/// distinct and passing the filter, same sizes and mtimes), a fast diff
/// finds nothing added, modified or deleted, and every file unchanged, in
/// order.
pub proof fn lemma_snapshot_then_diff_unchanged(
    m: ManifestData,
    files: Seq<ScannedFile>,
    hashes: Option<Seq<Seq<char>>>,
    f: GlobFilter,
    cur: Seq<(String, CurrentFileInfo)>,
    hs: Seq<Option<String>>,
)
    requires
        v2023_built(m, files, hashes),
        forall|i: int| 0 <= i < files.len() ==> passes(f, (#[trigger] files[i]).relative_path@),
        forall|i: int, j: int|
            0 <= i < j < files.len() ==> (#[trigger] files[i]).relative_path@ != (
            #[trigger] files[j]).relative_path@,
        cur.len() == files.len(),
        forall|i: int|
            0 <= i < cur.len() ==> {
                &&& (#[trigger] cur[i]).0@ == files[i].relative_path@
                &&& cur[i].1.size == files[i].size
                &&& cur[i].1.mtime == files[i].mtime_us
            },
    ensures
        diff_files(cur, lookup_model(m, f), DiffMode::Fast, hs).added.len() == 0,
        diff_files(cur, lookup_model(m, f), DiffMode::Fast, hs).modified.len() == 0,
        diff_files(cur, lookup_model(m, f), DiffMode::Fast, hs).unchanged == Seq::new(
            files.len(),
            |i: int| files[i].relative_path@,
        ),
        deleted_model(lookup_model(m, f), cur).len() == 0,
{
    let ps = match m {
        ManifestData::V2023_03_03 { paths } => paths@,
        _ => Seq::empty(),
    };
    assert forall|i: int| 0 <= i < ps.len() implies passes(f, (#[trigger] ps[i]).path@) by {
        assert(ps[i].path@ == files[i].relative_path@);
    }
    assert forall|i: int, j: int| 0 <= i < j < ps.len() implies (#[trigger] ps[i]).path@ != (
    #[trigger] ps[j]).path@ by {
        assert(ps[i].path@ == files[i].relative_path@);
        assert(ps[j].path@ == files[j].relative_path@);
    }
    lemma_lookup_distinct(ps, f, ps.len() as int);
    assert(ps.subrange(0, ps.len() as int) =~= ps);
    assert(lookup_model(m, f) == snapshot_table(ps));
    assert forall|i: int| 0 <= i < cur.len() implies {
        &&& (#[trigger] cur[i]).0@ == ps[i].path@
        &&& cur[i].1.size == ps[i].size
        &&& cur[i].1.mtime == ps[i].mtime
    } by {
        assert(ps[i].path@ == files[i].relative_path@);
    }
    lemma_diff_prefix_unchanged(cur, ps, hs, cur.len() as int);
    assert(cur.subrange(0, cur.len() as int) =~= cur);
    assert(Seq::new(cur.len() as nat, |i: int| ps[i].path@) =~= Seq::new(
        files.len(),
        |i: int| files[i].relative_path@,
    ));
    lemma_nothing_deleted(cur, ps, ps.len() as int);
    assert(snapshot_table(ps).subrange(0, ps.len() as int) =~= snapshot_table(ps));
}

} // verus!
