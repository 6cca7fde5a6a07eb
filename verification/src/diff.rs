//! Comparing a directory against a manifest.
//!
//! The directory walk and the hashing of files happen around this module;
//! here the walked entries and the manifest's entries are compared: new,
//! modified, unchanged and deleted files, added and deleted directories.

use vstd::prelude::*;

use std::time::Duration;

use crate::glob::{filter_matches, GlobFilter};
use crate::keyed::{
    find_key, has_key, insert_keyed, key_pos, keyed_insert, lemma_insert_unique, lemma_key_pos,
    unique_keys,
};
use crate::manifest_data::{ManifestData, ManifestDirectoryPath, ManifestFilePath};
use crate::hash::{hash_bytes, hash_hex, xxh3_128_of};
use crate::text::{contains_text, lemma_strs_push, opt_text, own, strs};

verus! {

/// How to compare files for changes.
#[derive(PartialEq, Eq, Structural, Clone, Copy, Debug)]
pub enum DiffMode {
    /// Compare by mtime and size only (fast, may miss content-only changes).
    Fast,
    /// Compare by hash (slower, definitive).
    Hash,
}

impl Default for DiffMode {
    fn default() -> (r: Self)
        ensures
            r == DiffMode::Fast,
    {
        DiffMode::Fast
    }
}

/// Options for diffing a directory against a manifest.
pub struct DiffOptions {
    /// Root directory to compare.
    pub root: String,
    /// Glob filter, applied to both the manifest entries and the directory.
    pub filter: GlobFilter,
    /// Comparison mode.
    pub mode: DiffMode,
    /// Number of parallel hashing threads (0 = auto-detect).
    pub parallelism: usize,
}

impl Default for DiffOptions {
    fn default() -> (r: Self)
        ensures
            r.root@.len() == 0,
            r.filter.include_view().len() == 0,
            r.filter.exclude_view().len() == 0,
            r.mode == DiffMode::Fast,
            r.parallelism == 0,
    {
        DiffOptions {
            root: String::new(),
            filter: GlobFilter::new(),
            mode: DiffMode::Fast,
            parallelism: 0,
        }
    }
}

/// Entry representing a file found during scanning.
pub struct FileEntry {
    /// Relative path from root (POSIX format).
    pub path: String,
    /// File size in bytes.
    pub size: u64,
    /// Modification time (microseconds since epoch).
    pub mtime: i64,
    /// File hash (if computed).
    pub hash: Option<String>,
    /// Whether file has execute permission.
    pub runnable: bool,
}

/// Statistics from a diff operation.
pub struct DiffStats {
    /// Total files scanned on disk.
    pub files_scanned: u64,
    /// Total directories scanned.
    pub dirs_scanned: u64,
    /// Files that were hashed.
    pub files_hashed: u64,
    /// Bytes hashed.
    pub bytes_hashed: u64,
    /// Time spent walking directories.
    pub walk_duration: Duration,
    /// Time spent hashing files.
    pub hash_duration: Duration,
}

/// Result of comparing a directory against a manifest.
pub struct DiffResult {
    /// Files that are new (not in parent manifest).
    pub added: Vec<FileEntry>,
    /// Files that were modified (different mtime/size or hash).
    pub modified: Vec<FileEntry>,
    /// Files that were deleted (in parent but not on disk).
    pub deleted: Vec<String>,
    /// Files that are unchanged.
    pub unchanged: Vec<String>,
    /// Directories that are new.
    pub added_dirs: Vec<String>,
    /// Directories that were deleted.
    pub deleted_dirs: Vec<String>,
    /// Statistics about the diff operation.
    pub stats: DiffStats,
}

/// A manifest file entry, as compared.
pub struct ManifestFileInfo {
    /// File size in bytes.
    pub size: u64,
    /// Modification time in microseconds.
    pub mtime: i64,
    /// File hash.
    pub hash: String,
}

/// A current file on disk, as compared.
pub struct CurrentFileInfo {
    /// File size in bytes.
    pub size: u64,
    /// Modification time in microseconds.
    pub mtime: i64,
    /// Whether file has execute permission.
    pub runnable: bool,
    /// Absolute path to the file.
    pub abs_path: String,
}

/// Check if a file mode indicates executable permission (any execute bit).
pub fn is_executable(mode: u32) -> (r: bool)
    ensures
        r == (mode & 0o111u32 != 0),
{
    mode & 0o111 != 0
}

// ---------------------------------------------------------------------------
// Manifest side
// ---------------------------------------------------------------------------

/// Whether a path passes a filter, where a filter without patterns lets
/// everything through.
pub open spec fn passes(f: GlobFilter, path: Seq<char>) -> bool {
    (f.include_view().len() == 0 && f.exclude_view().len() == 0) || filter_matches(
        f.include_view(),
        f.exclude_view(),
        path,
    )
}

/// A manifest entry as compared: (size, mtime, hash).
pub open spec fn info_model(i: ManifestFileInfo) -> (u64, i64, Seq<char>) {
    (i.size, i.mtime, i.hash@)
}

/// The file the lookup keeps for a v2025 entry, if any: deleted entries,
/// symlinks and entries without size or mtime are left out; a missing hash
/// counts as the empty text.
pub open spec fn v2025_lookup_entry(p: ManifestFilePath) -> Option<(u64, i64, Seq<char>)> {
    if p.deleted || p.symlink_target is Some || p.size is None || p.mtime is None {
        None
    } else {
        Some(
            (
                p.size->Some_0,
                p.mtime->Some_0,
                match p.hash {
                    Some(h) => h@,
                    None => Seq::<char>::empty(),
                },
            ),
        )
    }
}

/// The lookup of a manifest's files that pass the filter, as (path, info)
/// in order of first appearance; a later entry for a path replaces the
/// earlier one's info.
pub open spec fn lookup_model(m: ManifestData, f: GlobFilter) -> Seq<
    (Seq<char>, (u64, i64, Seq<char>)),
> {
    match m {
        ManifestData::V2023_03_03 { paths } => lookup_v2023(paths@, f),
        ManifestData::V2025_12_04_beta { paths, .. } => lookup_v2025(paths@, f),
    }
}

/// Inserts into a (text, value) table as a map does.
pub open spec fn text_insert<V>(t: Seq<(Seq<char>, V)>, k: Seq<char>, v: V) -> Seq<(Seq<char>, V)>
    decreases t.len(),
{
    let p = text_pos(t, k);
    if p >= 0 {
        t.update(p, (k, v))
    } else {
        t.push((k, v))
    }
}

/// The position of a key in a (text, value) table, or -1.
pub open spec fn text_pos<V>(t: Seq<(Seq<char>, V)>, k: Seq<char>) -> int
    decreases t.len(),
{
    if t.len() == 0 {
        -1
    } else if t.last().0 == k {
        t.len() - 1
    } else {
        text_pos(t.drop_last(), k)
    }
}

pub open spec fn lookup_v2023(
    ps: Seq<crate::manifest_data::ManifestPathV2023>,
    f: GlobFilter,
) -> Seq<(Seq<char>, (u64, i64, Seq<char>))>
    decreases ps.len(),
{
    if ps.len() == 0 {
        Seq::empty()
    } else {
        let t = lookup_v2023(ps.drop_last(), f);
        let p = ps.last();
        if passes(f, p.path@) {
            text_insert(t, p.path@, (p.size, p.mtime, p.hash@))
        } else {
            t
        }
    }
}

pub open spec fn lookup_v2025(ps: Seq<ManifestFilePath>, f: GlobFilter) -> Seq<
    (Seq<char>, (u64, i64, Seq<char>)),
>
    decreases ps.len(),
{
    if ps.len() == 0 {
        Seq::empty()
    } else {
        let t = lookup_v2025(ps.drop_last(), f);
        let p = ps.last();
        match v2025_lookup_entry(p) {
            Some(e) => if passes(f, p.path@) {
                text_insert(t, p.path@, e)
            } else {
                t
            },
            None => t,
        }
    }
}

/// The view of an executable lookup table.
pub open spec fn lookup_view(t: Seq<(String, ManifestFileInfo)>) -> Seq<
    (Seq<char>, (u64, i64, Seq<char>)),
> {
    Seq::new(t.len(), |i: int| (t[i].0@, info_model(t[i].1)))
}

proof fn lemma_text_pos_view(t: Seq<(String, ManifestFileInfo)>, k: Seq<char>)
    ensures
        text_pos(lookup_view(t), k) == key_pos(t, k),
    decreases t.len(),
{
    if t.len() > 0 {
        assert(lookup_view(t).drop_last() =~= lookup_view(t.drop_last()));
        lemma_text_pos_view(t.drop_last(), k);
    }
}

proof fn lemma_insert_view(t: Seq<(String, ManifestFileInfo)>, k: String, v: ManifestFileInfo)
    ensures
        lookup_view(keyed_insert(t, k, v)) == text_insert(lookup_view(t), k@, info_model(v)),
{
    lemma_text_pos_view(t, k@);
    lemma_key_pos(t, k@);
    assert(lookup_view(keyed_insert(t, k, v)) =~= text_insert(lookup_view(t), k@, info_model(v)));
}

/// Whether a path passes the filter (no patterns lets everything through).
fn filter_passes(f: &GlobFilter, path: &str) -> (r: bool)
    ensures
        r == passes(*f, path@),
{
    f.is_empty() || f.matches(path)
}

/// Whether a current file's content must be hashed in hash mode: the
/// manifest lookup holds an entry for its path with the same size (a
/// different size already tells the file apart).
pub fn needs_content_hash(lookup: &Vec<(String, ManifestFileInfo)>, path: &str, size: u64) -> (r:
    bool)
    ensures
        r == exists|i: int| 0 <= i < lookup.len() && (#[trigger] lookup@[i]).0@ == path@ && lookup@[i].1.size == size,
{
    let mut i: usize = 0;
    while i < lookup.len()
        invariant
            i <= lookup.len(),
            forall|j: int| 0 <= j < i ==> !((#[trigger] lookup@[j]).0@ == path@ && lookup@[j].1.size == size),
        decreases lookup.len() - i,
    {
        if lookup[i].1.size == size && crate::text::str_eq(lookup[i].0.as_str(), path) {
            assert(lookup@[i as int].0@ == path@ && lookup@[i as int].1.size == size);
            return true;
        }
        i = i + 1;
    }
    false
}

pub struct DiffEngine {}

impl DiffEngine {
    /// Create a new diff engine.
    pub fn new() -> (r: Self) {
        DiffEngine {  }
    }

    /// Build a lookup of the manifest's files that pass the filter (see
    /// `lookup_model`); its paths are distinct.
    pub fn build_manifest_lookup(&self, manifest: &ManifestData, filter: &GlobFilter) -> (r: Vec<
        (String, ManifestFileInfo),
    >)
        ensures
            lookup_view(r@) == lookup_model(*manifest, *filter),
            unique_keys(r@),
    {
        let mut lookup: Vec<(String, ManifestFileInfo)> = Vec::new();
        match manifest {
            ManifestData::V2023_03_03 { paths } => {
                let mut i: usize = 0;
                assert(paths@.subrange(0, 0) =~= Seq::<
                    crate::manifest_data::ManifestPathV2023,
                >::empty());
                assert(lookup_view(lookup@) =~= Seq::empty());
                while i < paths.len()
                    invariant
                        i <= paths.len(),
                        lookup_view(lookup@) == lookup_v2023(paths@.subrange(0, i as int), *filter),
                        unique_keys(lookup@),
                    decreases paths.len() - i,
                {
                    let p = &paths[i];
                    proof {
                        let s = paths@.subrange(0, i + 1);
                        assert(s.drop_last() =~= paths@.subrange(0, i as int));
                        assert(s.last() == paths@[i as int]);
                    }
                    if filter_passes(filter, p.path.as_str()) {
                        let k = own(p.path.as_str());
                        let v = ManifestFileInfo {
                            size: p.size,
                            mtime: p.mtime,
                            hash: own(p.hash.as_str()),
                        };
                        proof {
                            lemma_insert_view(lookup@, k, v);
                            lemma_insert_unique(lookup@, k, v);
                        }
                        insert_keyed(&mut lookup, k, v);
                    }
                    i = i + 1;
                }
                assert(paths@.subrange(0, i as int) =~= paths@);
            },
            ManifestData::V2025_12_04_beta { paths, .. } => {
                let mut i: usize = 0;
                assert(paths@.subrange(0, 0) =~= Seq::<ManifestFilePath>::empty());
                assert(lookup_view(lookup@) =~= Seq::empty());
                while i < paths.len()
                    invariant
                        i <= paths.len(),
                        lookup_view(lookup@) == lookup_v2025(paths@.subrange(0, i as int), *filter),
                        unique_keys(lookup@),
                    decreases paths.len() - i,
                {
                    let p = &paths[i];
                    proof {
                        let s = paths@.subrange(0, i + 1);
                        assert(s.drop_last() =~= paths@.subrange(0, i as int));
                        assert(s.last() == paths@[i as int]);
                    }
                    if !p.deleted && p.symlink_target.is_none() {
                        match (p.size, p.mtime) {
                            (Some(size), Some(mtime)) => {
                                if filter_passes(filter, p.path.as_str()) {
                                    let k = own(p.path.as_str());
                                    let hash = match &p.hash {
                                        Some(h) => own(h.as_str()),
                                        None => String::new(),
                                    };
                                    let v = ManifestFileInfo { size, mtime, hash };
                                    proof {
                                        lemma_insert_view(lookup@, k, v);
                                        lemma_insert_unique(lookup@, k, v);
                                    }
                                    insert_keyed(&mut lookup, k, v);
                                }
                            },
                            _ => {},
                        }
                    }
                    i = i + 1;
                }
                assert(paths@.subrange(0, i as int) =~= paths@);
            },
        }
        lookup
    }

    /// The directories of a manifest that pass the filter (v2023 manifests
    /// track none), skipping deletion markers.
    pub fn get_manifest_dirs(&self, manifest: &ManifestData, filter: &GlobFilter) -> (r: Vec<
        String,
    >)
        ensures
            strs(r@) == manifest_dirs_model(*manifest, *filter),
    {
        let mut out: Vec<String> = Vec::new();
        match manifest {
            ManifestData::V2023_03_03 { .. } => {
                assert(strs(out@) =~= Seq::<Seq<char>>::empty());
            },
            ManifestData::V2025_12_04_beta { dirs, .. } => {
                let mut i: usize = 0;
                assert(dirs@.subrange(0, 0) =~= Seq::<ManifestDirectoryPath>::empty());
                assert(strs(out@) =~= Seq::<Seq<char>>::empty());
                while i < dirs.len()
                    invariant
                        i <= dirs.len(),
                        strs(out@) == dirs_model(dirs@.subrange(0, i as int), *filter),
                    decreases dirs.len() - i,
                {
                    let d = &dirs[i];
                    proof {
                        let s = dirs@.subrange(0, i + 1);
                        assert(s.drop_last() =~= dirs@.subrange(0, i as int));
                        assert(s.last() == dirs@[i as int]);
                    }
                    if !d.deleted && filter_passes(filter, d.path.as_str()) {
                        let c = own(d.path.as_str());
                        proof {
                            lemma_strs_push(out@, c);
                        }
                        out.push(c);
                    }
                    i = i + 1;
                }
                assert(dirs@.subrange(0, i as int) =~= dirs@);
            },
        }
        out
    }

    /// Check if a file is modified by size and mtime: a different size, or
    /// mtimes more than one microsecond apart.
    pub fn is_modified_fast(&self, current: &CurrentFileInfo, manifest: &ManifestFileInfo) -> (r:
        bool)
        ensures
            r == modified_fast(*current, info_model(*manifest)),
    {
        if current.size != manifest.size {
            return true;
        }
        let d: i128 = current.mtime as i128 - manifest.mtime as i128;
        let mtime_diff: i128 = if d < 0 {
            -d
        } else {
            d
        };
        mtime_diff > 1
    }

    /// Check if a file is modified by hash, given the current file's hash
    /// (computed only when the sizes agree). Returns whether it is modified
    /// and how many bytes were hashed: a different size is a modification
    /// with nothing hashed; otherwise the file's size was hashed and the
    /// hashes are compared.
    pub fn is_modified_hash(
        &self,
        current: &CurrentFileInfo,
        manifest: &ManifestFileInfo,
        current_hash: &str,
    ) -> (r: (bool, u64))
        ensures
            current.size != manifest.size ==> r == (true, 0u64),
            current.size == manifest.size ==> r == (current_hash@ != manifest.hash@, current.size),
    {
        if current.size != manifest.size {
            return (true, 0);
        }
        let is_modified: bool = !crate::text::str_eq(current_hash, manifest.hash.as_str());
        (is_modified, current.size)
    }
}

/// The directory paths of a v2025 manifest's directory list that pass the
/// filter, skipping deletion markers.
pub open spec fn dirs_model(ds: Seq<ManifestDirectoryPath>, f: GlobFilter) -> Seq<Seq<char>>
    decreases ds.len(),
{
    if ds.len() == 0 {
        Seq::empty()
    } else {
        let t = dirs_model(ds.drop_last(), f);
        let d = ds.last();
        if !d.deleted && passes(f, d.path@) {
            t.push(d.path@)
        } else {
            t
        }
    }
}

/// The directories of a manifest that the diff compares.
pub open spec fn manifest_dirs_model(m: ManifestData, f: GlobFilter) -> Seq<Seq<char>> {
    match m {
        ManifestData::V2023_03_03 { .. } => Seq::empty(),
        ManifestData::V2025_12_04_beta { dirs, .. } => dirs_model(dirs@, f),
    }
}

/// Modified by size and mtime.
pub open spec fn modified_fast(c: CurrentFileInfo, m: (u64, i64, Seq<char>)) -> bool {
    c.size != m.0 || (c.mtime - m.1 > 1) || (m.1 - c.mtime > 1)
}

/// A file entry as plain values: (path, size, mtime, hash, runnable).
pub open spec fn entry_view(e: FileEntry) -> (Seq<char>, u64, i64, Option<Seq<char>>, bool) {
    (e.path@, e.size, e.mtime, opt_text(e.hash), e.runnable)
}

pub open spec fn entries_view(v: Seq<FileEntry>) -> Seq<(Seq<char>, u64, i64, Option<Seq<char>>, bool)> {
    Seq::new(v.len(), |i: int| entry_view(v[i]))
}

/// The entry reported for a current file (no hash).
pub open spec fn current_entry(path: Seq<char>, c: CurrentFileInfo) -> (
    Seq<char>,
    u64,
    i64,
    Option<Seq<char>>,
    bool,
) {
    (path, c.size, c.mtime, None, c.runnable)
}

/// How the current files compare with the manifest lookup.
pub struct FileDiff {
    pub added: Seq<(Seq<char>, u64, i64, Option<Seq<char>>, bool)>,
    pub modified: Seq<(Seq<char>, u64, i64, Option<Seq<char>>, bool)>,
    pub unchanged: Seq<Seq<char>>,
    pub files_hashed: nat,
    pub bytes_hashed: nat,
}

/// Each current file, in order: not in the lookup means added; in it,
/// compared by size and mtime (fast mode) or by size and then by the
/// current hash (hash mode; a missing hash compares unequal), it is
/// modified or unchanged. In hash mode, files compared by hash count as
/// hashed when they are not empty.
pub open spec fn diff_files(
    cur: Seq<(String, CurrentFileInfo)>,
    look: Seq<(Seq<char>, (u64, i64, Seq<char>))>,
    mode: DiffMode,
    hashes: Seq<Option<String>>,
) -> FileDiff
    decreases cur.len(),
{
    if cur.len() == 0 {
        FileDiff {
            added: Seq::empty(),
            modified: Seq::empty(),
            unchanged: Seq::empty(),
            files_hashed: 0,
            bytes_hashed: 0,
        }
    } else {
        let d = diff_files(cur.drop_last(), look, mode, hashes);
        let i = cur.len() - 1;
        let path = cur.last().0@;
        let c = cur.last().1;
        let p = text_pos(look, path);
        if p < 0 {
            FileDiff { added: d.added.push(current_entry(path, c)), ..d }
        } else {
            let m = look[p].1;
            match mode {
                DiffMode::Fast => if modified_fast(c, m) {
                    FileDiff { modified: d.modified.push(current_entry(path, c)), ..d }
                } else {
                    FileDiff { unchanged: d.unchanged.push(path), ..d }
                },
                DiffMode::Hash => if c.size != m.0 {
                    FileDiff { modified: d.modified.push(current_entry(path, c)), ..d }
                } else {
                    let counted = FileDiff {
                        files_hashed: if c.size > 0 {
                            d.files_hashed + 1
                        } else {
                            d.files_hashed
                        },
                        bytes_hashed: d.bytes_hashed + c.size as nat,
                        ..d
                    };
                    if opt_text(hashes[i]) != Some(m.2) {
                        FileDiff { modified: d.modified.push(current_entry(path, c)), ..counted }
                    } else {
                        FileDiff { unchanged: d.unchanged.push(path), ..counted }
                    }
                },
            }
        }
    }
}

/// The lookup's paths that are not among the current files, in order.
pub open spec fn deleted_model(
    look: Seq<(Seq<char>, (u64, i64, Seq<char>))>,
    cur: Seq<(String, CurrentFileInfo)>,
) -> Seq<Seq<char>>
    decreases look.len(),
{
    if look.len() == 0 {
        Seq::empty()
    } else {
        let t = deleted_model(look.drop_last(), cur);
        if has_key(cur, look.last().0) {
            t
        } else {
            t.push(look.last().0)
        }
    }
}

/// The texts of `a` that `b` does not hold, in order.
pub open spec fn missing_from(a: Seq<Seq<char>>, b: Seq<Seq<char>>) -> Seq<Seq<char>>
    decreases a.len(),
{
    if a.len() == 0 {
        Seq::empty()
    } else {
        let t = missing_from(a.drop_last(), b);
        if b.contains(a.last()) {
            t
        } else {
            t.push(a.last())
        }
    }
}

/// What `DiffEngine::diff` returns for walked entries, a manifest and
/// options.
pub open spec fn diff_result_ok(
    r: DiffResult,
    current_files: Seq<(String, CurrentFileInfo)>,
    current_dirs: Seq<Seq<char>>,
    manifest: ManifestData,
    options: DiffOptions,
    hashes: Seq<Option<String>>,
    walk_duration: Duration,
    hash_duration: Duration,
) -> bool {
    let look = lookup_model(manifest, options.filter);
    let d = diff_files(current_files, look, options.mode, hashes);
    let mdirs = manifest_dirs_model(manifest, options.filter);
    &&& entries_view(r.added@) == d.added
    &&& entries_view(r.modified@) == d.modified
    &&& strs(r.unchanged@) == d.unchanged
    &&& strs(r.deleted@) == deleted_model(look, current_files)
    &&& strs(r.added_dirs@) == missing_from(current_dirs, mdirs)
    &&& strs(r.deleted_dirs@) == missing_from(mdirs, current_dirs)
    &&& r.stats.files_scanned == current_files.len()
    &&& r.stats.dirs_scanned == current_dirs.len()
    &&& r.stats.files_hashed == d.files_hashed
    &&& r.stats.bytes_hashed == d.bytes_hashed
    &&& r.stats.walk_duration == walk_duration
    &&& r.stats.hash_duration == hash_duration
}

proof fn lemma_entries_push(v: Seq<FileEntry>, e: FileEntry)
    ensures
        entries_view(v.push(e)) == entries_view(v).push(entry_view(e)),
{
    assert(entries_view(v.push(e)) =~= entries_view(v).push(entry_view(e)));
}

proof fn lemma_diff_files_counts(
    cur: Seq<(String, CurrentFileInfo)>,
    look: Seq<(Seq<char>, (u64, i64, Seq<char>))>,
    mode: DiffMode,
    hashes: Seq<Option<String>>,
)
    ensures
        diff_files(cur, look, mode, hashes).files_hashed <= cur.len(),
    decreases cur.len(),
{
    if cur.len() > 0 {
        lemma_diff_files_counts(cur.drop_last(), look, mode, hashes);
    }
}

proof fn lemma_diff_files_bytes_grow(
    cur: Seq<(String, CurrentFileInfo)>,
    n: int,
    look: Seq<(Seq<char>, (u64, i64, Seq<char>))>,
    mode: DiffMode,
    hashes: Seq<Option<String>>,
)
    requires
        0 <= n <= cur.len(),
    ensures
        diff_files(cur.subrange(0, n), look, mode, hashes).bytes_hashed <= diff_files(
            cur,
            look,
            mode,
            hashes,
        ).bytes_hashed,
    decreases cur.len() - n,
{
    if n < cur.len() {
        lemma_diff_files_bytes_grow(cur, n + 1, look, mode, hashes);
        assert(cur.subrange(0, n + 1).drop_last() =~= cur.subrange(0, n));
    } else {
        assert(cur.subrange(0, n) =~= cur);
    }
}

/// The texts of `a` that `b` does not hold.
fn texts_missing_from(a: &Vec<String>, b: &Vec<String>) -> (r: Vec<String>)
    ensures
        strs(r@) == missing_from(strs(a@), strs(b@)),
{
    let ghost av = strs(a@);
    let mut out: Vec<String> = Vec::new();
    let mut i: usize = 0;
    assert(av.subrange(0, 0) =~= Seq::<Seq<char>>::empty());
    assert(strs(out@) =~= Seq::<Seq<char>>::empty());
    while i < a.len()
        invariant
            i <= a.len(),
            av == strs(a@),
            strs(out@) == missing_from(av.subrange(0, i as int), strs(b@)),
        decreases a.len() - i,
    {
        proof {
            let s = av.subrange(0, i + 1);
            assert(s.drop_last() =~= av.subrange(0, i as int));
            assert(s.last() == a@[i as int]@);
        }
        if !contains_text(b, a[i].as_str()) {
            let c = own(a[i].as_str());
            proof {
                lemma_strs_push(out@, c);
            }
            out.push(c);
        }
        i = i + 1;
    }
    assert(av.subrange(0, i as int) =~= av);
    out
}

impl DiffEngine {
    /// Compare walked directory entries against a manifest.
    ///
    /// `current_files` holds the walked files that passed the filter, each
    /// path once, as (relative path, info); `current_dirs` the walked
    /// directories. `current_hashes` holds, at each current file's
    /// position, its hash when it was computed (hash mode, for files present
    /// in the manifest with the same size). The durations are those
    /// measured for the walk and for hashing. See `diff_result_ok`.
    pub fn diff(
        &self,
        current_files: &Vec<(String, CurrentFileInfo)>,
        current_dirs: &Vec<String>,
        manifest: &ManifestData,
        options: &DiffOptions,
        current_hashes: &Vec<Option<String>>,
        walk_duration: Duration,
        hash_duration: Duration,
    ) -> (r: DiffResult)
        requires
            current_hashes.len() == current_files.len(),
            diff_files(
                current_files@,
                lookup_model(*manifest, options.filter),
                options.mode,
                current_hashes@,
            ).bytes_hashed <= u64::MAX,
        ensures
            diff_result_ok(
                r,
                current_files@,
                strs(current_dirs@),
                *manifest,
                *options,
                current_hashes@,
                walk_duration,
                hash_duration,
            ),
    {
        let lookup = self.build_manifest_lookup(manifest, &options.filter);
        let manifest_dirs = self.get_manifest_dirs(manifest, &options.filter);
        let ghost look = lookup_view(lookup@);
        let ghost cur = current_files@;
        let ghost hs = current_hashes@;
        let mode = options.mode;
        let mut added: Vec<FileEntry> = Vec::new();
        let mut modified: Vec<FileEntry> = Vec::new();
        let mut unchanged: Vec<String> = Vec::new();
        let mut files_hashed: u64 = 0;
        let mut bytes_hashed: u64 = 0;
        let mut i: usize = 0;
        proof {
            assert(cur.subrange(0, 0) =~= Seq::<(String, CurrentFileInfo)>::empty());
            assert(entries_view(added@) =~= Seq::empty());
            assert(entries_view(modified@) =~= Seq::empty());
            assert(strs(unchanged@) =~= Seq::<Seq<char>>::empty());
        }
        while i < current_files.len()
            invariant
                i <= current_files.len(),
                cur == current_files@,
                hs == current_hashes@,
                hs.len() == cur.len(),
                look == lookup_view(lookup@),
                mode == options.mode,
                diff_files(cur, look, mode, hs).bytes_hashed <= u64::MAX,
                entries_view(added@) == diff_files(cur.subrange(0, i as int), look, mode, hs).added,
                entries_view(modified@) == diff_files(
                    cur.subrange(0, i as int),
                    look,
                    mode,
                    hs,
                ).modified,
                strs(unchanged@) == diff_files(cur.subrange(0, i as int), look, mode, hs).unchanged,
                files_hashed == diff_files(cur.subrange(0, i as int), look, mode, hs).files_hashed,
                bytes_hashed == diff_files(cur.subrange(0, i as int), look, mode, hs).bytes_hashed,
            decreases current_files.len() - i,
        {
            let ghost s = cur.subrange(0, i + 1);
            proof {
                assert(s.drop_last() =~= cur.subrange(0, i as int));
                assert(s.last() == cur[i as int]);
                lemma_diff_files_bytes_grow(cur, i + 1, look, mode, hs);
                lemma_diff_files_counts(s, look, mode, hs);
                lemma_text_pos_view(lookup@, cur[i as int].0@);
            }
            let path = &current_files[i].0;
            let current = &current_files[i].1;
            match find_key(&lookup, path.as_str()) {
                None => {
                    let e = FileEntry {
                        path: own(path.as_str()),
                        size: current.size,
                        mtime: current.mtime,
                        hash: None,
                        runnable: current.runnable,
                    };
                    proof {
                        lemma_entries_push(added@, e);
                    }
                    added.push(e);
                },
                Some(p) => {
                    proof {
                        lemma_key_pos(lookup@, path@);
                    }
                    let manifest_entry = &lookup[p].1;
                    let is_modified: bool = match mode {
                        DiffMode::Fast => self.is_modified_fast(current, manifest_entry),
                        DiffMode::Hash => {
                            if current.size != manifest_entry.size {
                                true
                            } else {
                                let m = match &current_hashes[i] {
                                    Some(h) => !crate::text::str_eq(
                                        h.as_str(),
                                        manifest_entry.hash.as_str(),
                                    ),
                                    None => true,
                                };
                                if current.size > 0 {
                                    files_hashed = files_hashed + 1;
                                }
                                bytes_hashed = bytes_hashed + current.size;
                                m
                            }
                        },
                    };
                    if is_modified {
                        let e = FileEntry {
                            path: own(path.as_str()),
                            size: current.size,
                            mtime: current.mtime,
                            hash: None,
                            runnable: current.runnable,
                        };
                        proof {
                            lemma_entries_push(modified@, e);
                        }
                        modified.push(e);
                    } else {
                        let c = own(path.as_str());
                        proof {
                            lemma_strs_push(unchanged@, c);
                        }
                        unchanged.push(c);
                    }
                },
            }
            i = i + 1;
        }
        assert(cur.subrange(0, i as int) =~= cur);
        let mut deleted: Vec<String> = Vec::new();
        let mut j: usize = 0;
        assert(look.subrange(0, 0) =~= Seq::<(Seq<char>, (u64, i64, Seq<char>))>::empty());
        assert(strs(deleted@) =~= Seq::<Seq<char>>::empty());
        while j < lookup.len()
            invariant
                j <= lookup.len(),
                look == lookup_view(lookup@),
                cur == current_files@,
                strs(deleted@) == deleted_model(look.subrange(0, j as int), cur),
            decreases lookup.len() - j,
        {
            proof {
                let s = look.subrange(0, j + 1);
                assert(s.drop_last() =~= look.subrange(0, j as int));
                assert(s.last() == look[j as int]);
                lemma_key_pos(cur, lookup@[j as int].0@);
            }
            if find_key(current_files, lookup[j].0.as_str()).is_none() {
                let c = own(lookup[j].0.as_str());
                proof {
                    lemma_strs_push(deleted@, c);
                }
                deleted.push(c);
            }
            j = j + 1;
        }
        assert(look.subrange(0, j as int) =~= look);
        let added_dirs = texts_missing_from(current_dirs, &manifest_dirs);
        let deleted_dirs = texts_missing_from(&manifest_dirs, current_dirs);
        proof {
            lemma_diff_files_counts(cur, look, mode, hs);
        }
        DiffResult {
            added,
            modified,
            deleted,
            unchanged,
            added_dirs,
            deleted_dirs,
            stats: DiffStats {
                files_scanned: current_files.len() as u64,
                dirs_scanned: current_dirs.len() as u64,
                files_hashed,
                bytes_hashed,
                walk_duration,
                hash_duration,
            },
        }
    }
}

/// A v2025 file entry as plain values: (path, hash, size, mtime,
/// runnable, deleted); chunk hashes and symlink targets are absent in a
/// diff manifest.
pub open spec fn diff_path_view(p: ManifestFilePath) -> (
    Seq<char>,
    Option<Seq<char>>,
    Option<u64>,
    Option<i64>,
    bool,
    bool,
) {
    (p.path@, opt_text(p.hash), p.size, p.mtime, p.runnable, p.deleted)
}

/// The manifest entry of a changed file with its new hash.
pub open spec fn changed_entry(e: FileEntry, hash: Seq<char>) -> (
    Seq<char>,
    Option<Seq<char>>,
    Option<u64>,
    Option<i64>,
    bool,
    bool,
) {
    (e.path@, Some(hash), Some(e.size), Some(e.mtime), e.runnable, false)
}

/// What a diff manifest holds: the added then the modified files, with
/// their hashes, then a deletion marker for each deleted file; the added
/// directories then deletion markers for the deleted ones; and the hash of
/// the parent manifest's bytes.
pub open spec fn diff_manifest_ok(
    m: ManifestData,
    parent: Seq<u8>,
    d: DiffResult,
    added_hashes: Seq<Seq<char>>,
    modified_hashes: Seq<Seq<char>>,
) -> bool {
    let na = d.added@.len();
    let nm = d.modified@.len();
    let nd = d.deleted@.len();
    &&& m matches ManifestData::V2025_12_04_beta { dirs, paths, parent_manifest_hash }
    &&& opt_text(parent_manifest_hash) == Some(hash_hex(xxh3_128_of(parent)))
    &&& paths@.len() == na + nm + nd
    &&& forall|i: int|
        0 <= i < na ==> diff_path_view(#[trigger] paths@[i]) == changed_entry(
            d.added@[i],
            added_hashes[i],
        ) && paths@[i].chunkhashes is None && paths@[i].symlink_target is None
    &&& forall|i: int|
        0 <= i < nm ==> diff_path_view(#[trigger] paths@[na + i]) == changed_entry(
            d.modified@[i],
            modified_hashes[i],
        ) && paths@[na + i].chunkhashes is None && paths@[na + i].symlink_target is None
    &&& forall|i: int|
        0 <= i < nd ==> diff_path_view(#[trigger] paths@[na + nm + i]) == (
            d.deleted@[i]@,
            None::<Seq<char>>,
            None::<u64>,
            None::<i64>,
            false,
            true,
        ) && paths@[na + nm + i].chunkhashes is None && paths@[na + nm + i].symlink_target is None
    &&& dirs@.len() == d.added_dirs@.len() + d.deleted_dirs@.len()
    &&& forall|i: int|
        0 <= i < d.added_dirs@.len() ==> (#[trigger] dirs@[i]).path@ == d.added_dirs@[i]@
            && !dirs@[i].deleted
    &&& forall|i: int|
        0 <= i < d.deleted_dirs@.len() ==> (#[trigger] dirs@[d.added_dirs@.len() + i]).path@
            == d.deleted_dirs@[i]@ && dirs@[d.added_dirs@.len() + i].deleted
}

/// Appends the entries of changed files with their hashes.
fn push_changed(paths: &mut Vec<ManifestFilePath>, entries: &Vec<FileEntry>, hashes: &Vec<String>)
    requires
        hashes.len() == entries.len(),
    ensures
        final(paths)@.len() == old(paths)@.len() + entries.len(),
        forall|i: int| 0 <= i < old(paths)@.len() ==> #[trigger] final(paths)@[i] == old(paths)@[i],
        forall|i: int|
            0 <= i < entries.len() ==> diff_path_view(#[trigger] final(paths)@[old(paths)@.len() + i])
                == changed_entry(entries@[i], hashes@[i]@) && final(paths)@[old(paths)@.len()
                + i].chunkhashes is None && final(paths)@[old(paths)@.len() + i].symlink_target is None,
{
    let ghost base = old(paths)@.len();
    let mut i: usize = 0;
    while i < entries.len()
        invariant
            i <= entries.len(),
            hashes.len() == entries.len(),
            base == old(paths)@.len(),
            paths@.len() == base + i,
            forall|j: int| 0 <= j < base ==> #[trigger] paths@[j] == old(paths)@[j],
            forall|j: int|
                0 <= j < i ==> diff_path_view(#[trigger] paths@[base + j]) == changed_entry(
                    entries@[j],
                    hashes@[j]@,
                ) && paths@[base + j].chunkhashes is None && paths@[base + j].symlink_target is None,
        decreases entries.len() - i,
    {
        let e = &entries[i];
        let p = ManifestFilePath::file(
            own(e.path.as_str()),
            own(hashes[i].as_str()),
            e.size,
            e.mtime,
        ).with_runnable(e.runnable);
        paths.push(p);
        i = i + 1;
    }
}

impl DiffEngine {
    /// Create a diff manifest from a comparison result: see
    /// `diff_manifest_ok`. `added_hashes` and `modified_hashes` are the
    /// current hashes of the added and modified files, in order.
    pub fn create_diff_manifest(
        &self,
        parent_manifest_bytes: &[u8],
        diff_result: &DiffResult,
        added_hashes: &Vec<String>,
        modified_hashes: &Vec<String>,
    ) -> (r: ManifestData)
        requires
            added_hashes.len() == diff_result.added.len(),
            modified_hashes.len() == diff_result.modified.len(),
        ensures
            diff_manifest_ok(
                r,
                parent_manifest_bytes@,
                *diff_result,
                strs(added_hashes@),
                strs(modified_hashes@),
            ),
    {
        let parent_hash: String = hash_bytes(parent_manifest_bytes);
        let mut file_paths: Vec<ManifestFilePath> = Vec::new();
        push_changed(&mut file_paths, &diff_result.added, added_hashes);
        let ghost after_added = file_paths@;
        push_changed(&mut file_paths, &diff_result.modified, modified_hashes);
        let ghost after_modified = file_paths@;
        let mut i: usize = 0;
        while i < diff_result.deleted.len()
            invariant
                i <= diff_result.deleted.len(),
                file_paths@.len() == after_modified.len() + i,
                forall|j: int| 0 <= j < after_modified.len() ==> #[trigger] file_paths@[j]
                    == after_modified[j],
                forall|j: int|
                    0 <= j < i ==> diff_path_view(#[trigger] file_paths@[after_modified.len() + j])
                        == (
                        diff_result.deleted@[j]@,
                        None::<Seq<char>>,
                        None::<u64>,
                        None::<i64>,
                        false,
                        true,
                    ) && file_paths@[after_modified.len() + j].chunkhashes is None
                        && file_paths@[after_modified.len() + j].symlink_target is None,
            decreases diff_result.deleted.len() - i,
        {
            file_paths.push(ManifestFilePath::deleted(own(diff_result.deleted[i].as_str())));
            i = i + 1;
        }
        let mut dir_paths: Vec<ManifestDirectoryPath> = Vec::new();
        let mut k: usize = 0;
        while k < diff_result.added_dirs.len()
            invariant
                k <= diff_result.added_dirs.len(),
                dir_paths@.len() == k,
                forall|j: int|
                    0 <= j < k ==> (#[trigger] dir_paths@[j]).path@ == diff_result.added_dirs@[j]@
                        && !dir_paths@[j].deleted,
            decreases diff_result.added_dirs.len() - k,
        {
            dir_paths.push(ManifestDirectoryPath::new(own(diff_result.added_dirs[k].as_str())));
            k = k + 1;
        }
        let na: usize = diff_result.added_dirs.len();
        let mut k2: usize = 0;
        while k2 < diff_result.deleted_dirs.len()
            invariant
                na == diff_result.added_dirs.len(),
                k2 <= diff_result.deleted_dirs.len(),
                dir_paths@.len() == na + k2,
                forall|j: int|
                    0 <= j < na ==> (#[trigger] dir_paths@[j]).path@ == diff_result.added_dirs@[j]@
                        && !dir_paths@[j].deleted,
                forall|j: int|
                    0 <= j < k2 ==> (#[trigger] dir_paths@[na + j]).path@
                        == diff_result.deleted_dirs@[j]@ && dir_paths@[na + j].deleted,
            decreases diff_result.deleted_dirs.len() - k2,
        {
            dir_paths.push(ManifestDirectoryPath::deleted(own(diff_result.deleted_dirs[k2].as_str())));
            k2 = k2 + 1;
        }
        let r = ManifestData::V2025_12_04_beta {
            dirs: dir_paths,
            paths: file_paths,
            parent_manifest_hash: Some(parent_hash),
        };
        proof {
            let ah = strs(added_hashes@);
            let mh = strs(modified_hashes@);
            let nadd = diff_result.added@.len() as int;
            assert forall|j: int| 0 <= j < diff_result.modified@.len() implies diff_path_view(
                #[trigger] file_paths@[nadd + j],
            ) == changed_entry(diff_result.modified@[j], mh[j]) && file_paths@[nadd
                + j].chunkhashes is None && file_paths@[nadd + j].symlink_target is None by {
                assert(file_paths@[nadd + j] == after_modified[nadd + j]);
            }
            assert forall|j: int| 0 <= j < nadd implies diff_path_view(#[trigger] file_paths@[j])
                == changed_entry(diff_result.added@[j], ah[j]) && file_paths@[j].chunkhashes is None
                && file_paths@[j].symlink_target is None by {
                assert(file_paths@[j] == after_modified[j]);
                assert(after_modified[j] == after_added[j]);
                let z: int = 0;
                assert(z + j == j);
                assert(diff_path_view(after_added[z + j]) == changed_entry(
                    diff_result.added@[j],
                    added_hashes@[j]@,
                ));
            }
        }
        r
    }
}


proof fn lemma_dirs_model_entries(ds: Seq<ManifestDirectoryPath>, f: GlobFilter)
    ensures
        forall|k: int|
            0 <= k < dirs_model(ds, f).len() ==> exists|j: int|
                0 <= j < ds.len() && !ds[j].deleted && passes(f, ds[j].path@) && ds[j].path@
                    == #[trigger] dirs_model(ds, f)[k],
        forall|j: int|
            0 <= j < ds.len() && !ds[j].deleted && passes(f, ds[j].path@) ==> dirs_model(
                ds,
                f,
            ).contains(#[trigger] ds[j].path@),
    decreases ds.len(),
{
    if ds.len() > 0 {
        let t = ds.drop_last();
        lemma_dirs_model_entries(t, f);
        let r = dirs_model(ds, f);
        let tm = dirs_model(t, f);
        assert forall|k: int| 0 <= k < r.len() implies exists|j: int|
            0 <= j < ds.len() && !ds[j].deleted && passes(f, ds[j].path@) && ds[j].path@
                == #[trigger] r[k] by {
            if k < tm.len() {
                assert(r[k] == tm[k]);
                let j = choose|j: int|
                    0 <= j < t.len() && !t[j].deleted && passes(f, t[j].path@) && t[j].path@ == tm[k];
                assert(ds[j] == t[j]);
            } else {
                assert(ds[ds.len() - 1] == ds.last());
            }
        }
        assert forall|j: int| 0 <= j < ds.len() && !ds[j].deleted && passes(f, ds[j].path@) implies r.contains(
            #[trigger] ds[j].path@,
        ) by {
            if j < t.len() {
                assert(t[j] == ds[j]);
                assert(tm.contains(t[j].path@));
                let k = choose|k: int| 0 <= k < tm.len() && tm[k] == t[j].path@;
                assert(r[k] == tm[k]);
            } else {
                assert(ds[j] == ds.last());
                assert(r[r.len() - 1] == ds[j].path@);
            }
        }
    }
}

/// A deletion marker is never a manifest directory: the directories the
/// diff compares against (`manifest_dirs_model`, as `get_manifest_dirs`
/// returns them) are exactly the paths of the v2025 directory entries that
/// are not deleted and pass the filter; a v2023 manifest, or one whose
/// directory entries are all deletion markers, has none.
pub proof fn lemma_manifest_dirs_skip_deletions(m: ManifestData, f: GlobFilter)
    ensures
        m is V2023_03_03 ==> manifest_dirs_model(m, f).len() == 0,
        m matches ManifestData::V2025_12_04_beta { dirs, .. } ==> {
            &&& forall|k: int|
                0 <= k < manifest_dirs_model(m, f).len() ==> exists|j: int|
                    0 <= j < dirs@.len() && !dirs@[j].deleted && passes(f, dirs@[j].path@)
                        && dirs@[j].path@ == #[trigger] manifest_dirs_model(m, f)[k]
            &&& forall|j: int|
                0 <= j < dirs@.len() && !dirs@[j].deleted && passes(f, dirs@[j].path@)
                    ==> manifest_dirs_model(m, f).contains(#[trigger] dirs@[j].path@)
            &&& (forall|j: int| 0 <= j < dirs@.len() ==> dirs@[j].deleted) ==> manifest_dirs_model(
                m,
                f,
            ).len() == 0
        },
{
    match m {
        ManifestData::V2023_03_03 { .. } => {},
        ManifestData::V2025_12_04_beta { dirs, .. } => {
            lemma_dirs_model_entries(dirs@, f);
            if forall|j: int| 0 <= j < dirs@.len() ==> dirs@[j].deleted {
                let r = manifest_dirs_model(m, f);
                if r.len() > 0 {
                    assert(r[0] == r[0]);
                    let j = choose|j: int|
                        0 <= j < dirs@.len() && !dirs@[j].deleted && passes(f, dirs@[j].path@)
                            && dirs@[j].path@ == r[0];
                    assert(dirs@[j].deleted);
                }
            }
        },
    }
}
} // verus!
