//! Download planning: options, which manifest entries are downloaded and
//! how, conflict resolution, copy names, and the post-download steps.
//!
//! The transfers themselves, directory creation and metadata changes on
//! disk happen around this module.

use vstd::prelude::*;

use crate::cas::{chunk_count, chunk_length, generate_chunks, ChunkInfo};
use crate::constants::{CHUNK_SIZE_V2, SMALL_FILE_THRESHOLD};
use crate::grouping::{parent_path, parent_text, path_exists};
use crate::manifest_data::{ManifestData, ManifestFilePath, ManifestPathV2023};
use crate::path_model::{components, push_text};
use crate::path_utils::{parse_components, push_path_text, PathComponent};
use crate::storage_error::StorageError;
use crate::storage_types::ConflictResolution;
use crate::text::{
    append_chars, append_str, chars_of, copy_opt, copy_strings, dec_text, opt_text, own,
    string_of, strs, u64_text,
};

verus! {

/// Default concurrency for parallel downloads.
pub const DEFAULT_DOWNLOAD_CONCURRENCY: usize = 10;

/// Options for download operations.
pub struct DownloadOptions {
    /// Verify downloaded file size matches manifest.
    pub verify_size: bool,
    /// Set file modification time from manifest.
    pub set_mtime: bool,
    /// Set executable bit on runnable files (Unix only).
    pub set_executable: bool,
    /// Maximum concurrent downloads for small files.
    pub max_concurrency: usize,
    /// Threshold for small vs large file separation.
    pub small_file_threshold: u64,
}

impl Default for DownloadOptions {
    fn default() -> (r: Self)
        ensures
            r.verify_size && r.set_mtime && r.set_executable,
            r.max_concurrency == DEFAULT_DOWNLOAD_CONCURRENCY,
            r.small_file_threshold == SMALL_FILE_THRESHOLD,
    {
        DownloadOptions {
            verify_size: true,
            set_mtime: true,
            set_executable: true,
            max_concurrency: DEFAULT_DOWNLOAD_CONCURRENCY,
            small_file_threshold: SMALL_FILE_THRESHOLD,
        }
    }
}

impl DownloadOptions {
    /// Options with all verification enabled (the default).
    pub fn new() -> (r: Self)
        ensures
            r.verify_size && r.set_mtime && r.set_executable,
            r.max_concurrency == DEFAULT_DOWNLOAD_CONCURRENCY,
            r.small_file_threshold == SMALL_FILE_THRESHOLD,
    {
        DownloadOptions::default()
    }

    /// Options with no post-download processing.
    pub fn no_verification() -> (r: Self)
        ensures
            !r.verify_size && !r.set_mtime && !r.set_executable,
            r.max_concurrency == DEFAULT_DOWNLOAD_CONCURRENCY,
            r.small_file_threshold == SMALL_FILE_THRESHOLD,
    {
        DownloadOptions {
            verify_size: false,
            set_mtime: false,
            set_executable: false,
            max_concurrency: DEFAULT_DOWNLOAD_CONCURRENCY,
            small_file_threshold: SMALL_FILE_THRESHOLD,
        }
    }

    /// The options with the given concurrency.
    pub fn with_max_concurrency(self, max_concurrency: usize) -> (r: Self)
        ensures
            r == (DownloadOptions { max_concurrency, ..self }),
    {
        let mut s = self;
        s.max_concurrency = max_concurrency;
        s
    }

    /// The options with the given small-file threshold.
    pub fn with_small_file_threshold(self, threshold: u64) -> (r: Self)
        ensures
            r == (DownloadOptions { small_file_threshold: threshold, ..self }),
    {
        let mut s = self;
        s.small_file_threshold = threshold;
        s
    }
}

/// A file (or symlink) to download.
pub struct DownloadEntry {
    /// Relative path within the manifest.
    pub relative_path: String,
    /// File hash (for single-object downloads).
    pub hash: Option<String>,
    /// Chunk hashes (for chunked downloads).
    pub chunkhashes: Option<Vec<String>>,
    /// Symlink target (if this is a symlink).
    pub symlink_target: Option<String>,
    /// File size in bytes.
    pub size: u64,
    /// Modification time in microseconds since epoch.
    pub mtime: Option<i64>,
    /// Whether the file should be executable.
    pub runnable: bool,
}

/// An entry as plain values: (path, hash, chunk hashes, symlink target,
/// size, mtime, runnable).
pub open spec fn download_view(e: DownloadEntry) -> (
    Seq<char>,
    Option<Seq<char>>,
    Option<Seq<Seq<char>>>,
    Option<Seq<char>>,
    u64,
    Option<i64>,
    bool,
) {
    (
        e.relative_path@,
        opt_text(e.hash),
        match e.chunkhashes {
            Some(c) => Some(strs(c@)),
            None => None,
        },
        opt_text(e.symlink_target),
        e.size,
        e.mtime,
        e.runnable,
    )
}

pub open spec fn v2023_download(p: ManifestPathV2023) -> (
    Seq<char>,
    Option<Seq<char>>,
    Option<Seq<Seq<char>>>,
    Option<Seq<char>>,
    u64,
    Option<i64>,
    bool,
) {
    (p.path@, Some(p.hash@), None, None, p.size, Some(p.mtime), false)
}

pub open spec fn v2025_download(p: ManifestFilePath) -> (
    Seq<char>,
    Option<Seq<char>>,
    Option<Seq<Seq<char>>>,
    Option<Seq<char>>,
    u64,
    Option<i64>,
    bool,
) {
    (
        p.path@,
        opt_text(p.hash),
        match p.chunkhashes {
            Some(c) => Some(strs(c@)),
            None => None,
        },
        opt_text(p.symlink_target),
        match p.size {
            Some(s) => s,
            None => 0,
        },
        p.mtime,
        p.runnable,
    )
}

/// The non-deleted entries of v2025 paths, in order.
pub open spec fn v2025_downloads(ps: Seq<ManifestFilePath>) -> Seq<
    (Seq<char>, Option<Seq<char>>, Option<Seq<Seq<char>>>, Option<Seq<char>>, u64, Option<i64>, bool),
>
    decreases ps.len(),
{
    if ps.len() == 0 {
        Seq::empty()
    } else {
        let t = v2025_downloads(ps.drop_last());
        if ps.last().deleted {
            t
        } else {
            t.push(v2025_download(ps.last()))
        }
    }
}

/// The entries a manifest downloads: every v2023 path (not executable),
/// or every v2025 path that is not a deletion marker (a missing size
/// counts as 0).
pub open spec fn downloads_model(m: ManifestData) -> Seq<
    (Seq<char>, Option<Seq<char>>, Option<Seq<Seq<char>>>, Option<Seq<char>>, u64, Option<i64>, bool),
> {
    match m {
        ManifestData::V2023_03_03 { paths } => Seq::new(
            paths@.len(),
            |i: int| v2023_download(paths@[i]),
        ),
        ManifestData::V2025_12_04_beta { paths, .. } => v2025_downloads(paths@),
    }
}

pub open spec fn downloads_view(v: Seq<DownloadEntry>) -> Seq<
    (Seq<char>, Option<Seq<char>>, Option<Seq<Seq<char>>>, Option<Seq<char>>, u64, Option<i64>, bool),
> {
    Seq::new(v.len(), |i: int| download_view(v[i]))
}

/// Collect downloadable entries from a manifest (see `downloads_model`).
pub fn collect_download_entries(manifest: &ManifestData) -> (r: Vec<DownloadEntry>)
    ensures
        downloads_view(r@) == downloads_model(*manifest),
{
    let mut entries: Vec<DownloadEntry> = Vec::new();
    match manifest {
        ManifestData::V2023_03_03 { paths } => {
            let mut i: usize = 0;
            while i < paths.len()
                invariant
                    i <= paths.len(),
                    downloads_view(entries@) == Seq::new(
                        i as nat,
                        |j: int| v2023_download(paths@[j]),
                    ),
                decreases paths.len() - i,
            {
                let p = &paths[i];
                let e = DownloadEntry {
                    relative_path: own(p.path.as_str()),
                    hash: Some(own(p.hash.as_str())),
                    chunkhashes: None,
                    symlink_target: None,
                    size: p.size,
                    mtime: Some(p.mtime),
                    runnable: false,
                };
                let ghost before = entries@;
                assert(download_view(e) == v2023_download(paths@[i as int]));
                entries.push(e);
                assert(downloads_view(entries@) =~= downloads_view(before).push(download_view(e)));
                assert(downloads_view(entries@) =~= Seq::new(
                    (i + 1) as nat,
                    |j: int| v2023_download(paths@[j]),
                ));
                i = i + 1;
            }
        },
        ManifestData::V2025_12_04_beta { paths, .. } => {
            let mut i: usize = 0;
            assert(paths@.subrange(0, 0) =~= Seq::<ManifestFilePath>::empty());
            assert(downloads_view(entries@) =~= Seq::empty());
            while i < paths.len()
                invariant
                    i <= paths.len(),
                    downloads_view(entries@) == v2025_downloads(paths@.subrange(0, i as int)),
                decreases paths.len() - i,
            {
                let p = &paths[i];
                proof {
                    let s = paths@.subrange(0, i + 1);
                    assert(s.drop_last() =~= paths@.subrange(0, i as int));
                    assert(s.last() == paths@[i as int]);
                }
                if !p.deleted {
                    let chunkhashes = match &p.chunkhashes {
                        Some(c) => Some(copy_strings(c)),
                        None => None,
                    };
                    let e = DownloadEntry {
                        relative_path: own(p.path.as_str()),
                        hash: copy_opt(&p.hash),
                        chunkhashes,
                        symlink_target: copy_opt(&p.symlink_target),
                        size: match p.size {
                            Some(s) => s,
                            None => 0,
                        },
                        mtime: p.mtime,
                        runnable: p.runnable,
                    };
                    let ghost before = entries@;
                    entries.push(e);
                    assert(downloads_view(entries@) =~= downloads_view(before).push(
                        download_view(e),
                    ));
                }
                i = i + 1;
            }
            assert(paths@.subrange(0, i as int) =~= paths@);
        },
    }
    entries
}

/// Splits entries in two, keeping order: those that satisfy the test
/// (given as a sequence of answers), then the others.
pub open spec fn split_by(
    v: Seq<DownloadEntry>,
    test: spec_fn(DownloadEntry) -> bool,
) -> (Seq<DownloadEntry>, Seq<DownloadEntry>)
    decreases v.len(),
{
    if v.len() == 0 {
        (Seq::empty(), Seq::empty())
    } else {
        let (a, b) = split_by(v.drop_last(), test);
        if test(v.last()) {
            (a.push(v.last()), b)
        } else {
            (a, b.push(v.last()))
        }
    }
}

/// Separates symlinks (entries with a target) from files, keeping order.
pub fn partition_symlinks(entries: Vec<DownloadEntry>) -> (r: (Vec<DownloadEntry>, Vec<DownloadEntry>))
    ensures
        (r.0@, r.1@) == split_by(entries@, |e: DownloadEntry| e.symlink_target is Some),
{
    let ghost all = entries@;
    let mut links: Vec<DownloadEntry> = Vec::new();
    let mut files: Vec<DownloadEntry> = Vec::new();
    let mut rest = entries;
    let mut i: usize = 0;
    let n = rest.len();
    assert(all.subrange(0, 0) =~= Seq::<DownloadEntry>::empty());
    assert(rest@ =~= all.subrange(0, n as int));
    while i < n
        invariant
            n == all.len(),
            i <= n,
            rest@ == all.subrange(i as int, n as int),
            (links@, files@) == split_by(
                all.subrange(0, i as int),
                |e: DownloadEntry| e.symlink_target is Some,
            ),
        decreases n - i,
    {
        let e = rest.remove(0);
        assert(e == all[i as int]);
        assert(rest@ =~= all.subrange(i + 1, n as int));
        proof {
            let s = all.subrange(0, i + 1);
            assert(s.drop_last() =~= all.subrange(0, i as int));
            assert(s.last() == all[i as int]);
        }
        if e.symlink_target.is_some() {
            links.push(e);
        } else {
            files.push(e);
        }
        i = i + 1;
    }
    assert(all.subrange(0, n as int) =~= all);
    (links, files)
}

/// Separates files smaller than the threshold from the others, keeping
/// order.
pub fn partition_by_size(entries: Vec<DownloadEntry>, threshold: u64) -> (r: (
    Vec<DownloadEntry>,
    Vec<DownloadEntry>,
))
    ensures
        (r.0@, r.1@) == split_by(entries@, |e: DownloadEntry| e.size < threshold),
{
    let ghost all = entries@;
    let mut small: Vec<DownloadEntry> = Vec::new();
    let mut large: Vec<DownloadEntry> = Vec::new();
    let mut rest = entries;
    let mut i: usize = 0;
    let n = rest.len();
    assert(all.subrange(0, 0) =~= Seq::<DownloadEntry>::empty());
    assert(rest@ =~= all.subrange(0, n as int));
    while i < n
        invariant
            n == all.len(),
            i <= n,
            rest@ == all.subrange(i as int, n as int),
            (small@, large@) == split_by(
                all.subrange(0, i as int),
                |e: DownloadEntry| e.size < threshold,
            ),
        decreases n - i,
    {
        let e = rest.remove(0);
        assert(e == all[i as int]);
        assert(rest@ =~= all.subrange(i + 1, n as int));
        proof {
            let s = all.subrange(0, i + 1);
            assert(s.drop_last() =~= all.subrange(0, i as int));
            assert(s.last() == all[i as int]);
        }
        if e.size < threshold {
            small.push(e);
        } else {
            large.push(e);
        }
        i = i + 1;
    }
    assert(all.subrange(0, n as int) =~= all);
    (small, large)
}

/// Splitting keeps every entry: the two parts hold as many entries as the
/// whole.
pub proof fn lemma_split_keeps_count(
    v: Seq<DownloadEntry>,
    test: spec_fn(DownloadEntry) -> bool,
)
    ensures
        split_by(v, test).0.len() + split_by(v, test).1.len() == v.len(),
        forall|i: int| 0 <= i < split_by(v, test).0.len() ==> test(#[trigger] split_by(v, test).0[i]),
        forall|i: int| 0 <= i < split_by(v, test).1.len() ==> !test(#[trigger] split_by(v, test).1[i]),
    decreases v.len(),
{
    if v.len() > 0 {
        lemma_split_keeps_count(v.drop_last(), test);
    }
}

/// What to do with a file that is to be downloaded to a path.
#[derive(PartialEq, Eq, Structural, Clone, Copy, Debug)]
pub enum ConflictAction {
    /// Download to the path.
    Write,
    /// Leave the existing file and count it as skipped.
    Skip,
    /// Download to a fresh copy name next to it.
    WriteCopy,
}

/// Conflict resolution: a path that does not exist is written; an existing
/// one is skipped, overwritten or copied, as requested.
pub fn conflict_action(exists: bool, resolution: ConflictResolution) -> (r: ConflictAction)
    ensures
        r == (if !exists {
            ConflictAction::Write
        } else {
            match resolution {
                ConflictResolution::Skip => ConflictAction::Skip,
                ConflictResolution::Overwrite => ConflictAction::Write,
                ConflictResolution::CreateCopy => ConflictAction::WriteCopy,
            }
        }),
{
    if !exists {
        ConflictAction::Write
    } else {
        match resolution {
            ConflictResolution::Skip => ConflictAction::Skip,
            ConflictResolution::Overwrite => ConflictAction::Write,
            ConflictResolution::CreateCopy => ConflictAction::WriteCopy,
        }
    }
}

/// One chunk to fetch: its CAS hash and where it goes in the file.
pub struct ChunkTransfer {
    /// Hash of the chunk.
    pub hash: String,
    /// Offset in the file.
    pub offset: u64,
    /// Length of the chunk.
    pub length: u64,
}

/// The chunks of a chunked file paired with their hashes, in order, as
/// far as both lists go.
pub fn chunk_transfers(total_size: u64, chunkhashes: &Vec<String>) -> (r: Vec<ChunkTransfer>)
    requires
        chunk_count(total_size as nat, CHUNK_SIZE_V2 as nat) <= usize::MAX,
    ensures
        r.len() == (if chunk_count(total_size as nat, CHUNK_SIZE_V2 as nat) < chunkhashes.len() {
            chunk_count(total_size as nat, CHUNK_SIZE_V2 as nat) as int
        } else {
            chunkhashes.len() as int
        }),
        forall|i: int|
            0 <= i < r.len() ==> (#[trigger] r@[i]).hash@ == chunkhashes@[i]@ && (total_size > 0
                ==> r@[i].offset == i * CHUNK_SIZE_V2 && r@[i].length == chunk_length(
                total_size as nat,
                CHUNK_SIZE_V2 as nat,
                i as nat,
            )) && (total_size == 0 ==> r@[i].offset == 0 && r@[i].length == 0),
{
    let chunks: Vec<ChunkInfo> = generate_chunks(total_size, CHUNK_SIZE_V2);
    let mut out: Vec<ChunkTransfer> = Vec::new();
    let mut i: usize = 0;
    while i < chunks.len() && i < chunkhashes.len()
        invariant
            i <= chunks.len(),
            i <= chunkhashes.len(),
            chunks.len() == chunk_count(total_size as nat, CHUNK_SIZE_V2 as nat),
            total_size == 0 ==> chunks@ == seq![ChunkInfo { index: 0, offset: 0, length: total_size }],
            total_size > 0 ==> forall|j: int|
                0 <= j < chunks.len() ==> {
                    &&& (#[trigger] chunks@[j]).offset == j * CHUNK_SIZE_V2
                    &&& chunks@[j].length == chunk_length(
                        total_size as nat,
                        CHUNK_SIZE_V2 as nat,
                        j as nat,
                    )
                },
            out.len() == i,
            forall|j: int|
                0 <= j < i ==> (#[trigger] out@[j]).hash@ == chunkhashes@[j]@ && out@[j].offset
                    == chunks@[j].offset && out@[j].length == chunks@[j].length,
        decreases chunks.len() - i,
    {
        out.push(
            ChunkTransfer {
                hash: own(chunkhashes[i].as_str()),
                offset: chunks[i].offset,
                length: chunks[i].length,
            },
        );
        i = i + 1;
    }
    out
}

/// The last component of a path, when it is a name.
pub open spec fn file_name(p: Seq<char>) -> Option<Seq<char>> {
    let cs = components(p);
    if cs.len() > 0 && cs.last() is Normal {
        Some(cs.last()->Normal_0)
    } else {
        None
    }
}

/// The index of the last `.` in a name, if any.
pub open spec fn last_dot(n: Seq<char>) -> Option<int>
    decreases n.len(),
{
    if n.len() == 0 {
        None
    } else if n.last() == '.' {
        Some(n.len() - 1)
    } else {
        last_dot(n.drop_last())
    }
}

/// A name's stem and extension, as `Path::file_stem` and
/// `Path::extension` split it: at the last dot, unless that dot starts the
/// name (or there is none), in which case the whole name is the stem.
pub open spec fn stem_and_extension(n: Seq<char>) -> (Seq<char>, Option<Seq<char>>) {
    match last_dot(n) {
        Some(i) => if i == 0 {
            (n, None)
        } else {
            (n.subrange(0, i), Some(n.subrange(i + 1, n.len() as int)))
        },
        None => (n, None),
    }
}

/// The copy name for a counter: `{stem} ({counter}){.extension}`.
pub open spec fn copy_name(original: Seq<char>, counter: nat) -> Seq<char> {
    let (stem, ext) = match file_name(original) {
        Some(n) => stem_and_extension(n),
        None => (Seq::<char>::empty(), None),
    };
    stem + " ("@ + dec_text(counter) + ")"@ + match ext {
        Some(e) => "."@ + e,
        None => Seq::<char>::empty(),
    }
}

/// The candidate path for a counter: the copy name next to the original.
pub open spec fn copy_candidate(original: Seq<char>, counter: nat) -> Seq<char> {
    let parent = match parent_text(original) {
        Some(p) => p,
        None => Seq::<char>::empty(),
    };
    push_text(parent, copy_name(original, counter))
}

fn find_last_dot(n: &Vec<char>) -> (r: Option<usize>)
    ensures
        match r {
            Some(i) => last_dot(n@) == Some(i as int) && i < n.len(),
            None => last_dot(n@) is None,
        },
{
    let mut i: usize = n.len();
    assert(n@.subrange(0, i as int) =~= n@);
    while i > 0
        invariant
            i <= n.len(),
            last_dot(n@) == last_dot(n@.subrange(0, i as int)),
        decreases i,
    {
        let ghost s = n@.subrange(0, i as int);
        assert(s.last() == n@[i - 1]);
        if n[i - 1] == '.' {
            return Some(i - 1);
        }
        assert(s.drop_last() =~= n@.subrange(0, i - 1));
        i = i - 1;
    }
    None
}

/// The copy name for a counter (see `copy_name`).
fn make_copy_name(original: &str, counter: u32) -> (r: Vec<char>)
    ensures
        r@ == copy_name(original@, counter as nat),
{
    let cs = parse_components(&chars_of(original));
    let mut stem: Vec<char> = Vec::new();
    let mut ext: Option<Vec<char>> = None;
    if cs.len() > 0 {
        match &cs[cs.len() - 1] {
            PathComponent::Normal(n) => {
                match find_last_dot(n) {
                    Some(i) => {
                        if i == 0 {
                            stem = crate::text::copy_chars(n);
                        } else {
                            let mut a: Vec<char> = Vec::new();
                            let mut k: usize = 0;
                            while k < i
                                invariant
                                    k <= i,
                                    i < n.len(),
                                    a@ == n@.subrange(0, k as int),
                                decreases i - k,
                            {
                                a.push(n[k]);
                                assert(n@.subrange(0, k + 1) =~= n@.subrange(0, k as int).push(n@[k as int]));
                                k = k + 1;
                            }
                            let mut b: Vec<char> = Vec::new();
                            let mut m: usize = i + 1;
                            assert(n@.subrange(i + 1, i + 1) =~= Seq::<char>::empty());
                            while m < n.len()
                                invariant
                                    i + 1 <= m <= n.len(),
                                    b@ == n@.subrange(i + 1, m as int),
                                decreases n.len() - m,
                            {
                                b.push(n[m]);
                                assert(n@.subrange(i + 1, m + 1) =~= n@.subrange(i + 1, m as int).push(n@[m as int]));
                                m = m + 1;
                            }
                            stem = a;
                            ext = Some(b);
                        }
                    },
                    None => {
                        stem = crate::text::copy_chars(n);
                    },
                }
            },
            _ => {},
        }
    }
    let mut out = stem;
    append_str(&mut out, " (");
    append_str(&mut out, u64_text(counter as u64).as_str());
    append_str(&mut out, ")");
    match &ext {
        Some(e) => {
            append_str(&mut out, ".");
            append_chars(&mut out, e);
        },
        None => {},
    }
    out
}

/// The candidate path for a counter, as text (see `copy_candidate`): the
/// path the disk is asked about for that counter.
pub fn copy_candidate_text(original: &str, counter: u32) -> (r: String)
    ensures
        r@ == copy_candidate(original@, counter as nat),
{
    let parent: Vec<char> = match parent_path(original) {
        Some(p) => chars_of(p.as_str()),
        None => Vec::new(),
    };
    let name = make_copy_name(original, counter);
    let mut candidate = crate::text::copy_chars(&parent);
    push_path_text(&mut candidate, &name);
    string_of(&candidate)
}

/// The most candidates tried before giving up.
pub const MAX_COPY_CANDIDATES: u32 = 10000;

/// The first free copy path, given for each candidate in turn (counter 1,
/// 2, ...) whether it is taken: the candidate of the first entry that is
/// not taken, or `None` when every entry is taken.
pub fn first_free_copy(original: &str, taken: &Vec<bool>) -> (r: Option<String>)
    requires
        taken.len() <= MAX_COPY_CANDIDATES,
    ensures
        (r is Some) <==> exists|k: int| 0 <= k < taken.len() && !taken@[k],
        r matches Some(p) ==> exists|k: int|
            0 <= k < taken.len() && !taken@[k] && (forall|j: int| 0 <= j < k ==> taken@[j])
                && p@ == copy_candidate(original@, (k + 1) as nat),
{
    let mut k: usize = 0;
    while k < taken.len()
        invariant
            k <= taken.len() <= MAX_COPY_CANDIDATES,
            forall|j: int| 0 <= j < k ==> taken@[j],
        decreases taken.len() - k,
    {
        if !taken[k] {
            let counter: u32 = (k + 1) as u32;
            let p = copy_candidate_text(original, counter);
            assert(0 <= k < taken.len() && !taken@[k as int] && (forall|j: int|
                0 <= j < k ==> taken@[j]) && p@ == copy_candidate(original@, (k + 1) as nat));
            return Some(p);
        }
        k = k + 1;
    }
    None
}

/// The answers a conflict search gets from the disk, in order: every
/// candidate before the last one asked about was taken, and the search
/// stops at the first free one or after `MAX_COPY_CANDIDATES` of them.
pub open spec fn copy_search_answers(taken: Seq<bool>) -> bool {
    &&& 1 <= taken.len() <= MAX_COPY_CANDIDATES
    &&& forall|j: int| 0 <= j < taken.len() - 1 ==> taken[j]
    &&& taken.len() < MAX_COPY_CANDIDATES ==> !taken.last()
}

/// Generate a unique file path for conflict resolution: tries
/// `file (1).ext`, `file (2).ext`, ... next to the original and returns the
/// first that does not exist; after 10000 tries, an I/O error "Too many
/// file conflicts" for the original path. Which candidates exist is the
/// disk's answer: the search asks about the paths `copy_candidate_text`
/// gives for counters 1, 2, ..., and the result is the one
/// `first_free_copy` picks from the answers it got.
pub fn generate_unique_copy_path(original: &str) -> (r: Result<String, StorageError>)
    ensures
        exists|taken: Seq<bool>|
            #[trigger] copy_search_answers(taken) && match r {
                Ok(p) => !taken.last() && p@ == copy_candidate(original@, taken.len()),
                Err(e) => taken.len() == MAX_COPY_CANDIDATES && taken.last() && (e matches StorageError::IoError {
                    path,
                    message,
                } && path@ == original@ && message@ == "Too many file conflicts"@),
            },
{
    let mut taken: Vec<bool> = Vec::new();
    let mut counter: u32 = 1;
    while counter <= MAX_COPY_CANDIDATES
        invariant_except_break
            1 <= counter <= MAX_COPY_CANDIDATES + 1,
            taken.len() == counter - 1,
            forall|j: int| 0 <= j < taken.len() ==> taken@[j],
        ensures
            copy_search_answers(taken@),
        decreases MAX_COPY_CANDIDATES + 1 - counter,
    {
        let text = copy_candidate_text(original, counter);
        assert(text@ == copy_candidate(original@, counter as nat));
        let exists = path_exists(text.as_str());
        taken.push(exists);
        if !exists {
            break;
        }
        counter = counter + 1;
    }
    match first_free_copy(original, &taken) {
        Some(p) => {
            proof {
                let k = choose|k: int|
                    0 <= k < taken.len() && !taken@[k] && (forall|j: int| 0 <= j < k ==> taken@[j])
                        && p@ == copy_candidate(original@, (k + 1) as nat);
                assert(k == taken.len() - 1);
            }
            Ok(p)
        },
        None => {
            proof {
                if taken.len() < MAX_COPY_CANDIDATES {
                    assert(!taken@[taken.len() - 1]);
                }
                assert(taken@[taken.len() - 1]);
            }
            Err(StorageError::IoError { path: own(original), message: own("Too many file conflicts") })
        },
    }
}

/// The permission bits after setting the executable bits: each execute bit
/// is set where the matching read bit is.
pub fn executable_mode(mode: u32) -> (r: u32)
    ensures
        r == mode | ((mode & 0o444u32) >> 2u32),
{
    mode | ((mode & 0o444) >> 2)
}

/// Division that rounds toward zero, as Rust's integer division does.
pub open spec fn trunc_div(m: int, d: int) -> int {
    if m >= 0 {
        m / d
    } else {
        -((-m) / d)
    }
}

/// The remainder of division that rounds toward zero.
pub open spec fn trunc_rem(m: int, d: int) -> int {
    m - trunc_div(m, d) * d
}

/// The (seconds, nanoseconds) of a modification time in microseconds:
/// the quotient and remainder by a million (rounded toward zero), the
/// remainder scaled to nanoseconds, each cast as the conversion casts it.
pub fn mtime_parts(mtime_us: i64) -> (r: (u64, u32))
    ensures
        r.0 == trunc_div(mtime_us as int, 1000000) as u64,
        r.1 == (trunc_rem(mtime_us as int, 1000000) * 1000) as u32,
{
    let m: i128 = mtime_us as i128;
    let q: i128 = if m >= 0 {
        m / 1_000_000
    } else {
        0 - ((0 - m) / 1_000_000)
    };
    let rem: i128 = m - q * 1_000_000;
    let secs: u64 = q as u64;
    let nanos: u32 = (rem * 1000) as u32;
    (secs, nanos)
}

/// Checks a downloaded file's size: a mismatch is a `SizeMismatch` for the
/// path.
pub fn check_file_size(path: &str, expected_size: u64, actual_size: u64) -> (r: Result<
    (),
    StorageError,
>)
    ensures
        actual_size == expected_size <==> r is Ok,
        r matches Err(e) ==> e matches StorageError::SizeMismatch { key, expected, actual } && key@
            == path@ && expected == expected_size && actual == actual_size,
{
    if actual_size != expected_size {
        return Err(
            StorageError::SizeMismatch {
                key: own(path),
                expected: expected_size,
                actual: actual_size,
            },
        );
    }
    Ok(())
}

/// The steps applied to a downloaded file.
pub struct PostDownloadSteps {
    /// Check the file's size against the manifest.
    pub verify_size: bool,
    /// Set the modification time (microseconds) from the manifest.
    pub set_mtime: Option<i64>,
    /// Set the executable bits.
    pub set_executable: bool,
}

/// Which post-download steps apply: size verification as configured, the
/// mtime when configured and known, the executable bits when configured and
/// the entry is runnable.
pub fn post_download_steps(options: &DownloadOptions, entry: &DownloadEntry) -> (r:
    PostDownloadSteps)
    ensures
        r.verify_size == options.verify_size,
        r.set_mtime == (if options.set_mtime {
            entry.mtime
        } else {
            None
        }),
        r.set_executable == (options.set_executable && entry.runnable),
{
    PostDownloadSteps {
        verify_size: options.verify_size,
        set_mtime: if options.set_mtime {
            entry.mtime
        } else {
            None
        },
        set_executable: options.set_executable && entry.runnable,
    }
}


/// An entry downloads a v2025 manifest path: the same path, hash, chunk
/// hashes, symlink target, mtime and runnable flag, and its size (0 when
/// the path has none).
pub open spec fn entry_downloads_path(e: DownloadEntry, p: ManifestFilePath) -> bool {
    &&& e.relative_path@ == p.path@
    &&& opt_text(e.hash) == opt_text(p.hash)
    &&& e.chunkhashes is Some == p.chunkhashes is Some
    &&& (e.chunkhashes matches Some(a) ==> (p.chunkhashes matches Some(b) && strs(a@) == strs(b@)))
    &&& opt_text(e.symlink_target) == opt_text(p.symlink_target)
    &&& e.size == (match p.size {
        Some(n) => n,
        None => 0,
    })
    &&& e.mtime == p.mtime
    &&& e.runnable == p.runnable
}

proof fn lemma_v2025_downloads_entries(ps: Seq<ManifestFilePath>)
    ensures
        forall|k: int|
            0 <= k < v2025_downloads(ps).len() ==> exists|j: int|
                0 <= j < ps.len() && !ps[j].deleted && #[trigger] v2025_downloads(ps)[k]
                    == v2025_download(ps[j]),
        forall|j: int|
            0 <= j < ps.len() && !ps[j].deleted ==> exists|k: int|
                0 <= k < v2025_downloads(ps).len() && v2025_downloads(ps)[k] == v2025_download(
                    #[trigger] ps[j],
                ),
    decreases ps.len(),
{
    if ps.len() > 0 {
        let t = ps.drop_last();
        lemma_v2025_downloads_entries(t);
        let r = v2025_downloads(ps);
        let tm = v2025_downloads(t);
        assert forall|k: int| 0 <= k < r.len() implies exists|j: int|
            0 <= j < ps.len() && !ps[j].deleted && #[trigger] r[k] == v2025_download(ps[j]) by {
            if k < tm.len() {
                assert(r[k] == tm[k]);
                let j = choose|j: int| 0 <= j < t.len() && !t[j].deleted && tm[k] == v2025_download(t[j]);
                assert(ps[j] == t[j]);
            } else {
                assert(ps[ps.len() - 1] == ps.last());
            }
        }
        assert forall|j: int| 0 <= j < ps.len() && !ps[j].deleted implies exists|k: int|
            0 <= k < r.len() && r[k] == v2025_download(#[trigger] ps[j]) by {
            if j < t.len() {
                assert(t[j] == ps[j]);
                let k = choose|k: int| 0 <= k < tm.len() && tm[k] == v2025_download(t[j]);
                assert(r[k] == tm[k]);
            } else {
                assert(ps[j] == ps.last());
                assert(r[r.len() - 1] == v2025_download(ps[j]));
            }
        }
    }
}

/// The entries `collect_download_entries` returns carry the manifest's
/// fields: for a v2023 manifest, one entry per path in order, with its
/// path, hash, size and mtime, never chunked, a symlink or executable; for
/// a v2025 manifest, each entry downloads a path that is not a deletion
/// marker (same path, hashes, chunk hashes, symlink target, mtime and
/// runnable flag), and each such path has an entry.
pub proof fn lemma_download_entries_carry_fields(m: ManifestData, r: Seq<DownloadEntry>)
    requires
        downloads_view(r) == downloads_model(m),
    ensures
        m matches ManifestData::V2023_03_03 { paths } ==> {
            &&& r.len() == paths@.len()
            &&& forall|i: int|
                0 <= i < r.len() ==> {
                    &&& (#[trigger] r[i]).relative_path@ == paths@[i].path@
                    &&& opt_text(r[i].hash) == Some(paths@[i].hash@)
                    &&& r[i].chunkhashes is None
                    &&& r[i].symlink_target is None
                    &&& r[i].size == paths@[i].size
                    &&& r[i].mtime == Some(paths@[i].mtime)
                    &&& !r[i].runnable
                }
        },
        m matches ManifestData::V2025_12_04_beta { paths, .. } ==> {
            &&& forall|k: int|
                0 <= k < r.len() ==> exists|j: int|
                    0 <= j < paths@.len() && !paths@[j].deleted && entry_downloads_path(
                        #[trigger] r[k],
                        paths@[j],
                    )
            &&& forall|j: int|
                0 <= j < paths@.len() && !paths@[j].deleted ==> exists|k: int|
                    0 <= k < r.len() && entry_downloads_path(r[k], #[trigger] paths@[j])
        },
{
    assert(downloads_view(r).len() == r.len());
    match m {
        ManifestData::V2023_03_03 { paths } => {
            assert forall|i: int| 0 <= i < r.len() implies {
                &&& (#[trigger] r[i]).relative_path@ == paths@[i].path@
                &&& opt_text(r[i].hash) == Some(paths@[i].hash@)
                &&& r[i].chunkhashes is None
                &&& r[i].symlink_target is None
                &&& r[i].size == paths@[i].size
                &&& r[i].mtime == Some(paths@[i].mtime)
                &&& !r[i].runnable
            } by {
                assert(downloads_view(r)[i] == downloads_model(m)[i]);
                assert(download_view(r[i]) == v2023_download(paths@[i]));
            }
        },
        ManifestData::V2025_12_04_beta { paths, .. } => {
            let ps = paths@;
            lemma_v2025_downloads_entries(ps);
            assert forall|k: int| 0 <= k < r.len() implies exists|j: int|
                0 <= j < ps.len() && !ps[j].deleted && entry_downloads_path(#[trigger] r[k], ps[j]) by {
                assert(downloads_view(r)[k] == v2025_downloads(ps)[k]);
                let j = choose|j: int|
                    0 <= j < ps.len() && !ps[j].deleted && v2025_downloads(ps)[k] == v2025_download(ps[j]);
                assert(download_view(r[k]) == v2025_download(ps[j]));
            }
            assert forall|j: int| 0 <= j < ps.len() && !ps[j].deleted implies exists|k: int|
                0 <= k < r.len() && entry_downloads_path(r[k], #[trigger] ps[j]) by {
                let k = choose|k: int|
                    0 <= k < v2025_downloads(ps).len() && v2025_downloads(ps)[k] == v2025_download(ps[j]);
                assert(downloads_view(r)[k] == v2025_downloads(ps)[k]);
                assert(download_view(r[k]) == v2025_download(ps[j]));
            }
        },
    }
}
} // verus!
