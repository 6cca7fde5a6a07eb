//! Upload planning: options, which manifest entries are uploaded and how,
//! existence decisions and the statistics of chunked uploads.
//!
//! The transfers and existence queries themselves happen around this
//! module.

use vstd::prelude::*;

use crate::constants::SMALL_FILE_THRESHOLD;
use crate::manifest_data::{ManifestData, ManifestFilePath};
use crate::storage_error::StorageError;
use crate::storage_types::TransferStatistics;
use crate::text::{append_str, copy_opt, copy_strings, opt_text, own, string_of, strs};

verus! {

/// Default concurrency for parallel uploads.
pub const DEFAULT_UPLOAD_CONCURRENCY: usize = 10;

/// Options for upload operations.
pub struct UploadOptions {
    /// Maximum concurrent uploads for small files.
    pub max_concurrency: usize,
    /// Threshold for small vs large file separation.
    pub small_file_threshold: u64,
}

impl Default for UploadOptions {
    fn default() -> (r: Self)
        ensures
            r.max_concurrency == DEFAULT_UPLOAD_CONCURRENCY,
            r.small_file_threshold == SMALL_FILE_THRESHOLD,
    {
        UploadOptions {
            max_concurrency: DEFAULT_UPLOAD_CONCURRENCY,
            small_file_threshold: SMALL_FILE_THRESHOLD,
        }
    }
}

impl UploadOptions {
    /// Options with default settings.
    pub fn new() -> (r: Self)
        ensures
            r.max_concurrency == DEFAULT_UPLOAD_CONCURRENCY,
            r.small_file_threshold == SMALL_FILE_THRESHOLD,
    {
        UploadOptions::default()
    }

    /// The options with the given concurrency.
    pub fn with_max_concurrency(self, max_concurrency: usize) -> (r: Self)
        ensures
            r.max_concurrency == max_concurrency,
            r.small_file_threshold == self.small_file_threshold,
    {
        let mut s = self;
        s.max_concurrency = max_concurrency;
        s
    }

    /// The options with the given small-file threshold.
    pub fn with_small_file_threshold(self, threshold: u64) -> (r: Self)
        ensures
            r.max_concurrency == self.max_concurrency,
            r.small_file_threshold == threshold,
    {
        let mut s = self;
        s.small_file_threshold = threshold;
        s
    }
}

/// A file to upload.
pub struct UploadEntry {
    /// Local file path.
    pub local_path: String,
    /// File hash (for single-object uploads).
    pub hash: Option<String>,
    /// Chunk hashes (for chunked uploads).
    pub chunkhashes: Option<Vec<String>>,
    /// File size in bytes.
    pub size: u64,
}

/// An entry as plain values: (local path, hash, chunk hashes, size).
pub open spec fn upload_view(e: UploadEntry) -> (
    Seq<char>,
    Option<Seq<char>>,
    Option<Seq<Seq<char>>>,
    u64,
) {
    (
        e.local_path@,
        opt_text(e.hash),
        match e.chunkhashes {
            Some(c) => Some(strs(c@)),
            None => None,
        },
        e.size,
    )
}

pub open spec fn uploads_view(v: Seq<UploadEntry>) -> Seq<
    (Seq<char>, Option<Seq<char>>, Option<Seq<Seq<char>>>, u64),
> {
    Seq::new(v.len(), |i: int| upload_view(v[i]))
}

/// `{root}/{path}`.
pub open spec fn local_path(root: Seq<char>, path: Seq<char>) -> Seq<char> {
    root + "/"@ + path
}

/// The uploads of v2025 paths: every path that is neither a deletion
/// marker nor a symlink (a missing size counts as 0).
pub open spec fn v2025_uploads(ps: Seq<ManifestFilePath>, root: Seq<char>) -> Seq<
    (Seq<char>, Option<Seq<char>>, Option<Seq<Seq<char>>>, u64),
>
    decreases ps.len(),
{
    if ps.len() == 0 {
        Seq::empty()
    } else {
        let t = v2025_uploads(ps.drop_last(), root);
        let p = ps.last();
        if p.deleted || p.symlink_target is Some {
            t
        } else {
            t.push(
                (
                    local_path(root, p.path@),
                    opt_text(p.hash),
                    match p.chunkhashes {
                        Some(c) => Some(strs(c@)),
                        None => None,
                    },
                    match p.size {
                        Some(s) => s,
                        None => 0,
                    },
                ),
            )
        }
    }
}

/// The entries a manifest uploads from a source root.
pub open spec fn uploads_model(m: ManifestData, root: Seq<char>) -> Seq<
    (Seq<char>, Option<Seq<char>>, Option<Seq<Seq<char>>>, u64),
> {
    match m {
        ManifestData::V2023_03_03 { paths } => Seq::new(
            paths@.len(),
            |i: int|
                (
                    local_path(root, paths@[i].path@),
                    Some(paths@[i].hash@),
                    None::<Seq<Seq<char>>>,
                    paths@[i].size,
                ),
        ),
        ManifestData::V2025_12_04_beta { paths, .. } => v2025_uploads(paths@, root),
    }
}

fn join_root(root: &str, path: &str) -> (r: String)
    ensures
        r@ == local_path(root@, path@),
{
    let mut out: Vec<char> = Vec::new();
    append_str(&mut out, root);
    append_str(&mut out, "/");
    append_str(&mut out, path);
    string_of(&out)
}

/// Collect uploadable entries from a manifest (see `uploads_model`).
pub fn collect_upload_entries(manifest: &ManifestData, source_root: &str) -> (r: Vec<UploadEntry>)
    ensures
        uploads_view(r@) == uploads_model(*manifest, source_root@),
{
    let mut entries: Vec<UploadEntry> = Vec::new();
    match manifest {
        ManifestData::V2023_03_03 { paths } => {
            let mut i: usize = 0;
            while i < paths.len()
                invariant
                    i <= paths.len(),
                    uploads_view(entries@) == Seq::new(
                        i as nat,
                        |j: int|
                            (
                                local_path(source_root@, paths@[j].path@),
                                Some(paths@[j].hash@),
                                None::<Seq<Seq<char>>>,
                                paths@[j].size,
                            ),
                    ),
                decreases paths.len() - i,
            {
                let p = &paths[i];
                let e = UploadEntry {
                    local_path: join_root(source_root, p.path.as_str()),
                    hash: Some(own(p.hash.as_str())),
                    chunkhashes: None,
                    size: p.size,
                };
                let ghost before = entries@;
                entries.push(e);
                assert(uploads_view(entries@) =~= uploads_view(before).push(upload_view(e)));
                assert(uploads_view(entries@) =~= Seq::new(
                    (i + 1) as nat,
                    |j: int|
                        (
                            local_path(source_root@, paths@[j].path@),
                            Some(paths@[j].hash@),
                            None::<Seq<Seq<char>>>,
                            paths@[j].size,
                        ),
                ));
                i = i + 1;
            }
        },
        ManifestData::V2025_12_04_beta { paths, .. } => {
            let mut i: usize = 0;
            assert(paths@.subrange(0, 0) =~= Seq::<ManifestFilePath>::empty());
            assert(uploads_view(entries@) =~= Seq::empty());
            while i < paths.len()
                invariant
                    i <= paths.len(),
                    uploads_view(entries@) == v2025_uploads(
                        paths@.subrange(0, i as int),
                        source_root@,
                    ),
                decreases paths.len() - i,
            {
                let p = &paths[i];
                proof {
                    let s = paths@.subrange(0, i + 1);
                    assert(s.drop_last() =~= paths@.subrange(0, i as int));
                    assert(s.last() == paths@[i as int]);
                }
                if !p.deleted && p.symlink_target.is_none() {
                    let e = UploadEntry {
                        local_path: join_root(source_root, p.path.as_str()),
                        hash: copy_opt(&p.hash),
                        chunkhashes: match &p.chunkhashes {
                            Some(c) => Some(copy_strings(c)),
                            None => None,
                        },
                        size: match p.size {
                            Some(s) => s,
                            None => 0,
                        },
                    };
                    let ghost before = entries@;
                    entries.push(e);
                    assert(uploads_view(entries@) =~= uploads_view(before).push(upload_view(e)));
                }
                i = i + 1;
            }
            assert(paths@.subrange(0, i as int) =~= paths@);
        },
    }
    entries
}

/// Entries smaller than the threshold, then the others, each in order.
pub open spec fn split_uploads(v: Seq<UploadEntry>, threshold: u64) -> (
    Seq<UploadEntry>,
    Seq<UploadEntry>,
)
    decreases v.len(),
{
    if v.len() == 0 {
        (Seq::empty(), Seq::empty())
    } else {
        let (a, b) = split_uploads(v.drop_last(), threshold);
        if v.last().size < threshold {
            (a.push(v.last()), b)
        } else {
            (a, b.push(v.last()))
        }
    }
}

/// Separates files smaller than the threshold from the others, keeping
/// order.
pub fn separate_files_by_size(entries: Vec<UploadEntry>, threshold: u64) -> (r: (
    Vec<UploadEntry>,
    Vec<UploadEntry>,
))
    ensures
        (r.0@, r.1@) == split_uploads(entries@, threshold),
{
    let ghost all = entries@;
    let mut small: Vec<UploadEntry> = Vec::new();
    let mut large: Vec<UploadEntry> = Vec::new();
    let mut rest = entries;
    let n = rest.len();
    let mut i: usize = 0;
    assert(all.subrange(0, 0) =~= Seq::<UploadEntry>::empty());
    assert(rest@ =~= all.subrange(0, n as int));
    while i < n
        invariant
            n == all.len(),
            i <= n,
            rest@ == all.subrange(i as int, n as int),
            (small@, large@) == split_uploads(all.subrange(0, i as int), threshold),
        decreases n - i,
    {
        let e = rest.remove(0);
        assert(e == all[i as int]);
        assert(rest@ =~= all.subrange(i + 1, n as int));
        proof {
            let s = all.subrange(0, i + 1);
            assert(s.drop_last() =~= all.subrange(0, i as int));
            assert(s.last() == all[i as int]);
        }
        if e.size < threshold {
            small.push(e);
        } else {
            large.push(e);
        }
        i = i + 1;
    }
    assert(all.subrange(0, n as int) =~= all);
    (small, large)
}

/// How an entry is uploaded.
pub enum UploadKind {
    /// As one object named by the file's hash.
    Single(String),
    /// As one object per chunk, named by the chunks' hashes.
    Chunked(Vec<String>),
}

/// How an entry is uploaded: whole when it has a hash, in chunks when it
/// has chunk hashes, and an error when it has neither.
pub fn upload_kind(entry: &UploadEntry) -> (r: Result<UploadKind, StorageError>)
    ensures
        match entry.hash {
            Some(h) => r matches Ok(UploadKind::Single(s)) && s@ == h@,
            None => match entry.chunkhashes {
                Some(c) => r matches Ok(UploadKind::Chunked(v)) && strs(v@) == strs(c@),
                None => r matches Err(StorageError::Other { message }) && message@ == "Entry "@
                    + entry.local_path@ + " has no hash or chunkhashes"@,
            },
        },
{
    match &entry.hash {
        Some(h) => Ok(UploadKind::Single(own(h.as_str()))),
        None => match &entry.chunkhashes {
            Some(c) => Ok(UploadKind::Chunked(copy_strings(c))),
            None => {
                let mut out: Vec<char> = Vec::new();
                append_str(&mut out, "Entry ");
                append_str(&mut out, entry.local_path.as_str());
                append_str(&mut out, " has no hash or chunkhashes");
                Err(StorageError::Other { message: string_of(&out) })
            },
        },
    }
}

/// Whether a CAS object counts as present: the check cache knows it, or
/// S3 reports it with the expected size.
pub fn cas_object_present(cached: bool, existing_size: Option<u64>, expected_size: u64) -> (r: bool)
    ensures
        r == (cached || existing_size == Some(expected_size)),
{
    if cached {
        return true;
    }
    match existing_size {
        Some(size) => size == expected_size,
        None => false,
    }
}

/// The statistics of a chunked upload given, for each chunk (its length),
/// whether it was already present: present chunks count as skipped, the
/// others as transferred, and the file counts once.
pub open spec fn chunk_stats_ok(s: TransferStatistics, lengths: Seq<u64>, present: Seq<bool>) -> bool {
    &&& s.files_processed == 1
    &&& s.files_skipped == count_where(present, true)
    &&& s.files_transferred == count_where(present, false)
    &&& s.bytes_skipped == sum_where(lengths, present, true)
    &&& s.bytes_transferred == sum_where(lengths, present, false)
    &&& s.errors@.len() == 0
}

pub open spec fn count_where(present: Seq<bool>, b: bool) -> nat
    decreases present.len(),
{
    if present.len() == 0 {
        0
    } else {
        count_where(present.drop_last(), b) + if present.last() == b {
            1nat
        } else {
            0nat
        }
    }
}

pub open spec fn sum_where(lengths: Seq<u64>, present: Seq<bool>, b: bool) -> nat
    decreases lengths.len(),
{
    if lengths.len() == 0 || present.len() < lengths.len() {
        0
    } else {
        sum_where(lengths.drop_last(), present.drop_last(), b) + if present[lengths.len() - 1] == b {
            lengths.last() as nat
        } else {
            0nat
        }
    }
}

/// The statistics of a chunked upload (see `chunk_stats_ok`).
pub fn chunked_upload_stats(lengths: &Vec<u64>, present: &Vec<bool>) -> (r: TransferStatistics)
    requires
        present.len() == lengths.len(),
        sum_where(lengths@, present@, true) + sum_where(lengths@, present@, false) <= u64::MAX,
    ensures
        chunk_stats_ok(r, lengths@, present@),
{
    let mut stats = TransferStatistics::default();
    let mut i: usize = 0;
    assert(lengths@.subrange(0, 0) =~= Seq::<u64>::empty());
    assert(present@.subrange(0, 0) =~= Seq::<bool>::empty());
    while i < lengths.len()
        invariant
            i <= lengths.len(),
            present.len() == lengths.len(),
            sum_where(lengths@, present@, true) + sum_where(lengths@, present@, false) <= u64::MAX,
            stats.files_processed == 0,
            stats.files_skipped == count_where(present@.subrange(0, i as int), true),
            stats.files_transferred == count_where(present@.subrange(0, i as int), false),
            stats.bytes_skipped == sum_where(
                lengths@.subrange(0, i as int),
                present@.subrange(0, i as int),
                true,
            ),
            stats.bytes_transferred == sum_where(
                lengths@.subrange(0, i as int),
                present@.subrange(0, i as int),
                false,
            ),
            stats.errors@.len() == 0,
        decreases lengths.len() - i,
    {
        proof {
            let l = lengths@.subrange(0, i + 1);
            let p = present@.subrange(0, i + 1);
            assert(l.drop_last() =~= lengths@.subrange(0, i as int));
            assert(p.drop_last() =~= present@.subrange(0, i as int));
            assert(p[i as int] == present@[i as int]);
            lemma_sums_grow(lengths@, present@, i + 1);
            lemma_count_bound(p, true);
            lemma_count_bound(p, false);
        }
        if present[i] {
            stats.files_skipped = stats.files_skipped + 1;
            stats.bytes_skipped = stats.bytes_skipped + lengths[i];
        } else {
            stats.files_transferred = stats.files_transferred + 1;
            stats.bytes_transferred = stats.bytes_transferred + lengths[i];
        }
        i = i + 1;
    }
    assert(lengths@.subrange(0, i as int) =~= lengths@);
    assert(present@.subrange(0, i as int) =~= present@);
    stats.files_processed = 1;
    stats
}

proof fn lemma_count_bound(p: Seq<bool>, b: bool)
    ensures
        count_where(p, b) <= p.len(),
    decreases p.len(),
{
    if p.len() > 0 {
        lemma_count_bound(p.drop_last(), b);
    }
}

proof fn lemma_sums_grow(lengths: Seq<u64>, present: Seq<bool>, n: int)
    requires
        0 <= n <= lengths.len(),
        present.len() == lengths.len(),
    ensures
        sum_where(lengths.subrange(0, n), present.subrange(0, n), true) <= sum_where(
            lengths,
            present,
            true,
        ),
        sum_where(lengths.subrange(0, n), present.subrange(0, n), false) <= sum_where(
            lengths,
            present,
            false,
        ),
    decreases lengths.len() - n,
{
    if n < lengths.len() {
        lemma_sums_grow(lengths, present, n + 1);
        let l = lengths.subrange(0, n + 1);
        let p = present.subrange(0, n + 1);
        assert(l.drop_last() =~= lengths.subrange(0, n));
        assert(p.drop_last() =~= present.subrange(0, n));
    } else {
        assert(lengths.subrange(0, n) =~= lengths);
        assert(present.subrange(0, n) =~= present);
    }
}


/// An entry uploads a v2025 manifest path from a source root: the file at
/// `{root}/{path}`, with the path's hash and chunk hashes unchanged and its
/// size (0 when it has none).
pub open spec fn entry_uploads_path(e: UploadEntry, p: ManifestFilePath, root: Seq<char>) -> bool {
    &&& e.local_path@ == root + "/"@ + p.path@
    &&& opt_text(e.hash) == opt_text(p.hash)
    &&& e.chunkhashes is Some == p.chunkhashes is Some
    &&& (e.chunkhashes matches Some(a) ==> (p.chunkhashes matches Some(b) && strs(a@) == strs(b@)))
    &&& e.size == (match p.size {
        Some(n) => n,
        None => 0,
    })
}

/// The tuple an entry for a path has (see `v2025_uploads`).
spec fn upload_tuple(p: ManifestFilePath, root: Seq<char>) -> (
    Seq<char>,
    Option<Seq<char>>,
    Option<Seq<Seq<char>>>,
    u64,
) {
    (
        local_path(root, p.path@),
        opt_text(p.hash),
        match p.chunkhashes {
            Some(c) => Some(strs(c@)),
            None => None,
        },
        match p.size {
            Some(s) => s,
            None => 0,
        },
    )
}

proof fn lemma_v2025_uploads_entries(ps: Seq<ManifestFilePath>, root: Seq<char>)
    ensures
        forall|k: int|
            0 <= k < v2025_uploads(ps, root).len() ==> exists|j: int|
                0 <= j < ps.len() && !ps[j].deleted && ps[j].symlink_target is None
                    && #[trigger] v2025_uploads(ps, root)[k] == upload_tuple(ps[j], root),
        forall|j: int|
            0 <= j < ps.len() && !ps[j].deleted && ps[j].symlink_target is None ==> exists|k: int|
                0 <= k < v2025_uploads(ps, root).len() && v2025_uploads(ps, root)[k] == upload_tuple(
                    #[trigger] ps[j],
                    root,
                ),
    decreases ps.len(),
{
    if ps.len() > 0 {
        let t = ps.drop_last();
        lemma_v2025_uploads_entries(t, root);
        let r = v2025_uploads(ps, root);
        let tm = v2025_uploads(t, root);
        assert forall|k: int| 0 <= k < r.len() implies exists|j: int|
            0 <= j < ps.len() && !ps[j].deleted && ps[j].symlink_target is None && #[trigger] r[k]
                == upload_tuple(ps[j], root) by {
            if k < tm.len() {
                assert(r[k] == tm[k]);
                let j = choose|j: int|
                    0 <= j < t.len() && !t[j].deleted && t[j].symlink_target is None && tm[k]
                        == upload_tuple(t[j], root);
                assert(ps[j] == t[j]);
            } else {
                assert(ps[ps.len() - 1] == ps.last());
            }
        }
        assert forall|j: int|
            0 <= j < ps.len() && !ps[j].deleted && ps[j].symlink_target is None implies exists|k: int|
            0 <= k < r.len() && r[k] == upload_tuple(#[trigger] ps[j], root) by {
            if j < t.len() {
                assert(t[j] == ps[j]);
                let k = choose|k: int| 0 <= k < tm.len() && tm[k] == upload_tuple(t[j], root);
                assert(r[k] == tm[k]);
            } else {
                assert(ps[j] == ps.last());
                assert(r[r.len() - 1] == upload_tuple(ps[j], root));
            }
        }
    }
}

/// The entries `collect_upload_entries` returns carry the manifest's
/// fields: for a v2023 manifest, one entry per path in order, at
/// `{root}/{path}`, with its hash and size and no chunk hashes; for a v2025
/// manifest, each entry uploads a path that is neither a deletion marker
/// nor a symlink, with its hash and chunk hashes unchanged (so a file with
/// a hash or chunk hashes keeps them), and each such path has an entry.
pub proof fn lemma_upload_entries_carry_fields(m: ManifestData, root: Seq<char>, r: Seq<UploadEntry>)
    requires
        uploads_view(r) == uploads_model(m, root),
    ensures
        m matches ManifestData::V2023_03_03 { paths } ==> {
            &&& r.len() == paths@.len()
            &&& forall|i: int|
                0 <= i < r.len() ==> {
                    &&& (#[trigger] r[i]).local_path@ == root + "/"@ + paths@[i].path@
                    &&& opt_text(r[i].hash) == Some(paths@[i].hash@)
                    &&& r[i].chunkhashes is None
                    &&& r[i].size == paths@[i].size
                }
        },
        m matches ManifestData::V2025_12_04_beta { paths, .. } ==> {
            &&& forall|k: int|
                0 <= k < r.len() ==> exists|j: int|
                    0 <= j < paths@.len() && !paths@[j].deleted && paths@[j].symlink_target is None
                        && entry_uploads_path(#[trigger] r[k], paths@[j], root)
            &&& forall|j: int|
                0 <= j < paths@.len() && !paths@[j].deleted && paths@[j].symlink_target is None
                    ==> exists|k: int|
                    0 <= k < r.len() && entry_uploads_path(r[k], #[trigger] paths@[j], root)
        },
{
    assert(uploads_view(r).len() == r.len());
    match m {
        ManifestData::V2023_03_03 { paths } => {
            assert forall|i: int| 0 <= i < r.len() implies {
                &&& (#[trigger] r[i]).local_path@ == root + "/"@ + paths@[i].path@
                &&& opt_text(r[i].hash) == Some(paths@[i].hash@)
                &&& r[i].chunkhashes is None
                &&& r[i].size == paths@[i].size
            } by {
                assert(uploads_view(r)[i] == uploads_model(m, root)[i]);
                assert(upload_view(r[i]) == uploads_model(m, root)[i]);
            }
        },
        ManifestData::V2025_12_04_beta { paths, .. } => {
            let ps = paths@;
            lemma_v2025_uploads_entries(ps, root);
            assert forall|k: int| 0 <= k < r.len() implies exists|j: int|
                0 <= j < ps.len() && !ps[j].deleted && ps[j].symlink_target is None
                    && entry_uploads_path(#[trigger] r[k], ps[j], root) by {
                assert(uploads_view(r)[k] == v2025_uploads(ps, root)[k]);
                let j = choose|j: int|
                    0 <= j < ps.len() && !ps[j].deleted && ps[j].symlink_target is None
                        && v2025_uploads(ps, root)[k] == upload_tuple(ps[j], root);
                assert(upload_view(r[k]) == upload_tuple(ps[j], root));
            }
            assert forall|j: int|
                0 <= j < ps.len() && !ps[j].deleted && ps[j].symlink_target is None implies exists|k: int|
                0 <= k < r.len() && entry_uploads_path(r[k], #[trigger] ps[j], root) by {
                let k = choose|k: int|
                    0 <= k < v2025_uploads(ps, root).len() && v2025_uploads(ps, root)[k] == upload_tuple(
                        ps[j],
                        root,
                    );
                assert(uploads_view(r)[k] == v2025_uploads(ps, root)[k]);
                assert(upload_view(r[k]) == upload_tuple(ps[j], root));
            }
        },
    }
}
} // verus!
