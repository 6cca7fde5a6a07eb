//! CAS (Content-Addressable Storage) utilities: chunking decisions.

use vstd::prelude::*;

verus! {

/// Information about a single chunk of a large file.
#[derive(PartialEq, Eq, Structural, Clone, Copy, Debug)]
pub struct ChunkInfo {
    /// Zero-based chunk index.
    pub index: usize,
    /// Byte offset within the file.
    pub offset: u64,
    /// Length of this chunk in bytes.
    pub length: u64,
}

/// Determine if a file needs chunking based on size.
///
/// Files larger than `chunk_size` should be split into chunks.
/// If `chunk_size` is 0, chunking is disabled.
pub fn needs_chunking(size: u64, chunk_size: u64) -> (r: bool)
    ensures
        r == (chunk_size > 0 && size > chunk_size),
{
    chunk_size > 0 && size > chunk_size
}

/// The number of chunks a file of `size` bytes splits into: one when
/// chunking is disabled or the file is empty, else `size / chunk_size`
/// rounded up.
pub open spec fn chunk_count(size: nat, chunk_size: nat) -> nat {
    if chunk_size == 0 || size == 0 {
        1
    } else {
        ((size + chunk_size - 1) / chunk_size as int) as nat
    }
}

/// The length of chunk `i`: a full chunk, or what is left of the file.
pub open spec fn chunk_length(size: nat, chunk_size: nat, i: nat) -> nat {
    if size - i * chunk_size < chunk_size {
        (size - i * chunk_size) as nat
    } else {
        chunk_size
    }
}

proof fn lemma_ceil_div(size: int, cs: int, n: int)
    by (nonlinear_arith)
    requires
        cs > 0,
        size > 0,
        n >= 1,
        (n - 1) * cs < size,
        size <= n * cs,
    ensures
        n == (size + cs - 1) / cs,
{
}

/// Generate chunk information for a large file.
///
/// Splits a file of `size` bytes into chunks of `chunk_size` bytes; the
/// last chunk may be smaller. Chunking disabled (`chunk_size` 0) or an
/// empty file gives one chunk covering the whole file.
pub fn generate_chunks(size: u64, chunk_size: u64) -> (r: Vec<ChunkInfo>)
    requires
        chunk_count(size as nat, chunk_size as nat) <= usize::MAX,
    ensures
        chunk_size == 0 || size == 0 ==> r@ == seq![ChunkInfo { index: 0, offset: 0, length: size }],
        r.len() == chunk_count(size as nat, chunk_size as nat),
        chunk_size > 0 && size > 0 ==> forall|i: int|
            0 <= i < r.len() ==> {
                &&& (#[trigger] r[i]).index == i
                &&& r[i].offset == i * chunk_size
                &&& r[i].length == chunk_length(size as nat, chunk_size as nat, i as nat)
            },
{
    if chunk_size == 0 || size == 0 {
        let mut v: Vec<ChunkInfo> = Vec::new();
        v.push(ChunkInfo { index: 0, offset: 0, length: size });
        assert(v@ =~= seq![ChunkInfo { index: 0, offset: 0, length: size }]);
        return v;
    }
    let mut chunks: Vec<ChunkInfo> = Vec::new();
    let mut offset: u64 = 0;
    let mut index: usize = 0;
    while offset < size
        invariant
            chunk_size > 0,
            size > 0,
            chunk_count(size as nat, chunk_size as nat) <= usize::MAX,
            chunks.len() == index,
            offset <= size,
            offset < size ==> offset == index * chunk_size,
            offset == size ==> index >= 1 && (index - 1) * chunk_size < size && size <= index
                * chunk_size,
            offset < size ==> index * chunk_size < size,
            forall|i: int|
                0 <= i < index ==> {
                    &&& (#[trigger] chunks[i]).index == i
                    &&& chunks[i].offset == i * chunk_size
                    &&& chunks[i].length == chunk_length(size as nat, chunk_size as nat, i as nat)
                },
        decreases size - offset,
    {
        let length: u64 = if chunk_size < size - offset {
            chunk_size
        } else {
            size - offset
        };
        proof {
            assert((index + 1) * chunk_size == index * chunk_size + chunk_size) by (nonlinear_arith);
            assert(index * chunk_size >= 0) by (nonlinear_arith)
                requires
                    index >= 0,
                    chunk_size > 0,
            ;
            lemma_ceil_bound(size as int, chunk_size as int, index as int);
        }
        chunks.push(ChunkInfo { index, offset, length });
        offset = offset + length;
        index = index + 1;
    }
    proof {
        lemma_ceil_div(size as int, chunk_size as int, index as int);
    }
    chunks
}

/// A chunk that starts inside the file has an index below the chunk count.
proof fn lemma_ceil_bound(size: int, cs: int, i: int)
    requires
        cs > 0,
        size > 0,
        i >= 0,
        i * cs < size,
    ensures
        i + 1 <= (size + cs - 1) / cs,
{
    assert(i + 1 <= (size + cs - 1) / cs) by (nonlinear_arith)
        requires
            cs > 0,
            i >= 0,
            i * cs < size,
    ;
}

/// Calculate the expected number of chunks for a file: `chunk_count`,
/// cast to `usize` (which keeps it whole wherever it fits, as it always
/// does where `usize` has 64 bits; see `lemma_chunk_count_bounds`).
pub fn expected_chunk_count(size: u64, chunk_size: u64) -> (r: usize)
    ensures
        r == chunk_count(size as nat, chunk_size as nat) as usize,
        chunk_count(size as nat, chunk_size as nat) <= usize::MAX ==> r == chunk_count(
            size as nat,
            chunk_size as nat,
        ),
{
    if chunk_size == 0 || size == 0 {
        return 1;
    }
    let n: u64 = (size - 1) / chunk_size + 1;
    assert(n == (size + chunk_size - 1) / chunk_size as int) by (nonlinear_arith)
        requires
            n == (size - 1) / chunk_size as int + 1,
            chunk_size > 0,
            size > 0,
    ;
    #[verifier::truncate]
    (n as usize)
}

/// A file splits into at least one chunk and at most as many chunks as it
/// has bytes (one, when it is empty): so the chunk count always fits a
/// `u64`, and `expected_chunk_count` equals the number of chunks that
/// `generate_chunks` returns wherever `usize` has 64 bits.
pub proof fn lemma_chunk_count_bounds(size: nat, chunk_size: nat)
    ensures
        1 <= chunk_count(size, chunk_size),
        chunk_count(size, chunk_size) <= if size == 0 {
            1
        } else {
            size
        },
{
    if chunk_size > 0 && size > 0 {
        let cs = chunk_size as int;
        let s = size as int;
        assert(1 <= (s + cs - 1) / cs <= s) by (nonlinear_arith)
            requires
                cs > 0,
                s > 0,
        ;
    }
}

/// Upload strategy based on file size.
#[derive(PartialEq, Eq, Structural, Clone, Copy, Debug)]
pub enum UploadStrategy {
    /// Upload as single S3 object (file hash is the key).
    SingleObject,
    /// Upload as multiple CAS objects (chunk hashes are the keys).
    ChunkedCas,
}

/// Determine upload strategy based on file size.
pub fn upload_strategy(size: u64, chunk_size: u64) -> (r: UploadStrategy)
    ensures
        r == (if chunk_size > 0 && size > chunk_size {
            UploadStrategy::ChunkedCas
        } else {
            UploadStrategy::SingleObject
        }),
{
    if needs_chunking(size, chunk_size) {
        UploadStrategy::ChunkedCas
    } else {
        UploadStrategy::SingleObject
    }
}

/// Download strategy based on manifest entry type.
#[derive(PartialEq, Eq, Structural, Clone, Copy, Debug)]
pub enum DownloadStrategy {
    /// Download single CAS object.
    SingleObject,
    /// Download multiple chunks and reassemble.
    ChunkedCas,
    /// Create local symlink (no download).
    Symlink,
}

/// The chunks of a file tile it: they start at 0, each begins where the
/// previous ends, none is empty or longer than the chunk size, and the
/// last ends at the file's end.
pub proof fn lemma_chunks_tile_file(size: nat, chunk_size: nat)
    requires
        size > 0,
        chunk_size > 0,
    ensures
        forall|i: int|
            0 <= i < chunk_count(size, chunk_size) ==> 0 < #[trigger] chunk_length(
                size,
                chunk_size,
                i as nat,
            ) <= chunk_size,
        forall|i: int|
            0 <= i < chunk_count(size, chunk_size) - 1 ==> #[trigger] chunk_length(
                size,
                chunk_size,
                i as nat,
            ) == chunk_size,
        (chunk_count(size, chunk_size) - 1) * chunk_size + chunk_length(
            size,
            chunk_size,
            (chunk_count(size, chunk_size) - 1) as nat,
        ) == size,
{
    let n = chunk_count(size, chunk_size) as int;
    let cs = chunk_size as int;
    let s = size as int;
    assert(n >= 1 && (n - 1) * cs < s && s <= n * cs) by (nonlinear_arith)
        requires
            n == (s + cs - 1) / cs,
            cs > 0,
            s > 0,
    ;
    assert((n - 1) * cs + cs == n * cs) by (nonlinear_arith);
    assert forall|i: int| 0 <= i < n implies 0 < #[trigger] chunk_length(size, chunk_size, i as nat)
        <= chunk_size by {
        assert(i * cs <= (n - 1) * cs) by (nonlinear_arith)
            requires
                i <= n - 1,
                cs > 0,
        ;
    }
    assert forall|i: int| 0 <= i < n - 1 implies #[trigger] chunk_length(size, chunk_size, i as nat)
        == chunk_size by {
        assert((i + 1) * cs <= (n - 1) * cs) by (nonlinear_arith)
            requires
                i + 1 <= n - 1,
                cs > 0,
        ;
        assert((i + 1) * cs == i * cs + cs) by (nonlinear_arith);
    }
}

/// A file needs chunking exactly when it splits into more than one chunk,
/// which is when the chunked upload strategy is chosen.
pub proof fn lemma_chunking_iff_several_chunks(size: nat, chunk_size: nat)
    ensures
        (chunk_size > 0 && size > chunk_size) <==> chunk_count(size, chunk_size) > 1,
{
    if chunk_size > 0 && size > 0 {
        let cs = chunk_size as int;
        let s = size as int;
        assert((s > cs) <==> ((s + cs - 1) / cs > 1)) by (nonlinear_arith)
            requires
                cs > 0,
                s > 0,
        ;
    }
}

} // verus!
