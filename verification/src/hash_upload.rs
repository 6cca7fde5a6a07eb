//! Hash+upload pipeline pieces: options, deduplication of in-flight
//! uploads, memory pool sizing and progress counters.

use vstd::prelude::*;

use crate::manifest_data::{copy_entry, entry_view, ManifestData, ManifestFilePath, ManifestPathV2023};
use crate::manifest_storage::entries_text;
use crate::storage_error::StorageError;
use crate::storage_types::TransferStatistics;
use crate::text::{append_str, chars_of, own, str_eq, string_of, strs};

verus! {

// ---------------------------------------------------------------------------
// Options
// ---------------------------------------------------------------------------

/// Configuration options for the hash+upload pipeline.
pub struct HashUploadOptions {
    /// Maximum memory for in-flight data.
    pub max_memory_bytes: u64,
    /// Maximum concurrent operations.
    pub max_concurrency: usize,
    /// Chunk size for large files.
    pub chunk_size: u64,
    /// Whether to use the hash cache.
    pub use_hash_cache: bool,
    /// Whether to use the S3 check cache.
    pub use_s3_check_cache: bool,
    /// Whether to recompute hashes even when cached.
    pub force_rehash: bool,
}

impl Default for HashUploadOptions {
    fn default() -> (r: Self)
        ensures
            r.max_memory_bytes == 5368709120,
            r.max_concurrency == 32,
            r.chunk_size == 268435456,
            r.use_hash_cache,
            r.use_s3_check_cache,
            !r.force_rehash,
    {
        HashUploadOptions {
            max_memory_bytes: 5368709120,
            max_concurrency: 32,
            chunk_size: 268435456,
            use_hash_cache: true,
            use_s3_check_cache: true,
            force_rehash: false,
        }
    }
}

impl HashUploadOptions {
    /// The default options.
    pub fn new() -> (r: Self)
        ensures
            r.max_memory_bytes == 5368709120,
            r.max_concurrency == 32,
            r.chunk_size == 268435456,
            r.use_hash_cache,
            r.use_s3_check_cache,
            !r.force_rehash,
    {
        HashUploadOptions::default()
    }

    /// The options with the given memory limit.
    pub fn with_max_memory(self, bytes: u64) -> (r: Self)
        ensures
            r == (HashUploadOptions { max_memory_bytes: bytes, ..self }),
    {
        let mut s = self;
        s.max_memory_bytes = bytes;
        s
    }

    /// The options with the given concurrency.
    pub fn with_max_concurrency(self, concurrency: usize) -> (r: Self)
        ensures
            r == (HashUploadOptions { max_concurrency: concurrency, ..self }),
    {
        let mut s = self;
        s.max_concurrency = concurrency;
        s
    }

    /// The options with the given chunk size.
    pub fn with_chunk_size(self, size: u64) -> (r: Self)
        ensures
            r == (HashUploadOptions { chunk_size: size, ..self }),
    {
        let mut s = self;
        s.chunk_size = size;
        s
    }

    /// The options with the hash cache enabled or not.
    pub fn with_hash_cache(self, enabled: bool) -> (r: Self)
        ensures
            r == (HashUploadOptions { use_hash_cache: enabled, ..self }),
    {
        let mut s = self;
        s.use_hash_cache = enabled;
        s
    }

    /// The options with the S3 check cache enabled or not.
    pub fn with_s3_check_cache(self, enabled: bool) -> (r: Self)
        ensures
            r == (HashUploadOptions { use_s3_check_cache: enabled, ..self }),
    {
        let mut s = self;
        s.use_s3_check_cache = enabled;
        s
    }

    /// The options with forced rehashing or not.
    pub fn with_force_rehash(self, force: bool) -> (r: Self)
        ensures
            r == (HashUploadOptions { force_rehash: force, ..self }),
    {
        let mut s = self;
        s.force_rehash = force;
        s
    }
}

/// The memory budget for given total and available memory (in kB): a
/// quarter of the total, at least 256MB, or the available memory less 1GB
/// when that is more, and at most 16GB.
pub open spec fn memory_budget_spec(total_kb: u64, available_kb: u64) -> int {
    let quarter = total_kb * 1024 / 4;
    let available = if available_kb > 1048576 {
        (available_kb - 1048576) * 1024
    } else {
        0
    };
    let low = if quarter > 268435456 {
        quarter
    } else {
        268435456
    };
    let high = if available > low {
        available
    } else {
        low
    };
    if high < 17179869184 {
        high
    } else {
        17179869184
    }
}

/// The memory budget chosen from the system's memory (see
/// `memory_budget_spec`).
pub fn memory_budget(total_kb: u64, available_kb: u64) -> (r: u64)
    requires
        total_kb * 1024 <= u64::MAX,
        available_kb * 1024 <= u64::MAX,
    ensures
        r == memory_budget_spec(total_kb, available_kb),
        268435456 <= r <= 17179869184,
{
    let quarter_total: u64 = total_kb * 1024 / 4;
    let available_minus_1gb: u64 = available_kb.saturating_sub(1048576) * 1024;
    let min_bytes: u64 = 268435456;
    let max_bytes: u64 = 17179869184;
    let low: u64 = if quarter_total > min_bytes {
        quarter_total
    } else {
        min_bytes
    };
    let high: u64 = if available_minus_1gb > low {
        available_minus_1gb
    } else {
        low
    };
    if high < max_bytes {
        high
    } else {
        max_bytes
    }
}

/// The memory budget when the system's memory cannot be read: 1GB.
pub const DEFAULT_MEMORY_BUDGET: u64 = 1073741824;

/// A Unicode white-space character (what `char::is_whitespace` accepts).
pub open spec fn is_unicode_space(c: char) -> bool {
    let u = c as u32;
    (9 <= u <= 13) || u == 32 || u == 0x85 || u == 0xA0 || u == 0x1680 || (0x2000 <= u <= 0x200A)
        || u == 0x2028 || u == 0x2029 || u == 0x202F || u == 0x205F || u == 0x3000
}

fn is_space(c: char) -> (r: bool)
    ensures
        r == is_unicode_space(c),
{
    let u = c as u32;
    (9 <= u && u <= 13) || u == 32 || u == 0x85 || u == 0xA0 || u == 0x1680 || (0x2000 <= u && u
        <= 0x200A) || u == 0x2028 || u == 0x2029 || u == 0x202F || u == 0x205F || u == 0x3000
}

/// The white-space separated words of a line, in order.
pub open spec fn words(s: Seq<char>) -> Seq<Seq<char>>
    decreases s.len(),
{
    if s.len() == 0 {
        Seq::empty()
    } else {
        let w = words(s.drop_last());
        if is_unicode_space(s.last()) {
            w
        } else if s.len() >= 2 && !is_unicode_space(s[s.len() - 2]) && w.len() > 0 {
            w.update(w.len() - 1, w.last().push(s.last()))
        } else {
            w.push(seq![s.last()])
        }
    }
}

/// The value of decimal digits.
pub open spec fn digits_value(d: Seq<char>) -> int
    decreases d.len(),
{
    if d.len() == 0 {
        0
    } else {
        digits_value(d.drop_last()) * 10 + (d.last() as int - 48)
    }
}

pub open spec fn all_digits(d: Seq<char>) -> bool {
    forall|i: int| 0 <= i < d.len() ==> '0' <= #[trigger] d[i] <= '9'
}

/// What `str::parse::<u64>` gives: an optional `+`, then at least one
/// decimal digit, with a value that fits.
pub open spec fn parse_u64_spec(w: Seq<char>) -> Option<u64> {
    let d = if w.len() > 0 && w[0] == '+' {
        w.drop_first()
    } else {
        w
    };
    if d.len() > 0 && all_digits(d) && digits_value(d) <= u64::MAX {
        Some(digits_value(d) as u64)
    } else {
        None
    }
}

/// The value of the second word of a `/proc/meminfo` line, or 0 when it is
/// missing or not a number.
pub open spec fn meminfo_value_spec(line: Seq<char>) -> u64 {
    let w = words(line);
    if w.len() >= 2 {
        match parse_u64_spec(w[1]) {
            Some(v) => v,
            None => 0,
        }
    } else {
        0
    }
}

/// Parses decimal text as `str::parse::<u64>` does.
fn parse_u64(w: &Vec<char>) -> (r: Option<u64>)
    ensures
        r == parse_u64_spec(w@),
{
    let mut start: usize = 0;
    if w.len() > 0 && w[0] == '+' {
        start = 1;
    }
    let ghost d = if w@.len() > 0 && w@[0] == '+' {
        w@.drop_first()
    } else {
        w@
    };
    assert(d =~= w@.skip(start as int));
    if start >= w.len() {
        return None;
    }
    let mut v: u64 = 0;
    let mut i: usize = start;
    assert(w@.subrange(start as int, start as int) =~= Seq::<char>::empty());
    while i < w.len()
        invariant
            start <= i <= w.len(),
            d == w@.skip(start as int),
            d == (if w@.len() > 0 && w@[0] == '+' {
                w@.drop_first()
            } else {
                w@
            }),
            d.len() > 0,
            all_digits(w@.subrange(start as int, i as int)),
            v == digits_value(w@.subrange(start as int, i as int)),
        decreases w.len() - i,
    {
        let c = w[i];
        let ghost pre = w@.subrange(start as int, i as int);
        let ghost nxt = w@.subrange(start as int, i + 1);
        assert(nxt.drop_last() =~= pre);
        assert(nxt.last() == c);
        proof {
            assert(d.subrange(0, (i - start) as int) =~= pre);
            assert(d.subrange(0, (i - start) as int + 1) =~= nxt);
            assert(d[i - start] == c);
        }
        if !('0' <= c && c <= '9') {
            assert(!all_digits(d));
            return None;
        }
        let digit: u64 = (c as u32 - 48) as u64;
        if v > (u64::MAX - digit) / 10 {
            proof {
                assert(v * 10 + digit > u64::MAX) by (nonlinear_arith)
                    requires
                        v > (u64::MAX - digit) / 10,
                        digit <= 9,
                ;
                assert(all_digits(nxt));
                lemma_digits_prefix_bound(d, (i - start) as int);
            }
            return None;
        }
        v = v * 10 + digit;
        i = i + 1;
    }
    assert(w@.subrange(start as int, i as int) =~= d);
    Some(v)
}

/// A prefix of digits is worth at most the whole.
pub proof fn lemma_digits_prefix_bound(d: Seq<char>, n: int)
    requires
        0 <= n < d.len(),
        all_digits(d.subrange(0, n + 1)),
        digits_value(d.subrange(0, n)) * 10 + (d[n] as int - 48) > u64::MAX,
    ensures
        !(all_digits(d) && digits_value(d) <= u64::MAX),
    decreases d.len() - n,
{
    if all_digits(d) {
        lemma_digits_grow(d, n + 1);
        assert(d.subrange(0, n + 1).drop_last() =~= d.subrange(0, n));
    }
}

pub proof fn lemma_digits_grow(d: Seq<char>, n: int)
    requires
        0 <= n <= d.len(),
        all_digits(d),
    ensures
        digits_value(d.subrange(0, n)) <= digits_value(d),
    decreases d.len() - n,
{
    if n < d.len() {
        lemma_digits_grow(d, n + 1);
        assert(d.subrange(0, n + 1).drop_last() =~= d.subrange(0, n));
        assert('0' <= d[n] <= '9');
        assert(digits_value(d.subrange(0, n)) >= 0) by {
            lemma_digits_nonneg(d.subrange(0, n));
        }
    } else {
        assert(d.subrange(0, n) =~= d);
    }
}

pub proof fn lemma_digits_nonneg(d: Seq<char>)
    requires
        all_digits(d),
    ensures
        digits_value(d) >= 0,
    decreases d.len(),
{
    if d.len() > 0 {
        lemma_digits_nonneg(d.drop_last());
        assert('0' <= d[d.len() - 1] <= '9');
    }
}

/// The numeric value of a `/proc/meminfo` line such as
/// `MemTotal:  16384 kB`: its second word as a number, or 0.
pub fn parse_meminfo_value(line: &str) -> (r: u64)
    ensures
        r == meminfo_value_spec(line@),
{
    let s = chars_of(line);
    let mut ws: Vec<Vec<char>> = Vec::new();
    let mut i: usize = 0;
    assert(line@.subrange(0, 0) =~= Seq::<char>::empty());
    while i < s.len()
        invariant
            i <= s.len(),
            s@ == line@,
            words_view(ws@) == words(line@.subrange(0, i as int)),
        decreases s.len() - i,
    {
        let c = s[i];
        let ghost pre = line@.subrange(0, i as int);
        let ghost nxt = line@.subrange(0, i + 1);
        proof {
            assert(nxt.drop_last() =~= pre);
            assert(nxt.last() == c);
            if i >= 1 {
                assert(nxt[nxt.len() - 2] == s@[i - 1]);
            }
        }
        if !is_space(c) {
            if i >= 1 && !is_space(s[i - 1]) && ws.len() > 0 {
                let last = ws.len() - 1;
                let ghost before = ws@;
                let mut w = ws.pop().unwrap();
                w.push(c);
                ws.push(w);
                assert(words_view(ws@) =~= words_view(before).update(
                    last as int,
                    words_view(before).last().push(c),
                ));
            } else {
                let mut w: Vec<char> = Vec::new();
                w.push(c);
                let ghost before = ws@;
                ws.push(w);
                assert(words_view(ws@) =~= words_view(before).push(seq![c]));
            }
        }
        i = i + 1;
    }
    assert(line@.subrange(0, i as int) =~= line@);
    if ws.len() >= 2 {
        match parse_u64(&ws[1]) {
            Some(v) => v,
            None => 0,
        }
    } else {
        0
    }
}

pub open spec fn words_view(v: Seq<Vec<char>>) -> Seq<Seq<char>> {
    Seq::new(v.len(), |i: int| v[i]@)
}

// ---------------------------------------------------------------------------
// Deduplication of in-flight uploads
// ---------------------------------------------------------------------------

/// Result of a deduplicated upload operation.
#[derive(PartialEq, Eq, Structural, Clone, Copy, Debug)]
pub enum UploadResult {
    /// Upload completed successfully.
    Success,
    /// Upload failed.
    Failed,
}

/// What a caller registering an upload should do.
#[derive(PartialEq, Eq, Structural, Clone, Copy, Debug)]
pub enum UploadIntent {
    /// Proceed with upload (first uploader).
    Proceed,
    /// Wait for the upload in progress to complete.
    Wait,
}

/// Tracks in-flight uploads so that each hash is uploaded once at a time:
/// the first to register a hash uploads it, later ones wait until it
/// completes or fails.
pub struct UploadDeduplicator {
    in_flight: Vec<String>,
}

impl UploadDeduplicator {
    #[verifier::type_invariant]
    spec fn distinct(&self) -> bool {
        strs(self.in_flight@).no_duplicates()
    }

    /// The hashes with an upload in flight.
    pub closed spec fn view(&self) -> Set<Seq<char>> {
        strs(self.in_flight@).to_set()
    }

    /// Create a new deduplicator with nothing in flight.
    pub fn new() -> (r: Self)
        ensures
            r.view() == Set::<Seq<char>>::empty(),
    {
        let r = UploadDeduplicator { in_flight: Vec::new() };
        assert(strs(r.in_flight@) =~= Seq::<Seq<char>>::empty());
        assert(r.view() =~= Set::<Seq<char>>::empty());
        r
    }

    /// Register intent to upload a hash: `Proceed` (and the hash is now in
    /// flight) when no upload of it is in flight, `Wait` otherwise.
    pub fn register(&mut self, hash: &str) -> (r: UploadIntent)
        ensures
            r == (if old(self).view().contains(hash@) {
                UploadIntent::Wait
            } else {
                UploadIntent::Proceed
            }),
            final(self).view() == old(self).view().insert(hash@),
    {
        proof {
            use_type_invariant(&*self);
        }
        let ghost before = strs(self.in_flight@);
        if crate::text::contains_text(&self.in_flight, hash) {
            assert(before.to_set().insert(hash@) =~= before.to_set()) by {
                assert(before.contains(hash@));
            }
            UploadIntent::Wait
        } else {
            let h = own(hash);
            proof {
                crate::text::lemma_strs_push(self.in_flight@, h);
                assert(before.push(hash@).no_duplicates()) by {
                    assert forall|i: int, j: int|
                        0 <= i < before.len() + 1 && 0 <= j < before.len() + 1 && i != j implies before.push(
                        hash@,
                    )[i] != before.push(hash@)[j] by {
                        if i == before.len() {
                            assert(before.push(hash@)[j] == before[j]);
                        } else if j == before.len() {
                            assert(before.push(hash@)[i] == before[i]);
                        }
                    }
                }
            }
            let mut v: Vec<String> = Vec::new();
            std::mem::swap(&mut v, &mut self.in_flight);
            v.push(h);
            self.in_flight = v;
            proof {
                assert(before.push(hash@).to_set() =~= before.to_set().insert(hash@)) by {
                    assert forall|x: Seq<char>| before.push(hash@).to_set().contains(x) <==> before.to_set().insert(hash@).contains(x) by {
                        if before.push(hash@).contains(x) {
                            let i = choose|i: int| 0 <= i < before.len() + 1 && before.push(hash@)[i] == x;
                            if i < before.len() {
                                assert(before[i] == x);
                            }
                        }
                        if before.contains(x) {
                            let i = choose|i: int| 0 <= i < before.len() && before[i] == x;
                            assert(before.push(hash@)[i] == x);
                        }
                        if x == hash@ {
                            assert(before.push(hash@)[before.len() as int] == x);
                        }
                    }
                }
            }
            UploadIntent::Proceed
        }
    }

    /// Removes a hash; returns whether it was in flight.
    fn take(&mut self, hash: &str) -> (r: bool)
        ensures
            r == old(self).view().contains(hash@),
            final(self).view() == old(self).view().remove(hash@),
    {
        proof {
            use_type_invariant(&*self);
        }
        let ghost before = strs(self.in_flight@);
        let mut i: usize = 0;
        while i < self.in_flight.len()
            invariant
                i <= self.in_flight.len(),
                before == strs(self.in_flight@),
                before.to_set() == old(self).view(),
                before.no_duplicates(),
                forall|j: int| 0 <= j < i ==> before[j] != hash@,
            decreases self.in_flight.len() - i,
        {
            if str_eq(self.in_flight[i].as_str(), hash) {
                let ghost idx = i as int;
                let mut v: Vec<String> = Vec::new();
                std::mem::swap(&mut v, &mut self.in_flight);
                v.remove(i);
                proof {
                    assert(strs(v@) =~= before.remove(idx));
                    assert(strs(v@).no_duplicates()) by {
                        let after = strs(v@);
                        assert forall|a: int, b: int| 0 <= a < after.len() && 0 <= b < after.len() && a != b implies after[a] != after[b] by {
                            let a2 = if a < idx { a } else { a + 1 };
                            let b2 = if b < idx { b } else { b + 1 };
                            assert(after[a] == before[a2] && after[b] == before[b2]);
                        }
                    }
                }
                self.in_flight = v;
                proof {
                    let after = strs(self.in_flight@);
                    assert(after =~= before.remove(idx));
                    assert(before[idx] == hash@);
                    assert forall|x: Seq<char>| after.to_set().contains(x) <==> before.to_set().remove(hash@).contains(x) by {
                        if after.contains(x) {
                            let k = choose|k: int| 0 <= k < after.len() && after[k] == x;
                            if k < idx {
                                assert(before[k] == x);
                                assert(k != idx);
                            } else {
                                assert(before[k + 1] == x);
                                assert(k + 1 != idx);
                            }
                        }
                        if before.contains(x) && x != hash@ {
                            let k = choose|k: int| 0 <= k < before.len() && before[k] == x;
                            assert(k != idx);
                            if k < idx {
                                assert(after[k] == x);
                            } else {
                                assert(after[k - 1] == x);
                            }
                        }
                    }
                    assert(after.to_set() =~= before.to_set().remove(hash@));
                    assert(before.contains(hash@));
                    assert(after.no_duplicates()) by {
                        assert forall|a: int, b: int| 0 <= a < after.len() && 0 <= b < after.len() && a != b implies after[a] != after[b] by {
                            let a2 = if a < idx { a } else { a + 1 };
                            let b2 = if b < idx { b } else { b + 1 };
                            assert(after[a] == before[a2] && after[b] == before[b2]);
                        }
                    }
                }
                return true;
            }
            i = i + 1;
        }
        proof {
            assert(!before.contains(hash@));
            assert(before.to_set().remove(hash@) =~= before.to_set());
        }
        false
    }

    /// Mark an upload as complete: the hash is no longer in flight; waiters
    /// are to be told `Success` when it was.
    pub fn complete(&mut self, hash: &str) -> (r: Option<UploadResult>)
        ensures
            r == (if old(self).view().contains(hash@) {
                Some(UploadResult::Success)
            } else {
                None
            }),
            final(self).view() == old(self).view().remove(hash@),
    {
        if self.take(hash) {
            Some(UploadResult::Success)
        } else {
            None
        }
    }

    /// Mark an upload as failed: the hash is no longer in flight, so another
    /// uploader can try; waiters are to be told `Failed` when it was.
    pub fn failed(&mut self, hash: &str) -> (r: Option<UploadResult>)
        ensures
            r == (if old(self).view().contains(hash@) {
                Some(UploadResult::Failed)
            } else {
                None
            }),
            final(self).view() == old(self).view().remove(hash@),
    {
        if self.take(hash) {
            Some(UploadResult::Failed)
        } else {
            None
        }
    }

    /// The number of in-flight uploads.
    pub fn in_flight_count(&self) -> (r: usize)
        ensures
            r == self.view().len(),
    {
        proof {
            use_type_invariant(self);
            strs(self.in_flight@).unique_seq_to_set();
        }
        self.in_flight.len()
    }
}

impl Default for UploadDeduplicator {
    fn default() -> (r: Self)
        ensures
            r.view() == Set::<Seq<char>>::empty(),
    {
        UploadDeduplicator::new()
    }
}

/// The deduplication protocol: a hash registered twice makes the second
/// caller wait; once it completes or fails, the next registration proceeds;
/// hashes do not affect one another.
pub proof fn lemma_dedup_protocol(s: Set<Seq<char>>, h: Seq<char>, g: Seq<char>)
    requires
        h != g,
    ensures
        s.insert(h).contains(h),
        !s.insert(h).remove(h).contains(h),
        s.insert(h).contains(g) == s.contains(g),
        s.insert(h).remove(h).contains(g) == s.contains(g),
{
}

// ---------------------------------------------------------------------------
// Memory pool sizing
// ---------------------------------------------------------------------------

/// The number of permits of a memory pool: `max_bytes / permit_size`, and
/// at least one.
pub fn pool_permits(max_bytes: u64, permit_size: u64) -> (r: usize)
    requires
        permit_size > 0,
        max_bytes / permit_size <= usize::MAX,
    ensures
        r as int == (if max_bytes / permit_size > 1 {
            max_bytes / permit_size
        } else {
            1
        }),
{
    let n: u64 = max_bytes / permit_size;
    if n > 1 {
        n as usize
    } else {
        1
    }
}

/// The number of permits an allocation of `size` bytes needs: `size` over
/// the permit size rounded up, at least one, as a `u32` (truncated as a
/// cast truncates).
pub fn permits_needed(size: u64, permit_size: u64) -> (r: u32)
    requires
        permit_size > 0,
    ensures
        r == (if size == 0 {
            1u64
        } else {
            ((size - 1) / permit_size as int + 1) as u64
        }) as u32,
{
    let n: u64 = if size == 0 {
        1
    } else {
        (size - 1) / permit_size + 1
    };
    n as u32
}

// ---------------------------------------------------------------------------
// Progress counters
// ---------------------------------------------------------------------------

/// `std::time::Instant`.
#[verifier::external_type_specification]
#[verifier::external_body]
pub struct ExInstant(std::time::Instant);

/// `std::time::Instant::now`: the current time; nothing is stated of it.
#[verifier::external_body]
fn instant_now() -> std::time::Instant {
    std::time::Instant::now()
}

/// Progress counters for hash+upload operations. Counters wrap on overflow
/// as atomic additions do.
pub struct ProgressTracker {
    /// When tracking started.
    pub start_time: std::time::Instant,
    /// Total files to process.
    pub total_files: u64,
    /// Total bytes to process.
    pub total_bytes: u64,
    /// Files hashed (computed, not from cache).
    pub hashed_files: u64,
    /// Bytes hashed (computed, not from cache).
    pub hashed_bytes: u64,
    /// Files with hash from cache.
    pub hash_skipped_files: u64,
    /// Bytes with hash from cache.
    pub hash_skipped_bytes: u64,
    /// Files uploaded (transferred, not skipped).
    pub uploaded_files: u64,
    /// Bytes uploaded (transferred, not skipped).
    pub uploaded_bytes: u64,
    /// Files skipped (already existed).
    pub upload_skipped_files: u64,
    /// Bytes skipped (already existed).
    pub upload_skipped_bytes: u64,
}

impl ProgressTracker {
    /// Create a new progress tracker with all counters at zero.
    pub fn new(total_files: u64, total_bytes: u64) -> (r: Self)
        ensures
            r.total_files == total_files,
            r.total_bytes == total_bytes,
            r.hashed_files == 0 && r.hashed_bytes == 0,
            r.hash_skipped_files == 0 && r.hash_skipped_bytes == 0,
            r.uploaded_files == 0 && r.uploaded_bytes == 0,
            r.upload_skipped_files == 0 && r.upload_skipped_bytes == 0,
    {
        ProgressTracker {
            start_time: instant_now(),
            total_files,
            total_bytes,
            hashed_files: 0,
            hashed_bytes: 0,
            hash_skipped_files: 0,
            hash_skipped_bytes: 0,
            uploaded_files: 0,
            uploaded_bytes: 0,
            upload_skipped_files: 0,
            upload_skipped_bytes: 0,
        }
    }

    /// Record hash completion for a file: one more file and `bytes` more
    /// bytes, counted as from cache or as computed.
    pub fn record_hash_complete(&mut self, bytes: u64, from_cache: bool)
        ensures
            final(self).total_files == old(self).total_files,
            final(self).total_bytes == old(self).total_bytes,
            from_cache ==> final(self).hash_skipped_files == old(self).hash_skipped_files.wrapping_add(1) && final(self).hash_skipped_bytes == old(self).hash_skipped_bytes.wrapping_add(bytes) && final(self).hashed_files == old(self).hashed_files && final(self).hashed_bytes == old(self).hashed_bytes,
            !from_cache ==> final(self).hashed_files == old(self).hashed_files.wrapping_add(1)
                && final(self).hashed_bytes == old(self).hashed_bytes.wrapping_add(bytes) && final(self).hash_skipped_files == old(self).hash_skipped_files && final(self).hash_skipped_bytes
                == old(self).hash_skipped_bytes,
            final(self).uploaded_files == old(self).uploaded_files,
            final(self).uploaded_bytes == old(self).uploaded_bytes,
            final(self).upload_skipped_files == old(self).upload_skipped_files,
            final(self).upload_skipped_bytes == old(self).upload_skipped_bytes,
    {
        if from_cache {
            self.hash_skipped_files = self.hash_skipped_files.wrapping_add(1);
            self.hash_skipped_bytes = self.hash_skipped_bytes.wrapping_add(bytes);
        } else {
            self.hashed_files = self.hashed_files.wrapping_add(1);
            self.hashed_bytes = self.hashed_bytes.wrapping_add(bytes);
        }
    }

    /// Record upload completion for a file: one more file and `bytes` more
    /// bytes, counted as skipped or as uploaded.
    pub fn record_upload_complete(&mut self, bytes: u64, skipped: bool)
        ensures
            final(self).total_files == old(self).total_files,
            final(self).total_bytes == old(self).total_bytes,
            skipped ==> final(self).upload_skipped_files == old(self).upload_skipped_files.wrapping_add(1) && final(self).upload_skipped_bytes == old(self).upload_skipped_bytes.wrapping_add(bytes) && final(self).uploaded_files == old(self).uploaded_files && final(self).uploaded_bytes == old(self).uploaded_bytes,
            !skipped ==> final(self).uploaded_files == old(self).uploaded_files.wrapping_add(1)
                && final(self).uploaded_bytes == old(self).uploaded_bytes.wrapping_add(bytes)
                && final(self).upload_skipped_files == old(self).upload_skipped_files && final(self).upload_skipped_bytes == old(self).upload_skipped_bytes,
            final(self).hashed_files == old(self).hashed_files,
            final(self).hashed_bytes == old(self).hashed_bytes,
            final(self).hash_skipped_files == old(self).hash_skipped_files,
            final(self).hash_skipped_bytes == old(self).hash_skipped_bytes,
    {
        if skipped {
            self.upload_skipped_files = self.upload_skipped_files.wrapping_add(1);
            self.upload_skipped_bytes = self.upload_skipped_bytes.wrapping_add(bytes);
        } else {
            self.uploaded_files = self.uploaded_files.wrapping_add(1);
            self.uploaded_bytes = self.uploaded_bytes.wrapping_add(bytes);
        }
    }

    /// Total files hashed (computed plus from cache).
    pub fn files_hashed(&self) -> (r: u64)
        requires
            self.hashed_files + self.hash_skipped_files <= u64::MAX,
        ensures
            r == self.hashed_files + self.hash_skipped_files,
    {
        self.hashed_files + self.hash_skipped_files
    }

    /// Total files uploaded (uploaded plus skipped).
    pub fn files_uploaded(&self) -> (r: u64)
        requires
            self.uploaded_files + self.upload_skipped_files <= u64::MAX,
        ensures
            r == self.uploaded_files + self.upload_skipped_files,
    {
        self.uploaded_files + self.upload_skipped_files
    }

    /// Bytes processed by uploads (uploaded plus skipped), wrapping as the
    /// counters do.
    pub fn processed_upload_bytes(&self) -> (r: u64)
        ensures
            r == self.uploaded_bytes.wrapping_add(self.upload_skipped_bytes),
    {
        self.uploaded_bytes.wrapping_add(self.upload_skipped_bytes)
    }
}

impl ProgressTracker {
    /// The transfer statistics of a finished hash+upload: the files
    /// processed are those hashed or taken from the cache; the transferred
    /// and skipped files and bytes are the upload counters; no errors.
    pub fn upload_statistics(&self) -> (r: TransferStatistics)
        requires
            self.hashed_files + self.hash_skipped_files <= u64::MAX,
        ensures
            r.files_processed == self.hashed_files + self.hash_skipped_files,
            r.files_transferred == self.uploaded_files,
            r.files_skipped == self.upload_skipped_files,
            r.bytes_transferred == self.uploaded_bytes,
            r.bytes_skipped == self.upload_skipped_bytes,
            r.errors@.len() == 0,
    {
        TransferStatistics {
            files_processed: self.hashed_files + self.hash_skipped_files,
            files_transferred: self.uploaded_files,
            files_skipped: self.upload_skipped_files,
            bytes_transferred: self.uploaded_bytes,
            bytes_skipped: self.upload_skipped_bytes,
            errors: Vec::new(),
        }
    }
}

// ---------------------------------------------------------------------------
// Work items
// ---------------------------------------------------------------------------

/// A file to hash and upload.
pub struct WorkItem {
    /// Full path of the file.
    pub path: String,
    /// Size in bytes.
    pub size: u64,
    /// Modification time in microseconds.
    pub mtime: i64,
}

pub open spec fn work_view(w: WorkItem) -> (Seq<char>, u64, i64) {
    (w.path@, w.size, w.mtime)
}

pub open spec fn works_view(v: Seq<WorkItem>) -> Seq<(Seq<char>, u64, i64)> {
    Seq::new(v.len(), |i: int| work_view(v[i]))
}

/// The work items of v2025 paths: each path that is neither a symlink nor
/// a deletion marker, under the source root (missing size and mtime count
/// as 0).
pub open spec fn v2025_work(ps: Seq<ManifestFilePath>, root: Seq<char>) -> Seq<
    (Seq<char>, u64, i64),
>
    decreases ps.len(),
{
    if ps.len() == 0 {
        Seq::empty()
    } else {
        let t = v2025_work(ps.drop_last(), root);
        let p = ps.last();
        if p.symlink_target is Some || p.deleted {
            t
        } else {
            t.push(
                (
                    root + "/"@ + p.path@,
                    match p.size {
                        Some(s) => s,
                        None => 0,
                    },
                    match p.mtime {
                        Some(m) => m,
                        None => 0,
                    },
                ),
            )
        }
    }
}

/// The work items of a manifest.
pub open spec fn work_model(m: ManifestData, root: Seq<char>) -> Seq<(Seq<char>, u64, i64)> {
    match m {
        ManifestData::V2023_03_03 { paths } => Seq::new(
            paths@.len(),
            |i: int| (root + "/"@ + paths@[i].path@, paths@[i].size, paths@[i].mtime),
        ),
        ManifestData::V2025_12_04_beta { paths, .. } => v2025_work(paths@, root),
    }
}

/// The total size of work items.
pub open spec fn work_bytes(w: Seq<(Seq<char>, u64, i64)>) -> nat
    decreases w.len(),
{
    if w.len() == 0 {
        0
    } else {
        work_bytes(w.drop_last()) + w.last().1 as nat
    }
}

fn full_path(root: &str, path: &str) -> (r: String)
    ensures
        r@ == root@ + "/"@ + path@,
{
    let mut out: Vec<char> = Vec::new();
    append_str(&mut out, root);
    append_str(&mut out, "/");
    append_str(&mut out, path);
    string_of(&out)
}

proof fn lemma_work_bytes_push(w: Seq<(Seq<char>, u64, i64)>, x: (Seq<char>, u64, i64))
    ensures
        work_bytes(w.push(x)) == work_bytes(w) + x.1,
{
    assert(w.push(x).drop_last() =~= w);
}

/// The files of a manifest to hash and upload, under the source root, with
/// their total size (see `work_model`).
pub fn collect_work_items(manifest: &ManifestData, source_root: &str) -> (r: Result<
    (Vec<WorkItem>, u64),
    StorageError,
>)
    requires
        work_bytes(work_model(*manifest, source_root@)) <= u64::MAX,
    ensures
        r matches Ok((items, total)) && works_view(items@) == work_model(*manifest, source_root@)
            && total == work_bytes(work_model(*manifest, source_root@)),
{
    let ghost model = work_model(*manifest, source_root@);
    let mut items: Vec<WorkItem> = Vec::new();
    let mut total_bytes: u64 = 0;
    match manifest {
        ManifestData::V2023_03_03 { paths } => {
            let mut i: usize = 0;
            assert(works_view(items@) =~= model.subrange(0, 0));
            while i < paths.len()
                invariant
                    i <= paths.len(),
                    model == work_model(*manifest, source_root@),
                    *manifest == (ManifestData::V2023_03_03 { paths: *paths }),
                    model.len() == paths.len(),
                    work_bytes(model) <= u64::MAX,
                    works_view(items@) == model.subrange(0, i as int),
                    total_bytes == work_bytes(model.subrange(0, i as int)),
                decreases paths.len() - i,
            {
                let p = &paths[i];
                let w = WorkItem {
                    path: full_path(source_root, p.path.as_str()),
                    size: p.size,
                    mtime: p.mtime,
                };
                proof {
                    assert(model.subrange(0, i + 1) =~= model.subrange(0, i as int).push(model[i as int]));
                    lemma_work_bytes_push(model.subrange(0, i as int), model[i as int]);
                    lemma_work_bytes_prefix(model, i + 1);
                }
                let ghost before = items@;
                items.push(w);
                assert(works_view(items@) =~= works_view(before).push(work_view(w)));
                total_bytes = total_bytes + p.size;
                i = i + 1;
            }
            assert(model.subrange(0, i as int) =~= model);
        },
        ManifestData::V2025_12_04_beta { paths, .. } => {
            let mut i: usize = 0;
            assert(paths@.subrange(0, 0) =~= Seq::<ManifestFilePath>::empty());
            assert(works_view(items@) =~= Seq::empty());
            while i < paths.len()
                invariant
                    i <= paths.len(),
                    model == v2025_work(paths@, source_root@),
                    work_bytes(model) <= u64::MAX,
                    works_view(items@) == v2025_work(paths@.subrange(0, i as int), source_root@),
                    total_bytes == work_bytes(v2025_work(paths@.subrange(0, i as int), source_root@)),
                decreases paths.len() - i,
            {
                let p = &paths[i];
                proof {
                    let s = paths@.subrange(0, i + 1);
                    assert(s.drop_last() =~= paths@.subrange(0, i as int));
                    assert(s.last() == paths@[i as int]);
                    lemma_v2025_work_bytes_prefix(paths@, i + 1, source_root@);
                }
                if !(p.symlink_target.is_some() || p.deleted) {
                    let size: u64 = match p.size {
                        Some(s) => s,
                        None => 0,
                    };
                    let w = WorkItem {
                        path: full_path(source_root, p.path.as_str()),
                        size,
                        mtime: match p.mtime {
                            Some(m) => m,
                            None => 0,
                        },
                    };
                    proof {
                        lemma_work_bytes_push(
                            v2025_work(paths@.subrange(0, i as int), source_root@),
                            work_view(w),
                        );
                    }
                    let ghost before = items@;
                    items.push(w);
                    assert(works_view(items@) =~= works_view(before).push(work_view(w)));
                    total_bytes = total_bytes + size;
                }
                i = i + 1;
            }
            assert(paths@.subrange(0, i as int) =~= paths@);
        },
    }
    Ok((items, total_bytes))
}

proof fn lemma_work_bytes_prefix(w: Seq<(Seq<char>, u64, i64)>, n: int)
    requires
        0 <= n <= w.len(),
    ensures
        work_bytes(w.subrange(0, n)) <= work_bytes(w),
    decreases w.len() - n,
{
    if n < w.len() {
        lemma_work_bytes_prefix(w, n + 1);
        assert(w.subrange(0, n + 1).drop_last() =~= w.subrange(0, n));
    } else {
        assert(w.subrange(0, n) =~= w);
    }
}

proof fn lemma_v2025_work_bytes_prefix(ps: Seq<ManifestFilePath>, n: int, root: Seq<char>)
    requires
        0 <= n <= ps.len(),
    ensures
        work_bytes(v2025_work(ps.subrange(0, n), root)) <= work_bytes(v2025_work(ps, root)),
    decreases ps.len() - n,
{
    if n < ps.len() {
        lemma_v2025_work_bytes_prefix(ps, n + 1, root);
        let s = ps.subrange(0, n + 1);
        assert(s.drop_last() =~= ps.subrange(0, n));
        let t = v2025_work(ps.subrange(0, n), root);
        let p = s.last();
        if !(p.symlink_target is Some || p.deleted) {
            assert(v2025_work(s, root).drop_last() =~= t);
        }
    } else {
        assert(ps.subrange(0, n) =~= ps);
    }
}

// ---------------------------------------------------------------------------
// Result manifest
// ---------------------------------------------------------------------------

/// The hash recorded last for a full path among (full path, hash) pairs.
pub open spec fn last_hash(processed: Seq<(Seq<char>, Seq<char>)>, key: Seq<char>) -> Option<
    Seq<char>,
>
    decreases processed.len(),
{
    if processed.len() == 0 {
        None
    } else if processed.last().0 == key {
        Some(processed.last().1)
    } else {
        last_hash(processed.drop_last(), key)
    }
}

/// The hash recorded last for a full path.
fn find_last_hash<'a>(processed: &'a Vec<(String, String)>, key: &str) -> (r: Option<&'a String>)
    ensures
        match r {
            Some(h) => last_hash(entries_text(processed@), key@) == Some(h@),
            None => last_hash(entries_text(processed@), key@) is None,
        },
{
    let ghost all = entries_text(processed@);
    let mut i: usize = processed.len();
    assert(all.subrange(0, i as int) =~= all);
    while i > 0
        invariant
            i <= processed.len(),
            all == entries_text(processed@),
            last_hash(all, key@) == last_hash(all.subrange(0, i as int), key@),
        decreases i,
    {
        let ghost pre = all.subrange(0, i as int);
        assert(pre.drop_last() =~= all.subrange(0, i - 1));
        assert(pre.last() == all[i - 1]);
        if str_eq(processed[i - 1].0.as_str(), key) {
            return Some(&processed[i - 1].1);
        }
        i = i - 1;
    }
    None
}

/// A v2023-03-03 path after hashing: the hash recorded for its full path
/// under the source root replaces its hash.
pub open spec fn v2023_result_path(
    p: ManifestPathV2023,
    root: Seq<char>,
    processed: Seq<(Seq<char>, Seq<char>)>,
) -> (Seq<char>, Seq<char>, u64, i64) {
    (
        p.path@,
        match last_hash(processed, root + "/"@ + p.path@) {
            Some(h) => h,
            None => p.hash@,
        },
        p.size,
        p.mtime,
    )
}

/// A v2025-12-04-beta entry after hashing: a file (not a symlink, not a
/// deletion marker) whose full path has a recorded hash takes that hash;
/// everything else stays.
pub open spec fn v2025_result_entry(
    p: ManifestFilePath,
    root: Seq<char>,
    processed: Seq<(Seq<char>, Seq<char>)>,
) -> (
    Seq<char>,
    Option<Seq<char>>,
    Option<Seq<Seq<char>>>,
    Option<u64>,
    Option<i64>,
    bool,
    Option<Seq<char>>,
    bool,
) {
    let v = entry_view(p);
    match last_hash(processed, root + "/"@ + p.path@) {
        Some(h) => if p.symlink_target is None && !p.deleted {
            (v.0, Some(h), v.2, v.3, v.4, v.5, v.6, v.7)
        } else {
            v
        },
        None => v,
    }
}

/// The manifest after hashing and uploading: each file whose full path
/// (`{source_root}/{path}`) was processed takes the hash recorded last for
/// it (see `v2023_result_path` and `v2025_result_entry`); directories and
/// the parent manifest hash stay.
pub open spec fn result_manifest_ok(
    r: Result<ManifestData, StorageError>,
    original: ManifestData,
    root: Seq<char>,
    processed: Seq<(Seq<char>, Seq<char>)>,
) -> bool {
    match original {
        ManifestData::V2023_03_03 { paths } => r matches Ok(ManifestData::V2023_03_03 { paths: out })
            && out@.len() == paths@.len() && forall|i: int|
            0 <= i < paths@.len() ==> (#[trigger] out@[i].path@, out@[i].hash@, out@[i].size, out@[i].mtime)
                == v2023_result_path(paths@[i], root, processed),
        ManifestData::V2025_12_04_beta { dirs, paths, parent_manifest_hash } => r matches Ok(
            ManifestData::V2025_12_04_beta { dirs: ds, paths: out, parent_manifest_hash: ph },
        ) && ds == dirs && ph == parent_manifest_hash && out@.len() == paths@.len() && forall|
            i: int,
        |
            0 <= i < paths@.len() ==> entry_view(#[trigger] out@[i]) == v2025_result_entry(
                paths@[i],
                root,
                processed,
            ),
    }
}

/// Result of processing a single file.
pub struct ProcessedItem {
    /// Original path.
    pub path: String,
    /// Computed hash.
    pub hash: String,
    /// File size.
    pub size: u64,
    /// Whether upload was skipped (already existed or deduplicated).
    pub upload_skipped: bool,
    /// Whether hash was from cache.
    pub hash_cached: bool,
}

/// Result of processing a single file in the staged pipeline.
pub struct StagedProcessedItem {
    /// Original path.
    pub path: String,
    /// Computed hash.
    pub hash: String,
    /// File size.
    pub size: u64,
    /// Whether upload was skipped.
    pub upload_skipped: bool,
    /// Whether hash was from cache.
    pub hash_cached: bool,
}

/// The (path, hash) pairs of processed items.
pub open spec fn item_pairs(v: Seq<ProcessedItem>) -> Seq<(Seq<char>, Seq<char>)> {
    Seq::new(v.len(), |i: int| (v[i].path@, v[i].hash@))
}

/// The (path, hash) pairs of items of the staged pipeline.
pub open spec fn staged_pairs(v: Seq<StagedProcessedItem>) -> Seq<(Seq<char>, Seq<char>)> {
    Seq::new(v.len(), |i: int| (v[i].path@, v[i].hash@))
}

/// The manifest with the hashes of processed items filled in (see
/// `result_manifest_ok`).
pub fn build_result_manifest(
    original: ManifestData,
    source_root: &str,
    processed: &Vec<ProcessedItem>,
) -> (r: Result<ManifestData, StorageError>)
    ensures
        result_manifest_ok(r, original, source_root@, item_pairs(processed@)),
{
    let mut pairs: Vec<(String, String)> = Vec::new();
    let mut i: usize = 0;
    while i < processed.len()
        invariant
            i <= processed.len(),
            entries_text(pairs@) == item_pairs(processed@).subrange(0, i as int),
        decreases processed.len() - i,
    {
        let ghost before = pairs@;
        pairs.push((own(processed[i].path.as_str()), own(processed[i].hash.as_str())));
        assert(entries_text(pairs@) =~= entries_text(before).push(
            (processed@[i as int].path@, processed@[i as int].hash@),
        ));
        assert(item_pairs(processed@).subrange(0, i + 1) =~= item_pairs(processed@).subrange(
            0,
            i as int,
        ).push((processed@[i as int].path@, processed@[i as int].hash@)));
        i = i + 1;
    }
    assert(item_pairs(processed@).subrange(0, i as int) =~= item_pairs(processed@));
    result_manifest_from_pairs(original, source_root, &pairs)
}

/// The manifest with the hashes of the staged pipeline's items filled in
/// (see `result_manifest_ok`).
pub fn build_result_manifest_staged(
    original: ManifestData,
    source_root: &str,
    processed: &Vec<StagedProcessedItem>,
) -> (r: Result<ManifestData, StorageError>)
    ensures
        result_manifest_ok(r, original, source_root@, staged_pairs(processed@)),
{
    let mut pairs: Vec<(String, String)> = Vec::new();
    let mut i: usize = 0;
    while i < processed.len()
        invariant
            i <= processed.len(),
            entries_text(pairs@) == staged_pairs(processed@).subrange(0, i as int),
        decreases processed.len() - i,
    {
        let ghost before = pairs@;
        pairs.push((own(processed[i].path.as_str()), own(processed[i].hash.as_str())));
        assert(entries_text(pairs@) =~= entries_text(before).push(
            (processed@[i as int].path@, processed@[i as int].hash@),
        ));
        assert(staged_pairs(processed@).subrange(0, i + 1) =~= staged_pairs(processed@).subrange(
            0,
            i as int,
        ).push((processed@[i as int].path@, processed@[i as int].hash@)));
        i = i + 1;
    }
    assert(staged_pairs(processed@).subrange(0, i as int) =~= staged_pairs(processed@));
    result_manifest_from_pairs(original, source_root, &pairs)
}

/// Configuration for the staged pipeline.
pub struct StagedPipelineConfig {
    /// Maximum concurrent file reads.
    pub read_concurrency: usize,
    /// Maximum concurrent hash computations.
    pub hash_concurrency: usize,
    /// Maximum concurrent uploads.
    pub upload_concurrency: usize,
    /// Maximum memory for in-flight data.
    pub max_memory_bytes: u64,
    /// Memory permit granularity.
    pub permit_size: u64,
}

impl Default for StagedPipelineConfig {
    fn default() -> (r: Self)
        ensures
            r.read_concurrency == 16,
            r.hash_concurrency == 16,
            r.upload_concurrency == 32,
            r.max_memory_bytes == 5368709120,
            r.permit_size == 67108864,
    {
        StagedPipelineConfig {
            read_concurrency: 16,
            hash_concurrency: 16,
            upload_concurrency: 32,
            max_memory_bytes: 5368709120,
            permit_size: 67108864,
        }
    }
}

impl<'a> From<&'a HashUploadOptions> for StagedPipelineConfig {
    /// The staged configuration for hash+upload options: 64 workers split
    /// 16 / 16 / 32 over reading, hashing and uploading, the options'
    /// memory budget, 64MB permits.
    fn from(opts: &'a HashUploadOptions) -> (r: Self) {
        StagedPipelineConfig {
            read_concurrency: 16,
            hash_concurrency: 16,
            upload_concurrency: 32,
            max_memory_bytes: opts.max_memory_bytes,
            permit_size: 67108864,
        }
    }
}

impl<'a> vstd::std_specs::convert::FromSpecImpl<&'a HashUploadOptions> for StagedPipelineConfig {
    open spec fn obeys_from_spec() -> bool {
        true
    }

    open spec fn from_spec(opts: &'a HashUploadOptions) -> Self {
        StagedPipelineConfig {
            read_concurrency: 16,
            hash_concurrency: 16,
            upload_concurrency: 32,
            max_memory_bytes: opts.max_memory_bytes,
            permit_size: 67108864,
        }
    }
}

/// The manifest with the hashes of (full path, hash) pairs filled in (see
/// `result_manifest_ok`).
fn result_manifest_from_pairs(
    original: ManifestData,
    source_root: &str,
    processed: &Vec<(String, String)>,
) -> (r: Result<ManifestData, StorageError>)
    ensures
        result_manifest_ok(r, original, source_root@, entries_text(processed@)),
{
    let ghost pv = entries_text(processed@);
    match original {
        ManifestData::V2023_03_03 { paths } => {
            let mut out: Vec<ManifestPathV2023> = Vec::new();
            let mut i: usize = 0;
            while i < paths.len()
                invariant
                    i <= paths.len(),
                    pv == entries_text(processed@),
                    out@.len() == i,
                    forall|j: int|
                        0 <= j < i ==> (#[trigger] out@[j].path@, out@[j].hash@, out@[j].size, out@[j].mtime)
                            == v2023_result_path(paths@[j], source_root@, pv),
                decreases paths.len() - i,
            {
                let p = &paths[i];
                let full = full_path(source_root, p.path.as_str());
                let hash = match find_last_hash(processed, full.as_str()) {
                    Some(h) => own(h.as_str()),
                    None => own(p.hash.as_str()),
                };
                out.push(
                    ManifestPathV2023 { path: own(p.path.as_str()), hash, size: p.size, mtime: p.mtime },
                );
                i = i + 1;
            }
            Ok(ManifestData::V2023_03_03 { paths: out })
        },
        ManifestData::V2025_12_04_beta { dirs, paths, parent_manifest_hash } => {
            let mut out: Vec<ManifestFilePath> = Vec::new();
            let mut i: usize = 0;
            while i < paths.len()
                invariant
                    i <= paths.len(),
                    pv == entries_text(processed@),
                    out@.len() == i,
                    forall|j: int|
                        0 <= j < i ==> entry_view(#[trigger] out@[j]) == v2025_result_entry(
                            paths@[j],
                            source_root@,
                            pv,
                        ),
                decreases paths.len() - i,
            {
                let p = &paths[i];
                let mut e = copy_entry(p);
                if p.symlink_target.is_none() && !p.deleted {
                    let full = full_path(source_root, p.path.as_str());
                    match find_last_hash(processed, full.as_str()) {
                        Some(h) => {
                            e.hash = Some(own(h.as_str()));
                        },
                        None => {},
                    }
                }
                out.push(e);
                i = i + 1;
            }
            Ok(ManifestData::V2025_12_04_beta { dirs, paths: out, parent_manifest_hash })
        },
    }
}


/// A work item hashes a v2025 manifest path under a source root: the file
/// at `{root}/{path}`, with the path's size and mtime (0 when missing).
pub open spec fn item_works_path(w: WorkItem, p: ManifestFilePath, root: Seq<char>) -> bool {
    &&& w.path@ == root + "/"@ + p.path@
    &&& w.size == (match p.size {
        Some(n) => n,
        None => 0,
    })
    &&& w.mtime == (match p.mtime {
        Some(t) => t,
        None => 0,
    })
}

spec fn work_tuple(p: ManifestFilePath, root: Seq<char>) -> (Seq<char>, u64, i64) {
    (
        root + "/"@ + p.path@,
        match p.size {
            Some(s) => s,
            None => 0,
        },
        match p.mtime {
            Some(m) => m,
            None => 0,
        },
    )
}

proof fn lemma_v2025_work_entries(ps: Seq<ManifestFilePath>, root: Seq<char>)
    ensures
        forall|k: int|
            0 <= k < v2025_work(ps, root).len() ==> exists|j: int|
                0 <= j < ps.len() && !ps[j].deleted && ps[j].symlink_target is None
                    && #[trigger] v2025_work(ps, root)[k] == work_tuple(ps[j], root),
        forall|j: int|
            0 <= j < ps.len() && !ps[j].deleted && ps[j].symlink_target is None ==> exists|k: int|
                0 <= k < v2025_work(ps, root).len() && v2025_work(ps, root)[k] == work_tuple(
                    #[trigger] ps[j],
                    root,
                ),
    decreases ps.len(),
{
    if ps.len() > 0 {
        let t = ps.drop_last();
        lemma_v2025_work_entries(t, root);
        let r = v2025_work(ps, root);
        let tm = v2025_work(t, root);
        assert forall|k: int| 0 <= k < r.len() implies exists|j: int|
            0 <= j < ps.len() && !ps[j].deleted && ps[j].symlink_target is None && #[trigger] r[k]
                == work_tuple(ps[j], root) by {
            if k < tm.len() {
                assert(r[k] == tm[k]);
                let j = choose|j: int|
                    0 <= j < t.len() && !t[j].deleted && t[j].symlink_target is None && tm[k]
                        == work_tuple(t[j], root);
                assert(ps[j] == t[j]);
            } else {
                assert(ps[ps.len() - 1] == ps.last());
            }
        }
        assert forall|j: int|
            0 <= j < ps.len() && !ps[j].deleted && ps[j].symlink_target is None implies exists|k: int|
            0 <= k < r.len() && r[k] == work_tuple(#[trigger] ps[j], root) by {
            if j < t.len() {
                assert(t[j] == ps[j]);
                let k = choose|k: int| 0 <= k < tm.len() && tm[k] == work_tuple(t[j], root);
                assert(r[k] == tm[k]);
            } else {
                assert(ps[j] == ps.last());
                assert(r[r.len() - 1] == work_tuple(ps[j], root));
            }
        }
    }
}

/// The work items `collect_work_items` returns carry the manifest's
/// fields: for a v2023 manifest, one item per path in order, at
/// `{root}/{path}`, with the path's size and mtime (so the hash cache is
/// keyed by the file's real mtime); for a v2025 manifest, each item is a
/// path that is neither a deletion marker nor a symlink, with its size and
/// mtime, and each such path has an item.
pub proof fn lemma_work_items_carry_fields(m: ManifestData, root: Seq<char>, items: Seq<WorkItem>)
    requires
        works_view(items) == work_model(m, root),
    ensures
        m matches ManifestData::V2023_03_03 { paths } ==> {
            &&& items.len() == paths@.len()
            &&& forall|i: int|
                0 <= i < items.len() ==> {
                    &&& (#[trigger] items[i]).path@ == root + "/"@ + paths@[i].path@
                    &&& items[i].size == paths@[i].size
                    &&& items[i].mtime == paths@[i].mtime
                }
        },
        m matches ManifestData::V2025_12_04_beta { paths, .. } ==> {
            &&& forall|k: int|
                0 <= k < items.len() ==> exists|j: int|
                    0 <= j < paths@.len() && !paths@[j].deleted && paths@[j].symlink_target is None
                        && item_works_path(#[trigger] items[k], paths@[j], root)
            &&& forall|j: int|
                0 <= j < paths@.len() && !paths@[j].deleted && paths@[j].symlink_target is None
                    ==> exists|k: int|
                    0 <= k < items.len() && item_works_path(items[k], #[trigger] paths@[j], root)
        },
{
    assert(works_view(items).len() == items.len());
    match m {
        ManifestData::V2023_03_03 { paths } => {
            assert forall|i: int| 0 <= i < items.len() implies {
                &&& (#[trigger] items[i]).path@ == root + "/"@ + paths@[i].path@
                &&& items[i].size == paths@[i].size
                &&& items[i].mtime == paths@[i].mtime
            } by {
                assert(works_view(items)[i] == work_model(m, root)[i]);
                assert(work_view(items[i]) == work_model(m, root)[i]);
            }
        },
        ManifestData::V2025_12_04_beta { paths, .. } => {
            lemma_v2025_work_entries(paths@, root);
            assert forall|k: int| 0 <= k < items.len() implies exists|j: int|
                0 <= j < paths@.len() && !paths@[j].deleted && paths@[j].symlink_target is None
                    && item_works_path(#[trigger] items[k], paths@[j], root) by {
                assert(works_view(items)[k] == v2025_work(paths@, root)[k]);
                let j = choose|j: int|
                    0 <= j < paths@.len() && !paths@[j].deleted && paths@[j].symlink_target is None
                        && v2025_work(paths@, root)[k] == work_tuple(paths@[j], root);
                assert(work_view(items[k]) == work_tuple(paths@[j], root));
                assert(item_works_path(items[k], paths@[j], root));
            }
            assert forall|j: int|
                0 <= j < paths@.len() && !paths@[j].deleted && paths@[j].symlink_target is None implies exists|k: int|
                0 <= k < items.len() && item_works_path(items[k], #[trigger] paths@[j], root) by {
                let k = choose|k: int|
                    0 <= k < v2025_work(paths@, root).len() && v2025_work(paths@, root)[k] == work_tuple(paths@[j], root);
                assert(works_view(items)[k] == v2025_work(paths@, root)[k]);
                assert(work_view(items[k]) == work_tuple(paths@[j], root));
            }
        },
    }
}
} // verus!
