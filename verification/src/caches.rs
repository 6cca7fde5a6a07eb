//! Keys and entries of the hash cache and of the S3 existence-check cache,
//! and the rules that date them.

use vstd::prelude::*;
use vstd::string::StrSliceExecFns;

use crate::error::io_error_message;
use crate::hash_upload::{all_digits, digits_value};
use crate::storage_types::HashAlgorithm;
use crate::text::{append_str, chars_of, own, string_of};

verus! {

/// Seconds in a day.
pub const SECONDS_PER_DAY: i64 = 86400;

/// Default time-to-live of hash cache entries, in days.
pub const DEFAULT_HASH_CACHE_TTL_DAYS: u32 = 14;

// ---------------------------------------------------------------------------
// Signed decimal parsing
// ---------------------------------------------------------------------------

/// What `str::parse::<i64>` gives: an optional sign, then at least one
/// decimal digit, with a value in range.
pub open spec fn parse_i64_spec(w: Seq<char>) -> Option<i64> {
    let neg = w.len() > 0 && w[0] == '-';
    let d = if w.len() > 0 && (w[0] == '+' || w[0] == '-') {
        w.drop_first()
    } else {
        w
    };
    if d.len() > 0 && all_digits(d) {
        if neg {
            if digits_value(d) <= 9223372036854775808 {
                Some((-digits_value(d)) as i64)
            } else {
                None
            }
        } else if digits_value(d) <= i64::MAX {
            Some(digits_value(d) as i64)
        } else {
            None
        }
    } else {
        None
    }
}

/// Parses signed decimal text as `str::parse::<i64>` does.
pub fn parse_i64(text: &str) -> (r: Option<i64>)
    ensures
        r == parse_i64_spec(text@),
{
    let w = chars_of(text);
    let neg: bool = w.len() > 0 && w[0] == '-';
    let mut start: usize = 0;
    if w.len() > 0 && (w[0] == '+' || w[0] == '-') {
        start = 1;
    }
    let ghost d = if w@.len() > 0 && (w@[0] == '+' || w@[0] == '-') {
        w@.drop_first()
    } else {
        w@
    };
    assert(d =~= w@.skip(start as int));
    if start >= w.len() {
        return None;
    }
    let limit: u64 = if neg {
        9223372036854775808
    } else {
        9223372036854775807
    };
    let mut v: u64 = 0;
    let mut i: usize = start;
    assert(w@.subrange(start as int, start as int) =~= Seq::<char>::empty());
    while i < w.len()
        invariant
            start <= i <= w.len(),
            w@ == text@,
            d == w@.skip(start as int),
            d == (if w@.len() > 0 && (w@[0] == '+' || w@[0] == '-') {
                w@.drop_first()
            } else {
                w@
            }),
            d.len() > 0,
            all_digits(w@.subrange(start as int, i as int)),
            v == digits_value(w@.subrange(start as int, i as int)),
            v <= limit,
            limit == (if neg {
                9223372036854775808u64
            } else {
                9223372036854775807u64
            }),
            neg == (w@.len() > 0 && w@[0] == '-'),
        decreases w.len() - i,
    {
        let c = w[i];
        let ghost pre = w@.subrange(start as int, i as int);
        let ghost nxt = w@.subrange(start as int, i + 1);
        proof {
            assert(nxt.drop_last() =~= pre);
            assert(nxt.last() == c);
            assert(d.subrange(0, (i - start) as int) =~= pre);
            assert(d.subrange(0, (i - start) as int + 1) =~= nxt);
            assert(d[i - start] == c);
        }
        if !('0' <= c && c <= '9') {
            assert(!all_digits(d));
            return None;
        }
        let digit: u64 = (c as u32 - 48) as u64;
        if v > (limit - digit) / 10 {
            proof {
                assert(v * 10 + digit > limit) by (nonlinear_arith)
                    requires
                        v > (limit - digit) / 10,
                        digit <= 9,
                ;
                assert(all_digits(nxt));
                assert(all_digits(d) ==> digits_value(d) > limit) by {
                    if all_digits(d) {
                        crate::hash_upload::lemma_digits_grow(d, (i - start) as int + 1);
                    }
                }
            }
            return None;
        }
        v = v * 10 + digit;
        i = i + 1;
    }
    assert(w@.subrange(start as int, i as int) =~= d);
    if neg {
        if v == 9223372036854775808 {
            Some(i64::MIN)
        } else {
            Some(0i64 - (v as i64))
        }
    } else {
        Some(v as i64)
    }
}

// ---------------------------------------------------------------------------
// S3 check cache
// ---------------------------------------------------------------------------

/// Key for looking up a cached S3 existence check.
#[derive(PartialEq, Eq, Hash, Debug, Clone)]
pub struct S3CheckCacheKey {
    /// Full S3 key: "{bucket}/{key}".
    pub s3_key: String,
}

/// The index of the first `/` in text, if any.
pub open spec fn first_slash(s: Seq<char>) -> Option<int> {
    if exists|i: int| 0 <= i < s.len() && s[i] == '/' {
        Some(choose|i: int| 0 <= i < s.len() && s[i] == '/' && forall|j: int| 0 <= j < i ==> s[j] != '/')
    } else {
        None
    }
}

/// The position of the first `/` in a string, if any.
fn find_first_slash(s: &str) -> (r: Option<usize>)
    ensures
        match r {
            Some(i) => i < s@.len() && s@[i as int] == '/' && forall|j: int| 0 <= j < i ==> s@[j] != '/',
            None => forall|j: int| 0 <= j < s@.len() ==> s@[j] != '/',
        },
{
    let n = s.unicode_len();
    let mut i: usize = 0;
    while i < n
        invariant
            n == s@.len(),
            i <= n,
            forall|j: int| 0 <= j < i ==> s@[j] != '/',
        decreases n - i,
    {
        if s.get_char(i) == '/' {
            return Some(i);
        }
        i = i + 1;
    }
    None
}

proof fn lemma_first_slash(s: Seq<char>, i: int)
    requires
        0 <= i < s.len(),
        s[i] == '/',
        forall|j: int| 0 <= j < i ==> s[j] != '/',
    ensures
        first_slash(s) == Some(i),
{
    let k = choose|k: int| 0 <= k < s.len() && s[k] == '/' && forall|j: int| 0 <= j < k ==> s[j] != '/';
    assert(0 <= i < s.len() && s[i] == '/' && forall|j: int| 0 <= j < i ==> s[j] != '/');
    if k < i {
        assert(s[k] != '/');
    }
    if i < k {
        assert(s[i] != '/');
    }
}

impl S3CheckCacheKey {
    /// A key for an object: `{bucket}/{key}`.
    pub fn new(bucket: &str, key: &str) -> (r: Self)
        ensures
            r.s3_key@ == bucket@ + "/"@ + key@,
    {
        let mut out: Vec<char> = Vec::new();
        append_str(&mut out, bucket);
        append_str(&mut out, "/");
        append_str(&mut out, key);
        S3CheckCacheKey { s3_key: string_of(&out) }
    }

    /// A key from a full `{bucket}/{key}` string.
    pub fn from_s3_key(s3_key: &str) -> (r: Self)
        ensures
            r.s3_key@ == s3_key@,
    {
        S3CheckCacheKey { s3_key: own(s3_key) }
    }

    /// The bucket name: the text before the first `/`, or `None` when the
    /// key is not in `{bucket}/{key}` form (it holds no `/`).
    pub fn bucket(&self) -> (r: Option<&str>)
        ensures
            r is None <==> !self.s3_key@.contains('/'),
            match first_slash(self.s3_key@) {
                Some(i) => r matches Some(b) && b@ == self.s3_key@.subrange(0, i),
                None => r is None,
            },
    {
        let s = self.s3_key.as_str();
        match find_first_slash(s) {
            Some(i) => {
                proof {
                    lemma_first_slash(s@, i as int);
                }
                Some(s.substring_char(0, i))
            },
            None => None,
        }
    }

    /// The object key: everything after the first `/`, or `None` when
    /// there is no `/`.
    pub fn key(&self) -> (r: Option<&str>)
        ensures
            match first_slash(self.s3_key@) {
                Some(i) => r matches Some(k) && k@ == self.s3_key@.subrange(
                    i + 1,
                    self.s3_key@.len() as int,
                ),
                None => r is None,
            },
    {
        let s = self.s3_key.as_str();
        match find_first_slash(s) {
            Some(i) => {
                proof {
                    lemma_first_slash(s@, i as int);
                }
                let n = s.unicode_len();
                Some(s.substring_char(i + 1, n))
            },
            None => None,
        }
    }
}

/// Splitting a key made of a bucket without `/` and any object key gives
/// that bucket and that object key back.
pub proof fn lemma_s3_key_roundtrip(bucket: Seq<char>, key: Seq<char>)
    requires
        !bucket.contains('/'),
    ensures
        first_slash(bucket + "/"@ + key) == Some(bucket.len() as int),
        (bucket + "/"@ + key).subrange(0, bucket.len() as int) == bucket,
        (bucket + "/"@ + key).subrange(bucket.len() as int + 1, (bucket + "/"@ + key).len() as int) == key,
{
    reveal_strlit("/");
    let s = bucket + "/"@ + key;
    assert(s[bucket.len() as int] == '/');
    assert forall|j: int| 0 <= j < bucket.len() implies s[j] != '/' by {
        assert(s[j] == bucket[j]);
    }
    lemma_first_slash(s, bucket.len() as int);
    assert(s.subrange(0, bucket.len() as int) =~= bucket);
    assert(s.subrange(bucket.len() as int + 1, s.len() as int) =~= key);
}

/// Cached S3 existence entry.
pub struct S3CheckCacheEntry {
    /// Full S3 key: "{bucket}/{key}".
    pub s3_key: String,
    /// When this entry was last verified (epoch seconds as string).
    pub last_seen_time: String,
}

impl S3CheckCacheEntry {
    /// An entry for an object seen at the given time.
    pub fn new(bucket: &str, key: &str, last_seen_time: &str) -> (r: Self)
        ensures
            r.s3_key@ == bucket@ + "/"@ + key@,
            r.last_seen_time@ == last_seen_time@,
    {
        let k = S3CheckCacheKey::new(bucket, key);
        S3CheckCacheEntry { s3_key: k.s3_key, last_seen_time: own(last_seen_time) }
    }

    /// An entry from a full `{bucket}/{key}` string.
    pub fn from_s3_key(s3_key: &str, last_seen_time: &str) -> (r: Self)
        ensures
            r.s3_key@ == s3_key@,
            r.last_seen_time@ == last_seen_time@,
    {
        S3CheckCacheEntry { s3_key: own(s3_key), last_seen_time: own(last_seen_time) }
    }

    /// The last seen time as a timestamp, or `None` when it is not a
    /// decimal integer.
    pub fn last_seen_timestamp(&self) -> (r: Option<i64>)
        ensures
            r == parse_i64_spec(self.last_seen_time@),
    {
        parse_i64(self.last_seen_time.as_str())
    }
}

/// Whether an S3 check cache entry has expired: its timestamp is older
/// than `expiry_days` days before `now`; an unparsable timestamp counts as
/// expired.
pub fn s3_check_entry_expired(last_seen_time: &str, now: i64, expiry_days: u32) -> (r: bool)
    requires
        now - expiry_days * 86400 >= i64::MIN,
    ensures
        r == match parse_i64_spec(last_seen_time@) {
            Some(t) => t < now - expiry_days * 86400,
            None => true,
        },
{
    let threshold: i64 = now - (expiry_days as i64) * 86400;
    match parse_i64(last_seen_time) {
        Some(t) => t < threshold,
        None => true,
    }
}

// ---------------------------------------------------------------------------
// Hash cache
// ---------------------------------------------------------------------------

/// Errors that can occur during hash cache operations.
#[derive(Debug)]
pub enum HashCacheError {
    /// SQLite database error.
    Sqlite(String),
    /// DynamoDB error.
    DynamoDb(String),
    /// I/O error.
    Io(std::io::Error),
    /// Serialization error.
    Serialization(String),
    /// Invalid cache entry.
    InvalidEntry(String),
}

impl HashCacheError {
    /// The error's displayed text, for the variants that carry text: the
    /// kind of error, a colon and the message. An I/O error's text is that
    /// of the `std::io::Error` it holds.
    pub fn to_string(&self) -> (r: String)
        ensures
            match *self {
                HashCacheError::Sqlite(m) => r@ == "SQLite error: "@ + m@,
                HashCacheError::DynamoDb(m) => r@ == "DynamoDB error: "@ + m@,
                HashCacheError::Io(_) => r@.len() >= 11 && r@.subrange(0, 11) == "I/O error: "@,
                HashCacheError::Serialization(m) => r@ == "Serialization error: "@ + m@,
                HashCacheError::InvalidEntry(m) => r@ == "Invalid cache entry: "@ + m@,
            },
    {
        let mut out: Vec<char> = Vec::new();
        match self {
            HashCacheError::Sqlite(m) => {
                append_str(&mut out, "SQLite error: ");
                append_str(&mut out, m.as_str());
            },
            HashCacheError::DynamoDb(m) => {
                append_str(&mut out, "DynamoDB error: ");
                append_str(&mut out, m.as_str());
            },
            HashCacheError::Io(e) => {
                append_str(&mut out, "I/O error: ");
                let ghost head = out@;
                append_str(&mut out, io_error_message(e).as_str());
                proof {
                    reveal_strlit("I/O error: ");
                    assert(out@.subrange(0, 11) =~= head);
                }
            },
            HashCacheError::Serialization(m) => {
                append_str(&mut out, "Serialization error: ");
                append_str(&mut out, m.as_str());
            },
            HashCacheError::InvalidEntry(m) => {
                append_str(&mut out, "Invalid cache entry: ");
                append_str(&mut out, m.as_str());
            },
        }
        string_of(&out)
    }
}

/// Key for looking up a cached hash: a file's path, size and mtime.
#[derive(PartialEq, Eq, Hash, Debug, Clone)]
pub struct HashCacheKey {
    /// Relative file path.
    pub path: String,
    /// File size in bytes.
    pub size: u64,
    /// Modification time in microseconds since epoch.
    pub mtime: i64,
}

impl HashCacheKey {
    /// Create a new hash cache key.
    pub fn new(path: &str, size: u64, mtime: i64) -> (r: Self)
        ensures
            r.path@ == path@,
            r.size == size,
            r.mtime == mtime,
    {
        HashCacheKey { path: own(path), size, mtime }
    }
}

/// Cached hash entry.
pub struct HashCacheEntry {
    /// The computed hash value.
    pub hash: String,
    /// Hash algorithm used.
    pub hash_alg: HashAlgorithm,
    /// When this entry was created (epoch seconds).
    pub created_at: i64,
    /// When this entry expires (epoch seconds).
    pub expires_at: i64,
}

impl HashCacheEntry {
    /// Create a new hash cache entry.
    pub fn new(hash: &str, hash_alg: HashAlgorithm, created_at: i64, expires_at: i64) -> (r: Self)
        ensures
            r.hash@ == hash@,
            r.hash_alg == hash_alg,
            r.created_at == created_at,
            r.expires_at == expires_at,
    {
        HashCacheEntry { hash: own(hash), hash_alg, created_at, expires_at }
    }

    /// An entry created at `now` that lives `ttl_days` days.
    pub fn with_ttl(hash: &str, hash_alg: HashAlgorithm, now: i64, ttl_days: u32) -> (r: Self)
        requires
            now + ttl_days * 86400 <= i64::MAX,
        ensures
            r.hash@ == hash@,
            r.hash_alg == hash_alg,
            r.created_at == now,
            r.expires_at == now + ttl_days * 86400,
    {
        HashCacheEntry::new(hash, hash_alg, now, now + (ttl_days as i64) * 86400)
    }

    /// Whether this entry has expired at time `now` (epoch seconds).
    pub fn is_expired(&self, now: i64) -> (r: bool)
        ensures
            r == entry_expired(*self, now),
    {
        now >= self.expires_at
    }
}

/// Whether a hash cache entry has expired at time `now`: its expiry time
/// has been reached.
pub open spec fn entry_expired(e: HashCacheEntry, now: i64) -> bool {
    now >= e.expires_at
}

/// An entry made at `created` to live `ttl_days` days (as `with_ttl` makes
/// it) is fresh until that many days have passed and expired from then on.
pub proof fn lemma_ttl_expiry(e: HashCacheEntry, created: i64, ttl_days: u32, now: i64)
    requires
        e.created_at == created,
        e.expires_at == created + ttl_days * 86400,
    ensures
        entry_expired(e, now) <==> now - created >= ttl_days * 86400,
        now < created + ttl_days * 86400 ==> !entry_expired(e, now),
{
}

} // verus!
