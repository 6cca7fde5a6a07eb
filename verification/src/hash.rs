//! XXH128 hashing, with hashes written as 32 lowercase hex digits.

use vstd::prelude::*;

use xxhash_rust::xxh3::Xxh3;

verus! {

/// The streaming XXH3 hasher of `xxhash-rust`.
#[verifier::external_type_specification]
#[verifier::external_body]
pub struct ExXxh3(Xxh3);

/// The 128-bit XXH3 hash of a byte sequence (default seed and secret).
pub uninterp spec fn xxh3_128_of(data: Seq<u8>) -> u128;

/// The bytes a streaming hasher has consumed since it was created.
pub uninterp spec fn xxh3_consumed(h: Xxh3) -> Seq<u8>;

/// `xxhash_rust::xxh3::xxh3_128`: the one-shot XXH3-128 hash of the input.
#[verifier::external_body]
fn xxh3_128(data: &[u8]) -> (r: u128)
    ensures
        r == xxh3_128_of(data@),
{
    xxhash_rust::xxh3::xxh3_128(data)
}

/// `Xxh3::new`: a hasher with the default seed that has consumed nothing.
#[verifier::external_body]
fn xxh3_new() -> (r: Xxh3)
    ensures
        xxh3_consumed(r) == Seq::<u8>::empty(),
{
    Xxh3::new()
}

/// `Xxh3::update`: the hasher consumes the bytes after those it had.
#[verifier::external_body]
fn xxh3_update(h: &mut Xxh3, data: &[u8])
    ensures
        xxh3_consumed(*final(h)) == xxh3_consumed(*old(h)) + data@,
{
    h.update(data)
}

/// `Xxh3::digest128`: the XXH3-128 hash of everything consumed. The
/// streaming and the one-shot functions of the crate implement the same
/// XXH3 algorithm, so this is the one-shot hash of the consumed bytes.
#[verifier::external_body]
fn xxh3_digest128(h: &Xxh3) -> (r: u128)
    ensures
        r == xxh3_128_of(xxh3_consumed(*h)),
{
    h.digest128()
}

/// The hex digit for a value below 16 (lowercase).
pub open spec fn hex_digit(d: nat) -> char {
    if d < 10 {
        (48 + d) as char
    } else {
        (87 + d) as char
    }
}

/// The lowest `n` hex digits of `v`, most significant first.
pub open spec fn hex_text(v: nat, n: nat) -> Seq<char>
    decreases n,
{
    if n == 0 {
        Seq::<char>::empty()
    } else {
        hex_text(v / 16, (n - 1) as nat).push(hex_digit(v % 16))
    }
}

/// A 128-bit hash as 32 zero-padded lowercase hex digits.
pub open spec fn hash_hex(h: u128) -> Seq<char> {
    hex_text(h as nat, 32)
}

fn hex_char(d: u8) -> (c: char)
    requires
        d < 16,
    ensures
        c == hex_digit(d as nat),
{
    if d < 10 {
        (48u8 + d) as char
    } else {
        (87u8 + d) as char
    }
}

fn hex_digits(v: u128, n: usize) -> (r: Vec<char>)
    ensures
        r@ == hex_text(v as nat, n as nat),
    decreases n,
{
    if n == 0 {
        Vec::new()
    } else {
        let mut r = hex_digits(v / 16, n - 1);
        r.push(hex_char((v % 16) as u8));
        r
    }
}

/// Formats a hash as 32 zero-padded lowercase hex digits.
pub fn format_hash_hex(h: u128) -> (r: String)
    ensures
        r@ == hash_hex(h),
{
    crate::text::string_of(&hex_digits(h, 32))
}

/// Compute XXH128 hash of a byte slice, as a 32-character lowercase hex
/// string.
pub fn hash_bytes(data: &[u8]) -> (r: String)
    ensures
        r@ == hash_hex(xxh3_128_of(data@)),
{
    format_hash_hex(xxh3_128(data))
}

/// Streaming hasher for incremental XXH128 hashing.
pub struct Xxh3Hasher {
    inner: Xxh3,
}

impl Xxh3Hasher {
    /// The bytes hashed so far.
    pub closed spec fn consumed(&self) -> Seq<u8> {
        xxh3_consumed(self.inner)
    }

    /// Create a new streaming hasher.
    pub fn new() -> (r: Self)
        ensures
            r.consumed() == Seq::<u8>::empty(),
    {
        Xxh3Hasher { inner: xxh3_new() }
    }

    /// Update the hasher with additional data.
    pub fn update(&mut self, data: &[u8])
        ensures
            final(self).consumed() == old(self).consumed() + data@,
    {
        xxh3_update(&mut self.inner, data);
    }

    /// Finalize and return the hash as u128.
    pub fn finish(&self) -> (r: u128)
        ensures
            r == xxh3_128_of(self.consumed()),
    {
        xxh3_digest128(&self.inner)
    }

    /// Finalize and return the hash as 32-char hex string.
    pub fn finish_hex(&self) -> (r: String)
        ensures
            r@ == hash_hex(xxh3_128_of(self.consumed())),
    {
        format_hash_hex(self.finish())
    }
}

impl Default for Xxh3Hasher {
    fn default() -> (r: Self)
        ensures
            r.consumed() == Seq::<u8>::empty(),
    {
        Xxh3Hasher::new()
    }
}

pub proof fn lemma_hex_text_len(v: nat, n: nat)
    ensures
        hex_text(v, n).len() == n,
    decreases n,
{
    if n > 0 {
        lemma_hex_text_len(v / 16, (n - 1) as nat);
    }
}

/// A hash's text is 32 characters, each a lowercase hex digit.
pub proof fn lemma_hash_hex_shape(h: u128)
    ensures
        hash_hex(h).len() == 32,
        forall|i: int|
            0 <= i < 32 ==> ('0' <= #[trigger] hash_hex(h)[i] <= '9') || ('a' <= hash_hex(h)[i]
                <= 'f'),
{
    lemma_hex_text_len(h as nat, 32);
    lemma_hex_text_digits(h as nat, 32);
}

proof fn lemma_hex_text_digits(v: nat, n: nat)
    ensures
        forall|i: int|
            0 <= i < hex_text(v, n).len() ==> ('0' <= #[trigger] hex_text(v, n)[i] <= '9') || (
            'a' <= hex_text(v, n)[i] <= 'f'),
    decreases n,
{
    if n > 0 {
        lemma_hex_text_digits(v / 16, (n - 1) as nat);
        let t = hex_text(v, n);
        let d = v % 16;
        assert(t == hex_text(v / 16, (n - 1) as nat).push(hex_digit(d)));
    }
}

/// `16^n`.
pub open spec fn pow16(n: nat) -> nat
    decreases n,
{
    if n == 0 {
        1
    } else {
        16 * pow16((n - 1) as nat)
    }
}

proof fn lemma_hex_digit_injective(a: nat, b: nat)
    requires
        a < 16,
        b < 16,
        hex_digit(a) == hex_digit(b),
    ensures
        a == b,
{
}

proof fn lemma_hex_text_injective(v: nat, w: nat, n: nat)
    requires
        v < pow16(n),
        w < pow16(n),
        hex_text(v, n) == hex_text(w, n),
    ensures
        v == w,
    decreases n,
{
    if n > 0 {
        let m = (n - 1) as nat;
        let tv = hex_text(v / 16, m);
        let tw = hex_text(w / 16, m);
        assert(hex_text(v, n) == tv.push(hex_digit(v % 16)));
        assert(hex_text(w, n) == tw.push(hex_digit(w % 16)));
        lemma_hex_text_len(v / 16, m);
        lemma_hex_text_len(w / 16, m);
        assert(hex_text(v, n).drop_last() =~= tv);
        assert(hex_text(w, n).drop_last() =~= tw);
        assert(hex_text(v, n).last() == hex_digit(v % 16));
        lemma_hex_digit_injective(v % 16, w % 16);
        assert(v / 16 < pow16(m)) by (nonlinear_arith)
            requires
                v < 16 * pow16(m),
        ;
        assert(w / 16 < pow16(m)) by (nonlinear_arith)
            requires
                w < 16 * pow16(m),
        ;
        lemma_hex_text_injective(v / 16, w / 16, m);
        assert(v == 16 * (v / 16) + v % 16) by (nonlinear_arith);
        assert(w == 16 * (w / 16) + w % 16) by (nonlinear_arith);
    }
}

/// Different hashes have different texts: a hash's text gives the hash
/// back.
pub proof fn lemma_hash_hex_injective(a: u128, b: u128)
    requires
        hash_hex(a) == hash_hex(b),
    ensures
        a == b,
{
    assert(pow16(32) == 0x1_0000_0000_0000_0000_0000_0000_0000_0000nat) by {
        reveal_with_fuel(pow16, 33);
    }
    lemma_hex_text_injective(a as nat, b as nat, 32);
}

/// Hashing in steps gives what hashing the whole input at once gives: a
/// fresh hasher that consumed `a` and then `b` has consumed the bytes `a +
/// b`, so its hash is that of `a + b`.
pub proof fn lemma_incremental_hash(a: Seq<u8>, b: Seq<u8>)
    ensures
        (Seq::<u8>::empty() + a) + b == a + b,
        hash_hex(xxh3_128_of((Seq::<u8>::empty() + a) + b)) == hash_hex(xxh3_128_of(a + b)),
{
    assert((Seq::<u8>::empty() + a) + b =~= a + b);
}

} // verus!
