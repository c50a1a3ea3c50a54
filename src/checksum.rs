//! The resumable Adler-32 checksum engine.
use vstd::prelude::*;
use vstd::arithmetic::div_mod::{
    lemma_add_mod_noop,
    lemma_add_mod_noop_right,
    lemma_mod_bound,
    lemma_mul_mod_noop_right,
};

use vstd::string::StringSliceAdditionalSpecFns;

use crate::hasher_error::CKBFSError;
use crate::hex::{hex_decodable, hex_decode_bytes, hex_decoded, strip_prefix_0x, without_0x};

verus! {

/// The Adler-32 modulus.
pub open spec fn adler_mod() -> int {
    65521
}

/// Sum of the bytes of `s`.
pub open spec fn byte_sum(s: Seq<u8>) -> int
    decreases s.len(),
{
    if s.len() == 0 {
        0
    } else {
        byte_sum(s.drop_last()) + s.last()
    }
}

/// Sum of the bytes of `s`, the `i`-th one counted `s.len() - i` times.
pub open spec fn weighted_sum(s: Seq<u8>) -> int
    decreases s.len(),
{
    if s.len() == 0 {
        0
    } else {
        weighted_sum(s.drop_last()) + byte_sum(s)
    }
}

/// The low half `a` of an Adler-32 accumulator after feeding `data` from `a`.
pub open spec fn feed_a(a: int, data: Seq<u8>) -> int {
    (a + byte_sum(data)) % adler_mod()
}

/// The high half `b` of an Adler-32 accumulator after feeding `data` from `(a, b)`.
pub open spec fn feed_b(a: int, b: int, data: Seq<u8>) -> int {
    (b + data.len() * a + weighted_sum(data)) % adler_mod()
}

/// The checksum obtained by resuming from `prior` (its low 16 bits are `a`, its high
/// 16 bits `b`) and feeding `data`.
pub open spec fn resumed_checksum(prior: u32, data: Seq<u8>) -> u32 {
    let a = prior as int % 0x10000;
    let b = prior as int / 0x10000;
    (feed_b(a, b, data) * 0x10000 + feed_a(a, data)) as u32
}

/// The Adler-32 checksum of `data`: the fresh accumulator is `a = 1, b = 0`.
pub open spec fn adler32(data: Seq<u8>) -> u32 {
    resumed_checksum(1, data)
}

/// Relies on `adler::adler32_slice`: the Adler-32 checksum of the slice.
#[verifier::external_body]
fn adler32_slice_of(data: &[u8]) -> (r: u32)
    ensures
        r == adler32(data@),
{
    adler::adler32_slice(data)
}

/// Relies on `adler::Adler32::from_checksum`, `write_slice` and `checksum`: the
/// accumulator rebuilt from `prior` (`a` its low half, `b` its high half), fed `data`
/// with every sum reduced modulo 65521, and packed back as `b << 16 | a`.
#[verifier::external_body]
fn adler32_resume_write(prior: u32, data: &[u8]) -> (r: u32)
    ensures
        r == resumed_checksum(prior, data@),
{
    let mut state = adler::Adler32::from_checksum(prior);
    state.write_slice(data);
    state.checksum()
}

/// An Adler-32 accumulator; the `u32` it holds is its packed `(a, b)` pair.
#[derive(Debug, Clone, Copy, PartialEq, Eq, Structural)]
pub struct ChecksumState {
    sum: u32,
}

impl View for ChecksumState {
    type V = u32;

    closed spec fn view(&self) -> u32 {
        self.sum
    }
}

impl ChecksumState {
    /// The accumulator before any byte: `a = 1, b = 0`.
    pub fn fresh() -> (r: ChecksumState)
        ensures
            r@ == 1,
    {
        ChecksumState { sum: 1 }
    }

    /// Feeds `data` into the accumulator.
    pub fn write_slice(&mut self, data: &[u8])
        ensures
            final(self)@ == resumed_checksum(old(self)@, data@),
    {
        self.sum = adler32_resume_write(self.sum, data);
    }

    /// The checksum of what the accumulator has been fed.
    pub fn checksum(&self) -> (r: u32)
        ensures
            r == self@,
    {
        self.sum
    }
}

/// The Adler-32 checksum of `raw_content`.
pub fn checksum(raw_content: &[u8]) -> (r: u32)
    ensures
        r == adler32(raw_content@),
{
    adler32_slice_of(raw_content)
}

/// The checksum of `data` fed after the content that produced `prior`.
pub fn checksum_resumed(prior: u32, data: &[u8]) -> (r: u32)
    ensures
        r == resumed_checksum(prior, data@),
{
    let mut state = recover_from_checksum(prior);
    state.write_slice(data);
    state.checksum()
}

/// Rebuilds the accumulator that produced `hash_u32`.
pub fn recover_from_checksum(hash_u32: u32) -> (r: ChecksumState)
    ensures
        r@ == hash_u32,
{
    ChecksumState { sum: hash_u32 }
}

/// The little-endian value of four bytes.
pub open spec fn le_u32(b: Seq<u8>) -> int {
    b[0] + b[1] * 0x100 + b[2] * 0x10000 + b[3] * 0x1000000
}

/// Reads a little-endian `u32` from `b[offset..offset + 4]`.
pub fn read_le_u32(b: &[u8], offset: usize) -> (r: u32)
    requires
        offset + 4 <= b@.len(),
    ensures
        r == le_u32(b@.subrange(offset as int, offset + 4)),
{
    let b0 = b[offset] as u32;
    let b1 = b[offset + 1] as u32;
    let b2 = b[offset + 2] as u32;
    let b3 = b[offset + 3] as u32;
    b0 + b1 * 0x100 + b2 * 0x10000 + b3 * 0x1000000
}

/// Rebuilds the accumulator from a checksum written as four little-endian bytes.
pub fn recover(raw_hash: &[u8]) -> (r: Result<ChecksumState, CKBFSError>)
    ensures
        raw_hash@.len() == 4 ==> r is Ok && r->Ok_0@ == le_u32(raw_hash@),
        raw_hash@.len() != 4 ==> r == Err::<ChecksumState, CKBFSError>(CKBFSError::Unknown),
{
    if raw_hash.len() != 4 {
        return Err(CKBFSError::Unknown);
    }
    let v = read_le_u32(raw_hash, 0);
    assert(raw_hash@.subrange(0, 4) =~= raw_hash@);
    Ok(recover_from_checksum(v))
}

/// Rebuilds the accumulator from a checksum written as text: an optional `0x`, then
/// the hex digits of its four little-endian bytes.
pub fn recover_from_checksum_str(hash_str: &str) -> (r: Result<ChecksumState, CKBFSError>)
    ensures
        hex_decodable(without_0x(hash_str.spec_bytes()), 4) ==> r is Ok && r->Ok_0@ == le_u32(
            hex_decoded(without_0x(hash_str.spec_bytes()), 4),
        ),
        !hex_decodable(without_0x(hash_str.spec_bytes()), 4) ==> r == Err::<ChecksumState, CKBFSError>(
            CKBFSError::Encoding,
        ),
{
    let digits = strip_prefix_0x(hash_str);
    match hex_decode_bytes(digits.as_bytes(), 4) {
        Some(hash_bytes) => recover(hash_bytes.as_slice()),
        None => Err(CKBFSError::Encoding),
    }
}

/// Whether `raw_content` has the Adler-32 checksum `checksum_`.
pub fn validate(raw_content: &[u8], checksum_: u32) -> (r: bool)
    ensures
        r == (adler32(raw_content@) == checksum_),
{
    let target_checksum = checksum(raw_content);
    target_checksum == checksum_
}

proof fn lemma_byte_sum_concat(a: Seq<u8>, b: Seq<u8>)
    ensures
        byte_sum(a + b) == byte_sum(a) + byte_sum(b),
    decreases b.len(),
{
    if b.len() == 0 {
        assert(a + b =~= a);
    } else {
        assert((a + b).drop_last() =~= a + b.drop_last());
        lemma_byte_sum_concat(a, b.drop_last());
    }
}

proof fn lemma_weighted_sum_concat(a: Seq<u8>, b: Seq<u8>)
    ensures
        weighted_sum(a + b) == weighted_sum(a) + b.len() * byte_sum(a) + weighted_sum(b),
    decreases b.len(),
{
    if b.len() == 0 {
        assert(a + b =~= a);
    } else {
        assert((a + b).drop_last() =~= a + b.drop_last());
        lemma_weighted_sum_concat(a, b.drop_last());
        lemma_byte_sum_concat(a, b);
        lemma_byte_sum_concat(a, b.drop_last());
        let m = b.len() as int;
        assert(m * byte_sum(a) == (m - 1) * byte_sum(a) + byte_sum(a)) by (nonlinear_arith);
    }
}

proof fn lemma_unpack(a: int, b: int)
    requires
        0 <= a < 0x10000,
        0 <= b < 0x10000,
    ensures
        (b * 0x10000 + a) % 0x10000 == a,
        (b * 0x10000 + a) / 0x10000 == b,
        0 <= b * 0x10000 + a < 0x1_0000_0000,
{
    assert((b * 0x10000 + a) % 0x10000 == a) by (nonlinear_arith)
        requires
            0 <= a < 0x10000,
            0 <= b < 0x10000,
    ;
    assert((b * 0x10000 + a) / 0x10000 == b) by (nonlinear_arith)
        requires
            0 <= a < 0x10000,
            0 <= b < 0x10000,
    ;
    assert(0 <= b * 0x10000 + a < 0x1_0000_0000) by (nonlinear_arith)
        requires
            0 <= a < 0x10000,
            0 <= b < 0x10000,
    ;
}

/// Resuming from the checksum of `a` and feeding `b` gives the checksum of `a`
/// followed by `b`.
pub proof fn lemma_resume_correct(a: Seq<u8>, b: Seq<u8>)
    ensures
        resumed_checksum(adler32(a), b) == adler32(a + b),
{
    let m = adler_mod();
    let a1 = feed_a(1, a);
    let b1 = feed_b(1, 0, a);
    lemma_mod_bound(1 + byte_sum(a), m);
    lemma_mod_bound(0 + a.len() * 1 + weighted_sum(a), m);
    lemma_unpack(a1, b1);
    let c = adler32(a);
    assert(c as int == b1 * 0x10000 + a1);
    assert(c as int % 0x10000 == a1);
    assert(c as int / 0x10000 == b1);
    lemma_byte_sum_concat(a, b);
    lemma_weighted_sum_concat(a, b);
    let n = a.len() as int;
    let k = b.len() as int;
    // the low half
    lemma_add_mod_noop_right(byte_sum(b), 1 + byte_sum(a), m);
    assert(feed_a(a1, b) == feed_a(1, a + b));
    // the high half
    let p = n + weighted_sum(a);
    let q = 1 + byte_sum(a);
    let r = p + weighted_sum(b);
    assert(b1 == p % m);
    assert(a1 == q % m);
    lemma_mul_mod_noop_right(k, q, m);
    lemma_add_mod_noop(k * a1, r, m);
    lemma_add_mod_noop(k * q, r, m);
    assert((k * a1 + r) % m == (k * q + r) % m);
    lemma_add_mod_noop_right(k * a1 + weighted_sum(b), p, m);
    assert(feed_b(a1, b1, b) == (k * a1 + r) % m);
    assert(k * (1 + byte_sum(a)) == k + k * byte_sum(a)) by (nonlinear_arith);
    assert(feed_b(1, 0, a + b) == (n + k + weighted_sum(a) + k * byte_sum(a) + weighted_sum(b)) % m);
    assert(feed_b(a1, b1, b) == feed_b(1, 0, a + b));
    lemma_mod_bound(1 + byte_sum(a + b), m);
    lemma_mod_bound(0 + (a + b).len() * 1 + weighted_sum(a + b), m);
    lemma_mod_bound(b1 + k * a1 + weighted_sum(b), m);
    lemma_mod_bound(a1 + byte_sum(b), m);
}

} // verus!
