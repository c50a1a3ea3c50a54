//! The type id of a file: the ledger's default hash of the transaction's first input
//! and the output position.
use vstd::prelude::*;

use blake2b_ref::Blake2bBuilder;

use crate::hex::pow256;

verus! {

/// The ledger's default hash of `data`.
pub uninterp spec fn ckb_hash(data: Seq<u8>) -> Seq<u8>;

/// Relies on `blake2b_ref`: the 32-byte BLAKE2b digest of `data` under the
/// personalization `ckb-default-hash`.
#[verifier::external_body]
fn ckb_blake2b_256(data: &[u8]) -> (r: [u8; 32])
    ensures
        r@ == ckb_hash(data@),
{
    let mut blake2b = Blake2bBuilder::new(32).personal(b"ckb-default-hash").build();
    blake2b.update(data);
    let mut digest = [0u8; 32];
    blake2b.finalize(&mut digest);
    digest
}

/// The eight little-endian bytes of `v`.
pub open spec fn le_bytes_u64(v: u64) -> Seq<u8> {
    Seq::new(8, |i: int| ((v as int / pow256(i as nat)) % 256) as u8)
}

/// The eight little-endian bytes of `v`.
pub fn u64_to_le_bytes(v: u64) -> (r: Vec<u8>)
    ensures
        r@ == le_bytes_u64(v),
{
    let mut out: Vec<u8> = Vec::new();
    let mut rest: u64 = v;
    let mut i: usize = 0;
    while i < 8
        invariant
            i <= 8,
            out@.len() == i,
            rest as int == v as int / pow256(i as nat),
            forall|k: int| 0 <= k < i ==> #[trigger] out@[k] == le_bytes_u64(v)[k],
        decreases 8 - i,
    {
        out.push((rest % 256) as u8);
        proof {
            lemma_pow256_positive(i as nat);
            vstd::arithmetic::div_mod::lemma_div_denominator(v as int, pow256(i as nat), 256);
            assert(pow256((i + 1) as nat) == 256 * pow256(i as nat));
            assert(pow256(i as nat) * 256 == 256 * pow256(i as nat)) by (nonlinear_arith);
        }
        rest = rest / 256;
        i = i + 1;
    }
    assert(out@ =~= le_bytes_u64(v));
    out
}

proof fn lemma_pow256_positive(n: nat)
    ensures
        pow256(n) > 0,
    decreases n,
{
    if n > 0 {
        lemma_pow256_positive((n - 1) as nat);
    }
}

/// The type id that the first input `tx_first_input` and the output position
/// `output_index` give.
pub fn calc_type_id(tx_first_input: &[u8], output_index: usize) -> (r: [u8; 32])
    ensures
        r@ == ckb_hash(tx_first_input@ + le_bytes_u64(output_index as u64)),
{
    let mut preimage = crate::hex::slice_from(tx_first_input, 0);
    let mut index_bytes = u64_to_le_bytes(output_index as u64);
    preimage.append(&mut index_bytes);
    assert(tx_first_input@.subrange(0, tx_first_input@.len() as int) =~= tx_first_input@);
    ckb_blake2b_256(preimage.as_slice())
}

} // verus!
