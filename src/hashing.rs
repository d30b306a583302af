//! SHA-256 and the reduction of a digest to a scalar, the hash `H` of both schemes.
use crate::curve::{be_nat, group_order, Scalar};
use sha2::Digest;
use vstd::prelude::*;

verus! {

/// The SHA-256 digest of a byte string.
pub uninterp spec fn sha256_of(data: Seq<u8>) -> Seq<u8>;

/// Relies on sha2's `Sha256::digest`: the SHA-256 digest of `data`.
#[verifier::external_body]
fn sha256(data: &[u8]) -> (r: [u8; 32])
    ensures
        r@ == sha256_of(data@),
{
    sha2::Sha256::digest(data).into()
}

/// `H(data)`: the SHA-256 digest read as a big-endian number and reduced
/// modulo the group order.
pub open spec fn hash_value(data: Seq<u8>) -> nat {
    be_nat(sha256_of(data)) % group_order()
}

/// `H(data)` as a scalar.
pub fn hash_to_scalar(data: &[u8]) -> (r: Scalar)
    ensures
        r@ == hash_value(data@),
{
    let digest = sha256(data);
    Scalar::from_bytes_reduced(digest)
}

/// Appends `data` to `buf`.
pub fn append_bytes(buf: &mut Vec<u8>, data: &[u8])
    ensures
        final(buf)@ == old(buf)@ + data@,
{
    let ghost start = buf@;
    let mut i: usize = 0;
    while i < data.len()
        invariant
            i <= data@.len(),
            buf@ == start + data@.subrange(0, i as int),
        decreases data@.len() - i,
    {
        buf.push(data[i]);
        i = i + 1;
        assert(buf@ =~= start + data@.subrange(0, i as int));
    }
    assert(data@.subrange(0, data@.len() as int) =~= data@);
}

} // verus!
