//! The 32-byte hash values the protocol commits to, and the SHA-256 digest
//! they are produced with.
use vstd::prelude::*;

verus! {

/// A 32-byte hash value: a committed leaf, a node lock hash, a preimage, a
/// transaction id, or an x-only public key.
pub type Data = [u8; 32];

/// The SHA-256 digest of a byte string. The digest itself is not spelled out:
/// it is pinned to the outside implementation by `sha256` below, and every
/// contract of this crate speaks of it only through this name.
pub uninterp spec fn sha256_of(data: Seq<u8>) -> Seq<u8>;

/// The hash of an internal tree node: the digest of the two child hashes,
/// left first.
pub open spec fn hash_pair_spec(left: Seq<u8>, right: Seq<u8>) -> Seq<u8> {
    sha256_of(left + right)
}

/// Relies on `bitcoin::hashes::sha256::Hash::hash`: the digest is a function
/// of the input bytes alone, and is 32 bytes long.
#[verifier::external_body]
pub fn sha256(data: &Vec<u8>) -> (r: Data)
    ensures
        r@ == sha256_of(data@),
{
    let digest = <bitcoin::hashes::sha256::Hash as bitcoin::hashes::Hash>::hash(data.as_slice());
    <bitcoin::hashes::sha256::Hash as bitcoin::hashes::Hash>::to_byte_array(digest)
}

/// The digest of two 32-byte values laid end to end, left first.
pub fn hash_pair(left: &Data, right: &Data) -> (r: Data)
    ensures
        r@ == hash_pair_spec(left@, right@),
{
    let mut buf: Vec<u8> = Vec::new();
    push_bytes(&mut buf, left);
    proof {
        assert(Seq::<u8>::empty() + left@ =~= left@);
    }
    push_bytes(&mut buf, right);
    sha256(&buf)
}

/// Appends a fixed-size byte value to a buffer.
pub fn push_bytes<const N: usize>(dst: &mut Vec<u8>, src: &[u8; N])
    ensures
        final(dst)@ == old(dst)@ + src@,
{
    let ghost base = dst@;
    let mut i: usize = 0;
    while i < N
        invariant
            i <= N,
            dst@ == base + src@.subrange(0, i as int),
        decreases N - i,
    {
        proof {
            assert((base + src@.subrange(0, i as int)).push(src@[i as int]) =~= base
                + src@.subrange(0, i as int + 1));
        }
        dst.push(src[i]);
        i = i + 1;
    }
    proof {
        assert(src@.subrange(0, N as int) =~= src@);
    }
}

/// Whether two 32-byte values hold the same bytes.
pub fn data_eq(a: &Data, b: &Data) -> (r: bool)
    ensures
        r == (a@ == b@),
{
    let mut i: usize = 0;
    while i < 32
        invariant
            i <= 32,
            forall|k: int| 0 <= k < i ==> a@[k] == b@[k],
        decreases 32 - i,
    {
        if a[i] != b[i] {
            return false;
        }
        i = i + 1;
    }
    proof {
        assert(a@ =~= b@);
    }
    true
}

/// A fresh all-zero 32-byte value: the sentinel standing for an unfilled
/// accumulator leaf.
pub fn empty_data() -> (r: Data)
    ensures
        r@ == empty_data_spec(),
{
    let r = [0u8; 32];
    proof {
        broadcast use vstd::array::axiom_spec_array_fill_for_copy_type;

        assert(r@ =~= empty_data_spec());
    }
    r
}

/// The 32 zero bytes standing for an unfilled leaf.
pub open spec fn empty_data_spec() -> Seq<u8> {
    Seq::new(32, |i: int| 0u8)
}

} // verus!
