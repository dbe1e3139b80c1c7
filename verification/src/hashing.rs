use vstd::prelude::*;
use crate::HashType;

verus! {

/// The SHA-256 digest of a byte sequence, named abstractly. Contracts speak of
/// this function; its concrete values come only from the executable wrapper.
pub uninterp spec fn sha256_of(data: Seq<u8>) -> Seq<u8>;

/// The parent digest of two child digests: SHA-256 over their concatenation,
/// left child first. The byte order is significant.
pub open spec fn pair_hash_spec(left: Seq<u8>, right: Seq<u8>) -> Seq<u8> {
    sha256_of(left + right)
}

/// The all-zero digest reported for an accumulator that absorbed no leaves.
pub open spec fn zero_digest() -> Seq<u8> {
    Seq::new(32, |i: int| 0u8)
}

/// Relies on ring::digest::digest with the SHA256 algorithm: the digest is
/// 32 bytes long and depends on the input bytes alone.
#[verifier::external_body]
pub(crate) fn sha256(data: &[u8]) -> (r: HashType)
    ensures
        r@ == sha256_of(data@),
{
    let digest = ring::digest::digest(&ring::digest::SHA256, data);
    let mut out = [0u8; 32];
    out.copy_from_slice(digest.as_ref());
    out
}

/// Appends the 32 bytes of a digest to `dst`.
pub(crate) fn push_digest(dst: &mut Vec<u8>, d: &HashType)
    ensures
        final(dst)@ == old(dst)@ + d@,
{
    let mut j: usize = 0;
    proof {
        assert(dst@ =~= dst@ + d@.subrange(0, 0));
    }
    while j < 32
        invariant
            j <= 32,
            dst@ == old(dst)@ + d@.subrange(0, j as int),
        decreases 32 - j,
    {
        dst.push(d[j]);
        proof {
            assert(old(dst)@ + d@.subrange(0, j as int + 1) =~= (old(dst)@ + d@.subrange(
                0,
                j as int,
            )).push(d@[j as int]));
        }
        j = j + 1;
    }
    proof {
        assert(d@.subrange(0, 32) =~= d@);
    }
}

} // verus!
