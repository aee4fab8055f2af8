//! Canonical hashing.
//!
//! Every entity hashes deterministically over the canonical little-endian
//! serialization of all of its fields. The model uses 64-bit FNV-1a digests
//! in place of the 256-bit digests of a production chain: the digest is a
//! pure function of the input bytes, which is all the chain logic relies on.

use vstd::prelude::*;

verus! {

/// A content hash: the digest type every entity hashes to.
pub type HashOutput = u64;

/// FNV-1a offset basis; also the root of an empty accumulator.
pub const FNV_OFFSET_BASIS: u64 = 0xcbf2_9ce4_8422_2325;

/// FNV-1a prime.
pub const FNV_PRIME: u64 = 0x0000_0100_0000_01b3;

/// The FNV-1a digest of the first `i` bytes of `s`.
pub open spec fn fnv1a(s: Seq<u8>, i: int) -> u64
    decreases i,
{
    if i <= 0 {
        FNV_OFFSET_BASIS
    } else {
        let h = fnv1a(s, i - 1) ^ (s[i - 1] as u64);
        ((h as nat * FNV_PRIME as nat) % 0x1_0000_0000_0000_0000nat) as u64
    }
}

/// The digest of a whole byte string.
pub open spec fn digest_of(s: Seq<u8>) -> u64 {
    fnv1a(s, s.len() as int)
}

/// Compute the FNV-1a digest of a byte string.
pub fn digest(bytes: &Vec<u8>) -> (r: u64)
    ensures
        r == digest_of(bytes@),
{
    let mut h: u64 = FNV_OFFSET_BASIS;
    let mut i: usize = 0;
    while i < bytes.len()
        invariant
            i <= bytes@.len(),
            h == fnv1a(bytes@, i as int),
        decreases bytes@.len() - i,
    {
        h = (h ^ (bytes[i] as u64)).wrapping_mul(FNV_PRIME);
        i += 1;
    }
    h
}

/// The canonical little-endian bytes of a `u64`.
pub open spec fn u64_le_bytes(x: u64) -> Seq<u8> {
    Seq::new(8, |i: int| (x >> ((8 * i) as u64)) as u8)
}

/// Append the canonical bytes of `x` to `out`.
pub fn push_u64_bytes(out: &mut Vec<u8>, x: u64)
    ensures
        final(out)@ == old(out)@ + u64_le_bytes(x),
{
    let mut i: usize = 0;
    while i < 8
        invariant
            i <= 8,
            out@.len() == old(out)@.len() + i,
            out@ == old(out)@ + u64_le_bytes(x).take(i as int),
        decreases 8 - i,
    {
        let b: u8 = #[verifier::truncate] ((x >> ((8 * i) as u64)) as u8);
        out.push(b);
        proof {
            assert(out@ =~= old(out)@ + u64_le_bytes(x).take(i + 1));
        }
        i += 1;
    }
    proof {
        assert(old(out)@ + u64_le_bytes(x).take(8) =~= old(out)@ + u64_le_bytes(x));
    }
}

/// The digest of the concatenated canonical bytes of two hashes; the node
/// combinator of the accumulators.
pub open spec fn spec_hash_pair(a: u64, b: u64) -> u64 {
    digest_of(u64_le_bytes(a) + u64_le_bytes(b))
}

/// Combine two hashes.
pub fn hash_pair(a: u64, b: u64) -> (r: u64)
    ensures
        r == spec_hash_pair(a, b),
{
    let mut bytes: Vec<u8> = Vec::new();
    push_u64_bytes(&mut bytes, a);
    push_u64_bytes(&mut bytes, b);
    proof {
        assert(bytes@ =~= u64_le_bytes(a) + u64_le_bytes(b));
    }
    digest(&bytes)
}

} // verus!
