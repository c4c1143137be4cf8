//! Seed derivation: fixed-length keying material from a master seed and a
//! textual domain label.
//!
//! Feeding the label, the big-endian encoding of the requested length, and
//! then the seed into an extendable-output hash binds all three into the
//! result, so distinct labels (domain separation) or distinct lengths never
//! collide with one another on the same seed.
use crate::endian::be_bytes_of_u64;
use vstd::prelude::*;

verus! {

/// The keying material derived from a seed, a domain label and a requested
/// length. A pure function of its arguments: the same inputs always give the
/// same bytes, on every machine.
pub uninterp spec fn derive_of(seed: Seq<u8>, label: Seq<char>, length: nat) -> Seq<u8>;

/// Derive `length` bytes of keying material from `seed` under `label`.
///
/// Relies on `blake3::Hasher`: `update` calls concatenate their inputs, and
/// `finalize_xof` yields an extendable output stream that is a pure function
/// of the bytes hashed; `OutputReader::fill` fills the whole buffer, so a
/// short read cannot occur.
#[verifier::external_body]
pub(crate) fn derive_material(seed: &[u8], label: &str, length: usize) -> (r: Vec<u8>)
    ensures
        r@.len() == length,
        r@ == derive_of(seed@, label@, length as nat),
{
    let mut hasher = blake3::Hasher::new();
    hasher.update(label.as_bytes());
    hasher.update(&(length as u64).to_be_bytes());
    hasher.update(seed);
    let mut reader = hasher.finalize_xof();
    let mut out = vec![0u8; length];
    reader.fill(&mut out);
    out
}

/// Derive a single key-sized (32-byte) value from `seed` under `label`.
pub fn derive_seed(seed: &[u8], label: &str) -> (r: Vec<u8>)
    ensures
        r@.len() == 32,
        r@ == derive_of(seed@, label@, 32),
{
    derive_material(seed, label, 32)
}

/// Build the deterministic per-trial seed `base || be64(run) || be64(bits)`,
/// so that re-running a benchmark with the same constants reproduces the
/// identical trial seeds.
pub fn make_seed(base: &[u8], run: usize, bits: usize) -> (r: Vec<u8>)
    requires
        base@.len() + 16 <= usize::MAX,
    ensures
        r@ == base@ + be_bytes_of_u64(run as u64) + be_bytes_of_u64(bits as u64),
{
    let mut r: Vec<u8> = Vec::new();
    let mut i: usize = 0;
    while i < base.len()
        invariant
            i <= base@.len(),
            r@ == base@.subrange(0, i as int),
        decreases base@.len() - i,
    {
        r.push(base[i]);
        i = i + 1;
    }
    proof {
        assert(r@ =~= base@);
    }
    let mut run_bytes = crate::endian::u64_to_be_bytes(run as u64);
    let mut bits_bytes = crate::endian::u64_to_be_bytes(bits as u64);
    r.append(&mut run_bytes);
    r.append(&mut bits_bytes);
    r
}

} // verus!
