//! Big-endian encodings used for counters and length binding.
use vstd::prelude::*;

verus! {

/// The eight bytes of `x`, most significant first.
pub open spec fn be_bytes_of_u64(x: u64) -> Seq<u8> {
    seq![
        ((x >> 56) & 0xff) as u8,
        ((x >> 48) & 0xff) as u8,
        ((x >> 40) & 0xff) as u8,
        ((x >> 32) & 0xff) as u8,
        ((x >> 24) & 0xff) as u8,
        ((x >> 16) & 0xff) as u8,
        ((x >> 8) & 0xff) as u8,
        (x & 0xff) as u8,
    ]
}

/// The value of sixteen bytes read most significant first.
pub open spec fn be_u128_of_bytes(s: Seq<u8>) -> u128
    recommends
        s.len() == 16,
{
    ((s[0] as u128) << 120) | ((s[1] as u128) << 112) | ((s[2] as u128) << 104) | ((s[3] as u128)
        << 96) | ((s[4] as u128) << 88) | ((s[5] as u128) << 80) | ((s[6] as u128) << 72) | ((
    s[7] as u128) << 64) | ((s[8] as u128) << 56) | ((s[9] as u128) << 48) | ((s[10] as u128)
        << 40) | ((s[11] as u128) << 32) | ((s[12] as u128) << 24) | ((s[13] as u128) << 16) | ((
    s[14] as u128) << 8) | (s[15] as u128)
}

/// Encode `x` as eight big-endian bytes.
pub fn u64_to_be_bytes(x: u64) -> (r: Vec<u8>)
    ensures
        r@ == be_bytes_of_u64(x),
{
    let mut r: Vec<u8> = Vec::new();
    r.push(((x >> 56) & 0xff) as u8);
    r.push(((x >> 48) & 0xff) as u8);
    r.push(((x >> 40) & 0xff) as u8);
    r.push(((x >> 32) & 0xff) as u8);
    r.push(((x >> 24) & 0xff) as u8);
    r.push(((x >> 16) & 0xff) as u8);
    r.push(((x >> 8) & 0xff) as u8);
    r.push((x & 0xff) as u8);
    proof {
        assert(r@ =~= be_bytes_of_u64(x));
    }
    r
}

/// Read the sixteen bytes at `off` as one big-endian value.
pub fn u128_from_be_at(v: &Vec<u8>, off: usize) -> (r: u128)
    requires
        off + 16 <= v@.len(),
    ensures
        r == be_u128_of_bytes(v@.subrange(off as int, off as int + 16)),
{
    let n = v.len();
    assert(off + 16 <= n);
    let r = ((v[off] as u128) << 120) | ((v[off + 1] as u128) << 112) | ((v[off + 2] as u128)
        << 104) | ((v[off + 3] as u128) << 96) | ((v[off + 4] as u128) << 88) | ((v[off
        + 5] as u128) << 80) | ((v[off + 6] as u128) << 72) | ((v[off + 7] as u128) << 64) | ((v[off
        + 8] as u128) << 56) | ((v[off + 9] as u128) << 48) | ((v[off + 10] as u128) << 40) | ((
    v[off + 11] as u128) << 32) | ((v[off + 12] as u128) << 24) | ((v[off + 13] as u128) << 16) | ((
    v[off + 14] as u128) << 8) | (v[off + 15] as u128);
    proof {
        let s = v@.subrange(off as int, off as int + 16);
        assert(forall|k: int| 0 <= k < 16 ==> s[k] == v@[off + k]);
    }
    r
}

} // verus!
