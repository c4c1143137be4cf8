//! Packed bit strings and exact bit tallies.
//!
//! A `BitString` holds `bits` logical bits, packed most-significant-bit first
//! into `ceil(bits / 8)` bytes. Only the first `bits % 8` bits of the final
//! byte are meaningful; trailing padding bits are ignored by every consumer.
use vstd::prelude::*;

verus! {

/// How many bytes a string of `bits` logical bits occupies.
pub open spec fn byte_len_of(bits: nat) -> nat {
    (bits + 7) / 8
}

/// Bit `i` of byte `b`, counting from the most significant bit down.
pub open spec fn byte_bit(b: u8, i: nat) -> bool
    recommends
        i < 8,
{
    ((b >> (((7 - i) as u8))) & 1) == 1
}

/// Logical bit `i` of a packed byte buffer, most-significant-bit first.
pub open spec fn bit_at(bytes: Seq<u8>, i: nat) -> bool
    recommends
        i < bytes.len() * 8,
{
    byte_bit(bytes[i as int / 8], i % 8)
}

/// The number of one bits among the first `n` logical bits of `bytes`.
pub open spec fn ones_upto(bytes: Seq<u8>, n: nat) -> nat
    recommends
        n <= bytes.len() * 8,
    decreases n,
{
    if n == 0 {
        0
    } else {
        ones_upto(bytes, (n - 1) as nat) + if bit_at(bytes, (n - 1) as nat) {
            1nat
        } else {
            0nat
        }
    }
}

/// A packed bit string: `bits` logical bits stored MSB-first in `bytes`.
#[derive(Clone)]
pub struct BitString {
    pub bits: usize,
    pub bytes: Vec<u8>,
}

/// Exact counts of zero and one bits over the meaningful bits of a `BitString`.
#[derive(Debug, Clone, Copy, PartialEq, Eq, Structural)]
pub struct BitTally {
    pub zeros: u64,
    pub ones: u64,
}

impl BitString {
    /// The buffer holds exactly the bytes the bit count calls for.
    pub open spec fn wf(self) -> bool {
        self.bytes@.len() == byte_len_of(self.bits as nat)
    }

    /// The number of one bits among the meaningful bits.
    pub open spec fn spec_ones(self) -> nat {
        ones_upto(self.bytes@, self.bits as nat)
    }

    pub fn storage_bytes(&self) -> (r: usize)
        ensures
            r == self.bytes@.len(),
    {
        self.bytes.len()
    }

    /// Count the zero and one bits among exactly the first `bits` logical bits.
    pub fn count_bits(&self) -> (t: BitTally)
        requires
            self.wf(),
        ensures
            t.ones == self.spec_ones(),
            t.zeros + t.ones == self.bits,
    {
        let mut ones: u64 = 0;
        let mut i: usize = 0;
        proof {
            assert(self.bits <= self.bytes@.len() * 8);
        }
        while i < self.bits
            invariant
                self.wf(),
                i <= self.bits,
                self.bits <= self.bytes@.len() * 8,
                ones == ones_upto(self.bytes@, i as nat),
                ones <= i,
            decreases self.bits - i,
        {
            let byte_idx = i / 8;
            let bit_idx = i % 8;
            proof {
                assert(byte_idx < self.bytes@.len()) by (nonlinear_arith)
                    requires
                        byte_idx == i / 8,
                        i < self.bytes@.len() * 8,
                ;
            }
            let b = self.bytes[byte_idx];
            let sh: u8 = (7 - bit_idx) as u8;
            if ((b >> sh) & 1) == 1 {
                ones = ones + 1;
            }
            proof {
                assert(bit_at(self.bytes@, i as nat) == (((b >> sh) & 1) == 1));
            }
            i = i + 1;
        }
        let zeros = (self.bits as u64) - ones;
        BitTally { ones, zeros }
    }
}

} // verus!
