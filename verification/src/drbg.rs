//! The three deterministic bit generators.
//!
//! Each generator derives its keying material from a caller-supplied master
//! seed under its own domain label, and produces packed bit strings through a
//! uniform `generate_bits` / `reseed` interface. The contracts pin every
//! output buffer down as a pure function of the generator's model state, so
//! determinism and keystream non-repetition are stated and proved rather than
//! assumed.
use crate::bits::{byte_len_of, BitString};
use crate::derive::{derive_material, derive_of, derive_seed};
use crate::endian::{be_bytes_of_u64, be_u128_of_bytes, u128_from_be_at, u64_to_be_bytes};
use ctr::cipher::{KeyIvInit, StreamCipher};
use rand_core::{RngCore, SeedableRng};
use vstd::prelude::*;

verus! {

/// The uniform generator interface: a fixed display name, full
/// reinitialization from a new seed, and bit-string generation.
pub trait Drbg {
    /// The generator's fixed display name, distinct for each variant.
    fn name(&self) -> (r: &'static str);

    /// Rebuild the generator's entire state from a new master seed; nothing
    /// of the prior state is carried over.
    fn reseed(&mut self, seed: &[u8]);

    /// Produce exactly `ceil(bits / 8)` bytes of output, tagged with the
    /// requested bit count.
    fn generate_bits(&mut self, bits: usize) -> (r: BitString)
        requires
            bits <= usize::MAX - 7,
        ensures
            r.bits == bits,
            r.wf(),
    ;
}

// ---------------------------------------------------------------------------
// Stream-cipher generator
// ---------------------------------------------------------------------------
#[verifier::external_type_specification]
#[verifier::external_body]
pub struct ExChaCha20Rng(rand_chacha::ChaCha20Rng);

/// The 32-byte seed a `ChaCha20Rng` was built from.
pub uninterp spec fn chacha_seed_of(rng: rand_chacha::ChaCha20Rng) -> Seq<u8>;

/// Where a `ChaCha20Rng` stands in its output stream (abstract: the unit is
/// implementation-defined, but the position after a fill depends only on the
/// position before it and the number of bytes drawn).
pub uninterp spec fn chacha_pos_of(rng: rand_chacha::ChaCha20Rng) -> nat;

/// The `n` bytes a `ChaCha20Rng` hands out from position `pos` of the stream
/// determined by `seed`. A pure function of its arguments: the stream cipher
/// is deterministic and portable.
pub uninterp spec fn chacha_out(seed: Seq<u8>, pos: nat, n: nat) -> Seq<u8>;

/// The stream position after drawing `n` bytes from position `pos`.
pub uninterp spec fn chacha_advance(pos: nat, n: nat) -> nat;

/// Relies on `rand_chacha::ChaCha20Rng::from_seed`: a fresh generator whose
/// output stream is determined by the 32-byte seed alone, standing at the
/// start of that stream.
#[verifier::external_body]
fn chacha_from_seed(key: &Vec<u8>) -> (r: rand_chacha::ChaCha20Rng)
    requires
        key@.len() == 32,
    ensures
        chacha_seed_of(r) == key@,
        chacha_pos_of(r) == 0,
{
    let seed: [u8; 32] = key.as_slice().try_into().unwrap();
    rand_chacha::ChaCha20Rng::from_seed(seed)
}

/// Relies on `rand_core::RngCore::fill_bytes` for `ChaCha20Rng`: fills the
/// buffer with the next bytes of the generator's deterministic stream; which
/// bytes come, and where the stream then stands, depend only on the seed, the
/// prior position and the number of bytes requested.
#[verifier::external_body]
fn chacha_fill(rng: &mut rand_chacha::ChaCha20Rng, n: usize) -> (r: Vec<u8>)
    ensures
        r@.len() == n,
        r@ == chacha_out(chacha_seed_of(*old(rng)), chacha_pos_of(*old(rng)), n as nat),
        chacha_seed_of(*final(rng)) == chacha_seed_of(*old(rng)),
        chacha_pos_of(*final(rng)) == chacha_advance(chacha_pos_of(*old(rng)), n as nat),
{
    let mut buf = vec![0u8; n];
    rng.fill_bytes(&mut buf);
    buf
}

/// A generator drawing its output directly from a seedable stream cipher.
pub struct ChaCha20Drbg {
    rng: rand_chacha::ChaCha20Rng,
}

impl ChaCha20Drbg {
    /// The 32-byte value the stream is keyed with.
    pub closed spec fn seed_model(self) -> Seq<u8> {
        chacha_seed_of(self.rng)
    }

    /// The generator's position in its output stream.
    pub closed spec fn pos_model(self) -> nat {
        chacha_pos_of(self.rng)
    }

    pub fn new(seed: &[u8]) -> (r: Self)
        ensures
            r.seed_model() == derive_of(seed@, "chacha20-drbg"@, 32),
            r.pos_model() == 0,
    {
        let derived = derive_seed(seed, "chacha20-drbg");
        ChaCha20Drbg { rng: chacha_from_seed(&derived) }
    }
}

impl Drbg for ChaCha20Drbg {
    fn name(&self) -> (r: &'static str)
        ensures
            r@ == "ChaCha20 DRBG"@,
    {
        "ChaCha20 DRBG"
    }

    fn reseed(&mut self, seed: &[u8])
        ensures
            final(self).seed_model() == derive_of(seed@, "chacha20-drbg"@, 32),
            final(self).pos_model() == 0,
    {
        *self = ChaCha20Drbg::new(seed);
    }

    fn generate_bits(&mut self, bits: usize) -> (r: BitString)
        ensures
            r.bytes@ == chacha_out(
                old(self).seed_model(),
                old(self).pos_model(),
                byte_len_of(bits as nat),
            ),
            final(self).seed_model() == old(self).seed_model(),
            final(self).pos_model() == chacha_advance(
                old(self).pos_model(),
                byte_len_of(bits as nat),
            ),
    {
        let byte_len = (bits + 7) / 8;
        let bytes = chacha_fill(&mut self.rng, byte_len);
        BitString { bits, bytes }
    }
}

// ---------------------------------------------------------------------------
// Block-cipher-counter-mode generator
// ---------------------------------------------------------------------------
/// The counter blocks one generate call needs for `bits` bits of output.
pub open spec fn blocks_of_bits(bits: nat) -> nat {
    (byte_len_of(bits) + 15) / 16
}

/// The `n` keystream bytes AES-256 in counter mode produces under `key`,
/// starting from the counter block `counter`. A pure function of its
/// arguments.
pub uninterp spec fn ctr_keystream(key: Seq<u8>, counter: u128, n: nat) -> Seq<u8>;

/// Relies on `ctr::Ctr128BE<aes::Aes256>` (`KeyIvInit::new`,
/// `StreamCipher::apply_keystream`): applying the keystream to an all-zero
/// buffer yields the raw keystream, determined by the 32-byte key and the
/// big-endian initial counter block alone.
#[verifier::external_body]
fn aes_ctr_fill(key: &Vec<u8>, counter: u128, n: usize) -> (r: Vec<u8>)
    requires
        key@.len() == 32,
    ensures
        r@.len() == n,
        r@ == ctr_keystream(key@, counter, n as nat),
{
    let key_arr: &[u8; 32] = key.as_slice().try_into().unwrap();
    let nonce = counter.to_be_bytes();
    let mut cipher = ctr::Ctr128BE::<aes::Aes256>::new(key_arr.into(), &nonce.into());
    let mut buf = vec![0u8; n];
    cipher.apply_keystream(&mut buf);
    buf
}

/// A generator running a block cipher in counter mode: a fixed key and a
/// counter that advances past every consumed block, so no two calls between
/// reseeds encrypt the same counter block (short of 128-bit wraparound).
pub struct AesCtrDrbg {
    key: Vec<u8>,
    counter: u128,
}

impl AesCtrDrbg {
    /// The 32-byte cipher key.
    pub closed spec fn key_model(self) -> Seq<u8> {
        self.key@
    }

    /// The next counter block to be consumed.
    pub closed spec fn counter_model(self) -> u128 {
        self.counter
    }

    #[verifier::type_invariant]
    spec fn inv(self) -> bool {
        self.key@.len() == 32
    }

    pub fn new(seed: &[u8]) -> (r: Self)
        ensures
            r.key_model() == derive_of(seed@, "aes-ctr-drbg"@, 48).subrange(0, 32),
            r.counter_model() == be_u128_of_bytes(
                derive_of(seed@, "aes-ctr-drbg"@, 48).subrange(32, 48),
            ),
    {
        let material = derive_material(seed, "aes-ctr-drbg", 48);
        let mut key: Vec<u8> = Vec::new();
        let mut i: usize = 0;
        while i < 32
            invariant
                i <= 32,
                material@.len() == 48,
                key@ == material@.subrange(0, i as int),
            decreases 32 - i,
        {
            key.push(material[i]);
            proof {
                assert(material@.subrange(0, i as int).push(material@[i as int]) =~= material@
                    .subrange(0, i as int + 1));
            }
            i = i + 1;
        }
        let counter = u128_from_be_at(&material, 32);
        AesCtrDrbg { key, counter }
    }
}

impl Drbg for AesCtrDrbg {
    fn name(&self) -> (r: &'static str)
        ensures
            r@ == "AES-256-CTR DRBG"@,
    {
        "AES-256-CTR DRBG"
    }

    fn reseed(&mut self, seed: &[u8])
        ensures
            final(self).key_model() == derive_of(seed@, "aes-ctr-drbg"@, 48).subrange(0, 32),
            final(self).counter_model() == be_u128_of_bytes(
                derive_of(seed@, "aes-ctr-drbg"@, 48).subrange(32, 48),
            ),
    {
        *self = AesCtrDrbg::new(seed);
    }

    fn generate_bits(&mut self, bits: usize) -> (r: BitString)
        ensures
            r.bytes@ == ctr_keystream(
                old(self).key_model(),
                old(self).counter_model(),
                byte_len_of(bits as nat),
            ),
            final(self).key_model() == old(self).key_model(),
            final(self).counter_model() == vstd::wrapping::u128_specs::wrapping_add(
                old(self).counter_model(),
                blocks_of_bits(bits as nat) as u128,
            ),
    {
        proof {
            use_type_invariant(&*self);
        }
        let byte_len = (bits + 7) / 8;
        let bytes = aes_ctr_fill(&self.key, self.counter, byte_len);
        proof {
            vstd::arithmetic::div_mod::lemma_div_is_ordered(
                bits + 7,
                usize::MAX as int,
                8,
            );
        }
        let blocks = (byte_len + 15) / 16;
        self.counter = self.counter.wrapping_add(blocks as u128);
        BitString { bits, bytes }
    }
}

// ---------------------------------------------------------------------------
// Keyed-XOF generator
// ---------------------------------------------------------------------------
/// The `n` bytes of extendable output of the keyed hash under `key` applied
/// to `msg`. A pure function of its arguments.
pub uninterp spec fn xof_out(key: Seq<u8>, msg: Seq<u8>, n: nat) -> Seq<u8>;

/// Relies on `blake3::Hasher::new_keyed` and `finalize_xof`: the extendable
/// output is a pure function of the 32-byte key and the hashed message, and
/// `OutputReader::fill` fills the whole buffer, so a short read cannot occur.
#[verifier::external_body]
fn blake3_keyed_xof(key: &Vec<u8>, msg: &Vec<u8>, n: usize) -> (r: Vec<u8>)
    requires
        key@.len() == 32,
    ensures
        r@.len() == n,
        r@ == xof_out(key@, msg@, n as nat),
{
    let key_arr: &[u8; 32] = key.as_slice().try_into().unwrap();
    let mut hasher = blake3::Hasher::new_keyed(key_arr);
    hasher.update(msg.as_slice());
    let mut reader = hasher.finalize_xof();
    let mut out = vec![0u8; n];
    reader.fill(&mut out);
    out
}

/// A generator reading each output buffer from a keyed extendable-output
/// hash, fed the big-endian call counter so no two calls between reseeds hash
/// the same input (short of 64-bit wraparound).
pub struct Blake3XofDrbg {
    key: Vec<u8>,
    counter: u64,
}

impl Blake3XofDrbg {
    /// The 32-byte hash key.
    pub closed spec fn key_model(self) -> Seq<u8> {
        self.key@
    }

    /// The call counter mixed into the next output.
    pub closed spec fn counter_model(self) -> u64 {
        self.counter
    }

    #[verifier::type_invariant]
    spec fn inv(self) -> bool {
        self.key@.len() == 32
    }

    pub fn new(seed: &[u8]) -> (r: Self)
        ensures
            r.key_model() == derive_of(seed@, "blake3-xof-drbg"@, 32),
            r.counter_model() == 0,
    {
        let key = derive_seed(seed, "blake3-xof-drbg");
        Blake3XofDrbg { key, counter: 0 }
    }
}

impl Drbg for Blake3XofDrbg {
    fn name(&self) -> (r: &'static str)
        ensures
            r@ == "BLAKE3 XOF DRBG"@,
    {
        "BLAKE3 XOF DRBG"
    }

    fn reseed(&mut self, seed: &[u8])
        ensures
            final(self).key_model() == derive_of(seed@, "blake3-xof-drbg"@, 32),
            final(self).counter_model() == 0,
    {
        *self = Blake3XofDrbg::new(seed);
    }

    fn generate_bits(&mut self, bits: usize) -> (r: BitString)
        ensures
            r.bytes@ == xof_out(
                old(self).key_model(),
                be_bytes_of_u64(old(self).counter_model()),
                byte_len_of(bits as nat),
            ),
            final(self).key_model() == old(self).key_model(),
            final(self).counter_model() == vstd::wrapping::u64_specs::wrapping_add(
                old(self).counter_model(),
                1,
            ),
    {
        proof {
            use_type_invariant(&*self);
        }
        let byte_len = (bits + 7) / 8;
        let msg = u64_to_be_bytes(self.counter);
        let bytes = blake3_keyed_xof(&self.key, &msg, byte_len);
        self.counter = self.counter.wrapping_add(1);
        BitString { bits, bytes }
    }
}

// ---------------------------------------------------------------------------
// Determinism and non-repetition
// ---------------------------------------------------------------------------
/// Determinism of the stream-cipher generator: two generators whose model
/// state (stream seed and position) agrees return identical bytes for the
/// same request and agree in state again afterwards. Constructing or
/// reseeding from equal seeds establishes equal model state, so by induction
/// equal seeds and equal request sequences yield byte-identical outputs.
pub proof fn lemma_chacha_deterministic(a: ChaCha20Drbg, b: ChaCha20Drbg, n: nat)
    requires
        a.seed_model() == b.seed_model(),
        a.pos_model() == b.pos_model(),
    ensures
        chacha_out(a.seed_model(), a.pos_model(), n) == chacha_out(
            b.seed_model(),
            b.pos_model(),
            n,
        ),
        chacha_advance(a.pos_model(), n) == chacha_advance(b.pos_model(), n),
{
}

/// Determinism of the counter-mode generator, as for the stream-cipher one:
/// equal keys and counters give equal keystream and advance equally.
pub proof fn lemma_ctr_deterministic(a: AesCtrDrbg, b: AesCtrDrbg, n: nat)
    requires
        a.key_model() == b.key_model(),
        a.counter_model() == b.counter_model(),
    ensures
        ctr_keystream(a.key_model(), a.counter_model(), n) == ctr_keystream(
            b.key_model(),
            b.counter_model(),
            n,
        ),
{
}

/// Determinism of the keyed-XOF generator: equal keys and call counters give
/// equal output buffers.
pub proof fn lemma_xof_deterministic(a: Blake3XofDrbg, b: Blake3XofDrbg, n: nat)
    requires
        a.key_model() == b.key_model(),
        a.counter_model() == b.counter_model(),
    ensures
        xof_out(a.key_model(), be_bytes_of_u64(a.counter_model()), n) == xof_out(
            b.key_model(),
            be_bytes_of_u64(b.counter_model()),
            n,
        ),
{
}

/// The counter blocks a counter-mode generate call consumes: the
/// `blocks_of_bits(bits)` blocks starting at the call's initial counter.
pub open spec fn ctr_blocks_used(counter: u128, bits: nat) -> Set<int> {
    Set::new(|x: int| counter <= x < counter + blocks_of_bits(bits))
}

/// Counter-mode non-repetition: across two successive generate calls without
/// a reseed, the second call — whose initial counter is exactly where the
/// first call left it — consumes no counter block the first call consumed,
/// as long as the 128-bit counter does not wrap between them.
pub proof fn lemma_ctr_no_block_reuse(counter: u128, bits1: nat, bits2: nat)
    requires
        counter + blocks_of_bits(bits1) + blocks_of_bits(bits2) <= u128::MAX + 1,
    ensures
        ctr_blocks_used(counter, bits1).disjoint(
            ctr_blocks_used(
                vstd::wrapping::u128_specs::wrapping_add(counter, blocks_of_bits(bits1) as u128),
                bits2,
            ),
        ),
{
    let b1 = blocks_of_bits(bits1);
    let c2 = vstd::wrapping::u128_specs::wrapping_add(counter, b1 as u128);
    assert forall|x: int|
        ctr_blocks_used(counter, bits1).contains(x) implies !ctr_blocks_used(
        c2,
        bits2,
    ).contains(x) by {
        assert(counter <= x < counter + b1);
        if counter + b1 <= u128::MAX {
            assert(c2 == counter + b1);
        } else {
            assert(blocks_of_bits(bits2) == 0);
        }
    }
}

} // verus!
