use drbg_bench::derive::{derive_seed, make_seed};
use drbg_bench::{AesCtrDrbg, Blake3XofDrbg, ChaCha20Drbg, Drbg};

const SEED: &[u8] = b"generator-test-seed";

#[test]
fn output_length_is_ceil_bits_over_eight() {
    for bits in [0usize, 1, 7, 8, 9, 100, 10000] {
        let want = (bits + 7) / 8;
        let mut c = ChaCha20Drbg::new(SEED);
        let mut a = AesCtrDrbg::new(SEED);
        let mut x = Blake3XofDrbg::new(SEED);
        for g in [&mut c as &mut dyn Drbg, &mut a, &mut x] {
            let bs = g.generate_bits(bits);
            assert_eq!(bs.bits, bits);
            assert_eq!(bs.bytes.len(), want);
            assert_eq!(bs.storage_bytes(), want);
        }
    }
}

#[test]
fn same_seed_same_outputs() {
    let lengths = [64usize, 128, 8, 1000];
    let mut first = ChaCha20Drbg::new(SEED);
    let mut second = ChaCha20Drbg::new(SEED);
    for &bits in lengths.iter() {
        assert_eq!(first.generate_bits(bits).bytes, second.generate_bits(bits).bytes);
    }
    let mut first = AesCtrDrbg::new(SEED);
    let mut second = AesCtrDrbg::new(SEED);
    for &bits in lengths.iter() {
        assert_eq!(first.generate_bits(bits).bytes, second.generate_bits(bits).bytes);
    }
    let mut first = Blake3XofDrbg::new(SEED);
    let mut second = Blake3XofDrbg::new(SEED);
    for &bits in lengths.iter() {
        assert_eq!(first.generate_bits(bits).bytes, second.generate_bits(bits).bytes);
    }
}

#[test]
fn domain_separation_in_derivation() {
    let a = derive_seed(SEED, "A");
    let b = derive_seed(SEED, "B");
    assert_eq!(a.len(), 32);
    assert_eq!(b.len(), 32);
    assert_ne!(a, b);
    assert_ne!(a.as_slice(), &SEED[..a.len().min(SEED.len())]);
}

#[test]
fn successive_calls_do_not_repeat_keystream() {
    // Without a reseed, consecutive outputs come from disjoint counter blocks
    // (or stream positions) and so differ.
    let mut a = AesCtrDrbg::new(SEED);
    let one = a.generate_bits(128);
    let two = a.generate_bits(128);
    assert_ne!(one.bytes, two.bytes);

    let mut c = ChaCha20Drbg::new(SEED);
    assert_ne!(c.generate_bits(128).bytes, c.generate_bits(128).bytes);

    let mut x = Blake3XofDrbg::new(SEED);
    assert_ne!(x.generate_bits(128).bytes, x.generate_bits(128).bytes);
}

#[test]
fn reseed_restarts_the_stream() {
    let mut c = ChaCha20Drbg::new(SEED);
    let mut a = AesCtrDrbg::new(SEED);
    let mut x = Blake3XofDrbg::new(SEED);
    for g in [&mut c as &mut dyn Drbg, &mut a, &mut x] {
        let first = g.generate_bits(512);
        let _ = g.generate_bits(512);
        g.reseed(SEED);
        let again = g.generate_bits(512);
        assert_eq!(first.bytes, again.bytes);
    }
}

#[test]
fn end_to_end_fixed_seed() {
    let seed = b"cs-drbg-benchmark-seed-v1";
    let mut c = ChaCha20Drbg::new(seed);
    let mut a = AesCtrDrbg::new(seed);
    let mut x = Blake3XofDrbg::new(seed);
    for g in [&mut c as &mut dyn Drbg, &mut a, &mut x] {
        let bs = g.generate_bits(10000);
        assert_eq!(bs.bytes.len(), 1250);
        g.reseed(seed);
        let repeat = g.generate_bits(10000);
        assert_eq!(bs.bytes, repeat.bytes);
    }
}

#[test]
fn outputs_are_not_the_inputs() {
    // Every generator's output mixes both bit values and differs from the
    // derived key material handed to the primitive.
    let mut c = ChaCha20Drbg::new(SEED);
    let mut a = AesCtrDrbg::new(SEED);
    let mut x = Blake3XofDrbg::new(SEED);
    for g in [&mut c as &mut dyn Drbg, &mut a, &mut x] {
        let bs = g.generate_bits(256);
        let t = bs.count_bits();
        assert!(t.ones > 0, "{} produced all zeros", g.name());
        assert!(t.zeros > 0, "{} produced all ones", g.name());
        assert_ne!(bs.bytes, derive_seed(SEED, "chacha20-drbg"));
    }
}

#[test]
fn distinct_display_names() {
    let c = ChaCha20Drbg::new(SEED);
    let a = AesCtrDrbg::new(SEED);
    let x = Blake3XofDrbg::new(SEED);
    assert_eq!(c.name(), "ChaCha20 DRBG");
    assert_eq!(a.name(), "AES-256-CTR DRBG");
    assert_eq!(x.name(), "BLAKE3 XOF DRBG");
}

#[test]
fn trial_seed_layout() {
    let seed = make_seed(b"base", 1, 2);
    let mut want = b"base".to_vec();
    want.extend_from_slice(&1u64.to_be_bytes());
    want.extend_from_slice(&2u64.to_be_bytes());
    assert_eq!(seed, want);
    // distinct runs or lengths give distinct trial seeds
    assert_ne!(make_seed(b"base", 1, 2), make_seed(b"base", 2, 1));
}
