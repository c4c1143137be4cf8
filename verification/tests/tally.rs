use drbg_bench::BitString;

#[test]
fn tally_three_bit_prefix() {
    let bs = BitString { bits: 3, bytes: vec![0b1011_0000u8] };
    let t = bs.count_bits();
    assert_eq!(t.ones, 2);
    assert_eq!(t.zeros, 1);
}

#[test]
fn tally_empty() {
    let bs = BitString { bits: 0, bytes: vec![] };
    let t = bs.count_bits();
    assert_eq!(t.ones, 0);
    assert_eq!(t.zeros, 0);
}

#[test]
fn tally_full_bytes() {
    let bs = BitString { bits: 16, bytes: vec![0xFFu8, 0x0Fu8] };
    let t = bs.count_bits();
    assert_eq!(t.ones, 12);
    assert_eq!(t.zeros, 4);
}

#[test]
fn tally_partial_final_byte_ignores_padding() {
    // Only the first 4 bits of the second byte count; its low nibble is padding.
    let bs = BitString { bits: 12, bytes: vec![0xAAu8, 0xFFu8] };
    let t = bs.count_bits();
    assert_eq!(t.ones, 4 + 4);
    assert_eq!(t.zeros, 4);
}

#[test]
fn tally_accounts_for_every_bit() {
    for bits in [0usize, 1, 3, 7, 8, 9, 15, 16, 17, 64] {
        let bytes = vec![0b1100_1010u8; (bits + 7) / 8];
        let bs = BitString { bits, bytes };
        let t = bs.count_bits();
        assert_eq!(t.zeros + t.ones, bits as u64);
    }
}

#[test]
fn storage_is_buffer_len() {
    let bs = BitString { bits: 21, bytes: vec![1u8, 2, 3] };
    assert_eq!(bs.storage_bytes(), 3);
}
