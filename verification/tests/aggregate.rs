use drbg_bench::aggregate::{summarize, GeneratorKind, Record, Summary};

fn record(kind: GeneratorKind, bits: usize, duration_us: u32, ones: u64) -> Record {
    Record {
        run: 0,
        generator: kind,
        bits,
        duration_us,
        storage_bytes: (bits + 7) / 8,
        zeros: bits as u64 - ones,
        ones,
    }
}

fn mean_std_ms(s: &Summary) -> (f64, f64) {
    let n = s.runs as f64;
    let sum = s.sum_time_us as f64;
    let sum_sq = s.sum_sq_time_us as f64;
    let mean_us = sum / n;
    let var_us = if s.runs <= 1 { 0.0 } else { (sum_sq - sum * sum / n) / (n - 1.0) };
    (mean_us / 1000.0, var_us.max(0.0).sqrt() / 1000.0)
}

#[test]
fn mean_and_sample_std_of_three_times() {
    // elapsed times of 1.0, 2.0, 3.0 milliseconds in one group
    let records = vec![
        record(GeneratorKind::ChaCha20, 64, 1000, 30),
        record(GeneratorKind::ChaCha20, 64, 2000, 31),
        record(GeneratorKind::ChaCha20, 64, 3000, 32),
    ];
    let out = summarize(&records);
    assert_eq!(out.len(), 1);
    assert_eq!(out[0].runs, 3);
    assert_eq!(out[0].sum_time_us, 6000);
    assert_eq!(out[0].sum_sq_time_us, 14_000_000);
    let (mean_ms, std_ms) = mean_std_ms(&out[0]);
    assert_eq!(mean_ms, 2.0);
    assert_eq!(std_ms, 1.0);
}

#[test]
fn groups_are_sorted_and_unique() {
    let records = vec![
        record(GeneratorKind::ChaCha20, 128, 5, 60),
        record(GeneratorKind::AesCtr, 128, 6, 61),
        record(GeneratorKind::ChaCha20, 64, 7, 30),
        record(GeneratorKind::Blake3Xof, 128, 8, 62),
        record(GeneratorKind::ChaCha20, 128, 9, 63),
        record(GeneratorKind::AesCtr, 64, 10, 31),
    ];
    let out = summarize(&records);
    let keys: Vec<(&str, usize)> =
        out.iter().map(|s| (s.generator.display_name(), s.bits)).collect();
    assert_eq!(
        keys,
        vec![
            ("AES-256-CTR DRBG", 64),
            ("AES-256-CTR DRBG", 128),
            ("BLAKE3 XOF DRBG", 128),
            ("ChaCha20 DRBG", 64),
            ("ChaCha20 DRBG", 128),
        ]
    );
    assert_eq!(out[4].runs, 2);
    assert_eq!(out[4].sum_time_us, 5 + 9);
    assert_eq!(out[4].sum_ones, 60 + 63);
    assert_eq!(out[4].storage_bytes, 16);
}

#[test]
fn empty_input_gives_empty_summary() {
    let out = summarize(&Vec::new());
    assert!(out.is_empty());
}

#[test]
fn single_sample_group_has_zero_std() {
    let records = vec![record(GeneratorKind::Blake3Xof, 32, 1500, 17)];
    let out = summarize(&records);
    assert_eq!(out.len(), 1);
    assert_eq!(out[0].runs, 1);
    let (mean_ms, std_ms) = mean_std_ms(&out[0]);
    assert_eq!(mean_ms, 1.5);
    assert_eq!(std_ms, 0.0);
}

#[test]
fn ones_moments_are_exact() {
    let records = vec![
        record(GeneratorKind::AesCtr, 16, 1, 7),
        record(GeneratorKind::AesCtr, 16, 2, 9),
    ];
    let out = summarize(&records);
    assert_eq!(out.len(), 1);
    assert_eq!(out[0].sum_ones, 16);
    assert_eq!(out[0].sum_sq_ones, 49 + 81);
    // per-record ones ratios share the group's bit length as denominator
    let mean_ratio = (out[0].sum_ones as f64 / out[0].runs as f64) / out[0].bits as f64;
    assert_eq!(mean_ratio, 0.5);
}
