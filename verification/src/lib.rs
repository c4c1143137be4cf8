//! A verified core for benchmarking deterministic bit generators: seed
//! derivation with domain separation, three generator variants over distinct
//! cryptographic primitives, exact bit tallying, and aggregation of trial
//! records into per-group statistics.
pub mod aggregate;
pub mod bits;
pub mod derive;
pub mod drbg;
pub mod endian;

pub use bits::{BitString, BitTally};
pub use drbg::{AesCtrDrbg, Blake3XofDrbg, ChaCha20Drbg, Drbg};
