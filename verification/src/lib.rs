//! Deterministic password derivation: the same secret, label and preset always
//! yield the same password, and every character group of the preset is
//! represented in it.

pub mod bit_source;
pub mod coverage;
pub mod digest;
pub mod error;
pub mod filler;
pub mod generator;
pub mod preset;
pub mod sampler;
pub mod seed;
pub mod shuffle;
pub mod text;

pub use crate::bit_source::{create_rng_from_seed, BitSource};
pub use crate::error::AegixPassError;
pub use crate::generator::{aegixpass_generator, sampling_fits, validate_inputs};
pub use crate::preset::{HashAlgorithm, Preset, RngAlgorithm, ShuffleAlgorithm};
pub use crate::sampler::secure_random_range_u32;
pub use crate::seed::generate_master_seed;
