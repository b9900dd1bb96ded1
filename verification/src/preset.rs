use vstd::prelude::*;

verus! {

/// The one-way function that turns the canonical input into the master seed.
#[derive(Debug, Clone, Copy, PartialEq, Eq, Structural)]
pub enum HashAlgorithm {
    Sha256,
    Blake3,
    Sha3_256,
    Argon2id,
    Scrypt,
}

/// The seeded generator that supplies the words for filling and shuffling.
#[derive(Debug, Clone, Copy, PartialEq, Eq, Structural)]
pub enum RngAlgorithm {
    ChaCha20,
    Hc128,
}

/// The permutation scheme applied to the finished character buffer.
#[derive(Debug, Clone, Copy, PartialEq, Eq, Structural)]
pub enum ShuffleAlgorithm {
    FisherYates,
}

/// A named recipe for deriving passwords: algorithm choices and output shape.
#[derive(Debug, PartialEq)]
pub struct Preset {
    pub name: String,
    pub version: u32,
    pub hash_algorithm: HashAlgorithm,
    pub rng_algorithm: RngAlgorithm,
    pub shuffle_algorithm: ShuffleAlgorithm,
    pub length: usize,
    pub platform_id: String,
    pub charsets: Vec<String>,
}

/// The only preset schema version that derivations are defined for.
pub const SUPPORTED_VERSION: u64 = 1;

/// What the version field of a preset document means for its use.
#[derive(Debug, Clone, Copy, PartialEq, Eq, Structural)]
pub enum VersionCheck {
    /// The document declares the supported version.
    Supported,
    /// The document declares this other version.
    Unsupported(u64),
    /// The document declares no version that is a non-negative integer.
    Missing,
}

/// The verdict on a version field that was read as `found`.
pub open spec fn version_verdict(found: Option<u64>) -> VersionCheck {
    match found {
        Some(version) => if version == SUPPORTED_VERSION {
            VersionCheck::Supported
        } else {
            VersionCheck::Unsupported(version)
        },
        None => VersionCheck::Missing,
    }
}

/// Judges the version field of a preset document before it is decoded.
pub fn check_version(found: Option<u64>) -> (verdict: VersionCheck)
    ensures
        verdict == version_verdict(found),
{
    match found {
        Some(version) => if version == SUPPORTED_VERSION {
            VersionCheck::Supported
        } else {
            VersionCheck::Unsupported(version)
        },
        None => VersionCheck::Missing,
    }
}

/// The mathematical content of a [`Preset`].
pub struct PresetView {
    pub name: Seq<char>,
    pub version: u32,
    pub hash_algorithm: HashAlgorithm,
    pub rng_algorithm: RngAlgorithm,
    pub shuffle_algorithm: ShuffleAlgorithm,
    pub length: nat,
    pub platform_id: Seq<char>,
    pub charsets: Seq<Seq<char>>,
}

/// The character groups held by `charsets`, each as a sequence of characters.
pub open spec fn group_texts(charsets: Seq<String>) -> Seq<Seq<char>> {
    charsets.map_values(|group: String| group@)
}

impl View for Preset {
    type V = PresetView;

    open spec fn view(&self) -> PresetView {
        PresetView {
            name: self.name@,
            version: self.version,
            hash_algorithm: self.hash_algorithm,
            rng_algorithm: self.rng_algorithm,
            shuffle_algorithm: self.shuffle_algorithm,
            length: self.length as nat,
            platform_id: self.platform_id@,
            charsets: group_texts(self.charsets@),
        }
    }
}

} // verus!
