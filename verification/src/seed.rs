use crate::digest::{
    argon2_refusal, argon2id_key, argon2id_raw, blake3_digest, blake3_hash, scrypt_key, scrypt_raw,
    scrypt_refusal, sha256, sha256_digest, sha3_256, sha3_256_digest,
};
use crate::error::{AegixPassError, AegixPassErrorView};
use crate::preset::{group_texts, HashAlgorithm, Preset, PresetView};
use crate::text::{decimal, push_decimal};
use vstd::arithmetic::power2::{lemma2_to64, pow2};
use vstd::prelude::*;
use vstd::string::StringExecFns;
use vstd::utf8::encode_utf8;

verus! {

/// Argon2id memory cost in KiB.
pub const ARGON2_M_COST: u32 = 19456;

/// Argon2id number of passes.
pub const ARGON2_T_COST: u32 = 2;

/// Argon2id degree of parallelism.
pub const ARGON2_P_COST: u32 = 1;

/// Binary logarithm of the scrypt work factor `N`.
pub const SCRYPT_LOG_N: u8 = 15;

/// Scrypt block size parameter `r`.
pub const SCRYPT_R: u32 = 8;

/// Scrypt parallelism parameter `p`.
pub const SCRYPT_P: u32 = 1;

/// The compact JSON text of an array of strings as `serde_json` writes it, or
/// `None` where it reports an error.
pub uninterp spec fn json_string_array(items: Seq<Seq<char>>) -> Option<Seq<char>>;

/// `serde_json::to_string` on a vector of strings, with the error dropped.
#[verifier::external_body]
fn json_of_strings(items: &Vec<String>) -> (text: Option<String>)
    ensures
        match text {
            Some(json) => json_string_array(group_texts(items@)) == Some(json@),
            None => json_string_array(group_texts(items@)).is_none(),
        },
{
    serde_json::to_string(items).ok()
}

/// The serialization of the character groups that goes into the canonical
/// input: their JSON array, or nothing at all where that cannot be written.
pub open spec fn charsets_text(groups: Seq<Seq<char>>) -> Seq<char> {
    match json_string_array(groups) {
        Some(json) => json,
        None => Seq::empty(),
    }
}

/// The canonical input: a format tag with the preset version, then platform
/// id, target length, secret, label and serialized groups, each introduced by
/// a colon.
pub open spec fn canonical_text(
    version: u32,
    platform_id: Seq<char>,
    length: nat,
    secret: Seq<char>,
    label: Seq<char>,
    charsets_json: Seq<char>,
) -> Seq<char> {
    "AegixPass_V"@ + decimal(version as nat) + ":"@ + platform_id + ":"@ + decimal(length) + ":"@
        + secret + ":"@ + label + ":"@ + charsets_json
}

/// The canonical input of a derivation.
pub open spec fn canonical_input_of(secret: Seq<char>, label: Seq<char>, preset: PresetView) -> Seq<
    char,
> {
    canonical_text(
        preset.version,
        preset.platform_id,
        preset.length,
        secret,
        label,
        charsets_text(preset.charsets),
    )
}

/// The salt of the memory-hard functions: the SHA-256 digest of the platform id.
pub open spec fn kdf_salt(platform_id: Seq<char>) -> Seq<u8> {
    sha256_digest(encode_utf8(platform_id))
}

/// The inputs on which seed derivation fails: only Argon2id refuses anything,
/// and only a canonical input of more than `2^32 - 1` bytes.
pub open spec fn seed_is_refused(algorithm: HashAlgorithm, input: Seq<u8>) -> bool {
    algorithm == HashAlgorithm::Argon2id && input.len() > 0xFFFF_FFFF
}

/// The master seed that `algorithm` derives from the bytes of the canonical
/// input, where it does not refuse them.
pub open spec fn seed_bytes(algorithm: HashAlgorithm, input: Seq<u8>, platform_id: Seq<char>) -> Seq<
    u8,
> {
    match algorithm {
        HashAlgorithm::Sha256 => sha256_digest(input),
        HashAlgorithm::Blake3 => blake3_digest(input),
        HashAlgorithm::Sha3_256 => sha3_256_digest(input),
        HashAlgorithm::Argon2id => argon2id_key(
            input,
            kdf_salt(platform_id),
            ARGON2_M_COST,
            ARGON2_T_COST,
            ARGON2_P_COST,
        ),
        HashAlgorithm::Scrypt => scrypt_key(
            input,
            kdf_salt(platform_id),
            SCRYPT_LOG_N,
            SCRYPT_R,
            SCRYPT_P,
        ),
    }
}

/// The error with which seed derivation fails where it does: Argon2id finds
/// the canonical input too long.
pub open spec fn refusal() -> AegixPassErrorView {
    AegixPassErrorView::Argon2Error("password is too long"@)
}

/// The bytes of the canonical input of a derivation.
pub open spec fn canonical_bytes_of(secret: Seq<char>, label: Seq<char>, preset: PresetView) -> Seq<
    u8,
> {
    encode_utf8(canonical_input_of(secret, label, preset))
}

/// The master seed of a derivation.
pub open spec fn master_seed_of(secret: Seq<char>, label: Seq<char>, preset: PresetView) -> Seq<
    u8,
> {
    seed_bytes(
        preset.hash_algorithm,
        canonical_bytes_of(secret, label, preset),
        preset.platform_id,
    )
}

/// Serializes the character groups for the canonical input.
pub fn serialize_charsets(charsets: &Vec<String>) -> (json: String)
    ensures
        json@ == charsets_text(group_texts(charsets@)),
{
    match json_of_strings(charsets) {
        Some(json) => json,
        None => String::new(),
    }
}

/// Assembles the canonical input from its parts.
pub fn canonical_input(secret: &str, label: &str, preset: &Preset, charsets_json: &str) -> (text:
    String)
    ensures
        text@ == canonical_text(
            preset.version,
            preset.platform_id@,
            preset.length as nat,
            secret@,
            label@,
            charsets_json@,
        ),
{
    let mut text = String::from_str("AegixPass_V");
    push_decimal(&mut text, preset.version as u64);
    text.append(":");
    text.append(preset.platform_id.as_str());
    text.append(":");
    push_decimal(&mut text, preset.length as u64);
    text.append(":");
    text.append(secret);
    text.append(":");
    text.append(label);
    text.append(":");
    text.append(charsets_json);
    text
}

/// Stretches `input` with Argon2id at the given costs. Succeeds exactly where
/// Argon2id accepts the costs and the lengths of input and salt.
pub fn argon2id_seed(input: &[u8], salt: &[u8], m_cost: u32, t_cost: u32, p_cost: u32) -> (seed:
    Result<[u8; 32], AegixPassError>)
    requires
        8 * p_cost <= u32::MAX,
        1024 * m_cost <= isize::MAX,
    ensures
        match seed {
            Ok(bytes) => argon2_refusal(input@.len(), salt@.len(), m_cost, t_cost, p_cost).is_none()
                && bytes@ == argon2id_key(input@, salt@, m_cost, t_cost, p_cost),
            Err(e) => argon2_refusal(input@.len(), salt@.len(), m_cost, t_cost, p_cost)
                matches Some(detail) && e@ == AegixPassErrorView::Argon2Error(detail),
        },
{
    match argon2id_raw(input, salt, m_cost, t_cost, p_cost) {
        Ok(key) => Ok(key),
        Err(detail) => Err(AegixPassError::Argon2Error(detail)),
    }
}

/// Stretches `input` with scrypt at the given parameters. Succeeds exactly
/// where scrypt accepts the parameters.
pub fn scrypt_seed(input: &[u8], salt: &[u8], log_n: u8, r: u32, p: u32) -> (seed: Result<
    [u8; 32],
    AegixPassError,
>)
    requires
        128 * r * pow2(log_n as nat) <= isize::MAX,
        128 * r * p <= isize::MAX,
    ensures
        match seed {
            Ok(bytes) => scrypt_refusal(log_n, r, p).is_none() && bytes@ == scrypt_key(
                input@,
                salt@,
                log_n,
                r,
                p,
            ),
            Err(e) => scrypt_refusal(log_n, r, p) matches Some(detail) && e@
                == AegixPassErrorView::ScryptError(detail),
        },
{
    match scrypt_raw(input, salt, log_n, r, p) {
        Ok(key) => Ok(key),
        Err(detail) => Err(AegixPassError::ScryptError(detail)),
    }
}

/// Applies the selected one-way function to the bytes of the canonical input.
/// The memory-hard functions run at their fixed costs, salted with the digest
/// of the platform id.
pub fn derive_seed(algorithm: HashAlgorithm, input: &[u8], platform_id: &str) -> (seed: Result<
    [u8; 32],
    AegixPassError,
>)
    ensures
        seed.is_err() <==> seed_is_refused(algorithm, input@),
        match seed {
            Ok(bytes) => bytes@ == seed_bytes(algorithm, input@, platform_id@),
            Err(e) => e@ == refusal(),
        },
{
    match algorithm {
        HashAlgorithm::Sha256 => Ok(sha256(input)),
        HashAlgorithm::Blake3 => Ok(blake3_hash(input)),
        HashAlgorithm::Sha3_256 => Ok(sha3_256(input)),
        HashAlgorithm::Argon2id => {
            let salt = sha256(platform_id.as_bytes());
            argon2id_seed(input, &salt, ARGON2_M_COST, ARGON2_T_COST, ARGON2_P_COST)
        },
        HashAlgorithm::Scrypt => {
            let salt = sha256(platform_id.as_bytes());
            proof {
                lemma2_to64();
            }
            scrypt_seed(input, &salt, SCRYPT_LOG_N, SCRYPT_R, SCRYPT_P)
        },
    }
}

/// Derives the 32-byte master seed from the secret, the label and the preset.
pub fn generate_master_seed(password_source: &str, distinguish_key: &str, preset: &Preset) -> (seed:
    Result<[u8; 32], AegixPassError>)
    ensures
        seed.is_err() <==> seed_is_refused(
            preset.hash_algorithm,
            canonical_bytes_of(password_source@, distinguish_key@, preset@),
        ),
        match seed {
            Ok(bytes) => bytes@ == master_seed_of(password_source@, distinguish_key@, preset@),
            Err(e) => e@ == refusal(),
        },
{
    let charsets_json = serialize_charsets(&preset.charsets);
    let input_data = canonical_input(
        password_source,
        distinguish_key,
        preset,
        charsets_json.as_str(),
    );
    derive_seed(preset.hash_algorithm, input_data.as_str().as_bytes(), preset.platform_id.as_str())
}

} // verus!
