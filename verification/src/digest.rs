use sha2::Digest;
use vstd::arithmetic::power2::pow2;
use vstd::prelude::*;

verus! {

/// The SHA-256 digest of `data`.
pub uninterp spec fn sha256_digest(data: Seq<u8>) -> Seq<u8>;

/// The SHA3-256 digest of `data`.
pub uninterp spec fn sha3_256_digest(data: Seq<u8>) -> Seq<u8>;

/// The BLAKE3 hash of `data` in its default 32-byte form.
pub uninterp spec fn blake3_digest(data: Seq<u8>) -> Seq<u8>;

/// The 32-byte key that Argon2id, version 0x13, without secret or associated
/// data, derives from `password` and `salt` at the given costs.
pub uninterp spec fn argon2id_key(
    password: Seq<u8>,
    salt: Seq<u8>,
    m_cost: u32,
    t_cost: u32,
    p_cost: u32,
) -> Seq<u8>;

/// The 32-byte key that scrypt derives from `password` and `salt` at the given
/// parameters.
pub uninterp spec fn scrypt_key(password: Seq<u8>, salt: Seq<u8>, log_n: u8, r: u32, p: u32) -> Seq<
    u8,
>;

/// The text of the error with which Argon2id turns its inputs away, or `None`
/// where it accepts them. The costs are judged first, in the order memory,
/// passes, lanes; then the length of the password; then that of the salt.
pub open spec fn argon2_refusal(
    password_len: nat,
    salt_len: nat,
    m_cost: u32,
    t_cost: u32,
    p_cost: u32,
) -> Option<Seq<char>> {
    if m_cost < 8 || m_cost < 8 * p_cost {
        Some("memory cost is too small"@)
    } else if t_cost < 1 {
        Some("time cost is too small"@)
    } else if p_cost < 1 {
        Some("not enough threads"@)
    } else if p_cost > 0xFF_FFFF {
        Some("too many threads"@)
    } else if password_len > 0xFFFF_FFFF {
        Some("password is too long"@)
    } else if salt_len < 8 {
        Some("salt is too short"@)
    } else if salt_len > 0xFFFF_FFFF {
        Some("salt is too long"@)
    } else {
        None
    }
}

/// The text of the error with which scrypt turns its parameters away, or
/// `None` where it accepts them, among the parameters whose working memory
/// can be addressed.
pub open spec fn scrypt_refusal(log_n: u8, r: u32, p: u32) -> Option<Seq<char>> {
    if r >= 1 && p >= 1 && log_n < 16 * r && r * p < 0x4000_0000 {
        None
    } else {
        Some("invalid scrypt parameters"@)
    }
}

/// `<sha2::Sha256 as Digest>::digest`, converted to an array.
#[verifier::external_body]
pub(crate) fn sha256(data: &[u8]) -> (digest: [u8; 32])
    ensures
        digest@ == sha256_digest(data@),
{
    sha2::Sha256::digest(data).into()
}

/// `<sha3::Sha3_256 as Digest>::digest`, converted to an array.
#[verifier::external_body]
pub(crate) fn sha3_256(data: &[u8]) -> (digest: [u8; 32])
    ensures
        digest@ == sha3_256_digest(data@),
{
    sha3::Sha3_256::digest(data).into()
}

/// `blake3::hash`, converted to an array.
#[verifier::external_body]
pub(crate) fn blake3_hash(data: &[u8]) -> (digest: [u8; 32])
    ensures
        digest@ == blake3_digest(data@),
{
    blake3::hash(data).into()
}

/// `argon2::Params::new` with a 32-byte output, `argon2::Argon2::new` for
/// Argon2id in version 0x13, and `Argon2::hash_password_into`. An error of
/// either fallible call comes back as its `Display` text. The crate checks the
/// costs, then the lengths of password and salt, and fails on nothing else.
/// Left out by `requires`: costs at which `8 * p_cost` overflows, or at which
/// the working memory of `m_cost` KiB cannot be addressed.
#[verifier::external_body]
pub(crate) fn argon2id_raw(
    password: &[u8],
    salt: &[u8],
    m_cost: u32,
    t_cost: u32,
    p_cost: u32,
) -> (outcome: Result<[u8; 32], String>)
    requires
        8 * p_cost <= u32::MAX,
        1024 * m_cost <= isize::MAX,
    ensures
        match outcome {
            Ok(key) => argon2_refusal(password@.len(), salt@.len(), m_cost, t_cost, p_cost).is_none()
                && key@ == argon2id_key(password@, salt@, m_cost, t_cost, p_cost),
            Err(detail) => argon2_refusal(password@.len(), salt@.len(), m_cost, t_cost, p_cost)
                == Some(detail@),
        },
{
    let mut key = [0u8; 32];
    let params = match argon2::Params::new(m_cost, t_cost, p_cost, Some(key.len())) {
        Ok(params) => params,
        Err(e) => return Err(e.to_string()),
    };
    let hasher = argon2::Argon2::new(argon2::Algorithm::Argon2id, argon2::Version::V0x13, params);
    match hasher.hash_password_into(password, salt, &mut key) {
        Ok(()) => Ok(key),
        Err(e) => Err(e.to_string()),
    }
}

/// `scrypt::Params::new` with a 32-byte key length, and `scrypt::scrypt`. An
/// error of either call comes back as its `Display` text. The crate checks the
/// parameters and fails on nothing else. Left out by `requires`: parameters
/// whose working memory of `128 * r * 2^log_n` or `128 * r * p` bytes cannot
/// be addressed.
#[verifier::external_body]
pub(crate) fn scrypt_raw(password: &[u8], salt: &[u8], log_n: u8, r: u32, p: u32) -> (outcome:
    Result<[u8; 32], String>)
    requires
        128 * r * pow2(log_n as nat) <= isize::MAX,
        128 * r * p <= isize::MAX,
    ensures
        match outcome {
            Ok(key) => scrypt_refusal(log_n, r, p).is_none() && key@ == scrypt_key(
                password@,
                salt@,
                log_n,
                r,
                p,
            ),
            Err(detail) => scrypt_refusal(log_n, r, p) == Some(detail@),
        },
{
    let mut key = [0u8; 32];
    let params = match scrypt::Params::new(log_n, r, p, key.len()) {
        Ok(params) => params,
        Err(e) => return Err(e.to_string()),
    };
    match scrypt::scrypt(password, salt, &params, &mut key) {
        Ok(()) => Ok(key),
        Err(e) => Err(e.to_string()),
    }
}

} // verus!
