use vstd::prelude::*;

verus! {

/// What PBKDF2 with HMAC-SHA-256 derives from a password, a salt and an iteration count,
/// for a given output length.
pub uninterp spec fn pbkdf2_sha256(password: Seq<u8>, salt: Seq<u8>, rounds: u32, len: nat) -> Seq<u8>;

/// What Argon2id (version 0x13, no secret key, no associated data) derives from a password
/// and a salt under the given memory cost in KiB, time cost, lane count and output length.
pub uninterp spec fn argon2id(
    password: Seq<u8>,
    salt: Seq<u8>,
    memory_kib: u32,
    time_cost: u32,
    lanes: u32,
    len: nat,
) -> Seq<u8>;

/// Relies on `pbkdf2::pbkdf2_hmac::<sha2::Sha256>`: it fills the output buffer with the
/// derived key and depends on its arguments alone. HMAC takes a key of any length, so the
/// call does not panic; a count of 0 runs the first round only.
#[verifier::external_body]
pub(crate) fn pbkdf2_hmac_sha256(password: &[u8], salt: &[u8], rounds: u32, len: usize) -> (r: Vec<u8>)
    ensures
        r@ == pbkdf2_sha256(password@, salt@, rounds, len as nat),
        r@.len() == len,
{
    let mut out = vec![0u8; len];
    pbkdf2::pbkdf2_hmac::<sha2::Sha256>(password, salt, rounds, &mut out);
    out
}

#[verifier::external_type_specification]
#[verifier::external_body]
pub struct ExArgon2Error(argon2::Error);

/// Relies on `argon2::Params::new` and `argon2::Argon2::hash_password_into` with
/// `Algorithm::Argon2id` and `Version::V0x13`. Under the parameters that `requires` admits,
/// `Params::new` accepts them, and hashing fails exactly when the salt is shorter than
/// 8 bytes or longer than `u32::MAX` bytes, or the password is longer than `u32::MAX` bytes.
#[verifier::external_body]
pub(crate) fn argon2id_hash(
    password: &[u8],
    salt: &[u8],
    memory_kib: u32,
    time_cost: u32,
    lanes: u32,
    len: usize,
) -> (r: Result<Vec<u8>, argon2::Error>)
    requires
        1 <= lanes <= 0xff_ffff,
        memory_kib >= 8 * lanes,
        time_cost >= 1,
        4 <= len <= 64,
    ensures
        r is Ok <==> (8 <= salt@.len() <= u32::MAX && password@.len() <= u32::MAX),
        r matches Ok(h) ==> h@ == argon2id(password@, salt@, memory_kib, time_cost, lanes, len as nat),
        r matches Ok(h) ==> h@.len() == len,
{
    let params = argon2::Params::new(memory_kib, time_cost, lanes, Some(len))?;
    let hasher = argon2::Argon2::new(argon2::Algorithm::Argon2id, argon2::Version::V0x13, params);
    let mut out = vec![0u8; len];
    hasher.hash_password_into(password, salt, &mut out)?;
    Ok(out)
}

} // verus!
