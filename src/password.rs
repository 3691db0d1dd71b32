use vstd::prelude::*;
use vstd::string::StringSliceAdditionalSpecFns;

use crate::alphabet::{alphabet, encode, encoded, lemma_encoded_in_alphabet};
use crate::canonical::{
    append_bytes, concatenated_message, labeled_salt, labeled_salt_bytes, lemma_labeled_salt_index_injective,
    message,
};
use crate::kdf::{argon2id, argon2id_hash, pbkdf2_hmac_sha256, pbkdf2_sha256};

verus! {

/// Length of every derived password, and of the raw key it is encoded from.
pub const PASSWORD_LEN: usize = 16;

/// Argon2 time cost (passes over memory).
pub const ARGON2_TIME_COST: u32 = 192;

/// Argon2 memory cost in KiB.
pub const ARGON2_MEMORY_KIB: u32 = 4096;

/// Argon2 lane count. It is fixed, not taken from the machine, because the lane count
/// changes the derived key: passwords derived on one machine must come out the same on
/// every other.
pub const ARGON2_LANES: u32 = 8;

/// A derivation algorithm. Each one fixes a canonicalization rule and KDF parameters,
/// so that a password derived under it can be derived again later.
#[derive(Clone, Copy, Debug, PartialEq, Eq, Structural)]
pub enum AlgorithmVersion {
    /// PBKDF2-HMAC-SHA-256 over the scope and identity, with the index as iteration count.
    Pbkdf2Unfloored,
    /// PBKDF2-HMAC-SHA-256 over the scope and identity, with 1000 plus the index as
    /// iteration count.
    Pbkdf2Floor1000,
    /// PBKDF2-HMAC-SHA-256 over the scope and identity, with 10000 plus the index as
    /// iteration count.
    Pbkdf2Floor10000,
    /// Argon2id over the labeled salt, with time cost 192, 4096 KiB of memory and 8 lanes.
    Argon2V1,
}

impl Default for AlgorithmVersion {
    /// The algorithm for new passwords.
    fn default() -> (r: AlgorithmVersion)
        ensures
            r == AlgorithmVersion::Argon2V1,
    {
        AlgorithmVersion::Argon2V1
    }
}

/// Why a derivation failed.
#[derive(Clone, Copy, Debug, PartialEq, Eq, Structural)]
pub enum DerivationError {
    /// The iteration count, floor plus index, does not fit in 32 bits.
    IterationCountTooLarge,
    /// The Argon2 backend rejected its input.
    Rejected,
}

/// The iterations that a PBKDF2 version adds to the index; 0 for Argon2.
pub open spec fn round_floor(version: AlgorithmVersion) -> nat {
    match version {
        AlgorithmVersion::Pbkdf2Unfloored => 0,
        AlgorithmVersion::Pbkdf2Floor1000 => 1000,
        AlgorithmVersion::Pbkdf2Floor10000 => 10000,
        AlgorithmVersion::Argon2V1 => 0,
    }
}

/// The PBKDF2 iteration count that a version gives an index, if it fits in 32 bits.
pub open spec fn round_count(version: AlgorithmVersion, index: u32) -> Option<u32> {
    if version != AlgorithmVersion::Argon2V1 && index + round_floor(version) <= u32::MAX {
        Some((index + round_floor(version)) as u32)
    } else {
        None
    }
}

/// The raw key that a version derives, or `None` where the derivation fails.
pub open spec fn raw_key(
    version: AlgorithmVersion,
    scope: Seq<u8>,
    identity: Seq<u8>,
    index: u32,
    master: Seq<u8>,
) -> Option<Seq<u8>> {
    match version {
        AlgorithmVersion::Argon2V1 => {
            let salt = labeled_salt(scope, identity, index);
            if salt.len() <= u32::MAX && master.len() <= u32::MAX {
                Some(
                    argon2id(
                        master,
                        salt,
                        ARGON2_MEMORY_KIB,
                        ARGON2_TIME_COST,
                        ARGON2_LANES,
                        PASSWORD_LEN as nat,
                    ),
                )
            } else {
                None
            }
        },
        _ => match round_count(version, index) {
            Some(rounds) => Some(
                pbkdf2_sha256(master, message(scope, identity), rounds, PASSWORD_LEN as nat),
            ),
            None => None,
        },
    }
}

/// The password that a version derives, or `None` where the derivation fails.
pub open spec fn derived_password(
    version: AlgorithmVersion,
    scope: Seq<u8>,
    identity: Seq<u8>,
    index: u32,
    master: Seq<u8>,
) -> Option<Seq<char>> {
    match raw_key(version, scope, identity, index, master) {
        Some(k) => Some(encoded(k)),
        None => None,
    }
}

/// What a derivation returned, with the error's kind left out.
pub open spec fn outcome(r: Result<String, DerivationError>) -> Option<Seq<char>> {
    match r {
        Ok(s) => Some(s@),
        Err(_) => None,
    }
}

/// A printable password: 16 characters, each a symbol of the alphabet.
pub open spec fn well_formed_password(p: Seq<char>) -> bool {
    &&& p.len() == PASSWORD_LEN
    &&& forall|i: int| 0 <= i < p.len() ==> #[trigger] alphabet().contains(p[i])
}

/// Overwrites every byte of `buf` with zero, keeping its length.
pub fn scrub(buf: &mut Vec<u8>)
    ensures
        final(buf)@.len() == old(buf)@.len(),
        forall|i: int| 0 <= i < final(buf)@.len() ==> final(buf)@[i] == 0,
{
    let ghost n = buf@.len();
    let mut i: usize = 0;
    while i < buf.len()
        invariant
            buf@.len() == n,
            i <= n,
            forall|j: int| 0 <= j < i ==> buf@[j] == 0,
        decreases n - i,
    {
        buf.set(i, 0);
        i = i + 1;
    }
}

/// Runs the KDF of `version` on the master password's bytes.
fn derive_key(
    secret: &Vec<u8>,
    scope: &str,
    identity: &str,
    password_index: u32,
    version: AlgorithmVersion,
) -> (r: Result<Vec<u8>, DerivationError>)
    ensures
        match raw_key(version, scope.spec_bytes(), identity.spec_bytes(), password_index, secret@) {
            Some(k) => r matches Ok(v) && v@ == k && v@.len() == PASSWORD_LEN,
            None => r is Err,
        },
        r matches Err(e) ==> (e == DerivationError::IterationCountTooLarge <==> version
            != AlgorithmVersion::Argon2V1),
{
    let floor: u32 = match version {
        AlgorithmVersion::Argon2V1 => {
            let salt = labeled_salt_bytes(scope, identity, password_index);
            assert(salt@.len() >= 8);
            return match argon2id_hash(
                secret.as_slice(),
                salt.as_slice(),
                ARGON2_MEMORY_KIB,
                ARGON2_TIME_COST,
                ARGON2_LANES,
                PASSWORD_LEN,
            ) {
                Ok(k) => Ok(k),
                Err(_) => Err(DerivationError::Rejected),
            };
        },
        AlgorithmVersion::Pbkdf2Unfloored => 0,
        AlgorithmVersion::Pbkdf2Floor1000 => 1000,
        AlgorithmVersion::Pbkdf2Floor10000 => 10000,
    };
    if password_index > u32::MAX - floor {
        return Err(DerivationError::IterationCountTooLarge);
    }
    let msg = concatenated_message(scope, identity);
    Ok(pbkdf2_hmac_sha256(secret.as_slice(), msg.as_slice(), password_index + floor, PASSWORD_LEN))
}

/// Derives the password of `version`. The copy of the master password that the KDF reads
/// is zeroed before returning, on every path.
pub fn generate_password(
    scope: &str,
    identity: &str,
    password_index: u32,
    master_password: &str,
    version: AlgorithmVersion,
) -> (r: Result<String, DerivationError>)
    ensures
        outcome(r) == derived_password(
            version,
            scope.spec_bytes(),
            identity.spec_bytes(),
            password_index,
            master_password.spec_bytes(),
        ),
        r matches Ok(p) ==> well_formed_password(p@),
        r matches Err(e) ==> (e == DerivationError::IterationCountTooLarge <==> version
            != AlgorithmVersion::Argon2V1),
{
    let mut secret: Vec<u8> = Vec::new();
    append_bytes(&mut secret, master_password.as_bytes());
    assert(secret@ =~= master_password.spec_bytes());
    let key = derive_key(&secret, scope, identity, password_index, version);
    scrub(&mut secret);
    match key {
        Ok(k) => {
            let p = encode(k.as_slice());
            proof {
                lemma_encoded_in_alphabet(k@);
            }
            Ok(p)
        },
        Err(e) => Err(e),
    }
}

/// Derives the password under the default algorithm, Argon2.
pub fn pswrd(scope: &str, identity: &str, password_index: u32, master_password: &str) -> (r: Result<
    String,
    DerivationError,
>)
    ensures
        outcome(r) == derived_password(
            AlgorithmVersion::Argon2V1,
            scope.spec_bytes(),
            identity.spec_bytes(),
            password_index,
            master_password.spec_bytes(),
        ),
        r matches Ok(p) ==> well_formed_password(p@),
{
    generate_password(scope, identity, password_index, master_password, AlgorithmVersion::Argon2V1)
}

/// Determinism: two derivations from the same scope, identity, index, master password
/// and version return the same password, or both fail.
pub proof fn law_deterministic(
    version: AlgorithmVersion,
    scope: Seq<u8>,
    identity: Seq<u8>,
    index: u32,
    master: Seq<u8>,
    r1: Result<String, DerivationError>,
    r2: Result<String, DerivationError>,
)
    requires
        outcome(r1) == derived_password(version, scope, identity, index, master),
        outcome(r2) == derived_password(version, scope, identity, index, master),
    ensures
        outcome(r1) == outcome(r2),
{
}

/// The index reaches the KDF: for a fixed scope, identity and version, distinct indexes
/// give Argon2 distinct salts and PBKDF2 distinct iteration counts.
pub proof fn law_index_reaches_kdf(
    version: AlgorithmVersion,
    scope: Seq<u8>,
    identity: Seq<u8>,
    i1: u32,
    i2: u32,
)
    requires
        i1 != i2,
    ensures
        version == AlgorithmVersion::Argon2V1 ==> labeled_salt(scope, identity, i1)
            != labeled_salt(scope, identity, i2),
        round_count(version, i1) is Some && round_count(version, i2) is Some ==> round_count(
            version,
            i1,
        ) != round_count(version, i2),
{
    lemma_labeled_salt_index_injective(scope, identity, i1, i2);
}

/// The PBKDF2 versions are isolated from one another: for the same index, two distinct
/// PBKDF2 versions run distinct iteration counts.
pub proof fn law_pbkdf2_versions_differ(v1: AlgorithmVersion, v2: AlgorithmVersion, index: u32)
    requires
        v1 != v2,
        round_count(v1, index) is Some,
        round_count(v2, index) is Some,
    ensures
        round_count(v1, index) != round_count(v2, index),
{
}

} // verus!
