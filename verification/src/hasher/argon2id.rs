//! Password hashing with Argon2id.

use crate::encrypter::random::{random_bytes, seeded_rng, NoEntropy};
use crate::encrypter::wipe::wipe_array;
use crate::utils::text::utf8_text;
use vstd::prelude::*;
use vstd::string::StringSliceAdditionalSpecFns;
use vstd::utf8::{decode_utf8, encode_utf8, valid_utf8};

verus! {

/// `argon2::Error`, the error of the hash function. Nothing of it is visible
/// to the proofs.
#[verifier::external_type_specification]
#[verifier::external_body]
pub struct ExArgon2Error(argon2::Error);

/// Cost parameters of the key derivation.
#[derive(Debug, Clone, Copy, PartialEq, Eq, Structural)]
pub struct KdfParams {
    /// Memory to fill, in KiB.
    pub mem_cost: u32,
    /// Number of passes over the memory.
    pub time_cost: u32,
    /// Number of lanes, which are filled in parallel.
    pub lanes: u32,
    /// Length of the derived hash in bytes.
    pub hash_length: u32,
}

/// The most memory that the derivation accepts, in KiB.
pub open spec fn kdf_max_memory() -> nat {
    if usize::BITS == 32 {
        0x0020_0000
    } else {
        0xFFFF_FFFF
    }
}

/// Whether the derivation accepts these parameters with a password and a
/// salt of the lengths given.
pub open spec fn kdf_accepts(params: KdfParams, password_len: nat, salt_len: nat) -> bool {
    &&& 1 <= params.lanes <= 0x00FF_FFFF
    &&& 8 <= params.mem_cost <= kdf_max_memory()
    &&& 8 * params.lanes <= params.mem_cost
    &&& 1 <= params.time_cost
    &&& password_len <= 0xFFFF_FFFF
    &&& 8 <= salt_len <= 0xFFFF_FFFF
    &&& 4 <= params.hash_length
}

/// The raw Argon2id hash (version 1.3, no secret, no associated data) of a
/// password and a salt.
pub uninterp spec fn argon2id_raw(
    password: Seq<u8>,
    salt: Seq<u8>,
    mem_cost: u32,
    time_cost: u32,
    lanes: u32,
    hash_length: u32,
) -> Seq<u8>;

/// Calls `argon2::hash_raw` with an Argon2id configuration made of `params`.
///
/// Trusted: the call succeeds exactly where `kdf_accepts` holds; the result
/// is the hash that `argon2id_raw` names, `hash_length` bytes long. Running
/// out of memory or of threads is not accounted for.
#[verifier::external_body]
pub(crate) fn argon2id_hash(password: &[u8], salt: &[u8], params: &KdfParams) -> (r: Result<
    Vec<u8>,
    argon2::Error,
>)
    ensures
        r is Ok <==> kdf_accepts(*params, password@.len(), salt@.len()),
        r matches Ok(hash) ==> {
            &&& hash@ == argon2id_raw(
                password@,
                salt@,
                params.mem_cost,
                params.time_cost,
                params.lanes,
                params.hash_length,
            )
            &&& hash@.len() == params.hash_length
        },
{
    let config = argon2::Config {
        variant: argon2::Variant::Argon2id,
        version: argon2::Version::Version13,
        mem_cost: params.mem_cost,
        time_cost: params.time_cost,
        lanes: params.lanes,
        thread_mode: argon2::ThreadMode::Parallel,
        secret: &[],
        ad: &[],
        hash_length: params.hash_length,
    };
    argon2::hash_raw(password, salt, &config)
}

/// The encoded Argon2id hash (version 1.3, no secret, no associated data)
/// of a password and a salt: a text that holds the cost, the salt and the
/// hash.
pub uninterp spec fn argon2id_encoded(
    password: Seq<u8>,
    salt: Seq<u8>,
    mem_cost: u32,
    time_cost: u32,
    lanes: u32,
    hash_length: u32,
) -> Seq<char>;

/// Whether a password has the encoded hash given: `None` where the text is
/// no encoded hash or holds a cost that the derivation refuses.
pub uninterp spec fn argon2_verified(encoded: Seq<char>, password: Seq<u8>) -> Option<bool>;

/// Calls `argon2::hash_encoded` with an Argon2id configuration made of
/// `params`.
///
/// Trusted: the call succeeds exactly where `kdf_accepts` holds; the result
/// is the text that `argon2id_encoded` names, and the password has that
/// hash. Running out of memory or of threads is not accounted for.
#[verifier::external_body]
fn argon2id_hash_encoded(password: &[u8], salt: &[u8], params: &KdfParams) -> (r: Result<
    String,
    argon2::Error,
>)
    ensures
        r is Ok <==> kdf_accepts(*params, password@.len(), salt@.len()),
        r matches Ok(encoded) ==> {
            &&& encoded@ == argon2id_encoded(
                password@,
                salt@,
                params.mem_cost,
                params.time_cost,
                params.lanes,
                params.hash_length,
            )
            &&& argon2_verified(encoded@, password@) == Some(true)
        },
{
    let config = argon2::Config {
        variant: argon2::Variant::Argon2id,
        version: argon2::Version::Version13,
        mem_cost: params.mem_cost,
        time_cost: params.time_cost,
        lanes: params.lanes,
        thread_mode: argon2::ThreadMode::Parallel,
        secret: &[],
        ad: &[],
        hash_length: params.hash_length,
    };
    argon2::hash_encoded(password, salt, &config)
}

/// Calls `argon2::verify_encoded`.
///
/// Trusted: the result is what `argon2_verified` names. Running out of
/// memory or of threads is not accounted for.
#[verifier::external_body]
fn argon2_verify_encoded(encoded: &str, password: &[u8]) -> (r: Result<bool, argon2::Error>)
    ensures
        match r {
            Ok(same) => argon2_verified(encoded@, password@) == Some(same),
            Err(_) => argon2_verified(encoded@, password@) is None,
        },
{
    argon2::verify_encoded(encoded, password)
}

/// Why hashing or verifying failed.
#[derive(Debug, Clone, Copy, PartialEq, Eq, Structural)]
pub enum HashError {
    /// The derivation refused its parameters.
    KdfFailure,
    /// The hash given is no encoded hash.
    DecodingFail,
}

/// Derives a key from a password and a salt.
pub fn derive_key(password: &[u8], salt: &[u8], params: &KdfParams) -> (r: Result<
    Vec<u8>,
    HashError,
>)
    ensures
        match r {
            Ok(key) => {
                &&& kdf_accepts(*params, password@.len(), salt@.len())
                &&& key@ == argon2id_raw(
                    password@,
                    salt@,
                    params.mem_cost,
                    params.time_cost,
                    params.lanes,
                    params.hash_length,
                )
                &&& key@.len() == params.hash_length
            },
            Err(e) => e == HashError::KdfFailure && !kdf_accepts(
                *params,
                password@.len(),
                salt@.len(),
            ),
        },
{
    match argon2id_hash(password, salt, params) {
        Ok(key) => Ok(key),
        Err(_) => Err(HashError::KdfFailure),
    }
}

/// `hash` is an encoded hash of `password` at the cost given, for some
/// salt of 1024 bytes, and the password is verified against it.
pub open spec fn hashes(hash: Seq<u8>, password: Seq<u8>, params: KdfParams) -> bool {
    &&& valid_utf8(hash)
    &&& argon2_verified(decode_utf8(hash), password) == Some(true)
    &&& exists|salt: Seq<u8>|
        salt.len() == 1024 && decode_utf8(hash) == #[trigger] argon2id_encoded(
            password,
            salt,
            params.mem_cost,
            params.time_cost,
            params.lanes,
            params.hash_length,
        )
}

/// What verifying `password` against `hash` yields.
pub open spec fn verified(hash: Seq<u8>, password: Seq<u8>) -> Result<bool, HashError> {
    if !valid_utf8(hash) {
        Err(HashError::DecodingFail)
    } else {
        match argon2_verified(decode_utf8(hash), password) {
            Some(same) => Ok(same),
            None => Err(HashError::DecodingFail),
        }
    }
}

/// Hashes passwords, each with a fresh salt.
pub struct Argon2id {
    rng: rand_hc::Hc128Rng,
    config: KdfParams,
}

impl Argon2id {
    /// The cost that the hasher works with.
    pub closed spec fn params(&self) -> KdfParams {
        self.config
    }

    /// A hasher with the standard cost: 128 MiB of memory, 25 passes, 8
    /// lanes and a hash of 8912 bytes. Whether there is one is up to the
    /// operating system: it may have no entropy to seed the generator with.
    pub fn new() -> (r: Result<Argon2id, NoEntropy>)
        ensures
            r matches Ok(hasher) ==> hasher.params() == (KdfParams {
                mem_cost: 131072,
                time_cost: 25,
                lanes: 8,
                hash_length: 8912,
            }),
    {
        Argon2id::new_custom(
            KdfParams { mem_cost: 131072, time_cost: 25, lanes: 8, hash_length: 8912 },
        )
    }

    /// A hasher with a cost of the caller's choice.
    pub fn new_custom(config: KdfParams) -> (r: Result<Argon2id, NoEntropy>)
        ensures
            r matches Ok(hasher) ==> hasher.params() == config,
    {
        match seeded_rng() {
            Ok(rng) => Ok(Argon2id { rng, config }),
            Err(e) => Err(e),
        }
    }

    /// Hashes `pass` with a fresh salt and returns the encoded hash.
    pub fn hash_bytes(&mut self, pass: &[u8]) -> (r: Result<Vec<u8>, HashError>)
        ensures
            final(self).params() == old(self).params(),
            match r {
                Ok(hash) => kdf_accepts(old(self).params(), pass@.len(), 1024) && hashes(
                    hash@,
                    pass@,
                    old(self).params(),
                ),
                Err(e) => e == HashError::KdfFailure && !kdf_accepts(
                    old(self).params(),
                    pass@.len(),
                    1024,
                ),
            },
    {
        let mut salt: [u8; 1024] = random_bytes(&mut self.rng);
        let ghost salt_used = salt@;
        let r = match argon2id_hash_encoded(pass, salt.as_slice(), &self.config) {
            Ok(encoded) => {
                proof {
                    vstd::utf8::encode_utf8_valid_utf8(encoded@);
                    vstd::utf8::encode_utf8_decode_utf8(encoded@);
                    assert(salt_used.len() == 1024);
                    assert(encoded@ == argon2id_encoded(
                        pass@,
                        salt_used,
                        self.config.mem_cost,
                        self.config.time_cost,
                        self.config.lanes,
                        self.config.hash_length,
                    ));
                }
                Ok(encoded.as_str().as_bytes_vec())
            },
            Err(_) => Err(HashError::KdfFailure),
        };
        wipe_array(&mut salt);
        r
    }

    /// Hashes the UTF-8 encoding of `pass`.
    pub fn hash_str(&mut self, pass: &str) -> (r: Result<Vec<u8>, HashError>)
        ensures
            final(self).params() == old(self).params(),
            match r {
                Ok(hash) => kdf_accepts(old(self).params(), encode_utf8(pass@).len(), 1024)
                    && hashes(hash@, encode_utf8(pass@), old(self).params()),
                Err(e) => e == HashError::KdfFailure && !kdf_accepts(
                    old(self).params(),
                    encode_utf8(pass@).len(),
                    1024,
                ),
            },
    {
        self.hash_bytes(pass.as_bytes())
    }

    /// Whether the UTF-8 encoding of `pass` has the encoded hash `hash`.
    pub fn verify_str(&mut self, hash: &Vec<u8>, pass: &str) -> (r: Result<bool, HashError>)
        ensures
            *final(self) == *old(self),
            r == verified(hash@, encode_utf8(pass@)),
    {
        self.verify_bytes(hash, pass.as_bytes())
    }

    /// Whether `pass` has the encoded hash `hash`. Two hashes of one
    /// password differ by their salt, so they cannot be compared directly.
    pub fn verify_bytes(&mut self, hash: &Vec<u8>, pass: &[u8]) -> (r: Result<bool, HashError>)
        ensures
            *final(self) == *old(self),
            r == verified(hash@, pass@),
    {
        let hash_str = match utf8_text(hash.as_slice()) {
            Some(text) => text,
            None => return Err(HashError::DecodingFail),
        };
        proof {
            vstd::utf8::encode_utf8_decode_utf8(hash_str@);
        }
        match argon2_verify_encoded(hash_str, pass) {
            Ok(same) => Ok(same),
            Err(_) => Err(HashError::DecodingFail),
        }
    }
}

/// A password is verified against each of its hashes.
pub proof fn lemma_hash_verifies(hash: Seq<u8>, password: Seq<u8>, params: KdfParams)
    requires
        hashes(hash, password, params),
    ensures
        verified(hash, password) == Ok::<bool, HashError>(true),
{
}

} // verus!
