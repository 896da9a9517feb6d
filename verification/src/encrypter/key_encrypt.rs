//! Wrapping of a vault's private key under its password.
//!
//! A key is derived from the password and a fresh salt with Argon2id, and
//! the private key is encrypted under it with XChaCha20-Poly1305. The blob
//! that is stored is the ciphertext, then the nonce, then the salt.

use super::ecies::{sealable, NONCE_LEN, TAG_LEN};
use super::random::{random_bytes, seeded_rng, NoEntropy};
use super::wipe::{wipe_array, wipe_vec};
use crate::hasher::argon2id::{argon2id_hash, argon2id_raw, kdf_accepts, KdfParams};
use vstd::prelude::*;
use vstd::slice::slice_subrange;

verus! {

/// Length of the salt in bytes.
pub const SALT_LEN: usize = 1024;

/// Length of the derived key in bytes.
pub const KEY_LEN: usize = 32;

/// What XChaCha20-Poly1305 encryption yields: ciphertext and tag.
pub uninterp spec fn xchacha_seal(key: Seq<u8>, nonce: Seq<u8>, plain: Seq<u8>) -> Seq<u8>;

/// What XChaCha20-Poly1305 decryption yields: the plaintext, or `None` where
/// authentication fails.
pub uninterp spec fn xchacha_open(key: Seq<u8>, nonce: Seq<u8>, sealed: Seq<u8>) -> Option<
    Seq<u8>,
>;

/// Calls `XChaCha20Poly1305::new` and `Aead::encrypt` on it.
///
/// Trusted: the call succeeds exactly on a payload that is `sealable`; the
/// result is the payload that `xchacha_seal` names, 16 bytes longer than the
/// plaintext, and `xchacha_open` gives the plaintext back for the same key
/// and nonce.
#[verifier::external_body]
#[allow(deprecated)]
fn xchacha_encrypt(key: &[u8], nonce: &[u8; 24], plain: &[u8]) -> (r: Result<
    Vec<u8>,
    chacha20poly1305::aead::Error,
>)
    requires
        key@.len() == KEY_LEN,
    ensures
        r is Ok <==> sealable(plain@.len()),
        r matches Ok(sealed) ==> {
            &&& sealed@ == xchacha_seal(key@, nonce@, plain@)
            &&& sealed@.len() == plain@.len() + TAG_LEN
            &&& xchacha_open(key@, nonce@, sealed@) == Some(plain@)
        },
{
    let aead = <chacha20poly1305::XChaCha20Poly1305 as chacha20poly1305::aead::NewAead>::new(
        chacha20poly1305::Key::from_slice(key),
    );
    let nonce = chacha20poly1305::XNonce::from_slice(nonce);
    chacha20poly1305::aead::Aead::encrypt(&aead, nonce, plain)
}

/// Calls `XChaCha20Poly1305::new` and `Aead::decrypt` on it.
///
/// Trusted: the result is what `xchacha_open` names, and a plaintext is 16
/// bytes shorter than the sealed payload.
#[verifier::external_body]
#[allow(deprecated)]
fn xchacha_decrypt(key: &[u8], nonce: &[u8], sealed: &[u8]) -> (r: Result<
    Vec<u8>,
    chacha20poly1305::aead::Error,
>)
    requires
        key@.len() == KEY_LEN,
        nonce@.len() == NONCE_LEN,
    ensures
        match r {
            Ok(plain) => xchacha_open(key@, nonce@, sealed@) == Some(plain@) && plain@.len()
                + TAG_LEN == sealed@.len(),
            Err(_) => xchacha_open(key@, nonce@, sealed@) is None,
        },
{
    let aead = <chacha20poly1305::XChaCha20Poly1305 as chacha20poly1305::aead::NewAead>::new(
        chacha20poly1305::Key::from_slice(key),
    );
    let nonce = chacha20poly1305::XNonce::from_slice(nonce);
    chacha20poly1305::aead::Aead::decrypt(&aead, nonce, sealed)
}

/// Why wrapping or unwrapping a key failed.
#[derive(Debug, Clone, Copy, PartialEq, Eq, Structural)]
pub enum KeyEncryptError {
    /// The key derivation refused its parameters. This is a fault of the
    /// configuration, not of the password.
    KdfFailure,
    /// The blob is not authentic under the password: the password is wrong,
    /// or the blob was altered or is too short.
    WrongCredentials,
}

/// The salt at the end of a blob.
pub open spec fn salt_part(blob: Seq<u8>) -> Seq<u8>
    recommends
        blob.len() >= SALT_LEN + NONCE_LEN,
{
    blob.subrange(blob.len() - SALT_LEN, blob.len() as int)
}

/// The nonce before the salt of a blob.
pub open spec fn blob_nonce_part(blob: Seq<u8>) -> Seq<u8>
    recommends
        blob.len() >= SALT_LEN + NONCE_LEN,
{
    blob.subrange(blob.len() - SALT_LEN - NONCE_LEN, blob.len() - SALT_LEN)
}

/// The ciphertext and tag at the start of a blob.
pub open spec fn blob_sealed_part(blob: Seq<u8>) -> Seq<u8>
    recommends
        blob.len() >= SALT_LEN + NONCE_LEN,
{
    blob.subrange(0, blob.len() - SALT_LEN - NONCE_LEN)
}

/// The key that is derived from a password and a salt.
pub open spec fn derived_key(password: Seq<u8>, salt: Seq<u8>, params: KdfParams) -> Seq<u8> {
    argon2id_raw(
        password,
        salt,
        params.mem_cost,
        params.time_cost,
        params.lanes,
        params.hash_length,
    )
}

/// Whether keys can be wrapped under a password of this length: the
/// derivation accepts the parameters and yields a key of 32 bytes.
pub open spec fn can_wrap(params: KdfParams, password_len: nat) -> bool {
    params.hash_length == KEY_LEN && kdf_accepts(params, password_len, SALT_LEN as nat)
}

/// `blob` wraps `key` under `password`: keys can be wrapped at this cost,
/// and the blob is the key sealed under the derived key for some salt and
/// nonce, followed by that nonce and salt.
pub open spec fn wraps(blob: Seq<u8>, password: Seq<u8>, key: Seq<u8>, params: KdfParams) -> bool {
    let k = derived_key(password, salt_part(blob), params);
    &&& can_wrap(params, password.len())
    &&& blob.len() == key.len() + TAG_LEN + NONCE_LEN + SALT_LEN
    &&& blob_sealed_part(blob) == xchacha_seal(k, blob_nonce_part(blob), key)
    &&& xchacha_open(k, blob_nonce_part(blob), blob_sealed_part(blob)) == Some(key)
}

/// What unwrapping `blob` under `password` yields. A blob too short to
/// hold a tag, a nonce and a salt is refused as a wrong password is, before
/// any key is derived.
pub open spec fn unwrapped(blob: Seq<u8>, password: Seq<u8>, params: KdfParams) -> Result<
    Seq<u8>,
    KeyEncryptError,
> {
    if blob.len() < TAG_LEN + NONCE_LEN + SALT_LEN {
        Err(KeyEncryptError::WrongCredentials)
    } else if !can_wrap(params, password.len()) {
        Err(KeyEncryptError::KdfFailure)
    } else {
        match xchacha_open(
            derived_key(password, salt_part(blob), params),
            blob_nonce_part(blob),
            blob_sealed_part(blob),
        ) {
            Some(key) => Ok(key),
            None => Err(KeyEncryptError::WrongCredentials),
        }
    }
}

/// Puts a blob together: the sealed key, then the nonce, then the salt.
pub fn assemble_blob(sealed: Vec<u8>, nonce: &[u8; 24], salt: &[u8; 1024]) -> (blob: Vec<u8>)
    ensures
        blob@ == sealed@ + nonce@ + salt@,
        blob_sealed_part(blob@) == sealed@,
        blob_nonce_part(blob@) == nonce@,
        salt_part(blob@) == salt@,
{
    let mut blob = sealed;
    blob.extend_from_slice(nonce.as_slice());
    blob.extend_from_slice(salt.as_slice());
    assert(blob_sealed_part(blob@) =~= sealed@);
    assert(blob_nonce_part(blob@) =~= nonce@);
    assert(salt_part(blob@) =~= salt@);
    blob
}

/// Takes a blob apart: the sealed key, the nonce and the salt. `None` where
/// it is too short to hold a nonce and a salt.
pub fn split_blob(blob: &[u8]) -> (r: Option<(&[u8], &[u8], &[u8])>)
    ensures
        match r {
            Some((sealed, nonce, salt)) => {
                &&& blob@.len() >= SALT_LEN + NONCE_LEN
                &&& sealed@ == blob_sealed_part(blob@)
                &&& nonce@ == blob_nonce_part(blob@)
                &&& salt@ == salt_part(blob@)
                &&& nonce@.len() == NONCE_LEN
                &&& salt@.len() == SALT_LEN
            },
            None => blob@.len() < SALT_LEN + NONCE_LEN,
        },
{
    if blob.len() < SALT_LEN + NONCE_LEN {
        return None;
    }
    let salt_start = blob.len() - SALT_LEN;
    let nonce_start = salt_start - NONCE_LEN;
    Some(
        (
            slice_subrange(blob, 0, nonce_start),
            slice_subrange(blob, nonce_start, salt_start),
            slice_subrange(blob, salt_start, blob.len()),
        ),
    )
}

/// Wraps keys under passwords.
pub struct KeyEncrypt {
    rng: rand_hc::Hc128Rng,
    config_argon: KdfParams,
}

impl KeyEncrypt {
    /// The cost parameters that the wrapper works with.
    pub closed spec fn params(&self) -> KdfParams {
        self.config_argon
    }

    /// A wrapper with the standard cost: 128 MiB of memory, 100 passes and
    /// 8 lanes. Whether there is one is up to the operating system: it may
    /// have no entropy to seed the generator with.
    pub fn new() -> (r: Result<KeyEncrypt, NoEntropy>)
        ensures
            r matches Ok(wrapper) ==> wrapper.params() == (KdfParams {
                mem_cost: 131072,
                time_cost: 100,
                lanes: 8,
                hash_length: 32,
            }),
    {
        KeyEncrypt::with_params(
            KdfParams { mem_cost: 131072, time_cost: 100, lanes: 8, hash_length: 32 },
        )
    }

    /// A wrapper with a cost of the caller's choice.
    pub fn with_params(params: KdfParams) -> (r: Result<KeyEncrypt, NoEntropy>)
        ensures
            r matches Ok(wrapper) ==> wrapper.params() == params,
    {
        match seeded_rng() {
            Ok(rng) => Ok(KeyEncrypt { rng, config_argon: params }),
            Err(e) => Err(e),
        }
    }

    /// The cost parameters that the wrapper works with.
    pub fn kdf_params(&self) -> (params: KdfParams)
        ensures
            params == self.params(),
    {
        self.config_argon
    }

    /// Wraps `key` under `password` with a fresh salt and nonce.
    pub fn encrypt_with_password_bytes(&mut self, password: &[u8], key: &[u8; 32]) -> (r: Result<
        Vec<u8>,
        KeyEncryptError,
    >)
        ensures
            final(self).params() == old(self).params(),
            match r {
                Ok(blob) => wraps(blob@, password@, key@, old(self).params()),
                Err(e) => !can_wrap(old(self).params(), password@.len()) && e
                    == KeyEncryptError::KdfFailure,
            },
    {
        if self.config_argon.hash_length != 32 {
            return Err(KeyEncryptError::KdfFailure);
        }
        let mut salt: [u8; 1024] = random_bytes(&mut self.rng);
        let mut hash = match argon2id_hash(password, salt.as_slice(), &self.config_argon) {
            Ok(hash) => hash,
            Err(_) => {
                wipe_array(&mut salt);
                return Err(KeyEncryptError::KdfFailure);
            },
        };
        let mut nonce: [u8; 24] = random_bytes(&mut self.rng);
        let r = match xchacha_encrypt(hash.as_slice(), &nonce, key.as_slice()) {
            Ok(sealed) => Ok(assemble_blob(sealed, &nonce, &salt)),
            Err(_) => Err(KeyEncryptError::KdfFailure),
        };
        wipe_array(&mut salt);
        wipe_array(&mut nonce);
        wipe_vec(&mut hash);
        r
    }

    /// Unwraps what `encrypt_with_password_bytes` made.
    pub fn decrypt_with_password_bytes(&mut self, password: &[u8], encrypted_key: &[u8]) -> (r:
        Result<Vec<u8>, KeyEncryptError>)
        ensures
            *final(self) == *old(self),
            match r {
                Ok(key) => unwrapped(encrypted_key@, password@, old(self).params()) == Ok::<
                    Seq<u8>,
                    KeyEncryptError,
                >(key@),
                Err(e) => unwrapped(encrypted_key@, password@, old(self).params()) == Err::<
                    Seq<u8>,
                    KeyEncryptError,
                >(e),
            },
    {
        let (sealed, nonce, salt) = match split_blob(encrypted_key) {
            Some(parts) => parts,
            None => return Err(KeyEncryptError::WrongCredentials),
        };
        if sealed.len() < TAG_LEN {
            return Err(KeyEncryptError::WrongCredentials);
        }
        if self.config_argon.hash_length != 32 {
            return Err(KeyEncryptError::KdfFailure);
        }
        let mut hash = match argon2id_hash(password, salt, &self.config_argon) {
            Ok(hash) => hash,
            Err(_) => return Err(KeyEncryptError::KdfFailure),
        };
        let r = match xchacha_decrypt(hash.as_slice(), nonce, sealed) {
            Ok(key) => Ok(key),
            Err(_) => Err(KeyEncryptError::WrongCredentials),
        };
        wipe_vec(&mut hash);
        r
    }
}

/// Unwrapping inverts wrapping: whatever `encrypt_with_password_bytes`
/// returned for a key, `decrypt_with_password_bytes` turns back into that
/// key under the same password and cost, whichever salt and nonce were drawn.
pub proof fn lemma_unwrap_inverts_wrap(
    blob: Seq<u8>,
    password: Seq<u8>,
    key: Seq<u8>,
    params: KdfParams,
)
    requires
        wraps(blob, password, key, params),
    ensures
        unwrapped(blob, password, params) == Ok::<Seq<u8>, KeyEncryptError>(key),
{
}

} // verus!
