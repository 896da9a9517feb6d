//! Public-key authenticated encryption of entries.
//!
//! A box is built from one key pair, which is both sender and recipient:
//! the vault has a single user. Every ciphertext carries the nonce it was
//! made with as its last 24 bytes.

use super::random::{seeded_rng, NoEntropy};
use super::wipe::wipe_array;
use vstd::prelude::*;
use vstd::slice::slice_subrange;

verus! {

/// `aead::Error`, the error of the ciphers: it says that an operation
/// failed and nothing more. Nothing of it is visible to the proofs.
#[verifier::external_type_specification]
#[verifier::external_body]
pub struct ExAeadError(crypto_box::aead::Error);

/// Length of a nonce in bytes.
pub const NONCE_LEN: usize = 24;

/// Length of the authentication tag in bytes.
pub const TAG_LEN: usize = 16;

/// The X25519 public key that belongs to a secret key.
pub uninterp spec fn x25519_public_key(secret: Seq<u8>) -> Seq<u8>;

/// What `ChaChaBox` encryption yields for a plaintext: ciphertext and tag,
/// without the nonce.
pub uninterp spec fn box_seal(
    secret: Seq<u8>,
    public: Seq<u8>,
    nonce: Seq<u8>,
    plain: Seq<u8>,
) -> Seq<u8>;

/// What `ChaChaBox` decryption yields for ciphertext and tag: the plaintext,
/// or `None` where authentication fails.
pub uninterp spec fn box_open(
    secret: Seq<u8>,
    public: Seq<u8>,
    nonce: Seq<u8>,
    sealed: Seq<u8>,
) -> Option<Seq<u8>>;

/// Whether the cipher accepts a payload of `len` bytes: it refuses one of
/// `2^32 - 1` blocks of 64 bytes or more.
pub open spec fn sealable(len: nat) -> bool {
    len / 64 < 0xFFFF_FFFF
}

/// The nonce at the end of a ciphertext.
pub open spec fn nonce_part(ciphertext: Seq<u8>) -> Seq<u8>
    recommends
        ciphertext.len() >= NONCE_LEN,
{
    ciphertext.subrange(ciphertext.len() - NONCE_LEN, ciphertext.len() as int)
}

/// A ciphertext without the nonce at its end.
pub open spec fn sealed_part(ciphertext: Seq<u8>) -> Seq<u8>
    recommends
        ciphertext.len() >= NONCE_LEN,
{
    ciphertext.subrange(0, ciphertext.len() - NONCE_LEN)
}

/// `ciphertext` is an encryption of `plain` under the key pair: the sealed
/// payload for some nonce, followed by that nonce.
pub open spec fn encrypts(
    ciphertext: Seq<u8>,
    plain: Seq<u8>,
    secret: Seq<u8>,
    public: Seq<u8>,
) -> bool {
    &&& ciphertext.len() == plain.len() + TAG_LEN + NONCE_LEN
    &&& sealed_part(ciphertext) == box_seal(secret, public, nonce_part(ciphertext), plain)
    &&& box_open(secret, public, nonce_part(ciphertext), sealed_part(ciphertext)) == Some(plain)
}

/// What decryption of `ciphertext` under the key pair yields: nothing for
/// what is too short to hold a tag and a nonce, and else what opening the
/// sealed payload gives.
pub open spec fn decryption(ciphertext: Seq<u8>, secret: Seq<u8>, public: Seq<u8>) -> Option<
    Seq<u8>,
> {
    if ciphertext.len() < TAG_LEN + NONCE_LEN {
        None
    } else {
        box_open(secret, public, nonce_part(ciphertext), sealed_part(ciphertext))
    }
}

/// Why an operation of the scheme failed.
#[derive(Debug, Clone, Copy, PartialEq, Eq, Structural)]
pub enum EciesError {
    /// The payload is longer than the cipher accepts.
    PayloadTooLong,
    /// The ciphertext is not authentic under the keys given: it was made
    /// with other keys, was altered, or is too short to hold a nonce.
    DecryptFailed,
}

/// Calls `SecretKey::generate` and copies the key's bytes out.
///
/// Trusted: nothing is claimed of the key.
#[verifier::external_body]
fn fresh_secret_key(rng: &mut rand_hc::Hc128Rng) -> [u8; 32] {
    crypto_box::SecretKey::generate(rng).as_bytes().to_owned()
}

/// Calls `crypto_box::generate_nonce` and copies the nonce out.
///
/// Trusted: nothing is claimed of the nonce; the array type gives its
/// length.
#[verifier::external_body]
fn fresh_nonce(rng: &mut rand_hc::Hc128Rng) -> [u8; 24] {
    crypto_box::generate_nonce(rng).into()
}

/// Calls `SecretKey::public_key` on the secret key made of `secret`.
///
/// Trusted: the result is the public key that `x25519_public_key` names.
#[verifier::external_body]
fn public_key_for(secret: &[u8; 32]) -> (public: [u8; 32])
    ensures
        public@ == x25519_public_key(secret@),
{
    crypto_box::SecretKey::from(secret.to_owned()).public_key().as_bytes().to_owned()
}

/// Calls `ChaChaBox::new` and `Aead::encrypt` on it.
///
/// Trusted: the call succeeds exactly on a payload that is `sealable`; the
/// result is the payload that `box_seal` names, 16 bytes longer than the
/// plaintext, and `box_open` gives the plaintext back for the same keys and
/// nonce.
#[verifier::external_body]
#[allow(deprecated)]
fn box_encrypt(secret: &[u8; 32], public: &[u8; 32], nonce: &[u8; 24], plain: &[u8]) -> (r: Result<
    Vec<u8>,
    crypto_box::aead::Error,
>)
    ensures
        r is Ok <==> sealable(plain@.len()),
        r matches Ok(sealed) ==> {
            &&& sealed@ == box_seal(secret@, public@, nonce@, plain@)
            &&& sealed@.len() == plain@.len() + TAG_LEN
            &&& box_open(secret@, public@, nonce@, sealed@) == Some(plain@)
        },
{
    let the_box = crypto_box::ChaChaBox::new(
        &crypto_box::PublicKey::from(public.to_owned()),
        &crypto_box::SecretKey::from(secret.to_owned()),
    );
    let nonce = crypto_box::aead::generic_array::GenericArray::from_slice(nonce);
    crypto_box::aead::Aead::encrypt(&the_box, nonce, plain)
}

/// Calls `ChaChaBox::new` and `Aead::decrypt` on it.
///
/// Trusted: the result is what `box_open` names, and a plaintext is 16 bytes
/// shorter than the sealed payload.
#[verifier::external_body]
#[allow(deprecated)]
fn box_decrypt(secret: &[u8; 32], public: &[u8; 32], nonce: &[u8], sealed: &[u8]) -> (r: Result<
    Vec<u8>,
    crypto_box::aead::Error,
>)
    requires
        nonce@.len() == NONCE_LEN,
    ensures
        match r {
            Ok(plain) => box_open(secret@, public@, nonce@, sealed@) == Some(plain@)
                && plain@.len() + TAG_LEN == sealed@.len(),
            Err(_) => box_open(secret@, public@, nonce@, sealed@) is None,
        },
{
    let the_box = crypto_box::ChaChaBox::new(
        &crypto_box::PublicKey::from(public.to_owned()),
        &crypto_box::SecretKey::from(secret.to_owned()),
    );
    let nonce = crypto_box::aead::generic_array::GenericArray::from_slice(nonce);
    crypto_box::aead::Aead::decrypt(&the_box, nonce, sealed)
}

/// Appends the nonce to a sealed payload.
pub fn append_nonce(sealed: Vec<u8>, nonce: &[u8; 24]) -> (ciphertext: Vec<u8>)
    ensures
        ciphertext@ == sealed@ + nonce@,
        nonce_part(ciphertext@) == nonce@,
        sealed_part(ciphertext@) == sealed@,
{
    let mut ciphertext = sealed;
    ciphertext.extend_from_slice(nonce.as_slice());
    assert(nonce_part(ciphertext@) =~= nonce@);
    assert(sealed_part(ciphertext@) =~= sealed@);
    ciphertext
}

/// Takes a ciphertext apart: the sealed payload and the nonce at its end.
/// `None` where it is too short to hold a nonce.
pub fn split_nonce(ciphertext: &[u8]) -> (r: Option<(&[u8], &[u8])>)
    ensures
        match r {
            Some((sealed, nonce)) => {
                &&& ciphertext@.len() >= NONCE_LEN
                &&& sealed@ == sealed_part(ciphertext@)
                &&& nonce@ == nonce_part(ciphertext@)
                &&& nonce@.len() == NONCE_LEN
            },
            None => ciphertext@.len() < NONCE_LEN,
        },
{
    if ciphertext.len() < NONCE_LEN {
        return None;
    }
    let cut = ciphertext.len() - NONCE_LEN;
    Some((slice_subrange(ciphertext, 0, cut), slice_subrange(ciphertext, cut, ciphertext.len())))
}

/// The scheme, with the random number generator that its nonces and keys
/// come from.
pub struct ECIES {
    rng: rand_hc::Hc128Rng,
}

impl ECIES {
    /// A scheme with a generator seeded by the operating system. Whether
    /// there is one is up to the operating system: it may have no entropy
    /// to give.
    pub fn new() -> Result<ECIES, NoEntropy> {
        match seeded_rng() {
            Ok(rng) => Ok(ECIES { rng }),
            Err(e) => Err(e),
        }
    }

    /// A fresh key pair: the public key, then the secret key.
    pub fn gen_key_pair(&mut self) -> (pair: ([u8; 32], [u8; 32]))
        ensures
            pair.0@ == x25519_public_key(pair.1@),
    {
        let secret_key = fresh_secret_key(&mut self.rng);
        let public_key = public_key_for(&secret_key);
        (public_key, secret_key)
    }

    /// Encrypts `bytes` under a fresh nonce.
    pub fn encrypt_bytes(
        &mut self,
        bytes: &Vec<u8>,
        secret_key: &[u8; 32],
        public_key: &[u8; 32],
    ) -> (r: Result<Vec<u8>, EciesError>)
        ensures
            match r {
                Ok(ciphertext) => sealable(bytes@.len()) && encrypts(
                    ciphertext@,
                    bytes@,
                    secret_key@,
                    public_key@,
                ),
                Err(e) => !sealable(bytes@.len()) && e == EciesError::PayloadTooLong,
            },
    {
        self.encrypt_bytes_array(bytes.as_slice(), secret_key, public_key)
    }

    /// Decrypts what `encrypt_bytes` made.
    pub fn decrypt_bytes(
        &mut self,
        bytes: &Vec<u8>,
        secret_key: &[u8; 32],
        public_key: &[u8; 32],
    ) -> (r: Result<Vec<u8>, EciesError>)
        ensures
            *final(self) == *old(self),
            match r {
                Ok(plain) => decryption(bytes@, secret_key@, public_key@) == Some(plain@),
                Err(e) => decryption(bytes@, secret_key@, public_key@) is None && e
                    == EciesError::DecryptFailed,
            },
    {
        self.decrypt_bytes_array(bytes.as_slice(), secret_key, public_key)
    }

    /// Encrypts `bytes` under a fresh nonce.
    pub fn encrypt_bytes_array(
        &mut self,
        bytes: &[u8],
        secret_key: &[u8; 32],
        public_key: &[u8; 32],
    ) -> (r: Result<Vec<u8>, EciesError>)
        ensures
            match r {
                Ok(ciphertext) => sealable(bytes@.len()) && encrypts(
                    ciphertext@,
                    bytes@,
                    secret_key@,
                    public_key@,
                ),
                Err(e) => !sealable(bytes@.len()) && e == EciesError::PayloadTooLong,
            },
    {
        let mut nonce: [u8; 24] = fresh_nonce(&mut self.rng);
        let r = match box_encrypt(secret_key, public_key, &nonce, bytes) {
            Ok(sealed) => Ok(append_nonce(sealed, &nonce)),
            Err(_) => Err(EciesError::PayloadTooLong),
        };
        wipe_array(&mut nonce);
        r
    }

    /// Decrypts what `encrypt_bytes_array` made.
    pub fn decrypt_bytes_array(
        &mut self,
        bytes: &[u8],
        secret_key: &[u8; 32],
        public_key: &[u8; 32],
    ) -> (r: Result<Vec<u8>, EciesError>)
        ensures
            *final(self) == *old(self),
            match r {
                Ok(plain) => decryption(bytes@, secret_key@, public_key@) == Some(plain@),
                Err(e) => decryption(bytes@, secret_key@, public_key@) is None && e
                    == EciesError::DecryptFailed,
            },
    {
        let (sealed, nonce) = match split_nonce(bytes) {
            Some(parts) => parts,
            None => return Err(EciesError::DecryptFailed),
        };
        if sealed.len() < TAG_LEN {
            return Err(EciesError::DecryptFailed);
        }
        match box_decrypt(secret_key, public_key, nonce, sealed) {
            Ok(plain) => Ok(plain),
            Err(_) => Err(EciesError::DecryptFailed),
        }
    }
}

/// Decryption inverts encryption: whatever `encrypt_bytes` returned for a
/// payload, `decrypt_bytes` turns back into that payload under the same key
/// pair, whichever nonce was drawn.
pub proof fn lemma_decrypt_inverts_encrypt(
    ciphertext: Seq<u8>,
    plain: Seq<u8>,
    secret: Seq<u8>,
    public: Seq<u8>,
)
    requires
        encrypts(ciphertext, plain, secret, public),
    ensures
        decryption(ciphertext, secret, public) == Some(plain),
{
}

} // verus!
