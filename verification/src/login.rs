//! Logging in to a vault: recovery of its secrets from the registry and a
//! password.

use crate::encrypter::key_encrypt::{unwrapped, KeyEncrypt, KeyEncryptError};
use crate::encrypter::wipe::forget;
use crate::hasher::argon2id::KdfParams;
use crate::hasher::blake3::{blake3_digest, hash_str};
use crate::utils::db::{db_contains_key, db_get, EstashDb, RegistryView};
use crate::utils::record::{read_record_id, record_id};
use crate::utils::Vault;
use vstd::prelude::*;
use vstd::string::StringExecFns;
use vstd::string::StringSliceAdditionalSpecFns;
use vstd::utf8::encode_utf8;

verus! {

/// A record of the registry.
pub struct VaultDbValue {
    id: u64,
}

impl VaultDbValue {
    /// The id that the record holds.
    pub closed spec fn spec_id(&self) -> u64 {
        self.id
    }

    /// The id that the record holds.
    pub fn id(&self) -> (id: u64)
        ensures
            id == self.spec_id(),
    {
        self.id
    }

    /// Reads a record as the registry stores it.
    pub fn from_bytes(value: &[u8]) -> (r: Option<VaultDbValue>)
        ensures
            match r {
                Some(record) => record_id(value@) == Some(record.spec_id()),
                None => record_id(value@) is None,
            },
    {
        match read_record_id(value) {
            Some(id) => Some(VaultDbValue { id }),
            None => None,
        }
    }
}

/// Calls `TryFrom::try_from` for an array and a vector.
///
/// Trusted: a vector of `N` elements comes back as the array of its
/// elements, any other comes back unchanged as the error.
#[verifier::external_body]
fn vec_into_array<T, const N: usize>(v: Vec<T>) -> (r: Result<[T; N], Vec<T>>)
    ensures
        match r {
            Ok(array) => v@.len() == N && array@ == v@,
            Err(back) => v@.len() != N && back == v,
        },
{
    <[T; N]>::try_from(v)
}

/// Conversion of a vector into an array of as many elements.
pub trait ToOwnedArray {
    /// The array of the vector's elements, or the vector itself where it
    /// does not hold `N` of them.
    fn to_owned_array<T, const N: usize>(v: Vec<T>) -> (r: Result<[T; N], Vec<T>>)
        ensures
            match r {
                Ok(array) => v@.len() == N && array@ == v@,
                Err(back) => v@.len() != N && back == v,
            },
    {
        vec_into_array(v)
    }
}

impl ToOwnedArray for Vec<u8> {
    fn to_owned_array<T, const N: usize>(v: Vec<T>) -> (r: Result<[T; N], Vec<T>>) {
        vec_into_array(v)
    }
}

/// Why a login failed. The number is a code for the caller's use; the
/// library always gives 0.
#[derive(Debug, Clone, Copy, PartialEq, Eq, Structural)]
pub enum LoginError {
    /// No vault of that name, or the password is wrong.
    WrongCredentials(u16),
    /// A record of the registry is unreadable, or the wrapped private key
    /// of a registered vault is missing.
    CorruptedVaultsDb(u16),
    /// The store of records could not be read.
    FailedToAccessVaultsDb(u16),
    /// The keys of the vault are there but unusable.
    CorruptedVault(u16),
    /// The store of private keys could not be read.
    FailedToAccessPrivKeyDb(u16),
    /// Kept for callers that match on it; the library does not return it.
    CorruptedPubKeyDb(u16),
    /// The store of public keys could not be read.
    FailedToAccessPubKeyDb(u16),
    /// The key derivation refused its parameters.
    UnknownError(u16),
}

/// The key under which the registry holds what belongs to a vault: the hash
/// of its name.
pub open spec fn registry_key(vault_name: Seq<char>) -> Seq<u8> {
    blake3_digest(encode_utf8(vault_name))
}

/// What a login yields where every store can be read: the vault's id,
/// private key and public key, or the reason why there are none.
pub open spec fn login_result(
    registry: RegistryView,
    vault_name: Seq<char>,
    password: Seq<char>,
    params: KdfParams,
) -> Result<(u64, Seq<u8>, Seq<u8>), LoginError> {
    let key = registry_key(vault_name);
    if !registry.records.contains_key(key) {
        Err(LoginError::WrongCredentials(0))
    } else if record_id(registry.records[key]) is None {
        Err(LoginError::CorruptedVaultsDb(0))
    } else if !registry.priv_keys.contains_key(key) {
        Err(LoginError::CorruptedVaultsDb(0))
    } else {
        match unwrapped(registry.priv_keys[key], encode_utf8(password), params) {
            Err(KeyEncryptError::KdfFailure) => Err(LoginError::UnknownError(0)),
            Err(KeyEncryptError::WrongCredentials) => Err(LoginError::WrongCredentials(0)),
            Ok(priv_key) => checked_keys(
                record_id(registry.records[key]).unwrap(),
                priv_key,
                if registry.pub_keys.contains_key(key) {
                    Some(registry.pub_keys[key])
                } else {
                    None
                },
            ),
        }
    }
}

/// The last step of a login: both keys must be there and 32 bytes long.
pub open spec fn checked_keys(id: u64, priv_key: Seq<u8>, pub_key: Option<Seq<u8>>) -> Result<
    (u64, Seq<u8>, Seq<u8>),
    LoginError,
> {
    match pub_key {
        None => Err(LoginError::CorruptedVault(0)),
        Some(pub_key) => if priv_key.len() == 32 && pub_key.len() == 32 {
            Ok((id, priv_key, pub_key))
        } else {
            Err(LoginError::CorruptedVault(0))
        },
    }
}

/// Whether `r` is what `expected` says, with the vault's name added.
pub open spec fn vault_matches(
    r: Result<Vault, LoginError>,
    vault_name: Seq<char>,
    expected: Result<(u64, Seq<u8>, Seq<u8>), LoginError>,
) -> bool {
    match r {
        Ok(vault) => vault.vault_name@ == vault_name && expected == Ok::<
            (u64, Seq<u8>, Seq<u8>),
            LoginError,
        >((vault.id, vault.priv_key@, vault.pub_key@)),
        Err(e) => expected == Err::<(u64, Seq<u8>, Seq<u8>), LoginError>(e),
    }
}

/// The bytes of a key as an array: `None` where there are not 32 of them.
pub fn key_array(bytes: &Vec<u8>) -> (r: Option<[u8; 32]>)
    ensures
        match r {
            Some(key) => key@ == bytes@,
            None => bytes@.len() != 32,
        },
{
    if bytes.len() != 32 {
        return None;
    }
    let mut key = [0u8; 32];
    let mut i: usize = 0;
    while i < 32
        invariant
            i <= 32,
            bytes@.len() == 32,
            forall|j: int| 0 <= j < i ==> key@[j] == bytes@[j],
        decreases 32 - i,
    {
        key[i] = bytes[i];
        i += 1;
    }
    assert(key@ =~= bytes@);
    Some(key)
}

/// Puts the secrets of a vault together from what the stores gave, and
/// wipes the bytes that the private key came in.
pub fn assemble_vault(vault_name: &str, id: u64, priv_key: Vec<u8>, pub_key: Option<Vec<u8>>) -> (r:
    Result<Vault, LoginError>)
    ensures
        vault_matches(
            r,
            vault_name@,
            checked_keys(
                id,
                priv_key@,
                match pub_key {
                    Some(k) => Some(k@),
                    None => None,
                },
            ),
        ),
{
    let mut priv_key = priv_key;
    let priv_key_bytes = key_array(&priv_key);
    forget(&mut priv_key);
    let pub_key = match pub_key {
        Some(k) => k,
        None => return Err(LoginError::CorruptedVault(0)),
    };
    let priv_key_bytes: [u8; 32] = match priv_key_bytes {
        Some(key) => key,
        None => return Err(LoginError::CorruptedVault(0)),
    };
    let pub_key_bytes: [u8; 32] = match key_array(&pub_key) {
        Some(key) => key,
        None => return Err(LoginError::CorruptedVault(0)),
    };
    Ok(
        Vault {
            vault_name: String::from_str(vault_name),
            id,
            priv_key: priv_key_bytes,
            pub_key: pub_key_bytes,
        },
    )
}

/// Whether the record of a vault is there and holds an id: a login reads
/// the other stores only then.
pub open spec fn record_readable(registry: RegistryView, vault_name: Seq<char>) -> bool {
    let key = registry_key(vault_name);
    registry.records.contains_key(key) && record_id(registry.records[key]) is Some
}

/// Whether the wrapped private key of a vault is there and opens under the
/// password: a login reads the store of public keys only then.
pub open spec fn key_unwraps(
    registry: RegistryView,
    vault_name: Seq<char>,
    password: Seq<char>,
    params: KdfParams,
) -> bool {
    let key = registry_key(vault_name);
    registry.priv_keys.contains_key(key) && unwrapped(
        registry.priv_keys[key],
        encode_utf8(password),
        params,
    ) is Ok
}

/// What a login returns: what `login_result` says of the registry, or the
/// access error of a store that could not be read. The store of records is
/// read first; the store of private keys only for a record that is
/// readable; the store of public keys only once the private key is
/// unwrapped.
pub open spec fn login_post(
    registry: RegistryView,
    vault_name: Seq<char>,
    password: Seq<char>,
    params: KdfParams,
    r: Result<Vault, LoginError>,
) -> bool {
    ||| vault_matches(r, vault_name, login_result(registry, vault_name, password, params))
    ||| r matches Err(e) && e == LoginError::FailedToAccessVaultsDb(0)
    ||| r matches Err(e) && e == LoginError::FailedToAccessPrivKeyDb(0) && record_readable(
        registry,
        vault_name,
    )
    ||| r matches Err(e) && e == LoginError::FailedToAccessPubKeyDb(0) && record_readable(
        registry,
        vault_name,
    ) && key_unwraps(registry, vault_name, password, params)
}

/// Logs in to the vault `vault_name` with `password`.
pub fn login_vault(
    vault_name: &str,
    password: &str,
    estashdb: &mut EstashDb,
    key_encrypt: &mut KeyEncrypt,
) -> (r: Result<Vault, LoginError>)
    ensures
        *final(estashdb) == *old(estashdb),
        *final(key_encrypt) == *old(key_encrypt),
        login_post(old(estashdb)@, vault_name@, password@, old(key_encrypt).params(), r),
{
    let vault_name_hashed = hash_str(vault_name);
    match db_contains_key(&estashdb.vault_db, vault_name_hashed.as_slice()) {
        Ok(found) => {
            if !found {
                return Err(LoginError::WrongCredentials(0));
            }
        },
        Err(_) => return Err(LoginError::FailedToAccessVaultsDb(0)),
    }
    let record = match db_get(&estashdb.vault_db, vault_name_hashed.as_slice()) {
        Ok(Some(value)) => VaultDbValue::from_bytes(value.as_slice()),
        Ok(None) => return Err(LoginError::CorruptedVaultsDb(0)),
        Err(_) => return Err(LoginError::FailedToAccessVaultsDb(0)),
    };
    let vault_id = match record {
        Some(record) => record.id(),
        None => return Err(LoginError::CorruptedVaultsDb(0)),
    };
    let vault_priv_key_encrypted = match db_get(
        &estashdb.vault_priv_key_db,
        vault_name_hashed.as_slice(),
    ) {
        Ok(Some(value)) => value,
        Ok(None) => return Err(LoginError::CorruptedVaultsDb(0)),
        Err(_) => return Err(LoginError::FailedToAccessPrivKeyDb(0)),
    };
    let vault_priv_key = match key_encrypt.decrypt_with_password_bytes(
        password.as_bytes(),
        vault_priv_key_encrypted.as_slice(),
    ) {
        Ok(key) => key,
        Err(KeyEncryptError::KdfFailure) => return Err(LoginError::UnknownError(0)),
        Err(KeyEncryptError::WrongCredentials) => return Err(LoginError::WrongCredentials(0)),
    };
    let vault_pub_key = match db_get(&estashdb.vault_pub_key_db, vault_name_hashed.as_slice()) {
        Ok(found) => found,
        Err(_) => return Err(LoginError::FailedToAccessPubKeyDb(0)),
    };
    assemble_vault(vault_name, vault_id, vault_priv_key, vault_pub_key)
}

} // verus!
