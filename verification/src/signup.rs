//! Signing up: creation of a vault and its entry in the registry.

use crate::encrypter::ecies::{x25519_public_key, ECIES};
use crate::encrypter::key_encrypt::{
    can_wrap, lemma_unwrap_inverts_wrap, unwrapped, wraps, KeyEncrypt, KeyEncryptError,
};
use crate::hasher::argon2id::KdfParams;
use crate::hasher::blake3::hash_str;
use crate::login::{login_result, registry_key, LoginError};
use crate::utils::db::{
    db_contains_key, db_insert, db_open, db_pairs, db_remove, lists_contents, vault_path,
    vault_store_path, EstashDb, RegistryView,
};
use crate::utils::record::{read_record_id, record_id, record_text, write_record};
use vstd::prelude::*;
use vstd::string::StringSliceAdditionalSpecFns;
use vstd::utf8::{decode_utf8, encode_utf8};

verus! {

/// A record of the registry.
pub struct VaultDbValue {
    id: u64,
}

impl VaultDbValue {
    /// The id that the record holds.
    pub closed spec fn spec_id(&self) -> u64 {
        self.id
    }

    /// The record of the vault with this id.
    pub fn new(id: u64) -> (record: VaultDbValue)
        ensures
            record.spec_id() == id,
    {
        VaultDbValue { id }
    }

    /// The record as the registry stores it.
    pub fn to_json(&self) -> (r: Option<String>)
        ensures
            match r {
                Some(text) => record_text(self.spec_id()) == Some(text@) && record_id(
                    encode_utf8(text@),
                ) == Some(self.spec_id()),
                None => record_text(self.spec_id()) is None,
            },
    {
        write_record(self.id)
    }
}

/// Why a signup failed. The number is a code for the caller's use; the
/// library always gives 0.
#[derive(Debug, Clone, Copy, PartialEq, Eq, Structural)]
pub enum SingupError {
    /// A vault of that name is registered already.
    AlreadyExists(u16),
    /// The store of records could not be read.
    FailedToAccessVaultsDb(u16),
    /// A record of the registry is unreadable, or no id is left.
    CorruptedVaultsDb(u16),
    /// The store of the new vault could not be created.
    FailedToCreateVault(u16),
    /// The record could not be stored.
    FailedToStoreCredentials(u16),
    /// The wrapped private key could not be stored.
    FailedToStorePrivateKey(u16),
    /// The public key could not be stored.
    FailedToStorePublicKey(u16),
    /// The record could not be written as text, or the key derivation
    /// refused its parameters.
    UnknownError(u16),
}

/// `id` is the id of the next vault: greater by one than the greatest id in
/// the records, or 1 where there is no record.
pub open spec fn is_next_id(records: Map<Seq<u8>, Seq<u8>>, id: u64) -> bool {
    &&& forall|key: Seq<u8>| #[trigger]
        records.contains_key(key) ==> (record_id(records[key]) matches Some(i) && i < id)
    &&& id == 1 || exists|key: Seq<u8>|
        #[trigger] records.contains_key(key) && record_id(records[key]) == Some((id - 1) as u64)
}

/// The same for records that were read out of the store.
pub open spec fn is_next_id_of(pairs: Seq<(Vec<u8>, Vec<u8>)>, id: u64) -> bool {
    &&& forall|i: int|
        0 <= i < pairs.len() ==> (record_id(#[trigger] pairs[i].1@) matches Some(n) && n < id)
    &&& id == 1 || exists|i: int|
        0 <= i < pairs.len() && record_id(#[trigger] pairs[i].1@) == Some((id - 1) as u64)
}

/// Whether the records leave no next id: one of them is unreadable, or one
/// holds the greatest id there is.
pub open spec fn no_next_id_of(pairs: Seq<(Vec<u8>, Vec<u8>)>) -> bool {
    exists|i: int|
        0 <= i < pairs.len() && (record_id(#[trigger] pairs[i].1@) is None || record_id(
            pairs[i].1@,
        ) == Some(u64::MAX))
}

/// `id` is greater by one than the greatest of `ids`, or 1 where there are
/// none.
pub open spec fn is_next_after(ids: Seq<u64>, id: u64) -> bool {
    &&& forall|i: int| 0 <= i < ids.len() ==> #[trigger] ids[i] < id
    &&& id == 1 || exists|i: int| 0 <= i < ids.len() && #[trigger] ids[i] == id - 1
}

/// The id after the greatest of `ids`: `None` where the greatest id there
/// is has been given out.
pub fn next_id_after(ids: &Vec<u64>) -> (r: Option<u64>)
    ensures
        match r {
            Some(id) => is_next_after(ids@, id),
            None => exists|i: int| 0 <= i < ids@.len() && #[trigger] ids@[i] == u64::MAX,
        },
{
    let mut greatest: u64 = 0;
    let mut i: usize = 0;
    while i < ids.len()
        invariant
            i <= ids@.len(),
            forall|j: int| 0 <= j < i ==> #[trigger] ids@[j] <= greatest,
            greatest == 0 || exists|j: int| 0 <= j < i && #[trigger] ids@[j] == greatest,
            greatest < u64::MAX,
        decreases ids@.len() - i,
    {
        if ids[i] == u64::MAX {
            return None;
        }
        if ids[i] > greatest {
            greatest = ids[i];
        }
        i += 1;
    }
    Some(greatest + 1)
}

/// Reads the id of every record: `None` where one of them is unreadable.
pub fn read_record_ids(pairs: &Vec<(Vec<u8>, Vec<u8>)>) -> (r: Option<Vec<u64>>)
    ensures
        match r {
            Some(ids) => ids@.len() == pairs@.len() && forall|i: int|
                0 <= i < pairs@.len() ==> record_id(#[trigger] pairs@[i].1@) == Some(ids@[i]),
            None => exists|i: int|
                0 <= i < pairs@.len() && record_id(#[trigger] pairs@[i].1@) is None,
        },
{
    let mut ids: Vec<u64> = Vec::new();
    let mut i: usize = 0;
    while i < pairs.len()
        invariant
            i <= pairs@.len(),
            ids@.len() == i,
            forall|j: int| 0 <= j < i ==> record_id(#[trigger] pairs@[j].1@) == Some(ids@[j]),
        decreases pairs@.len() - i,
    {
        match read_record_id(pairs[i].1.as_slice()) {
            Some(id) => ids.push(id),
            None => return None,
        }
        i += 1;
    }
    Some(ids)
}

/// The id of the next vault, from the records of the registry.
pub fn next_vault_id(pairs: &Vec<(Vec<u8>, Vec<u8>)>) -> (r: Result<u64, SingupError>)
    ensures
        match r {
            Ok(id) => is_next_id_of(pairs@, id),
            Err(e) => e == SingupError::CorruptedVaultsDb(0) && no_next_id_of(pairs@),
        },
{
    let ids = match read_record_ids(pairs) {
        Some(ids) => ids,
        None => return Err(SingupError::CorruptedVaultsDb(0)),
    };
    match next_id_after(&ids) {
        Some(id) => {
            proof {
                if id != 1 {
                    let i = choose|i: int| 0 <= i < ids@.len() && #[trigger] ids@[i] == id - 1;
                    assert(record_id(pairs@[i].1@) == Some((id - 1) as u64));
                }
                assert forall|i: int| 0 <= i < pairs@.len() implies (record_id(
                    #[trigger] pairs@[i].1@,
                ) matches Some(n) && n < id) by {
                    assert(ids@[i] < id);
                }
            }
            Ok(id)
        },
        None => {
            proof {
                let i = choose|i: int| 0 <= i < ids@.len() && #[trigger] ids@[i] == u64::MAX;
                assert(record_id(pairs@[i].1@) == Some(u64::MAX));
            }
            Err(SingupError::CorruptedVaultsDb(0))
        },
    }
}

/// What holds of the records themselves holds of a list of them.
pub proof fn lemma_next_id_of_contents(
    pairs: Seq<(Vec<u8>, Vec<u8>)>,
    records: Map<Seq<u8>, Seq<u8>>,
    id: u64,
)
    requires
        lists_contents(pairs, records),
    ensures
        is_next_id_of(pairs, id) <==> is_next_id(records, id),
        no_next_id_of(pairs) ==> forall|any: u64| !is_next_id(records, any),
{
    if is_next_id_of(pairs, id) {
        assert forall|key: Seq<u8>| #[trigger] records.contains_key(key) implies (record_id(
            records[key],
        ) matches Some(i) && i < id) by {
            let i = choose|i: int| 0 <= i < pairs.len() && #[trigger] pairs[i].0@ == key;
            assert(record_id(pairs[i].1@) is Some);
        }
        if id != 1 {
            let i = choose|i: int|
                0 <= i < pairs.len() && record_id(#[trigger] pairs[i].1@) == Some((id - 1) as u64);
            assert(records.contains_key(pairs[i].0@));
        }
    }
    if is_next_id(records, id) {
        assert forall|i: int| 0 <= i < pairs.len() implies (record_id(
            #[trigger] pairs[i].1@,
        ) matches Some(n) && n < id) by {
            assert(records.contains_key(pairs[i].0@));
        }
        if id != 1 {
            let key = choose|key: Seq<u8>|
                #[trigger] records.contains_key(key) && record_id(records[key]) == Some(
                    (id - 1) as u64,
                );
            let i = choose|i: int| 0 <= i < pairs.len() && #[trigger] pairs[i].0@ == key;
            assert(record_id(pairs[i].1@) == Some((id - 1) as u64));
        }
    }
    if no_next_id_of(pairs) {
        let i = choose|i: int|
            0 <= i < pairs.len() && (record_id(#[trigger] pairs[i].1@) is None || record_id(
                pairs[i].1@,
            ) == Some(u64::MAX));
        assert(records.contains_key(pairs[i].0@));
    }
}

/// The result of a signup that could not read the store of records.
pub open spec fn records_unreadable() -> Result<bool, SingupError> {
    Err(SingupError::FailedToAccessVaultsDb(0))
}

/// Whether a signup gets as far as writing: the records leave a next id,
/// the record of that id can be written as text, and keys can be wrapped
/// under the password at the cost given.
pub open spec fn signup_prepared(
    records: Map<Seq<u8>, Seq<u8>>,
    password: Seq<char>,
    params: KdfParams,
) -> bool {
    &&& exists|id: u64| is_next_id(records, id)
    &&& forall|id: u64| is_next_id(records, id) ==> record_text(id) is Some
    &&& can_wrap(params, encode_utf8(password).len())
}

/// What a signup leaves behind and returns: the registry before and after,
/// the name and password given, the cost of the key wrap, and the result.
///
/// Until the signup writes, every failure leaves the registry as it was,
/// and each comes on its own inputs: a name that is taken is refused as
/// such; on a free name, records that leave no next id are reported as
/// corrupted; where they leave one, a record that cannot be written as text
/// or a cost that the key derivation refuses is an unknown error. Beside
/// these only a store that cannot be read is reported. A signup that
/// succeeds adds to each store one value under the hash of the name: the
/// record with the next id, the private key wrapped under the password, and
/// the public key that belongs to it.
pub open spec fn signup_post(
    before: RegistryView,
    after: RegistryView,
    vault_name: Seq<char>,
    password: Seq<char>,
    params: KdfParams,
    r: Result<bool, SingupError>,
) -> bool {
    let key = registry_key(vault_name);
    if before.records.contains_key(key) {
        &&& after == before
        &&& r == records_unreadable() || r == Err::<bool, SingupError>(
            SingupError::AlreadyExists(0),
        )
    } else if forall|id: u64| !is_next_id(before.records, id) {
        &&& after == before
        &&& r == records_unreadable() || r == Err::<bool, SingupError>(
            SingupError::CorruptedVaultsDb(0),
        )
    } else if !signup_prepared(before.records, password, params) {
        &&& after == before
        &&& r == records_unreadable() || r == Err::<bool, SingupError>(
            SingupError::UnknownError(0),
        )
    } else {
        match r {
            Ok(created) => {
                &&& created
                &&& after.records == before.records.insert(key, after.records[key])
                &&& after.priv_keys == before.priv_keys.insert(key, after.priv_keys[key])
                &&& after.pub_keys == before.pub_keys.insert(key, after.pub_keys[key])
                &&& record_id(after.records[key]) matches Some(id) && is_next_id(
                    before.records,
                    id,
                ) && record_text(id) == Some(decode_utf8(after.records[key]))
                &&& unwrapped(after.priv_keys[key], encode_utf8(password), params) matches Ok(
                    priv_key,
                ) && priv_key.len() == 32 && wraps(
                    after.priv_keys[key],
                    encode_utf8(password),
                    priv_key,
                    params,
                ) && after.pub_keys[key] == x25519_public_key(priv_key)
                &&& after.pub_keys[key].len() == 32
            },
            Err(SingupError::FailedToAccessVaultsDb(code)) => code == 0 && after == before,
            Err(SingupError::FailedToCreateVault(code)) => code == 0 && after == before,
            Err(SingupError::FailedToStoreCredentials(code)) => {
                &&& code == 0
                &&& after.priv_keys == before.priv_keys
                &&& after.pub_keys == before.pub_keys
            },
            Err(SingupError::FailedToStorePrivateKey(code)) => {
                &&& code == 0
                &&& after.pub_keys == before.pub_keys
            },
            Err(SingupError::FailedToStorePublicKey(code)) => code == 0,
            Err(_) => false,
        }
    }
}

/// Takes back what a signup has entered for a vault, when a later store
/// could not be written: the record, and the wrapped private key too where
/// that was entered. The result says whether every removal was done.
pub fn undo_signup(estashdb: &mut EstashDb, key: &[u8], private_key_too: bool) -> (undone: bool)
    ensures
        final(estashdb)@.pub_keys == old(estashdb)@.pub_keys,
        !private_key_too ==> final(estashdb)@.priv_keys == old(estashdb)@.priv_keys,
        undone ==> final(estashdb)@.records == old(estashdb)@.records.remove(key@),
        undone && private_key_too ==> final(estashdb)@.priv_keys == old(
            estashdb,
        )@.priv_keys.remove(key@),
{
    let record_removed = db_remove(&mut estashdb.vault_db, key).is_ok();
    if private_key_too {
        let key_removed = db_remove(&mut estashdb.vault_priv_key_db, key).is_ok();
        record_removed && key_removed
    } else {
        record_removed
    }
}

/// Why the registry could not take a new vault, and whether what had been
/// entered for it was taken back.
#[derive(Debug, Clone, Copy, PartialEq, Eq, Structural)]
pub struct EnterFailure {
    /// Which store could not be written.
    pub error: SingupError,
    /// Whether everything that was entered before has been removed again.
    pub undone: bool,
}

/// What entering a vault in the registry leaves behind and returns.
///
/// Where all three stores take their value, each holds it under `key`.
/// Where the store of records fails, the other two are as they were. Where
/// the store of private keys fails, the record is removed again; where the
/// store of public keys fails, the record and the private key are. If the
/// removals were done, those stores are without `key`; the store that
/// failed is left as it is.
pub open spec fn entered_post(
    before: RegistryView,
    after: RegistryView,
    key: Seq<u8>,
    record: Seq<u8>,
    wrapped_key: Seq<u8>,
    public_key: Seq<u8>,
    r: Result<(), EnterFailure>,
) -> bool {
    match r {
        Ok(_) => {
            &&& after.records == before.records.insert(key, record)
            &&& after.priv_keys == before.priv_keys.insert(key, wrapped_key)
            &&& after.pub_keys == before.pub_keys.insert(key, public_key)
        },
        Err(failure) => match failure.error {
            SingupError::FailedToStoreCredentials(code) => {
                &&& code == 0
                &&& !failure.undone
                &&& after.priv_keys == before.priv_keys
                &&& after.pub_keys == before.pub_keys
            },
            SingupError::FailedToStorePrivateKey(code) => {
                &&& code == 0
                &&& after.pub_keys == before.pub_keys
                &&& failure.undone ==> after.records == before.records.remove(key)
            },
            SingupError::FailedToStorePublicKey(code) => {
                &&& code == 0
                &&& failure.undone ==> after.records == before.records.remove(key)
                    && after.priv_keys == before.priv_keys.remove(key)
            },
            _ => false,
        },
    }
}

/// Enters a vault in the registry: its record, its wrapped private key and
/// its public key, in that order, each under `key`. Where the second or
/// third cannot be stored, what was stored before it is removed again.
pub fn enter_vault(
    estashdb: &mut EstashDb,
    key: &[u8],
    record: &[u8],
    wrapped_key: &[u8],
    public_key: &[u8],
) -> (r: Result<(), EnterFailure>)
    ensures
        entered_post(
            old(estashdb)@,
            final(estashdb)@,
            key@,
            record@,
            wrapped_key@,
            public_key@,
            r,
        ),
{
    match db_insert(&mut estashdb.vault_db, key, record) {
        Ok(_) => (),
        Err(_) => return Err(
            EnterFailure { error: SingupError::FailedToStoreCredentials(0), undone: false },
        ),
    }
    match db_insert(&mut estashdb.vault_priv_key_db, key, wrapped_key) {
        Ok(_) => (),
        Err(_) => {
            let undone = undo_signup(estashdb, key, false);
            proof {
                if undone {
                    assert(estashdb@.records =~= old(estashdb)@.records.remove(key@));
                }
            }
            return Err(EnterFailure { error: SingupError::FailedToStorePrivateKey(0), undone });
        },
    }
    match db_insert(&mut estashdb.vault_pub_key_db, key, public_key) {
        Ok(_) => (),
        Err(_) => {
            let undone = undo_signup(estashdb, key, true);
            proof {
                if undone {
                    assert(estashdb@.records =~= old(estashdb)@.records.remove(key@));
                    assert(estashdb@.priv_keys =~= old(estashdb)@.priv_keys.remove(key@));
                }
            }
            return Err(EnterFailure { error: SingupError::FailedToStorePublicKey(0), undone });
        },
    }
    Ok(())
}

/// Where the store of the next vault would be made: the path that a signup
/// hands on for the id that the records leave. After a signup that could
/// not make that store, this is where its remains lie.
pub fn next_vault_store_path(estashdb: &EstashDb, estash_dir: &str, is_windows: bool) -> (r:
    Result<String, SingupError>)
    ensures
        match r {
            Ok(path) => exists|id: u64|
                is_next_id(estashdb@.records, id) && path@ == vault_path(
                    estash_dir@,
                    is_windows,
                    id,
                ),
            Err(e) => e == SingupError::FailedToAccessVaultsDb(0) || (e
                == SingupError::CorruptedVaultsDb(0) && forall|id: u64|
                !is_next_id(estashdb@.records, id)),
        },
{
    let records = match db_pairs(&estashdb.vault_db) {
        Ok(records) => records,
        Err(_) => return Err(SingupError::FailedToAccessVaultsDb(0)),
    };
    match next_vault_id(&records) {
        Ok(id) => {
            proof {
                lemma_next_id_of_contents(records@, estashdb@.records, id);
            }
            Ok(vault_store_path(estash_dir, is_windows, id))
        },
        Err(e) => {
            proof {
                lemma_next_id_of_contents(records@, estashdb@.records, 0);
            }
            Err(e)
        },
    }
}

/// Creates the vault `vault_name` with `password`: checks that the name is
/// free, takes the next id, makes a key pair, wraps the private key, creates
/// the vault's store below `estash_dir`, and enters record, private key and
/// public key in the registry, in that order. Where the second or third of
/// these cannot be stored, what was stored before it is removed again, as
/// `enter_vault` says.
pub fn create_vault(
    vault_name: &str,
    password: &str,
    estashdb: &mut EstashDb,
    ecies: &mut ECIES,
    key_encrypt: &mut KeyEncrypt,
    estash_dir: &str,
    is_windows: bool,
) -> (r: Result<bool, SingupError>)
    ensures
        final(key_encrypt).params() == old(key_encrypt).params(),
        signup_post(
            old(estashdb)@,
            final(estashdb)@,
            vault_name@,
            password@,
            old(key_encrypt).params(),
            r,
        ),
{
    let hashed_vault_name = hash_str(vault_name);
    match db_contains_key(&estashdb.vault_db, hashed_vault_name.as_slice()) {
        Ok(is_already_present) => {
            if is_already_present {
                return Err(SingupError::AlreadyExists(0));
            }
        },
        Err(_) => return Err(SingupError::FailedToAccessVaultsDb(0)),
    }
    let records = match db_pairs(&estashdb.vault_db) {
        Ok(records) => records,
        Err(_) => return Err(SingupError::FailedToAccessVaultsDb(0)),
    };
    proof {
        lemma_next_id_is_unique(estashdb@.records);
    }
    let new_id = match next_vault_id(&records) {
        Ok(id) => {
            proof {
                lemma_next_id_of_contents(records@, estashdb@.records, id);
            }
            id
        },
        Err(e) => {
            proof {
                lemma_next_id_of_contents(records@, estashdb@.records, 0);
            }
            return Err(e);
        },
    };
    let vault_value_string = match VaultDbValue::new(new_id).to_json() {
        Some(text) => text,
        None => return Err(SingupError::UnknownError(0)),
    };
    let key_pair = ecies.gen_key_pair();
    let public_key = key_pair.0;
    let private_key = key_pair.1;
    let encrypted_private_key = match key_encrypt.encrypt_with_password_bytes(
        password.as_bytes(),
        &private_key,
    ) {
        Ok(blob) => blob,
        Err(_) => return Err(SingupError::UnknownError(0)),
    };
    proof {
        lemma_unwrap_inverts_wrap(
            encrypted_private_key@,
            encode_utf8(password@),
            private_key@,
            key_encrypt.params(),
        );
        vstd::utf8::encode_utf8_decode_utf8(vault_value_string@);
    }
    match db_open(vault_store_path(estash_dir, is_windows, new_id).as_str()) {
        Ok(_) => (),
        Err(_) => return Err(SingupError::FailedToCreateVault(0)),
    }
    match enter_vault(
        estashdb,
        hashed_vault_name.as_slice(),
        vault_value_string.as_str().as_bytes(),
        encrypted_private_key.as_slice(),
        public_key.as_slice(),
    ) {
        Ok(_) => Ok(true),
        Err(failure) => Err(failure.error),
    }
}

/// The records leave at most one next id.
pub proof fn lemma_next_id_is_unique(records: Map<Seq<u8>, Seq<u8>>)
    ensures
        forall|a: u64, b: u64| is_next_id(records, a) && is_next_id(records, b) ==> a == b,
{
    assert forall|a: u64, b: u64| is_next_id(records, a) && is_next_id(records, b) implies a
        == b by {
        if a < b {
            assert(b != 1);
            let key = choose|key: Seq<u8>|
                #[trigger] records.contains_key(key) && record_id(records[key]) == Some(
                    (b - 1) as u64,
                );
            assert(records.contains_key(key));
        }
        if b < a {
            assert(a != 1);
            let key = choose|key: Seq<u8>|
                #[trigger] records.contains_key(key) && record_id(records[key]) == Some(
                    (a - 1) as u64,
                );
            assert(records.contains_key(key));
        }
    }
}

/// A name can be signed up once. After a signup that succeeded, another
/// with the same name fails and leaves the registry as it is, whatever the
/// password: the name is reported as taken, unless the store of records
/// cannot be read.
pub proof fn lemma_second_signup_is_refused(
    start: RegistryView,
    between: RegistryView,
    end: RegistryView,
    vault_name: Seq<char>,
    first_password: Seq<char>,
    second_password: Seq<char>,
    first_params: KdfParams,
    second_params: KdfParams,
    second: Result<bool, SingupError>,
)
    requires
        signup_post(start, between, vault_name, first_password, first_params, Ok(true)),
        signup_post(between, end, vault_name, second_password, second_params, second),
    ensures
        second == Err::<bool, SingupError>(SingupError::AlreadyExists(0)) || second == Err::<
            bool,
            SingupError,
        >(SingupError::FailedToAccessVaultsDb(0)),
        end == between,
{
    let key = registry_key(vault_name);
    assert(between.records.contains_key(key));
}

/// A signup that succeeds gives the new vault an id greater than that of
/// every vault registered before, and leaves the records of those as they
/// are.
pub proof fn lemma_new_id_is_greatest(
    before: RegistryView,
    after: RegistryView,
    vault_name: Seq<char>,
    password: Seq<char>,
    params: KdfParams,
)
    requires
        signup_post(before, after, vault_name, password, params, Ok(true)),
    ensures
        record_id(after.records[registry_key(vault_name)]) is Some,
        forall|key: Seq<u8>| #[trigger]
            before.records.contains_key(key) ==> {
                &&& after.records.contains_key(key)
                &&& after.records[key] == before.records[key]
                &&& record_id(before.records[key]) is Some
                &&& record_id(before.records[key]).unwrap() < record_id(
                    after.records[registry_key(vault_name)],
                ).unwrap()
            },
{
}

/// Three vaults signed up one after the other in an empty registry get the
/// ids 1, 2 and 3.
pub proof fn lemma_ids_count_from_one(
    empty: RegistryView,
    one: RegistryView,
    two: RegistryView,
    three: RegistryView,
    first_name: Seq<char>,
    second_name: Seq<char>,
    third_name: Seq<char>,
    first_password: Seq<char>,
    second_password: Seq<char>,
    third_password: Seq<char>,
    first_params: KdfParams,
    second_params: KdfParams,
    third_params: KdfParams,
)
    requires
        empty.records == Map::<Seq<u8>, Seq<u8>>::empty(),
        signup_post(empty, one, first_name, first_password, first_params, Ok(true)),
        signup_post(one, two, second_name, second_password, second_params, Ok(true)),
        signup_post(two, three, third_name, third_password, third_params, Ok(true)),
    ensures
        record_id(three.records[registry_key(first_name)]) == Some(1u64),
        record_id(three.records[registry_key(second_name)]) == Some(2u64),
        record_id(three.records[registry_key(third_name)]) == Some(3u64),
{
    let k1 = registry_key(first_name);
    let k2 = registry_key(second_name);
    let k3 = registry_key(third_name);
    let id1 = record_id(one.records[k1]).unwrap();
    let id2 = record_id(two.records[k2]).unwrap();
    let id3 = record_id(three.records[k3]).unwrap();
    assert(id1 == 1);
    assert(one.records.contains_key(k1));
    assert(id2 == 2) by {
        if id2 != 1 {
            let key = choose|key: Seq<u8>|
                #[trigger] one.records.contains_key(key) && record_id(one.records[key]) == Some(
                    (id2 - 1) as u64,
                );
            assert(key == k1);
        }
    }
    assert(two.records.contains_key(k1));
    assert(two.records.contains_key(k2));
    assert(id3 == 3) by {
        if id3 != 1 {
            let key = choose|key: Seq<u8>|
                #[trigger] two.records.contains_key(key) && record_id(two.records[key]) == Some(
                    (id3 - 1) as u64,
                );
            assert(key == k1 || key == k2);
        }
    }
}

/// After a signup that succeeded, a login with the same name and password
/// succeeds where the stores can be read: it yields the id that the signup
/// took, and a private key with the public key that belongs to it.
pub proof fn lemma_login_after_signup(
    before: RegistryView,
    after: RegistryView,
    vault_name: Seq<char>,
    password: Seq<char>,
    params: KdfParams,
)
    requires
        signup_post(before, after, vault_name, password, params, Ok(true)),
    ensures
        login_result(after, vault_name, password, params) matches Ok((id, priv_key, pub_key))
            && is_next_id(before.records, id) && pub_key == x25519_public_key(priv_key),
{
    let key = registry_key(vault_name);
    assert(after.records.contains_key(key));
    assert(after.priv_keys.contains_key(key));
    assert(after.pub_keys.contains_key(key));
}

/// A login to a vault that was never signed up is refused as a login with a
/// wrong password is.
pub proof fn lemma_login_without_signup(
    registry: RegistryView,
    vault_name: Seq<char>,
    password: Seq<char>,
    params: KdfParams,
)
    requires
        !registry.records.contains_key(registry_key(vault_name)),
    ensures
        login_result(registry, vault_name, password, params) == Err::<
            (u64, Seq<u8>, Seq<u8>),
            LoginError,
        >(LoginError::WrongCredentials(0)),
{
}

/// Records of which one is unreadable, or of which one holds the greatest
/// id there is, leave no next id.
pub proof fn lemma_no_next_id(records: Map<Seq<u8>, Seq<u8>>, key: Seq<u8>)
    requires
        records.contains_key(key),
        record_id(records[key]) is None || record_id(records[key]) == Some(u64::MAX),
    ensures
        forall|id: u64| !is_next_id(records, id),
{
}

/// A signup on a registry that leaves no next id writes nothing: for a
/// free name it reports the registry as corrupted, unless the store of
/// records cannot be read.
pub proof fn lemma_signup_on_corrupted_registry(
    before: RegistryView,
    after: RegistryView,
    vault_name: Seq<char>,
    password: Seq<char>,
    params: KdfParams,
    r: Result<bool, SingupError>,
)
    requires
        signup_post(before, after, vault_name, password, params, r),
        forall|id: u64| !is_next_id(before.records, id),
    ensures
        after == before,
        r is Err,
        !before.records.contains_key(registry_key(vault_name)) ==> r == Err::<
            bool,
            SingupError,
        >(SingupError::CorruptedVaultsDb(0)) || r == records_unreadable(),
{
}

/// The first signup under a name succeeds where the stores let it: on a
/// free name, with records that leave a next id whose record can be
/// written, and at a cost that the key derivation accepts, a signup fails
/// only where a store cannot be read, made or written.
pub proof fn lemma_first_signup(
    before: RegistryView,
    after: RegistryView,
    vault_name: Seq<char>,
    password: Seq<char>,
    params: KdfParams,
    r: Result<bool, SingupError>,
)
    requires
        signup_post(before, after, vault_name, password, params, r),
        !before.records.contains_key(registry_key(vault_name)),
        signup_prepared(before.records, password, params),
    ensures
        r matches Err(e) ==> {
            ||| e == SingupError::FailedToAccessVaultsDb(0)
            ||| e == SingupError::FailedToCreateVault(0)
            ||| e == SingupError::FailedToStoreCredentials(0)
            ||| e == SingupError::FailedToStorePrivateKey(0)
            ||| e == SingupError::FailedToStorePublicKey(0)
        },
{
    let id = choose|id: u64| is_next_id(before.records, id);
    assert(is_next_id(before.records, id));
}

/// An empty registry is prepared for a signup as soon as the record of the
/// first id can be written and the key derivation accepts the cost.
pub proof fn lemma_empty_registry_is_prepared(
    records: Map<Seq<u8>, Seq<u8>>,
    password: Seq<char>,
    params: KdfParams,
)
    requires
        records == Map::<Seq<u8>, Seq<u8>>::empty(),
        record_text(1) is Some,
        can_wrap(params, encode_utf8(password).len()),
    ensures
        signup_prepared(records, password, params),
{
    assert(is_next_id(records, 1));
    lemma_next_id_is_unique(records);
}

/// A vault whose entry was undone has left no trace: where a store failed
/// and the removals were done, the stores written before it hold what they
/// held before the vault was entered, and no store but the one that failed
/// can hold its key.
pub proof fn lemma_undone_leaves_no_trace(
    before: RegistryView,
    after: RegistryView,
    key: Seq<u8>,
    record: Seq<u8>,
    wrapped_key: Seq<u8>,
    public_key: Seq<u8>,
    failure: EnterFailure,
)
    requires
        entered_post(before, after, key, record, wrapped_key, public_key, Err(failure)),
        failure.undone,
        !before.records.contains_key(key),
        !before.priv_keys.contains_key(key),
        !before.pub_keys.contains_key(key),
    ensures
        after.records == before.records,
        !after.records.contains_key(key),
        failure.error == SingupError::FailedToStorePrivateKey(0) ==> after.pub_keys
            == before.pub_keys,
        failure.error == SingupError::FailedToStorePublicKey(0) ==> after.priv_keys
            == before.priv_keys,
{
    assert(before.records.remove(key) =~= before.records);
    assert(before.priv_keys.remove(key) =~= before.priv_keys);
}

/// A login with a password under which the wrapped key does not open is
/// refused as a login to a vault that is not there: where the record is
/// readable and the blob is refused for the password, the result is
/// `WrongCredentials`.
pub proof fn lemma_login_with_wrong_password(
    registry: RegistryView,
    vault_name: Seq<char>,
    password: Seq<char>,
    params: KdfParams,
)
    requires
        registry.records.contains_key(registry_key(vault_name)),
        record_id(registry.records[registry_key(vault_name)]) is Some,
        registry.priv_keys.contains_key(registry_key(vault_name)),
        unwrapped(registry.priv_keys[registry_key(vault_name)], encode_utf8(password), params)
            == Err::<Seq<u8>, KeyEncryptError>(KeyEncryptError::WrongCredentials),
    ensures
        login_result(registry, vault_name, password, params) == Err::<
            (u64, Seq<u8>, Seq<u8>),
            LoginError,
        >(LoginError::WrongCredentials(0)),
{
}

} // verus!
