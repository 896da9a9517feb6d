//! A session on an open vault: the secrets of the vault, its store, the
//! index of its entries and the encryption scheme, in one value.
//!
//! The index is built once, when the session is opened, and kept in step
//! with the store by every operation. Where an operation reports that the
//! two are out of step, or that the store could not be written, the session
//! is best opened anew.

use super::index::NameIndex;
use super::{
    add_entry, add_entry_post, delete_entry, delete_post, entry_name, get_entry_value_plain,
    index_complete, index_sound, lemma_add_keeps_in_step, lemma_delete_keeps_sound,
    lemma_update_keeps_in_step, load_entries, load_vault, read_post, update_content_in_entry,
    update_content_post, update_entry, update_post, NewEntryErr, UpdateContentErr, VaultValue,
    VaultValueErr,
};
use crate::encrypter::ecies::ECIES;
use crate::utils::db::{db_contents, db_path, vault_path};
use crate::utils::Vault;
use vstd::prelude::*;

verus! {

/// Why a session could not be opened.
#[derive(Debug, Clone, Copy, PartialEq, Eq, Structural)]
pub enum OpenError {
    /// The store of the vault could not be opened or read.
    StoreUnavailable,
    /// A key of the store encrypts no name under the keys of the vault.
    CorruptedVault,
}

/// An open vault.
pub struct VaultSession {
    secrets: Vault,
    store: sled::Db,
    index: NameIndex,
    ecies: ECIES,
}

impl VaultSession {
    /// The index of the session: for each name the key of its entry.
    pub closed spec fn index(&self) -> Map<Seq<char>, Seq<u8>> {
        self.index@
    }

    /// What the store of the session holds.
    pub closed spec fn store(&self) -> Map<Seq<u8>, Seq<u8>> {
        db_contents(self.store)
    }

    /// The path that the store of the session was opened with.
    pub closed spec fn store_path(&self) -> Seq<char> {
        db_path(self.store)
    }

    /// The name of the vault.
    pub closed spec fn name(&self) -> Seq<char> {
        self.secrets.vault_name@
    }

    /// The id of the vault.
    pub closed spec fn id(&self) -> u64 {
        self.secrets.id
    }

    /// The private key of the vault.
    pub closed spec fn secret(&self) -> Seq<u8> {
        self.secrets.priv_key@
    }

    /// The public key of the vault.
    pub closed spec fn public(&self) -> Seq<u8> {
        self.secrets.pub_key@
    }

    /// Every name of the index has a key that the store holds and that
    /// encrypts that name.
    pub open spec fn is_sound(&self) -> bool {
        index_sound(self.index(), self.store(), self.secret(), self.public())
    }

    /// Every key of the store encrypts a name that the index holds.
    pub open spec fn is_complete(&self) -> bool {
        index_complete(self.index(), self.store(), self.secret(), self.public())
    }

    /// Opens a session on a store: builds the index of what it holds.
    pub fn open(secrets: Vault, store: sled::Db, ecies: ECIES) -> (r: Result<
        VaultSession,
        OpenError,
    >)
        ensures
            r matches Ok(session) ==> {
                &&& session.store() == db_contents(store)
                &&& session.store_path() == db_path(store)
                &&& session.name() == secrets.vault_name@
                &&& session.id() == secrets.id
                &&& session.secret() == secrets.priv_key@
                &&& session.public() == secrets.pub_key@
                &&& session.is_sound()
                &&& session.is_complete()
            },
            r matches Err(OpenError::CorruptedVault) ==> exists|key: Seq<u8>|
                #[trigger] db_contents(store).contains_key(key) && entry_name(
                    key,
                    secrets.priv_key@,
                    secrets.pub_key@,
                ) is None,
    {
        let mut ecies = ecies;
        match load_entries(&secrets, &store, &mut ecies) {
            Ok(index) => Ok(VaultSession { secrets, store, index, ecies }),
            Err(VaultValueErr::DbCorrupted(_)) => Err(OpenError::CorruptedVault),
            Err(_) => Err(OpenError::StoreUnavailable),
        }
    }

    /// Opens a session on the store that the id of the vault names, below
    /// `estash_dir`. Whether the store opens and can be read is up to the
    /// file system; a session that comes back is on that store, with the
    /// secrets given, and in step with what the store holds.
    pub fn open_at(estash_dir: &str, is_windows: bool, secrets: Vault, ecies: ECIES) -> (r: Result<
        VaultSession,
        OpenError,
    >)
        ensures
            r matches Ok(session) ==> {
                &&& session.store_path() == vault_path(estash_dir@, is_windows, secrets.id)
                &&& session.name() == secrets.vault_name@
                &&& session.id() == secrets.id
                &&& session.secret() == secrets.priv_key@
                &&& session.public() == secrets.pub_key@
                &&& session.is_sound()
                &&& session.is_complete()
            },
    {
        match load_vault(estash_dir, is_windows, &secrets) {
            Ok(store) => VaultSession::open(secrets, store, ecies),
            Err(_) => Err(OpenError::StoreUnavailable),
        }
    }

    /// The secrets of the vault.
    pub fn secrets(&self) -> (secrets: &Vault)
        ensures
            secrets.vault_name@ == self.name(),
            secrets.id == self.id(),
            secrets.priv_key@ == self.secret(),
            secrets.pub_key@ == self.public(),
    {
        &self.secrets
    }

    /// The names of the entries, each once.
    pub fn names(&self) -> (names: Vec<String>)
        ensures
            forall|i: int|
                0 <= i < names@.len() ==> self.index().contains_key(#[trigger] names@[i]@),
            forall|name: Seq<char>|
                self.index().contains_key(name) ==> exists|i: int|
                    0 <= i < names@.len() && #[trigger] names@[i]@ == name,
            forall|i: int, j: int|
                0 <= i < j < names@.len() ==> #[trigger] names@[i]@ != #[trigger] names@[j]@,
    {
        self.index.names()
    }

    /// Whether the vault has an entry of this name.
    pub fn contains(&self, name: &str) -> (found: bool)
        ensures
            found == self.index().contains_key(name@),
    {
        self.index.contains_key(name)
    }

    /// Adds the entry `name` with the empty body. A session that was in
    /// step stays in step.
    pub fn add_entry(&mut self, name: &str) -> (r: Result<Vec<u8>, NewEntryErr>)
        ensures
            final(self).secret() == old(self).secret(),
            final(self).public() == old(self).public(),
            final(self).name() == old(self).name(),
            final(self).id() == old(self).id(),
            final(self).store_path() == old(self).store_path(),
            add_entry_post(
                old(self).index(),
                old(self).store(),
                final(self).index(),
                final(self).store(),
                name@,
                old(self).secret(),
                old(self).public(),
                r,
            ),
            r is Ok && old(self).is_sound() ==> final(self).is_sound(),
            r is Ok && old(self).is_complete() ==> final(self).is_complete(),
    {
        let r = add_entry(&mut self.index, &mut self.store, &self.secrets, name, &mut self.ecies);
        proof {
            if r is Ok {
                lemma_add_keeps_in_step(
                    old(self).index(),
                    old(self).store(),
                    self.index(),
                    self.store(),
                    name@,
                    self.secret(),
                    self.public(),
                    r.unwrap(),
                );
            }
        }
        r
    }

    /// Reads the entry `name`.
    pub fn get_entry(&mut self, name: &str) -> (r: Result<VaultValue, VaultValueErr>)
        ensures
            final(self).index() == old(self).index(),
            final(self).store() == old(self).store(),
            final(self).secret() == old(self).secret(),
            final(self).public() == old(self).public(),
            final(self).name() == old(self).name(),
            final(self).id() == old(self).id(),
            final(self).store_path() == old(self).store_path(),
            read_post(
                old(self).index(),
                old(self).store(),
                old(self).secret(),
                old(self).public(),
                name@,
                r,
            ),
    {
        get_entry_value_plain(&self.store, &mut self.ecies, &self.secrets, name, &self.index)
    }

    /// Writes a new body for the entry `name`, under the key that the index
    /// holds for it. A sound session stays sound, and keeps its keys.
    pub fn update_entry(&mut self, name: &str, value: &VaultValue) -> (r: Result<
        bool,
        UpdateContentErr,
    >)
        ensures
            final(self).index() == old(self).index(),
            final(self).secret() == old(self).secret(),
            final(self).public() == old(self).public(),
            final(self).name() == old(self).name(),
            final(self).id() == old(self).id(),
            final(self).store_path() == old(self).store_path(),
            update_post(
                old(self).index(),
                old(self).store(),
                final(self).store(),
                name@,
                value@,
                old(self).secret(),
                old(self).public(),
                r,
            ),
            r is Ok && old(self).is_sound() ==> final(self).is_sound() && final(self).store().dom()
                == old(self).store().dom(),
            r is Ok && old(self).is_sound() && old(self).is_complete() ==> final(self)
                .is_complete(),
    {
        let r = update_entry(
            name,
            &mut self.store,
            &mut self.ecies,
            &self.secrets,
            &self.index,
            value,
        );
        proof {
            if r is Ok && old(self).is_sound() {
                lemma_update_keeps_in_step(
                    self.index(),
                    old(self).store(),
                    self.store(),
                    name@,
                    value@,
                    self.secret(),
                    self.public(),
                );
            }
        }
        r
    }

    /// Replaces the content of the entry `name` and keeps its install path
    /// and notes.
    pub fn update_content(&mut self, name: &str, content: Vec<u8>) -> (r: Result<
        bool,
        UpdateContentErr,
    >)
        ensures
            final(self).index() == old(self).index(),
            final(self).secret() == old(self).secret(),
            final(self).public() == old(self).public(),
            final(self).name() == old(self).name(),
            final(self).id() == old(self).id(),
            final(self).store_path() == old(self).store_path(),
            update_content_post(
                old(self).index(),
                old(self).store(),
                final(self).store(),
                name@,
                content@,
                old(self).secret(),
                old(self).public(),
                r,
            ),
    {
        update_content_in_entry(
            name,
            &mut self.store,
            &mut self.ecies,
            &self.secrets,
            &self.index,
            content,
        )
    }

    /// Deletes the entry `name` from the store and from the index. A sound
    /// session stays sound.
    pub fn delete_entry(&mut self, name: &str) -> (r: Result<(), VaultValueErr>)
        ensures
            final(self).secret() == old(self).secret(),
            final(self).public() == old(self).public(),
            final(self).name() == old(self).name(),
            final(self).id() == old(self).id(),
            final(self).store_path() == old(self).store_path(),
            delete_post(
                old(self).index(),
                old(self).store(),
                final(self).index(),
                final(self).store(),
                name@,
                r,
            ),
            r is Ok && old(self).is_sound() ==> final(self).is_sound(),
    {
        let r = delete_entry(&mut self.index, &mut self.store, name);
        proof {
            if r is Ok {
                lemma_delete_keeps_sound(
                    old(self).index(),
                    old(self).store(),
                    self.index(),
                    self.store(),
                    name@,
                    self.secret(),
                    self.public(),
                );
            }
        }
        r
    }
}

} // verus!
