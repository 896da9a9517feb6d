//! An open vault: its entries, the store that holds them and the index of
//! their names.
//!
//! The store maps the encrypted name of an entry to its encrypted body. The
//! body is a JSON object with the members `install_path`, `content` and
//! `notes`.

pub mod index;
pub mod session;

use crate::encrypter::ecies::{
    decryption, encrypts, lemma_decrypt_inverts_encrypt, sealable, ECIES,
};
use crate::utils::db::{
    db_contents, db_get, db_insert, db_open, db_pairs, db_path, db_remove, lemma_one_list,
    lists_contents, vault_path, vault_store_path,
};
use crate::utils::json::{
    bytes_of_elements, elements_as_bytes, json_array_member, json_entry_object,
    json_string_member, lemma_elements_of_bytes, read_array_member, read_string_member,
    write_entry_object,
};
use crate::utils::text::utf8_text;
use crate::utils::Vault;
use index::NameIndex;
use vstd::prelude::*;
use vstd::string::StringExecFns;
use vstd::string::StringSliceAdditionalSpecFns;
use vstd::utf8::{decode_utf8, encode_utf8, valid_utf8};

verus! {

/// The name that no entry can have: it marks the top of the list of entries.
pub const ROOT_NAME: &'static str = "ROOT";

/// The member of a body that holds the install path.
pub const INSTALL_PATH_KEY: &'static str = "install_path";

/// The member of a body that holds the content.
pub const CONTENT_KEY: &'static str = "content";

/// The member of a body that holds the notes.
pub const NOTES_KEY: &'static str = "notes";

/// Content of this many bytes or more is stored in full but not shown.
pub const CONTENT_DISPLAY_LIMIT: usize = 32767;

/// The body of an entry.
#[derive(Debug, Clone, PartialEq, Eq)]
pub struct VaultValue {
    pub install_path: String,
    pub content: Vec<u8>,
    pub notes: String,
}

/// The body of an entry as plain values.
pub ghost struct EntryView {
    pub install_path: Seq<char>,
    pub content: Seq<u8>,
    pub notes: Seq<char>,
}

impl View for VaultValue {
    type V = EntryView;

    open spec fn view(&self) -> EntryView {
        EntryView {
            install_path: self.install_path@,
            content: self.content@,
            notes: self.notes@,
        }
    }
}

impl VaultValue {
    /// The body of a new entry: nothing in it.
    pub fn new_empty() -> (value: VaultValue)
        ensures
            value@ == empty_entry(),
    {
        VaultValue { install_path: String::new(), content: Vec::new(), notes: String::new() }
    }
}

/// The body of a new entry.
pub open spec fn empty_entry() -> EntryView {
    EntryView { install_path: Seq::empty(), content: Seq::empty(), notes: Seq::empty() }
}

/// Why an entry could not be read or deleted. The number is a code for the
/// caller's use; the library always gives 0.
#[derive(Debug, Clone, Copy, PartialEq, Eq, Structural)]
pub enum VaultValueErr {
    /// Kept for callers that match on it; the library does not return it.
    PoisonErr(u16),
    /// The index does not hold the name, or holds a key for it that the
    /// store does not.
    DisplayNotInSync(u16),
    /// The store could not be read or written.
    MemoryNotInSync(u16),
    /// What the store holds is not an entry of this vault.
    DbCorrupted(u16),
    /// The store holds nothing under the key that the index has for the
    /// name.
    StoreCorrupted(u16),
}

/// Why an entry could not be added. The number is a code for the caller's
/// use; the library always gives 0.
#[derive(Debug, Clone, Copy, PartialEq, Eq, Structural)]
pub enum NewEntryErr {
    /// Kept for callers that match on it; the library does not return it.
    PoisonErr(u16),
    /// The name could not be encrypted.
    DbCorrupted(u16),
    /// The store could not be written.
    DbInaccesible(u16),
    /// The empty body could not be written as text or encrypted.
    UnknownError(u16),
    /// The index holds the name already.
    AlreadyExists(u16),
    /// The name is the reserved one.
    ReservedName(u16),
}

/// Why an entry could not be updated. The number is a code for the caller's
/// use; the library always gives 0.
#[derive(Debug, Clone, Copy, PartialEq, Eq, Structural)]
pub enum UpdateContentErr {
    /// Kept for callers that match on it; the library does not return it.
    PoisonErr(u16),
    /// The index does not hold the name.
    DisplayNotInSync(u16),
    /// The store could not be read.
    MemoryNotInSync(u16),
    /// The new body could not be written as text or encrypted.
    UnknownError(u16),
    /// What the store holds is not an entry of this vault.
    DbCorrupted(u16),
    /// The store could not be written.
    DbInaccesible(u16),
    /// The store holds nothing under the key that the index has for the
    /// name.
    StoreCorrupted(u16),
}

/// The JSON text that is written for a body.
pub open spec fn entry_text(value: EntryView) -> Option<Seq<char>> {
    json_entry_object(
        INSTALL_PATH_KEY@,
        value.install_path,
        CONTENT_KEY@,
        value.content,
        NOTES_KEY@,
        value.notes,
    )
}

/// The body that a JSON text holds: `None` where the text is no JSON object,
/// a member is missing or of another type, or the content holds anything but
/// integers from 0 to 255.
pub open spec fn parsed_entry(text: Seq<char>) -> Option<EntryView> {
    match (
        json_string_member(text, INSTALL_PATH_KEY@),
        json_array_member(text, CONTENT_KEY@),
        json_string_member(text, NOTES_KEY@),
    ) {
        (Some(install_path), Some(elements), Some(notes)) => match elements_as_bytes(elements) {
            Some(content) => Some(EntryView { install_path, content, notes }),
            None => None,
        },
        _ => None,
    }
}

/// The body that decrypted bytes hold: `None` where they are no UTF-8 text
/// or the text holds no body.
pub open spec fn decoded_entry(plain: Seq<u8>) -> Option<EntryView> {
    if valid_utf8(plain) {
        parsed_entry(decode_utf8(plain))
    } else {
        None
    }
}

/// Writes a body as JSON text.
pub fn encode_entry(value: &VaultValue) -> (r: Option<String>)
    ensures
        match r {
            Some(text) => entry_text(value@) == Some(text@) && parsed_entry(text@) == Some(
                value@,
            ) && decoded_entry(encode_utf8(text@)) == Some(value@),
            None => entry_text(value@) is None,
        },
{
    proof {
        reveal_strlit("install_path");
        reveal_strlit("content");
        reveal_strlit("notes");
        assert(INSTALL_PATH_KEY@.len() == 12);
        assert(CONTENT_KEY@.len() == 7);
        assert(NOTES_KEY@.len() == 5);
    }
    match write_entry_object(
        INSTALL_PATH_KEY,
        value.install_path.as_str(),
        CONTENT_KEY,
        value.content.as_slice(),
        NOTES_KEY,
        value.notes.as_str(),
    ) {
        Ok(text) => {
            proof {
                lemma_elements_of_bytes(value.content@);
                vstd::utf8::encode_utf8_valid_utf8(text@);
                vstd::utf8::encode_utf8_decode_utf8(text@);
            }
            Some(text)
        },
        Err(_) => None,
    }
}

/// Reads a body from decrypted bytes.
pub fn decode_entry(plain: &[u8]) -> (r: Option<VaultValue>)
    ensures
        match r {
            Some(value) => decoded_entry(plain@) == Some(value@),
            None => decoded_entry(plain@) is None,
        },
{
    let text = match utf8_text(plain) {
        Some(text) => text,
        None => return None,
    };
    proof {
        vstd::utf8::encode_utf8_decode_utf8(text@);
    }
    let install_path = match read_string_member(text, INSTALL_PATH_KEY) {
        Some(install_path) => install_path,
        None => return None,
    };
    let elements = match read_array_member(text, CONTENT_KEY) {
        Some(elements) => elements,
        None => return None,
    };
    let notes = match read_string_member(text, NOTES_KEY) {
        Some(notes) => notes,
        None => return None,
    };
    match bytes_of_elements(&elements) {
        Some(content) => Some(VaultValue { install_path, content, notes }),
        None => None,
    }
}

/// Whether content is shown as text where content of `limit` bytes or more
/// is not: it is shorter than that and valid UTF-8. Content that is not
/// shown is stored in full all the same.
pub fn content_is_displayable_below(content: &[u8], limit: usize) -> (shown: bool)
    ensures
        shown == (content@.len() < limit && valid_utf8(content@)),
{
    content.len() < limit && utf8_text(content).is_some()
}

/// Whether content is shown as text at the standard display limit.
pub fn content_is_displayable(content: &[u8]) -> (shown: bool)
    ensures
        shown == (content@.len() < CONTENT_DISPLAY_LIMIT && valid_utf8(content@)),
{
    content_is_displayable_below(content, CONTENT_DISPLAY_LIMIT)
}

/// Opens the store of a vault below `estash_dir`, and creates it where it
/// is not there yet. The store that comes back is the one that the id of
/// the vault names; whether it opens is up to the file system.
pub fn load_vault(estash_dir: &str, is_windows: bool, vault: &Vault) -> (r: Result<
    sled::Db,
    sled::Error,
>)
    ensures
        r matches Ok(store) ==> db_path(store) == vault_path(estash_dir@, is_windows, vault.id),
{
    db_open(vault_store_path(estash_dir, is_windows, vault.id).as_str())
}

/// The name of the entry that the store holds under `key`: `None` where the
/// key is not authentic under the key pair or encrypts no UTF-8 text.
pub open spec fn entry_name(key: Seq<u8>, secret: Seq<u8>, public: Seq<u8>) -> Option<Seq<char>> {
    match decryption(key, secret, public) {
        Some(plain) => if valid_utf8(plain) {
            Some(decode_utf8(plain))
        } else {
            None
        },
        None => None,
    }
}

/// The index of the pairs of a store, taken in their order: each key is
/// entered under its name, and there is no index where a key has no name.
pub open spec fn indexed(
    pairs: Seq<(Vec<u8>, Vec<u8>)>,
    secret: Seq<u8>,
    public: Seq<u8>,
) -> Option<Map<Seq<char>, Seq<u8>>>
    decreases pairs.len(),
{
    if pairs.len() == 0 {
        Some(Map::empty())
    } else {
        match (
            indexed(pairs.drop_last(), secret, public),
            entry_name(pairs.last().0@, secret, public),
        ) {
            (Some(index), Some(name)) => Some(index.insert(name, pairs.last().0@)),
            _ => None,
        }
    }
}

/// Every name of the index has a key that the store holds and that encrypts
/// that name.
pub open spec fn index_sound(
    index: Map<Seq<char>, Seq<u8>>,
    contents: Map<Seq<u8>, Seq<u8>>,
    secret: Seq<u8>,
    public: Seq<u8>,
) -> bool {
    forall|name: Seq<char>| #[trigger]
        index.contains_key(name) ==> contents.contains_key(index[name]) && entry_name(
            index[name],
            secret,
            public,
        ) == Some(name)
}

/// Every key of the store encrypts a name that the index holds.
pub open spec fn index_complete(
    index: Map<Seq<char>, Seq<u8>>,
    contents: Map<Seq<u8>, Seq<u8>>,
    secret: Seq<u8>,
    public: Seq<u8>,
) -> bool {
    forall|key: Seq<u8>| #[trigger]
        contents.contains_key(key) ==> (entry_name(key, secret, public) matches Some(name)
            && index.contains_key(name))
}

/// Reads the name that a key of the store encrypts.
pub fn read_entry_name(vault: &Vault, key: &Vec<u8>, ecies: &mut ECIES) -> (r: Option<String>)
    ensures
        *final(ecies) == *old(ecies),
        match r {
            Some(name) => entry_name(key@, vault.priv_key@, vault.pub_key@) == Some(name@),
            None => entry_name(key@, vault.priv_key@, vault.pub_key@) is None,
        },
{
    let plain = match ecies.decrypt_bytes(key, &vault.priv_key, &vault.pub_key) {
        Ok(plain) => plain,
        Err(_) => return None,
    };
    match utf8_text(plain.as_slice()) {
        Some(text) => {
            proof {
                vstd::utf8::encode_utf8_decode_utf8(text@);
            }
            Some(String::from_str(text))
        },
        None => None,
    }
}

/// Builds the index of the pairs that were read out of a store.
pub fn index_entries(vault: &Vault, pairs: &Vec<(Vec<u8>, Vec<u8>)>, ecies: &mut ECIES) -> (r:
    Result<NameIndex, VaultValueErr>)
    ensures
        *final(ecies) == *old(ecies),
        match r {
            Ok(index) => indexed(pairs@, vault.priv_key@, vault.pub_key@) == Some(index@),
            Err(e) => e == VaultValueErr::DbCorrupted(0) && indexed(
                pairs@,
                vault.priv_key@,
                vault.pub_key@,
            ) is None,
        },
{
    let mut index = NameIndex::new();
    let mut i: usize = 0;
    while i < pairs.len()
        invariant
            i <= pairs@.len(),
            *ecies == *old(ecies),
            indexed(pairs@.take(i as int), vault.priv_key@, vault.pub_key@) == Some(index@),
        decreases pairs@.len() - i,
    {
        proof {
            assert(pairs@.take(i + 1).drop_last() =~= pairs@.take(i as int));
            lemma_indexed_prefix(pairs@, i + 1, vault.priv_key@, vault.pub_key@);
        }
        match read_entry_name(vault, &pairs[i].0, ecies) {
            Some(name) => index.insert(name, pairs[i].0.clone()),
            None => return Err(VaultValueErr::DbCorrupted(0)),
        }
        i += 1;
    }
    proof {
        assert(pairs@.take(pairs@.len() as int) =~= pairs@);
    }
    Ok(index)
}

/// Where a list of pairs has an index, so has each list that it starts
/// with.
pub proof fn lemma_indexed_prefix(
    pairs: Seq<(Vec<u8>, Vec<u8>)>,
    n: int,
    secret: Seq<u8>,
    public: Seq<u8>,
)
    requires
        0 <= n <= pairs.len(),
    ensures
        indexed(pairs.take(n), secret, public) is None ==> indexed(pairs, secret, public) is None,
    decreases pairs.len(),
{
    if n < pairs.len() {
        assert(pairs.drop_last().take(n) =~= pairs.take(n));
        lemma_indexed_prefix(pairs.drop_last(), n, secret, public);
    } else {
        assert(pairs.take(n) =~= pairs);
    }
}

/// The index of a list of what a store holds is sound and complete for it.
pub proof fn lemma_indexed_in_sync(
    pairs: Seq<(Vec<u8>, Vec<u8>)>,
    contents: Map<Seq<u8>, Seq<u8>>,
    secret: Seq<u8>,
    public: Seq<u8>,
)
    requires
        lists_contents(pairs, contents),
    ensures
        indexed(pairs, secret, public) matches Some(index) ==> index_sound(
            index,
            contents,
            secret,
            public,
        ) && index_complete(index, contents, secret, public),
        indexed(pairs, secret, public) is None ==> exists|key: Seq<u8>|
            #[trigger] contents.contains_key(key) && entry_name(key, secret, public) is None,
{
    lemma_indexed_upto(pairs, pairs.len() as int, secret, public);
    assert(pairs.take(pairs.len() as int) =~= pairs);
    match indexed(pairs, secret, public) {
        Some(index) => {
            assert forall|name: Seq<char>| #[trigger] index.contains_key(name) implies
                contents.contains_key(index[name]) && entry_name(index[name], secret, public)
                == Some(name) by {
                let i = choose|i: int|
                    0 <= i < pairs.len() && index[name] == #[trigger] pairs[i].0@;
                assert(contents.contains_key(pairs[i].0@));
            }
            assert forall|key: Seq<u8>| #[trigger] contents.contains_key(key) implies (entry_name(
                key,
                secret,
                public,
            ) matches Some(name) && index.contains_key(name)) by {
                let i = choose|i: int| 0 <= i < pairs.len() && #[trigger] pairs[i].0@ == key;
                assert(entry_name(pairs[i].0@, secret, public) is Some);
            }
        },
        None => {
            let i = choose|i: int|
                0 <= i < pairs.len() && entry_name(#[trigger] pairs[i].0@, secret, public) is None;
            assert(contents.contains_key(pairs[i].0@));
        },
    }
}

proof fn lemma_indexed_upto(
    pairs: Seq<(Vec<u8>, Vec<u8>)>,
    n: int,
    secret: Seq<u8>,
    public: Seq<u8>,
)
    requires
        0 <= n <= pairs.len(),
    ensures
        match indexed(pairs.take(n), secret, public) {
            Some(index) => {
                &&& forall|name: Seq<char>| #[trigger]
                    index.contains_key(name) ==> entry_name(index[name], secret, public) == Some(
                        name,
                    ) && exists|i: int| 0 <= i < n && index[name] == #[trigger] pairs[i].0@
                &&& forall|i: int|
                    0 <= i < n ==> (entry_name(#[trigger] pairs[i].0@, secret, public) matches Some(
                        name,
                    ) && index.contains_key(name))
            },
            None => exists|i: int|
                0 <= i < n && entry_name(#[trigger] pairs[i].0@, secret, public) is None,
        },
    decreases n,
{
    if n > 0 {
        let shorter = pairs.take(n - 1);
        assert(pairs.take(n).drop_last() =~= shorter);
        assert(pairs.take(n).last() == pairs[n - 1]);
        lemma_indexed_upto(pairs, n - 1, secret, public);
        match (indexed(shorter, secret, public), entry_name(pairs[n - 1].0@, secret, public)) {
            (Some(before), Some(added)) => {
                let index = before.insert(added, pairs[n - 1].0@);
                assert(indexed(pairs.take(n), secret, public) == Some(index));
                assert forall|name: Seq<char>| #[trigger] index.contains_key(name) implies
                    entry_name(index[name], secret, public) == Some(name) && exists|i: int|
                    0 <= i < n && index[name] == #[trigger] pairs[i].0@ by {
                    if name == added {
                        assert(index[name] == pairs[n - 1].0@);
                    } else {
                        assert(before.contains_key(name));
                        let i = choose|i: int|
                            0 <= i < n - 1 && before[name] == #[trigger] pairs[i].0@;
                        assert(index[name] == pairs[i].0@);
                    }
                }
                assert forall|i: int| 0 <= i < n implies (entry_name(
                    #[trigger] pairs[i].0@,
                    secret,
                    public,
                ) matches Some(name) && index.contains_key(name)) by {
                    if i < n - 1 {
                        let name = entry_name(pairs[i].0@, secret, public).unwrap();
                        assert(before.contains_key(name));
                    }
                }
            },
            (Some(before), None) => {
                assert(entry_name(pairs[n - 1].0@, secret, public) is None);
            },
            (None, _) => {
                let i = choose|i: int|
                    0 <= i < n - 1 && entry_name(#[trigger] pairs[i].0@, secret, public) is None;
                assert(entry_name(pairs[i].0@, secret, public) is None);
            },
        }
    } else {
        assert(pairs.take(0).len() == 0);
    }
}

/// `index` is the index of a store: that of the list of what it holds, in
/// the order of its keys. Where two keys encrypt one name, the index holds
/// the later one.
pub open spec fn index_of_store(
    index: Map<Seq<char>, Seq<u8>>,
    contents: Map<Seq<u8>, Seq<u8>>,
    secret: Seq<u8>,
    public: Seq<u8>,
) -> bool {
    exists|pairs: Seq<(Vec<u8>, Vec<u8>)>|
        lists_contents(pairs, contents) && #[trigger] indexed(pairs, secret, public) == Some(
            index,
        )
}

/// Builds the index of an open vault: reads every pair of the store and
/// enters each key under the name that it encrypts. One key that encrypts
/// no name makes the whole vault unreadable.
pub fn load_entries(vault: &Vault, vault_db: &sled::Db, ecies: &mut ECIES) -> (r: Result<
    NameIndex,
    VaultValueErr,
>)
    ensures
        *final(ecies) == *old(ecies),
        match r {
            Ok(index) => {
                &&& index_of_store(
                    index@,
                    db_contents(*vault_db),
                    vault.priv_key@,
                    vault.pub_key@,
                )
                &&& index_sound(index@, db_contents(*vault_db), vault.priv_key@, vault.pub_key@)
                &&& index_complete(
                    index@,
                    db_contents(*vault_db),
                    vault.priv_key@,
                    vault.pub_key@,
                )
            },
            Err(VaultValueErr::DbCorrupted(code)) => code == 0 && exists|key: Seq<u8>|
                #[trigger] db_contents(*vault_db).contains_key(key) && entry_name(
                    key,
                    vault.priv_key@,
                    vault.pub_key@,
                ) is None,
            Err(e) => e == VaultValueErr::MemoryNotInSync(0),
        },
{
    let pairs = match db_pairs(vault_db) {
        Ok(pairs) => pairs,
        Err(_) => return Err(VaultValueErr::MemoryNotInSync(0)),
    };
    proof {
        lemma_indexed_in_sync(pairs@, db_contents(*vault_db), vault.priv_key@, vault.pub_key@);
    }
    index_entries(vault, &pairs, ecies)
}

/// The body that a value of the store holds: `None` where the value is not
/// authentic under the key pair or encrypts no body.
pub open spec fn opened_entry(stored: Seq<u8>, secret: Seq<u8>, public: Seq<u8>) -> Option<
    EntryView,
> {
    match decryption(stored, secret, public) {
        Some(plain) => decoded_entry(plain),
        None => None,
    }
}

/// `stored` is what is written to the store for a body: an encryption of
/// its JSON text, from which the body is read back.
pub open spec fn seals_entry(
    stored: Seq<u8>,
    value: EntryView,
    secret: Seq<u8>,
    public: Seq<u8>,
) -> bool {
    entry_text(value) matches Some(text) && encrypts(stored, encode_utf8(text), secret, public)
        && parsed_entry(text) == Some(value)
}

/// Whether a body can be written to the store: it has a JSON text that the
/// cipher accepts.
pub open spec fn entry_storable(value: EntryView) -> bool {
    entry_text(value) matches Some(text) && sealable(encode_utf8(text).len())
}

/// What reading the entry `name` yields where the store can be read.
pub open spec fn entry_result(
    index: Map<Seq<char>, Seq<u8>>,
    contents: Map<Seq<u8>, Seq<u8>>,
    secret: Seq<u8>,
    public: Seq<u8>,
    name: Seq<char>,
) -> Result<EntryView, VaultValueErr> {
    if !index.contains_key(name) {
        Err(VaultValueErr::DisplayNotInSync(0))
    } else if !contents.contains_key(index[name]) {
        Err(VaultValueErr::StoreCorrupted(0))
    } else {
        match opened_entry(contents[index[name]], secret, public) {
            Some(value) => Ok(value),
            None => Err(VaultValueErr::DbCorrupted(0)),
        }
    }
}

/// Whether `r` is the body or the error that `expected` says.
pub open spec fn entry_matches(
    r: Result<VaultValue, VaultValueErr>,
    expected: Result<EntryView, VaultValueErr>,
) -> bool {
    match r {
        Ok(value) => expected == Ok::<EntryView, VaultValueErr>(value@),
        Err(e) => expected == Err::<EntryView, VaultValueErr>(e),
    }
}

/// What reading the entry `name` returns. A name that the index does not
/// hold is refused before any store is read. For a name that it holds, the
/// result is `MemoryNotInSync` where the store cannot be read, and what
/// `entry_result` says otherwise.
pub open spec fn read_post(
    index: Map<Seq<char>, Seq<u8>>,
    contents: Map<Seq<u8>, Seq<u8>>,
    secret: Seq<u8>,
    public: Seq<u8>,
    name: Seq<char>,
    r: Result<VaultValue, VaultValueErr>,
) -> bool {
    if !index.contains_key(name) {
        r == Err::<VaultValue, VaultValueErr>(VaultValueErr::DisplayNotInSync(0))
    } else {
        r == Err::<VaultValue, VaultValueErr>(VaultValueErr::MemoryNotInSync(0)) || entry_matches(
            r,
            entry_result(index, contents, secret, public, name),
        )
    }
}

/// Decrypts and reads a value of the store.
pub fn open_entry(vault: &Vault, stored: &Vec<u8>, ecies: &mut ECIES) -> (r: Option<VaultValue>)
    ensures
        *final(ecies) == *old(ecies),
        match r {
            Some(value) => opened_entry(stored@, vault.priv_key@, vault.pub_key@) == Some(
                value@,
            ),
            None => opened_entry(stored@, vault.priv_key@, vault.pub_key@) is None,
        },
{
    match ecies.decrypt_bytes(stored, &vault.priv_key, &vault.pub_key) {
        Ok(plain) => decode_entry(plain.as_slice()),
        Err(_) => None,
    }
}

/// Encrypts a body for the store.
pub fn seal_entry(vault: &Vault, value: &VaultValue, ecies: &mut ECIES) -> (r: Option<Vec<u8>>)
    ensures
        match r {
            Some(stored) => entry_storable(value@) && seals_entry(
                stored@,
                value@,
                vault.priv_key@,
                vault.pub_key@,
            ),
            None => !entry_storable(value@),
        },
{
    let text = match encode_entry(value) {
        Some(text) => text,
        None => return None,
    };
    match ecies.encrypt_bytes_array(text.as_str().as_bytes(), &vault.priv_key, &vault.pub_key) {
        Ok(stored) => Some(stored),
        Err(_) => None,
    }
}

/// Reads the entry `selected_item`: looks its key up in the index, fetches
/// the value from the store, decrypts it and reads the body.
pub fn get_entry_value_plain(
    vault_db: &sled::Db,
    ecies: &mut ECIES,
    vault: &Vault,
    selected_item: &str,
    db_entries_dict: &NameIndex,
) -> (r: Result<VaultValue, VaultValueErr>)
    ensures
        *final(ecies) == *old(ecies),
        read_post(
            db_entries_dict@,
            db_contents(*vault_db),
            vault.priv_key@,
            vault.pub_key@,
            selected_item@,
            r,
        ),
{
    let selected_item_encrypted = match db_entries_dict.get(selected_item) {
        Some(key) => key,
        None => return Err(VaultValueErr::DisplayNotInSync(0)),
    };
    let entry_value_encrypted = match db_get(vault_db, selected_item_encrypted.as_slice()) {
        Ok(Some(stored)) => stored,
        Ok(None) => return Err(VaultValueErr::StoreCorrupted(0)),
        Err(_) => return Err(VaultValueErr::MemoryNotInSync(0)),
    };
    match open_entry(vault, &entry_value_encrypted, ecies) {
        Some(value) => Ok(value),
        None => Err(VaultValueErr::DbCorrupted(0)),
    }
}

/// What adding an entry to the store leaves behind and returns: the index,
/// the store before and after, the name, the key pair and the result.
///
/// The reserved name and a name that the index holds already are refused
/// before anything is encrypted or written. Then a name too long for the
/// cipher is refused, and an empty body that cannot be written as text. An
/// entry that is added has a fresh encryption of its name as its key and an
/// encryption of the empty body as its value. An addition that fails before
/// it has written anything leaves the store as it was.
pub open spec fn new_entry_post(
    index: Map<Seq<char>, Seq<u8>>,
    before: Map<Seq<u8>, Seq<u8>>,
    after: Map<Seq<u8>, Seq<u8>>,
    name: Seq<char>,
    secret: Seq<u8>,
    public: Seq<u8>,
    r: Result<Vec<u8>, NewEntryErr>,
) -> bool {
    if name == ROOT_NAME@ {
        r == Err::<Vec<u8>, NewEntryErr>(NewEntryErr::ReservedName(0)) && after == before
    } else if index.contains_key(name) {
        r == Err::<Vec<u8>, NewEntryErr>(NewEntryErr::AlreadyExists(0)) && after == before
    } else if !sealable(encode_utf8(name).len()) {
        r == Err::<Vec<u8>, NewEntryErr>(NewEntryErr::DbCorrupted(0)) && after == before
    } else if !entry_storable(empty_entry()) {
        r == Err::<Vec<u8>, NewEntryErr>(NewEntryErr::UnknownError(0)) && after == before
    } else {
        match r {
            Ok(key) => {
                &&& encrypts(key@, encode_utf8(name), secret, public)
                &&& entry_name(key@, secret, public) == Some(name)
                &&& after == before.insert(key@, after[key@])
                &&& seals_entry(after[key@], empty_entry(), secret, public)
            },
            Err(e) => e == NewEntryErr::DbInaccesible(0),
        }
    }
}

/// Adds an entry with the empty body to the store and returns its key.
/// `db_entries_dict` is the index of the vault: the key is not entered in
/// it here, `add_entry` does that.
pub fn add_new_entry(
    vault_db: &mut sled::Db,
    vault: &Vault,
    entrie_name: &str,
    ecies: &mut ECIES,
    db_entries_dict: &NameIndex,
) -> (r: Result<Vec<u8>, NewEntryErr>)
    ensures
        db_path(*final(vault_db)) == db_path(*old(vault_db)),
        new_entry_post(
            db_entries_dict@,
            db_contents(*old(vault_db)),
            db_contents(*final(vault_db)),
            entrie_name@,
            vault.priv_key@,
            vault.pub_key@,
            r,
        ),
{
    if String::from_str(entrie_name) == String::from_str(ROOT_NAME) {
        return Err(NewEntryErr::ReservedName(0));
    }
    if db_entries_dict.contains_key(entrie_name) {
        return Err(NewEntryErr::AlreadyExists(0));
    }
    let entrie_name_encrypted = match ecies.encrypt_bytes_array(
        entrie_name.as_bytes(),
        &vault.priv_key,
        &vault.pub_key,
    ) {
        Ok(key) => key,
        Err(_) => return Err(NewEntryErr::DbCorrupted(0)),
    };
    proof {
        lemma_decrypt_inverts_encrypt(
            entrie_name_encrypted@,
            encode_utf8(entrie_name@),
            vault.priv_key@,
            vault.pub_key@,
        );
        vstd::utf8::encode_utf8_valid_utf8(entrie_name@);
        vstd::utf8::encode_utf8_decode_utf8(entrie_name@);
    }
    let empty_value = VaultValue::new_empty();
    let empty_value_encrypted = match seal_entry(vault, &empty_value, ecies) {
        Some(stored) => stored,
        None => return Err(NewEntryErr::UnknownError(0)),
    };
    match db_insert(vault_db, entrie_name_encrypted.as_slice(), empty_value_encrypted.as_slice()) {
        Ok(_) => (),
        Err(_) => return Err(NewEntryErr::DbInaccesible(0)),
    }
    Ok(entrie_name_encrypted)
}

/// What adding an entry to an open vault leaves behind and returns: index
/// and store before and after, the name, the key pair and the result.
///
/// The store and the result are as `new_entry_post` says. An entry that is
/// added is entered in the index under its name with its key; otherwise the
/// index stays as it was.
pub open spec fn add_entry_post(
    index_before: Map<Seq<char>, Seq<u8>>,
    store_before: Map<Seq<u8>, Seq<u8>>,
    index_after: Map<Seq<char>, Seq<u8>>,
    store_after: Map<Seq<u8>, Seq<u8>>,
    name: Seq<char>,
    secret: Seq<u8>,
    public: Seq<u8>,
    r: Result<Vec<u8>, NewEntryErr>,
) -> bool {
    &&& new_entry_post(index_before, store_before, store_after, name, secret, public, r)
    &&& match r {
        Ok(key) => index_after == index_before.insert(name, key@),
        Err(_) => index_after == index_before,
    }
}

/// Adds the entry `name`, with the empty body, to an open vault.
pub fn add_entry(
    index: &mut NameIndex,
    vault_db: &mut sled::Db,
    vault: &Vault,
    name: &str,
    ecies: &mut ECIES,
) -> (r: Result<Vec<u8>, NewEntryErr>)
    ensures
        db_path(*final(vault_db)) == db_path(*old(vault_db)),
        add_entry_post(
            old(index)@,
            db_contents(*old(vault_db)),
            final(index)@,
            db_contents(*final(vault_db)),
            name@,
            vault.priv_key@,
            vault.pub_key@,
            r,
        ),
{
    match add_new_entry(vault_db, vault, name, ecies, index) {
        Ok(key) => {
            index.insert(String::from_str(name), key.clone());
            Ok(key)
        },
        Err(e) => Err(e),
    }
}

/// What an update of an entry leaves behind and returns: the index, the
/// store before and after, the name, the new body, the key pair and the
/// result.
///
/// The body is written under the key that the index holds for the name; the
/// name is not encrypted anew. An update that fails before it has written
/// anything leaves the store as it was.
pub open spec fn update_post(
    index: Map<Seq<char>, Seq<u8>>,
    before: Map<Seq<u8>, Seq<u8>>,
    after: Map<Seq<u8>, Seq<u8>>,
    name: Seq<char>,
    value: EntryView,
    secret: Seq<u8>,
    public: Seq<u8>,
    r: Result<bool, UpdateContentErr>,
) -> bool {
    match r {
        Ok(done) => {
            &&& done
            &&& index.contains_key(name)
            &&& entry_storable(value)
            &&& after == before.insert(index[name], after[index[name]])
            &&& seals_entry(after[index[name]], value, secret, public)
        },
        Err(UpdateContentErr::DisplayNotInSync(code)) => {
            &&& code == 0
            &&& after == before
            &&& !index.contains_key(name)
        },
        Err(UpdateContentErr::UnknownError(code)) => {
            &&& code == 0
            &&& after == before
            &&& index.contains_key(name)
            &&& !entry_storable(value)
        },
        Err(UpdateContentErr::DbInaccesible(code)) => {
            &&& code == 0
            &&& index.contains_key(name)
            &&& entry_storable(value)
        },
        Err(_) => false,
    }
}

/// Writes a new body for the entry `name`.
pub fn update_entry(
    name: &str,
    vault_db: &mut sled::Db,
    ecies: &mut ECIES,
    vault: &Vault,
    index: &NameIndex,
    value: &VaultValue,
) -> (r: Result<bool, UpdateContentErr>)
    ensures
        db_path(*final(vault_db)) == db_path(*old(vault_db)),
        update_post(
            index@,
            db_contents(*old(vault_db)),
            db_contents(*final(vault_db)),
            name@,
            value@,
            vault.priv_key@,
            vault.pub_key@,
            r,
        ),
{
    let key = match index.get(name) {
        Some(key) => key,
        None => return Err(UpdateContentErr::DisplayNotInSync(0)),
    };
    let stored = match seal_entry(vault, value, ecies) {
        Some(stored) => stored,
        None => return Err(UpdateContentErr::UnknownError(0)),
    };
    match db_insert(vault_db, key.as_slice(), stored.as_slice()) {
        Ok(_) => Ok(true),
        Err(_) => Err(UpdateContentErr::DbInaccesible(0)),
    }
}

/// A body with other content.
pub open spec fn with_content(value: EntryView, content: Seq<u8>) -> EntryView {
    EntryView { install_path: value.install_path, content, notes: value.notes }
}

/// What replacing the content of an entry leaves behind and returns: the
/// index, the store before and after, the name, the new content, the key
/// pair and the result.
///
/// A name that the index does not hold is refused before any store is read.
/// Where the entry cannot be read, the result is the reason and the store
/// stays as it was. Otherwise the result is that of the update with the
/// body that was read, its content replaced.
pub open spec fn update_content_post(
    index: Map<Seq<char>, Seq<u8>>,
    before: Map<Seq<u8>, Seq<u8>>,
    after: Map<Seq<u8>, Seq<u8>>,
    name: Seq<char>,
    content: Seq<u8>,
    secret: Seq<u8>,
    public: Seq<u8>,
    r: Result<bool, UpdateContentErr>,
) -> bool {
    let store_unreadable = Err::<bool, UpdateContentErr>(UpdateContentErr::MemoryNotInSync(0));
    if !index.contains_key(name) {
        r == Err::<bool, UpdateContentErr>(UpdateContentErr::DisplayNotInSync(0)) && after
            == before
    } else {
        match entry_result(index, before, secret, public, name) {
            Ok(current) => r == store_unreadable && after == before || update_post(
                index,
                before,
                after,
                name,
                with_content(current, content),
                secret,
                public,
                r,
            ),
            Err(e) => after == before && (r == store_unreadable || r == Err::<
                bool,
                UpdateContentErr,
            >(read_error(e))),
        }
    }
}

/// Replaces the content of the entry `current_selected_entry` and keeps its
/// install path and notes.
pub fn update_content_in_entry(
    current_selected_entry: &str,
    vault_db: &mut sled::Db,
    ecies: &mut ECIES,
    vault: &Vault,
    db_entries_dict: &NameIndex,
    file_content: Vec<u8>,
) -> (r: Result<bool, UpdateContentErr>)
    ensures
        db_path(*final(vault_db)) == db_path(*old(vault_db)),
        update_content_post(
            db_entries_dict@,
            db_contents(*old(vault_db)),
            db_contents(*final(vault_db)),
            current_selected_entry@,
            file_content@,
            vault.priv_key@,
            vault.pub_key@,
            r,
        ),
{
    let current = match get_entry_value_plain(
        vault_db,
        ecies,
        vault,
        current_selected_entry,
        db_entries_dict,
    ) {
        Ok(current) => current,
        Err(e) => return Err(update_error(e)),
    };
    let entry_value_new = VaultValue {
        install_path: current.install_path,
        content: file_content,
        notes: current.notes,
    };
    update_entry(current_selected_entry, vault_db, ecies, vault, db_entries_dict, &entry_value_new)
}

/// The error of an update that could not read the entry.
pub open spec fn read_error(e: VaultValueErr) -> UpdateContentErr {
    match e {
        VaultValueErr::PoisonErr(code) => UpdateContentErr::PoisonErr(code),
        VaultValueErr::DisplayNotInSync(code) => UpdateContentErr::DisplayNotInSync(code),
        VaultValueErr::MemoryNotInSync(code) => UpdateContentErr::MemoryNotInSync(code),
        VaultValueErr::DbCorrupted(code) => UpdateContentErr::DbCorrupted(code),
        VaultValueErr::StoreCorrupted(code) => UpdateContentErr::StoreCorrupted(code),
    }
}

/// Turns the error of a read into that of an update.
pub fn update_error(e: VaultValueErr) -> (r: UpdateContentErr)
    ensures
        r == read_error(e),
{
    match e {
        VaultValueErr::PoisonErr(code) => UpdateContentErr::PoisonErr(code),
        VaultValueErr::DisplayNotInSync(code) => UpdateContentErr::DisplayNotInSync(code),
        VaultValueErr::MemoryNotInSync(code) => UpdateContentErr::MemoryNotInSync(code),
        VaultValueErr::DbCorrupted(code) => UpdateContentErr::DbCorrupted(code),
        VaultValueErr::StoreCorrupted(code) => UpdateContentErr::StoreCorrupted(code),
    }
}

/// What a deletion leaves behind and returns: index and store before and
/// after, the name and the result.
///
/// An entry is deleted where the index holds its name and the store holds
/// the key that the index has for it: both lose it. Where either does not
/// hold it, index and store are out of step and stay as they were.
pub open spec fn delete_post(
    index_before: Map<Seq<char>, Seq<u8>>,
    store_before: Map<Seq<u8>, Seq<u8>>,
    index_after: Map<Seq<char>, Seq<u8>>,
    store_after: Map<Seq<u8>, Seq<u8>>,
    name: Seq<char>,
    r: Result<(), VaultValueErr>,
) -> bool {
    match r {
        Ok(_) => {
            &&& index_before.contains_key(name)
            &&& store_before.contains_key(index_before[name])
            &&& index_after == index_before.remove(name)
            &&& store_after == store_before.remove(index_before[name])
        },
        Err(VaultValueErr::DisplayNotInSync(code)) => {
            &&& code == 0
            &&& index_after == index_before
            &&& store_after == store_before
            &&& !index_before.contains_key(name) || !store_before.contains_key(
                index_before[name],
            )
        },
        Err(VaultValueErr::MemoryNotInSync(code)) => {
            &&& code == 0
            &&& index_after == index_before
            &&& index_before.contains_key(name)
        },
        Err(_) => false,
    }
}

/// Deletes the entry `name` from the store and from the index.
pub fn delete_entry(index: &mut NameIndex, vault_db: &mut sled::Db, name: &str) -> (r: Result<
    (),
    VaultValueErr,
>)
    ensures
        db_path(*final(vault_db)) == db_path(*old(vault_db)),
        delete_post(
            old(index)@,
            db_contents(*old(vault_db)),
            final(index)@,
            db_contents(*final(vault_db)),
            name@,
            r,
        ),
{
    let key = match index.get(name) {
        Some(key) => key,
        None => return Err(VaultValueErr::DisplayNotInSync(0)),
    };
    match db_remove(vault_db, key.as_slice()) {
        Ok(Some(_)) => {
            index.remove(name);
            Ok(())
        },
        Ok(None) => {
            assert(db_contents(*vault_db) =~= db_contents(*old(vault_db)));
            Err(VaultValueErr::DisplayNotInSync(0))
        },
        Err(_) => Err(VaultValueErr::MemoryNotInSync(0)),
    }
}

/// What was written to the store for a body is read back as that body,
/// whatever its size and whatever bytes its content holds.
pub proof fn lemma_sealed_entry_opens(
    stored: Seq<u8>,
    value: EntryView,
    secret: Seq<u8>,
    public: Seq<u8>,
)
    requires
        seals_entry(stored, value, secret, public),
    ensures
        opened_entry(stored, secret, public) == Some(value),
{
    let text = entry_text(value).unwrap();
    lemma_decrypt_inverts_encrypt(stored, encode_utf8(text), secret, public);
    vstd::utf8::encode_utf8_valid_utf8(text);
    vstd::utf8::encode_utf8_decode_utf8(text);
}

/// After an update that succeeded, the entry is read as the body that was
/// written.
pub proof fn lemma_read_after_update(
    index: Map<Seq<char>, Seq<u8>>,
    before: Map<Seq<u8>, Seq<u8>>,
    after: Map<Seq<u8>, Seq<u8>>,
    name: Seq<char>,
    value: EntryView,
    secret: Seq<u8>,
    public: Seq<u8>,
)
    requires
        update_post(index, before, after, name, value, secret, public, Ok(true)),
    ensures
        entry_result(index, after, secret, public, name) == Ok::<EntryView, VaultValueErr>(value),
{
    lemma_sealed_entry_opens(after[index[name]], value, secret, public);
    assert(after.contains_key(index[name]));
}

/// After an addition that succeeded, the entry is read as the empty body.
pub proof fn lemma_read_after_add(
    index_before: Map<Seq<char>, Seq<u8>>,
    store_before: Map<Seq<u8>, Seq<u8>>,
    index_after: Map<Seq<char>, Seq<u8>>,
    store_after: Map<Seq<u8>, Seq<u8>>,
    name: Seq<char>,
    secret: Seq<u8>,
    public: Seq<u8>,
    key: Vec<u8>,
)
    requires
        add_entry_post(
            index_before,
            store_before,
            index_after,
            store_after,
            name,
            secret,
            public,
            Ok(key),
        ),
    ensures
        entry_result(index_after, store_after, secret, public, name) == Ok::<
            EntryView,
            VaultValueErr,
        >(empty_entry()),
{
    lemma_sealed_entry_opens(store_after[key@], empty_entry(), secret, public);
    assert(store_after.contains_key(key@));
}

/// An addition that succeeds keeps index and store in step: an index that
/// was sound stays sound, and one that was complete stays complete.
pub proof fn lemma_add_keeps_in_step(
    index_before: Map<Seq<char>, Seq<u8>>,
    store_before: Map<Seq<u8>, Seq<u8>>,
    index_after: Map<Seq<char>, Seq<u8>>,
    store_after: Map<Seq<u8>, Seq<u8>>,
    name: Seq<char>,
    secret: Seq<u8>,
    public: Seq<u8>,
    key: Vec<u8>,
)
    requires
        add_entry_post(
            index_before,
            store_before,
            index_after,
            store_after,
            name,
            secret,
            public,
            Ok(key),
        ),
    ensures
        index_sound(index_before, store_before, secret, public) ==> index_sound(
            index_after,
            store_after,
            secret,
            public,
        ),
        index_complete(index_before, store_before, secret, public) ==> index_complete(
            index_after,
            store_after,
            secret,
            public,
        ),
{
    if index_sound(index_before, store_before, secret, public) {
        assert forall|n: Seq<char>| #[trigger] index_after.contains_key(n) implies
            store_after.contains_key(index_after[n]) && entry_name(index_after[n], secret, public)
            == Some(n) by {
            if n != name {
                assert(index_before.contains_key(n));
            }
        }
    }
    if index_complete(index_before, store_before, secret, public) {
        assert forall|k: Seq<u8>| #[trigger] store_after.contains_key(k) implies (entry_name(
            k,
            secret,
            public,
        ) matches Some(n) && index_after.contains_key(n)) by {
            if k != key@ {
                assert(store_before.contains_key(k));
            }
        }
    }
}

/// An update that succeeds on a sound index keeps index and store in step:
/// the store holds the keys that it held before.
pub proof fn lemma_update_keeps_in_step(
    index: Map<Seq<char>, Seq<u8>>,
    before: Map<Seq<u8>, Seq<u8>>,
    after: Map<Seq<u8>, Seq<u8>>,
    name: Seq<char>,
    value: EntryView,
    secret: Seq<u8>,
    public: Seq<u8>,
)
    requires
        update_post(index, before, after, name, value, secret, public, Ok(true)),
        index_sound(index, before, secret, public),
    ensures
        after.dom() == before.dom(),
        index_sound(index, after, secret, public),
        index_complete(index, before, secret, public) ==> index_complete(
            index,
            after,
            secret,
            public,
        ),
{
    assert(index.contains_key(name));
    assert(before.contains_key(index[name]));
    assert(after.dom() =~= before.dom());
    assert forall|n: Seq<char>| #[trigger] index.contains_key(n) implies after.contains_key(
        index[n],
    ) by {
        assert(before.contains_key(index[n]));
    }
    if index_complete(index, before, secret, public) {
        assert forall|k: Seq<u8>| #[trigger] after.contains_key(k) implies (entry_name(
            k,
            secret,
            public,
        ) matches Some(n) && index.contains_key(n)) by {
            assert(before.contains_key(k));
        }
    }
}

/// A deletion that succeeds takes the name out of the index and its key out
/// of the store, and a sound index stays sound.
pub proof fn lemma_delete_keeps_sound(
    index_before: Map<Seq<char>, Seq<u8>>,
    store_before: Map<Seq<u8>, Seq<u8>>,
    index_after: Map<Seq<char>, Seq<u8>>,
    store_after: Map<Seq<u8>, Seq<u8>>,
    name: Seq<char>,
    secret: Seq<u8>,
    public: Seq<u8>,
)
    requires
        delete_post(index_before, store_before, index_after, store_after, name, Ok(())),
    ensures
        !index_after.contains_key(name),
        !store_after.contains_key(index_before[name]),
        index_sound(index_before, store_before, secret, public) ==> index_sound(
            index_after,
            store_after,
            secret,
            public,
        ),
{
    if index_sound(index_before, store_before, secret, public) {
        assert(index_before.contains_key(name));
        assert forall|n: Seq<char>| #[trigger] index_after.contains_key(n) implies
            store_after.contains_key(index_after[n]) && entry_name(index_after[n], secret, public)
            == Some(n) by {
            assert(index_before.contains_key(n));
        }
    }
}

/// An entry that was added can be deleted: the deletion fails only where
/// the store cannot be written, and once it has succeeded the index is
/// without the name and the store without the key that the addition
/// returned.
pub proof fn lemma_delete_after_add(
    index_start: Map<Seq<char>, Seq<u8>>,
    store_start: Map<Seq<u8>, Seq<u8>>,
    index_between: Map<Seq<char>, Seq<u8>>,
    store_between: Map<Seq<u8>, Seq<u8>>,
    index_end: Map<Seq<char>, Seq<u8>>,
    store_end: Map<Seq<u8>, Seq<u8>>,
    name: Seq<char>,
    secret: Seq<u8>,
    public: Seq<u8>,
    key: Vec<u8>,
    deleted: Result<(), VaultValueErr>,
)
    requires
        add_entry_post(
            index_start,
            store_start,
            index_between,
            store_between,
            name,
            secret,
            public,
            Ok(key),
        ),
        delete_post(index_between, store_between, index_end, store_end, name, deleted),
    ensures
        deleted is Ok || deleted == Err::<(), VaultValueErr>(VaultValueErr::MemoryNotInSync(0)),
        deleted is Ok ==> {
            &&& !index_end.contains_key(name)
            &&& !store_end.contains_key(key@)
            &&& index_end == index_start
        },
{
    assert(index_between.contains_key(name));
    assert(index_between[name] == key@);
    assert(store_between.contains_key(key@));
    if deleted is Ok {
        assert(index_end =~= index_start);
    }
}

/// The index of a list depends on the keys alone.
pub proof fn lemma_indexed_by_keys(
    first: Seq<(Vec<u8>, Vec<u8>)>,
    second: Seq<(Vec<u8>, Vec<u8>)>,
    secret: Seq<u8>,
    public: Seq<u8>,
)
    requires
        first.len() == second.len(),
        forall|i: int| 0 <= i < first.len() ==> (#[trigger] first[i]).0@ == second[i].0@,
    ensures
        indexed(first, secret, public) == indexed(second, secret, public),
    decreases first.len(),
{
    if first.len() > 0 {
        assert(first.last().0@ == second.last().0@);
        assert forall|i: int| 0 <= i < first.drop_last().len() implies (
        #[trigger] first.drop_last()[i]).0@ == second.drop_last()[i].0@ by {
            assert(first.drop_last()[i] == first[i]);
            assert(second.drop_last()[i] == second[i]);
        }
        lemma_indexed_by_keys(first.drop_last(), second.drop_last(), secret, public);
    }
}

/// A store has one index: what `load_entries` returns for a store is a
/// function of what the store holds and of the key pair.
pub proof fn lemma_one_index(
    first: Map<Seq<char>, Seq<u8>>,
    second: Map<Seq<char>, Seq<u8>>,
    contents: Map<Seq<u8>, Seq<u8>>,
    secret: Seq<u8>,
    public: Seq<u8>,
)
    requires
        index_of_store(first, contents, secret, public),
        index_of_store(second, contents, secret, public),
    ensures
        first == second,
{
    let p = choose|pairs: Seq<(Vec<u8>, Vec<u8>)>|
        lists_contents(pairs, contents) && #[trigger] indexed(pairs, secret, public) == Some(
            first,
        );
    let q = choose|pairs: Seq<(Vec<u8>, Vec<u8>)>|
        lists_contents(pairs, contents) && #[trigger] indexed(pairs, secret, public) == Some(
            second,
        );
    lemma_one_list(p, q, contents);
    lemma_indexed_by_keys(p, q, secret, public);
}

} // verus!
