use estash::encrypter::ecies::ECIES;
use estash::utils::json::bytes_of_elements;
use estash::utils::Vault;
use estash::vault::index::NameIndex;
use estash::vault::{
    add_entry, add_new_entry, content_is_displayable, content_is_displayable_below,
    decode_entry, delete_entry, encode_entry,
    get_entry_value_plain, index_entries, load_entries, load_vault, update_content_in_entry,
    update_entry, update_error, NewEntryErr, UpdateContentErr, VaultValue, VaultValueErr,
};

fn scratch_store() -> sled::Db {
    sled::Config::new().temporary(true).open().unwrap()
}

fn secrets(ecies: &mut ECIES) -> Vault {
    let (pub_key, priv_key) = ecies.gen_key_pair();
    Vault { vault_name: String::from("test"), id: 1, priv_key, pub_key }
}

fn body(install_path: &str, content: &[u8], notes: &str) -> VaultValue {
    VaultValue {
        install_path: String::from(install_path),
        content: content.to_vec(),
        notes: String::from(notes),
    }
}

fn same(a: &VaultValue, b: &VaultValue) -> bool {
    a.install_path == b.install_path && a.content == b.content && a.notes == b.notes
}

#[test]
fn new_entry_is_empty() {
    let value = VaultValue::new_empty();
    assert_eq!(value.install_path, "");
    assert_eq!(value.content, Vec::<u8>::new());
    assert_eq!(value.notes, "");
}

#[test]
fn bodies_as_json() {
    let text = encode_entry(&VaultValue::new_empty()).unwrap();
    let parsed: serde_json::Value = serde_json::from_str(&text).unwrap();
    assert_eq!(parsed.get("install_path").unwrap().as_str(), Some(""));
    assert_eq!(parsed.get("content").unwrap().as_array().unwrap().len(), 0);
    assert_eq!(parsed.get("notes").unwrap().as_str(), Some(""));
    assert_eq!(parsed.as_object().unwrap().len(), 3);

    let value = body("/etc/thing.conf", &[0, 1, 255, 128], "line\n\"quoted\" \\ \u{1F512} \u{0}");
    let text = encode_entry(&value).unwrap();
    assert!(same(&decode_entry(text.as_bytes()).unwrap(), &value));
    let parsed: serde_json::Value = serde_json::from_str(&text).unwrap();
    assert_eq!(parsed.get("install_path").unwrap().as_str(), Some("/etc/thing.conf"));
    let numbers: Vec<u64> = parsed
        .get("content")
        .unwrap()
        .as_array()
        .unwrap()
        .iter()
        .map(|n| n.as_u64().unwrap())
        .collect();
    assert_eq!(numbers, vec![0, 1, 255, 128]);
}

#[test]
fn bodies_written_in_another_order_are_read() {
    let text = b"{\"install_path\":\"p\",\"content\":[1,2,3],\"notes\":\"n\"}";
    assert!(same(&decode_entry(text).unwrap(), &body("p", &[1, 2, 3], "n")));
    let text = b" {\"notes\":\"n\", \"extra\": {}, \"content\":[ ], \"install_path\":\"\\u0041\"} ";
    assert!(same(&decode_entry(text).unwrap(), &body("A", &[], "n")));
}

#[test]
fn malformed_bodies_are_refused() {
    assert!(decode_entry(b"").is_none());
    assert!(decode_entry(b"{}").is_none());
    assert!(decode_entry(b"{\"install_path\":\"p\",\"content\":[1],\"notes\":\"n\"").is_none());
    assert!(decode_entry(b"{\"install_path\":\"p\",\"content\":[1]}").is_none());
    assert!(decode_entry(b"{\"install_path\":\"p\",\"notes\":\"n\"}").is_none());
    assert!(decode_entry(b"{\"content\":[1],\"notes\":\"n\"}").is_none());
    assert!(decode_entry(b"{\"install_path\":1,\"content\":[1],\"notes\":\"n\"}").is_none());
    assert!(decode_entry(b"{\"install_path\":\"p\",\"content\":\"x\",\"notes\":\"n\"}").is_none());
    assert!(decode_entry(b"{\"install_path\":\"p\",\"content\":[1],\"notes\":null}").is_none());
    assert!(decode_entry(b"{\"install_path\":\"p\",\"content\":[256],\"notes\":\"n\"}").is_none());
    assert!(decode_entry(b"{\"install_path\":\"p\",\"content\":[-1],\"notes\":\"n\"}").is_none());
    assert!(decode_entry(b"{\"install_path\":\"p\",\"content\":[1.5],\"notes\":\"n\"}").is_none());
    assert!(decode_entry(b"{\"install_path\":\"p\",\"content\":[\"1\"],\"notes\":\"n\"}").is_none());
    assert!(decode_entry(b"[\"p\",[1],\"n\"]").is_none());
    assert!(decode_entry(&[0xff, 0xff]).is_none());
    assert!(decode_entry(b"{\"install_path\":\"p\",\"content\":[255],\"notes\":\"n\"}").is_some());
}

#[test]
fn index_holds_what_is_entered() {
    let mut index = NameIndex::new();
    assert_eq!(index.len(), 0);
    assert!(!index.contains_key("a"));
    assert_eq!(index.get("a"), None);
    index.insert(String::from("a"), vec![1]);
    index.insert(String::from("b"), vec![2, 2]);
    index.insert(String::from(""), vec![]);
    assert_eq!(index.len(), 3);
    assert_eq!(index.get("a"), Some(vec![1]));
    assert_eq!(index.get("b"), Some(vec![2, 2]));
    assert_eq!(index.get(""), Some(vec![]));
    assert_eq!(index.get("A"), None);
    index.insert(String::from("a"), vec![9]);
    assert_eq!(index.len(), 3);
    assert_eq!(index.get("a"), Some(vec![9]));
    assert_eq!(index.get("b"), Some(vec![2, 2]));
    let mut names = index.names();
    names.sort();
    assert_eq!(names, vec![String::from(""), String::from("a"), String::from("b")]);
    assert_eq!(index.remove("b"), Some(vec![2, 2]));
    assert_eq!(index.remove("b"), None);
    assert_eq!(index.len(), 2);
    assert!(!index.contains_key("b"));
    assert_eq!(index.get("a"), Some(vec![9]));
    assert_eq!(index.get(""), Some(vec![]));
    assert_eq!(index.remove("a"), Some(vec![9]));
    assert_eq!(index.remove(""), Some(vec![]));
    assert_eq!(index.len(), 0);
    assert_eq!(index.names(), Vec::<String>::new());
}

#[test]
fn added_entry_is_empty_and_indexed() {
    let mut ecies = ECIES::new().unwrap();
    let vault = secrets(&mut ecies);
    let mut store = scratch_store();
    let mut index = NameIndex::new();
    let key = add_entry(&mut index, &mut store, &vault, "foo", &mut ecies).unwrap();
    assert_eq!(index.get("foo"), Some(key.clone()));
    assert_eq!(store.len(), 1);
    assert!(store.contains_key(&key).unwrap());
    assert_eq!(ecies.decrypt_bytes(&key, &vault.priv_key, &vault.pub_key), Ok(b"foo".to_vec()));
    let value = get_entry_value_plain(&store, &mut ecies, &vault, "foo", &index).unwrap();
    assert!(same(&value, &VaultValue::new_empty()));
}

#[test]
fn add_refuses_taken_and_reserved_names() {
    let mut ecies = ECIES::new().unwrap();
    let vault = secrets(&mut ecies);
    let mut store = scratch_store();
    let mut index = NameIndex::new();
    add_entry(&mut index, &mut store, &vault, "foo", &mut ecies).unwrap();
    assert_eq!(
        add_entry(&mut index, &mut store, &vault, "foo", &mut ecies),
        Err(NewEntryErr::AlreadyExists(0))
    );
    assert_eq!(
        add_entry(&mut index, &mut store, &vault, "ROOT", &mut ecies),
        Err(NewEntryErr::ReservedName(0))
    );
    assert_eq!(store.len(), 1);
    assert_eq!(index.len(), 1);
    assert!(add_entry(&mut index, &mut store, &vault, "root", &mut ecies).is_ok());
    assert!(add_entry(&mut index, &mut store, &vault, "ROOT ", &mut ecies).is_ok());
    assert!(add_entry(&mut index, &mut store, &vault, "", &mut ecies).is_ok());
    assert_eq!(store.len(), 4);
}

#[test]
fn add_new_entry_stores_and_leaves_the_index_alone() {
    let mut ecies = ECIES::new().unwrap();
    let vault = secrets(&mut ecies);
    let mut store = scratch_store();
    let mut index = NameIndex::new();
    let key = add_new_entry(&mut store, &vault, "foo", &mut ecies, &index).unwrap();
    assert_eq!(store.len(), 1);
    assert!(store.contains_key(&key).unwrap());
    assert_eq!(index.len(), 0);
    index.insert(String::from("foo"), key);
    assert_eq!(
        add_new_entry(&mut store, &vault, "foo", &mut ecies, &index),
        Err(NewEntryErr::AlreadyExists(0))
    );
    assert_eq!(
        add_new_entry(&mut store, &vault, "ROOT", &mut ecies, &index),
        Err(NewEntryErr::ReservedName(0))
    );
    assert_eq!(
        add_new_entry(&mut store, &vault, "ROOT", &mut ecies, &NameIndex::new()),
        Err(NewEntryErr::ReservedName(0))
    );
    assert_eq!(store.len(), 1);
    assert!(add_new_entry(&mut store, &vault, "bar", &mut ecies, &index).is_ok());
    assert_eq!(store.len(), 2);
}

#[test]
fn add_then_delete_leaves_nothing() {
    let mut ecies = ECIES::new().unwrap();
    let vault = secrets(&mut ecies);
    let mut store = scratch_store();
    let mut index = NameIndex::new();
    add_entry(&mut index, &mut store, &vault, "keep", &mut ecies).unwrap();
    let key = add_entry(&mut index, &mut store, &vault, "foo", &mut ecies).unwrap();
    assert_eq!(delete_entry(&mut index, &mut store, "foo"), Ok(()));
    assert!(!index.contains_key("foo"));
    assert!(!store.contains_key(&key).unwrap());
    assert!(index.contains_key("keep"));
    assert_eq!(store.len(), 1);
    assert_eq!(
        get_entry_value_plain(&store, &mut ecies, &vault, "foo", &index).err(),
        Some(VaultValueErr::DisplayNotInSync(0))
    );
    assert_eq!(
        delete_entry(&mut index, &mut store, "foo"),
        Err(VaultValueErr::DisplayNotInSync(0))
    );
    assert!(add_entry(&mut index, &mut store, &vault, "foo", &mut ecies).is_ok());
}

#[test]
fn delete_when_store_and_index_are_out_of_step() {
    let mut ecies = ECIES::new().unwrap();
    let vault = secrets(&mut ecies);
    let mut store = scratch_store();
    let mut index = NameIndex::new();
    let key = add_entry(&mut index, &mut store, &vault, "foo", &mut ecies).unwrap();
    store.remove(&key).unwrap();
    assert_eq!(
        delete_entry(&mut index, &mut store, "foo"),
        Err(VaultValueErr::DisplayNotInSync(0))
    );
    assert!(index.contains_key("foo"));
    assert_eq!(
        get_entry_value_plain(&store, &mut ecies, &vault, "foo", &index).err(),
        Some(VaultValueErr::StoreCorrupted(0))
    );
}

#[test]
fn update_keeps_the_key_and_is_read_back() {
    let mut ecies = ECIES::new().unwrap();
    let vault = secrets(&mut ecies);
    let mut store = scratch_store();
    let mut index = NameIndex::new();
    let key = add_entry(&mut index, &mut store, &vault, "foo", &mut ecies).unwrap();
    let value = body("/opt/x", b"hello", "a note");
    assert_eq!(update_entry("foo", &mut store, &mut ecies, &vault, &index, &value), Ok(true));
    assert_eq!(store.len(), 1);
    assert!(store.contains_key(&key).unwrap());
    assert_eq!(index.get("foo"), Some(key));
    let read = get_entry_value_plain(&store, &mut ecies, &vault, "foo", &index).unwrap();
    assert!(same(&read, &value));
    assert_eq!(
        update_entry("bar", &mut store, &mut ecies, &vault, &index, &value),
        Err(UpdateContentErr::DisplayNotInSync(0))
    );
    assert_eq!(store.len(), 1);
}

#[test]
fn large_binary_content_is_stored_in_full() {
    let mut ecies = ECIES::new().unwrap();
    let vault = secrets(&mut ecies);
    let mut store = scratch_store();
    let mut index = NameIndex::new();
    add_entry(&mut index, &mut store, &vault, "blob", &mut ecies).unwrap();
    let blob: Vec<u8> = (0..100_000u32).map(|i| (i.wrapping_mul(2654435761) >> 13) as u8 | 0x80).collect();
    assert!(std::str::from_utf8(&blob).is_err());
    assert!(!content_is_displayable(&blob));
    let value = body("/tmp/blob.bin", &blob, "binary");
    assert_eq!(update_entry("blob", &mut store, &mut ecies, &vault, &index, &value), Ok(true));
    let read = get_entry_value_plain(&store, &mut ecies, &vault, "blob", &index).unwrap();
    assert_eq!(read.content.len(), 100_000);
    assert_eq!(read.content, blob);
    assert_eq!(read.install_path, "/tmp/blob.bin");
    assert_eq!(read.notes, "binary");
}

#[test]
fn update_of_content_keeps_path_and_notes() {
    let mut ecies = ECIES::new().unwrap();
    let vault = secrets(&mut ecies);
    let mut store = scratch_store();
    let mut index = NameIndex::new();
    add_entry(&mut index, &mut store, &vault, "foo", &mut ecies).unwrap();
    update_entry("foo", &mut store, &mut ecies, &vault, &index, &body("/p", b"old", "n")).unwrap();
    assert_eq!(
        update_content_in_entry("foo", &mut store, &mut ecies, &vault, &index, vec![0xff, 0x00, 0x10]),
        Ok(true)
    );
    let read = get_entry_value_plain(&store, &mut ecies, &vault, "foo", &index).unwrap();
    assert!(same(&read, &body("/p", &[0xff, 0x00, 0x10], "n")));
    assert_eq!(
        update_content_in_entry("bar", &mut store, &mut ecies, &vault, &index, vec![1]),
        Err(UpdateContentErr::DisplayNotInSync(0))
    );
    let key = index.get("foo").unwrap();
    store.insert(&key, &b"garbage that is long enough to hold a nonce and a tag"[..]).unwrap();
    assert_eq!(
        update_content_in_entry("foo", &mut store, &mut ecies, &vault, &index, vec![1]),
        Err(UpdateContentErr::DbCorrupted(0))
    );
    store.remove(&key).unwrap();
    assert_eq!(
        update_content_in_entry("foo", &mut store, &mut ecies, &vault, &index, vec![1]),
        Err(UpdateContentErr::StoreCorrupted(0))
    );
    assert_eq!(store.len(), 0);
}

#[test]
fn index_is_rebuilt_from_the_store() {
    let mut ecies = ECIES::new().unwrap();
    let vault = secrets(&mut ecies);
    let mut store = scratch_store();
    let mut index = NameIndex::new();
    let mut keys = Vec::new();
    for name in ["one", "two", "three", "\u{e9}t\u{e9}"] {
        keys.push((name, add_entry(&mut index, &mut store, &vault, name, &mut ecies).unwrap()));
    }
    update_entry("two", &mut store, &mut ecies, &vault, &index, &body("/2", b"2", "")).unwrap();
    let reopened = load_entries(&vault, &store, &mut ecies).unwrap();
    assert_eq!(reopened.len(), 4);
    for (name, key) in keys {
        assert_eq!(reopened.get(name), Some(key.clone()));
        assert!(store.get(&key).unwrap().is_some());
    }
    let read = get_entry_value_plain(&store, &mut ecies, &vault, "two", &reopened).unwrap();
    assert!(same(&read, &body("/2", b"2", "")));
    assert_eq!(load_entries(&vault, &scratch_store(), &mut ecies).unwrap().len(), 0);
}

#[test]
fn unreadable_key_makes_the_vault_unreadable() {
    let mut ecies = ECIES::new().unwrap();
    let vault = secrets(&mut ecies);
    let other = secrets(&mut ecies);
    let mut store = scratch_store();
    let mut index = NameIndex::new();
    add_entry(&mut index, &mut store, &vault, "mine", &mut ecies).unwrap();
    assert!(load_entries(&vault, &store, &mut ecies).is_ok());
    assert_eq!(
        load_entries(&other, &store, &mut ecies).err(),
        Some(VaultValueErr::DbCorrupted(0))
    );
    store.insert(b"short", b"x").unwrap();
    assert_eq!(
        load_entries(&vault, &store, &mut ecies).err(),
        Some(VaultValueErr::DbCorrupted(0))
    );
    store.remove(b"short").unwrap();
    let not_text = ecies.encrypt_bytes(&vec![0xff, 0xfe], &vault.priv_key, &vault.pub_key).unwrap();
    store.insert(&not_text, b"x").unwrap();
    assert_eq!(
        load_entries(&vault, &store, &mut ecies).err(),
        Some(VaultValueErr::DbCorrupted(0))
    );
}

#[test]
fn later_key_wins_where_two_keys_hold_one_name() {
    let mut ecies = ECIES::new().unwrap();
    let vault = secrets(&mut ecies);
    let first = ecies.encrypt_bytes(&b"twin".to_vec(), &vault.priv_key, &vault.pub_key).unwrap();
    let second = ecies.encrypt_bytes(&b"twin".to_vec(), &vault.priv_key, &vault.pub_key).unwrap();
    let pairs = vec![(first.clone(), vec![]), (second.clone(), vec![])];
    let index = index_entries(&vault, &pairs, &mut ecies).unwrap();
    assert_eq!(index.len(), 1);
    assert_eq!(index.get("twin"), Some(second));
    let pairs = vec![(first.clone(), vec![]), (vec![1, 2, 3], vec![])];
    assert_eq!(
        index_entries(&vault, &pairs, &mut ecies).err(),
        Some(VaultValueErr::DbCorrupted(0))
    );
}

#[test]
fn entry_of_another_vault_is_corrupted() {
    let mut ecies = ECIES::new().unwrap();
    let vault = secrets(&mut ecies);
    let other = secrets(&mut ecies);
    let mut store = scratch_store();
    let mut index = NameIndex::new();
    add_entry(&mut index, &mut store, &vault, "foo", &mut ecies).unwrap();
    assert_eq!(
        get_entry_value_plain(&store, &mut ecies, &other, "foo", &index).err(),
        Some(VaultValueErr::DbCorrupted(0))
    );
    let key = index.get("foo").unwrap();
    let not_json =
        ecies.encrypt_bytes(&b"not json".to_vec(), &vault.priv_key, &vault.pub_key).unwrap();
    store.insert(&key, not_json).unwrap();
    assert_eq!(
        get_entry_value_plain(&store, &mut ecies, &vault, "foo", &index).err(),
        Some(VaultValueErr::DbCorrupted(0))
    );
    let not_text =
        ecies.encrypt_bytes(&vec![0xc0, 0x80], &vault.priv_key, &vault.pub_key).unwrap();
    store.insert(&key, not_text).unwrap();
    assert_eq!(
        get_entry_value_plain(&store, &mut ecies, &vault, "foo", &index).err(),
        Some(VaultValueErr::DbCorrupted(0))
    );
}

#[test]
fn content_is_shown_below_the_limit_and_as_text_only() {
    assert!(content_is_displayable(b""));
    assert!(content_is_displayable(b"plain text"));
    assert!(content_is_displayable("gr\u{fc}n".as_bytes()));
    assert!(!content_is_displayable(&[0xff]));
    assert!(content_is_displayable(&vec![b'a'; 32766]));
    assert!(!content_is_displayable(&vec![b'a'; 32767]));
    assert!(!content_is_displayable(&vec![b'a'; 100_000]));
    assert!(content_is_displayable_below(&vec![b'a'; 100_000], 100_001));
    assert!(!content_is_displayable_below(&vec![b'a'; 100_000], 100_000));
    assert!(!content_is_displayable_below(b"", 0));
    assert!(!content_is_displayable_below(&[0x80], 10));
}

#[test]
fn vault_store_is_opened_by_id() {
    let dir = format!("/tmp/estash-test-{:016x}/", rand::random::<u64>());
    let mut ecies = ECIES::new().unwrap();
    let mut vault = secrets(&mut ecies);
    vault.id = 5;
    let mut store = load_vault(&dir, false, &vault).unwrap();
    let mut index = NameIndex::new();
    add_entry(&mut index, &mut store, &vault, "foo", &mut ecies).unwrap();
    drop(store);
    let again = sled::open(format!("{}data/vaults/5", dir)).unwrap();
    assert_eq!(again.len(), 1);
}

#[test]
fn wiped_vault_has_no_private_key() {
    let mut ecies = ECIES::new().unwrap();
    let mut vault = secrets(&mut ecies);
    let public = vault.pub_key;
    assert_ne!(vault.priv_key, [0u8; 32]);
    vault.wipe();
    assert_eq!(vault.priv_key, [0u8; 32]);
    assert_eq!(vault.pub_key, public);
    assert_eq!(vault.vault_name, "test");
    assert_eq!(vault.id, 1);
}

#[test]
fn forgotten_bytes_are_gone() {
    let mut password = b"correct-horse".to_vec();
    estash::encrypter::wipe::forget(&mut password);
    assert_eq!(password, Vec::<u8>::new());
}

#[test]
fn names_and_bodies_of_stored_pairs() {
    let mut ecies = ECIES::new().unwrap();
    let vault = secrets(&mut ecies);
    let other = secrets(&mut ecies);
    let key = ecies.encrypt_bytes(&b"name".to_vec(), &vault.priv_key, &vault.pub_key).unwrap();
    assert_eq!(
        estash::vault::read_entry_name(&vault, &key, &mut ecies),
        Some(String::from("name"))
    );
    assert_eq!(estash::vault::read_entry_name(&other, &key, &mut ecies), None);
    assert_eq!(estash::vault::read_entry_name(&vault, &vec![0u8; 10], &mut ecies), None);

    let value = body("/p", &[9, 8, 7], "n");
    let stored = estash::vault::seal_entry(&vault, &value, &mut ecies).unwrap();
    let plain = ecies.decrypt_bytes(&stored, &vault.priv_key, &vault.pub_key).unwrap();
    assert_eq!(plain, encode_entry(&value).unwrap().into_bytes());
    let opened = estash::vault::open_entry(&vault, &stored, &mut ecies).unwrap();
    assert!(same(&opened, &value));
    assert!(estash::vault::open_entry(&other, &stored, &mut ecies).is_none());
    assert!(estash::vault::open_entry(&vault, &key, &mut ecies).is_none());
}

#[test]
fn errors_of_a_read_become_errors_of_an_update() {
    assert_eq!(update_error(VaultValueErr::PoisonErr(3)), UpdateContentErr::PoisonErr(3));
    assert_eq!(
        update_error(VaultValueErr::DisplayNotInSync(0)),
        UpdateContentErr::DisplayNotInSync(0)
    );
    assert_eq!(
        update_error(VaultValueErr::MemoryNotInSync(0)),
        UpdateContentErr::MemoryNotInSync(0)
    );
    assert_eq!(update_error(VaultValueErr::DbCorrupted(7)), UpdateContentErr::DbCorrupted(7));
    assert_eq!(
        update_error(VaultValueErr::StoreCorrupted(0)),
        UpdateContentErr::StoreCorrupted(0)
    );
}

#[test]
fn json_numbers_as_bytes() {
    assert_eq!(bytes_of_elements(&vec![]), Some(vec![]));
    assert_eq!(bytes_of_elements(&vec![Some(0), Some(255), Some(7)]), Some(vec![0, 255, 7]));
    assert_eq!(bytes_of_elements(&vec![Some(0), Some(256)]), None);
    assert_eq!(bytes_of_elements(&vec![Some(1), None, Some(2)]), None);
    assert_eq!(bytes_of_elements(&vec![Some(u64::MAX)]), None);
}

#[test]
fn greater_key_wins_where_the_store_holds_one_name_twice() {
    let mut ecies = ECIES::new().unwrap();
    let vault = secrets(&mut ecies);
    let store = scratch_store();
    let mut keys = Vec::new();
    for _ in 0..8 {
        let key = ecies.encrypt_bytes(&b"twin".to_vec(), &vault.priv_key, &vault.pub_key).unwrap();
        store.insert(&key, b"").unwrap();
        keys.push(key);
    }
    let index = load_entries(&vault, &store, &mut ecies).unwrap();
    assert_eq!(index.len(), 1);
    assert_eq!(index.get("twin"), keys.iter().max().cloned());
}

#[test]
fn vault_store_on_windows_is_opened_by_id() {
    let dir = format!("/tmp/estash-test-{:016x}/", rand::random::<u64>());
    let mut ecies = ECIES::new().unwrap();
    let mut vault = secrets(&mut ecies);
    vault.id = 12;
    let store = load_vault(&dir, true, &vault).unwrap();
    store.insert(b"k", b"v").unwrap();
    drop(store);
    let again = sled::open(format!("{}data\\vaults\\12", dir)).unwrap();
    assert_eq!(again.get(b"k").unwrap().unwrap().to_vec(), b"v".to_vec());
}
