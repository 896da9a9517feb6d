//! The embedded ordered key-value stores: the three registry stores, and
//! what the vault reads and writes through a store handle.
//!
//! A handle stands for the store: what is said here of a store holds as
//! long as nothing else writes to it, be it through a clone of the handle or
//! from another process. The library never clones a handle.

use super::constants;
use vstd::prelude::*;
use vstd::string::StringExecFns;

verus! {

/// `sled::Db`, the handle of a store. The proofs see of it what
/// `db_contents` names.
#[verifier::external_type_specification]
#[verifier::external_body]
pub struct ExDb(sled::Db);

/// `sled::Error`, the error of a store. Nothing of it is visible to the
/// proofs.
#[verifier::external_type_specification]
#[verifier::external_body]
pub struct ExSledError(sled::Error);

/// The key-value pairs that a store holds.
pub uninterp spec fn db_contents(db: sled::Db) -> Map<Seq<u8>, Seq<u8>>;

/// The path that a store was opened with.
pub uninterp spec fn db_path(db: sled::Db) -> Seq<char>;

/// Calls `sled::open`, which opens the store at `path` and creates it where
/// it is not there yet.
///
/// Trusted: the store that comes back is the one opened with `path`.
/// Nothing is claimed of what it holds.
#[verifier::external_body]
pub(crate) fn db_open(path: &str) -> (r: Result<sled::Db, sled::Error>)
    ensures
        r matches Ok(db) ==> db_path(db) == path@,
{
    sled::open(path)
}

/// Calls `sled::Tree::contains_key`.
///
/// Trusted: an `Ok` result says whether the store holds `key`.
#[verifier::external_body]
pub(crate) fn db_contains_key(db: &sled::Db, key: &[u8]) -> (r: Result<bool, sled::Error>)
    ensures
        r matches Ok(found) ==> found == db_contents(*db).contains_key(key@),
{
    db.contains_key(key)
}

/// Calls `sled::Tree::get` and copies the value out.
///
/// Trusted: an `Ok` result is the value that the store holds under `key`, or
/// `None` where it holds none.
#[verifier::external_body]
pub(crate) fn db_get(db: &sled::Db, key: &[u8]) -> (r: Result<Option<Vec<u8>>, sled::Error>)
    ensures
        r matches Ok(found) ==> match found {
            Some(value) => db_contents(*db).contains_key(key@) && db_contents(*db)[key@]
                == value@,
            None => !db_contents(*db).contains_key(key@),
        },
{
    db.get(key).map(|found| found.map(|value| value.to_vec()))
}

/// Calls `sled::Tree::insert` and drops the value that was replaced.
///
/// Trusted: after an `Ok` result the store maps `key` to `value` and is
/// otherwise as before. Nothing is claimed of what the store holds after an
/// error. It is the store at the same path either way.
#[verifier::external_body]
pub(crate) fn db_insert(db: &mut sled::Db, key: &[u8], value: &[u8]) -> (r: Result<
    (),
    sled::Error,
>)
    ensures
        r is Ok ==> db_contents(*final(db)) == db_contents(*old(db)).insert(key@, value@),
        db_path(*final(db)) == db_path(*old(db)),
{
    db.insert(key, value).map(|_| ())
}

/// Calls `sled::Tree::remove` and copies out the value that was removed.
///
/// Trusted: an `Ok` result is the value that the store held under `key`, or
/// `None` where it held none, and the store is then without `key` and
/// otherwise as before. Nothing is claimed of what the store holds after an
/// error. It is the store at the same path either way.
#[verifier::external_body]
pub(crate) fn db_remove(db: &mut sled::Db, key: &[u8]) -> (r: Result<Option<Vec<u8>>, sled::Error>)
    ensures
        r matches Ok(removed) ==> {
            &&& db_contents(*final(db)) == db_contents(*old(db)).remove(key@)
            &&& match removed {
                Some(value) => db_contents(*old(db)).contains_key(key@) && db_contents(
                    *old(db),
                )[key@] == value@,
                None => !db_contents(*old(db)).contains_key(key@),
            }
        },
        db_path(*final(db)) == db_path(*old(db)),
{
    db.remove(key).map(|removed| removed.map(|value| value.to_vec()))
}

/// Whether `a` comes before `b` in the order of the store's keys: byte by
/// byte, and a key before every key that it starts.
pub open spec fn key_before(a: Seq<u8>, b: Seq<u8>) -> bool
    decreases a.len(),
{
    if b.len() == 0 {
        false
    } else if a.len() == 0 {
        true
    } else if a[0] != b[0] {
        a[0] < b[0]
    } else {
        key_before(a.skip(1), b.skip(1))
    }
}

/// `pairs` lists what a store holds: every pair is in the store, every key
/// of the store occurs, none occurs twice, and the keys are in order.
pub open spec fn lists_contents(
    pairs: Seq<(Vec<u8>, Vec<u8>)>,
    contents: Map<Seq<u8>, Seq<u8>>,
) -> bool {
    &&& forall|i: int|
        0 <= i < pairs.len() ==> contents.contains_key(#[trigger] pairs[i].0@)
            && contents[pairs[i].0@] == pairs[i].1@
    &&& forall|key: Seq<u8>|
        contents.contains_key(key) ==> exists|i: int|
            0 <= i < pairs.len() && #[trigger] pairs[i].0@ == key
    &&& forall|i: int, j: int|
        0 <= i < j < pairs.len() ==> #[trigger] pairs[i].0@ != #[trigger] pairs[j].0@
    &&& forall|i: int, j: int|
        0 <= i < j < pairs.len() ==> key_before(#[trigger] pairs[i].0@, #[trigger] pairs[j].0@)
}

/// No key comes both before and after another.
pub proof fn lemma_key_order_is_one_way(a: Seq<u8>, b: Seq<u8>)
    ensures
        !(key_before(a, b) && key_before(b, a)),
    decreases a.len(),
{
    if a.len() > 0 && b.len() > 0 && a[0] == b[0] {
        lemma_key_order_is_one_way(a.skip(1), b.skip(1));
    }
}

/// A store has one list: two lists of what it holds have the same keys and
/// values at the same places.
pub proof fn lemma_one_list(
    first: Seq<(Vec<u8>, Vec<u8>)>,
    second: Seq<(Vec<u8>, Vec<u8>)>,
    contents: Map<Seq<u8>, Seq<u8>>,
)
    requires
        lists_contents(first, contents),
        lists_contents(second, contents),
    ensures
        first.len() == second.len(),
        forall|i: int|
            0 <= i < first.len() ==> (#[trigger] first[i]).0@ == second[i].0@ && first[i].1@
                == second[i].1@,
    decreases first.len(),
{
    if first.len() == 0 {
        if second.len() > 0 {
            assert(contents.contains_key(second[0].0@));
        }
    } else {
        assert(contents.contains_key(first[0].0@));
        let k = choose|k: int| 0 <= k < second.len() && #[trigger] second[k].0@ == first[0].0@;
        assert(contents.contains_key(second[0].0@));
        let m = choose|m: int| 0 <= m < first.len() && #[trigger] first[m].0@ == second[0].0@;
        if k > 0 {
            assert(key_before(second[0].0@, second[k].0@));
            if m > 0 {
                assert(key_before(first[0].0@, first[m].0@));
                lemma_key_order_is_one_way(first[0].0@, second[0].0@);
            }
            assert(second[0].0@ != second[k].0@);
        }
        assert(first[0].0@ == second[0].0@);
        let key = first[0].0@;
        let rest = contents.remove(key);
        let first_rest = first.skip(1);
        let second_rest = second.skip(1);
        assert(lists_contents(first_rest, rest)) by {
            lemma_rest_of_list(first, contents);
        }
        assert(lists_contents(second_rest, rest)) by {
            lemma_rest_of_list(second, contents);
        }
        lemma_one_list(first_rest, second_rest, rest);
        assert forall|i: int| 0 <= i < first.len() implies (#[trigger] first[i]).0@
            == second[i].0@ && first[i].1@ == second[i].1@ by {
            if i > 0 {
                assert(first_rest[i - 1] == first[i]);
                assert(second_rest[i - 1] == second[i]);
            }
        }
    }
}

/// A list without its first pair lists the store without that key.
proof fn lemma_rest_of_list(pairs: Seq<(Vec<u8>, Vec<u8>)>, contents: Map<Seq<u8>, Seq<u8>>)
    requires
        pairs.len() > 0,
        lists_contents(pairs, contents),
    ensures
        lists_contents(pairs.skip(1), contents.remove(pairs[0].0@)),
{
    let rest = pairs.skip(1);
    let key = pairs[0].0@;
    let less = contents.remove(key);
    assert forall|i: int| 0 <= i < rest.len() implies less.contains_key(#[trigger] rest[i].0@)
        && less[rest[i].0@] == rest[i].1@ by {
        assert(rest[i] == pairs[i + 1]);
        assert(pairs[0].0@ != pairs[i + 1].0@);
        assert(contents.contains_key(pairs[i + 1].0@));
    }
    assert forall|k: Seq<u8>| less.contains_key(k) implies exists|i: int|
        0 <= i < rest.len() && #[trigger] rest[i].0@ == k by {
        assert(contents.contains_key(k));
        let j = choose|j: int| 0 <= j < pairs.len() && #[trigger] pairs[j].0@ == k;
        assert(j > 0);
        assert(rest[j - 1].0@ == k);
    }
    assert forall|i: int, j: int| 0 <= i < j < rest.len() implies #[trigger] rest[i].0@
        != #[trigger] rest[j].0@ && key_before(rest[i].0@, rest[j].0@) by {
        assert(rest[i] == pairs[i + 1]);
        assert(rest[j] == pairs[j + 1]);
        assert(pairs[i + 1].0@ != pairs[j + 1].0@);
        assert(key_before(pairs[i + 1].0@, pairs[j + 1].0@));
    }
}

/// Calls `sled::Tree::iter` and copies every pair out, up to the first
/// error.
///
/// Trusted: an `Ok` result lists what the store holds, in the order of its
/// keys.
#[verifier::external_body]
pub(crate) fn db_pairs(db: &sled::Db) -> (r: Result<Vec<(Vec<u8>, Vec<u8>)>, sled::Error>)
    ensures
        r matches Ok(pairs) ==> lists_contents(pairs@, db_contents(*db)),
{
    db.iter().map(|item| item.map(|(key, value)| (key.to_vec(), value.to_vec()))).collect()
}

/// The decimal digit for a number below ten.
pub open spec fn digit(d: nat) -> char
    recommends
        d < 10,
{
    if d == 0 {
        '0'
    } else if d == 1 {
        '1'
    } else if d == 2 {
        '2'
    } else if d == 3 {
        '3'
    } else if d == 4 {
        '4'
    } else if d == 5 {
        '5'
    } else if d == 6 {
        '6'
    } else if d == 7 {
        '7'
    } else if d == 8 {
        '8'
    } else {
        '9'
    }
}

/// A number in decimal, without leading zeros.
pub open spec fn decimal(n: nat) -> Seq<char>
    decreases n,
{
    if n < 10 {
        seq![digit(n)]
    } else {
        decimal(n / 10).push(digit(n % 10))
    }
}

fn digit_str(d: u64) -> (s: &'static str)
    requires
        d < 10,
    ensures
        s@ == seq![digit(d as nat)],
{
    proof {
        reveal_strlit("0");
        reveal_strlit("1");
        reveal_strlit("2");
        reveal_strlit("3");
        reveal_strlit("4");
        reveal_strlit("5");
        reveal_strlit("6");
        reveal_strlit("7");
        reveal_strlit("8");
        reveal_strlit("9");
    }
    let s = if d == 0 {
        "0"
    } else if d == 1 {
        "1"
    } else if d == 2 {
        "2"
    } else if d == 3 {
        "3"
    } else if d == 4 {
        "4"
    } else if d == 5 {
        "5"
    } else if d == 6 {
        "6"
    } else if d == 7 {
        "7"
    } else if d == 8 {
        "8"
    } else {
        "9"
    };
    assert(s@ =~= seq![digit(d as nat)]);
    s
}

/// Writes a number in decimal.
pub fn decimal_string(n: u64) -> (s: String)
    ensures
        s@ == decimal(n as nat),
    decreases n,
{
    if n < 10 {
        String::from_str(digit_str(n))
    } else {
        let mut s = decimal_string(n / 10);
        s.append(digit_str(n % 10));
        assert(s@ =~= decimal(n as nat));
        s
    }
}

/// Where the store of the vault with this id lives below `estash_dir`.
pub open spec fn vault_path(estash_dir: Seq<char>, is_windows: bool, id: u64) -> Seq<char> {
    if is_windows {
        estash_dir + constants::VAULTS_ROOT_PATH_WINDOWS@ + decimal(id as nat)
    } else {
        estash_dir + constants::VAULTS_ROOT_PATH_UNIX@ + decimal(id as nat)
    }
}

/// The path of the store of the vault with this id.
pub fn vault_store_path(estash_dir: &str, is_windows: bool, id: u64) -> (path: String)
    ensures
        path@ == vault_path(estash_dir@, is_windows, id),
{
    let mut path = String::from_str(estash_dir);
    if is_windows {
        path.append(constants::VAULTS_ROOT_PATH_WINDOWS);
    } else {
        path.append(constants::VAULTS_ROOT_PATH_UNIX);
    }
    let number = decimal_string(id);
    path.append(number.as_str());
    path
}

/// `dir` followed by `tail`.
fn joined(dir: &str, tail: &str) -> (path: String)
    ensures
        path@ == dir@ + tail@,
{
    let mut path = String::from_str(dir);
    path.append(tail);
    path
}

/// The registry: for each vault, under the hash of its name, its record,
/// its public key and its wrapped private key.
pub struct EstashDb {
    pub vault_db: sled::Db,
    pub vault_pub_key_db: sled::Db,
    pub vault_priv_key_db: sled::Db,
}

/// What the three stores of the registry hold.
pub ghost struct RegistryView {
    pub records: Map<Seq<u8>, Seq<u8>>,
    pub priv_keys: Map<Seq<u8>, Seq<u8>>,
    pub pub_keys: Map<Seq<u8>, Seq<u8>>,
}

impl View for EstashDb {
    type V = RegistryView;

    open spec fn view(&self) -> RegistryView {
        RegistryView {
            records: db_contents(self.vault_db),
            priv_keys: db_contents(self.vault_priv_key_db),
            pub_keys: db_contents(self.vault_pub_key_db),
        }
    }
}

/// Where the store of records lives below `estash_dir`.
pub open spec fn records_path(estash_dir: Seq<char>, is_windows: bool) -> Seq<char> {
    if is_windows {
        estash_dir + constants::VAULT_DB_PATH_WINDOWS@
    } else {
        estash_dir + constants::VAULT_DB_PATH_UNIX@
    }
}

/// Where the store of public keys lives below `estash_dir`.
pub open spec fn pub_keys_path(estash_dir: Seq<char>, is_windows: bool) -> Seq<char> {
    if is_windows {
        estash_dir + constants::VAULT_PUB_KEY_DB_PATH_WINDOWS@
    } else {
        estash_dir + constants::VAULT_PUB_KEY_DB_PATH_UNIX@
    }
}

/// Where the store of wrapped private keys lives below `estash_dir`.
pub open spec fn priv_keys_path(estash_dir: Seq<char>, is_windows: bool) -> Seq<char> {
    if is_windows {
        estash_dir + constants::VAULT_PRIV_KEY_DB_PATH_WINDOWS@
    } else {
        estash_dir + constants::VAULT_PRIV_KEY_DB_PATH_UNIX@
    }
}

impl EstashDb {
    /// Opens the three stores of the registry below `estash_dir`, which ends
    /// in a path separator, and creates those that are not there yet. The
    /// registry that comes back is made of the stores at the three paths;
    /// whether they open is up to the file system.
    pub fn new(estash_dir: &str, is_windows: bool) -> (r: Result<EstashDb, sled::Error>)
        ensures
            r matches Ok(registry) ==> {
                &&& db_path(registry.vault_db) == records_path(estash_dir@, is_windows)
                &&& db_path(registry.vault_pub_key_db) == pub_keys_path(estash_dir@, is_windows)
                &&& db_path(registry.vault_priv_key_db) == priv_keys_path(
                    estash_dir@,
                    is_windows,
                )
            },
    {
        let vault_db = match db_open(
            joined(
                estash_dir,
                if is_windows {
                    constants::VAULT_DB_PATH_WINDOWS
                } else {
                    constants::VAULT_DB_PATH_UNIX
                },
            ).as_str(),
        ) {
            Ok(db) => db,
            Err(error) => return Err(error),
        };
        let vault_pub_key_db = match db_open(
            joined(
                estash_dir,
                if is_windows {
                    constants::VAULT_PUB_KEY_DB_PATH_WINDOWS
                } else {
                    constants::VAULT_PUB_KEY_DB_PATH_UNIX
                },
            ).as_str(),
        ) {
            Ok(db) => db,
            Err(error) => return Err(error),
        };
        let vault_priv_key_db = match db_open(
            joined(
                estash_dir,
                if is_windows {
                    constants::VAULT_PRIV_KEY_DB_PATH_WINDOWS
                } else {
                    constants::VAULT_PRIV_KEY_DB_PATH_UNIX
                },
            ).as_str(),
        ) {
            Ok(db) => db,
            Err(error) => return Err(error),
        };
        Ok(EstashDb { vault_db, vault_pub_key_db, vault_priv_key_db })
    }
}

} // verus!
