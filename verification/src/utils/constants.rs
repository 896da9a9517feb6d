//! Where the stores live below the directory of the vaults.

use vstd::prelude::*;

verus! {

/// The store of records, on Unix.
pub const VAULT_DB_PATH_UNIX: &'static str = "data/vault_db";

/// The store of public keys, on Unix.
pub const VAULT_PUB_KEY_DB_PATH_UNIX: &'static str = "data/vault_key_db";

/// The store of wrapped private keys, on Unix.
pub const VAULT_PRIV_KEY_DB_PATH_UNIX: &'static str = "data/vault_priv_key_db";

/// The directory of the vaults' own stores, on Unix.
pub const VAULTS_ROOT_PATH_UNIX: &'static str = "data/vaults/";

/// The store of records, on Windows.
pub const VAULT_DB_PATH_WINDOWS: &'static str = "data\\vault_db";

/// The store of public keys, on Windows.
pub const VAULT_PUB_KEY_DB_PATH_WINDOWS: &'static str = "data\\vault_key_db";

/// The store of wrapped private keys, on Windows.
pub const VAULT_PRIV_KEY_DB_PATH_WINDOWS: &'static str = "data\\vault_priv_key_db";

/// The directory of the vaults' own stores, on Windows.
pub const VAULTS_ROOT_PATH_WINDOWS: &'static str = "data\\vaults\\";

} // verus!
