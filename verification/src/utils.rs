//! Types and helpers shared by the vault's parts.

pub mod constants;
pub mod db;
pub mod json;
pub mod path;
pub mod record;
pub mod text;

use crate::encrypter::wipe::wipe_array;
use self::path::{check_unix_path, check_windows_path, unix_path_valid, windows_path_valid};
use vstd::prelude::*;
use vstd::string::StringSliceAdditionalSpecFns;
use vstd::utf8::encode_utf8;

verus! {

/// The secrets of a vault that is logged in: they live in memory for as long
/// as the session does, and are never stored in the clear.
#[derive(Debug, Clone)]
pub struct Vault {
    pub vault_name: String,
    pub id: u64,
    pub priv_key: [u8; 32],
    pub pub_key: [u8; 32],
}

impl Vault {
    /// Wipes the private key. The vault is of no use afterwards.
    pub fn wipe(&mut self)
        ensures
            forall|i: int| 0 <= i < 32 ==> #[trigger] final(self).priv_key@[i] == 0u8,
            final(self).vault_name == old(self).vault_name,
            final(self).id == old(self).id,
            final(self).pub_key == old(self).pub_key,
        opens_invariants none
        no_unwind
    {
        wipe_array(&mut self.priv_key);
    }
}

impl Drop for Vault {
    /// Wipes the private key.
    fn drop(&mut self)
        ensures
            forall|i: int| 0 <= i < 32 ==> #[trigger] final(self).priv_key@[i] == 0u8,
        opens_invariants none
        no_unwind
    {
        self.wipe();
    }
}

/// Whether `path` can be the install path of an entry on a system of the
/// family given: Windows, or else Unix. The rules are those of
/// `windows_path_valid` and `unix_path_valid`, on the UTF-8 bytes of the
/// path.
pub fn is_path_os_valid(path: &str, is_windows: bool) -> (valid: bool)
    ensures
        valid == if is_windows {
            windows_path_valid(encode_utf8(path@))
        } else {
            unix_path_valid(encode_utf8(path@))
        },
{
    if is_windows {
        check_windows_path(path.as_bytes())
    } else {
        check_unix_path(path.as_bytes())
    }
}

} // verus!
