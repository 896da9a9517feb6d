//! Encryption: the key pair scheme for entries and the password wrap for
//! the private key.

pub mod ecies;
pub mod key_encrypt;
pub mod random;
pub mod wipe;
