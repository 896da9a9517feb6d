//! A local, single-user secret vault.
//!
//! A vault is a named collection of encrypted entries protected by a
//! password. The password wraps a per-vault key pair, the key pair encrypts
//! every entry, and the ciphertexts live in an embedded ordered key-value
//! store whose keys are themselves encrypted entry names.
//!
//! - [`hasher`]: the hash of vault names and the password hash.
//! - [`encrypter`]: the key pair scheme for entries and the password wrap of
//!   the private key.
//! - [`utils`]: the stores, the records of the registry, and the rules for
//!   install paths.
//! - [`signup`] and [`login`]: creation of a vault and recovery of its
//!   secrets.
//! - [`vault`]: the entries of an open vault and the index of their names.
//!
//! The ciphers, the hash functions, the stores and the JSON texts are those
//! of the crates that the library is built on. What the proofs take from
//! them is written down where each is called, and marked as trusted there.

pub mod encrypter;
pub mod hasher;
pub mod login;
pub mod signup;
pub mod utils;
pub mod vault;
