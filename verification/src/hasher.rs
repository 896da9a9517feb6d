//! Hash functions used by the vault.

pub mod argon2id;
pub mod blake3;
