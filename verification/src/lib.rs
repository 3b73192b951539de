//! Read-only retrieval of a secret from an encrypted password store.
//!
//! A store is a binary envelope (version, salt, nonce, tag, ciphertext). Its key
//! is derived with scrypt from a companion secret and the envelope's salt, the
//! ciphertext is opened with AES-256-GCM, and the plaintext is a list of
//! `identifier:secret` records separated by whitespace.

pub mod error;
pub mod envelope;
pub mod kdf;
pub mod cipher;
pub mod plaintext;
pub mod records;
pub mod store_map;
pub mod rendering;
pub mod store;
pub mod config;
pub mod credentials;

pub use crate::credentials::Credentials;
pub use crate::error::StoreError;
pub use crate::store::password_from_store;
