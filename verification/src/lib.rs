//! A local encrypted secret store.
//!
//! One master password derives a 32-byte key. The key protects the password
//! and the notes of every entry, and seals whole-vault backups. The key
//! lives only in the in-memory session of a [`vault::DataBase`]; what is
//! stored holds ciphertext alone.
//!
//! - [`crypto`]: key derivation and authenticated encryption.
//! - [`session`]: the holder of the key.
//! - [`records`]: entries, stored rows, and how the one opens to the other.
//! - [`table`]: the stored rows by id.
//! - [`text`] and [`listing`]: searching and ordering a listing.
//! - [`password`]: random passwords.
//! - [`clock`]: time stamps.
//! - [`model`]: the value of a vault and what each operation does to it.
//! - [`vault`]: the engine that ties them together.
//! - [`laws`]: what holds across operations.
pub mod clock;
pub mod crypto;
pub mod error;
pub mod laws;
pub mod listing;
pub mod model;
pub mod password;
pub mod records;
pub mod session;
pub mod table;
pub mod text;
pub mod vault;

pub use crate::clock::epoch;
pub use crate::error::VaultError;
pub use crate::records::{Entry, EntryListItem};
pub use crate::vault::DataBase;
