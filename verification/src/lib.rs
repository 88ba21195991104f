//! A verified model of the GPGME API surface used by pacman, backed by Sequoia-PGP.

pub mod api;
pub mod context;
pub mod crypto;
pub mod data;
pub mod error;
pub mod ffi_types;
pub mod global;
pub mod keygen;
pub mod keyring;
pub mod text;
