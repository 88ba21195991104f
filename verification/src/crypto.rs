//! The decisions around signing, encryption, decryption and verification:
//! which certificates take part, and what each signature result records.

pub mod decrypt;
pub mod encrypt;
pub mod pgp;
pub mod sign;
pub mod verify;
