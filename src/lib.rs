//! Proof of control of a Bitcoin key: checks a secp256k1 ECDSA signature over
//! a Bitcoin signed message and binds the signing key to a claimed P2PKH
//! address.

pub mod address;
pub mod digest;
pub mod error;
pub mod instruction;
pub mod signature;
pub mod verify;
