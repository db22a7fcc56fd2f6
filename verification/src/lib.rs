//! A small hybrid proof-of-work / proof-of-authority ledger.
//!
//! Users hold balances and Ed25519 keys whose private half is sealed
//! with a key derived from their password.  Blocks of signed
//! transactions are mined either by proof of work or by a randomly
//! chosen authority, validated, and appended to a hash-linked chain.

pub mod block;
pub mod blockchain;
pub mod consensus;
pub mod crypto;
pub mod encoding;
pub mod text;
pub mod user;
pub mod utils;
