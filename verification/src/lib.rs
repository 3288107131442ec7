//! Core data types and rules of a small account-based blockchain: signature
//! algorithms and keys, addresses, the signature manager, account state with its
//! fixed-length encoding, state database keys, and signed transactions.

pub mod crypto;
pub mod state;
pub mod text;
pub mod tx;
pub mod uint;
