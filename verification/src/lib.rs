//! Witness generation for a zero-knowledge EVM prover: an ordered log of
//! read/write operations, copy events for bulk byte movements, and the flat
//! state store with the commit rules that keep a state trie in step with it.

pub mod word;
pub mod operation;
pub mod copy;
pub mod state;
pub mod returndatacopy;
pub mod assoc;
pub mod state_db;
pub mod database;
