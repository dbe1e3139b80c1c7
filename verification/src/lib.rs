//! A minimal transactional storage core: an append-only log of opaque records
//! with a dense offset index, an incremental Merkle accumulator over the
//! records' content hashes, and a single-slot transaction coordinator that
//! ties the two together.

use vstd::prelude::*;

pub mod append_log;
pub mod block;
pub mod db;
pub mod encoding;
pub mod hashing;
pub mod merkle_tree;
pub mod tx;

pub use crate::append_log::AppendLog;
pub use crate::block::Block;
pub use crate::db::DB;
pub use crate::merkle_tree::MerkleTree;
pub use crate::tx::Tx;

verus! {

/// A 32-byte cryptographic digest.
pub type HashType = [u8; 32];

} // verus!
