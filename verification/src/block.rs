use vstd::prelude::*;
use crate::HashType;
use crate::merkle_tree::{
    accum_of, leaf_hashes, lemma_accum_of_push, spec_root, MerkleTree,
};
use crate::tx::Tx;

verus! {

/// The fixed capacity of one block.
pub const BLOCK_SIZE: usize = 2048;

/// Failures of a block.
#[derive(Debug)]
pub enum BlockError {
    /// The block already holds `BLOCK_SIZE` records.
    BlockSizeExceeded,
}

/// A fixed-capacity group of records with its own accumulator: a consumer of
/// the accumulator's append/root contract that buckets records and certifies
/// each bucket with a root digest.
pub struct Block {
    index: u64,
    prev_hash: HashType,
    merkle_tree: MerkleTree,
    txs: Vec<Tx>,
}

impl Block {
    /// The wire forms of the records gathered so far, in order.
    pub closed spec fn tx_bytes(self) -> Seq<Seq<u8>> {
        Seq::new(self.txs@.len(), |i: int| self.txs@[i].spec_bytes())
    }

    /// How many records the block holds.
    pub open spec fn tx_count(self) -> nat {
        self.tx_bytes().len()
    }

    /// The block's position in its chain.
    pub closed spec fn spec_block_index(self) -> u64 {
        self.index
    }

    /// The previous block's digest.
    pub closed spec fn spec_prev_hash(self) -> Seq<u8> {
        self.prev_hash@
    }

    /// The accumulator absorbed exactly the gathered records' content hashes,
    /// and the block is within capacity.
    pub closed spec fn wf(self) -> bool {
        &&& self.merkle_tree.wf()
        &&& self.merkle_tree.leaf_count() == self.txs@.len()
        &&& self.merkle_tree.frontier() == accum_of(leaf_hashes(self.tx_bytes()))
        &&& self.txs@.len() <= BLOCK_SIZE
    }

    /// An empty block at the given chain position.
    pub fn new(index: u64, prev_hash: HashType) -> (r: Block)
        ensures
            r.wf(),
            r.tx_count() == 0,
            r.spec_block_index() == index,
            r.spec_prev_hash() == prev_hash@,
    {
        let r = Block {
            index,
            prev_hash,
            merkle_tree: MerkleTree::new(),
            txs: Vec::new(),
        };
        proof {
            assert(leaf_hashes(r.tx_bytes()) =~= Seq::<Seq<u8>>::empty());
        }
        r
    }

    /// Reserved: chaining a block's own digest is left to the block's consumer.
    pub fn get_hash() {
    }

    /// The root digest over the records gathered so far.
    pub fn get_root(&self) -> (r: HashType)
        requires
            self.wf(),
        ensures
            r@ == spec_root(accum_of(leaf_hashes(self.tx_bytes()))),
    {
        self.merkle_tree.root()
    }

    /// Gathers one record, folding its content hash into the block's
    /// accumulator; fails once the block is full.
    pub fn append(&mut self, tx: Tx) -> (r: Result<(), BlockError>)
        requires
            old(self).wf(),
        ensures
            final(self).wf(),
            old(self).tx_count() >= BLOCK_SIZE ==> r is Err && r->Err_0
                == BlockError::BlockSizeExceeded && *final(self) == *old(self),
            old(self).tx_count() < BLOCK_SIZE ==> r is Ok && final(self).tx_bytes() == old(
                self,
            ).tx_bytes().push(tx.spec_bytes()),
    {
        if self.is_full() {
            return Err(BlockError::BlockSizeExceeded);
        }
        let hash = tx.get_hash();
        proof {
            lemma_accum_of_push(old(self).tx_bytes(), tx.spec_bytes());
        }
        self.merkle_tree.append(hash);
        self.txs.push(tx);
        proof {
            assert(self.tx_bytes() =~= old(self).tx_bytes().push(tx.spec_bytes()));
        }
        Ok(())
    }

    /// Whether the block has reached its fixed capacity.
    pub fn is_full(&self) -> (r: bool)
        ensures
            r == (self.tx_count() >= BLOCK_SIZE),
    {
        self.txs.len() >= BLOCK_SIZE
    }
}

} // verus!
