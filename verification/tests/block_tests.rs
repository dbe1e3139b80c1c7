use ledgerdb::block::{BlockError, BLOCK_SIZE};
use ledgerdb::merkle_tree::hash_pair;
use ledgerdb::{Block, MerkleTree, Tx};

#[test]
fn block_root_matches_an_accumulator_over_its_records() {
    let mut block = Block::new(0, [0u8; 32]);
    let mut tree = MerkleTree::new();
    for k in 0..4u64 {
        let tx = Tx::new(k, vec![k as u8]);
        tree.append(tx.get_hash());
        block.append(tx).unwrap();
    }
    assert_eq!(block.get_root(), tree.root());

    let hashes: Vec<[u8; 32]> = (0..4u64)
        .map(|k| Tx::new(k, vec![k as u8]).get_hash())
        .collect();
    let expected = hash_pair(
        &hash_pair(&hashes[0], &hashes[1]),
        &hash_pair(&hashes[2], &hashes[3]),
    );
    assert_eq!(block.get_root(), expected);
}

#[test]
fn empty_block_root_is_all_zeroes() {
    let block = Block::new(3, [9u8; 32]);
    assert_eq!(block.get_root(), [0u8; 32]);
}

#[test]
fn block_fills_up_and_rejects_overflow() {
    let mut block = Block::new(1, [1u8; 32]);
    assert!(!block.is_full());
    for k in 0..BLOCK_SIZE as u64 {
        block.append(Tx::new(k, Vec::new())).unwrap();
    }
    assert!(block.is_full());
    let r = block.append(Tx::new(0, Vec::new()));
    assert!(matches!(r, Err(BlockError::BlockSizeExceeded)));
}
