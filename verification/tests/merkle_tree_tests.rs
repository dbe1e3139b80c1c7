use ledgerdb::merkle_tree::hash_pair;
use ledgerdb::MerkleTree;

#[test]
fn test_merkle_tree() {
    let leaf1 = [0 as u8; 32];
    let leaf2 = [2 as u8; 32];
    let leaf3 = [3 as u8; 32];
    let leaf4 = [4 as u8; 32];

    let mut tree = MerkleTree::new();

    tree.append(leaf1);
    tree.append(leaf2);
    tree.append(leaf3);
    tree.append(leaf4);

    let expected_root = hash_pair(&hash_pair(&leaf1, &leaf2), &hash_pair(&leaf3, &leaf4));

    assert_eq!(tree.root(), expected_root);
}

#[test]
fn empty_root_is_all_zeroes() {
    let tree = MerkleTree::new();
    assert_eq!(tree.root(), [0u8; 32]);
}

#[test]
fn one_leaf_root_is_the_leaf() {
    let leaf = [7u8; 32];
    let mut tree = MerkleTree::new();
    tree.append(leaf);
    assert_eq!(tree.root(), leaf);
}

#[test]
fn two_leaf_root_is_their_pair_hash() {
    let l0 = [1u8; 32];
    let l1 = [2u8; 32];
    let mut tree = MerkleTree::new();
    tree.append(l0);
    tree.append(l1);
    assert_eq!(tree.root(), hash_pair(&l0, &l1));
}

#[test]
fn three_leaf_root_folds_the_frontier() {
    let l0 = [1u8; 32];
    let l1 = [2u8; 32];
    let l2 = [3u8; 32];
    let mut tree = MerkleTree::new();
    tree.append(l0);
    tree.append(l1);
    tree.append(l2);
    // Frontier: [pairhash(l0, l1), l2]; the fold combines the older entry on
    // the left.
    assert_eq!(tree.root(), hash_pair(&hash_pair(&l0, &l1), &l2));
}

#[test]
fn five_leaf_root_folds_the_frontier() {
    let l0 = [1u8; 32];
    let l1 = [2u8; 32];
    let l2 = [3u8; 32];
    let l3 = [4u8; 32];
    let l4 = [5u8; 32];
    let mut tree = MerkleTree::new();
    tree.append(l0);
    tree.append(l1);
    tree.append(l2);
    tree.append(l3);
    tree.append(l4);
    // Frontier: [perfect four-leaf root, l4].
    let four = hash_pair(&hash_pair(&l0, &l1), &hash_pair(&l2, &l3));
    assert_eq!(tree.root(), hash_pair(&four, &l4));
}

#[test]
fn pair_hash_depends_on_order() {
    let a = [1u8; 32];
    let b = [9u8; 32];
    assert_ne!(hash_pair(&a, &b), hash_pair(&b, &a));
    assert_ne!(hash_pair(&a, &b), a);
    assert_ne!(hash_pair(&a, &b), b);
}
