use anchor_lang::solana_program::keccak;
use waggle_mvb::merkle_proof::{bytes_le, verify};

fn pair_hash(a: [u8; 32], b: [u8; 32]) -> [u8; 32] {
    if a <= b {
        keccak::hashv(&[&a, &b]).to_bytes()
    } else {
        keccak::hashv(&[&b, &a]).to_bytes()
    }
}

#[test]
fn bytes_le_is_lexicographic() {
    let mut a = [0u8; 32];
    let mut b = [0u8; 32];
    assert!(bytes_le(&a, &b));
    b[31] = 1;
    assert!(bytes_le(&a, &b));
    assert!(!bytes_le(&b, &a));
    a[0] = 1;
    assert!(!bytes_le(&a, &b));
    assert!(bytes_le(&b, &a));
}

#[test]
fn empty_proof_accepts_only_the_root_itself() {
    let leaf = [5u8; 32];
    assert!(verify(vec![], leaf, leaf));
    assert!(!verify(vec![], [6u8; 32], leaf));
}

#[test]
fn proof_of_one_sibling_hashes_the_pair_in_order() {
    let x = [1u8; 32];
    let y = [2u8; 32];
    let root = keccak::hashv(&[&x, &y]).to_bytes();
    assert_ne!(root, x);
    assert!(verify(vec![y], root, x));
    assert!(verify(vec![x], root, y));
    assert!(!verify(vec![x], root, x));
}

#[test]
fn four_leaf_tree_verifies_every_leaf() {
    let leaves = [[10u8; 32], [3u8; 32], [200u8; 32], [77u8; 32]];
    let left = pair_hash(leaves[0], leaves[1]);
    let right = pair_hash(leaves[2], leaves[3]);
    let root = pair_hash(left, right);
    assert!(verify(vec![leaves[1], right], root, leaves[0]));
    assert!(verify(vec![leaves[0], right], root, leaves[1]));
    assert!(verify(vec![leaves[3], left], root, leaves[2]));
    assert!(verify(vec![leaves[2], left], root, leaves[3]));
    assert!(!verify(vec![leaves[2], right], root, leaves[0]));
    assert!(!verify(vec![right, leaves[1]], root, leaves[0]));
}
