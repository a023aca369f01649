use airdropper::claim::{claim, AirdropError};
use airdropper::distributor::{initialize, Distributor};
use airdropper::merkle::{fold_proof, hash_pair, leaf_hash};

fn identity(tag: u8) -> [u8; 32] {
    [tag; 32]
}

const AMOUNTS: [u64; 4] = [100, 200, 300, 400];

struct Tree {
    root: [u8; 32],
    leaves: [[u8; 32]; 4],
    n01: [u8; 32],
    n23: [u8; 32],
}

/// Four leaves for indices 0..=3, recipients `identity(10 + i)`, amounts
/// from `AMOUNTS`; the root is the pairwise hash-up.
fn build_tree() -> Tree {
    let l0 = leaf_hash(0, &identity(10), AMOUNTS[0]);
    let l1 = leaf_hash(1, &identity(11), AMOUNTS[1]);
    let l2 = leaf_hash(2, &identity(12), AMOUNTS[2]);
    let l3 = leaf_hash(3, &identity(13), AMOUNTS[3]);
    let n01 = hash_pair(&l0, &l1);
    let n23 = hash_pair(&l2, &l3);
    let root = hash_pair(&n01, &n23);
    Tree { root, leaves: [l0, l1, l2, l3], n01, n23 }
}

fn sibling_path(tree: &Tree, index: usize) -> Vec<[u8; 32]> {
    match index {
        0 => vec![tree.leaves[1], tree.n23],
        1 => vec![tree.leaves[0], tree.n23],
        2 => vec![tree.leaves[3], tree.n01],
        3 => vec![tree.leaves[2], tree.n01],
        _ => panic!("no such leaf"),
    }
}

fn new_distributor(root: [u8; 32]) -> Distributor {
    initialize(root, 1_000, identity(20), identity(21), identity(22), 254)
}

#[test]
fn claim_with_correct_proof_succeeds() {
    let tree = build_tree();
    let mut d = new_distributor(tree.root);
    let path = sibling_path(&tree, 2);
    assert_eq!(claim(&mut d, 2, AMOUNTS[2], &identity(12), &path), Ok(()));
    assert!(d.is_claimed(2));
    assert!(!d.is_claimed(0));
    assert!(!d.is_claimed(1));
    assert!(!d.is_claimed(3));
    assert_eq!(d.claimed_bitmap, [0b0000_0100, 0]);
}

#[test]
fn repeat_claim_is_already_claimed() {
    let tree = build_tree();
    let mut d = new_distributor(tree.root);
    let path = sibling_path(&tree, 2);
    assert_eq!(claim(&mut d, 2, AMOUNTS[2], &identity(12), &path), Ok(()));
    assert_eq!(
        claim(&mut d, 2, AMOUNTS[2], &identity(12), &path),
        Err(AirdropError::AlreadyClaimed)
    );
    assert_eq!(d.claimed_bitmap, [0b0000_0100, 0]);
}

#[test]
fn claim_with_another_leafs_proof_is_rejected() {
    let tree = build_tree();
    let mut d = new_distributor(tree.root);
    let path = sibling_path(&tree, 2);
    assert_eq!(
        claim(&mut d, 1, AMOUNTS[1], &identity(11), &path),
        Err(AirdropError::InvalidMerkleRoot)
    );
    assert!(!d.is_claimed(1));
    assert_eq!(d.claimed_bitmap, [0, 0]);
}

#[test]
fn claim_with_altered_amount_is_rejected() {
    let tree = build_tree();
    let mut d = new_distributor(tree.root);
    let path = sibling_path(&tree, 3);
    assert_eq!(
        claim(&mut d, 3, AMOUNTS[3] + 1, &identity(13), &path),
        Err(AirdropError::InvalidMerkleRoot)
    );
    assert!(!d.is_claimed(3));
}

#[test]
fn claim_with_altered_recipient_is_rejected() {
    let tree = build_tree();
    let mut d = new_distributor(tree.root);
    let path = sibling_path(&tree, 3);
    let mut wrong = identity(13);
    wrong[0] ^= 1;
    assert_eq!(
        claim(&mut d, 3, AMOUNTS[3], &wrong, &path),
        Err(AirdropError::InvalidMerkleRoot)
    );
}

#[test]
fn claim_with_altered_index_is_rejected() {
    let tree = build_tree();
    let mut d = new_distributor(tree.root);
    let path = sibling_path(&tree, 3);
    assert_eq!(
        claim(&mut d, 2, AMOUNTS[3], &identity(13), &path),
        Err(AirdropError::InvalidMerkleRoot)
    );
}

#[test]
fn claim_with_flipped_proof_bit_is_rejected() {
    let tree = build_tree();
    let mut d = new_distributor(tree.root);
    let mut path = sibling_path(&tree, 0);
    path[1][7] ^= 0x10;
    assert_eq!(
        claim(&mut d, 0, AMOUNTS[0], &identity(10), &path),
        Err(AirdropError::InvalidMerkleRoot)
    );
}

#[test]
fn two_serialized_claims_on_one_index_pay_once() {
    let tree = build_tree();
    let mut d = new_distributor(tree.root);
    let path = sibling_path(&tree, 0);
    let first = claim(&mut d, 0, AMOUNTS[0], &identity(10), &path);
    let second = claim(&mut d, 0, AMOUNTS[0], &identity(10), &path);
    assert_eq!(first, Ok(()));
    assert_eq!(second, Err(AirdropError::AlreadyClaimed));
    assert!(d.is_claimed(0));
}

#[test]
fn retry_behaves_as_if_rolled_back() {
    let tree = build_tree();
    let path = sibling_path(&tree, 0);
    let mut d = new_distributor(tree.root);
    assert_eq!(claim(&mut d, 0, AMOUNTS[0], &identity(10), &path), Ok(()));
    // The transfer step fails: the environment discards every mutation of
    // the call, so the retry starts from the untouched record.
    let mut d = new_distributor(tree.root);
    assert_eq!(claim(&mut d, 0, AMOUNTS[0], &identity(10), &path), Ok(()));
    assert!(d.is_claimed(0));
}

#[test]
fn pair_hash_ignores_sibling_order() {
    let tree = build_tree();
    assert_eq!(
        hash_pair(&tree.leaves[0], &tree.leaves[1]),
        hash_pair(&tree.leaves[1], &tree.leaves[0])
    );
    assert_eq!(tree.root, hash_pair(&tree.n23, &tree.n01));
}

#[test]
fn pair_hash_is_not_either_child() {
    let tree = build_tree();
    assert_ne!(tree.n01, tree.leaves[0]);
    assert_ne!(tree.n01, tree.leaves[1]);
}

#[test]
fn leaf_hash_binds_every_field() {
    let l = leaf_hash(0, &identity(10), AMOUNTS[0]);
    assert_ne!(l, leaf_hash(1, &identity(10), AMOUNTS[0]));
    assert_ne!(l, leaf_hash(0, &identity(11), AMOUNTS[0]));
    assert_ne!(l, leaf_hash(0, &identity(10), AMOUNTS[0] + 1));
}

#[test]
fn empty_path_folds_to_the_leaf() {
    let leaf = leaf_hash(5, &identity(30), 7);
    assert_eq!(fold_proof(&leaf, &vec![]), leaf);
}

#[test]
fn single_leaf_tree_claims_against_its_leaf_root() {
    let leaf = leaf_hash(0, &identity(40), 55);
    let mut d = new_distributor(leaf);
    assert_eq!(claim(&mut d, 0, 55, &identity(40), &vec![]), Ok(()));
}

#[test]
fn initialize_starts_fully_unclaimed() {
    let d = new_distributor([9u8; 32]);
    assert_eq!(d.merkle_root, [9u8; 32]);
    assert_eq!(d.total_supply, 1_000);
    assert_eq!(d.vault, identity(20));
    assert_eq!(d.token_mint, identity(21));
    assert_eq!(d.authority, identity(22));
    assert_eq!(d.bump, 254);
    assert_eq!(d.claimed_bitmap, [0, 0]);
    for i in 0..16u32 {
        assert!(!d.is_claimed(i));
    }
}

#[test]
fn claim_crossing_the_byte_boundary_sets_the_right_bit() {
    let leaf = leaf_hash(8, &identity(50), 9);
    let mut d = new_distributor(leaf);
    assert_eq!(claim(&mut d, 8, 9, &identity(50), &vec![]), Ok(()));
    assert!(d.is_claimed(8));
    assert!(!d.is_claimed(0));
    assert!(!d.is_claimed(9));
    assert_eq!(d.claimed_bitmap, [0, 0b0000_0001]);
}

#[test]
fn claim_of_the_last_bitmap_bit() {
    let leaf = leaf_hash(15, &identity(51), 9);
    let mut d = new_distributor(leaf);
    assert_eq!(claim(&mut d, 15, 9, &identity(51), &vec![]), Ok(()));
    assert!(d.is_claimed(15));
    assert_eq!(d.claimed_bitmap, [0, 0b1000_0000]);
}
