use cutils::leaf::{build_leaf, LeafSchemaVersion};
use cutils::types::Pubkey;

fn key(fill: u8) -> Pubkey {
    Pubkey { bytes: [fill; 32] }
}

fn base_leaf() -> [u8; 32] {
    build_leaf(&key(1), &key(2), &key(3), 7, &[5u8; 32], &[6u8; 32], LeafSchemaVersion::V1)
}

#[test]
fn build_leaf_matches_reference_hasher() {
    let leaf = mpl_bubblegum::types::LeafSchema::V1 {
        id: solana_program::pubkey::Pubkey::new_from_array([1u8; 32]),
        owner: solana_program::pubkey::Pubkey::new_from_array([2u8; 32]),
        delegate: solana_program::pubkey::Pubkey::new_from_array([3u8; 32]),
        nonce: 7,
        data_hash: [5u8; 32],
        creator_hash: [6u8; 32],
    };
    assert_eq!(base_leaf(), leaf.hash());
}

#[test]
fn build_leaf_is_deterministic() {
    assert_eq!(base_leaf(), base_leaf());
}

#[test]
fn build_leaf_differs_on_each_input() {
    let base = base_leaf();
    let changed = [
        build_leaf(&key(9), &key(2), &key(3), 7, &[5u8; 32], &[6u8; 32], LeafSchemaVersion::V1),
        build_leaf(&key(1), &key(9), &key(3), 7, &[5u8; 32], &[6u8; 32], LeafSchemaVersion::V1),
        build_leaf(&key(1), &key(2), &key(9), 7, &[5u8; 32], &[6u8; 32], LeafSchemaVersion::V1),
        build_leaf(&key(1), &key(2), &key(3), 8, &[5u8; 32], &[6u8; 32], LeafSchemaVersion::V1),
        build_leaf(&key(1), &key(2), &key(3), 7, &[9u8; 32], &[6u8; 32], LeafSchemaVersion::V1),
        build_leaf(&key(1), &key(2), &key(3), 7, &[5u8; 32], &[9u8; 32], LeafSchemaVersion::V1),
    ];
    for other in changed.iter() {
        assert_ne!(*other, base);
    }
}

#[test]
fn delegate_equal_to_owner_still_binds_both() {
    let same = build_leaf(&key(2), &key(2), &key(2), 7, &[5u8; 32], &[6u8; 32],
        LeafSchemaVersion::V1);
    let distinct = build_leaf(&key(2), &key(2), &key(4), 7, &[5u8; 32], &[6u8; 32],
        LeafSchemaVersion::V1);
    assert_ne!(same, distinct);
}
