use cutils::inclusion::verify_inclusion;

fn combine(left: &[u8; 32], right: &[u8; 32]) -> [u8; 32] {
    solana_program::keccak::hashv(&[left, right]).to_bytes()
}

/// A depth-3 tree with the leaf at index 5: odd at the bottom level, even one
/// level up, odd below the root.
fn depth3_fixture() -> ([u8; 32], [u8; 32], Vec<[u8; 32]>) {
    let leaf = [0xabu8; 32];
    let s0 = [1u8; 32];
    let s1 = [2u8; 32];
    let s2 = [3u8; 32];
    let p0 = combine(&s0, &leaf);
    let p1 = combine(&p0, &s1);
    let root = combine(&s2, &p1);
    (root, leaf, vec![s0, s1, s2])
}

#[test]
fn correct_proof_succeeds() {
    let (root, leaf, path) = depth3_fixture();
    assert!(verify_inclusion(&root, &leaf, 5, &path));
}

#[test]
fn mutating_any_sibling_fails() {
    let (root, leaf, path) = depth3_fixture();
    for level in 0..3 {
        for bit in [0x01u8, 0x80u8] {
            let mut bad = path.clone();
            bad[level][0] ^= bit;
            assert!(!verify_inclusion(&root, &leaf, 5, &bad));
        }
    }
}

#[test]
fn wrong_index_fails() {
    let (root, leaf, path) = depth3_fixture();
    assert!(!verify_inclusion(&root, &leaf, 6, &path));
}

#[test]
fn wrong_root_fails() {
    let (root, leaf, path) = depth3_fixture();
    let mut bad_root = root;
    bad_root[31] ^= 0x01;
    assert!(!verify_inclusion(&bad_root, &leaf, 5, &path));
}

#[test]
fn wrong_leaf_fails() {
    let (root, _, path) = depth3_fixture();
    assert!(!verify_inclusion(&root, &[0xacu8; 32], 5, &path));
}

#[test]
fn index_out_of_range_fails() {
    let (root, leaf, path) = depth3_fixture();
    assert!(!verify_inclusion(&root, &leaf, 8, &path));
    assert!(!verify_inclusion(&root, &leaf, 13, &path));
}

#[test]
fn empty_path_accepts_only_the_root_itself() {
    let leaf = [0x11u8; 32];
    let path: Vec<[u8; 32]> = vec![];
    assert!(verify_inclusion(&leaf, &leaf, 0, &path));
    assert!(!verify_inclusion(&[0x12u8; 32], &leaf, 0, &path));
    assert!(!verify_inclusion(&leaf, &leaf, 1, &path));
}
