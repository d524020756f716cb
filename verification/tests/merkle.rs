use bridge_core::errors::BridgeError;
use bridge_core::merkle::IncrementalMerkleTree;

fn h(l: &[u8; 32], r: &[u8; 32]) -> [u8; 32] {
    let mut buf = [0u8; 64];
    buf[..32].copy_from_slice(l);
    buf[32..].copy_from_slice(r);
    <bitcoin::hashes::sha256::Hash as bitcoin::hashes::Hash>::to_byte_array(<bitcoin::hashes::sha256::Hash as bitcoin::hashes::Hash>::hash(&buf))
}

fn leaf(i: u8) -> [u8; 32] {
    [i; 32]
}

#[test]
fn empty_root_is_all_empty_root() {
    let t = IncrementalMerkleTree::<3>::new();
    let z0 = [0u8; 32];
    let z1 = h(&z0, &z0);
    let z2 = h(&z1, &z1);
    let z3 = h(&z2, &z2);
    assert_eq!(t.root, z3);
    assert_eq!(t.index, 0);
}

#[test]
fn round_trip_depth_three() {
    let mut t = IncrementalMerkleTree::<3>::new();
    let leaves: Vec<[u8; 32]> = (0u8..7).map(leaf).collect();
    for l in &leaves {
        t.add(*l).unwrap();
    }
    // Recompute the root by hand: level 0 is the seven leaves plus one empty
    // sentinel, and each level pairs neighbours left-to-right.
    let z0 = [0u8; 32];
    let mut level: Vec<[u8; 32]> = leaves.clone();
    level.push(z0);
    for _ in 0..3 {
        let mut next = Vec::new();
        for pair in level.chunks(2) {
            next.push(h(&pair[0], &pair[1]));
        }
        level = next;
    }
    assert_eq!(level.len(), 1);
    assert_eq!(t.root, level[0]);
    assert_eq!(t.index, 7);

    // The eighth leaf fills the tree; a ninth is rejected and changes nothing.
    t.add(leaf(7)).unwrap();
    assert_eq!(t.index, 8);
    let root_when_full = t.root;
    assert_eq!(t.add(leaf(8)), Err(BridgeError::Overflow));
    assert_eq!(t.index, 8);
    assert_eq!(t.root, root_when_full);
}

#[test]
fn append_determinism_same_order() {
    let mut a = IncrementalMerkleTree::<4>::new();
    let mut b = IncrementalMerkleTree::<4>::new();
    for i in 0u8..11 {
        a.add(leaf(i.wrapping_mul(37))).unwrap();
        b.add(leaf(i.wrapping_mul(37))).unwrap();
    }
    assert_eq!(a.root, b.root);
    assert_eq!(a.index, b.index);
}

#[test]
fn order_sensitivity() {
    let mut a = IncrementalMerkleTree::<3>::new();
    let mut b = IncrementalMerkleTree::<3>::new();
    a.add(leaf(1)).unwrap();
    a.add(leaf(2)).unwrap();
    b.add(leaf(2)).unwrap();
    b.add(leaf(1)).unwrap();
    assert_ne!(a.root, b.root);
}

#[test]
fn capacity_of_depth_zero_tree() {
    let mut t = IncrementalMerkleTree::<0>::new();
    t.add(leaf(5)).unwrap();
    assert_eq!(t.root, leaf(5));
    assert_eq!(t.add(leaf(6)), Err(BridgeError::Overflow));
}

#[test]
fn root_tracks_each_insertion() {
    let mut t = IncrementalMerkleTree::<2>::new();
    let z0 = [0u8; 32];
    t.add(leaf(9)).unwrap();
    assert_eq!(t.root, h(&h(&leaf(9), &z0), &h(&z0, &z0)));
    t.add(leaf(8)).unwrap();
    assert_eq!(t.root, h(&h(&leaf(9), &leaf(8)), &h(&z0, &z0)));
    t.add(leaf(7)).unwrap();
    assert_eq!(t.root, h(&h(&leaf(9), &leaf(8)), &h(&leaf(7), &z0)));
}
