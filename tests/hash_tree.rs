use geckolib::hash_tree::{compute_hash_tree, digest_table_of, leaf_hashes, verify_hash_tree};

fn group() -> Vec<Vec<u8>> {
    (0..64u32).map(|c| vec![(c % 251) as u8; 0x7C00]).collect()
}

fn sha1(data: &[u8]) -> Vec<u8> {
    sha1_smol::Sha1::from(data).digest().bytes().to_vec()
}

#[test]
fn leaf_table_hashes_each_block() {
    let mut data = vec![0u8; 0x7C00];
    data[0x400] = 1;
    let table = leaf_hashes(&data);
    assert_eq!(table.len(), 31 * 20);
    assert_eq!(&table[..20], sha1(&[0u8; 0x400]).as_slice());
    assert_eq!(&table[20..40], sha1(&data[0x400..0x800]).as_slice());
    assert_ne!(&table[..20], &table[20..40]);
}

#[test]
fn digest_table_concatenates_digests() {
    let parts = vec![b"abc".to_vec(), Vec::new()];
    let t = digest_table_of(&parts);
    assert_eq!(&t[..20], sha1(b"abc").as_slice());
    assert_eq!(
        sha1(b"abc"),
        vec![0xa9, 0x99, 0x3e, 0x36, 0x47, 0x06, 0x81, 0x6a, 0xba, 0x3e, 0x25, 0x71, 0x78, 0x50, 0xc2, 0x6c, 0x9c, 0xd0, 0xd8, 0x9d]
    );
    assert_eq!(&t[20..], sha1(b"").as_slice());
}

#[test]
fn tree_levels_chain_up() {
    let clusters = group();
    let tree = compute_hash_tree(&clusters);
    assert_eq!(tree.leaves.len(), 64);
    assert_eq!(tree.subgroups.len(), 8);
    assert_eq!(tree.subgroups[0].len(), 8 * 20);
    assert_eq!(&tree.subgroups[1][..20], sha1(&tree.leaves[8]).as_slice());
    assert_eq!(&tree.group[20..40], sha1(&tree.subgroups[1]).as_slice());
    assert_eq!(tree.top, sha1(&tree.group));
    assert!(verify_hash_tree(&clusters, &tree));
}

#[test]
fn single_cluster_change_reaches_every_level() {
    let clusters = group();
    let tree = compute_hash_tree(&clusters);
    let mut changed = clusters.clone();
    changed[10][0x1234] ^= 0xFF;
    let new_tree = compute_hash_tree(&changed);
    assert_ne!(new_tree.leaves[10], tree.leaves[10]);
    assert_ne!(new_tree.subgroups[1], tree.subgroups[1]);
    assert_ne!(new_tree.group, tree.group);
    assert_ne!(new_tree.top, tree.top);
    assert_eq!(new_tree.leaves[11], tree.leaves[11]);
    assert_eq!(new_tree.subgroups[2], tree.subgroups[2]);
    assert!(!verify_hash_tree(&changed, &tree));
    assert!(verify_hash_tree(&changed, &new_tree));
}
