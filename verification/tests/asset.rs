use hotspot_onboarding::asset::{asset_id_seeds, get_asset_id, BUBBLEGUM_PROGRAM_ID};
use hotspot_onboarding::leaf::{LeafSchema, Version};

#[test]
fn the_program_is_bubblegum() {
    assert_eq!(BUBBLEGUM_PROGRAM_ID, mpl_bubblegum::ID.to_bytes());
}

#[test]
fn asset_ids_are_the_known_addresses() {
    assert_eq!(
        get_asset_id(&[7u8; 32], 5),
        Some([
            199, 95, 22, 201, 85, 238, 81, 110, 182, 240, 99, 60, 92, 30, 217, 241, 102, 15, 82,
            251, 255, 15, 162, 49, 10, 177, 177, 101, 163, 64, 15, 86,
        ])
    );
    assert_eq!(
        get_asset_id(&[0u8; 32], 0),
        Some([
            77, 27, 144, 59, 117, 170, 169, 95, 145, 84, 62, 242, 173, 132, 231, 7, 28, 56, 72,
            170, 164, 255, 143, 160, 117, 34, 130, 7, 230, 255, 215, 48,
        ])
    );
    assert_eq!(
        get_asset_id(&[255u8; 32], 0xffff_ffff),
        Some([
            144, 249, 55, 55, 5, 28, 175, 86, 161, 65, 200, 186, 226, 233, 56, 106, 194, 215, 212,
            141, 113, 248, 187, 240, 171, 52, 93, 219, 116, 21, 82, 187,
        ])
    );
}

#[test]
fn asset_ids_are_those_of_the_bubblegum_sdk() {
    for seed in 0..16u8 {
        let tree = [seed.wrapping_mul(17); 32];
        for nonce in [0u64, 1, 255, 256, 65_536, u32::MAX as u64, u64::MAX] {
            let theirs = mpl_bubblegum::utils::get_asset_id(&tree.into(), nonce);
            assert_eq!(get_asset_id(&tree, nonce), Some(theirs.to_bytes()));
        }
    }
}

#[test]
fn an_asset_id_is_derived_the_same_every_time() {
    assert_eq!(get_asset_id(&[7u8; 32], 5), get_asset_id(&[7u8; 32], 5));
}

#[test]
fn distinct_leaves_have_distinct_asset_ids() {
    let mut seen: Vec<[u8; 32]> = Vec::new();
    for tree in [[1u8; 32], [2u8; 32], [3u8; 32]] {
        for nonce in 0..50u64 {
            let id = get_asset_id(&tree, nonce).unwrap();
            assert!(!seen.contains(&id));
            seen.push(id);
        }
    }
}

#[test]
fn a_leaf_keeps_its_fields() {
    let leaf = LeafSchema::new_v0([1u8; 32], [2u8; 32], [3u8; 32], 4, [5u8; 32], [6u8; 32]);
    assert_eq!(
        leaf,
        LeafSchema::V1 {
            id: [1u8; 32],
            owner: [2u8; 32],
            delegate: [3u8; 32],
            nonce: 4,
            data_hash: [5u8; 32],
            creator_hash: [6u8; 32],
        }
    );
    assert_eq!(leaf.version(), Version::V1);
    assert_eq!(Version::V1.to_bytes(), 1);
}

#[test]
fn a_leaf_hashes_to_the_known_node() {
    let leaf = LeafSchema::new_v0(
        [
            199, 95, 22, 201, 85, 238, 81, 110, 182, 240, 99, 60, 92, 30, 217, 241, 102, 15, 82,
            251, 255, 15, 162, 49, 10, 177, 177, 101, 163, 64, 15, 86,
        ],
        [5u8; 32],
        [5u8; 32],
        5,
        [
            70, 249, 166, 147, 237, 3, 10, 229, 0, 113, 2, 214, 229, 65, 56, 242, 179, 238, 132,
            17, 220, 117, 8, 1, 124, 39, 47, 240, 111, 234, 96, 104,
        ],
        [
            122, 202, 124, 216, 207, 138, 77, 78, 15, 160, 8, 104, 207, 88, 198, 209, 227, 159,
            210, 199, 55, 137, 95, 106, 73, 247, 235, 59, 130, 28, 45, 53,
        ],
    );
    assert_eq!(
        leaf.to_node(),
        [
            64, 118, 149, 188, 82, 193, 212, 69, 186, 148, 207, 57, 218, 113, 107, 172, 133, 86,
            177, 132, 215, 27, 38, 97, 10, 105, 10, 44, 131, 91, 150, 37,
        ]
    );
}

#[test]
fn a_leaf_hashes_as_in_the_bubblegum_sdk() {
    for nonce in [0u64, 5, 1 << 40, u64::MAX] {
        let ours = LeafSchema::new_v0([1u8; 32], [2u8; 32], [3u8; 32], nonce, [5u8; 32], [6u8; 32]);
        let theirs = mpl_bubblegum::types::LeafSchema::V1 {
            id: [1u8; 32].into(),
            owner: [2u8; 32].into(),
            delegate: [3u8; 32].into(),
            nonce,
            data_hash: [5u8; 32],
            creator_hash: [6u8; 32],
        };
        assert_eq!(ours.to_node(), theirs.hash());
    }
}

#[test]
fn every_field_of_a_leaf_is_hashed() {
    let base = LeafSchema::new_v0([1u8; 32], [2u8; 32], [3u8; 32], 4, [5u8; 32], [6u8; 32]);
    let others = [
        LeafSchema::new_v0([9u8; 32], [2u8; 32], [3u8; 32], 4, [5u8; 32], [6u8; 32]),
        LeafSchema::new_v0([1u8; 32], [9u8; 32], [3u8; 32], 4, [5u8; 32], [6u8; 32]),
        LeafSchema::new_v0([1u8; 32], [2u8; 32], [9u8; 32], 4, [5u8; 32], [6u8; 32]),
        LeafSchema::new_v0([1u8; 32], [2u8; 32], [3u8; 32], 9, [5u8; 32], [6u8; 32]),
        LeafSchema::new_v0([1u8; 32], [2u8; 32], [3u8; 32], 4, [9u8; 32], [6u8; 32]),
        LeafSchema::new_v0([1u8; 32], [2u8; 32], [3u8; 32], 4, [5u8; 32], [9u8; 32]),
    ];
    for other in others {
        assert_ne!(other.to_node(), base.to_node());
    }
}

#[test]
fn the_seeds_of_an_asset_id_are_the_prefix_the_tree_and_the_nonce() {
    assert_eq!(
        asset_id_seeds(&[7u8; 32], 0x0102_0304_0506_0708),
        vec![b"asset".to_vec(), vec![7u8; 32], vec![8, 7, 6, 5, 4, 3, 2, 1]]
    );
}

#[test]
fn the_bytes_of_a_leaf_are_its_fields_in_order() {
    let leaf = LeafSchema::new_v0([1u8; 32], [2u8; 32], [3u8; 32], 0x0405, [5u8; 32], [6u8; 32]);
    let mut expected = vec![1u8];
    expected.extend_from_slice(&[1u8; 32]);
    expected.extend_from_slice(&[2u8; 32]);
    expected.extend_from_slice(&[3u8; 32]);
    expected.extend_from_slice(&[5, 4, 0, 0, 0, 0, 0, 0]);
    expected.extend_from_slice(&[5u8; 32]);
    expected.extend_from_slice(&[6u8; 32]);
    assert_eq!(leaf.to_bytes(), expected);
    assert_eq!(leaf.id(), [1u8; 32]);
}
