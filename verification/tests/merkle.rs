use hotspot_onboarding::error::OnboardError;
use hotspot_onboarding::merkle::{
    check_root, hash_to_parent, parent_bytes, recompute, verify, Node,
};

const LEAF: Node = [1u8; 32];

fn two_siblings() -> Vec<Node> {
    vec![[2u8; 32], [3u8; 32]]
}

const ROOT_AT_0: Node = [
    248, 242, 58, 128, 253, 77, 153, 217, 210, 49, 18, 46, 31, 17, 81, 69, 65, 43, 227, 133, 107,
    35, 171, 204, 51, 137, 3, 227, 42, 128, 196, 239,
];

const ROOT_AT_1: Node = [
    29, 164, 41, 205, 123, 162, 146, 228, 5, 179, 174, 213, 94, 245, 138, 159, 210, 18, 167, 244,
    220, 220, 77, 74, 135, 52, 56, 6, 85, 235, 82, 104,
];

const ROOT_AT_2: Node = [
    29, 97, 79, 163, 200, 222, 98, 147, 139, 9, 72, 151, 36, 148, 249, 163, 133, 133, 117, 219,
    105, 206, 29, 52, 199, 121, 38, 243, 7, 50, 201, 129,
];

const ROOT_AT_3: Node = [
    91, 201, 13, 85, 64, 182, 36, 129, 36, 168, 126, 176, 79, 207, 70, 248, 75, 169, 194, 85, 149,
    133, 240, 188, 165, 207, 155, 83, 51, 56, 237, 21,
];

#[test]
fn a_left_child_is_hashed_before_its_sibling() {
    let mut node = LEAF;
    hash_to_parent(&mut node, &[2u8; 32], true);
    assert_eq!(
        node,
        [
            52, 109, 140, 150, 162, 69, 66, 19, 252, 192, 218, 255, 60, 150, 173, 3, 152, 20, 129,
            129, 185, 250, 100, 136, 247, 174, 44, 10, 245, 178, 10, 160,
        ]
    );
}

#[test]
fn a_right_child_is_hashed_behind_its_sibling() {
    let mut node = LEAF;
    hash_to_parent(&mut node, &[2u8; 32], false);
    assert_eq!(
        node,
        [
            92, 213, 63, 22, 214, 153, 232, 68, 83, 198, 247, 105, 185, 165, 188, 30, 146, 124, 97,
            142, 59, 97, 33, 67, 205, 90, 231, 222, 225, 206, 48, 135,
        ]
    );
}

#[test]
fn the_bits_of_the_index_choose_the_side_at_each_level() {
    let proof = two_siblings();
    assert_eq!(recompute(&LEAF, 0, &proof), ROOT_AT_0);
    assert_eq!(recompute(&LEAF, 1, &proof), ROOT_AT_1);
    assert_eq!(recompute(&LEAF, 2, &proof), ROOT_AT_2);
    assert_eq!(recompute(&LEAF, 3, &proof), ROOT_AT_3);
}

#[test]
fn bits_above_the_proof_do_not_count() {
    let proof = two_siblings();
    assert_eq!(recompute(&LEAF, 4, &proof), ROOT_AT_0);
    assert_eq!(recompute(&LEAF, 0xffff_fffd, &proof), ROOT_AT_1);
}

#[test]
fn without_siblings_the_leaf_is_the_root() {
    assert_eq!(recompute(&LEAF, 3, &Vec::new()), LEAF);
    assert_eq!(verify(&LEAF, &LEAF, 3, &Vec::new()), Ok(()));
    assert_eq!(verify(&LEAF, &[2u8; 32], 3, &Vec::new()), Err(OnboardError::ProofMismatch));
}

#[test]
fn a_proof_longer_than_the_index_goes_left_above_it() {
    let mut proof: Vec<Node> = Vec::new();
    for level in 0..34u8 {
        proof.push([level; 32]);
    }
    assert_eq!(
        recompute(&LEAF, 0xffff_ffff, &proof),
        [
            96, 254, 23, 87, 88, 55, 200, 88, 8, 237, 54, 73, 122, 134, 45, 205, 242, 56, 211, 86,
            150, 127, 187, 46, 250, 148, 148, 42, 172, 196, 114, 149,
        ]
    );
}

#[test]
fn roots_are_those_of_the_compression_library() {
    let mut proof: Vec<Node> = Vec::new();
    for level in 0..24u8 {
        proof.push([level.wrapping_mul(37); 32]);
        for index in [0u32, 1, 2, 5, 1 << 23, 0x00ab_cdef, u32::MAX] {
            assert_eq!(
                recompute(&LEAF, index, &proof),
                spl_concurrent_merkle_tree::hash::recompute(LEAF, &proof, index)
            );
        }
    }
}

#[test]
fn a_valid_proof_verifies() {
    assert_eq!(verify(&LEAF, &ROOT_AT_2, 2, &two_siblings()), Ok(()));
}

#[test]
fn a_proof_for_another_index_fails() {
    assert_eq!(verify(&LEAF, &ROOT_AT_2, 1, &two_siblings()), Err(OnboardError::ProofMismatch));
}

#[test]
fn a_flipped_bit_in_the_root_fails() {
    for byte in 0..32 {
        for bit in 0..8 {
            let mut root = ROOT_AT_2;
            root[byte] ^= 1 << bit;
            assert_eq!(verify(&LEAF, &root, 2, &two_siblings()), Err(OnboardError::ProofMismatch));
        }
    }
}

#[test]
fn a_flipped_bit_in_the_leaf_fails() {
    for byte in 0..32 {
        for bit in 0..8 {
            let mut leaf = LEAF;
            leaf[byte] ^= 1 << bit;
            assert_eq!(
                verify(&leaf, &ROOT_AT_2, 2, &two_siblings()),
                Err(OnboardError::ProofMismatch)
            );
        }
    }
}

#[test]
fn a_flipped_bit_in_a_sibling_fails() {
    for level in 0..2 {
        for byte in 0..32 {
            for bit in 0..8 {
                let mut proof = two_siblings();
                proof[level][byte] ^= 1 << bit;
                assert_eq!(verify(&LEAF, &ROOT_AT_2, 2, &proof), Err(OnboardError::ProofMismatch));
            }
        }
    }
}

#[test]
fn a_missing_or_an_added_sibling_fails() {
    let mut proof = two_siblings();
    proof.push([4u8; 32]);
    assert_eq!(verify(&LEAF, &ROOT_AT_2, 2, &proof), Err(OnboardError::ProofMismatch));
    proof.truncate(1);
    assert_eq!(verify(&LEAF, &ROOT_AT_2, 2, &proof), Err(OnboardError::ProofMismatch));
}

#[test]
fn the_left_child_comes_first_in_the_parents_bytes() {
    let mut expected = vec![1u8; 32];
    expected.extend_from_slice(&[2u8; 32]);
    assert_eq!(parent_bytes(&LEAF, &[2u8; 32], true), expected);
    let mut expected = vec![2u8; 32];
    expected.extend_from_slice(&[1u8; 32]);
    assert_eq!(parent_bytes(&LEAF, &[2u8; 32], false), expected);
}

#[test]
fn a_root_is_accepted_only_if_it_is_the_claimed_one() {
    assert_eq!(check_root(&ROOT_AT_0, &ROOT_AT_0), Ok(()));
    assert_eq!(check_root(&ROOT_AT_0, &ROOT_AT_1), Err(OnboardError::ProofMismatch));
    let mut almost = ROOT_AT_0;
    almost[31] ^= 1;
    assert_eq!(check_root(&ROOT_AT_0, &almost), Err(OnboardError::ProofMismatch));
}
