//! Membership proofs in a Keccak-256 Merkle tree.

use crate::bytes::{append_bytes, same_bytes};
use crate::digest::{collide, keccak256, keccak256_of};
use crate::error::OnboardError;
use vstd::prelude::*;

verus! {

/// A node of the tree: the digest of its two children, or a leaf.
pub type Node = [u8; 32];

/// The bytes that are hashed into the parent of `node`: `node` comes first
/// where it is a left child, that is where `index`, its position in its
/// level, is even.
pub open spec fn parent_preimage(node: Node, sibling: Node, index: nat) -> Seq<u8> {
    if index % 2 == 0 {
        node@ + sibling@
    } else {
        sibling@ + node@
    }
}

/// The parent of `node`, which stands at position `index` of its level and
/// beside `sibling`.
pub open spec fn parent_of(node: Node, sibling: Node, index: nat) -> Node {
    keccak256_of(parent_preimage(node, sibling, index))
}

/// The root reached from `leaf` at position `index` by hashing it with each
/// sibling of `proof` in turn, lowest level first. The bit of `index` at a
/// level tells on which side the path lies there.
pub open spec fn merkle_root(leaf: Node, index: nat, proof: Seq<Node>) -> Node
    decreases proof.len(),
{
    if proof.len() == 0 {
        leaf
    } else {
        merkle_root(parent_of(leaf, proof[0], index), index / 2, proof.drop_first())
    }
}

/// The bytes that are hashed into the parent of `node`: the node first where
/// it is the left child, its sibling first where it is the right one.
pub fn parent_bytes(node: &Node, sibling: &Node, is_left: bool) -> (bytes: Vec<u8>)
    ensures
        bytes@ == parent_preimage(*node, *sibling, if is_left { 0nat } else { 1nat }),
{
    let mut bytes: Vec<u8> = Vec::new();
    if is_left {
        append_bytes(&mut bytes, node.as_slice());
        append_bytes(&mut bytes, sibling.as_slice());
    } else {
        append_bytes(&mut bytes, sibling.as_slice());
        append_bytes(&mut bytes, node.as_slice());
    }
    bytes
}

/// Replaces `node` by its parent.
pub fn hash_to_parent(node: &mut Node, sibling: &Node, is_left: bool)
    ensures
        *final(node) == parent_of(*old(node), *sibling, if is_left { 0nat } else { 1nat }),
{
    let bytes = parent_bytes(node, sibling, is_left);
    *node = keccak256(bytes.as_slice());
}

/// Recomputes the root from a leaf, its position and its proof.
pub fn recompute(leaf: &Node, index: u32, proof: &Vec<Node>) -> (root: Node)
    ensures
        root == merkle_root(*leaf, index as nat, proof@),
{
    let mut node: Node = *leaf;
    let mut position: u32 = index;
    let mut level: usize = 0;
    assert(proof@.skip(0) == proof@);
    while level < proof.len()
        invariant
            level <= proof@.len(),
            merkle_root(*leaf, index as nat, proof@) == merkle_root(
                node,
                position as nat,
                proof@.skip(level as int),
            ),
        decreases proof@.len() - level,
    {
        proof {
            let rest = proof@.skip(level as int);
            assert(rest[0] == proof@[level as int]);
            assert(rest.drop_first() == proof@.skip(level + 1));
        }
        hash_to_parent(&mut node, &proof[level], position % 2 == 0);
        position = position / 2;
        level += 1;
    }
    node
}

/// Holds a recomputed root against the claimed one.
pub fn check_root(recomputed: &Node, claimed_root: &Node) -> (checked: Result<(), OnboardError>)
    ensures
        *recomputed == *claimed_root ==> checked is Ok,
        *recomputed != *claimed_root ==> checked == Err::<(), OnboardError>(
            OnboardError::ProofMismatch,
        ),
{
    if same_bytes(recomputed, claimed_root) {
        Ok(())
    } else {
        Err(OnboardError::ProofMismatch)
    }
}

/// Checks that `leaf_hash` lies at position `index` under `claimed_root`.
pub fn verify(leaf_hash: &Node, claimed_root: &Node, index: u32, proof: &Vec<Node>) -> (checked:
    Result<(), OnboardError>)
    ensures
        checked is Ok <==> merkle_root(*leaf_hash, index as nat, proof@) == *claimed_root,
        checked is Err ==> checked == Err::<(), OnboardError>(OnboardError::ProofMismatch),
{
    let root = recompute(leaf_hash, index, proof);
    check_root(&root, claimed_root)
}

/// A leaf with its proof leads to one root: against any other root the
/// verification fails.
pub proof fn verifies_against_one_root(
    leaf: Node,
    index: nat,
    proof: Seq<Node>,
    root: Node,
    other: Node,
)
    requires
        merkle_root(leaf, index, proof) == root,
        other != root,
    ensures
        merkle_root(leaf, index, proof) != other,
{
}

/// Whether, at some level, the two paths hash byte strings that collide.
pub open spec fn paths_collide(
    leaf: Node,
    proof: Seq<Node>,
    other_leaf: Node,
    other_proof: Seq<Node>,
    index: nat,
) -> bool
    decreases proof.len(),
{
    if proof.len() == 0 || other_proof.len() == 0 {
        false
    } else {
        ||| collide(
            parent_preimage(leaf, proof[0], index),
            parent_preimage(other_leaf, other_proof[0], index),
        )
        ||| paths_collide(
            parent_of(leaf, proof[0], index),
            proof.drop_first(),
            parent_of(other_leaf, other_proof[0], index),
            other_proof.drop_first(),
            index / 2,
        )
    }
}

/// A node and its sibling can be read off the bytes hashed into the parent.
proof fn preimage_tells_children(
    node: Node,
    sibling: Node,
    other: Node,
    other_sibling: Node,
    index: nat,
)
    requires
        parent_preimage(node, sibling, index) == parent_preimage(other, other_sibling, index),
    ensures
        node == other,
        sibling == other_sibling,
{
    let a = parent_preimage(node, sibling, index);
    let b = parent_preimage(other, other_sibling, index);
    assert forall|i: int| 0 <= i < 32 implies node@[i] == other@[i] && sibling@[i]
        == other_sibling@[i] by {
        if index % 2 == 0 {
            assert(a[i] == node@[i] && b[i] == other@[i]);
            assert(a[32 + i] == sibling@[i] && b[32 + i] == other_sibling@[i]);
        } else {
            assert(a[i] == sibling@[i] && b[i] == other_sibling@[i]);
            assert(a[32 + i] == node@[i] && b[32 + i] == other@[i]);
        }
    }
    assert(node =~= other);
    assert(sibling =~= other_sibling);
}

/// Any change to the leaf or to a sibling of its proof changes the root,
/// unless two of the byte strings hashed on the way collide.
pub proof fn changed_path_changes_root(
    leaf: Node,
    proof: Seq<Node>,
    other_leaf: Node,
    other_proof: Seq<Node>,
    index: nat,
)
    requires
        proof.len() == other_proof.len(),
        leaf != other_leaf || proof != other_proof,
    ensures
        merkle_root(leaf, index, proof) != merkle_root(other_leaf, index, other_proof)
            || paths_collide(leaf, proof, other_leaf, other_proof, index),
    decreases proof.len(),
{
    if proof.len() == 0 {
        assert(proof =~= other_proof);
    } else {
        let preimage = parent_preimage(leaf, proof[0], index);
        let other_preimage = parent_preimage(other_leaf, other_proof[0], index);
        if leaf == other_leaf && proof[0] == other_proof[0] {
            if proof.drop_first() == other_proof.drop_first() {
                assert(proof =~= seq![proof[0]] + proof.drop_first());
                assert(other_proof =~= seq![other_proof[0]] + other_proof.drop_first());
            }
        } else if preimage == other_preimage {
            preimage_tells_children(leaf, proof[0], other_leaf, other_proof[0], index);
        }
        if !collide(preimage, other_preimage) {
            changed_path_changes_root(
                parent_of(leaf, proof[0], index),
                proof.drop_first(),
                parent_of(other_leaf, other_proof[0], index),
                other_proof.drop_first(),
                index / 2,
            );
        }
    }
}

} // verus!
