//! The leaf that stands for a compressed asset in its tree.

use crate::address::Pubkey;
use crate::bytes::append_bytes;
use crate::digest::{keccak256, keccak256_of};
use crate::merkle::Node;
use vstd::bytes::{lemma_auto_spec_u64_to_from_le_bytes, spec_u64_to_le_bytes, u64_to_le_bytes};
use vstd::prelude::*;

verus! {

/// The version of a leaf's layout.
#[derive(Clone, Copy, Debug, PartialEq, Eq, Structural)]
pub enum Version {
    V1,
}

impl Version {
    /// The byte that stands for the version in a leaf.
    pub open spec fn tag(self) -> u8 {
        match self {
            Version::V1 => 1,
        }
    }

    /// The byte that stands for the version in a leaf.
    pub fn to_bytes(&self) -> (byte: u8)
        ensures
            byte == self.tag(),
    {
        match self {
            Version::V1 => 1,
        }
    }
}

/// What a leaf says of its asset.
#[derive(Clone, Copy, Debug, PartialEq, Eq)]
pub enum LeafSchema {
    V1 {
        id: Pubkey,
        owner: Pubkey,
        delegate: Pubkey,
        nonce: u64,
        data_hash: [u8; 32],
        creator_hash: [u8; 32],
    },
}

impl LeafSchema {
    /// The bytes that are hashed into the leaf's node: the version, the
    /// asset's identifier, the owner, the delegate, the nonce in eight bytes,
    /// lowest first, the data hash and the creator hash.
    pub open spec fn preimage(self) -> Seq<u8> {
        match self {
            LeafSchema::V1 { id, owner, delegate, nonce, data_hash, creator_hash } => seq![
                Version::V1.tag(),
            ] + id@ + owner@ + delegate@ + spec_u64_to_le_bytes(nonce) + data_hash@
                + creator_hash@,
        }
    }

    /// The identifier of the leaf's asset.
    pub open spec fn asset_id(self) -> Pubkey {
        match self {
            LeafSchema::V1 { id, .. } => id,
        }
    }

    /// The leaf's node in the tree.
    pub open spec fn node(self) -> Node {
        keccak256_of(self.preimage())
    }

    /// The leaf of the first layout with the fields given.
    pub fn new_v0(
        id: Pubkey,
        owner: Pubkey,
        delegate: Pubkey,
        nonce: u64,
        data_hash: [u8; 32],
        creator_hash: [u8; 32],
    ) -> (leaf: LeafSchema)
        ensures
            leaf == (LeafSchema::V1 { id, owner, delegate, nonce, data_hash, creator_hash }),
    {
        LeafSchema::V1 { id, owner, delegate, nonce, data_hash, creator_hash }
    }

    /// The identifier of the leaf's asset.
    pub fn id(&self) -> (id: Pubkey)
        ensures
            id == self.asset_id(),
    {
        match self {
            LeafSchema::V1 { id, .. } => *id,
        }
    }

    /// The version of the leaf's layout.
    pub fn version(&self) -> (version: Version)
        ensures
            version == Version::V1,
    {
        match self {
            LeafSchema::V1 { .. } => Version::V1,
        }
    }

    /// The bytes that are hashed into the leaf's node.
    pub fn to_bytes(&self) -> (bytes: Vec<u8>)
        ensures
            bytes@ == self.preimage(),
    {
        match self {
            LeafSchema::V1 { id, owner, delegate, nonce, data_hash, creator_hash } => {
                let mut bytes: Vec<u8> = Vec::new();
                bytes.push(self.version().to_bytes());
                append_bytes(&mut bytes, id.as_slice());
                append_bytes(&mut bytes, owner.as_slice());
                append_bytes(&mut bytes, delegate.as_slice());
                let nonce_bytes = u64_to_le_bytes(*nonce);
                append_bytes(&mut bytes, nonce_bytes.as_slice());
                append_bytes(&mut bytes, data_hash.as_slice());
                append_bytes(&mut bytes, creator_hash.as_slice());
                assert(bytes@ =~= self.preimage());
                bytes
            },
        }
    }

    /// Hashes the leaf into its node.
    pub fn to_node(&self) -> (node: Node)
        ensures
            node == self.node(),
    {
        let bytes = self.to_bytes();
        keccak256(bytes.as_slice())
    }
}

/// A leaf can be read off the bytes hashed into its node: leaves that differ
/// in a field have other bytes.
pub proof fn preimage_tells_leaf(leaf: LeafSchema, other: LeafSchema)
    requires
        leaf.preimage() == other.preimage(),
    ensures
        leaf == other,
{
    lemma_auto_spec_u64_to_from_le_bytes();
    let bytes = leaf.preimage();
    match (leaf, other) {
        (
            LeafSchema::V1 { id, owner, delegate, nonce, data_hash, creator_hash },
            LeafSchema::V1 {
                id: id2,
                owner: owner2,
                delegate: delegate2,
                nonce: nonce2,
                data_hash: data_hash2,
                creator_hash: creator_hash2,
            },
        ) => {
            let low = spec_u64_to_le_bytes(nonce);
            let low2 = spec_u64_to_le_bytes(nonce2);
            assert(low.len() == 8 && low2.len() == 8);
            assert forall|i: int| 0 <= i < 32 implies id@[i] == id2@[i] && owner@[i] == owner2@[i]
                && delegate@[i] == delegate2@[i] && data_hash@[i] == data_hash2@[i]
                && creator_hash@[i] == creator_hash2@[i] by {
                assert(bytes[1 + i] == id@[i] && bytes[1 + i] == id2@[i]);
                assert(bytes[33 + i] == owner@[i] && bytes[33 + i] == owner2@[i]);
                assert(bytes[65 + i] == delegate@[i] && bytes[65 + i] == delegate2@[i]);
                assert(bytes[105 + i] == data_hash@[i] && bytes[105 + i] == data_hash2@[i]);
                assert(bytes[137 + i] == creator_hash@[i] && bytes[137 + i] == creator_hash2@[i]);
            }
            assert forall|i: int| 0 <= i < 8 implies low[i] == low2[i] by {
                assert(bytes[97 + i] == low[i] && bytes[97 + i] == low2[i]);
            }
            assert(low =~= low2);
            assert(id =~= id2);
            assert(owner =~= owner2);
            assert(delegate =~= delegate2);
            assert(data_hash =~= data_hash2);
            assert(creator_hash =~= creator_hash2);
        },
    }
}

} // verus!
