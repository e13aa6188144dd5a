//! The identifier of a compressed asset.

use crate::address::{find_program_address, program_address_of, Pubkey};
use crate::bytes::append_bytes;
use vstd::bytes::{lemma_auto_spec_u64_to_from_le_bytes, spec_u64_to_le_bytes, u64_to_le_bytes};
use vstd::prelude::*;

verus! {

/// The program that keeps the compressed assets, under whose identifier
/// their identifiers are derived.
pub const BUBBLEGUM_PROGRAM_ID: Pubkey = [
    152, 139, 128, 235, 121, 53, 40, 105, 178, 36, 116, 95, 89, 221, 191, 138,
    38, 88, 202, 19, 220, 104, 129, 33, 38, 53, 28, 174, 7, 193, 165, 165,
];

/// The first seed of every asset identifier: the bytes of `asset`.
pub open spec fn asset_prefix() -> Seq<u8> {
    seq![97u8, 115u8, 115u8, 101u8, 116u8]
}

/// The seeds of the identifier of the asset at leaf `nonce` of `tree`: the
/// prefix, the tree, and the nonce in eight bytes, lowest first.
pub open spec fn asset_seeds(tree: Pubkey, nonce: u64) -> Seq<Seq<u8>> {
    seq![asset_prefix(), tree@, spec_u64_to_le_bytes(nonce)]
}

/// The identifier of the asset at leaf `nonce` of `tree`: the address derived
/// from its seeds under the program of the compressed assets.
pub open spec fn asset_id_of(tree: Pubkey, nonce: u64) -> Option<Pubkey> {
    match program_address_of(asset_seeds(tree, nonce), BUBBLEGUM_PROGRAM_ID@) {
        Some((address, _)) => Some(address),
        None => None,
    }
}

/// The seeds of the identifier of the asset at leaf `nonce` of `tree`.
pub fn asset_id_seeds(tree: &Pubkey, nonce: u64) -> (seeds: Vec<Vec<u8>>)
    ensures
        seeds.deep_view() == asset_seeds(*tree, nonce),
{
    let mut prefix: Vec<u8> = Vec::new();
    prefix.push(97);
    prefix.push(115);
    prefix.push(115);
    prefix.push(101);
    prefix.push(116);
    let mut tree_seed: Vec<u8> = Vec::new();
    append_bytes(&mut tree_seed, tree.as_slice());
    let mut seeds: Vec<Vec<u8>> = Vec::new();
    seeds.push(prefix);
    seeds.push(tree_seed);
    seeds.push(u64_to_le_bytes(nonce));
    assert(seeds.deep_view() =~~= asset_seeds(*tree, nonce));
    seeds
}

/// Derives the identifier of the asset at leaf `nonce` of `tree`. It depends
/// on nothing but the two.
pub fn get_asset_id(tree: &Pubkey, nonce: u64) -> (id: Option<Pubkey>)
    ensures
        id == asset_id_of(*tree, nonce),
{
    let seeds = asset_id_seeds(tree, nonce);
    let program = BUBBLEGUM_PROGRAM_ID;
    match find_program_address(&seeds, &program) {
        Some((address, _)) => Some(address),
        None => None,
    }
}

/// Distinct leaves, of one tree or of two, have distinct seeds: two asset
/// identifiers are the same only where the derivation gives one address for
/// two lists of seeds.
pub proof fn distinct_leaves_have_distinct_seeds(
    tree: Pubkey,
    nonce: u64,
    other_tree: Pubkey,
    other_nonce: u64,
)
    requires
        tree != other_tree || nonce != other_nonce,
    ensures
        asset_seeds(tree, nonce) != asset_seeds(other_tree, other_nonce),
{
    lemma_auto_spec_u64_to_from_le_bytes();
    let seeds = asset_seeds(tree, nonce);
    let other_seeds = asset_seeds(other_tree, other_nonce);
    assert(seeds[1] == tree@);
    assert(other_seeds[1] == other_tree@);
    assert(seeds[2] == spec_u64_to_le_bytes(nonce));
    assert(other_seeds[2] == spec_u64_to_le_bytes(other_nonce));
    if seeds == other_seeds {
        assert(tree =~= other_tree);
    }
}

} // verus!
