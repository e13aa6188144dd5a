//! Program-derived addresses.

use vstd::prelude::*;

verus! {

/// The address of an account, or the identifier of a program: 32 bytes.
pub type Pubkey = [u8; 32];

/// The program-derived address of `seeds` under `program_id`, with the bump
/// seed that gives it; `None` where no bump seed gives an address off the
/// curve, or where the seeds are too many or too long.
pub uninterp spec fn program_address_of(seeds: Seq<Seq<u8>>, program_id: Seq<u8>) -> Option<
    (Pubkey, u8),
>;

/// Calls `anchor_lang::solana_program::pubkey::Pubkey::try_find_program_address`
/// with the seeds in their order.
/// Trusted: what it returns is a function of the bytes of the seeds and of
/// the program id alone.
#[verifier::external_body]
pub(crate) fn find_program_address(seeds: &Vec<Vec<u8>>, program_id: &Pubkey) -> (found: Option<
    (Pubkey, u8),
>)
    ensures
        found == program_address_of(seeds.deep_view(), program_id@),
{
    let parts: Vec<&[u8]> = seeds.iter().map(|seed| seed.as_slice()).collect();
    let program = anchor_lang::solana_program::pubkey::Pubkey::new_from_array(*program_id);
    let found =
        anchor_lang::solana_program::pubkey::Pubkey::try_find_program_address(&parts, &program);
    match found {
        Some((address, bump)) => Some((address.to_bytes(), bump)),
        None => None,
    }
}

} // verus!
