//! Data credits: the accounts that hold them, and burning them.

use crate::address::Pubkey;
use crate::error::OnboardError;
use vstd::prelude::*;

verus! {

/// An account that holds tokens of one mint.
#[derive(Clone, Copy, Debug, PartialEq, Eq)]
pub struct TokenAccount {
    /// The address of the account.
    pub key: Pubkey,
    /// The mint of the tokens.
    pub mint: Pubkey,
    /// Who may spend the tokens.
    pub owner: Pubkey,
    /// How many tokens the account holds.
    pub amount: u64,
}

/// How many data credits to burn.
#[derive(Clone, Copy, Debug, PartialEq, Eq, Structural)]
pub struct BurnWithoutTrackingArgsV0 {
    pub amount: u64,
}

/// The accounts that every burn of data credits names.
#[derive(Clone, Copy, Debug, PartialEq, Eq)]
pub struct BurnCommonV0 {
    pub data_credits: Pubkey,
    pub burner: Pubkey,
    pub owner: Pubkey,
    pub dc_mint: Pubkey,
    pub token_program: Pubkey,
    pub associated_token_program: Pubkey,
    pub system_program: Pubkey,
}

/// The accounts of a burn that is not tracked per sub-DAO.
#[derive(Clone, Copy, Debug, PartialEq, Eq)]
pub struct BurnWithoutTrackingV0 {
    pub burn_accounts: BurnCommonV0,
}

/// A call into the ledger: the program called, and the accounts handed to it.
#[derive(Clone, Copy, Debug, PartialEq, Eq)]
pub struct CpiContext {
    pub program: Pubkey,
    pub accounts: BurnWithoutTrackingV0,
}

/// The account after `amount` of its tokens were burned; `None` where it
/// holds fewer.
pub open spec fn burned(account: TokenAccount, amount: u64) -> Option<TokenAccount> {
    if amount <= account.amount {
        Some(TokenAccount { amount: (account.amount - amount) as u64, ..account })
    } else {
        None
    }
}

/// Burns `args.amount` tokens of `burner`, all of them or none.
pub fn burn_without_tracking_v0(
    burner: &mut TokenAccount,
    args: BurnWithoutTrackingArgsV0,
) -> (done: Result<(), OnboardError>)
    ensures
        match burned(*old(burner), args.amount) {
            Some(after) => done is Ok && *final(burner) == after,
            None => {
                &&& done == Err::<(), OnboardError>(OnboardError::InsufficientFunds)
                &&& *final(burner) == *old(burner)
            },
        },
{
    if args.amount <= burner.amount {
        burner.amount = burner.amount - args.amount;
        Ok(())
    } else {
        Err(OnboardError::InsufficientFunds)
    }
}

} // verus!
