use vstd::prelude::*;
use crate::addr::Address;

verus! {

/// A token type on the modeled ledger: its minting authority, optional
/// freeze authority, decimal precision, and total supply.
#[derive(Clone, Copy)]
pub struct TokenType {
    pub mint_authority: Address,
    pub freeze_authority: Option<Address>,
    pub decimals: u8,
    pub supply: u64,
}

/// A token account on the modeled ledger: which token type it holds, the
/// authority that can move funds out of it, and its balance.
#[derive(Clone, Copy)]
pub struct TokenAccount {
    pub token: Address,
    pub owner: Address,
    pub balance: u64,
}

/// Immutable parameters of one distribution campaign: the two time-window
/// thresholds and the derivation salts of the distributor, its grant-token
/// type, and its reward vault.  Each salt is validated against the canonical
/// one at creation and stored as the record's signing witness.  The two
/// thresholds are independent; the protocol enforces no ordering between
/// them.
#[derive(Clone, Copy, PartialEq, Eq, Structural, Debug)]
pub struct DistributorArgs {
    pub dist_end_ts: i64,
    pub redeem_start_ts: i64,
    pub distributor_bump: u8,
    pub grant_bump: u8,
    pub reward_bump: u8,
}

/// The distributor record: the identity of its distributable token and the
/// campaign parameters.  Created exactly once and immutable afterwards.
#[derive(Clone, Copy, PartialEq, Eq, Structural, Debug)]
pub struct DistributorAccount {
    pub dist_mint: u64,
    pub args: DistributorArgs,
}

/// Arguments of the budget step: one allocation amount per recipient
/// position, and the salts of the distributable token and of the transient
/// allocation authority, both validated against the canonical salt.
pub struct BudgetArgs {
    pub allocations: Vec<u64>,
    pub dist_mint_bump: u8,
    pub temporary_pda_bump: u8,
}

} // verus!
