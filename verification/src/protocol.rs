use vstd::prelude::*;
use crate::addr::{Address, CANONICAL_SALT};
use crate::errors::{CallError, ErrorCode, LedgerError};
use crate::ledger::{spec_burn, spec_mint_to, spec_transfer, Ledger, LedgerSnap};
use crate::records::{BudgetArgs, DistributorAccount, DistributorArgs, TokenAccount, TokenType};

verus! {

/// Accounts presented to `initialize_distributor`.
#[derive(Clone, Copy)]
pub struct InitializeDistributor {
    pub payer: u64,
    pub freeze_authority: u64,
    pub dist_mint: u64,
    pub reward_mint: u64,
    pub distributor_account: Address,
    pub grant_mint: Address,
    pub reward_vault: Address,
}

/// Accounts presented to `initialize_grant`.
#[derive(Clone, Copy)]
pub struct InitializeGrant {
    pub payer: u64,
    pub donor_authority: u64,
    pub receiver_authority: u64,
    pub distributor_account: Address,
    pub grant_mint: Address,
    pub grant_account: Address,
}

/// Accounts presented to `transfer_grant`.
#[derive(Clone, Copy)]
pub struct TransferGrant {
    pub payer: u64,
    pub donor_authority: u64,
    pub receiver_authority: u64,
    pub distributor_account: Address,
    pub dist_mint: u64,
    pub dist_token: Address,
    pub grant_mint: Address,
    pub grant_account: Address,
}

/// Accounts presented to `redeem_grant`.
#[derive(Clone, Copy)]
pub struct RedeemGrant {
    pub payer: u64,
    pub receiver_authority: u64,
    pub distributor_account: Address,
    pub grant_mint: Address,
    pub grant_account: Address,
    pub reward_mint: u64,
    pub reward_vault: Address,
    pub receiver_token_account: Address,
}

/// Accounts presented to `initialize_budget`.  `remaining_accounts` is a
/// flat list holding, per allocation, the recipient's associated token
/// account followed by the recipient's authority.
pub struct InitializeBudget {
    pub payer: u64,
    pub freeze_authority: u64,
    pub dist_mint: u64,
    pub reward_mint: u64,
    pub temporary_pda: Address,
    pub temporary_pda_seed: u64,
    pub remaining_accounts: Vec<Address>,
}

/// The expected derivation of a distributor record's own address: a pure
/// function of its distributable-token identity.
pub open spec fn distributor_address(rec: DistributorAccount) -> Address {
    Address::Distributor { dist_mint: rec.dist_mint }
}

/// The expected derivation of a distributor's grant-token address.
pub open spec fn grant_mint_address(rec: DistributorAccount) -> Address {
    Address::GrantMint { dist_mint: rec.dist_mint }
}

/// The expected derivation of a distributor's reward-vault address.
pub open spec fn reward_vault_address(rec: DistributorAccount, reward_mint: u64) -> Address {
    Address::RewardVault { dist_mint: rec.dist_mint, reward_mint }
}

/// The expected derivation of a recipient's grant-account address.  One
/// (distributor, recipient) pair has exactly one grant address.
pub open spec fn grant_account_address(rec: DistributorAccount, recipient: u64) -> Address {
    Address::GrantAccount { dist_mint: rec.dist_mint, recipient }
}

/// The transition of `initialize_distributor`: validate the token legs, the
/// three derivations and their salt witnesses, then persist the distributor
/// record, establish the grant-token type with the distributor's derived
/// address as its only minting authority, and establish the empty reward
/// vault owned by the same derived address.
pub open spec fn spec_initialize_distributor(
    pre: LedgerSnap,
    ctx: InitializeDistributor,
    args: DistributorArgs,
) -> Result<LedgerSnap, CallError> {
    let dist_mint_addr = Address::Key { id: ctx.dist_mint };
    let reward_mint_addr = Address::Key { id: ctx.reward_mint };
    let distributor_addr = Address::Distributor { dist_mint: ctx.dist_mint };
    let grant_mint_addr = Address::GrantMint { dist_mint: ctx.dist_mint };
    let vault_addr = Address::RewardVault { dist_mint: ctx.dist_mint, reward_mint: ctx.reward_mint };
    if !pre.mints.dom().contains(dist_mint_addr) {
        Err(CallError::Ledger(LedgerError::MintNotFound))
    } else if !pre.mints.dom().contains(reward_mint_addr) {
        Err(CallError::Ledger(LedgerError::MintNotFound))
    } else {
        let dm = pre.mints[dist_mint_addr];
        let rm = pre.mints[reward_mint_addr];
        if dm.decimals != rm.decimals {
            Err(CallError::DecimalMismatch)
        } else if dm.freeze_authority != Some(Address::Key { id: ctx.freeze_authority }) {
            Err(CallError::FreezeAuthorityMismatch)
        } else if args.distributor_bump != CANONICAL_SALT
            || args.grant_bump != CANONICAL_SALT
            || args.reward_bump != CANONICAL_SALT {
            Err(CallError::DerivationMismatch)
        } else if ctx.distributor_account != distributor_addr {
            Err(CallError::DerivationMismatch)
        } else if ctx.grant_mint != grant_mint_addr {
            Err(CallError::DerivationMismatch)
        } else if ctx.reward_vault != vault_addr {
            Err(CallError::DerivationMismatch)
        } else if pre.distributors.dom().contains(distributor_addr) {
            Err(CallError::Ledger(LedgerError::AccountAlreadyExists))
        } else if pre.mints.dom().contains(grant_mint_addr) {
            Err(CallError::Ledger(LedgerError::AccountAlreadyExists))
        } else if pre.accounts.dom().contains(vault_addr) {
            Err(CallError::Ledger(LedgerError::AccountAlreadyExists))
        } else {
            Ok(LedgerSnap {
                mints: pre.mints.insert(grant_mint_addr, TokenType {
                    mint_authority: distributor_addr,
                    freeze_authority: Some(Address::Key { id: ctx.freeze_authority }),
                    decimals: dm.decimals,
                    supply: 0,
                }),
                accounts: pre.accounts.insert(vault_addr, TokenAccount {
                    token: reward_mint_addr,
                    owner: distributor_addr,
                    balance: 0,
                }),
                distributors: pre.distributors.insert(distributor_addr, DistributorAccount {
                    dist_mint: ctx.dist_mint,
                    args,
                }),
            })
        }
    }
}

/// The transition of `initialize_grant`: inside the distribution window,
/// create the recipient's empty grant account, owned by the distributor's
/// derived address.  One pair has one grant address, so a second creation
/// for the same pair fails on the duplicate address whatever the caller
/// presents.
pub open spec fn spec_initialize_grant(
    pre: LedgerSnap,
    ctx: InitializeGrant,
    bump: u8,
    now: i64,
) -> Result<LedgerSnap, CallError> {
    if !pre.distributors.dom().contains(ctx.distributor_account) {
        Err(CallError::Ledger(LedgerError::AccountNotFound))
    } else {
        let rec = pre.distributors[ctx.distributor_account];
        if ctx.distributor_account != distributor_address(rec) {
            Err(CallError::DerivationMismatch)
        } else if now >= rec.args.dist_end_ts {
            Err(CallError::Program(ErrorCode::DistributionPeriodEnded))
        } else if ctx.grant_mint != grant_mint_address(rec) {
            Err(CallError::DerivationMismatch)
        } else if !pre.mints.dom().contains(ctx.grant_mint) {
            Err(CallError::Ledger(LedgerError::MintNotFound))
        } else if bump != CANONICAL_SALT {
            Err(CallError::DerivationMismatch)
        } else if ctx.grant_account != grant_account_address(rec, ctx.receiver_authority) {
            Err(CallError::DerivationMismatch)
        } else if pre.accounts.dom().contains(ctx.grant_account) {
            Err(CallError::Ledger(LedgerError::AccountAlreadyExists))
        } else {
            Ok(LedgerSnap {
                accounts: pre.accounts.insert(ctx.grant_account, TokenAccount {
                    token: ctx.grant_mint,
                    owner: ctx.distributor_account,
                    balance: 0,
                }),
                ..pre
            })
        }
    }
}

/// The transition of `transfer_grant`: inside the distribution window, burn
/// `amount` distributable units from the donor's account under the donor's
/// keyed signature, and mint the same `amount` of grant units into the
/// recipient's grant account under the distributor's derived authority.
/// Both legs succeed or neither does.
pub open spec fn spec_transfer_grant(
    pre: LedgerSnap,
    ctx: TransferGrant,
    amount: u64,
    bump: u8,
    now: i64,
) -> Result<LedgerSnap, CallError> {
    if !pre.distributors.dom().contains(ctx.distributor_account) {
        Err(CallError::Ledger(LedgerError::AccountNotFound))
    } else {
        let rec = pre.distributors[ctx.distributor_account];
        if ctx.distributor_account != distributor_address(rec) {
            Err(CallError::DerivationMismatch)
        } else if now >= rec.args.dist_end_ts {
            Err(CallError::Program(ErrorCode::DistributionPeriodEnded))
        } else if ctx.dist_mint != rec.dist_mint {
            Err(CallError::DerivationMismatch)
        } else if ctx.grant_mint != grant_mint_address(rec) {
            Err(CallError::DerivationMismatch)
        } else if bump != CANONICAL_SALT {
            Err(CallError::DerivationMismatch)
        } else if ctx.grant_account != grant_account_address(rec, ctx.receiver_authority) {
            Err(CallError::DerivationMismatch)
        } else {
            match spec_burn(pre, Address::Key { id: rec.dist_mint }, ctx.dist_token, Address::Key { id: ctx.donor_authority }, amount) {
                Err(e) => Err(CallError::Ledger(e)),
                Ok(mid) => match spec_mint_to(mid, ctx.grant_mint, ctx.grant_account, ctx.distributor_account, amount) {
                    Err(e) => Err(CallError::Ledger(e)),
                    Ok(post) => Ok(post),
                },
            }
        }
    }
}

/// The transition of `redeem_grant`: at or after the redemption start, burn
/// the recipient's entire grant balance under the distributor's derived
/// authority and transfer the same amount of reward units from the vault to
/// a destination owned by the redeeming recipient.  All-or-nothing.
pub open spec fn spec_redeem_grant(
    pre: LedgerSnap,
    ctx: RedeemGrant,
    bump: u8,
    now: i64,
) -> Result<LedgerSnap, CallError> {
    if !pre.distributors.dom().contains(ctx.distributor_account) {
        Err(CallError::Ledger(LedgerError::AccountNotFound))
    } else {
        let rec = pre.distributors[ctx.distributor_account];
        if ctx.distributor_account != distributor_address(rec) {
            Err(CallError::DerivationMismatch)
        } else if now < rec.args.redeem_start_ts {
            Err(CallError::Program(ErrorCode::RedeemPeriodNotStarted))
        } else if ctx.grant_mint != grant_mint_address(rec) {
            Err(CallError::DerivationMismatch)
        } else if bump != CANONICAL_SALT {
            Err(CallError::DerivationMismatch)
        } else if ctx.grant_account != grant_account_address(rec, ctx.receiver_authority) {
            Err(CallError::DerivationMismatch)
        } else if ctx.reward_vault != reward_vault_address(rec, ctx.reward_mint) {
            Err(CallError::DerivationMismatch)
        } else if !pre.accounts.dom().contains(ctx.receiver_token_account) {
            Err(CallError::Ledger(LedgerError::AccountNotFound))
        } else if pre.accounts[ctx.receiver_token_account].owner != (Address::Key { id: ctx.receiver_authority }) {
            Err(CallError::OwnerMismatch)
        } else if !pre.accounts.dom().contains(ctx.grant_account) {
            Err(CallError::Ledger(LedgerError::AccountNotFound))
        } else {
            let g = pre.accounts[ctx.grant_account].balance;
            match spec_burn(pre, ctx.grant_mint, ctx.grant_account, ctx.distributor_account, g) {
                Err(e) => Err(CallError::Ledger(e)),
                Ok(mid) => match spec_transfer(mid, ctx.reward_vault, ctx.receiver_token_account, ctx.distributor_account, g) {
                    Err(e) => Err(CallError::Ledger(e)),
                    Ok(post) => Ok(post),
                },
            }
        }
    }
}

/// One budget entry: derive the recipient's associated account, create it if
/// absent, and mint the allocation to it under the transient authority; then
/// the remaining entries.
pub open spec fn spec_budget_loop(
    pre: LedgerSnap,
    accounts: Seq<Address>,
    allocations: Seq<u64>,
    dist_mint: u64,
    pda: Address,
) -> Result<LedgerSnap, CallError>
    decreases allocations.len(),
{
    if allocations.len() == 0 {
        Ok(pre)
    } else {
        let assoc = accounts[0];
        let auth = accounts[1];
        match auth {
            Address::Key { id } => {
                if assoc != (Address::Associated { owner: id, token: dist_mint }) {
                    Err(CallError::DerivationMismatch)
                } else {
                    let mid = if !pre.accounts.dom().contains(assoc) {
                        LedgerSnap {
                            accounts: pre.accounts.insert(assoc, TokenAccount {
                                token: Address::Key { id: dist_mint },
                                owner: auth,
                                balance: 0,
                            }),
                            ..pre
                        }
                    } else {
                        pre
                    };
                    match spec_mint_to(mid, Address::Key { id: dist_mint }, assoc, pda, allocations[0]) {
                        Err(e) => Err(CallError::Ledger(e)),
                        Ok(next) => spec_budget_loop(next, accounts.skip(2), allocations.skip(1), dist_mint, pda),
                    }
                }
            },
            _ => Err(CallError::DerivationMismatch),
        }
    }
}

/// The transition of `initialize_budget`: check the account count, validate
/// the transient authority's derivation and the two salt witnesses, create
/// the distributable-token type with that authority, then process the
/// allocations in order.
pub open spec fn spec_initialize_budget(
    pre: LedgerSnap,
    ctx: InitializeBudget,
    args: BudgetArgs,
) -> Result<LedgerSnap, CallError> {
    let pda = Address::AllocationAuthority { session: ctx.temporary_pda_seed };
    let dist_mint_addr = Address::Key { id: ctx.dist_mint };
    let reward_mint_addr = Address::Key { id: ctx.reward_mint };
    if ctx.remaining_accounts@.len() != args.allocations@.len() * 2 {
        Err(CallError::Program(ErrorCode::InvalidNumberOfAccounts))
    } else if args.temporary_pda_bump != CANONICAL_SALT || ctx.temporary_pda != pda {
        Err(CallError::DerivationMismatch)
    } else if args.dist_mint_bump != CANONICAL_SALT {
        Err(CallError::DerivationMismatch)
    } else if !pre.mints.dom().contains(reward_mint_addr) {
        Err(CallError::Ledger(LedgerError::MintNotFound))
    } else if pre.mints.dom().contains(dist_mint_addr) {
        Err(CallError::Ledger(LedgerError::AccountAlreadyExists))
    } else {
        let seeded = LedgerSnap {
            mints: pre.mints.insert(dist_mint_addr, TokenType {
                mint_authority: ctx.temporary_pda,
                freeze_authority: Some(Address::Key { id: ctx.freeze_authority }),
                decimals: pre.mints[reward_mint_addr].decimals,
                supply: 0,
            }),
            ..pre
        };
        spec_budget_loop(seeded, ctx.remaining_accounts@, args.allocations@, ctx.dist_mint, ctx.temporary_pda)
    }
}

/// Create a distribution campaign: its record, its grant-token type, and its
/// empty reward vault, each at its derived address.
pub fn initialize_distributor(ledger: &mut Ledger, ctx: &InitializeDistributor, args: DistributorArgs) -> (r: Result<(), CallError>)
    requires
        old(ledger).wf(),
    ensures
        final(ledger).wf(),
        match spec_initialize_distributor(old(ledger)@, *ctx, args) {
            Ok(post) => r is Ok && final(ledger)@ == post,
            Err(e) => r == Err::<(), CallError>(e) && final(ledger)@ == old(ledger)@,
        },
{
    let dist_mint_addr = Address::Key { id: ctx.dist_mint };
    let reward_mint_addr = Address::Key { id: ctx.reward_mint };
    let distributor_addr = Address::Distributor { dist_mint: ctx.dist_mint };
    let grant_mint_addr = Address::GrantMint { dist_mint: ctx.dist_mint };
    let vault_addr = Address::RewardVault { dist_mint: ctx.dist_mint, reward_mint: ctx.reward_mint };
    let dm = match ledger.read_mint(dist_mint_addr) {
        Some(m) => m,
        None => { return Err(CallError::Ledger(LedgerError::MintNotFound)); },
    };
    let rm = match ledger.read_mint(reward_mint_addr) {
        Some(m) => m,
        None => { return Err(CallError::Ledger(LedgerError::MintNotFound)); },
    };
    if dm.decimals != rm.decimals {
        return Err(CallError::DecimalMismatch);
    }
    let freeze_ok = match dm.freeze_authority {
        Some(f) => f == (Address::Key { id: ctx.freeze_authority }),
        None => false,
    };
    if !freeze_ok {
        return Err(CallError::FreezeAuthorityMismatch);
    }
    if args.distributor_bump != CANONICAL_SALT
        || args.grant_bump != CANONICAL_SALT
        || args.reward_bump != CANONICAL_SALT {
        return Err(CallError::DerivationMismatch);
    }
    if ctx.distributor_account != distributor_addr {
        return Err(CallError::DerivationMismatch);
    }
    if ctx.grant_mint != grant_mint_addr {
        return Err(CallError::DerivationMismatch);
    }
    if ctx.reward_vault != vault_addr {
        return Err(CallError::DerivationMismatch);
    }
    if ledger.read_distributor(distributor_addr).is_some() {
        return Err(CallError::Ledger(LedgerError::AccountAlreadyExists));
    }
    if ledger.read_mint(grant_mint_addr).is_some() {
        return Err(CallError::Ledger(LedgerError::AccountAlreadyExists));
    }
    if ledger.read_account(vault_addr).is_some() {
        return Err(CallError::Ledger(LedgerError::AccountAlreadyExists));
    }
    ledger.put_distributor(distributor_addr, DistributorAccount { dist_mint: ctx.dist_mint, args });
    ledger.put_mint(grant_mint_addr, TokenType {
        mint_authority: distributor_addr,
        freeze_authority: Some(Address::Key { id: ctx.freeze_authority }),
        decimals: dm.decimals,
        supply: 0,
    });
    ledger.put_account(vault_addr, TokenAccount {
        token: reward_mint_addr,
        owner: distributor_addr,
        balance: 0,
    });
    proof {
        assert(ledger@ =~= spec_initialize_distributor(old(ledger)@, *ctx, args)->Ok_0);
    }
    Ok(())
}

/// Create a recipient's empty grant account inside the distribution window.
pub fn initialize_grant(ledger: &mut Ledger, ctx: &InitializeGrant, bump: u8, now: i64) -> (r: Result<(), CallError>)
    requires
        old(ledger).wf(),
    ensures
        final(ledger).wf(),
        match spec_initialize_grant(old(ledger)@, *ctx, bump, now) {
            Ok(post) => r is Ok && final(ledger)@ == post,
            Err(e) => r == Err::<(), CallError>(e) && final(ledger)@ == old(ledger)@,
        },
{
    let rec = match ledger.read_distributor(ctx.distributor_account) {
        Some(d) => d,
        None => { return Err(CallError::Ledger(LedgerError::AccountNotFound)); },
    };
    if ctx.distributor_account != (Address::Distributor { dist_mint: rec.dist_mint }) {
        return Err(CallError::DerivationMismatch);
    }
    if now >= rec.args.dist_end_ts {
        return Err(CallError::Program(ErrorCode::DistributionPeriodEnded));
    }
    if ctx.grant_mint != (Address::GrantMint { dist_mint: rec.dist_mint }) {
        return Err(CallError::DerivationMismatch);
    }
    if ledger.read_mint(ctx.grant_mint).is_none() {
        return Err(CallError::Ledger(LedgerError::MintNotFound));
    }
    if bump != CANONICAL_SALT {
        return Err(CallError::DerivationMismatch);
    }
    if ctx.grant_account != (Address::GrantAccount { dist_mint: rec.dist_mint, recipient: ctx.receiver_authority }) {
        return Err(CallError::DerivationMismatch);
    }
    if ledger.read_account(ctx.grant_account).is_some() {
        return Err(CallError::Ledger(LedgerError::AccountAlreadyExists));
    }
    ledger.put_account(ctx.grant_account, TokenAccount {
        token: ctx.grant_mint,
        owner: ctx.distributor_account,
        balance: 0,
    });
    proof {
        assert(ledger@ =~= spec_initialize_grant(old(ledger)@, *ctx, bump, now)->Ok_0);
    }
    Ok(())
}

/// Convert `amount` distributable units into `amount` grant units for the
/// recipient, inside the distribution window.
pub fn transfer_grant(ledger: &mut Ledger, ctx: &TransferGrant, amount: u64, bump: u8, now: i64) -> (r: Result<(), CallError>)
    requires
        old(ledger).wf(),
    ensures
        final(ledger).wf(),
        match spec_transfer_grant(old(ledger)@, *ctx, amount, bump, now) {
            Ok(post) => r is Ok && final(ledger)@ == post,
            Err(e) => r == Err::<(), CallError>(e) && final(ledger)@ == old(ledger)@,
        },
{
    let rec = match ledger.read_distributor(ctx.distributor_account) {
        Some(d) => d,
        None => { return Err(CallError::Ledger(LedgerError::AccountNotFound)); },
    };
    if ctx.distributor_account != (Address::Distributor { dist_mint: rec.dist_mint }) {
        return Err(CallError::DerivationMismatch);
    }
    if now >= rec.args.dist_end_ts {
        return Err(CallError::Program(ErrorCode::DistributionPeriodEnded));
    }
    if ctx.dist_mint != rec.dist_mint {
        return Err(CallError::DerivationMismatch);
    }
    if ctx.grant_mint != (Address::GrantMint { dist_mint: rec.dist_mint }) {
        return Err(CallError::DerivationMismatch);
    }
    if bump != CANONICAL_SALT {
        return Err(CallError::DerivationMismatch);
    }
    if ctx.grant_account != (Address::GrantAccount { dist_mint: rec.dist_mint, recipient: ctx.receiver_authority }) {
        return Err(CallError::DerivationMismatch);
    }
    let mut scratch = ledger.snapshot();
    match scratch.burn_signed(Address::Key { id: rec.dist_mint }, ctx.dist_token, Address::Key { id: ctx.donor_authority }, amount) {
        Ok(()) => {},
        Err(e) => { return Err(CallError::Ledger(e)); },
    }
    match scratch.mint_signed(ctx.grant_mint, ctx.grant_account, ctx.distributor_account, amount) {
        Ok(()) => {},
        Err(e) => { return Err(CallError::Ledger(e)); },
    }
    *ledger = scratch;
    Ok(())
}

/// Redeem the recipient's entire grant balance for the same amount of reward
/// units, at or after the redemption start.
pub fn redeem_grant(ledger: &mut Ledger, ctx: &RedeemGrant, bump: u8, now: i64) -> (r: Result<(), CallError>)
    requires
        old(ledger).wf(),
    ensures
        final(ledger).wf(),
        match spec_redeem_grant(old(ledger)@, *ctx, bump, now) {
            Ok(post) => r is Ok && final(ledger)@ == post,
            Err(e) => r == Err::<(), CallError>(e) && final(ledger)@ == old(ledger)@,
        },
{
    let rec = match ledger.read_distributor(ctx.distributor_account) {
        Some(d) => d,
        None => { return Err(CallError::Ledger(LedgerError::AccountNotFound)); },
    };
    if ctx.distributor_account != (Address::Distributor { dist_mint: rec.dist_mint }) {
        return Err(CallError::DerivationMismatch);
    }
    if now < rec.args.redeem_start_ts {
        return Err(CallError::Program(ErrorCode::RedeemPeriodNotStarted));
    }
    if ctx.grant_mint != (Address::GrantMint { dist_mint: rec.dist_mint }) {
        return Err(CallError::DerivationMismatch);
    }
    if bump != CANONICAL_SALT {
        return Err(CallError::DerivationMismatch);
    }
    if ctx.grant_account != (Address::GrantAccount { dist_mint: rec.dist_mint, recipient: ctx.receiver_authority }) {
        return Err(CallError::DerivationMismatch);
    }
    if ctx.reward_vault != (Address::RewardVault { dist_mint: rec.dist_mint, reward_mint: ctx.reward_mint }) {
        return Err(CallError::DerivationMismatch);
    }
    let dest = match ledger.read_account(ctx.receiver_token_account) {
        Some(a) => a,
        None => { return Err(CallError::Ledger(LedgerError::AccountNotFound)); },
    };
    if dest.owner != (Address::Key { id: ctx.receiver_authority }) {
        return Err(CallError::OwnerMismatch);
    }
    let g = match ledger.read_account(ctx.grant_account) {
        Some(a) => a.balance,
        None => { return Err(CallError::Ledger(LedgerError::AccountNotFound)); },
    };
    let mut scratch = ledger.snapshot();
    match scratch.burn_signed(ctx.grant_mint, ctx.grant_account, ctx.distributor_account, g) {
        Ok(()) => {},
        Err(e) => { return Err(CallError::Ledger(e)); },
    }
    match scratch.transfer_signed(ctx.reward_vault, ctx.receiver_token_account, ctx.distributor_account, g) {
        Ok(()) => {},
        Err(e) => { return Err(CallError::Ledger(e)); },
    }
    *ledger = scratch;
    Ok(())
}

/// Create the distributable-token type under a transient session authority
/// and mint each allocation to its recipient's associated account, in order.
/// Either every entry is applied or none is.
pub fn initialize_budget(ledger: &mut Ledger, ctx: &InitializeBudget, args: &BudgetArgs) -> (r: Result<(), CallError>)
    requires
        old(ledger).wf(),
    ensures
        final(ledger).wf(),
        match spec_initialize_budget(old(ledger)@, *ctx, *args) {
            Ok(post) => r is Ok && final(ledger)@ == post,
            Err(e) => r == Err::<(), CallError>(e) && final(ledger)@ == old(ledger)@,
        },
{
    let n_acc = ctx.remaining_accounts.len();
    let n_alloc = args.allocations.len();
    if n_alloc > usize::MAX / 2 || n_acc != 2 * n_alloc {
        return Err(CallError::Program(ErrorCode::InvalidNumberOfAccounts));
    }
    let pda = Address::AllocationAuthority { session: ctx.temporary_pda_seed };
    if args.temporary_pda_bump != CANONICAL_SALT || ctx.temporary_pda != pda {
        return Err(CallError::DerivationMismatch);
    }
    if args.dist_mint_bump != CANONICAL_SALT {
        return Err(CallError::DerivationMismatch);
    }
    let rm = match ledger.read_mint(Address::Key { id: ctx.reward_mint }) {
        Some(m) => m,
        None => { return Err(CallError::Ledger(LedgerError::MintNotFound)); },
    };
    let dist_mint_addr = Address::Key { id: ctx.dist_mint };
    if ledger.read_mint(dist_mint_addr).is_some() {
        return Err(CallError::Ledger(LedgerError::AccountAlreadyExists));
    }
    let mut scratch = ledger.snapshot();
    scratch.put_mint(dist_mint_addr, TokenType {
        mint_authority: ctx.temporary_pda,
        freeze_authority: Some(Address::Key { id: ctx.freeze_authority }),
        decimals: rm.decimals,
        supply: 0,
    });
    let ghost seeded = scratch@;
    proof {
        assert(ctx.remaining_accounts@.skip(0) =~= ctx.remaining_accounts@);
        assert(args.allocations@.skip(0) =~= args.allocations@);
        assert(spec_initialize_budget(old(ledger)@, *ctx, *args)
            == spec_budget_loop(seeded, ctx.remaining_accounts@, args.allocations@, ctx.dist_mint, ctx.temporary_pda));
    }
    let mut i: usize = 0;
    while i < n_alloc
        invariant
            scratch.wf(),
            ledger.wf(),
            ledger@ == old(ledger)@,
            n_alloc == args.allocations@.len(),
            n_acc == ctx.remaining_accounts@.len(),
            n_acc == 2 * n_alloc,
            n_alloc <= usize::MAX / 2,
            0 <= i <= n_alloc,
            dist_mint_addr == (Address::Key { id: ctx.dist_mint }),
            spec_initialize_budget(old(ledger)@, *ctx, *args)
                == spec_budget_loop(scratch@, ctx.remaining_accounts@.skip(2 * i as int), args.allocations@.skip(i as int), ctx.dist_mint, ctx.temporary_pda),
        decreases n_alloc - i,
    {
        let assoc = ctx.remaining_accounts[2 * i];
        let auth = ctx.remaining_accounts[2 * i + 1];
        proof {
            assert(ctx.remaining_accounts@.skip(2 * i as int)[0] == assoc);
            assert(ctx.remaining_accounts@.skip(2 * i as int)[1] == auth);
            assert(args.allocations@.skip(i as int)[0] == args.allocations@[i as int]);
        }
        let auth_id = match auth {
            Address::Key { id } => id,
            _ => { return Err(CallError::DerivationMismatch); },
        };
        if assoc != (Address::Associated { owner: auth_id, token: ctx.dist_mint }) {
            return Err(CallError::DerivationMismatch);
        }
        if ledger_has_no_account(&scratch, assoc) {
            scratch.put_account(assoc, TokenAccount {
                token: dist_mint_addr,
                owner: auth,
                balance: 0,
            });
        }
        match scratch.mint_signed(dist_mint_addr, assoc, ctx.temporary_pda, args.allocations[i]) {
            Ok(()) => {},
            Err(e) => { return Err(CallError::Ledger(e)); },
        }
        proof {
            assert(ctx.remaining_accounts@.skip(2 * i as int).skip(2)
                =~= ctx.remaining_accounts@.skip(2 * (i + 1) as int));
            assert(args.allocations@.skip(i as int).skip(1)
                =~= args.allocations@.skip((i + 1) as int));
        }
        i += 1;
    }
    *ledger = scratch;
    Ok(())
}

/// Whether no token account exists at `addr`.
fn ledger_has_no_account(ledger: &Ledger, addr: Address) -> (r: bool)
    requires
        ledger.wf(),
    ensures
        r == !ledger@.accounts.dom().contains(addr),
{
    ledger.read_account(addr).is_none()
}

} // verus!
