use vstd::prelude::*;
use crate::addr::{Address, CANONICAL_SALT};
use crate::errors::{CallError, ErrorCode};
use crate::ledger::LedgerSnap;
use crate::protocol::{
    grant_account_address, grant_mint_address, spec_initialize_budget, spec_initialize_distributor,
    spec_initialize_grant, spec_redeem_grant, spec_transfer_grant, InitializeBudget,
    InitializeDistributor, InitializeGrant, RedeemGrant, TransferGrant,
};
use crate::records::{BudgetArgs, DistributorArgs};

verus! {

/// The supply of a token type, or zero where none exists.
pub open spec fn spec_supply(s: LedgerSnap, token: Address) -> int {
    if s.mints.dom().contains(token) {
        s.mints[token].supply as int
    } else {
        0
    }
}

/// The balance of a token account, or zero where none exists.
pub open spec fn spec_balance(s: LedgerSnap, account: Address) -> int {
    if s.accounts.dom().contains(account) {
        s.accounts[account].balance as int
    } else {
        0
    }
}

/// One protocol call together with its arguments and, where the call is
/// clock-gated, the timestamp it was submitted at.
pub enum ProtocolCall {
    Budget { ctx: InitializeBudget, args: BudgetArgs },
    Distributor { ctx: InitializeDistributor, args: DistributorArgs },
    Grant { ctx: InitializeGrant, bump: u8, now: i64 },
    Transfer { ctx: TransferGrant, amount: u64, bump: u8, now: i64 },
    Redeem { ctx: RedeemGrant, bump: u8, now: i64 },
}

/// The outcome of one protocol call on a ledger state.
pub open spec fn spec_call(pre: LedgerSnap, c: ProtocolCall) -> Result<LedgerSnap, CallError> {
    match c {
        ProtocolCall::Budget { ctx, args } => spec_initialize_budget(pre, ctx, args),
        ProtocolCall::Distributor { ctx, args } => spec_initialize_distributor(pre, ctx, args),
        ProtocolCall::Grant { ctx, bump, now } => spec_initialize_grant(pre, ctx, bump, now),
        ProtocolCall::Transfer { ctx, amount, bump, now } => spec_transfer_grant(pre, ctx, amount, bump, now),
        ProtocolCall::Redeem { ctx, bump, now } => spec_redeem_grant(pre, ctx, bump, now),
    }
}

/// The state after one call: a rejected call has no effect.
pub open spec fn spec_next(pre: LedgerSnap, c: ProtocolCall) -> LedgerSnap {
    match spec_call(pre, c) {
        Ok(post) => post,
        Err(_) => pre,
    }
}

/// Grant units actually added to the call's grant-token supply, counted only
/// for `transfer_grant` calls.
pub open spec fn grant_minted_by(pre: LedgerSnap, c: ProtocolCall) -> int {
    match c {
        ProtocolCall::Transfer { ctx, amount, bump, now } => {
            if pre.distributors.dom().contains(ctx.distributor_account) {
                let gm = grant_mint_address(pre.distributors[ctx.distributor_account]);
                spec_supply(spec_next(pre, c), gm) - spec_supply(pre, gm)
            } else {
                0
            }
        },
        _ => 0,
    }
}

/// Distributable units actually removed from the call's distributable
/// supply, counted only for `transfer_grant` calls.
pub open spec fn dist_burned_by(pre: LedgerSnap, c: ProtocolCall) -> int {
    match c {
        ProtocolCall::Transfer { ctx, amount, bump, now } => {
            if pre.distributors.dom().contains(ctx.distributor_account) {
                let dm = Address::Key { id: pre.distributors[ctx.distributor_account].dist_mint };
                spec_supply(pre, dm) - spec_supply(spec_next(pre, c), dm)
            } else {
                0
            }
        },
        _ => 0,
    }
}

/// Total grant units minted through the transfer-grant path along a call
/// sequence.
pub open spec fn total_grant_minted(pre: LedgerSnap, cs: Seq<ProtocolCall>) -> int
    decreases cs.len(),
{
    if cs.len() == 0 {
        0
    } else {
        grant_minted_by(pre, cs[0]) + total_grant_minted(spec_next(pre, cs[0]), cs.skip(1))
    }
}

/// Total distributable units burned through the transfer-grant path along a
/// call sequence.
pub open spec fn total_dist_burned(pre: LedgerSnap, cs: Seq<ProtocolCall>) -> int
    decreases cs.len(),
{
    if cs.len() == 0 {
        0
    } else {
        dist_burned_by(pre, cs[0]) + total_dist_burned(spec_next(pre, cs[0]), cs.skip(1))
    }
}

/// Conservation of one transfer-grant call: a successful call removes
/// exactly `amount` from the distributable supply and the donor's account,
/// and adds exactly `amount` to the grant supply and the recipient's grant
/// account.  The two legs never diverge.
pub proof fn lemma_transfer_grant_conservation(pre: LedgerSnap, ctx: TransferGrant, amount: u64, bump: u8, now: i64)
    requires
        spec_transfer_grant(pre, ctx, amount, bump, now) is Ok,
    ensures
        ({
            let post = spec_transfer_grant(pre, ctx, amount, bump, now)->Ok_0;
            let rec = pre.distributors[ctx.distributor_account];
            let dm = Address::Key { id: rec.dist_mint };
            let gm = grant_mint_address(rec);
            &&& pre.distributors.dom().contains(ctx.distributor_account)
            &&& spec_supply(post, dm) == spec_supply(pre, dm) - amount
            &&& spec_supply(post, gm) == spec_supply(pre, gm) + amount
            &&& spec_balance(post, ctx.dist_token) == spec_balance(pre, ctx.dist_token) - amount
            &&& spec_balance(post, ctx.grant_account) == spec_balance(pre, ctx.grant_account) + amount
        }),
{
    if ctx.dist_token == ctx.grant_account {
        assert(false);
    }
}

/// Conservation over every call sequence: along any sequence of protocol
/// calls, however interleaved and whether or not each succeeds, the grant
/// units minted through transfer-grant equal the distributable units burned
/// through transfer-grant.
pub proof fn theorem_transfer_conservation(pre: LedgerSnap, cs: Seq<ProtocolCall>)
    ensures
        total_grant_minted(pre, cs) == total_dist_burned(pre, cs),
    decreases cs.len(),
{
    if cs.len() > 0 {
        let c = cs[0];
        match c {
            ProtocolCall::Transfer { ctx, amount, bump, now } => {
                if spec_call(pre, c) is Ok {
                    lemma_transfer_grant_conservation(pre, ctx, amount, bump, now);
                }
            },
            _ => {},
        }
        theorem_transfer_conservation(spec_next(pre, c), cs.skip(1));
    }
}

/// Redemption conservation: a successful redemption burns the recipient's
/// entire grant balance, zeroes the grant account, and moves exactly that
/// amount from the reward vault to a destination owned by the redeeming
/// recipient.
pub proof fn lemma_redeem_conservation(pre: LedgerSnap, ctx: RedeemGrant, bump: u8, now: i64)
    requires
        spec_redeem_grant(pre, ctx, bump, now) is Ok,
    ensures
        ({
            let post = spec_redeem_grant(pre, ctx, bump, now)->Ok_0;
            let rec = pre.distributors[ctx.distributor_account];
            let g = spec_balance(pre, ctx.grant_account);
            &&& spec_balance(post, ctx.grant_account) == 0
            &&& spec_supply(post, grant_mint_address(rec)) == spec_supply(pre, grant_mint_address(rec)) - g
            &&& spec_balance(post, ctx.reward_vault) == spec_balance(pre, ctx.reward_vault) - g
            &&& spec_balance(post, ctx.receiver_token_account) == spec_balance(pre, ctx.receiver_token_account) + g
            &&& post.accounts[ctx.receiver_token_account].owner == (Address::Key { id: ctx.receiver_authority })
        }),
{
    if ctx.grant_account == ctx.reward_vault {
        assert(false);
    }
    if ctx.grant_account == ctx.receiver_token_account {
        assert(false);
    }
    if ctx.reward_vault == ctx.receiver_token_account {
        assert(false);
    }
}

/// Time-gating of the distribution window: with the distributor record in
/// place, a transfer-grant call at or after `dist_end_ts` is rejected with
/// `DistributionPeriodEnded`; by the call's contract the rejection leaves
/// every balance unchanged.
pub proof fn lemma_transfer_grant_time_gate(pre: LedgerSnap, ctx: TransferGrant, amount: u64, bump: u8, now: i64)
    requires
        pre.distributors.dom().contains(ctx.distributor_account),
        ctx.distributor_account == crate::protocol::distributor_address(pre.distributors[ctx.distributor_account]),
        now >= pre.distributors[ctx.distributor_account].args.dist_end_ts,
    ensures
        spec_transfer_grant(pre, ctx, amount, bump, now)
            == Err::<LedgerSnap, CallError>(CallError::Program(ErrorCode::DistributionPeriodEnded)),
{
}

/// Time-gating of the redemption window: with the distributor record in
/// place, a redemption call before `redeem_start_ts` is rejected with
/// `RedeemPeriodNotStarted`; by the call's contract the rejection leaves
/// every balance unchanged.
pub proof fn lemma_redeem_grant_time_gate(pre: LedgerSnap, ctx: RedeemGrant, bump: u8, now: i64)
    requires
        pre.distributors.dom().contains(ctx.distributor_account),
        ctx.distributor_account == crate::protocol::distributor_address(pre.distributors[ctx.distributor_account]),
        now < pre.distributors[ctx.distributor_account].args.redeem_start_ts,
    ensures
        spec_redeem_grant(pre, ctx, bump, now)
            == Err::<LedgerSnap, CallError>(CallError::Program(ErrorCode::RedeemPeriodNotStarted)),
{
}

/// At most one grant per (distributor, recipient) pair: the pair's grant
/// address is a pure function of the pair, so once its account exists, every
/// further `initialize_grant` for the pair fails — whatever address or salt
/// the caller presents — and by the call's contract the existing grant
/// balance is untouched.
pub proof fn lemma_single_grant_per_recipient(pre: LedgerSnap, ctx: InitializeGrant, bump: u8, now: i64)
    requires
        pre.distributors.dom().contains(ctx.distributor_account) ==> pre.accounts.dom().contains(
            grant_account_address(pre.distributors[ctx.distributor_account], ctx.receiver_authority),
        ),
    ensures
        spec_initialize_grant(pre, ctx, bump, now) is Err,
{
}

/// A distributor is created exactly once per distributable token: its
/// address is a pure function of the token's identity, so once a distributor
/// record for `ctx.dist_mint` exists, every further `initialize_distributor`
/// for that token fails — whatever salts the caller presents — and by the
/// call's contract the existing record, grant mint, vault and every balance
/// are unchanged.
pub proof fn lemma_single_distributor_per_mint(pre: LedgerSnap, ctx: InitializeDistributor, args: DistributorArgs)
    requires
        pre.distributors.dom().contains(Address::Distributor { dist_mint: ctx.dist_mint }),
    ensures
        spec_initialize_distributor(pre, ctx, args) is Err,
{
}

/// `initialize_distributor` moves no funds: every existing account keeps its
/// balance exactly.
pub proof fn lemma_initialize_distributor_preserves_balances(pre: LedgerSnap, ctx: InitializeDistributor, args: DistributorArgs, v: Address)
    requires
        pre.accounts.dom().contains(v),
    ensures
        spec_balance(spec_next(pre, ProtocolCall::Distributor { ctx, args }), v) == spec_balance(pre, v),
{
}

/// `initialize_grant` moves no funds: every existing account keeps its
/// balance exactly.
pub proof fn lemma_initialize_grant_preserves_balances(pre: LedgerSnap, ctx: InitializeGrant, bump: u8, now: i64, v: Address)
    requires
        pre.accounts.dom().contains(v),
    ensures
        spec_balance(spec_next(pre, ProtocolCall::Grant { ctx, bump, now }), v) == spec_balance(pre, v),
{
}

/// `transfer_grant` cannot move funds out of any derived-owned account (the
/// reward vault among them): its burn leg is signed by the donor's key, and
/// no key signs for a derived address.
pub proof fn lemma_transfer_grant_vault_isolation(pre: LedgerSnap, ctx: TransferGrant, amount: u64, bump: u8, now: i64, v: Address)
    requires
        pre.accounts.dom().contains(v),
        pre.accounts[v].owner.is_derived(),
    ensures
        spec_balance(spec_next(pre, ProtocolCall::Transfer { ctx, amount, bump, now }), v) >= spec_balance(pre, v),
{
}

/// The budget step only creates accounts and mints into them: no account's
/// balance ever decreases.
pub proof fn lemma_budget_preserves_balances(pre: LedgerSnap, ctx: InitializeBudget, args: BudgetArgs, v: Address)
    ensures
        spec_balance(spec_next(pre, ProtocolCall::Budget { ctx, args }), v) >= spec_balance(pre, v),
{
    let pda = Address::AllocationAuthority { session: ctx.temporary_pda_seed };
    let dist_mint_addr = Address::Key { id: ctx.dist_mint };
    let reward_mint_addr = Address::Key { id: ctx.reward_mint };
    if ctx.remaining_accounts@.len() == args.allocations@.len() * 2
        && args.temporary_pda_bump == CANONICAL_SALT
        && ctx.temporary_pda == pda
        && args.dist_mint_bump == CANONICAL_SALT
        && pre.mints.dom().contains(reward_mint_addr)
        && !pre.mints.dom().contains(dist_mint_addr) {
        let seeded = LedgerSnap {
            mints: pre.mints.insert(dist_mint_addr, crate::records::TokenType {
                mint_authority: ctx.temporary_pda,
                freeze_authority: Some(Address::Key { id: ctx.freeze_authority }),
                decimals: pre.mints[reward_mint_addr].decimals,
                supply: 0,
            }),
            ..pre
        };
        lemma_budget_loop_preserves_balances(seeded, ctx.remaining_accounts@, args.allocations@, ctx.dist_mint, ctx.temporary_pda, v);
    }
}

/// Each budget entry creates a fresh empty account or mints into an existing
/// one, so no balance decreases across the remaining entries.
proof fn lemma_budget_loop_preserves_balances(pre: LedgerSnap, accounts: Seq<Address>, allocations: Seq<u64>, dist_mint: u64, pda: Address, v: Address)
    ensures
        match crate::protocol::spec_budget_loop(pre, accounts, allocations, dist_mint, pda) {
            Ok(post) => spec_balance(post, v) >= spec_balance(pre, v),
            Err(_) => true,
        },
    decreases allocations.len(),
{
    if allocations.len() > 0 {
        let assoc = accounts[0];
        let auth = accounts[1];
        match auth {
            Address::Key { id } => {
                if assoc == (Address::Associated { owner: id, token: dist_mint }) {
                    let mid = if !pre.accounts.dom().contains(assoc) {
                        LedgerSnap {
                            accounts: pre.accounts.insert(assoc, crate::records::TokenAccount {
                                token: Address::Key { id: dist_mint },
                                owner: auth,
                                balance: 0,
                            }),
                            ..pre
                        }
                    } else {
                        pre
                    };
                    match crate::ledger::spec_mint_to(mid, Address::Key { id: dist_mint }, assoc, pda, allocations[0]) {
                        Ok(next) => {
                            lemma_budget_loop_preserves_balances(next, accounts.skip(2), allocations.skip(1), dist_mint, pda, v);
                        },
                        Err(_) => {},
                    }
                }
            },
            _ => {},
        }
    }
}

/// Authority isolation of redemption: a redemption touches exactly three
/// accounts — the recipient's grant account, its own reward vault, and a
/// destination owned by the redeeming recipient.  Any other reward vault
/// keeps at least its balance.
pub proof fn lemma_redeem_other_vaults_untouched(pre: LedgerSnap, ctx: RedeemGrant, bump: u8, now: i64, v: Address)
    requires
        pre.accounts.dom().contains(v),
        v is RewardVault,
        v != ctx.reward_vault,
    ensures
        spec_balance(spec_next(pre, ProtocolCall::Redeem { ctx, bump, now }), v) >= spec_balance(pre, v),
{
}

/// The state after a whole call sequence, each rejected call rolling back.
pub open spec fn spec_run(pre: LedgerSnap, cs: Seq<ProtocolCall>) -> LedgerSnap
    decreases cs.len(),
{
    if cs.len() == 0 {
        pre
    } else {
        spec_run(spec_next(pre, cs[0]), cs.skip(1))
    }
}

/// The budget loop never touches a reward vault: every account it creates
/// or mints into sits at an associated-account address.
proof fn lemma_budget_loop_preserves_vault(pre: LedgerSnap, accounts: Seq<Address>, allocations: Seq<u64>, dist_mint: u64, pda: Address, v: Address)
    requires
        pre.accounts.dom().contains(v),
        v is RewardVault,
    ensures
        match crate::protocol::spec_budget_loop(pre, accounts, allocations, dist_mint, pda) {
            Ok(post) => post.accounts.dom().contains(v) && post.accounts[v] == pre.accounts[v],
            Err(_) => true,
        },
    decreases allocations.len(),
{
    if allocations.len() > 0 {
        let assoc = accounts[0];
        let auth = accounts[1];
        match auth {
            Address::Key { id } => {
                if assoc == (Address::Associated { owner: id, token: dist_mint }) {
                    let mid = if !pre.accounts.dom().contains(assoc) {
                        LedgerSnap {
                            accounts: pre.accounts.insert(assoc, crate::records::TokenAccount {
                                token: Address::Key { id: dist_mint },
                                owner: auth,
                                balance: 0,
                            }),
                            ..pre
                        }
                    } else {
                        pre
                    };
                    match crate::ledger::spec_mint_to(mid, Address::Key { id: dist_mint }, assoc, pda, allocations[0]) {
                        Ok(next) => {
                            lemma_budget_loop_preserves_vault(next, accounts.skip(2), allocations.skip(1), dist_mint, pda, v);
                        },
                        Err(_) => {},
                    }
                }
            },
            _ => {},
        }
    }
}

/// No single call other than `redeem_grant` moves funds out of a reward
/// vault: its record stays in place, its owner stays the program-derived
/// authority, and its balance never decreases.
pub proof fn lemma_nonredeem_preserves_vault(pre: LedgerSnap, c: ProtocolCall, v: Address)
    requires
        pre.accounts.dom().contains(v),
        v is RewardVault,
        pre.accounts[v].owner.is_derived(),
        !(c is Redeem),
    ensures
        spec_next(pre, c).accounts.dom().contains(v),
        spec_next(pre, c).accounts[v].owner == pre.accounts[v].owner,
        spec_next(pre, c).accounts[v].balance >= pre.accounts[v].balance,
{
    match c {
        ProtocolCall::Budget { ctx, args } => {
            let pda = Address::AllocationAuthority { session: ctx.temporary_pda_seed };
            let dist_mint_addr = Address::Key { id: ctx.dist_mint };
            let reward_mint_addr = Address::Key { id: ctx.reward_mint };
            if ctx.remaining_accounts@.len() == args.allocations@.len() * 2
                && args.temporary_pda_bump == CANONICAL_SALT
                && ctx.temporary_pda == pda
                && args.dist_mint_bump == CANONICAL_SALT
                && pre.mints.dom().contains(reward_mint_addr)
                && !pre.mints.dom().contains(dist_mint_addr) {
                let seeded = LedgerSnap {
                    mints: pre.mints.insert(dist_mint_addr, crate::records::TokenType {
                        mint_authority: ctx.temporary_pda,
                        freeze_authority: Some(Address::Key { id: ctx.freeze_authority }),
                        decimals: pre.mints[reward_mint_addr].decimals,
                        supply: 0,
                    }),
                    ..pre
                };
                lemma_budget_loop_preserves_vault(seeded, ctx.remaining_accounts@, args.allocations@, ctx.dist_mint, ctx.temporary_pda, v);
            }
        },
        _ => {},
    }
}

/// Authority isolation over every call sequence: however many distributors,
/// grants, transfers and budget steps run, in whatever order, a reward
/// vault's funds never leave it as long as no redemption names it; only
/// `redeem_grant` can pay out of a vault, and `lemma_redeem_conservation`
/// shows it pays only a destination owned by the redeeming recipient.
pub proof fn theorem_vault_isolation(pre: LedgerSnap, cs: Seq<ProtocolCall>, v: Address)
    requires
        pre.accounts.dom().contains(v),
        v is RewardVault,
        pre.accounts[v].owner.is_derived(),
        forall|i: int| 0 <= i < cs.len() ==> !((#[trigger] cs[i]) is Redeem),
    ensures
        spec_run(pre, cs).accounts.dom().contains(v),
        spec_run(pre, cs).accounts[v].owner == pre.accounts[v].owner,
        spec_run(pre, cs).accounts[v].balance >= pre.accounts[v].balance,
    decreases cs.len(),
{
    if cs.len() > 0 {
        lemma_nonredeem_preserves_vault(pre, cs[0], v);
        theorem_vault_isolation(spec_next(pre, cs[0]), cs.skip(1), v);
    }
}

/// No private key signs for a derived address, so the ledger's external
/// surface — where every burn and transfer is authorized by a keyed signer —
/// can never move funds out of a derived-owned account such as the reward
/// vault.
pub proof fn lemma_keyed_signer_cannot_move_derived_funds(pre: LedgerSnap, token: Address, from: Address, to: Address, authority: u64, amount: u64)
    requires
        pre.accounts.dom().contains(from),
        pre.accounts[from].owner.is_derived(),
    ensures
        crate::ledger::spec_burn(pre, token, from, Address::Key { id: authority }, amount) is Err,
        crate::ledger::spec_transfer(pre, from, to, Address::Key { id: authority }, amount) is Err,
{
}

/// The budget count check: whenever the flat account list does not hold
/// exactly two entries per allocation, the call rejects with
/// `InvalidNumberOfAccounts`; by the call's contract the rejection performs
/// no creations and no mints.
pub proof fn lemma_budget_count_check(pre: LedgerSnap, ctx: InitializeBudget, args: BudgetArgs)
    requires
        ctx.remaining_accounts@.len() != args.allocations@.len() * 2,
    ensures
        spec_initialize_budget(pre, ctx, args)
            == Err::<LedgerSnap, CallError>(CallError::Program(ErrorCode::InvalidNumberOfAccounts)),
{
}

} // verus!
