use assembly::addr::{Address, CANONICAL_SALT};
use assembly::errors::{CallError, ErrorCode, LedgerError};
use assembly::ledger::Ledger;
use assembly::protocol::{
    initialize_budget, initialize_distributor, initialize_grant, redeem_grant, transfer_grant,
    InitializeBudget, InitializeDistributor, InitializeGrant, RedeemGrant, TransferGrant,
};
use assembly::records::{BudgetArgs, DistributorArgs};

// Identities used across the tests.
const DIST_MINT: u64 = 1;
const REWARD_MINT: u64 = 2;
const FREEZE: u64 = 10;
const PAYER: u64 = 11;
const DONOR: u64 = 12;
const RECIPIENT: u64 = 13;
const RECIPIENT_REWARD_ACCT: u64 = 14;
const DONOR_DIST_ACCT: u64 = 15;
const FUNDER_ACCT: u64 = 16;
const DIST_MINT_AUTH: u64 = 20;
const REWARD_MINT_AUTH: u64 = 21;
const FUNDER: u64 = 22;

const T1: i64 = 1000;
const T2: i64 = 2000;

fn distributor_addr() -> Address {
    Address::Distributor { dist_mint: DIST_MINT }
}

fn grant_mint_addr() -> Address {
    Address::GrantMint { dist_mint: DIST_MINT }
}

fn vault_addr() -> Address {
    Address::RewardVault { dist_mint: DIST_MINT, reward_mint: REWARD_MINT }
}

fn grant_acct_addr() -> Address {
    Address::GrantAccount { dist_mint: DIST_MINT, recipient: RECIPIENT }
}

fn args() -> DistributorArgs {
    DistributorArgs {
        dist_end_ts: T1,
        redeem_start_ts: T2,
        distributor_bump: CANONICAL_SALT,
        grant_bump: CANONICAL_SALT,
        reward_bump: CANONICAL_SALT,
    }
}

fn init_ctx() -> InitializeDistributor {
    InitializeDistributor {
        payer: PAYER,
        freeze_authority: FREEZE,
        dist_mint: DIST_MINT,
        reward_mint: REWARD_MINT,
        distributor_account: distributor_addr(),
        grant_mint: grant_mint_addr(),
        reward_vault: vault_addr(),
    }
}

fn grant_ctx() -> InitializeGrant {
    InitializeGrant {
        payer: PAYER,
        donor_authority: DONOR,
        receiver_authority: RECIPIENT,
        distributor_account: distributor_addr(),
        grant_mint: grant_mint_addr(),
        grant_account: grant_acct_addr(),
    }
}

fn transfer_ctx() -> TransferGrant {
    TransferGrant {
        payer: PAYER,
        donor_authority: DONOR,
        receiver_authority: RECIPIENT,
        distributor_account: distributor_addr(),
        dist_mint: DIST_MINT,
        dist_token: Address::Key { id: DONOR_DIST_ACCT },
        grant_mint: grant_mint_addr(),
        grant_account: grant_acct_addr(),
    }
}

fn redeem_ctx() -> RedeemGrant {
    RedeemGrant {
        payer: PAYER,
        receiver_authority: RECIPIENT,
        distributor_account: distributor_addr(),
        grant_mint: grant_mint_addr(),
        grant_account: grant_acct_addr(),
        reward_mint: REWARD_MINT,
        reward_vault: vault_addr(),
        receiver_token_account: Address::Key { id: RECIPIENT_REWARD_ACCT },
    }
}

/// A ledger with both token types, a funded donor account, an initialized
/// distributor and grant account, a vault funded with `vault_funding`, and
/// the recipient's reward destination.
fn setup(vault_funding: u64) -> Ledger {
    let mut l = Ledger::new();
    assert!(l.create_mint(DIST_MINT, 6, Address::Key { id: DIST_MINT_AUTH }, Some(Address::Key { id: FREEZE })).is_ok());
    assert!(l.create_mint(REWARD_MINT, 6, Address::Key { id: REWARD_MINT_AUTH }, None).is_ok());
    assert!(l.create_account(DONOR_DIST_ACCT, Address::Key { id: DIST_MINT }, Address::Key { id: DONOR }).is_ok());
    assert!(l.mint_to(Address::Key { id: DIST_MINT }, Address::Key { id: DONOR_DIST_ACCT }, DIST_MINT_AUTH, 1000).is_ok());
    assert!(initialize_distributor(&mut l, &init_ctx(), args()).is_ok());
    assert!(initialize_grant(&mut l, &grant_ctx(), CANONICAL_SALT, 500).is_ok());
    if vault_funding > 0 {
        assert!(l.create_account(FUNDER_ACCT, Address::Key { id: REWARD_MINT }, Address::Key { id: FUNDER }).is_ok());
        assert!(l.mint_to(Address::Key { id: REWARD_MINT }, Address::Key { id: FUNDER_ACCT }, REWARD_MINT_AUTH, vault_funding).is_ok());
        assert!(l.transfer(Address::Key { id: FUNDER_ACCT }, vault_addr(), FUNDER, vault_funding).is_ok());
    }
    assert!(l.create_account(RECIPIENT_REWARD_ACCT, Address::Key { id: REWARD_MINT }, Address::Key { id: RECIPIENT }).is_ok());
    l
}

#[test]
fn full_scenario_distribute_then_redeem() {
    let mut l = setup(500);
    assert_eq!(l.supply_of(Address::Key { id: DIST_MINT }), Some(1000));

    // Distribution inside the window.
    assert!(transfer_grant(&mut l, &transfer_ctx(), 100, CANONICAL_SALT, 500).is_ok());
    assert_eq!(l.balance_of(grant_acct_addr()), Some(100));
    assert_eq!(l.balance_of(Address::Key { id: DONOR_DIST_ACCT }), Some(900));
    assert_eq!(l.supply_of(Address::Key { id: DIST_MINT }), Some(900));
    assert_eq!(l.supply_of(grant_mint_addr()), Some(100));

    // At the boundary the window is closed.
    assert_eq!(
        transfer_grant(&mut l, &transfer_ctx(), 1, CANONICAL_SALT, T1),
        Err(CallError::Program(ErrorCode::DistributionPeriodEnded))
    );
    assert_eq!(l.balance_of(grant_acct_addr()), Some(100));

    // Redemption converts the whole grant balance 1:1.
    assert!(redeem_grant(&mut l, &redeem_ctx(), CANONICAL_SALT, T2).is_ok());
    assert_eq!(l.balance_of(grant_acct_addr()), Some(0));
    assert_eq!(l.balance_of(Address::Key { id: RECIPIENT_REWARD_ACCT }), Some(100));
    assert_eq!(l.balance_of(vault_addr()), Some(400));
    assert_eq!(l.supply_of(grant_mint_addr()), Some(0));
}

#[test]
fn transfer_grant_rejects_after_window() {
    let mut l = setup(0);
    assert_eq!(
        transfer_grant(&mut l, &transfer_ctx(), 100, CANONICAL_SALT, T1 + 5),
        Err(CallError::Program(ErrorCode::DistributionPeriodEnded))
    );
    assert_eq!(l.balance_of(Address::Key { id: DONOR_DIST_ACCT }), Some(1000));
    assert_eq!(l.supply_of(grant_mint_addr()), Some(0));
}

#[test]
fn redeem_grant_rejects_before_window() {
    let mut l = setup(500);
    assert!(transfer_grant(&mut l, &transfer_ctx(), 100, CANONICAL_SALT, 500).is_ok());
    assert_eq!(
        redeem_grant(&mut l, &redeem_ctx(), CANONICAL_SALT, T2 - 1),
        Err(CallError::Program(ErrorCode::RedeemPeriodNotStarted))
    );
    assert_eq!(l.balance_of(grant_acct_addr()), Some(100));
    assert_eq!(l.balance_of(vault_addr()), Some(500));
}

#[test]
fn initialize_grant_rejects_after_window() {
    let mut l = Ledger::new();
    assert!(l.create_mint(DIST_MINT, 6, Address::Key { id: DIST_MINT_AUTH }, Some(Address::Key { id: FREEZE })).is_ok());
    assert!(l.create_mint(REWARD_MINT, 6, Address::Key { id: REWARD_MINT_AUTH }, None).is_ok());
    assert!(initialize_distributor(&mut l, &init_ctx(), args()).is_ok());
    assert_eq!(
        initialize_grant(&mut l, &grant_ctx(), CANONICAL_SALT, T1),
        Err(CallError::Program(ErrorCode::DistributionPeriodEnded))
    );
}

#[test]
fn second_grant_for_same_recipient_fails() {
    let mut l = setup(0);
    assert!(transfer_grant(&mut l, &transfer_ctx(), 70, CANONICAL_SALT, 500).is_ok());
    assert_eq!(
        initialize_grant(&mut l, &grant_ctx(), CANONICAL_SALT, 600),
        Err(CallError::Ledger(LedgerError::AccountAlreadyExists))
    );
    // The grant balance from before is untouched.
    assert_eq!(l.balance_of(grant_acct_addr()), Some(70));
}

#[test]
fn second_distributor_for_same_mint_fails() {
    let mut l = setup(0);
    assert_eq!(
        initialize_distributor(&mut l, &init_ctx(), args()),
        Err(CallError::Ledger(LedgerError::AccountAlreadyExists))
    );
}

#[test]
fn initialize_distributor_rejects_decimal_mismatch() {
    let mut l = Ledger::new();
    assert!(l.create_mint(DIST_MINT, 6, Address::Key { id: DIST_MINT_AUTH }, Some(Address::Key { id: FREEZE })).is_ok());
    assert!(l.create_mint(REWARD_MINT, 9, Address::Key { id: REWARD_MINT_AUTH }, None).is_ok());
    assert_eq!(
        initialize_distributor(&mut l, &init_ctx(), args()),
        Err(CallError::DecimalMismatch)
    );
}

#[test]
fn initialize_distributor_rejects_wrong_freeze_authority() {
    let mut l = Ledger::new();
    assert!(l.create_mint(DIST_MINT, 6, Address::Key { id: DIST_MINT_AUTH }, Some(Address::Key { id: FREEZE + 1 })).is_ok());
    assert!(l.create_mint(REWARD_MINT, 6, Address::Key { id: REWARD_MINT_AUTH }, None).is_ok());
    assert_eq!(
        initialize_distributor(&mut l, &init_ctx(), args()),
        Err(CallError::FreezeAuthorityMismatch)
    );
}

#[test]
fn initialize_distributor_rejects_substituted_address() {
    let mut l = Ledger::new();
    assert!(l.create_mint(DIST_MINT, 6, Address::Key { id: DIST_MINT_AUTH }, Some(Address::Key { id: FREEZE })).is_ok());
    assert!(l.create_mint(REWARD_MINT, 6, Address::Key { id: REWARD_MINT_AUTH }, None).is_ok());
    let mut ctx = init_ctx();
    ctx.distributor_account = Address::Distributor { dist_mint: DIST_MINT + 1 };
    assert_eq!(
        initialize_distributor(&mut l, &ctx, args()),
        Err(CallError::DerivationMismatch)
    );
}

#[test]
fn initialize_distributor_rejects_noncanonical_salt() {
    let mut l = Ledger::new();
    assert!(l.create_mint(DIST_MINT, 6, Address::Key { id: DIST_MINT_AUTH }, Some(Address::Key { id: FREEZE })).is_ok());
    assert!(l.create_mint(REWARD_MINT, 6, Address::Key { id: REWARD_MINT_AUTH }, None).is_ok());
    let mut a = args();
    a.distributor_bump = CANONICAL_SALT - 1;
    assert_eq!(
        initialize_distributor(&mut l, &init_ctx(), a),
        Err(CallError::DerivationMismatch)
    );
    assert_eq!(l.distributor_of(distributor_addr()), None);
}

#[test]
fn second_distributor_with_other_salts_fails() {
    let mut l = setup(0);
    // A repeat presenting different salts is no way around uniqueness: the
    // salts are rejected as non-canonical before any address is considered.
    let mut a = args();
    a.distributor_bump = 7;
    a.grant_bump = 8;
    a.reward_bump = 9;
    assert_eq!(
        initialize_distributor(&mut l, &init_ctx(), a),
        Err(CallError::DerivationMismatch)
    );
    assert!(l.distributor_of(distributor_addr()).is_some());
}

#[test]
fn second_grant_with_other_salt_fails() {
    let mut l = setup(0);
    assert!(transfer_grant(&mut l, &transfer_ctx(), 70, CANONICAL_SALT, 500).is_ok());
    // Another salt is rejected as non-canonical ...
    assert_eq!(
        initialize_grant(&mut l, &grant_ctx(), CANONICAL_SALT - 1, 600),
        Err(CallError::DerivationMismatch)
    );
    // ... and no presented address reaches a second account for the pair.
    assert_eq!(l.balance_of(grant_acct_addr()), Some(70));
}

#[test]
fn redeem_rejects_third_party_destination() {
    let mut l = setup(500);
    assert!(transfer_grant(&mut l, &transfer_ctx(), 100, CANONICAL_SALT, 500).is_ok());
    // A destination owned by someone other than the redeeming recipient.
    assert!(l.create_account(17, Address::Key { id: REWARD_MINT }, Address::Key { id: FUNDER }).is_ok());
    let mut ctx = redeem_ctx();
    ctx.receiver_token_account = Address::Key { id: 17 };
    assert_eq!(redeem_grant(&mut l, &ctx, CANONICAL_SALT, T2), Err(CallError::OwnerMismatch));
    assert_eq!(l.balance_of(grant_acct_addr()), Some(100));
    assert_eq!(l.balance_of(vault_addr()), Some(500));
}

#[test]
fn transfer_grant_rejects_insufficient_donor_balance() {
    let mut l = setup(0);
    assert_eq!(
        transfer_grant(&mut l, &transfer_ctx(), 1001, CANONICAL_SALT, 500),
        Err(CallError::Ledger(LedgerError::InsufficientFunds))
    );
    assert_eq!(l.balance_of(Address::Key { id: DONOR_DIST_ACCT }), Some(1000));
    assert_eq!(l.supply_of(grant_mint_addr()), Some(0));
}

#[test]
fn transfer_grant_rejects_wrong_donor_authority() {
    let mut l = setup(0);
    let mut ctx = transfer_ctx();
    ctx.donor_authority = DONOR + 1;
    assert_eq!(
        transfer_grant(&mut l, &ctx, 10, CANONICAL_SALT, 500),
        Err(CallError::Ledger(LedgerError::AuthorityMismatch))
    );
    assert_eq!(l.balance_of(Address::Key { id: DONOR_DIST_ACCT }), Some(1000));
}

#[test]
fn underfunded_vault_aborts_redeem_atomically() {
    let mut l = setup(40);
    assert!(transfer_grant(&mut l, &transfer_ctx(), 100, CANONICAL_SALT, 500).is_ok());
    assert_eq!(
        redeem_grant(&mut l, &redeem_ctx(), CANONICAL_SALT, T2),
        Err(CallError::Ledger(LedgerError::InsufficientFunds))
    );
    // The burn leg was rolled back with the transfer leg.
    assert_eq!(l.balance_of(grant_acct_addr()), Some(100));
    assert_eq!(l.supply_of(grant_mint_addr()), Some(100));
    assert_eq!(l.balance_of(vault_addr()), Some(40));
}

#[test]
fn no_key_moves_funds_out_of_the_vault() {
    let mut l = setup(500);
    for thief in [PAYER, DONOR, RECIPIENT, FREEZE, FUNDER] {
        assert_eq!(
            l.transfer(vault_addr(), Address::Key { id: RECIPIENT_REWARD_ACCT }, thief, 1),
            Err(LedgerError::AuthorityMismatch)
        );
        assert_eq!(
            l.burn(Address::Key { id: REWARD_MINT }, vault_addr(), thief, 1),
            Err(LedgerError::AuthorityMismatch)
        );
    }
    assert_eq!(l.balance_of(vault_addr()), Some(500));
}

#[test]
fn no_key_mints_grant_tokens() {
    let mut l = setup(0);
    for minter in [PAYER, DONOR, RECIPIENT, DIST_MINT_AUTH] {
        assert_eq!(
            l.mint_to(grant_mint_addr(), grant_acct_addr(), minter, 1),
            Err(LedgerError::AuthorityMismatch)
        );
    }
    assert_eq!(l.supply_of(grant_mint_addr()), Some(0));
}

const SESSION: u64 = 30;
const BUDGET_MINT: u64 = 3;

fn budget_ctx(remaining: Vec<Address>) -> InitializeBudget {
    InitializeBudget {
        payer: PAYER,
        freeze_authority: FREEZE,
        dist_mint: BUDGET_MINT,
        reward_mint: REWARD_MINT,
        temporary_pda: Address::AllocationAuthority { session: SESSION },
        temporary_pda_seed: SESSION,
        remaining_accounts: remaining,
    }
}

fn budget_args(allocations: Vec<u64>) -> BudgetArgs {
    BudgetArgs { allocations, dist_mint_bump: CANONICAL_SALT, temporary_pda_bump: CANONICAL_SALT }
}

#[test]
fn budget_mints_each_allocation() {
    let mut l = Ledger::new();
    assert!(l.create_mint(REWARD_MINT, 6, Address::Key { id: REWARD_MINT_AUTH }, None).is_ok());
    let remaining = vec![
        Address::Associated { owner: 40, token: BUDGET_MINT },
        Address::Key { id: 40 },
        Address::Associated { owner: 41, token: BUDGET_MINT },
        Address::Key { id: 41 },
    ];
    assert!(initialize_budget(&mut l, &budget_ctx(remaining), &budget_args(vec![5, 7])).is_ok());
    assert_eq!(l.balance_of(Address::Associated { owner: 40, token: BUDGET_MINT }), Some(5));
    assert_eq!(l.balance_of(Address::Associated { owner: 41, token: BUDGET_MINT }), Some(7));
    assert_eq!(l.supply_of(Address::Key { id: BUDGET_MINT }), Some(12));
}

#[test]
fn budget_repeated_recipient_accumulates() {
    let mut l = Ledger::new();
    assert!(l.create_mint(REWARD_MINT, 6, Address::Key { id: REWARD_MINT_AUTH }, None).is_ok());
    let remaining = vec![
        Address::Associated { owner: 40, token: BUDGET_MINT },
        Address::Key { id: 40 },
        Address::Associated { owner: 40, token: BUDGET_MINT },
        Address::Key { id: 40 },
    ];
    assert!(initialize_budget(&mut l, &budget_ctx(remaining), &budget_args(vec![5, 7])).is_ok());
    assert_eq!(l.balance_of(Address::Associated { owner: 40, token: BUDGET_MINT }), Some(12));
}

#[test]
fn budget_rejects_count_mismatch() {
    let mut l = Ledger::new();
    assert!(l.create_mint(REWARD_MINT, 6, Address::Key { id: REWARD_MINT_AUTH }, None).is_ok());
    let remaining = vec![
        Address::Associated { owner: 40, token: BUDGET_MINT },
        Address::Key { id: 40 },
        Address::Associated { owner: 41, token: BUDGET_MINT },
    ];
    assert_eq!(
        initialize_budget(&mut l, &budget_ctx(remaining), &budget_args(vec![5, 7])),
        Err(CallError::Program(ErrorCode::InvalidNumberOfAccounts))
    );
    // No mint was performed; the distributable token was not even created.
    assert_eq!(l.supply_of(Address::Key { id: BUDGET_MINT }), None);
    assert_eq!(l.balance_of(Address::Associated { owner: 40, token: BUDGET_MINT }), None);
}

#[test]
fn budget_overflow_rolls_back_every_entry() {
    let mut l = Ledger::new();
    assert!(l.create_mint(REWARD_MINT, 6, Address::Key { id: REWARD_MINT_AUTH }, None).is_ok());
    let remaining = vec![
        Address::Associated { owner: 40, token: BUDGET_MINT },
        Address::Key { id: 40 },
        Address::Associated { owner: 41, token: BUDGET_MINT },
        Address::Key { id: 41 },
    ];
    assert_eq!(
        initialize_budget(&mut l, &budget_ctx(remaining), &budget_args(vec![u64::MAX, 1])),
        Err(CallError::Ledger(LedgerError::ArithmeticOverflow))
    );
    // The first entry's creation and mint were rolled back with the call.
    assert_eq!(l.balance_of(Address::Associated { owner: 40, token: BUDGET_MINT }), None);
    assert_eq!(l.supply_of(Address::Key { id: BUDGET_MINT }), None);
}

#[test]
fn budget_rejects_wrong_session_authority() {
    let mut l = Ledger::new();
    assert!(l.create_mint(REWARD_MINT, 6, Address::Key { id: REWARD_MINT_AUTH }, None).is_ok());
    let mut ctx = budget_ctx(vec![]);
    ctx.temporary_pda = Address::AllocationAuthority { session: SESSION + 1 };
    assert_eq!(
        initialize_budget(&mut l, &ctx, &budget_args(vec![])),
        Err(CallError::DerivationMismatch)
    );
}

#[test]
fn budget_rejects_noncanonical_salts() {
    let mut l = Ledger::new();
    assert!(l.create_mint(REWARD_MINT, 6, Address::Key { id: REWARD_MINT_AUTH }, None).is_ok());
    let mut a = budget_args(vec![]);
    a.dist_mint_bump = 3;
    assert_eq!(
        initialize_budget(&mut l, &budget_ctx(vec![]), &a),
        Err(CallError::DerivationMismatch)
    );
    let mut a = budget_args(vec![]);
    a.temporary_pda_bump = 3;
    assert_eq!(
        initialize_budget(&mut l, &budget_ctx(vec![]), &a),
        Err(CallError::DerivationMismatch)
    );
}

#[test]
fn grant_balance_can_be_topped_up_and_redeemed_again() {
    let mut l = setup(500);
    assert!(transfer_grant(&mut l, &transfer_ctx(), 60, CANONICAL_SALT, 500).is_ok());
    assert!(transfer_grant(&mut l, &transfer_ctx(), 40, CANONICAL_SALT, 600).is_ok());
    assert_eq!(l.balance_of(grant_acct_addr()), Some(100));
    assert!(redeem_grant(&mut l, &redeem_ctx(), CANONICAL_SALT, T2).is_ok());
    assert_eq!(l.balance_of(grant_acct_addr()), Some(0));
    // Redeeming again converts the (now empty) balance: a harmless no-op.
    assert!(redeem_grant(&mut l, &redeem_ctx(), CANONICAL_SALT, T2 + 1).is_ok());
    assert_eq!(l.balance_of(Address::Key { id: RECIPIENT_REWARD_ACCT }), Some(100));
    assert_eq!(l.balance_of(vault_addr()), Some(400));
}

#[test]
fn grant_mint_authority_is_the_distributor() {
    let l = setup(500);
    let gm = l.mint_of(grant_mint_addr()).unwrap();
    assert_eq!(gm.mint_authority, distributor_addr());
    assert_eq!(gm.decimals, 6);
    let vault = l.account_of(vault_addr()).unwrap();
    assert_eq!(vault.owner, distributor_addr());
    assert_eq!(vault.token, Address::Key { id: REWARD_MINT });
    let rec = l.distributor_of(distributor_addr()).unwrap();
    assert_eq!(rec.dist_mint, DIST_MINT);
    assert_eq!(rec.args, args());
}

#[test]
fn transfer_grant_rejects_substituted_grant_mint() {
    let mut l = setup(0);
    let mut ctx = transfer_ctx();
    ctx.grant_mint = Address::GrantMint { dist_mint: DIST_MINT + 1 };
    assert_eq!(
        transfer_grant(&mut l, &ctx, 10, CANONICAL_SALT, 500),
        Err(CallError::DerivationMismatch)
    );
}

#[test]
fn initialize_grant_rejects_foreign_grant_account() {
    let mut l = Ledger::new();
    assert!(l.create_mint(DIST_MINT, 6, Address::Key { id: DIST_MINT_AUTH }, Some(Address::Key { id: FREEZE })).is_ok());
    assert!(l.create_mint(REWARD_MINT, 6, Address::Key { id: REWARD_MINT_AUTH }, None).is_ok());
    assert!(initialize_distributor(&mut l, &init_ctx(), args()).is_ok());
    let mut ctx = grant_ctx();
    // An address derived for a different recipient than the stated receiver.
    ctx.grant_account = Address::GrantAccount { dist_mint: DIST_MINT, recipient: RECIPIENT + 1 };
    assert_eq!(
        initialize_grant(&mut l, &ctx, CANONICAL_SALT, 500),
        Err(CallError::DerivationMismatch)
    );
}

#[test]
fn ledger_rejects_duplicate_creation_and_unknown_token() {
    let mut l = Ledger::new();
    assert!(l.create_mint(DIST_MINT, 6, Address::Key { id: DIST_MINT_AUTH }, None).is_ok());
    assert_eq!(
        l.create_mint(DIST_MINT, 6, Address::Key { id: DIST_MINT_AUTH }, None),
        Err(LedgerError::AccountAlreadyExists)
    );
    assert_eq!(
        l.create_account(DONOR_DIST_ACCT, Address::Key { id: REWARD_MINT }, Address::Key { id: DONOR }),
        Err(LedgerError::MintNotFound)
    );
    assert!(l.create_account(DONOR_DIST_ACCT, Address::Key { id: DIST_MINT }, Address::Key { id: DONOR }).is_ok());
    assert_eq!(
        l.create_account(DONOR_DIST_ACCT, Address::Key { id: DIST_MINT }, Address::Key { id: DONOR }),
        Err(LedgerError::AccountAlreadyExists)
    );
}

#[test]
fn budget_rejects_missing_reward_mint() {
    let mut l = Ledger::new();
    assert_eq!(
        initialize_budget(&mut l, &budget_ctx(vec![]), &budget_args(vec![])),
        Err(CallError::Ledger(LedgerError::MintNotFound))
    );
}

#[test]
fn mint_overflow_is_rejected() {
    let mut l = Ledger::new();
    assert!(l.create_mint(DIST_MINT, 6, Address::Key { id: DIST_MINT_AUTH }, None).is_ok());
    assert!(l.create_account(DONOR_DIST_ACCT, Address::Key { id: DIST_MINT }, Address::Key { id: DONOR }).is_ok());
    assert!(l.mint_to(Address::Key { id: DIST_MINT }, Address::Key { id: DONOR_DIST_ACCT }, DIST_MINT_AUTH, u64::MAX).is_ok());
    assert_eq!(
        l.mint_to(Address::Key { id: DIST_MINT }, Address::Key { id: DONOR_DIST_ACCT }, DIST_MINT_AUTH, 1),
        Err(LedgerError::ArithmeticOverflow)
    );
    assert_eq!(l.supply_of(Address::Key { id: DIST_MINT }), Some(u64::MAX));
}
