use vstd::prelude::*;

verus! {

/// The protocol's own rejection reasons.
#[derive(Clone, Copy, PartialEq, Eq, Structural, Debug)]
pub enum ErrorCode {
    /// The budget step's flat account list does not hold exactly two entries
    /// per allocation.
    InvalidNumberOfAccounts,
    /// A distribution-window call was submitted at or after the
    /// distribution-end timestamp.
    DistributionPeriodEnded,
    /// A redemption call was submitted before the redemption-start timestamp.
    RedeemPeriodNotStarted,
}

/// Failures surfaced by the modeled token ledger's primitives.
#[derive(Clone, Copy, PartialEq, Eq, Structural, Debug)]
pub enum LedgerError {
    /// An account was to be created at an address that is already in use.
    AccountAlreadyExists,
    /// A token type was named that does not exist.
    MintNotFound,
    /// A token account was named that does not exist.
    AccountNotFound,
    /// The presented authority cannot sign for the account or token type.
    AuthorityMismatch,
    /// A token account holds a different token type than the operation names.
    TokenMismatch,
    /// The source account's balance is smaller than the amount.
    InsufficientFunds,
    /// A balance or supply would leave the representable range.
    ArithmeticOverflow,
}

/// Everything a protocol call can reject with: the protocol's own codes, the
/// validation layer's constraint failures, and ledger failures propagated
/// verbatim.
#[derive(Clone, Copy, PartialEq, Eq, Structural, Debug)]
pub enum CallError {
    /// One of the protocol's own rejection reasons.
    Program(ErrorCode),
    /// A presented address does not equal its expected derivation, or a
    /// presented identity does not match the recorded one.
    DerivationMismatch,
    /// The two token legs of a distributor differ in decimal precision.
    DecimalMismatch,
    /// The distributable token's freeze authority is not the designated co-signer.
    FreezeAuthorityMismatch,
    /// The redemption destination is not owned by the redeeming recipient.
    OwnerMismatch,
    /// A ledger primitive failed; the failure is propagated verbatim.
    Ledger(LedgerError),
}

} // verus!
