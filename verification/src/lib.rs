//! A verified model of a time-gated token distribution protocol.
//!
//! A distributor converts a distributable token into per-recipient grant
//! claims during a distribution window, and recipients redeem grants 1:1 for
//! a reward token after a redemption date.  The crate models the host
//! ledger's fungible-token primitives (`burn`, `mint_to`, `transfer`) and
//! account storage, the program-derived address scheme that acts as a keyless
//! signing capability, and the five protocol calls; every call is verified
//! against a spec-level transition function, and the protocol's conservation,
//! time-gating and authority-isolation laws are proved in [`laws`].

pub mod addr;
pub mod errors;
pub mod records;
pub mod table;
pub mod ledger;
pub mod protocol;
pub mod laws;
