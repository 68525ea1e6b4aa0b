use vstd::prelude::*;

verus! {

/// The one salt the host's derivation search can return in this model.
///
/// On the host, deriving an address from a seed path searches salts downward
/// from this value until the result falls outside the keyed-address space.
/// Here derived paths never collide with keyed addresses — the address space
/// keeps them apart by construction — so the search always succeeds at its
/// first candidate, and that candidate is the only salt that witnesses a
/// derived address.  Every salt a caller presents is validated against it.
pub const CANONICAL_SALT: u8 = 255;

/// An account address on the host ledger.
///
/// A keyed address (`Key`) is controlled by whoever holds its private key.
/// Every other variant is a program-derived address: a pure function of a
/// fixed seed path of prior entity identities, with no private key — the
/// program alone can sign for it, by presenting the seed path and the
/// canonical salt.  One seed path yields one address: making each path its
/// own constructor models the collision-freeness of the host's derivation,
/// so two distinct paths never share an address and no keyed address equals
/// a derived one.  Paths are rooted in the distributable-token identity
/// because the distributor's own address is itself derived from it.
#[derive(Clone, Copy, PartialEq, Eq, Structural, Debug)]
pub enum Address {
    /// An ordinary keyed address, named by the key holder's identity.
    Key { id: u64 },
    /// The distributor record rooted at the distributable token `dist_mint`.
    Distributor { dist_mint: u64 },
    /// The grant-token type of the distributor rooted at `dist_mint`.
    GrantMint { dist_mint: u64 },
    /// The reward vault of the distributor rooted at `dist_mint`, holding `reward_mint`.
    RewardVault { dist_mint: u64, reward_mint: u64 },
    /// The grant account of `recipient` under the distributor rooted at `dist_mint`.
    GrantAccount { dist_mint: u64, recipient: u64 },
    /// A transient signing authority scoped to one allocation session.
    AllocationAuthority { session: u64 },
    /// The associated token account of the key holder `owner` for token type `token`.
    Associated { owner: u64, token: u64 },
}

impl Address {
    /// A derived address has no private key: only the program can sign for it.
    pub open spec fn is_derived(self) -> bool {
        !(self is Key)
    }
}

} // verus!
