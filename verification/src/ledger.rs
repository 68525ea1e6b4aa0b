use vstd::prelude::*;
use crate::addr::Address;
use crate::errors::LedgerError;
use crate::records::{DistributorAccount, TokenAccount, TokenType};
use crate::table::Table;

verus! {

/// The mathematical state of the modeled ledger: token types, token
/// accounts, and distributor records, each keyed by address.
#[verifier::ext_equal]
pub struct LedgerSnap {
    pub mints: Map<Address, TokenType>,
    pub accounts: Map<Address, TokenAccount>,
    pub distributors: Map<Address, DistributorAccount>,
}

/// The modeled host ledger.  Its public operations are the surface the
/// external world has: records can be created only at keyed addresses, and
/// burns, mints and transfers can be authorized only by a keyed signer.  The
/// protocol calls in [`crate::protocol`] additionally sign with derived
/// addresses through the crate-internal operations.
pub struct Ledger {
    mints: Table<TokenType>,
    accounts: Table<TokenAccount>,
    distributors: Table<DistributorAccount>,
}

impl View for Ledger {
    type V = LedgerSnap;

    closed spec fn view(&self) -> LedgerSnap {
        LedgerSnap {
            mints: self.mints@,
            accounts: self.accounts@,
            distributors: self.distributors@,
        }
    }
}

/// What `burn(token, from, authority, amount)` does: remove `amount` units
/// from `from` and from the token's supply, or fail without effect.
pub open spec fn spec_burn(
    pre: LedgerSnap,
    token: Address,
    from: Address,
    authority: Address,
    amount: u64,
) -> Result<LedgerSnap, LedgerError> {
    if !pre.mints.dom().contains(token) {
        Err(LedgerError::MintNotFound)
    } else if !pre.accounts.dom().contains(from) {
        Err(LedgerError::AccountNotFound)
    } else {
        let m = pre.mints[token];
        let a = pre.accounts[from];
        if a.token != token {
            Err(LedgerError::TokenMismatch)
        } else if authority != a.owner {
            Err(LedgerError::AuthorityMismatch)
        } else if a.balance < amount {
            Err(LedgerError::InsufficientFunds)
        } else if m.supply < amount {
            Err(LedgerError::ArithmeticOverflow)
        } else {
            Ok(LedgerSnap {
                mints: pre.mints.insert(token, TokenType { supply: (m.supply - amount) as u64, ..m }),
                accounts: pre.accounts.insert(from, TokenAccount { balance: (a.balance - amount) as u64, ..a }),
                ..pre
            })
        }
    }
}

/// What `mint_to(token, to, authority, amount)` does: add `amount` units to
/// `to` and to the token's supply, or fail without effect.
pub open spec fn spec_mint_to(
    pre: LedgerSnap,
    token: Address,
    to: Address,
    authority: Address,
    amount: u64,
) -> Result<LedgerSnap, LedgerError> {
    if !pre.mints.dom().contains(token) {
        Err(LedgerError::MintNotFound)
    } else if !pre.accounts.dom().contains(to) {
        Err(LedgerError::AccountNotFound)
    } else {
        let m = pre.mints[token];
        let a = pre.accounts[to];
        if a.token != token {
            Err(LedgerError::TokenMismatch)
        } else if authority != m.mint_authority {
            Err(LedgerError::AuthorityMismatch)
        } else if m.supply + amount > u64::MAX {
            Err(LedgerError::ArithmeticOverflow)
        } else if a.balance + amount > u64::MAX {
            Err(LedgerError::ArithmeticOverflow)
        } else {
            Ok(LedgerSnap {
                mints: pre.mints.insert(token, TokenType { supply: (m.supply + amount) as u64, ..m }),
                accounts: pre.accounts.insert(to, TokenAccount { balance: (a.balance + amount) as u64, ..a }),
                ..pre
            })
        }
    }
}

/// What `transfer(from, to, authority, amount)` does: move `amount` units
/// between two accounts of the same token type, or fail without effect.
/// Moving an account onto itself leaves the state unchanged.
pub open spec fn spec_transfer(
    pre: LedgerSnap,
    from: Address,
    to: Address,
    authority: Address,
    amount: u64,
) -> Result<LedgerSnap, LedgerError> {
    if !pre.accounts.dom().contains(from) {
        Err(LedgerError::AccountNotFound)
    } else if !pre.accounts.dom().contains(to) {
        Err(LedgerError::AccountNotFound)
    } else {
        let src = pre.accounts[from];
        let dst = pre.accounts[to];
        if src.token != dst.token {
            Err(LedgerError::TokenMismatch)
        } else if authority != src.owner {
            Err(LedgerError::AuthorityMismatch)
        } else if src.balance < amount {
            Err(LedgerError::InsufficientFunds)
        } else if from == to {
            Ok(pre)
        } else if dst.balance + amount > u64::MAX {
            Err(LedgerError::ArithmeticOverflow)
        } else {
            Ok(LedgerSnap {
                accounts: pre.accounts
                    .insert(from, TokenAccount { balance: (src.balance - amount) as u64, ..src })
                    .insert(to, TokenAccount { balance: (dst.balance + amount) as u64, ..dst }),
                ..pre
            })
        }
    }
}

/// What creating a token type at a fresh address does.
pub open spec fn spec_create_mint(
    pre: LedgerSnap,
    addr: Address,
    decimals: u8,
    mint_authority: Address,
    freeze_authority: Option<Address>,
) -> Result<LedgerSnap, LedgerError> {
    if pre.mints.dom().contains(addr) {
        Err(LedgerError::AccountAlreadyExists)
    } else {
        Ok(LedgerSnap {
            mints: pre.mints.insert(addr, TokenType { mint_authority, freeze_authority, decimals, supply: 0 }),
            ..pre
        })
    }
}

/// What creating an empty token account at a fresh address does.
pub open spec fn spec_create_account(
    pre: LedgerSnap,
    addr: Address,
    token: Address,
    owner: Address,
) -> Result<LedgerSnap, LedgerError> {
    if pre.accounts.dom().contains(addr) {
        Err(LedgerError::AccountAlreadyExists)
    } else if !pre.mints.dom().contains(token) {
        Err(LedgerError::MintNotFound)
    } else {
        Ok(LedgerSnap {
            accounts: pre.accounts.insert(addr, TokenAccount { token, owner, balance: 0 }),
            ..pre
        })
    }
}

impl Ledger {
    /// All three stores keep their keys unique.
    pub closed spec fn wf(self) -> bool {
        self.mints.wf() && self.accounts.wf() && self.distributors.wf()
    }

    pub fn new() -> (r: Ledger)
        ensures
            r.wf(),
            r@.mints == Map::<Address, TokenType>::empty(),
            r@.accounts == Map::<Address, TokenAccount>::empty(),
            r@.distributors == Map::<Address, DistributorAccount>::empty(),
    {
        Ledger { mints: Table::new(), accounts: Table::new(), distributors: Table::new() }
    }

    /// A copy with the same records; stands for the host's transactional
    /// rollback: a call works on the copy and commits it only on success.
    pub fn snapshot(&self) -> (r: Ledger)
        ensures
            r.wf() == self.wf(),
            r@ == self@,
    {
        let r = Ledger {
            mints: self.mints.duplicate(),
            accounts: self.accounts.duplicate(),
            distributors: self.distributors.duplicate(),
        };
        proof {
            assert(r@ =~= self@);
        }
        r
    }

    pub(crate) fn read_mint(&self, addr: Address) -> (r: Option<TokenType>)
        requires
            self.wf(),
        ensures
            match r {
                Some(m) => self@.mints.dom().contains(addr) && self@.mints[addr] == m,
                None => !self@.mints.dom().contains(addr),
            },
    {
        self.mints.get(addr)
    }

    pub(crate) fn read_account(&self, addr: Address) -> (r: Option<TokenAccount>)
        requires
            self.wf(),
        ensures
            match r {
                Some(a) => self@.accounts.dom().contains(addr) && self@.accounts[addr] == a,
                None => !self@.accounts.dom().contains(addr),
            },
    {
        self.accounts.get(addr)
    }

    pub(crate) fn read_distributor(&self, addr: Address) -> (r: Option<DistributorAccount>)
        requires
            self.wf(),
        ensures
            match r {
                Some(d) => self@.distributors.dom().contains(addr) && self@.distributors[addr] == d,
                None => !self@.distributors.dom().contains(addr),
            },
    {
        self.distributors.get(addr)
    }

    pub(crate) fn put_mint(&mut self, addr: Address, m: TokenType)
        requires
            old(self).wf(),
            !old(self)@.mints.dom().contains(addr),
        ensures
            final(self).wf(),
            final(self)@ == (LedgerSnap { mints: old(self)@.mints.insert(addr, m), ..old(self)@ }),
    {
        self.mints.put(addr, m);
        proof {
            assert(self@ =~= (LedgerSnap { mints: old(self)@.mints.insert(addr, m), ..old(self)@ }));
        }
    }

    pub(crate) fn set_mint(&mut self, addr: Address, m: TokenType)
        requires
            old(self).wf(),
            old(self)@.mints.dom().contains(addr),
        ensures
            final(self).wf(),
            final(self)@ == (LedgerSnap { mints: old(self)@.mints.insert(addr, m), ..old(self)@ }),
    {
        self.mints.set(addr, m);
        proof {
            assert(self@ =~= (LedgerSnap { mints: old(self)@.mints.insert(addr, m), ..old(self)@ }));
        }
    }

    pub(crate) fn put_account(&mut self, addr: Address, a: TokenAccount)
        requires
            old(self).wf(),
            !old(self)@.accounts.dom().contains(addr),
        ensures
            final(self).wf(),
            final(self)@ == (LedgerSnap { accounts: old(self)@.accounts.insert(addr, a), ..old(self)@ }),
    {
        self.accounts.put(addr, a);
        proof {
            assert(self@ =~= (LedgerSnap { accounts: old(self)@.accounts.insert(addr, a), ..old(self)@ }));
        }
    }

    pub(crate) fn set_account(&mut self, addr: Address, a: TokenAccount)
        requires
            old(self).wf(),
            old(self)@.accounts.dom().contains(addr),
        ensures
            final(self).wf(),
            final(self)@ == (LedgerSnap { accounts: old(self)@.accounts.insert(addr, a), ..old(self)@ }),
    {
        self.accounts.set(addr, a);
        proof {
            assert(self@ =~= (LedgerSnap { accounts: old(self)@.accounts.insert(addr, a), ..old(self)@ }));
        }
    }

    pub(crate) fn put_distributor(&mut self, addr: Address, d: DistributorAccount)
        requires
            old(self).wf(),
            !old(self)@.distributors.dom().contains(addr),
        ensures
            final(self).wf(),
            final(self)@ == (LedgerSnap { distributors: old(self)@.distributors.insert(addr, d), ..old(self)@ }),
    {
        self.distributors.put(addr, d);
        proof {
            assert(self@ =~= (LedgerSnap { distributors: old(self)@.distributors.insert(addr, d), ..old(self)@ }));
        }
    }

    /// Burn with an arbitrary authority; only the protocol itself may present
    /// a derived authority, so this stays crate-internal.
    pub(crate) fn burn_signed(&mut self, token: Address, from: Address, authority: Address, amount: u64) -> (r: Result<(), LedgerError>)
        requires
            old(self).wf(),
        ensures
            final(self).wf(),
            match spec_burn(old(self)@, token, from, authority, amount) {
                Ok(post) => r is Ok && final(self)@ == post,
                Err(e) => r == Err::<(), LedgerError>(e) && final(self)@ == old(self)@,
            },
    {
        let m = match self.read_mint(token) {
            Some(m) => m,
            None => { return Err(LedgerError::MintNotFound); },
        };
        let a = match self.read_account(from) {
            Some(a) => a,
            None => { return Err(LedgerError::AccountNotFound); },
        };
        if a.token != token {
            return Err(LedgerError::TokenMismatch);
        }
        if authority != a.owner {
            return Err(LedgerError::AuthorityMismatch);
        }
        if a.balance < amount {
            return Err(LedgerError::InsufficientFunds);
        }
        if m.supply < amount {
            return Err(LedgerError::ArithmeticOverflow);
        }
        self.set_mint(token, TokenType { supply: m.supply - amount, ..m });
        self.set_account(from, TokenAccount { balance: a.balance - amount, ..a });
        proof {
            assert(self@ =~= spec_burn(old(self)@, token, from, authority, amount)->Ok_0);
        }
        Ok(())
    }

    /// Mint with an arbitrary authority; crate-internal for the same reason
    /// as `burn_signed`.
    pub(crate) fn mint_signed(&mut self, token: Address, to: Address, authority: Address, amount: u64) -> (r: Result<(), LedgerError>)
        requires
            old(self).wf(),
        ensures
            final(self).wf(),
            match spec_mint_to(old(self)@, token, to, authority, amount) {
                Ok(post) => r is Ok && final(self)@ == post,
                Err(e) => r == Err::<(), LedgerError>(e) && final(self)@ == old(self)@,
            },
    {
        let m = match self.read_mint(token) {
            Some(m) => m,
            None => { return Err(LedgerError::MintNotFound); },
        };
        let a = match self.read_account(to) {
            Some(a) => a,
            None => { return Err(LedgerError::AccountNotFound); },
        };
        if a.token != token {
            return Err(LedgerError::TokenMismatch);
        }
        if authority != m.mint_authority {
            return Err(LedgerError::AuthorityMismatch);
        }
        if amount > u64::MAX - m.supply {
            return Err(LedgerError::ArithmeticOverflow);
        }
        if amount > u64::MAX - a.balance {
            return Err(LedgerError::ArithmeticOverflow);
        }
        self.set_mint(token, TokenType { supply: m.supply + amount, ..m });
        self.set_account(to, TokenAccount { balance: a.balance + amount, ..a });
        proof {
            assert(self@ =~= spec_mint_to(old(self)@, token, to, authority, amount)->Ok_0);
        }
        Ok(())
    }

    /// Transfer with an arbitrary authority; crate-internal for the same
    /// reason as `burn_signed`.
    pub(crate) fn transfer_signed(&mut self, from: Address, to: Address, authority: Address, amount: u64) -> (r: Result<(), LedgerError>)
        requires
            old(self).wf(),
        ensures
            final(self).wf(),
            match spec_transfer(old(self)@, from, to, authority, amount) {
                Ok(post) => r is Ok && final(self)@ == post,
                Err(e) => r == Err::<(), LedgerError>(e) && final(self)@ == old(self)@,
            },
    {
        let src = match self.read_account(from) {
            Some(a) => a,
            None => { return Err(LedgerError::AccountNotFound); },
        };
        let dst = match self.read_account(to) {
            Some(a) => a,
            None => { return Err(LedgerError::AccountNotFound); },
        };
        if src.token != dst.token {
            return Err(LedgerError::TokenMismatch);
        }
        if authority != src.owner {
            return Err(LedgerError::AuthorityMismatch);
        }
        if src.balance < amount {
            return Err(LedgerError::InsufficientFunds);
        }
        if from == to {
            return Ok(());
        }
        if amount > u64::MAX - dst.balance {
            return Err(LedgerError::ArithmeticOverflow);
        }
        self.set_account(from, TokenAccount { balance: src.balance - amount, ..src });
        self.set_account(to, TokenAccount { balance: dst.balance + amount, ..dst });
        proof {
            assert(self@ =~= spec_transfer(old(self)@, from, to, authority, amount)->Ok_0);
        }
        Ok(())
    }

    /// Create a token type.  The external world can create records only at
    /// keyed addresses: a derived address has no key to sign the creation.
    pub fn create_mint(&mut self, id: u64, decimals: u8, mint_authority: Address, freeze_authority: Option<Address>) -> (r: Result<(), LedgerError>)
        requires
            old(self).wf(),
        ensures
            final(self).wf(),
            match spec_create_mint(old(self)@, Address::Key { id }, decimals, mint_authority, freeze_authority) {
                Ok(post) => r is Ok && final(self)@ == post,
                Err(e) => r == Err::<(), LedgerError>(e) && final(self)@ == old(self)@,
            },
    {
        let addr = Address::Key { id };
        if self.mints.contains(addr) {
            return Err(LedgerError::AccountAlreadyExists);
        }
        self.put_mint(addr, TokenType { mint_authority, freeze_authority, decimals, supply: 0 });
        Ok(())
    }

    /// Create an empty token account, again only at a keyed address.
    pub fn create_account(&mut self, id: u64, token: Address, owner: Address) -> (r: Result<(), LedgerError>)
        requires
            old(self).wf(),
        ensures
            final(self).wf(),
            match spec_create_account(old(self)@, Address::Key { id }, token, owner) {
                Ok(post) => r is Ok && final(self)@ == post,
                Err(e) => r == Err::<(), LedgerError>(e) && final(self)@ == old(self)@,
            },
    {
        let addr = Address::Key { id };
        if self.accounts.contains(addr) {
            return Err(LedgerError::AccountAlreadyExists);
        }
        if !self.mints.contains(token) {
            return Err(LedgerError::MintNotFound);
        }
        self.put_account(addr, TokenAccount { token, owner, balance: 0 });
        Ok(())
    }

    /// Burn authorized by a keyed signer: the external world's `burn`.
    pub fn burn(&mut self, token: Address, from: Address, authority: u64, amount: u64) -> (r: Result<(), LedgerError>)
        requires
            old(self).wf(),
        ensures
            final(self).wf(),
            match spec_burn(old(self)@, token, from, Address::Key { id: authority }, amount) {
                Ok(post) => r is Ok && final(self)@ == post,
                Err(e) => r == Err::<(), LedgerError>(e) && final(self)@ == old(self)@,
            },
    {
        self.burn_signed(token, from, Address::Key { id: authority }, amount)
    }

    /// Mint authorized by a keyed signer: the external world's `mint_to`.
    pub fn mint_to(&mut self, token: Address, to: Address, authority: u64, amount: u64) -> (r: Result<(), LedgerError>)
        requires
            old(self).wf(),
        ensures
            final(self).wf(),
            match spec_mint_to(old(self)@, token, to, Address::Key { id: authority }, amount) {
                Ok(post) => r is Ok && final(self)@ == post,
                Err(e) => r == Err::<(), LedgerError>(e) && final(self)@ == old(self)@,
            },
    {
        self.mint_signed(token, to, Address::Key { id: authority }, amount)
    }

    /// Transfer authorized by a keyed signer: the external world's `transfer`.
    pub fn transfer(&mut self, from: Address, to: Address, authority: u64, amount: u64) -> (r: Result<(), LedgerError>)
        requires
            old(self).wf(),
        ensures
            final(self).wf(),
            match spec_transfer(old(self)@, from, to, Address::Key { id: authority }, amount) {
                Ok(post) => r is Ok && final(self)@ == post,
                Err(e) => r == Err::<(), LedgerError>(e) && final(self)@ == old(self)@,
            },
    {
        self.transfer_signed(from, to, Address::Key { id: authority }, amount)
    }

    /// The supply of a token type, if it exists.
    pub fn supply_of(&self, token: Address) -> (r: Option<u64>)
        requires
            self.wf(),
        ensures
            match r {
                Some(s) => self@.mints.dom().contains(token) && self@.mints[token].supply == s,
                None => !self@.mints.dom().contains(token),
            },
    {
        match self.read_mint(token) {
            Some(m) => Some(m.supply),
            None => None,
        }
    }

    /// The balance of a token account, if it exists.
    pub fn balance_of(&self, account: Address) -> (r: Option<u64>)
        requires
            self.wf(),
        ensures
            match r {
                Some(b) => self@.accounts.dom().contains(account) && self@.accounts[account].balance == b,
                None => !self@.accounts.dom().contains(account),
            },
    {
        match self.read_account(account) {
            Some(a) => Some(a.balance),
            None => None,
        }
    }

    /// The full record of a token account, if it exists.
    pub fn account_of(&self, account: Address) -> (r: Option<TokenAccount>)
        requires
            self.wf(),
        ensures
            match r {
                Some(a) => self@.accounts.dom().contains(account) && self@.accounts[account] == a,
                None => !self@.accounts.dom().contains(account),
            },
    {
        self.read_account(account)
    }

    /// The full record of a token type, if it exists.
    pub fn mint_of(&self, token: Address) -> (r: Option<TokenType>)
        requires
            self.wf(),
        ensures
            match r {
                Some(m) => self@.mints.dom().contains(token) && self@.mints[token] == m,
                None => !self@.mints.dom().contains(token),
            },
    {
        self.read_mint(token)
    }

    /// The distributor record at an address, if it exists.
    pub fn distributor_of(&self, addr: Address) -> (r: Option<DistributorAccount>)
        requires
            self.wf(),
        ensures
            match r {
                Some(d) => self@.distributors.dom().contains(addr) && self@.distributors[addr] == d,
                None => !self@.distributors.dom().contains(addr),
            },
    {
        self.read_distributor(addr)
    }
}

} // verus!
