//! Per-client accounts: pure state transitions over available and held
//! funds, with no knowledge of transaction history.

use vstd::prelude::*;
use crate::amount::Amount;

verus! {

/// Largest balance magnitude, in 1/10000 units, an account may reach: a
/// machine guard that keeps every balance computation inside `i128`.
pub const BALANCE_LIMIT: i128 = 10_000_000_000_000_000_000_000_000_000_000_000_000;

/// Whether `x` lies within the guarded balance range.
pub open spec fn in_balance_range(x: int) -> bool {
    -BALANCE_LIMIT <= x <= BALANCE_LIMIT
}

/// The mathematical state of an account.
pub struct AccountModel {
    /// Spendable funds, in 1/10000 units; may be negative after a dispute
    /// of funds that were already withdrawn.
    pub available: int,
    /// Funds frozen pending dispute resolution, in 1/10000 units.
    pub held: int,
    /// True once any chargeback has hit the account; never reverts.
    pub locked: bool,
}

impl AccountModel {
    /// The state of a freshly created account.
    pub open spec fn init() -> AccountModel {
        AccountModel { available: 0, held: 0, locked: false }
    }

    /// Total funds: spendable plus frozen.
    pub open spec fn total(self) -> int {
        self.available + self.held
    }

    /// Both balances lie within the guarded range.
    pub open spec fn wf(self) -> bool {
        in_balance_range(self.available) && in_balance_range(self.held)
    }
}

/// One client's funds: spendable and frozen balances, and whether a
/// chargeback has permanently locked the account.
#[derive(Debug, Clone, Copy, PartialEq, Eq, Structural)]
pub struct Account {
    pub available: Amount,
    pub held: Amount,
    pub locked: bool,
}

impl View for Account {
    type V = AccountModel;

    open spec fn view(&self) -> AccountModel {
        AccountModel { available: self.available@, held: self.held@, locked: self.locked }
    }
}

impl Account {
    /// Both balances lie within the guarded range.
    pub open spec fn wf(self) -> bool {
        self@.wf()
    }

    /// A fresh account: nothing available, nothing held, not locked.
    pub fn new() -> (r: Account)
        ensures
            r@ == AccountModel::init(),
            r.wf(),
    {
        Account { available: Amount { units: 0 }, held: Amount { units: 0 }, locked: false }
    }

    /// Total funds: spendable plus frozen, always recomputed.
    pub fn total(&self) -> (t: Amount)
        requires
            self.wf(),
        ensures
            t@ == self@.total(),
    {
        Amount { units: self.available.units + self.held.units }
    }

    /// Add `amount` to the spendable funds. Fails, changing nothing, on a
    /// locked account, or where the new balance would leave the guarded
    /// range.
    pub fn deposit(&mut self, amount: Amount) -> (ok: bool)
        requires
            old(self).wf(),
        ensures
            final(self).wf(),
            ok == (!old(self)@.locked && in_balance_range(old(self)@.available + amount@)),
            ok ==> final(self)@ == (AccountModel {
                available: old(self)@.available + amount@,
                ..old(self)@
            }),
            !ok ==> final(self)@ == old(self)@,
    {
        if self.locked {
            return false;
        }
        match self.available.units.checked_add(amount.units) {
            Some(s) => {
                if s < -BALANCE_LIMIT || s > BALANCE_LIMIT {
                    false
                } else {
                    self.available = Amount { units: s };
                    true
                }
            },
            None => false,
        }
    }

    /// Remove `amount` from the spendable funds. Fails, changing nothing,
    /// on a locked account, where the spendable funds fall short of
    /// `amount`, or where the new balance would leave the guarded range.
    pub fn withdraw(&mut self, amount: Amount) -> (ok: bool)
        requires
            old(self).wf(),
        ensures
            final(self).wf(),
            ok == (!old(self)@.locked && old(self)@.available >= amount@ && in_balance_range(
                old(self)@.available - amount@,
            )),
            ok ==> final(self)@ == (AccountModel {
                available: old(self)@.available - amount@,
                ..old(self)@
            }),
            !ok ==> final(self)@ == old(self)@,
    {
        if self.locked {
            return false;
        }
        if self.available.units < amount.units {
            return false;
        }
        match self.available.units.checked_sub(amount.units) {
            Some(s) => {
                if s < -BALANCE_LIMIT || s > BALANCE_LIMIT {
                    false
                } else {
                    self.available = Amount { units: s };
                    true
                }
            },
            None => false,
        }
    }

    /// Freeze `amount`: move it from the spendable to the held funds. Not
    /// gated by `locked`, and the spendable funds may go negative here by
    /// design.
    pub fn hold(&mut self, amount: Amount)
        requires
            old(self).wf(),
            in_balance_range(old(self)@.available - amount@),
            in_balance_range(old(self)@.held + amount@),
        ensures
            final(self).wf(),
            final(self)@ == (AccountModel {
                available: old(self)@.available - amount@,
                held: old(self)@.held + amount@,
                locked: old(self)@.locked,
            }),
    {
        self.available = Amount { units: self.available.units - amount.units };
        self.held = Amount { units: self.held.units + amount.units };
    }

    /// Release `amount`: move it back from the held to the spendable funds.
    pub fn release(&mut self, amount: Amount)
        requires
            old(self).wf(),
            in_balance_range(old(self)@.held - amount@),
            in_balance_range(old(self)@.available + amount@),
        ensures
            final(self).wf(),
            final(self)@ == (AccountModel {
                available: old(self)@.available + amount@,
                held: old(self)@.held - amount@,
                locked: old(self)@.locked,
            }),
    {
        self.held = Amount { units: self.held.units - amount.units };
        self.available = Amount { units: self.available.units + amount.units };
    }

    /// Charge `amount` back: drop it from the held funds and lock the
    /// account for good. The spendable funds are untouched; they already
    /// lost the amount when it was frozen.
    pub fn chargeback(&mut self, amount: Amount)
        requires
            old(self).wf(),
            in_balance_range(old(self)@.held - amount@),
        ensures
            final(self).wf(),
            final(self)@ == (AccountModel {
                available: old(self)@.available,
                held: old(self)@.held - amount@,
                locked: true,
            }),
    {
        self.held = Amount { units: self.held.units - amount.units };
        self.locked = true;
    }
}

impl Default for Account {
    /// A fresh account, as [`Account::new`] builds it.
    fn default() -> (r: Account)
        ensures
            r@ == AccountModel::init(),
            r.wf(),
    {
        Account::new()
    }
}

} // verus!
