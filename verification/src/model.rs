//! The mathematical model of the ledger.
//!
//! `LedgerModel` is the ghost state a ledger represents: the fixed total
//! supply, the two finite tables, and the notifications recorded so far. Each
//! operation of the ledger is specified as a transition function on this
//! model, and every executable operation promises that its final state is
//! exactly the transition applied to its initial state.

use crate::account::AccountId;
use crate::event::Transfer;
use crate::sums::map_sum;
use vstd::prelude::*;

verus! {

/// The ghost state of the ledger.
#[verifier::ext_equal]
pub ghost struct LedgerModel {
    /// The fixed number of units in existence.
    pub total: u128,
    /// Balance per account; an account without an entry holds 0.
    pub balances: Map<AccountId, u128>,
    /// Approved spend limit per (owner, spender) pair; a pair without an
    /// entry has limit 0.
    pub allowances: Map<(AccountId, AccountId), u128>,
    /// The notifications produced so far, in order.
    pub events: Seq<Transfer>,
}

impl LedgerModel {
    /// The state right after construction: the whole supply is credited to
    /// the constructing caller, nothing is approved, nothing was notified.
    pub open spec fn init(caller: AccountId, total_supply: u128) -> LedgerModel {
        LedgerModel {
            total: total_supply,
            balances: Map::empty().insert(caller, total_supply),
            allowances: Map::empty(),
            events: Seq::empty(),
        }
    }

    /// An account's balance, 0 when the account has no entry.
    pub open spec fn balance_of(self, account: AccountId) -> u128 {
        if self.balances.dom().contains(account) {
            self.balances[account]
        } else {
            0
        }
    }

    /// The approved limit for the pair, 0 when the pair has no entry.
    pub open spec fn allowance_of(self, owner: AccountId, spender: AccountId) -> u128 {
        if self.allowances.dom().contains((owner, spender)) {
            self.allowances[(owner, spender)]
        } else {
            0
        }
    }

    /// May `amount` leave `from`'s balance? This is the only
    /// balance-sufficiency check in the system.
    pub open spec fn can_move(self, from: AccountId, amount: u128) -> bool {
        self.balance_of(from) >= amount
    }

    /// A successful fund movement: debit `from`, then credit `to`, and record
    /// one notification. Meaningful only under `can_move(from, amount)`.
    pub open spec fn move_funds_tr(self, from: AccountId, to: AccountId, amount: u128) -> LedgerModel {
        let debited = LedgerModel {
            balances: self.balances.insert(from, (self.balance_of(from) - amount) as u128),
            ..self
        };
        LedgerModel {
            balances: debited.balances.insert(to, (debited.balance_of(to) + amount) as u128),
            events: self.events.push(Transfer { from, to, amount }),
            ..debited
        }
    }

    /// A direct transfer out of the caller's balance; when the balance does
    /// not cover it, nothing changes.
    pub open spec fn transfer_tr(self, caller: AccountId, to: AccountId, amount: u128) -> LedgerModel {
        if self.can_move(caller, amount) {
            self.move_funds_tr(caller, to, amount)
        } else {
            self
        }
    }

    /// An approval: the caller grants `spender` the limit `amount`, fully
    /// replacing any previous limit. Never fails, notifies nobody.
    pub open spec fn approve_tr(self, caller: AccountId, spender: AccountId, amount: u128) -> LedgerModel {
        LedgerModel { allowances: self.allowances.insert((caller, spender), amount), ..self }
    }

    /// A delegated transfer: the caller spends `amount` of `from`'s balance
    /// against the (from, caller) allowance. On insufficient allowance or
    /// insufficient balance nothing changes; on success the allowance for the
    /// same (from, caller) pair is debited by exactly the amount moved.
    pub open spec fn transfer_from_tr(
        self,
        caller: AccountId,
        from: AccountId,
        to: AccountId,
        amount: u128,
    ) -> LedgerModel {
        let allowed = self.allowance_of(from, caller);
        if amount > allowed {
            self
        } else if !self.can_move(from, amount) {
            self
        } else {
            let moved = self.move_funds_tr(from, to, amount);
            LedgerModel {
                allowances: moved.allowances.insert((from, caller), (allowed - amount) as u128),
                ..moved
            }
        }
    }

    /// Well-formedness: both tables are finite, and the balances recorded in
    /// the ledger total exactly the fixed supply.
    pub open spec fn wf(self) -> bool {
        &&& self.balances.dom().finite()
        &&& self.allowances.dom().finite()
        &&& map_sum(self.balances) == self.total as int
    }
}

} // verus!
