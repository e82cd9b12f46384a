//! The executable ledger.
//!
//! `Erc20` holds the fixed total supply, the balance table, the allowance
//! table, and the notifications produced so far. Each table is a vector of
//! entries with pairwise-distinct keys; an absent key reads as 0. Every
//! operation promises that the represented model (`self@`) steps by exactly
//! the matching transition of `LedgerModel`, and that well-formedness — the
//! conservation invariant included — is preserved.
//!
//! The hosting environment authenticates callers; every operation takes the
//! current caller's identity as an explicit argument and trusts it.

use crate::account::AccountId;
use crate::event::Transfer;
use crate::kvseq::{
    has_key, lemma_lookup_absent, lemma_lookup_at, lemma_lookup_map_of, lemma_map_of_push,
    lemma_map_of_update, lookup, map_of, unique_keys,
};
use crate::model::LedgerModel;
use crate::sums::{lemma_map_sum_entry_bound, lemma_map_sum_insert, map_sum};
use vstd::prelude::*;

verus! {

/// The fungible-token ledger: a fixed supply of indivisible units owned by
/// accounts, with delegated spending up to pre-approved limits.
pub struct Erc20 {
    total_supply: u128,
    balances: Vec<(AccountId, u128)>,
    approvals: Vec<((AccountId, AccountId), u128)>,
    events: Vec<Transfer>,
}

impl View for Erc20 {
    type V = LedgerModel;

    closed spec fn view(&self) -> LedgerModel {
        LedgerModel {
            total: self.total_supply,
            balances: map_of(self.balances@),
            allowances: map_of(self.approvals@),
            events: self.events@,
        }
    }
}

impl Erc20 {
    /// Well-formedness: distinct keys in both tables, and the represented
    /// model is well-formed — in particular, the recorded balances total the
    /// fixed supply. Established by the constructors, preserved by every
    /// operation.
    pub closed spec fn wf(self) -> bool {
        &&& unique_keys(self.balances@)
        &&& unique_keys(self.approvals@)
        &&& self@.wf()
    }

    /// Conservation, made explicit: a well-formed ledger represents a
    /// well-formed model, whose recorded balances sum to the total supply.
    pub proof fn lemma_conservation(l: Erc20)
        requires
            l.wf(),
        ensures
            l@.wf(),
            map_sum(l@.balances) == l@.total as int,
    {
    }

    /// Create the ledger: the supply is fixed and credited in full to the
    /// constructing caller.
    pub fn new(caller: AccountId, total_supply: u128) -> (r: Erc20)
        ensures
            r.wf(),
            r@ == LedgerModel::init(caller, total_supply),
    {
        let mut balances: Vec<(AccountId, u128)> = Vec::new();
        balances.push((caller, total_supply));
        let r = Erc20 { total_supply, balances, approvals: Vec::new(), events: Vec::new() };
        proof {
            let s = r.balances@;
            assert(s[0] == (caller, total_supply));
            assert forall|x: AccountId| #[trigger] has_key(s, x) implies x == caller by {
                let i = choose|i: int| 0 <= i < s.len() && s[i].0 == x;
            }
            assert(has_key(s, caller));
            assert(map_of(s) =~= Map::<AccountId, u128>::empty().insert(caller, total_supply));
            assert(map_of(r.approvals@) =~= Map::<(AccountId, AccountId), u128>::empty());
            assert(map_sum(Map::<AccountId, u128>::empty()) == 0);
            lemma_map_sum_insert(Map::<AccountId, u128>::empty(), caller, total_supply);
            assert(r@ =~~= LedgerModel::init(caller, total_supply));
        }
        r
    }

    /// Create the ledger with a supply of 0.
    pub fn default(caller: AccountId) -> (r: Erc20)
        ensures
            r.wf(),
            r@ == LedgerModel::init(caller, 0),
    {
        Erc20::new(caller, 0)
    }

    /// The fixed total supply.
    pub fn total_supply(&self) -> (r: u128)
        ensures
            r == self@.total,
    {
        self.total_supply
    }

    /// The account's balance; an account that never appeared holds 0.
    pub fn balance_of(&self, account_id: AccountId) -> (r: u128)
        ensures
            r == self@.balance_of(account_id),
    {
        proof {
            lemma_lookup_map_of(self.balances@, account_id);
        }
        self.balance_entry(account_id)
    }

    /// The approved limit for the pair; an unapproved pair reads 0.
    pub fn allowance(&self, owner: AccountId, spender: AccountId) -> (r: u128)
        ensures
            r == self@.allowance_of(owner, spender),
    {
        proof {
            lemma_lookup_map_of(self.approvals@, (owner, spender));
        }
        self.allowance_entry(owner, spender)
    }

    /// The notifications produced so far, in order, for the hosting
    /// environment to deliver.
    pub fn events(&self) -> (r: &Vec<Transfer>)
        ensures
            r@ == self@.events,
    {
        &self.events
    }

    /// Direct transfer: move `amount` from the caller to `to`. Returns true
    /// and records one notification exactly when the caller's balance covers
    /// the amount; otherwise nothing changes and false is returned.
    pub fn transfer(&mut self, caller: AccountId, to: AccountId, amount: u128) -> (r: bool)
        requires
            old(self).wf(),
        ensures
            final(self).wf(),
            r == old(self)@.can_move(caller, amount),
            final(self)@ == old(self)@.transfer_tr(caller, to, amount),
    {
        self.move_funds(caller, to, amount)
    }

    /// Grant `spender` the limit `amount` on the caller's balance, replacing
    /// any previous limit (0 revokes). Always succeeds; notifies nobody.
    pub fn approve(&mut self, caller: AccountId, spender: AccountId, amount: u128)
        requires
            old(self).wf(),
        ensures
            final(self).wf(),
            final(self)@ == old(self)@.approve_tr(caller, spender, amount),
    {
        self.set_allowance(caller, spender, amount);
        proof {
            assert(self@ =~~= old(self)@.approve_tr(caller, spender, amount));
        }
    }

    /// Delegated transfer: the caller moves `amount` from `from` to `to`
    /// against the (from, caller) allowance. On insufficient allowance or
    /// insufficient balance this is a silent no-op; on success the allowance
    /// for the same (from, caller) pair is debited by exactly the amount
    /// moved.
    pub fn transfer_from(&mut self, caller: AccountId, from: AccountId, to: AccountId, amount: u128)
        requires
            old(self).wf(),
        ensures
            final(self).wf(),
            final(self)@ == old(self)@.transfer_from_tr(caller, from, to, amount),
    {
        proof {
            lemma_lookup_map_of(self.approvals@, (from, caller));
        }
        let allowed = self.allowance_entry(from, caller);
        if amount > allowed {
            return;
        }
        let moved = self.move_funds(from, to, amount);
        if !moved {
            return;
        }
        self.set_allowance(from, caller, allowed - amount);
        proof {
            assert(self@ =~~= old(self)@.transfer_from_tr(caller, from, to, amount));
        }
    }

    /// The sole balance-mutating routine, shared by direct and delegated
    /// transfers: with sufficient balance it debits `from`, credits `to` (in
    /// that order) and records one notification; otherwise it reports failure
    /// and changes nothing.
    fn move_funds(&mut self, from: AccountId, to: AccountId, amount: u128) -> (r: bool)
        requires
            old(self).wf(),
        ensures
            final(self).wf(),
            r == old(self)@.can_move(from, amount),
            r ==> final(self)@ == old(self)@.move_funds_tr(from, to, amount),
            !r ==> *final(self) == *old(self),
    {
        proof {
            lemma_lookup_map_of(self.balances@, from);
        }
        let senders_balance = self.balance_entry(from);
        if senders_balance < amount {
            return false;
        }
        self.set_balance(from, senders_balance - amount);
        proof {
            lemma_map_sum_insert(old(self)@.balances, from, (senders_balance - amount) as u128);
            lemma_lookup_map_of(self.balances@, to);
        }
        let receivers_balance = self.balance_entry(to);
        proof {
            lemma_map_sum_entry_bound(self@.balances, to);
            lemma_map_sum_insert(self@.balances, to, (receivers_balance + amount) as u128);
        }
        self.set_balance(to, receivers_balance + amount);
        self.events.push(Transfer { from, to, amount });
        proof {
            assert(self@ =~~= old(self)@.move_funds_tr(from, to, amount));
        }
        true
    }

    /// The index of the balance entry for `account`, if one exists.
    fn find_balance(&self, account: AccountId) -> (r: Option<usize>)
        ensures
            match r {
                Some(i) => i < self.balances@.len() && self.balances@[i as int].0 == account
                    && forall|j: int| 0 <= j < i ==> self.balances@[j].0 != account,
                None => !has_key(self.balances@, account),
            },
    {
        let n = self.balances.len();
        let mut i: usize = 0;
        while i < n
            invariant
                n == self.balances@.len(),
                i <= n,
                forall|j: int| 0 <= j < i ==> self.balances@[j].0 != account,
            decreases n - i,
        {
            if self.balances[i].0 == account {
                return Some(i);
            }
            i = i + 1;
        }
        proof {
            if has_key(self.balances@, account) {
                let j = choose|j: int|
                    0 <= j < self.balances@.len() && self.balances@[j].0 == account;
            }
        }
        None
    }

    /// The value stored for `account`, 0 when no entry carries it.
    fn balance_entry(&self, account: AccountId) -> (r: u128)
        ensures
            r == lookup(self.balances@, account),
    {
        match self.find_balance(account) {
            Some(i) => {
                proof {
                    lemma_lookup_at(self.balances@, i as int);
                }
                self.balances[i].1
            },
            None => {
                proof {
                    lemma_lookup_absent(self.balances@, account);
                }
                0
            },
        }
    }

    /// Store `value` for `account`: overwrite its entry, or append one.
    fn set_balance(&mut self, account: AccountId, value: u128)
        requires
            unique_keys(old(self).balances@),
        ensures
            unique_keys(final(self).balances@),
            map_of(final(self).balances@) == map_of(old(self).balances@).insert(account, value),
            final(self).total_supply == old(self).total_supply,
            final(self).approvals@ == old(self).approvals@,
            final(self).events@ == old(self).events@,
    {
        match self.find_balance(account) {
            Some(i) => {
                proof {
                    lemma_map_of_update(self.balances@, i as int, value);
                }
                self.balances[i] = (account, value);
            },
            None => {
                proof {
                    lemma_map_of_push(self.balances@, account, value);
                }
                self.balances.push((account, value));
            },
        }
    }

    /// The index of the allowance entry for (owner, spender), if one exists.
    fn find_approval(&self, owner: AccountId, spender: AccountId) -> (r: Option<usize>)
        ensures
            match r {
                Some(i) => i < self.approvals@.len() && self.approvals@[i as int].0 == (
                    owner,
                    spender,
                ) && forall|j: int| 0 <= j < i ==> self.approvals@[j].0 != (owner, spender),
                None => !has_key(self.approvals@, (owner, spender)),
            },
    {
        let n = self.approvals.len();
        let mut i: usize = 0;
        while i < n
            invariant
                n == self.approvals@.len(),
                i <= n,
                forall|j: int| 0 <= j < i ==> self.approvals@[j].0 != (owner, spender),
            decreases n - i,
        {
            let entry = self.approvals[i];
            if entry.0.0 == owner && entry.0.1 == spender {
                return Some(i);
            }
            i = i + 1;
        }
        proof {
            if has_key(self.approvals@, (owner, spender)) {
                let j = choose|j: int|
                    0 <= j < self.approvals@.len() && self.approvals@[j].0 == (owner, spender);
            }
        }
        None
    }

    /// The value stored for (owner, spender), 0 when no entry carries it.
    fn allowance_entry(&self, owner: AccountId, spender: AccountId) -> (r: u128)
        ensures
            r == lookup(self.approvals@, (owner, spender)),
    {
        match self.find_approval(owner, spender) {
            Some(i) => {
                proof {
                    lemma_lookup_at(self.approvals@, i as int);
                }
                self.approvals[i].1
            },
            None => {
                proof {
                    lemma_lookup_absent(self.approvals@, (owner, spender));
                }
                0
            },
        }
    }

    /// Store `value` for (owner, spender): overwrite the entry, or append one.
    fn set_allowance(&mut self, owner: AccountId, spender: AccountId, value: u128)
        requires
            unique_keys(old(self).approvals@),
        ensures
            unique_keys(final(self).approvals@),
            map_of(final(self).approvals@) == map_of(old(self).approvals@).insert(
                (owner, spender),
                value,
            ),
            final(self).total_supply == old(self).total_supply,
            final(self).balances@ == old(self).balances@,
            final(self).events@ == old(self).events@,
    {
        match self.find_approval(owner, spender) {
            Some(i) => {
                proof {
                    lemma_map_of_update(self.approvals@, i as int, value);
                }
                self.approvals[i] = ((owner, spender), value);
            },
            None => {
                proof {
                    lemma_map_of_push(self.approvals@, (owner, spender), value);
                }
                self.approvals.push(((owner, spender), value));
            },
        }
    }
}

} // verus!
