//! Laws of the ledger, stated over the model and proved once and for all.
//!
//! Every executable operation promises `final(self)@ == old(self)@.…_tr(…)`,
//! so a law about the transition functions is a law about any sequence of
//! calls on a ledger.

use crate::account::AccountId;
use crate::event::Transfer;
use crate::model::LedgerModel;
use crate::sums::{lemma_map_sum_entry_bound, lemma_map_sum_insert, map_sum};
use vstd::prelude::*;

verus! {

/// Conservation at construction: the initial state is well-formed, and its
/// recorded balances — the whole supply credited to the caller — sum to the
/// supply that was fixed.
pub proof fn lemma_init_conserves(caller: AccountId, total_supply: u128)
    ensures
        LedgerModel::init(caller, total_supply).wf(),
        LedgerModel::init(caller, total_supply).total == total_supply,
{
    let empty = Map::<AccountId, u128>::empty();
    assert(map_sum(empty) == 0);
    lemma_map_sum_insert(empty, caller, total_supply);
}

/// A fund movement within the means of `from` preserves well-formedness and
/// the total supply: the debit and the credit cancel in the sum.
pub proof fn lemma_move_funds_conserves(
    m: LedgerModel,
    from: AccountId,
    to: AccountId,
    amount: u128,
)
    requires
        m.wf(),
        m.can_move(from, amount),
    ensures
        m.move_funds_tr(from, to, amount).wf(),
        m.move_funds_tr(from, to, amount).total == m.total,
{
    let debited = m.balances.insert(from, (m.balance_of(from) - amount) as u128);
    let credit = if debited.dom().contains(to) {
        debited[to]
    } else {
        0
    };
    lemma_map_sum_insert(m.balances, from, (m.balance_of(from) - amount) as u128);
    lemma_map_sum_entry_bound(debited, to);
    lemma_map_sum_insert(debited, to, (credit + amount) as u128);
}

/// Conservation under `transfer`: whether it succeeds or declines, the state
/// stays well-formed and the total supply stays what it was.
pub proof fn lemma_transfer_conserves(m: LedgerModel, caller: AccountId, to: AccountId, amount: u128)
    requires
        m.wf(),
    ensures
        m.transfer_tr(caller, to, amount).wf(),
        m.transfer_tr(caller, to, amount).total == m.total,
{
    if m.can_move(caller, amount) {
        lemma_move_funds_conserves(m, caller, to, amount);
    }
}

/// Conservation under `approve`: balances are untouched.
pub proof fn lemma_approve_conserves(
    m: LedgerModel,
    caller: AccountId,
    spender: AccountId,
    amount: u128,
)
    requires
        m.wf(),
    ensures
        m.approve_tr(caller, spender, amount).wf(),
        m.approve_tr(caller, spender, amount).total == m.total,
{
}

/// Conservation under `transfer_from`: whether it moves funds or is a silent
/// no-op, the state stays well-formed and the total supply stays what it was.
pub proof fn lemma_transfer_from_conserves(
    m: LedgerModel,
    caller: AccountId,
    from: AccountId,
    to: AccountId,
    amount: u128,
)
    requires
        m.wf(),
    ensures
        m.transfer_from_tr(caller, from, to, amount).wf(),
        m.transfer_from_tr(caller, from, to, amount).total == m.total,
{
    if amount <= m.allowance_of(from, caller) && m.can_move(from, amount) {
        lemma_move_funds_conserves(m, from, to, amount);
    }
}

/// Non-negativity: every balance and every allowance reads as a non-negative
/// value — stored values are unsigned, and absent entries read as 0.
pub proof fn lemma_non_negative(
    m: LedgerModel,
    account: AccountId,
    owner: AccountId,
    spender: AccountId,
)
    ensures
        m.balance_of(account) >= 0,
        m.allowance_of(owner, spender) >= 0,
{
}

/// Transfer atomicity: a transfer either moves exactly `amount` from the
/// caller to `to` and records exactly one new notification, or — when the
/// caller's balance does not cover it — changes nothing at all.
pub proof fn lemma_transfer_atomicity(
    m: LedgerModel,
    caller: AccountId,
    to: AccountId,
    amount: u128,
)
    requires
        m.wf(),
    ensures
        ({
            let m1 = m.transfer_tr(caller, to, amount);
            &&& m.can_move(caller, amount) ==> {
                &&& caller != to ==> m1.balance_of(caller) == m.balance_of(caller) - amount
                    && m1.balance_of(to) == m.balance_of(to) + amount
                &&& caller == to ==> m1.balance_of(caller) == m.balance_of(caller)
                &&& forall|a: AccountId|
                    a != caller && a != to ==> m1.balance_of(a) == m.balance_of(a)
                &&& m1.allowances == m.allowances
                &&& m1.events == m.events.push(Transfer { from: caller, to, amount })
            }
            &&& !m.can_move(caller, amount) ==> m1 == m
        }),
{
    if m.can_move(caller, amount) {
        let bal_from = m.balance_of(caller);
        let debited = m.balances.insert(caller, (bal_from - amount) as u128);
        let credit = if debited.dom().contains(to) {
            debited[to]
        } else {
            0
        };
        lemma_map_sum_insert(m.balances, caller, (bal_from - amount) as u128);
        lemma_map_sum_entry_bound(debited, to);
        let m1 = m.transfer_tr(caller, to, amount);
        assert(m1.balances == debited.insert(to, (credit + amount) as u128));
        assert(credit + amount <= m.total);
        if caller != to {
            assert(credit == m.balance_of(to));
            assert(m1.balance_of(to) == m.balance_of(to) + amount);
            assert(m1.balance_of(caller) == m.balance_of(caller) - amount);
        } else {
            assert(credit == bal_from - amount);
            assert(m1.balance_of(caller) == m.balance_of(caller));
        }
    }
}

/// Allowance ceiling: after the owner approves `spender` for
/// `amount_approved`, a delegated transfer of `amount` by `spender` out of
/// the owner's balance succeeds — moving the funds and debiting the stored
/// allowance to exactly `amount_approved - amount` — if and only if the
/// approval covers the amount and the owner's balance covers it; otherwise it
/// changes nothing.
pub proof fn lemma_allowance_ceiling(
    m: LedgerModel,
    owner: AccountId,
    spender: AccountId,
    to: AccountId,
    amount_approved: u128,
    amount: u128,
)
    requires
        m.wf(),
    ensures
        ({
            let m1 = m.approve_tr(owner, spender, amount_approved);
            let m2 = m1.transfer_from_tr(spender, owner, to, amount);
            &&& (amount <= amount_approved && m.balance_of(owner) >= amount) ==> {
                &&& m2.allowance_of(owner, spender) == amount_approved - amount
                &&& m2.balances == m1.move_funds_tr(owner, to, amount).balances
            }
            &&& !(amount <= amount_approved && m.balance_of(owner) >= amount) ==> m2 == m1
        }),
{
}

/// Default-zero lookups: a fresh ledger reads as all zero, except that the
/// constructing caller holds the whole supply.
pub proof fn lemma_default_zero(
    caller: AccountId,
    total_supply: u128,
    account: AccountId,
    owner: AccountId,
    spender: AccountId,
)
    ensures
        LedgerModel::init(caller, total_supply).balance_of(caller) == total_supply,
        account != caller ==> LedgerModel::init(caller, total_supply).balance_of(account) == 0,
        LedgerModel::init(caller, total_supply).allowance_of(owner, spender) == 0,
{
}

/// Re-approval is not additive: approving the same pair twice leaves only the
/// latest amount in effect.
pub proof fn lemma_reapproval_latest_wins(
    m: LedgerModel,
    caller: AccountId,
    spender: AccountId,
    first: u128,
    second: u128,
)
    ensures
        m.approve_tr(caller, spender, first).approve_tr(caller, spender, second)
            == m.approve_tr(caller, spender, second),
{
    assert(m.approve_tr(caller, spender, first).approve_tr(caller, spender, second)
        =~~= m.approve_tr(caller, spender, second));
}

} // verus!
