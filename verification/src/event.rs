//! The transfer notification.

use crate::account::AccountId;
use vstd::prelude::*;

verus! {

/// The record of one successful fund movement, produced for the hosting
/// environment to deliver to observers.
#[derive(Clone, Copy)]
pub struct Transfer {
    pub from: AccountId,
    pub to: AccountId,
    pub amount: u128,
}

} // verus!
