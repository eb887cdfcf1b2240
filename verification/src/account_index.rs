//! The origin of an account write, for those who only read it.

use crate::geyser::SubscribeUpdateAccountInfo;
use vstd::prelude::*;

verus! {

/// Where an account write comes from. Indices count from zero; an index that was left out cannot
/// be told from `Transaction(0)`.
#[derive(Debug, Clone, Copy, PartialEq, Eq, Hash, Structural)]
pub enum AccountIndex {
    NoTransaction,
    Transaction(u64),
}

impl AccountIndex {
    /// The origin that a number on the wire stands for.
    pub open spec fn of_wire(transaction_index: u64) -> Self {
        if transaction_index == u64::MAX {
            AccountIndex::NoTransaction
        } else {
            AccountIndex::Transaction(transaction_index)
        }
    }

    /// The origin that a number on the wire stands for: the largest number stands for no
    /// transaction, any other for the transaction with that index.
    pub fn from_wire(transaction_index: u64) -> (index: Self)
        ensures
            index == Self::of_wire(transaction_index),
    {
        if transaction_index == u64::MAX {
            AccountIndex::NoTransaction
        } else {
            AccountIndex::Transaction(transaction_index)
        }
    }
}

impl SubscribeUpdateAccountInfo {
    /// Where this write of the account comes from.
    pub fn account_index(&self) -> (index: AccountIndex)
        ensures
            index == AccountIndex::of_wire(self.transaction_index),
    {
        AccountIndex::from_wire(self.transaction_index)
    }
}

} // verus!
