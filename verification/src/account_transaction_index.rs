//! The origin of an account write, for those who read and set it.

use crate::account_index::AccountIndex;
use crate::geyser::SubscribeUpdateAccountInfo;
use vstd::prelude::*;

verus! {

/// Where an account write comes from. Indices count from zero and are not shifted. Producers that
/// leave the index out cannot be told from those that write `Transaction(0)`. The number that
/// stands for `NoTransaction` cannot be a transaction's own: the setter
/// [`SubscribeUpdateAccountInfo::set_account_transaction_index`] refuses it, while `to_wire` maps
/// whatever it is given.
#[derive(Debug, Clone, Copy, PartialEq, Eq, Hash, Structural)]
pub enum AccountTransactionIndex {
    Transaction(u64),
    NoTransaction,
}

/// `Transaction(u64::MAX)` is reserved; `NoTransaction` is meant instead.
#[derive(Debug, Clone, Copy, PartialEq, Eq, Structural)]
pub struct ReservedTransactionIndex;

impl ReservedTransactionIndex {
    /// The error in words.
    pub fn message(&self) -> (text: &'static str)
        ensures
            text@ == "transaction index is reserved for NoTransaction"@,
    {
        "transaction index is reserved for NoTransaction"
    }
}

impl AccountTransactionIndex {
    /// The origin that a number on the wire stands for.
    pub open spec fn of_wire(value: u64) -> Self {
        if value == u64::MAX {
            AccountTransactionIndex::NoTransaction
        } else {
            AccountTransactionIndex::Transaction(value)
        }
    }

    /// The number on the wire that an origin is written as.
    pub open spec fn wire(self) -> u64 {
        match self {
            AccountTransactionIndex::Transaction(index) => index,
            AccountTransactionIndex::NoTransaction => u64::MAX,
        }
    }

    /// Whether this is the index that no transaction can have.
    pub open spec fn is_reserved(self) -> bool {
        self == AccountTransactionIndex::Transaction(u64::MAX)
    }

    /// The origin that a number on the wire stands for.
    pub fn from_wire(value: u64) -> (index: Self)
        ensures
            index == Self::of_wire(value),
    {
        if value == u64::MAX {
            AccountTransactionIndex::NoTransaction
        } else {
            AccountTransactionIndex::Transaction(value)
        }
    }

    /// The number on the wire that the origin is written as; the reserved index too is mapped,
    /// to the number that reads as `NoTransaction`.
    pub fn to_wire(self) -> (value: u64)
        ensures
            value == self.wire(),
    {
        match self {
            AccountTransactionIndex::Transaction(index) => index,
            AccountTransactionIndex::NoTransaction => u64::MAX,
        }
    }
}

impl SubscribeUpdateAccountInfo {
    /// Where this write of the account comes from.
    pub fn account_transaction_index(&self) -> (index: AccountTransactionIndex)
        ensures
            index == AccountTransactionIndex::of_wire(self.transaction_index),
    {
        AccountTransactionIndex::from_wire(self.transaction_index)
    }

    /// Sets where this write of the account comes from. The reserved index is refused, and then
    /// the account stays as it was.
    pub fn set_account_transaction_index(&mut self, index: AccountTransactionIndex) -> (result:
        Result<(), ReservedTransactionIndex>)
        ensures
            result is Err <==> index.is_reserved(),
            index.is_reserved() ==> *final(self) == *old(self),
            !index.is_reserved() ==> *final(self) == (SubscribeUpdateAccountInfo {
                transaction_index: index.wire(),
                ..*old(self)
            }),
    {
        if index == AccountTransactionIndex::Transaction(u64::MAX) {
            return Err(ReservedTransactionIndex);
        }
        self.transaction_index = index.to_wire();
        Ok(())
    }
}

/// Writing what was read gives the number back.
pub proof fn law_wire_round_trip(value: u64)
    ensures
        AccountTransactionIndex::of_wire(value).wire() == value,
        !AccountTransactionIndex::of_wire(value).is_reserved(),
{
}

/// Reading what was written gives the origin back, but for the reserved index, which reads as
/// `NoTransaction`.
pub proof fn law_index_round_trip(index: AccountTransactionIndex)
    ensures
        AccountTransactionIndex::of_wire(index.wire()) == if index.is_reserved() {
            AccountTransactionIndex::NoTransaction
        } else {
            index
        },
{
}

/// Both views of an origin read a number alike.
pub proof fn law_views_agree(value: u64)
    ensures
        AccountIndex::of_wire(value) == match AccountTransactionIndex::of_wire(value) {
            AccountTransactionIndex::Transaction(index) => AccountIndex::Transaction(index),
            AccountTransactionIndex::NoTransaction => AccountIndex::NoTransaction,
        },
{
}

} // verus!
