//! Transactions and rewards as they are stored with a block.

use vstd::prelude::*;

verus! {

/// The accounts that a transaction names itself.
#[derive(Debug, Clone, PartialEq)]
pub struct TransactionMessage {
    pub account_keys: Vec<Vec<u8>>,
}

/// A transaction: its message as far as it is read here, and the whole in its stored form.
#[derive(Debug, Clone, PartialEq)]
pub struct Transaction {
    pub message: Option<TransactionMessage>,
    pub stored: Vec<u8>,
}

/// What became of a transaction: the accounts that it loaded from tables, and the whole in its
/// stored form.
#[derive(Debug, Clone, PartialEq)]
pub struct TransactionStatusMeta {
    pub loaded_writable_addresses: Vec<Vec<u8>>,
    pub loaded_readonly_addresses: Vec<Vec<u8>>,
    pub stored: Vec<u8>,
}

/// What an account was paid or charged in a block.
#[derive(Debug, PartialEq)]
pub struct Reward {
    pub pubkey: String,
    pub lamports: i64,
    pub post_balance: u64,
    pub reward_type: i32,
    pub commission: String,
}

/// What a [`Reward`] says.
#[verifier::ext_equal]
pub struct RewardView {
    pub pubkey: Seq<char>,
    pub lamports: i64,
    pub post_balance: u64,
    pub reward_type: i32,
    pub commission: Seq<char>,
}

impl View for Reward {
    type V = RewardView;

    open spec fn view(&self) -> RewardView {
        RewardView {
            pubkey: self.pubkey@,
            lamports: self.lamports,
            post_balance: self.post_balance,
            reward_type: self.reward_type,
            commission: self.commission@,
        }
    }
}

impl Clone for Reward {
    fn clone(&self) -> (copy: Self)
        ensures
            copy@ == self@,
    {
        Reward {
            pubkey: self.pubkey.clone(),
            lamports: self.lamports,
            post_balance: self.post_balance,
            reward_type: self.reward_type,
            commission: self.commission.clone(),
        }
    }
}

/// Over how many blocks the rewards of an epoch are spread.
#[derive(Debug, Clone, Copy, PartialEq, Eq, Structural)]
pub struct NumPartitions {
    pub num_partitions: u64,
}

impl View for NumPartitions {
    type V = NumPartitions;

    open spec fn view(&self) -> NumPartitions {
        *self
    }
}

/// The rewards of a block.
#[derive(Debug, PartialEq)]
pub struct Rewards {
    pub rewards: Vec<Reward>,
    pub num_partitions: Option<NumPartitions>,
}

/// What [`Rewards`] say.
#[verifier::ext_equal]
pub struct RewardsView {
    pub rewards: Seq<RewardView>,
    pub num_partitions: Option<NumPartitions>,
}

impl View for Rewards {
    type V = RewardsView;

    open spec fn view(&self) -> RewardsView {
        RewardsView {
            rewards: self.rewards@.map_values(|reward: Reward| reward@),
            num_partitions: self.num_partitions,
        }
    }
}

impl Clone for Rewards {
    fn clone(&self) -> (copy: Self)
        ensures
            copy@ == self@,
    {
        let mut rewards: Vec<Reward> = Vec::new();
        let mut i: usize = 0;
        while i < self.rewards.len()
            invariant
                i <= self.rewards@.len(),
                rewards@.len() == i,
                forall|j: int| 0 <= j < i ==> #[trigger] rewards@[j]@ == self.rewards@[j]@,
            decreases self.rewards@.len() - i,
        {
            rewards.push(self.rewards[i].clone());
            i += 1;
        }
        let copy = Rewards { rewards, num_partitions: self.num_partitions };
        assert(copy@.rewards =~= self@.rewards);
        copy
    }
}

/// Seconds since the start of 1970.
#[derive(Debug, Clone, Copy, PartialEq, Eq, Structural)]
pub struct UnixTimestamp {
    pub timestamp: i64,
}

impl View for UnixTimestamp {
    type V = UnixTimestamp;

    open spec fn view(&self) -> UnixTimestamp {
        *self
    }
}

/// The number of blocks below a block.
#[derive(Debug, Clone, Copy, PartialEq, Eq, Structural)]
pub struct BlockHeight {
    pub block_height: u64,
}

impl View for BlockHeight {
    type V = BlockHeight;

    open spec fn view(&self) -> BlockHeight {
        *self
    }
}

} // verus!
