//! What the validator hands to its plugins.

use crate::confirmed_block::{Reward, Transaction, TransactionStatusMeta};
use crate::keys::{BlockHash, Pubkey, Signature};
use vstd::prelude::*;

verus! {

/// What happened to a slot.
#[derive(Debug, Clone, PartialEq)]
pub enum SlotStatus {
    Processed,
    Rooted,
    Confirmed,
    FirstShredReceived,
    Completed,
    CreatedBank,
    Dead(String),
}

/// An account that was written.
#[derive(Debug, Clone, Copy)]
pub struct ReplicaAccountInfoV3<'a> {
    pub pubkey: &'a [u8],
    pub lamports: u64,
    pub owner: &'a [u8],
    pub executable: bool,
    pub rent_epoch: u64,
    pub data: &'a [u8],
    pub write_version: u64,
    /// The signature of the transaction that wrote the account, where one did.
    pub txn: Option<Signature>,
}

/// The forms in which the validator can hand over an account.
#[derive(Debug, Clone, Copy)]
pub enum ReplicaAccountInfoVersions<'a> {
    V0_0_1,
    V0_0_2,
    V0_0_3(ReplicaAccountInfoV3<'a>),
}

/// A transaction that was executed, with the accounts that its message names.
#[derive(Debug, Clone, PartialEq)]
pub struct ReplicaTransactionInfoV2 {
    pub signature: Signature,
    pub is_vote: bool,
    pub account_keys: Vec<Pubkey>,
    pub transaction: Transaction,
    pub transaction_status_meta: TransactionStatusMeta,
    pub index: usize,
}

/// A transaction that was executed, in the later form.
#[derive(Debug, Clone, PartialEq)]
pub struct ReplicaTransactionInfoV3 {
    pub signature: Signature,
    pub message_hash: BlockHash,
    pub is_vote: bool,
    pub account_keys: Vec<Pubkey>,
    pub transaction: Transaction,
    pub transaction_status_meta: TransactionStatusMeta,
    pub index: usize,
}

/// The forms in which the validator can hand over a transaction.
#[derive(Debug, Clone, PartialEq)]
pub enum ReplicaTransactionInfoVersions {
    V0_0_1,
    V0_0_2(ReplicaTransactionInfoV2),
    V0_0_3(ReplicaTransactionInfoV3),
}

/// An entry of a block.
#[derive(Debug, Clone, Copy)]
pub struct ReplicaEntryInfoV2<'a> {
    pub slot: u64,
    pub index: usize,
    pub num_hashes: u64,
    pub hash: &'a [u8],
    pub executed_transaction_count: u64,
    pub starting_transaction_index: usize,
}

/// The forms in which the validator can hand over an entry.
#[derive(Debug, Clone, Copy)]
pub enum ReplicaEntryInfoVersions<'a> {
    V0_0_1,
    V0_0_2(ReplicaEntryInfoV2<'a>),
}

/// The rewards of a block, and over how many blocks those of the epoch are spread.
#[derive(Debug, Clone, PartialEq)]
pub struct RewardsAndNumPartitions {
    pub rewards: Vec<Reward>,
    pub num_partitions: Option<u64>,
}

/// The description of a block.
#[derive(Debug, Clone, PartialEq)]
pub struct ReplicaBlockInfoV4 {
    pub parent_slot: u64,
    pub parent_blockhash: String,
    pub slot: u64,
    pub blockhash: String,
    pub rewards: RewardsAndNumPartitions,
    pub block_time: Option<i64>,
    pub block_height: Option<u64>,
    pub executed_transaction_count: u64,
    pub entry_count: u64,
}

/// The forms in which the validator can hand over the description of a block.
#[derive(Debug, Clone, PartialEq)]
pub enum ReplicaBlockInfoVersions {
    V0_0_1,
    V0_0_2,
    V0_0_3,
    V0_0_4(ReplicaBlockInfoV4),
}

} // verus!
