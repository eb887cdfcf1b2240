//! The messages of the geyser protocol.

use crate::confirmed_block::{BlockHeight, Rewards, RewardsView, UnixTimestamp};
use crate::timestamp::Timestamp;
use vstd::hash_map::StringHashMap;
use vstd::prelude::*;

verus! {

/// A cuckoo filter on the wire: its slots, the geometry of its table and the seed of its hasher.
#[derive(Debug)]
pub struct CuckooFilter {
    /// The slots in their order, each as two bytes, the low one first.
    pub data: Vec<u8>,
    pub bucket_count: u64,
    pub entries_per_bucket: u32,
    pub fingerprint_bits: u32,
    pub hash_seed: u64,
}

/// A condition on the contents of an account.
#[derive(Debug)]
pub enum SubscribeRequestFilterAccountsFilter {
    Memcmp { offset: u64, data: Vec<u8> },
    Datasize(u64),
    TokenAccountState(bool),
}

/// Which accounts a subscriber asks for: by key, by owner, by contents, or by a cuckoo filter.
#[derive(Debug)]
pub struct SubscribeRequestFilterAccounts {
    pub account: Vec<String>,
    pub owner: Vec<String>,
    pub filters: Vec<SubscribeRequestFilterAccountsFilter>,
    pub nonempty_txn_signature: Option<bool>,
    pub cuckoo_accounts_filter: Option<CuckooFilter>,
    pub account_state: i32,
}

impl Default for SubscribeRequestFilterAccounts {
    /// A filter that names nothing.
    fn default() -> (filter: Self)
        ensures
            filter.account@.len() == 0,
            filter.owner@.len() == 0,
            filter.filters@.len() == 0,
            filter.nonempty_txn_signature is None,
            filter.cuckoo_accounts_filter is None,
            filter.account_state == 0,
    {
        SubscribeRequestFilterAccounts {
            account: Vec::new(),
            owner: Vec::new(),
            filters: Vec::new(),
            nonempty_txn_signature: None,
            cuckoo_accounts_filter: None,
            account_state: 0,
        }
    }
}

/// A subscription: the account filters, each under a name.
pub struct SubscribeRequest {
    pub accounts: StringHashMap<SubscribeRequestFilterAccounts>,
}

impl Default for SubscribeRequest {
    /// A request without filters.
    fn default() -> (request: Self)
        ensures
            request.accounts@ == Map::<Seq<char>, SubscribeRequestFilterAccounts>::empty(),
    {
        SubscribeRequest { accounts: StringHashMap::new() }
    }
}

/// An account as an update carries it.
#[derive(Debug, Clone, PartialEq)]
pub struct SubscribeUpdateAccountInfo {
    pub pubkey: Vec<u8>,
    pub lamports: u64,
    pub owner: Vec<u8>,
    pub executable: bool,
    pub rent_epoch: u64,
    pub data: Vec<u8>,
    pub write_version: u64,
    pub txn_signature: Option<Vec<u8>>,
    /// Index in its block of the transaction that wrote the account, counted from zero, or the
    /// largest number where no transaction did.
    pub transaction_index: u64,
}

/// What a [`SubscribeUpdateAccountInfo`] says.
#[verifier::ext_equal]
pub struct AccountInfoView {
    pub pubkey: Seq<u8>,
    pub lamports: u64,
    pub owner: Seq<u8>,
    pub executable: bool,
    pub rent_epoch: u64,
    pub data: Seq<u8>,
    pub write_version: u64,
    pub txn_signature: Option<Seq<u8>>,
    pub transaction_index: u64,
}

impl View for SubscribeUpdateAccountInfo {
    type V = AccountInfoView;

    open spec fn view(&self) -> AccountInfoView {
        AccountInfoView {
            pubkey: self.pubkey@,
            lamports: self.lamports,
            owner: self.owner@,
            executable: self.executable,
            rent_epoch: self.rent_epoch,
            data: self.data@,
            write_version: self.write_version,
            txn_signature: match self.txn_signature {
                Some(signature) => Some(signature@),
                None => None,
            },
            transaction_index: self.transaction_index,
        }
    }
}

impl AccountInfoView {
    /// An account of which nothing is known.
    pub open spec fn unset() -> Self {
        AccountInfoView {
            pubkey: seq![],
            lamports: 0,
            owner: seq![],
            executable: false,
            rent_epoch: 0,
            data: seq![],
            write_version: 0,
            txn_signature: None,
            transaction_index: 0,
        }
    }
}

impl Default for SubscribeUpdateAccountInfo {
    /// An account of which nothing is known.
    fn default() -> (info: Self)
        ensures
            info@ == AccountInfoView::unset(),
    {
        SubscribeUpdateAccountInfo {
            pubkey: Vec::new(),
            lamports: 0,
            owner: Vec::new(),
            executable: false,
            rent_epoch: 0,
            data: Vec::new(),
            write_version: 0,
            txn_signature: None,
            transaction_index: 0,
        }
    }
}

/// An update on one account.
#[derive(Debug, Clone, PartialEq)]
pub struct SubscribeUpdateAccount {
    pub account: Option<SubscribeUpdateAccountInfo>,
    pub slot: u64,
    pub is_startup: bool,
}

/// What a [`SubscribeUpdateAccount`] says.
#[verifier::ext_equal]
pub struct AccountUpdateView {
    pub account: Option<AccountInfoView>,
    pub slot: u64,
    pub is_startup: bool,
}

impl View for SubscribeUpdateAccount {
    type V = AccountUpdateView;

    open spec fn view(&self) -> AccountUpdateView {
        AccountUpdateView {
            account: match self.account {
                Some(info) => Some(info@),
                None => None,
            },
            slot: self.slot,
            is_startup: self.is_startup,
        }
    }
}

/// An update on a slot.
#[derive(Debug, Clone, PartialEq)]
pub struct SubscribeUpdateSlot {
    pub slot: u64,
    pub parent: Option<u64>,
    /// The number of a [`SlotStatus`].
    pub status: i32,
    pub dead_error: Option<String>,
}

/// What a [`SubscribeUpdateSlot`] says.
#[verifier::ext_equal]
pub struct SlotUpdateView {
    pub slot: u64,
    pub parent: Option<u64>,
    pub status: i32,
    pub dead_error: Option<Seq<char>>,
}

impl View for SubscribeUpdateSlot {
    type V = SlotUpdateView;

    open spec fn view(&self) -> SlotUpdateView {
        SlotUpdateView {
            slot: self.slot,
            parent: self.parent,
            status: self.status,
            dead_error: match self.dead_error {
                Some(text) => Some(text@),
                None => None,
            },
        }
    }
}

/// A transaction as an update carries it. The transaction itself and what became of it are carried
/// in their stored form, which is not looked into.
#[derive(Debug, Clone, PartialEq)]
pub struct SubscribeUpdateTransactionInfo {
    pub signature: Vec<u8>,
    pub is_vote: bool,
    pub transaction: Option<Vec<u8>>,
    pub meta: Option<Vec<u8>>,
    pub index: u64,
}

/// What a [`SubscribeUpdateTransactionInfo`] says.
#[verifier::ext_equal]
pub struct TransactionInfoView {
    pub signature: Seq<u8>,
    pub is_vote: bool,
    pub transaction: Option<Seq<u8>>,
    pub meta: Option<Seq<u8>>,
    pub index: u64,
}

impl View for SubscribeUpdateTransactionInfo {
    type V = TransactionInfoView;

    open spec fn view(&self) -> TransactionInfoView {
        TransactionInfoView {
            signature: self.signature@,
            is_vote: self.is_vote,
            transaction: match self.transaction {
                Some(bytes) => Some(bytes@),
                None => None,
            },
            meta: match self.meta {
                Some(bytes) => Some(bytes@),
                None => None,
            },
            index: self.index,
        }
    }
}

/// An update on one transaction.
#[derive(Debug, Clone, PartialEq)]
pub struct SubscribeUpdateTransaction {
    pub transaction: Option<SubscribeUpdateTransactionInfo>,
    pub slot: u64,
}

/// What a [`SubscribeUpdateTransaction`] says.
#[verifier::ext_equal]
pub struct TransactionUpdateView {
    pub transaction: Option<TransactionInfoView>,
    pub slot: u64,
}

impl View for SubscribeUpdateTransaction {
    type V = TransactionUpdateView;

    open spec fn view(&self) -> TransactionUpdateView {
        TransactionUpdateView {
            transaction: match self.transaction {
                Some(info) => Some(info@),
                None => None,
            },
            slot: self.slot,
        }
    }
}

/// An update on one entry.
#[derive(Debug, Clone, PartialEq)]
pub struct SubscribeUpdateEntry {
    pub slot: u64,
    pub index: u64,
    pub num_hashes: u64,
    pub hash: Vec<u8>,
    pub executed_transaction_count: u64,
    pub starting_transaction_index: u64,
}

/// What a [`SubscribeUpdateEntry`] says.
#[verifier::ext_equal]
pub struct EntryUpdateView {
    pub slot: u64,
    pub index: u64,
    pub num_hashes: u64,
    pub hash: Seq<u8>,
    pub executed_transaction_count: u64,
    pub starting_transaction_index: u64,
}

impl View for SubscribeUpdateEntry {
    type V = EntryUpdateView;

    open spec fn view(&self) -> EntryUpdateView {
        EntryUpdateView {
            slot: self.slot,
            index: self.index,
            num_hashes: self.num_hashes,
            hash: self.hash@,
            executed_transaction_count: self.executed_transaction_count,
            starting_transaction_index: self.starting_transaction_index,
        }
    }
}

/// The accounts of an update on a whole block; the rest of the block is skipped.
#[derive(Debug, Clone, PartialEq)]
pub struct SubscribeUpdateBlock {
    pub accounts: Vec<SubscribeUpdateAccountInfo>,
}

impl View for SubscribeUpdateBlock {
    type V = Seq<AccountInfoView>;

    open spec fn view(&self) -> Seq<AccountInfoView> {
        self.accounts@.map_values(|info: SubscribeUpdateAccountInfo| info@)
    }
}

/// What an update tells.
#[derive(Debug, Clone, PartialEq)]
pub enum UpdateOneof {
    Account(SubscribeUpdateAccount),
    Slot(SubscribeUpdateSlot),
    Transaction(SubscribeUpdateTransaction),
    Block(SubscribeUpdateBlock),
    BlockMeta(SubscribeUpdateBlockMeta),
    Entry(SubscribeUpdateEntry),
}

/// What an [`UpdateOneof`] says.
#[verifier::ext_equal]
pub enum UpdateOneofView {
    Account(AccountUpdateView),
    Slot(SlotUpdateView),
    Transaction(TransactionUpdateView),
    Block(Seq<AccountInfoView>),
    BlockMeta(BlockMetaView),
    Entry(EntryUpdateView),
}

impl View for UpdateOneof {
    type V = UpdateOneofView;

    open spec fn view(&self) -> UpdateOneofView {
        match *self {
            UpdateOneof::Account(update) => UpdateOneofView::Account(update@),
            UpdateOneof::Slot(update) => UpdateOneofView::Slot(update@),
            UpdateOneof::Transaction(update) => UpdateOneofView::Transaction(update@),
            UpdateOneof::Block(block) => UpdateOneofView::Block(block@),
            UpdateOneof::BlockMeta(meta) => UpdateOneofView::BlockMeta(meta@),
            UpdateOneof::Entry(update) => UpdateOneofView::Entry(update@),
        }
    }
}

/// An update: the names of the filters that it passed, what it tells, and when it was made.
#[derive(Debug, Clone, PartialEq)]
pub struct SubscribeUpdate {
    pub filters: Vec<String>,
    pub update_oneof: Option<UpdateOneof>,
    pub created_at: Option<Timestamp>,
}

/// What a [`SubscribeUpdate`] says.
#[verifier::ext_equal]
pub struct UpdateView {
    pub filters: Seq<Seq<char>>,
    pub update_oneof: Option<UpdateOneofView>,
    pub created_at: Option<Timestamp>,
}

/// The texts in a list.
pub open spec fn texts_of(texts: Seq<String>) -> Seq<Seq<char>> {
    texts.map_values(|text: String| text@)
}

impl View for SubscribeUpdate {
    type V = UpdateView;

    open spec fn view(&self) -> UpdateView {
        UpdateView {
            filters: texts_of(self.filters@),
            update_oneof: match self.update_oneof {
                Some(update) => Some(update@),
                None => None,
            },
            created_at: self.created_at,
        }
    }
}

/// How sure a block is, on the wire.
#[derive(Debug, Clone, Copy, PartialEq, Eq, Structural)]
pub enum CommitmentLevel {
    Processed,
    Confirmed,
    Finalized,
}

/// What happened to a slot, on the wire.
#[derive(Debug, Clone, Copy, PartialEq, Eq, Structural)]
pub enum SlotStatus {
    SlotProcessed,
    SlotConfirmed,
    SlotFinalized,
    SlotFirstShredReceived,
    SlotCompleted,
    SlotCreatedBank,
    SlotDead,
}

impl SlotStatus {
    /// The number of the status.
    pub open spec fn spec_number(self) -> i32 {
        match self {
            SlotStatus::SlotProcessed => 0,
            SlotStatus::SlotConfirmed => 1,
            SlotStatus::SlotFinalized => 2,
            SlotStatus::SlotFirstShredReceived => 3,
            SlotStatus::SlotCompleted => 4,
            SlotStatus::SlotCreatedBank => 5,
            SlotStatus::SlotDead => 6,
        }
    }

    /// The number of the status.
    pub fn number(self) -> (number: i32)
        ensures
            number == self.spec_number(),
    {
        match self {
            SlotStatus::SlotProcessed => 0,
            SlotStatus::SlotConfirmed => 1,
            SlotStatus::SlotFinalized => 2,
            SlotStatus::SlotFirstShredReceived => 3,
            SlotStatus::SlotCompleted => 4,
            SlotStatus::SlotCreatedBank => 5,
            SlotStatus::SlotDead => 6,
        }
    }
}

/// The description of a block.
#[derive(Debug, PartialEq)]
pub struct SubscribeUpdateBlockMeta {
    pub slot: u64,
    pub blockhash: String,
    pub rewards: Option<Rewards>,
    pub block_time: Option<UnixTimestamp>,
    pub block_height: Option<BlockHeight>,
    pub parent_slot: u64,
    pub parent_blockhash: String,
    pub executed_transaction_count: u64,
    pub entries_count: u64,
}

/// What a [`SubscribeUpdateBlockMeta`] says.
#[verifier::ext_equal]
pub struct BlockMetaView {
    pub slot: u64,
    pub blockhash: Seq<char>,
    pub rewards: Option<RewardsView>,
    pub block_time: Option<UnixTimestamp>,
    pub block_height: Option<BlockHeight>,
    pub parent_slot: u64,
    pub parent_blockhash: Seq<char>,
    pub executed_transaction_count: u64,
    pub entries_count: u64,
}

impl View for SubscribeUpdateBlockMeta {
    type V = BlockMetaView;

    open spec fn view(&self) -> BlockMetaView {
        BlockMetaView {
            slot: self.slot,
            blockhash: self.blockhash@,
            rewards: match self.rewards {
                Some(rewards) => Some(rewards@),
                None => None,
            },
            block_time: self.block_time,
            block_height: self.block_height,
            parent_slot: self.parent_slot,
            parent_blockhash: self.parent_blockhash@,
            executed_transaction_count: self.executed_transaction_count,
            entries_count: self.entries_count,
        }
    }
}

impl Clone for SubscribeUpdateBlockMeta {
    fn clone(&self) -> (copy: Self)
        ensures
            copy@ == self@,
    {
        SubscribeUpdateBlockMeta {
            slot: self.slot,
            blockhash: self.blockhash.clone(),
            rewards: match &self.rewards {
                Some(rewards) => Some(rewards.clone()),
                None => None,
            },
            block_time: self.block_time,
            block_height: self.block_height,
            parent_slot: self.parent_slot,
            parent_blockhash: self.parent_blockhash.clone(),
            executed_transaction_count: self.executed_transaction_count,
            entries_count: self.entries_count,
        }
    }
}

impl Default for SubscribeUpdateBlockMeta {
    /// A block of which nothing is known.
    fn default() -> (meta: Self)
        ensures
            meta.slot == 0,
            meta.blockhash@ == Seq::<char>::empty(),
            meta.rewards is None,
            meta.block_time is None,
            meta.block_height is None,
            meta.parent_slot == 0,
            meta.parent_blockhash@ == Seq::<char>::empty(),
            meta.executed_transaction_count == 0,
            meta.entries_count == 0,
    {
        SubscribeUpdateBlockMeta {
            slot: 0,
            blockhash: String::new(),
            rewards: None,
            block_time: None,
            block_height: None,
            parent_slot: 0,
            parent_blockhash: String::new(),
            executed_transaction_count: 0,
            entries_count: 0,
        }
    }
}

} // verus!
