//! Updates as they go out to subscribers.

use crate::account_codec::{account_bytes, write_account, AccountParts};
use crate::fields::{
    encode, encode_fields, message_bytes, push_integer, push_some_bytes, views_of, Field,
    FieldMessage,
};
use crate::geyser::{
    texts_of, AccountInfoView, AccountUpdateView, EntryUpdateView, SlotStatus as SlotStatusProto,
    SlotUpdateView, SubscribeUpdate, SubscribeUpdateAccount, SubscribeUpdateAccountInfo,
    SubscribeUpdateEntry, SubscribeUpdateSlot, SubscribeUpdateTransaction,
    SubscribeUpdateTransactionInfo, TransactionInfoView, TransactionUpdateView, UpdateOneof,
    UpdateOneofView, UpdateView,
};
use crate::message::{
    account_fault, Message, MessageAccount, MessageAccountInfo, MessageAccountInfoView,
    MessageAccountView, MessageBlockMeta, MessageEntry, MessageSlot, MessageTransaction, SlotStatus,
};
use crate::timestamp::Timestamp;
use crate::update_codec::{
    fits_update, law_update_round_trip, push_filters, to_oneof_field, update_bytes, ACCOUNT_TAG,
    ACCOUNT_UPDATE_TAG, CREATED_AT_TAG, IS_STARTUP_TAG, SLOT_TAG,
};
use crate::wire::{decoded, DecodeError};
use std::sync::Arc;
use vstd::pervasive::unreached;
use vstd::prelude::*;
use vstd::slice::slice_to_vec;

verus! {

/// What an update tells.
#[derive(Debug, Clone, PartialEq)]
pub enum FilteredUpdateOneof {
    Account(MessageAccount),
    Slot(MessageSlot),
    Transaction(MessageTransaction),
    Entry(Arc<MessageEntry>),
    BlockMeta(Arc<MessageBlockMeta>),
}

/// An update, with the names of the filters that it passed and the time at which the message that
/// it tells of was made.
#[derive(Debug, Clone, PartialEq)]
pub struct FilteredUpdate {
    pub filters: Vec<String>,
    pub update_oneof: FilteredUpdateOneof,
    pub created_at: Timestamp,
}

/// What the account of a message says on the wire.
pub open spec fn account_on_wire(info: MessageAccountInfoView) -> AccountInfoView {
    AccountInfoView {
        pubkey: info.pubkey@,
        lamports: info.lamports,
        owner: info.owner@,
        executable: info.executable,
        rent_epoch: info.rent_epoch,
        data: info.data,
        write_version: info.write_version,
        txn_signature: match info.txn_signature {
            Some(signature) => Some(signature@),
            None => None,
        },
        transaction_index: info.transaction_index,
    }
}

/// What an account message says on the wire.
pub open spec fn account_update_on_wire(message: MessageAccountView) -> AccountUpdateView {
    AccountUpdateView {
        account: Some(account_on_wire(message.account)),
        slot: message.slot,
        is_startup: message.is_startup,
    }
}

/// The number of the status of a slot on the wire.
pub open spec fn status_on_wire(status: SlotStatus) -> i32 {
    match status {
        SlotStatus::Processed => SlotStatusProto::SlotProcessed.spec_number(),
        SlotStatus::Confirmed => SlotStatusProto::SlotConfirmed.spec_number(),
        SlotStatus::Finalized => SlotStatusProto::SlotFinalized.spec_number(),
        SlotStatus::FirstShredReceived => SlotStatusProto::SlotFirstShredReceived.spec_number(),
        SlotStatus::Completed => SlotStatusProto::SlotCompleted.spec_number(),
        SlotStatus::CreatedBank => SlotStatusProto::SlotCreatedBank.spec_number(),
        SlotStatus::Dead => SlotStatusProto::SlotDead.spec_number(),
    }
}

/// What the news of a slot says on the wire.
pub open spec fn slot_on_wire(message: MessageSlot) -> SlotUpdateView {
    SlotUpdateView {
        slot: message.slot,
        parent: message.parent,
        status: status_on_wire(message.status),
        dead_error: match message.dead_error {
            Some(text) => Some(text@),
            None => None,
        },
    }
}

/// What the news of a transaction says on the wire.
pub open spec fn transaction_on_wire(message: MessageTransaction) -> TransactionUpdateView {
    TransactionUpdateView {
        transaction: Some(
            TransactionInfoView {
                signature: message.transaction.signature@,
                is_vote: message.transaction.is_vote,
                transaction: Some(message.transaction.transaction.stored@),
                meta: Some(message.transaction.meta.stored@),
                index: message.transaction.index as u64,
            },
        ),
        slot: message.slot,
    }
}

/// What an entry says on the wire.
pub open spec fn entry_on_wire(message: MessageEntry) -> EntryUpdateView {
    EntryUpdateView {
        slot: message.slot,
        index: message.index as u64,
        num_hashes: message.num_hashes,
        hash: message.hash@,
        executed_transaction_count: message.executed_transaction_count,
        starting_transaction_index: message.starting_transaction_index,
    }
}

/// The account of a message as it goes on the wire.
fn account_for_wire(info: &MessageAccountInfo) -> (account: SubscribeUpdateAccountInfo)
    ensures
        account@ == account_on_wire(info@),
{
    let account = SubscribeUpdateAccountInfo {
        pubkey: slice_to_vec(info.pubkey.to_bytes().as_slice()),
        lamports: info.lamports,
        owner: slice_to_vec(info.owner.to_bytes().as_slice()),
        executable: info.executable,
        rent_epoch: info.rent_epoch,
        data: slice_to_vec(info.data.as_slice()),
        write_version: info.write_version,
        txn_signature: match info.txn_signature {
            Some(signature) => Some(slice_to_vec(signature.to_bytes().as_slice())),
            None => None,
        },
        transaction_index: info.transaction_index,
    };
    assert(account@ =~= account_on_wire(info@));
    account
}

impl FilteredUpdateOneof {
    /// When the message that the update tells of was made.
    pub open spec fn made_at(self) -> Timestamp {
        match self {
            FilteredUpdateOneof::Account(message) => message.created_at,
            FilteredUpdateOneof::Slot(message) => message.created_at,
            FilteredUpdateOneof::Transaction(message) => message.created_at,
            FilteredUpdateOneof::Entry(message) => message.created_at,
            FilteredUpdateOneof::BlockMeta(message) => message.created_at,
        }
    }

    /// What the update tells on the wire.
    pub open spec fn on_wire(self) -> UpdateOneofView {
        match self {
            FilteredUpdateOneof::Account(message) => UpdateOneofView::Account(
                account_update_on_wire(message@),
            ),
            FilteredUpdateOneof::Slot(message) => UpdateOneofView::Slot(slot_on_wire(message)),
            FilteredUpdateOneof::Transaction(message) => UpdateOneofView::Transaction(
                transaction_on_wire(message),
            ),
            FilteredUpdateOneof::Entry(message) => UpdateOneofView::Entry(entry_on_wire(*message)),
            FilteredUpdateOneof::BlockMeta(message) => UpdateOneofView::BlockMeta(
                message.block_meta@,
            ),
        }
    }

    /// When the message that the update tells of was made.
    pub fn created_at(&self) -> (time: Timestamp)
        ensures
            time == self.made_at(),
    {
        match self {
            FilteredUpdateOneof::Account(message) => message.created_at,
            FilteredUpdateOneof::Slot(message) => message.created_at,
            FilteredUpdateOneof::Transaction(message) => message.created_at,
            FilteredUpdateOneof::Entry(message) => message.created_at,
            FilteredUpdateOneof::BlockMeta(message) => message.created_at,
        }
    }

    /// What the update tells as a subscriber reads it.
    pub fn as_update_oneof(&self) -> (update: UpdateOneof)
        ensures
            update@ == self.on_wire(),
    {
        match self {
            FilteredUpdateOneof::Account(message) => {
                let update = SubscribeUpdateAccount {
                    account: Some(account_for_wire(&message.account)),
                    slot: message.slot,
                    is_startup: message.is_startup,
                };
                assert(update@ =~= account_update_on_wire(message@));
                UpdateOneof::Account(update)
            },
            FilteredUpdateOneof::Slot(message) => {
                let status: SlotStatusProto = SlotStatusProto::from(message.status);
                let update = SubscribeUpdateSlot {
                    slot: message.slot,
                    parent: message.parent,
                    status: status.number(),
                    dead_error: match &message.dead_error {
                        Some(text) => Some(text.clone()),
                        None => None,
                    },
                };
                assert(update@ =~= slot_on_wire(*message));
                UpdateOneof::Slot(update)
            },
            FilteredUpdateOneof::Transaction(message) => {
                let info = &message.transaction;
                let part = SubscribeUpdateTransactionInfo {
                    signature: slice_to_vec(info.signature.to_bytes().as_slice()),
                    is_vote: info.is_vote,
                    transaction: Some(slice_to_vec(info.transaction.stored.as_slice())),
                    meta: Some(slice_to_vec(info.meta.stored.as_slice())),
                    index: info.index as u64,
                };
                let update = SubscribeUpdateTransaction {
                    transaction: Some(part),
                    slot: message.slot,
                };
                assert(update@ =~= transaction_on_wire(*message));
                UpdateOneof::Transaction(update)
            },
            FilteredUpdateOneof::Entry(message) => {
                let update = SubscribeUpdateEntry {
                    slot: message.slot,
                    index: message.index as u64,
                    num_hashes: message.num_hashes,
                    hash: slice_to_vec(message.hash.to_bytes().as_slice()),
                    executed_transaction_count: message.executed_transaction_count,
                    starting_transaction_index: message.starting_transaction_index,
                };
                assert(update@ =~= entry_on_wire(**message));
                UpdateOneof::Entry(update)
            },
            FilteredUpdateOneof::BlockMeta(message) => UpdateOneof::BlockMeta(
                message.block_meta.clone(),
            ),
        }
    }
}

impl FilteredUpdate {
    /// What the update says on the wire.
    pub open spec fn on_wire(self) -> UpdateView {
        UpdateView {
            filters: texts_of(self.filters@),
            update_oneof: Some(self.update_oneof.on_wire()),
            created_at: Some(self.created_at),
        }
    }

    /// An update that passed no filter, made when the message was that it tells of.
    pub fn new_empty(update_oneof: FilteredUpdateOneof) -> (update: Self)
        ensures
            update.filters@.len() == 0,
            update.update_oneof == update_oneof,
            update.created_at == update_oneof.made_at(),
    {
        let created_at = update_oneof.created_at();
        FilteredUpdate { filters: Vec::new(), update_oneof, created_at }
    }

    /// The update as a subscriber reads it.
    pub fn as_subscribe_update(&self) -> (update: SubscribeUpdate)
        ensures
            update@ == self.on_wire(),
    {
        let mut filters: Vec<String> = Vec::new();
        let mut i: usize = 0;
        while i < self.filters.len()
            invariant
                i <= self.filters@.len(),
                filters@.len() == i,
                forall|j: int| 0 <= j < i ==> #[trigger] filters@[j]@ == self.filters@[j]@,
            decreases self.filters@.len() - i,
        {
            filters.push(self.filters[i].clone());
            i += 1;
        }
        let update = SubscribeUpdate {
            filters,
            update_oneof: Some(self.update_oneof.as_update_oneof()),
            created_at: Some(self.created_at),
        };
        assert(update@.filters =~= texts_of(self.filters@));
        update
    }

    /// The bytes of the update. Those of an account are written straight from the message.
    pub fn encode_to_vec(&self) -> (bytes: Vec<u8>)
        ensures
            bytes@ == update_bytes(self.on_wire()),
    {
        let mut fields: Vec<Field> = Vec::new();
        push_filters(&mut fields, &self.filters);
        let told = match &self.update_oneof {
            FilteredUpdateOneof::Account(message) => Field::Bytes(
                ACCOUNT_UPDATE_TAG,
                encode_account_update(message),
            ),
            _ => to_oneof_field(&self.update_oneof.as_update_oneof()),
        };
        fields.push(told);
        push_some_bytes(&mut fields, CREATED_AT_TAG, encode(&self.created_at));
        assert(views_of(fields@) =~= SubscribeUpdate::fields(self.on_wire()));
        encode_fields(&fields)
    }

    /// The number of bytes of the update.
    pub fn encoded_len(&self) -> (len: usize)
        ensures
            len == update_bytes(self.on_wire()).len(),
    {
        self.encode_to_vec().len()
    }
}

/// The bytes of an account message.
fn encode_account_update(message: &MessageAccount) -> (bytes: Vec<u8>)
    ensures
        bytes@ == message_bytes::<SubscribeUpdateAccount>(account_update_on_wire(message@)),
{
    let mut fields: Vec<Field> = Vec::new();
    push_some_bytes(&mut fields, ACCOUNT_TAG, encode_account(&message.account));
    push_integer(&mut fields, SLOT_TAG, message.slot);
    push_integer(&mut fields, IS_STARTUP_TAG, if message.is_startup { 1 } else { 0 });
    assert(views_of(fields@) =~= SubscribeUpdateAccount::fields(account_update_on_wire(message@)));
    encode_fields(&fields)
}

/// The bytes of the account of a message.
fn encode_account(info: &MessageAccountInfo) -> (bytes: Vec<u8>)
    ensures
        bytes@ == account_bytes(account_on_wire(info@)),
{
    let mut bytes: Vec<u8> = Vec::new();
    let pubkey = info.pubkey.to_bytes();
    let owner = info.owner.to_bytes();
    let signature = match info.txn_signature {
        Some(signature) => Some(signature.to_bytes()),
        None => None,
    };
    let parts = AccountParts {
        pubkey: pubkey.as_slice(),
        lamports: info.lamports,
        owner: owner.as_slice(),
        executable: info.executable,
        rent_epoch: info.rent_epoch,
        data: info.data.as_slice(),
        write_version: info.write_version,
        txn_signature: match &signature {
            Some(bytes) => Some(bytes.as_slice()),
            None => None,
        },
        transaction_index: info.transaction_index,
    };
    write_account(&mut bytes, &parts);
    assert(parts@ =~= account_on_wire(info@));
    assert(bytes@ =~= account_bytes(account_on_wire(info@)));
    bytes
}

/// The update that a raw client gets of a message. Raw clients get no whole blocks.
pub fn raw_update(message: Message) -> (update: FilteredUpdate)
    requires
        !(message is Block),
    ensures
        update.filters@.len() == 0,
        update.created_at == message.made_at(),
        match message {
            Message::Account(news) => update.update_oneof == FilteredUpdateOneof::Account(news),
            Message::Slot(news) => update.update_oneof == FilteredUpdateOneof::Slot(news),
            Message::Transaction(news) => update.update_oneof == FilteredUpdateOneof::Transaction(
                news,
            ),
            Message::Entry(news) => update.update_oneof == FilteredUpdateOneof::Entry(news),
            Message::BlockMeta(news) => update.update_oneof == FilteredUpdateOneof::BlockMeta(news),
            Message::Block(_) => false,
        },
{
    let update_oneof = match message {
        Message::Account(news) => FilteredUpdateOneof::Account(news),
        Message::Slot(news) => FilteredUpdateOneof::Slot(news),
        Message::Transaction(news) => FilteredUpdateOneof::Transaction(news),
        Message::Entry(news) => FilteredUpdateOneof::Entry(news),
        Message::BlockMeta(news) => FilteredUpdateOneof::BlockMeta(news),
        Message::Block(_) => unreached(),
    };
    FilteredUpdate::new_empty(update_oneof)
}

/// What is written of an update reads as that update: with the names of its filters, what it tells,
/// and the time at which it was made.
pub proof fn law_filtered_update_survives_the_wire(update: FilteredUpdate)
    requires
        fits_update(update.on_wire()),
    ensures
        decoded::<SubscribeUpdate>(update_bytes(update.on_wire())) == Ok::<UpdateView, DecodeError>(
            update.on_wire(),
        ),
{
    law_update_round_trip(update.on_wire());
}

/// What is written of the account of a message is taken for an account again.
pub proof fn law_written_account_is_accepted(
    info: MessageAccountInfoView,
    written: SubscribeUpdateAccountInfo,
)
    requires
        written@ == account_on_wire(info),
    ensures
        account_fault(written) is None,
{
    info.pubkey.lemma_view(info.owner);
    info.owner.lemma_view(info.pubkey);
    if let Some(signature) = info.txn_signature {
        signature.lemma_view(signature);
    }
}

} // verus!
