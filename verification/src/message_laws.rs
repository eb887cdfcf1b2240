//! What messages promise as a whole: that they say what the validator said, and that what is
//! written of them says all of it.

use crate::confirmed_block::{Reward, Rewards};
use crate::filtered::{
    account_on_wire, account_update_on_wire, entry_on_wire, slot_on_wire, status_on_wire,
    transaction_on_wire, FilteredUpdate, FilteredUpdateOneof,
};
use crate::geyser::{
    CommitmentLevel as CommitmentLevelProto, SlotStatus as SlotStatusProto, SubscribeUpdate,
    SubscribeUpdateAccount, SubscribeUpdateAccountInfo, SubscribeUpdateBlock,
    SubscribeUpdateBlockMeta, SubscribeUpdateEntry, SubscribeUpdateSlot,
    SubscribeUpdateTransaction, SubscribeUpdateTransactionInfo, UpdateOneof,
};
use crate::geyser_plugin_interface::{
    ReplicaAccountInfoV3, ReplicaBlockInfoV4, ReplicaEntryInfoV2, ReplicaTransactionInfoV2,
    ReplicaTransactionInfoV3, RewardsAndNumPartitions, SlotStatus as GeyserSlotStatus,
};
use crate::key_map::KeySet;
use crate::keys::{BlockHash, Pubkey, Signature};
use crate::message::{
    account_fault, block_meta_of, is_normal, rewards_of, status_of, strings_in, CommitmentLevel,
    Message, MessageAccount, MessageAccountInfo, MessageAccountInfoView, MessageAccountView,
    MessageBlock, MessageBlockMeta, MessageEntry, MessageSlot, MessageTransaction,
    MessageTransactionInfo, MessageView, SlotStatus,
};
use crate::timestamp::Timestamp;
use std::sync::Arc;
use vstd::prelude::*;

verus! {

/// Each status of the validator stands for a status of its own, and what is rooted is final.
pub proof fn law_status_is_the_validators(status: GeyserSlotStatus)
    ensures
        status is Processed <==> status_of(status) is Processed,
        status is Confirmed <==> status_of(status) is Confirmed,
        status is Rooted <==> status_of(status) is Finalized,
        status is FirstShredReceived <==> status_of(status) is FirstShredReceived,
        status is Completed <==> status_of(status) is Completed,
        status is CreatedBank <==> status_of(status) is CreatedBank,
        status is Dead <==> status_of(status) is Dead,
{
}

/// A slot message tells the slot, its parent, its status and its number as they were given, and
/// why the slot died if and only if it did.
pub proof fn law_slot_message_is_faithful(
    message: MessageSlot,
    slot: u64,
    parent: Option<u64>,
    status: GeyserSlotStatus,
    sequence_number: u64,
)
    requires
        message.tells(slot, parent, status, sequence_number),
    ensures
        message.slot == slot,
        message.parent == parent,
        message.sequence_number == sequence_number,
        message.dead_error is Some <==> status is Dead,
        status matches GeyserSlotStatus::Dead(error) ==> message.dead_error.unwrap()@ == error@,
        message.status is Dead <==> status is Dead,
        message.status is Finalized <==> status is Rooted,
        message.status is Processed <==> status is Processed,
        message.status is Confirmed <==> status is Confirmed,
        message.status is FirstShredReceived <==> status is FirstShredReceived,
        message.status is Completed <==> status is Completed,
        message.status is CreatedBank <==> status is CreatedBank,
{
}

/// One slot message tells of one piece of news only.
pub proof fn law_slot_message_tells_one_thing(
    message: MessageSlot,
    slot: u64,
    parent: Option<u64>,
    status: GeyserSlotStatus,
    sequence_number: u64,
    other_slot: u64,
    other_parent: Option<u64>,
    other_status: GeyserSlotStatus,
    other_sequence_number: u64,
)
    requires
        message.tells(slot, parent, status, sequence_number),
        message.tells(other_slot, other_parent, other_status, other_sequence_number),
    ensures
        slot == other_slot,
        parent == other_parent,
        sequence_number == other_sequence_number,
        match (status, other_status) {
            (GeyserSlotStatus::Dead(error), GeyserSlotStatus::Dead(other_error)) => error@
                == other_error@,
            _ => status == other_status,
        },
{
}

/// An account that the validator handed over keeps every part of it. Which transaction wrote it is
/// not known, which the largest index stands for.
pub proof fn law_account_is_faithful(account: MessageAccountInfo, info: ReplicaAccountInfoV3)
    requires
        account.tells(info),
    ensures
        account.pubkey@ == info.pubkey@,
        account.lamports == info.lamports,
        account.owner@ == info.owner@,
        account.executable == info.executable,
        account.rent_epoch == info.rent_epoch,
        account.data@ == info.data@,
        account.write_version == info.write_version,
        account.txn_signature == info.txn,
        account.transaction_index == 0xffff_ffff_ffff_ffff,
{
}

/// An account message keeps the account, its slot, whether it was loaded at startup, and its
/// number; the bank is not known.
pub proof fn law_account_message_is_faithful(
    message: MessageAccount,
    info: ReplicaAccountInfoV3,
    slot: u64,
    is_startup: bool,
    sequence_number: u64,
)
    requires
        message.tells(info, slot, is_startup, sequence_number),
    ensures
        message.account.pubkey@ == info.pubkey@,
        message.account.lamports == info.lamports,
        message.account.owner@ == info.owner@,
        message.account.executable == info.executable,
        message.account.rent_epoch == info.rent_epoch,
        message.account.data@ == info.data@,
        message.account.write_version == info.write_version,
        message.account.txn_signature == info.txn,
        message.account.transaction_index == 0xffff_ffff_ffff_ffff,
        message.slot == slot,
        message.bank_id is None,
        message.is_startup == is_startup,
        message.sequence_number == sequence_number,
{
}

/// A transaction keeps every part that the validator handed over, and its accounts are those of
/// the validator's list.
pub proof fn law_transaction_is_faithful(
    message: MessageTransactionInfo,
    info: ReplicaTransactionInfoV2,
    sequence_number: u64,
    key: Seq<u8>,
)
    requires
        message.tells(info, sequence_number),
    ensures
        message.signature == info.signature,
        message.is_vote == info.is_vote,
        message.transaction == info.transaction,
        message.meta == info.transaction_status_meta,
        message.index == info.index,
        message.sequence_number == sequence_number,
        message.account_keys@.contains(key) <==> exists|i: int|
            0 <= i < info.account_keys@.len() && #[trigger] info.account_keys@[i]@ == key,
{
}

/// In the later form too, a transaction keeps every part that the validator handed over, and its
/// accounts are those of the validator's list.
pub proof fn law_later_transaction_is_faithful(
    message: MessageTransactionInfo,
    info: ReplicaTransactionInfoV3,
    sequence_number: u64,
    key: Seq<u8>,
)
    requires
        message.tells_v3(info, sequence_number),
    ensures
        message.signature == info.signature,
        message.is_vote == info.is_vote,
        message.transaction == info.transaction,
        message.meta == info.transaction_status_meta,
        message.index == info.index,
        message.sequence_number == sequence_number,
        message.account_keys@.contains(key) <==> exists|i: int|
            0 <= i < info.account_keys@.len() && #[trigger] info.account_keys@[i]@ == key,
{
}

/// Both forms of a transaction with the same parts give the same message.
pub proof fn law_both_forms_tell_the_same(
    message: MessageTransactionInfo,
    info: ReplicaTransactionInfoV2,
    later: ReplicaTransactionInfoV3,
    sequence_number: u64,
)
    requires
        info.signature == later.signature,
        info.is_vote == later.is_vote,
        info.account_keys == later.account_keys,
        info.transaction == later.transaction,
        info.transaction_status_meta == later.transaction_status_meta,
        info.index == later.index,
    ensures
        message.tells(info, sequence_number) <==> message.tells_v3(later, sequence_number),
{
}

/// An entry keeps every part that the validator handed over.
pub proof fn law_entry_is_faithful(
    message: MessageEntry,
    info: ReplicaEntryInfoV2,
    sequence_number: u64,
)
    requires
        message.tells(info, sequence_number),
    ensures
        message.slot == info.slot,
        message.index == info.index,
        message.num_hashes == info.num_hashes,
        message.hash@ == info.hash@,
        message.executed_transaction_count == info.executed_transaction_count,
        message.starting_transaction_index == info.starting_transaction_index,
        message.sequence_number == sequence_number,
{
}

/// The rewards of a block keep the list and the number of partitions.
pub proof fn law_rewards_are_faithful(rewards: RewardsAndNumPartitions)
    ensures
        rewards_of(rewards).rewards == rewards.rewards,
        rewards_of(rewards).num_partitions is Some <==> rewards.num_partitions is Some,
        rewards.num_partitions matches Some(number) ==> rewards_of(
            rewards,
        ).num_partitions.unwrap().num_partitions == number,
{
}

/// The description of a block keeps, part by part, what the validator said of the block.
pub proof fn law_block_meta_is_faithful(info: ReplicaBlockInfoV4)
    ensures
        block_meta_of(info).slot == info.slot,
        block_meta_of(info).blockhash == info.blockhash,
        block_meta_of(info).parent_slot == info.parent_slot,
        block_meta_of(info).parent_blockhash == info.parent_blockhash,
        block_meta_of(info).executed_transaction_count == info.executed_transaction_count,
        block_meta_of(info).entries_count == info.entry_count,
        block_meta_of(info).block_time is Some <==> info.block_time is Some,
        info.block_time matches Some(time) ==> block_meta_of(info).block_time.unwrap().timestamp
            == time,
        block_meta_of(info).block_height is Some <==> info.block_height is Some,
        info.block_height matches Some(height) ==> block_meta_of(
            info,
        ).block_height.unwrap().block_height == height,
        block_meta_of(info).rewards is Some,
        block_meta_of(info).rewards.unwrap().rewards == info.rewards.rewards,
        block_meta_of(info).rewards.unwrap().num_partitions is Some
            <==> info.rewards.num_partitions is Some,
        info.rewards.num_partitions matches Some(number) ==> block_meta_of(
            info,
        ).rewards.unwrap().num_partitions.unwrap().num_partitions == number,
{
}

/// What the validator says of a block can be read off its description: two blocks that are
/// described alike agree in everything.
pub proof fn law_block_meta_tells_blocks_apart(a: ReplicaBlockInfoV4, b: ReplicaBlockInfoV4)
    requires
        block_meta_of(a) == block_meta_of(b),
    ensures
        a == b,
{
}

/// A whole block has the parts it was made of, and counts the accounts it holds.
pub proof fn law_block_is_faithful(
    block: MessageBlock,
    meta: Arc<MessageBlockMeta>,
    transactions: Vec<Arc<MessageTransactionInfo>>,
    accounts: Vec<Arc<MessageAccountInfo>>,
    entries: Vec<Arc<MessageEntry>>,
)
    requires
        block.tells(meta, transactions, accounts, entries),
    ensures
        block.meta == meta,
        block.transactions == transactions,
        block.accounts == accounts,
        block.entries == entries,
        block.updated_account_count == block.accounts@.len(),
{
}

/// An account from the wire is one exactly where its key and its owner have thirty-two bytes, and
/// its signature, where it has one, sixty-four.
pub proof fn law_account_needs_its_widths(info: SubscribeUpdateAccountInfo)
    ensures
        account_fault(info) is None <==> {
            &&& info.pubkey@.len() == 32
            &&& info.owner@.len() == 32
            &&& info.txn_signature matches Some(signature) ==> signature@.len() == 64
        },
        info.pubkey@.len() != 32 ==> account_fault(info) == Some("invalid pubkey length"@),
        info.pubkey@.len() == 32 && info.owner@.len() != 32 ==> account_fault(info) == Some(
            "invalid owner length"@,
        ),
        info.pubkey@.len() == 32 && info.owner@.len() == 32 && account_fault(info) is Some
            ==> account_fault(info) == Some("invalid signature length"@),
{
}

/// A transaction names an account exactly where its message lists it or it loaded it, be it to
/// write to or to read.
pub proof fn law_named_keys_are_those_listed(transaction: MessageTransactionInfo, key: Seq<u8>)
    ensures
        transaction.named_keys().contains(key) <==> {
            ||| transaction.transaction.message matches Some(message) && exists|i: int|
                0 <= i < message.account_keys@.len() && #[trigger] message.account_keys@[i]@ == key
            ||| exists|i: int|
                0 <= i < transaction.meta.loaded_writable_addresses@.len()
                    && #[trigger] transaction.meta.loaded_writable_addresses@[i]@ == key
            ||| exists|i: int|
                0 <= i < transaction.meta.loaded_readonly_addresses@.len()
                    && #[trigger] transaction.meta.loaded_readonly_addresses@[i]@ == key
        },
{
}

/// A transaction names keys only where everything that it lists or loaded has thirty-two bytes:
/// then each account that it names has.
pub proof fn law_named_keys_have_the_width(transaction: MessageTransactionInfo)
    ensures
        transaction.names_keys() <==> {
            &&& transaction.transaction.message matches Some(message) ==> forall|i: int|
                0 <= i < message.account_keys@.len() ==> (
                #[trigger] message.account_keys@[i]@).len() == 32
            &&& forall|i: int|
                0 <= i < transaction.meta.loaded_writable_addresses@.len() ==> (
                #[trigger] transaction.meta.loaded_writable_addresses@[i]@).len() == 32
            &&& forall|i: int|
                0 <= i < transaction.meta.loaded_readonly_addresses@.len() ==> (
                #[trigger] transaction.meta.loaded_readonly_addresses@[i]@).len() == 32
        },
        transaction.names_keys() <==> forall|key: Seq<u8>| #[trigger]
            transaction.named_keys().contains(key) ==> key.len() == 32,
{
    let writable = transaction.meta.loaded_writable_addresses@;
    let readonly = transaction.meta.loaded_readonly_addresses@;
    if forall|key: Seq<u8>| #[trigger]
        transaction.named_keys().contains(key) ==> key.len() == 32 {
        assert forall|i: int| 0 <= i < writable.len() implies (#[trigger] writable[i]@).len()
            == 32 by {
            assert(strings_in(writable).contains(writable[i]@));
            assert(transaction.named_keys().contains(writable[i]@));
        }
        assert forall|i: int| 0 <= i < readonly.len() implies (#[trigger] readonly[i]@).len()
            == 32 by {
            assert(strings_in(readonly).contains(readonly[i]@));
            assert(transaction.named_keys().contains(readonly[i]@));
        }
        if let Some(message) = transaction.transaction.message {
            let own = message.account_keys@;
            assert forall|i: int| 0 <= i < own.len() implies (#[trigger] own[i]@).len() == 32 by {
                assert(strings_in(own).contains(own[i]@));
                assert(transaction.named_keys().contains(own[i]@));
            }
        }
    }
}

/// A message is about the slot of what it tells of, has its number and its time, and is named
/// after its kind. A block has the slot and the number of its description.
pub proof fn law_message_is_about_what_it_tells(message: Message)
    ensures
        match message {
            Message::Slot(news) => {
                &&& message.slot() == news.slot
                &&& message.sequence_number() == news.sequence_number
                &&& message.made_at() == news.created_at
                &&& message.kind() == "slot"@
            },
            Message::Account(news) => {
                &&& message.slot() == news.slot
                &&& message.sequence_number() == news.sequence_number
                &&& message.made_at() == news.created_at
                &&& message.kind() == "account"@
            },
            Message::Transaction(news) => {
                &&& message.slot() == news.slot
                &&& message.sequence_number() == news.transaction.sequence_number
                &&& message.made_at() == news.created_at
                &&& message.kind() == "transaction"@
            },
            Message::Entry(news) => {
                &&& message.slot() == news.slot
                &&& message.sequence_number() == news.sequence_number
                &&& message.made_at() == news.created_at
                &&& message.kind() == "entry"@
            },
            Message::BlockMeta(news) => {
                &&& message.slot() == news.block_meta.slot
                &&& message.sequence_number() == news.sequence_number
                &&& message.made_at() == news.created_at
                &&& message.kind() == "block_meta"@
            },
            Message::Block(news) => {
                &&& message.slot() == news.meta.block_meta.slot
                &&& message.sequence_number() == news.meta.sequence_number
                &&& message.made_at() == news.created_at
                &&& message.kind() == "block"@
            },
        },
{
}

/// Two messages have the name of one kind only if they are of one kind.
pub proof fn law_kinds_are_told_apart(a: Message, b: Message)
    ensures
        a.kind() == b.kind() <==> {
            ||| a is Slot && b is Slot
            ||| a is Account && b is Account
            ||| a is Transaction && b is Transaction
            ||| a is Entry && b is Entry
            ||| a is BlockMeta && b is BlockMeta
            ||| a is Block && b is Block
        },
{
    reveal_strlit("slot");
    reveal_strlit("account");
    reveal_strlit("transaction");
    reveal_strlit("entry");
    reveal_strlit("block_meta");
    reveal_strlit("block");
    assert("slot"@.len() == 4 && "account"@.len() == 7 && "transaction"@.len() == 11);
    assert("entry"@.len() == 5 && "block_meta"@.len() == 10 && "block"@.len() == 5);
    assert("entry"@[0] == 'e' && "block"@[0] == 'b');
}

/// Levels and statuses go by these names.
pub proof fn law_names_are_these(level: CommitmentLevel, status: SlotStatus)
    ensures
        level is Processed ==> level.name() == "processed"@,
        level is Confirmed ==> level.name() == "confirmed"@,
        level is Finalized ==> level.name() == "finalized"@,
        status is Processed ==> status.name() == "processed"@,
        status is Confirmed ==> status.name() == "confirmed"@,
        status is Finalized ==> status.name() == "finalized"@,
        status is FirstShredReceived ==> status.name() == "first_shread_received"@,
        status is Completed ==> status.name() == "completed"@,
        status is CreatedBank ==> status.name() == "created_bank"@,
        status is Dead ==> status.name() == "dead"@,
{
}

/// Two statuses with one name are the same status.
pub proof fn law_statuses_are_told_apart(a: SlotStatus, b: SlotStatus)
    requires
        a.name() == b.name(),
    ensures
        a == b,
{
    reveal_strlit("processed");
    reveal_strlit("confirmed");
    reveal_strlit("finalized");
    reveal_strlit("first_shread_received");
    reveal_strlit("completed");
    reveal_strlit("created_bank");
    reveal_strlit("dead");
    assert("processed"@.len() == 9 && "confirmed"@.len() == 9 && "finalized"@.len() == 9);
    assert("first_shread_received"@.len() == 21 && "completed"@.len() == 9);
    assert("created_bank"@.len() == 12 && "dead"@.len() == 4);
    assert("processed"@[0] == 'p' && "confirmed"@[0] == 'c' && "finalized"@[0] == 'f');
    assert("completed"@[0] == 'c' && "completed"@[2] == 'm' && "confirmed"@[2] == 'n');
}

/// A level is the status of that name, and no other.
pub proof fn law_level_is_its_status(level: CommitmentLevel, status: SlotStatus)
    ensures
        vstd::std_specs::cmp::PartialEqSpec::eq_spec(&level, &status) <==> {
            ||| level is Processed && status is Processed
            ||| level is Confirmed && status is Confirmed
            ||| level is Finalized && status is Finalized
        },
{
}

/// The statuses are numbered on the wire in this order, from zero.
pub proof fn law_statuses_are_numbered(status: SlotStatus, proto: SlotStatusProto)
    ensures
        status is Processed ==> status_on_wire(status) == 0,
        status is Confirmed ==> status_on_wire(status) == 1,
        status is Finalized ==> status_on_wire(status) == 2,
        status is FirstShredReceived ==> status_on_wire(status) == 3,
        status is Completed ==> status_on_wire(status) == 4,
        status is CreatedBank ==> status_on_wire(status) == 5,
        status is Dead ==> status_on_wire(status) == 6,
        proto is SlotProcessed ==> proto.spec_number() == 0,
        proto is SlotConfirmed ==> proto.spec_number() == 1,
        proto is SlotFinalized ==> proto.spec_number() == 2,
        proto is SlotFirstShredReceived ==> proto.spec_number() == 3,
        proto is SlotCompleted ==> proto.spec_number() == 4,
        proto is SlotCreatedBank ==> proto.spec_number() == 5,
        proto is SlotDead ==> proto.spec_number() == 6,
{
}

/// What is written of a status determines it.
pub proof fn law_status_can_be_read_back(a: SlotStatus, b: SlotStatus)
    requires
        status_on_wire(a) == status_on_wire(b),
    ensures
        a == b,
{
}

/// Whether two texts that need not be there say the same.
pub open spec fn same_text(a: Option<String>, b: Option<String>) -> bool {
    match (a, b) {
        (Some(x), Some(y)) => x@ == y@,
        (None, None) => true,
        _ => false,
    }
}

/// What is written of the news of a slot determines it: the slot, its parent, its status, and why
/// it died.
pub proof fn law_slot_can_be_read_back(a: MessageSlot, b: MessageSlot)
    requires
        slot_on_wire(a) == slot_on_wire(b),
    ensures
        a.slot == b.slot,
        a.parent == b.parent,
        a.status == b.status,
        same_text(a.dead_error, b.dead_error),
{
}

/// What is written of the news of a slot are its parts.
pub proof fn law_written_slot_is_faithful(message: MessageSlot)
    ensures
        slot_on_wire(message).slot == message.slot,
        slot_on_wire(message).parent == message.parent,
        slot_on_wire(message).status == status_on_wire(message.status),
        slot_on_wire(message).dead_error is Some <==> message.dead_error is Some,
        message.dead_error matches Some(text) ==> slot_on_wire(message).dead_error == Some(text@),
{
}

/// What is written of an entry are its parts.
pub proof fn law_written_entry_is_faithful(message: MessageEntry)
    ensures
        entry_on_wire(message).slot == message.slot,
        entry_on_wire(message).index == message.index,
        entry_on_wire(message).num_hashes == message.num_hashes,
        entry_on_wire(message).hash == message.hash@,
        entry_on_wire(message).executed_transaction_count == message.executed_transaction_count,
        entry_on_wire(message).starting_transaction_index == message.starting_transaction_index,
{
}

/// What is written of an entry determines it.
pub proof fn law_entry_can_be_read_back(a: MessageEntry, b: MessageEntry)
    requires
        entry_on_wire(a) == entry_on_wire(b),
    ensures
        a.slot == b.slot,
        a.index == b.index,
        a.num_hashes == b.num_hashes,
        a.hash == b.hash,
        a.executed_transaction_count == b.executed_transaction_count,
        a.starting_transaction_index == b.starting_transaction_index,
{
    a.hash.lemma_view(b.hash);
}

/// What is written of a transaction are its parts, as they are stored.
pub proof fn law_written_transaction_is_faithful(message: MessageTransaction)
    ensures
        transaction_on_wire(message).slot == message.slot,
        transaction_on_wire(message).transaction matches Some(part) && {
            &&& part.signature == message.transaction.signature@
            &&& part.is_vote == message.transaction.is_vote
            &&& part.transaction == Some(message.transaction.transaction.stored@)
            &&& part.meta == Some(message.transaction.meta.stored@)
            &&& part.index == message.transaction.index
        },
{
}

/// What is written of a transaction determines its slot, its signature, whether it is a vote, its
/// index, and what is stored of it.
pub proof fn law_transaction_can_be_read_back(a: MessageTransaction, b: MessageTransaction)
    requires
        transaction_on_wire(a) == transaction_on_wire(b),
    ensures
        a.slot == b.slot,
        a.transaction.signature == b.transaction.signature,
        a.transaction.is_vote == b.transaction.is_vote,
        a.transaction.transaction.stored@ == b.transaction.transaction.stored@,
        a.transaction.meta.stored@ == b.transaction.meta.stored@,
        a.transaction.index == b.transaction.index,
{
    a.transaction.signature.lemma_view(b.transaction.signature);
    let part = transaction_on_wire(a).transaction.unwrap();
    let other = transaction_on_wire(b).transaction.unwrap();
    assert(part == other);
    assert(part.index == a.transaction.index && other.index == b.transaction.index);
}

/// What is written of an account are its parts.
pub proof fn law_written_account_is_faithful(message: MessageAccountView)
    ensures
        account_update_on_wire(message).slot == message.slot,
        account_update_on_wire(message).is_startup == message.is_startup,
        account_update_on_wire(message).account == Some(account_on_wire(message.account)),
        account_on_wire(message.account).pubkey == message.account.pubkey@,
        account_on_wire(message.account).lamports == message.account.lamports,
        account_on_wire(message.account).owner == message.account.owner@,
        account_on_wire(message.account).executable == message.account.executable,
        account_on_wire(message.account).rent_epoch == message.account.rent_epoch,
        account_on_wire(message.account).data == message.account.data,
        account_on_wire(message.account).write_version == message.account.write_version,
        account_on_wire(message.account).transaction_index == message.account.transaction_index,
        account_on_wire(message.account).txn_signature is Some
            <==> message.account.txn_signature is Some,
        message.account.txn_signature matches Some(signature) ==> account_on_wire(
            message.account,
        ).txn_signature == Some(signature@),
{
}

/// What is written of an account determines it and its slot, and whether it was loaded at startup.
pub proof fn law_account_can_be_read_back(a: MessageAccountView, b: MessageAccountView)
    requires
        account_update_on_wire(a) == account_update_on_wire(b),
    ensures
        a.account == b.account,
        a.slot == b.slot,
        a.is_startup == b.is_startup,
{
    let x = account_update_on_wire(a).account.unwrap();
    let y = account_update_on_wire(b).account.unwrap();
    assert(x == account_on_wire(a.account) && y == account_on_wire(b.account));
    a.account.pubkey.lemma_view(b.account.pubkey);
    a.account.owner.lemma_view(b.account.owner);
    if a.account.txn_signature is Some && b.account.txn_signature is Some {
        a.account.txn_signature.unwrap().lemma_view(b.account.txn_signature.unwrap());
    }
    assert(a.account =~= b.account);
}

/// An update keeps its kind on the wire, and tells there what is written of its message.
pub proof fn law_update_keeps_its_kind(update: FilteredUpdateOneof)
    ensures
        match update {
            FilteredUpdateOneof::Account(message) => update.on_wire()
                == crate::geyser::UpdateOneofView::Account(account_update_on_wire(message@)),
            FilteredUpdateOneof::Slot(message) => update.on_wire()
                == crate::geyser::UpdateOneofView::Slot(slot_on_wire(message)),
            FilteredUpdateOneof::Transaction(message) => update.on_wire()
                == crate::geyser::UpdateOneofView::Transaction(transaction_on_wire(message)),
            FilteredUpdateOneof::Entry(message) => update.on_wire()
                == crate::geyser::UpdateOneofView::Entry(entry_on_wire(*message)),
            FilteredUpdateOneof::BlockMeta(message) => update.on_wire()
                == crate::geyser::UpdateOneofView::BlockMeta(message.block_meta@),
        },
        match update {
            FilteredUpdateOneof::Account(message) => update.made_at() == message.created_at,
            FilteredUpdateOneof::Slot(message) => update.made_at() == message.created_at,
            FilteredUpdateOneof::Transaction(message) => update.made_at() == message.created_at,
            FilteredUpdateOneof::Entry(message) => update.made_at() == message.created_at,
            FilteredUpdateOneof::BlockMeta(message) => update.made_at() == message.created_at,
        },
{
}

/// What is written of an update determines it: two updates that are written alike passed the same
/// filters in the same order, were made at the same time, and tell the same of messages of one
/// kind.
pub proof fn law_update_can_be_read_back(a: FilteredUpdate, b: FilteredUpdate)
    requires
        a.on_wire() == b.on_wire(),
    ensures
        a.filters@.len() == b.filters@.len(),
        forall|i: int|
            0 <= i < a.filters@.len() ==> (#[trigger] a.filters@[i])@ == b.filters@[i]@,
        a.created_at == b.created_at,
        match (a.update_oneof, b.update_oneof) {
            (FilteredUpdateOneof::Account(x), FilteredUpdateOneof::Account(y)) => {
                &&& x@.account == y@.account
                &&& x.slot == y.slot
                &&& x.is_startup == y.is_startup
            },
            (FilteredUpdateOneof::Slot(x), FilteredUpdateOneof::Slot(y)) => {
                &&& x.slot == y.slot
                &&& x.parent == y.parent
                &&& x.status == y.status
                &&& same_text(x.dead_error, y.dead_error)
            },
            (FilteredUpdateOneof::Transaction(x), FilteredUpdateOneof::Transaction(y)) => {
                &&& x.slot == y.slot
                &&& x.transaction.signature == y.transaction.signature
                &&& x.transaction.is_vote == y.transaction.is_vote
                &&& x.transaction.index == y.transaction.index
                &&& x.transaction.transaction.stored@ == y.transaction.transaction.stored@
                &&& x.transaction.meta.stored@ == y.transaction.meta.stored@
            },
            (FilteredUpdateOneof::Entry(x), FilteredUpdateOneof::Entry(y)) => {
                &&& x.slot == y.slot
                &&& x.index == y.index
                &&& x.num_hashes == y.num_hashes
                &&& x.hash == y.hash
                &&& x.executed_transaction_count == y.executed_transaction_count
                &&& x.starting_transaction_index == y.starting_transaction_index
            },
            (FilteredUpdateOneof::BlockMeta(x), FilteredUpdateOneof::BlockMeta(y)) => {
                &&& x.block_meta.slot == y.block_meta.slot
                &&& x.block_meta.blockhash@ == y.block_meta.blockhash@
                &&& x.block_meta.parent_slot == y.block_meta.parent_slot
                &&& x.block_meta.parent_blockhash@ == y.block_meta.parent_blockhash@
                &&& x.block_meta.block_time == y.block_meta.block_time
                &&& x.block_meta.block_height == y.block_meta.block_height
                &&& x.block_meta.executed_transaction_count
                    == y.block_meta.executed_transaction_count
                &&& x.block_meta.entries_count == y.block_meta.entries_count
            },
            _ => false,
        },
{
    let texts = a.on_wire().filters;
    assert(texts == b.on_wire().filters);
    assert(texts.len() == a.filters@.len() && b.on_wire().filters.len() == b.filters@.len());
    assert forall|i: int| 0 <= i < a.filters@.len() implies (#[trigger] a.filters@[i])@
        == b.filters@[i]@ by {
        assert(texts[i] == a.filters@[i]@);
        assert(b.on_wire().filters[i] == b.filters@[i]@);
    }
    assert(a.update_oneof.on_wire() == b.update_oneof.on_wire()) by {
        assert(a.on_wire().update_oneof == Some(a.update_oneof.on_wire()));
        assert(b.on_wire().update_oneof == Some(b.update_oneof.on_wire()));
    }
    match (a.update_oneof, b.update_oneof) {
        (FilteredUpdateOneof::Account(x), FilteredUpdateOneof::Account(y)) => {
            law_account_can_be_read_back(x@, y@);
        },
        (FilteredUpdateOneof::Slot(x), FilteredUpdateOneof::Slot(y)) => {
            law_slot_can_be_read_back(x, y);
        },
        (FilteredUpdateOneof::Transaction(x), FilteredUpdateOneof::Transaction(y)) => {
            law_transaction_can_be_read_back(x, y);
        },
        (FilteredUpdateOneof::Entry(x), FilteredUpdateOneof::Entry(y)) => {
            law_entry_can_be_read_back(*x, *y);
        },
        (FilteredUpdateOneof::BlockMeta(x), FilteredUpdateOneof::BlockMeta(y)) => {
            assert(x.block_meta@ == y.block_meta@);
        },
        _ => {},
    }
}

/// What is said of an account message is all that it holds.
pub proof fn law_account_view_is_faithful(message: MessageAccount)
    ensures
        message@.slot == message.slot,
        message@.bank_id == message.bank_id,
        message@.is_startup == message.is_startup,
        message@.created_at == message.created_at,
        message@.sequence_number == message.sequence_number,
        message@.account == message.account@,
        message@.account.pubkey == message.account.pubkey,
        message@.account.lamports == message.account.lamports,
        message@.account.owner == message.account.owner,
        message@.account.executable == message.account.executable,
        message@.account.rent_epoch == message.account.rent_epoch,
        message@.account.data == message.account.data@,
        message@.account.write_version == message.account.write_version,
        message@.account.txn_signature == message.account.txn_signature,
        message@.account.transaction_index == message.account.transaction_index,
{
}

/// What is said of a message is the message itself, but for an account's, which is told by its
/// contents.
pub proof fn law_message_view_is_faithful(message: Message)
    ensures
        message matches Message::Account(account) ==> message@ == MessageView::Account(account@),
        !(message is Account) ==> message@ == MessageView::Other(message),
{
}

/// What is said of an account on the wire is all that it holds.
pub proof fn law_wire_account_view_is_faithful(
    info: SubscribeUpdateAccountInfo,
    update: SubscribeUpdateAccount,
)
    ensures
        info@.pubkey == info.pubkey@,
        info@.lamports == info.lamports,
        info@.owner == info.owner@,
        info@.executable == info.executable,
        info@.rent_epoch == info.rent_epoch,
        info@.data == info.data@,
        info@.write_version == info.write_version,
        info@.txn_signature is Some <==> info.txn_signature is Some,
        info.txn_signature matches Some(bytes) ==> info@.txn_signature == Some(bytes@),
        info@.transaction_index == info.transaction_index,
        update@.account is Some <==> update.account is Some,
        update.account matches Some(account) ==> update@.account == Some(account@),
        update@.slot == update.slot,
        update@.is_startup == update.is_startup,
{
}

/// What is said of the news of a slot and of an entry on the wire is all that they hold.
pub proof fn law_wire_slot_and_entry_views_are_faithful(
    slot: SubscribeUpdateSlot,
    entry: SubscribeUpdateEntry,
)
    ensures
        slot@.slot == slot.slot,
        slot@.parent == slot.parent,
        slot@.status == slot.status,
        slot@.dead_error is Some <==> slot.dead_error is Some,
        slot.dead_error matches Some(text) ==> slot@.dead_error == Some(text@),
        entry@.slot == entry.slot,
        entry@.index == entry.index,
        entry@.num_hashes == entry.num_hashes,
        entry@.hash == entry.hash@,
        entry@.executed_transaction_count == entry.executed_transaction_count,
        entry@.starting_transaction_index == entry.starting_transaction_index,
{
}

/// What is said of a transaction on the wire is all that it holds.
pub proof fn law_wire_transaction_view_is_faithful(
    info: SubscribeUpdateTransactionInfo,
    update: SubscribeUpdateTransaction,
)
    ensures
        info@.signature == info.signature@,
        info@.is_vote == info.is_vote,
        info@.transaction is Some <==> info.transaction is Some,
        info.transaction matches Some(bytes) ==> info@.transaction == Some(bytes@),
        info@.meta is Some <==> info.meta is Some,
        info.meta matches Some(bytes) ==> info@.meta == Some(bytes@),
        info@.index == info.index,
        update@.slot == update.slot,
        update@.transaction is Some <==> update.transaction is Some,
        update.transaction matches Some(part) ==> update@.transaction == Some(part@),
{
}

/// What is said of the description of a block on the wire is all that it holds.
pub proof fn law_wire_block_meta_view_is_faithful(
    meta: SubscribeUpdateBlockMeta,
    rewards: Rewards,
    reward: Reward,
)
    ensures
        meta@.slot == meta.slot,
        meta@.blockhash == meta.blockhash@,
        meta@.rewards is Some <==> meta.rewards is Some,
        meta.rewards matches Some(given) ==> meta@.rewards == Some(given@),
        meta@.block_time == meta.block_time,
        meta@.block_height == meta.block_height,
        meta@.parent_slot == meta.parent_slot,
        meta@.parent_blockhash == meta.parent_blockhash@,
        meta@.executed_transaction_count == meta.executed_transaction_count,
        meta@.entries_count == meta.entries_count,
        rewards@.num_partitions == rewards.num_partitions,
        rewards@.rewards.len() == rewards.rewards@.len(),
        forall|i: int|
            0 <= i < rewards.rewards@.len() ==> #[trigger] rewards@.rewards[i]
                == rewards.rewards@[i]@,
        reward@.pubkey == reward.pubkey@,
        reward@.lamports == reward.lamports,
        reward@.post_balance == reward.post_balance,
        reward@.reward_type == reward.reward_type,
        reward@.commission == reward.commission@,
{
}

/// What is said of an update on the wire is all that it holds.
pub proof fn law_wire_update_view_is_faithful(
    update: SubscribeUpdate,
    told: UpdateOneof,
    block: SubscribeUpdateBlock,
)
    ensures
        update@.created_at == update.created_at,
        update@.update_oneof is Some <==> update.update_oneof is Some,
        update.update_oneof matches Some(given) ==> update@.update_oneof == Some(given@),
        update@.filters.len() == update.filters@.len(),
        forall|i: int|
            0 <= i < update.filters@.len() ==> #[trigger] update@.filters[i]
                == update.filters@[i]@,
        match told {
            UpdateOneof::Account(given) => told@ == crate::geyser::UpdateOneofView::Account(given@),
            UpdateOneof::Slot(given) => told@ == crate::geyser::UpdateOneofView::Slot(given@),
            UpdateOneof::Transaction(given) => told@
                == crate::geyser::UpdateOneofView::Transaction(given@),
            UpdateOneof::Block(given) => told@ == crate::geyser::UpdateOneofView::Block(given@),
            UpdateOneof::BlockMeta(given) => told@ == crate::geyser::UpdateOneofView::BlockMeta(
                given@,
            ),
            UpdateOneof::Entry(given) => told@ == crate::geyser::UpdateOneofView::Entry(given@),
        },
        block@.len() == block.accounts@.len(),
        forall|i: int|
            0 <= i < block.accounts@.len() ==> #[trigger] block@[i] == block.accounts@[i]@,
{
}

/// A time is normal where its nanoseconds make less than a second, and none is negative.
pub proof fn law_normal_times_have_nanoseconds(timestamp: Timestamp)
    ensures
        is_normal(timestamp) <==> 0 <= timestamp.nanos <= 999_999_999,
{
}

/// Whatever is made of what the validator said keeps the time that it was given, and every part of
/// what was said.
pub proof fn law_messages_keep_their_time(
    slot: u64,
    parent: Option<u64>,
    status: &GeyserSlotStatus,
    sequence_number: u64,
    created_at: Timestamp,
    message: MessageSlot,
)
    requires
        call_ensures(
            MessageSlot::from_geyser_at,
            (slot, parent, status, sequence_number, created_at),
            message,
        ),
    ensures
        message.created_at == created_at,
        message.slot == slot,
        message.parent == parent,
        message.sequence_number == sequence_number,
        message.dead_error is Some <==> *status is Dead,
{
}

/// An account message that is made of an account keeps its time, and every part of the account.
pub proof fn law_account_messages_keep_their_time(
    info: &ReplicaAccountInfoV3,
    slot: u64,
    is_startup: bool,
    sequence_number: u64,
    created_at: Timestamp,
    message: MessageAccount,
)
    requires
        call_ensures(
            MessageAccount::from_geyser_at,
            (info, slot, is_startup, sequence_number, created_at),
            message,
        ),
    ensures
        message.created_at == created_at,
        message.slot == slot,
        message.is_startup == is_startup,
        message.sequence_number == sequence_number,
        message.account.pubkey@ == info.pubkey@,
        message.account.data@ == info.data@,
        message.account.write_version == info.write_version,
{
}

/// A transaction message keeps its time, its slot and its transaction, in both forms.
pub proof fn law_transaction_messages_keep_their_time(
    info: ReplicaTransactionInfoV2,
    later: ReplicaTransactionInfoV3,
    slot: u64,
    sequence_number: u64,
    created_at: Timestamp,
    message: MessageTransaction,
    later_message: MessageTransaction,
)
    requires
        call_ensures(
            MessageTransaction::from_geyser_at,
            (info, slot, sequence_number, created_at),
            message,
        ),
        call_ensures(
            MessageTransaction::from_geyser_v3_at,
            (later, slot, sequence_number, created_at),
            later_message,
        ),
    ensures
        message.created_at == created_at,
        message.slot == slot,
        message.transaction.signature == info.signature,
        message.transaction.index == info.index,
        message.transaction.sequence_number == sequence_number,
        later_message.created_at == created_at,
        later_message.slot == slot,
        later_message.transaction.signature == later.signature,
        later_message.transaction.index == later.index,
        later_message.transaction.sequence_number == sequence_number,
{
}

/// The news of an entry and of a block's description keep their time and their number; what came
/// over the wire has the number zero.
pub proof fn law_other_messages_keep_their_time(
    entry: &ReplicaEntryInfoV2,
    block: ReplicaBlockInfoV4,
    described: SubscribeUpdateBlockMeta,
    sequence_number: u64,
    created_at: Timestamp,
    entry_message: MessageEntry,
    block_message: MessageBlockMeta,
    wire_message: MessageBlockMeta,
)
    requires
        call_ensures(
            MessageEntry::from_geyser_at,
            (entry, sequence_number, created_at),
            entry_message,
        ),
        call_ensures(
            MessageBlockMeta::from_geyser_at,
            (block, sequence_number, created_at),
            block_message,
        ),
        call_ensures(
            MessageBlockMeta::from_update_oneof,
            (described, created_at),
            wire_message,
        ),
    ensures
        entry_message.created_at == created_at,
        entry_message.sequence_number == sequence_number,
        entry_message.slot == entry.slot,
        entry_message.index == entry.index,
        entry_message.num_hashes == entry.num_hashes,
        entry_message.hash@ == entry.hash@,
        entry_message.executed_transaction_count == entry.executed_transaction_count,
        entry_message.starting_transaction_index == entry.starting_transaction_index,
        block_message.created_at == created_at,
        block_message.sequence_number == sequence_number,
        block_message.block_meta.slot == block.slot,
        block_message.block_meta.blockhash == block.blockhash,
        block_message.block_meta.parent_slot == block.parent_slot,
        block_message.block_meta.parent_blockhash == block.parent_blockhash,
        block_message.block_meta.executed_transaction_count == block.executed_transaction_count,
        block_message.block_meta.entries_count == block.entry_count,
        wire_message.created_at == created_at,
        wire_message.sequence_number == 0,
        wire_message.block_meta == described,
{
}

/// An account that came over the wire is taken with every part of it exactly where its widths are
/// right.
pub proof fn law_wire_account_is_taken_whole(
    info: SubscribeUpdateAccountInfo,
    result: Result<MessageAccountInfo, &'static str>,
)
    requires
        call_ensures(MessageAccountInfo::from_update_oneof, (info,), result),
    ensures
        result is Ok <==> info.pubkey@.len() == 32 && info.owner@.len() == 32 && (info.txn_signature
            matches Some(bytes) ==> bytes@.len() == 64),
        result matches Ok(account) ==> {
            &&& account.pubkey@ == info.pubkey@
            &&& account.lamports == info.lamports
            &&& account.owner@ == info.owner@
            &&& account.executable == info.executable
            &&& account.rent_epoch == info.rent_epoch
            &&& account.data@ == info.data@
            &&& account.write_version == info.write_version
            &&& account.transaction_index == info.transaction_index
            &&& account.txn_signature is Some <==> info.txn_signature is Some
            &&& account.txn_signature matches Some(signature) ==> signature@
                == info.txn_signature.unwrap()@
        },
{
}

/// What is written of an account and read again is the account.
pub proof fn law_account_survives_the_wire(
    account: MessageAccountInfoView,
    written: SubscribeUpdateAccountInfo,
    result: Result<MessageAccountInfo, &'static str>,
)
    requires
        written@ == account_on_wire(account),
        call_ensures(MessageAccountInfo::from_update_oneof, (written,), result),
    ensures
        result matches Ok(read) && read@ == account,
{
    crate::filtered::law_written_account_is_accepted(account, written);
    let read = result->Ok_0;
    account.pubkey.lemma_view(read.pubkey);
    account.owner.lemma_view(read.owner);
    if account.txn_signature is Some {
        account.txn_signature.unwrap().lemma_view(read.txn_signature.unwrap());
    }
    assert(read@ =~= account);
}

/// A message says of itself the slot, the number, the time and the kind of what it tells of.
pub proof fn law_message_speaks_for_itself(
    message: &Message,
    slot: u64,
    number: u64,
    time: Timestamp,
    kind: &'static str,
)
    requires
        call_ensures(Message::get_slot, (message,), slot),
        call_ensures(Message::get_sequence_number, (message,), number),
        call_ensures(Message::created_at, (message,), time),
        call_ensures(Message::kind_name, (message,), kind),
    ensures
        match *message {
            Message::Slot(news) => slot == news.slot && number == news.sequence_number && time
                == news.created_at && kind@ == "slot"@,
            Message::Account(news) => slot == news.slot && number == news.sequence_number && time
                == news.created_at && kind@ == "account"@,
            Message::Transaction(news) => slot == news.slot && number
                == news.transaction.sequence_number && time == news.created_at && kind@
                == "transaction"@,
            Message::Entry(news) => slot == news.slot && number == news.sequence_number && time
                == news.created_at && kind@ == "entry"@,
            Message::BlockMeta(news) => slot == news.block_meta.slot && number
                == news.sequence_number && time == news.created_at && kind@ == "block_meta"@,
            Message::Block(news) => slot == news.meta.block_meta.slot && number
                == news.meta.sequence_number && time == news.created_at && kind@ == "block"@,
        },
{
}

/// The update that a raw client gets passed no filter, tells the message itself, and was made when
/// the message was.
pub proof fn law_raw_update_is_the_message(message: Message, update: FilteredUpdate)
    requires
        !(message is Block),
        call_ensures(crate::filtered::raw_update, (message,), update),
    ensures
        update.filters@.len() == 0,
        match message {
            Message::Slot(news) => update.update_oneof == FilteredUpdateOneof::Slot(news)
                && update.created_at == news.created_at,
            Message::Account(news) => update.update_oneof == FilteredUpdateOneof::Account(news)
                && update.created_at == news.created_at,
            Message::Transaction(news) => update.update_oneof == FilteredUpdateOneof::Transaction(
                news,
            ) && update.created_at == news.created_at,
            Message::Entry(news) => update.update_oneof == FilteredUpdateOneof::Entry(news)
                && update.created_at == news.created_at,
            Message::BlockMeta(news) => update.update_oneof == FilteredUpdateOneof::BlockMeta(news)
                && update.created_at == news.created_at,
            Message::Block(_) => false,
        },
{
}

/// A level keeps its name on the wire and back.
pub proof fn law_level_keeps_its_name(level: CommitmentLevel, proto: CommitmentLevelProto)
    ensures
        ({
            let written = <CommitmentLevelProto as vstd::std_specs::convert::FromSpec<
                CommitmentLevel,
            >>::from_spec(level);
            &&& written is Processed <==> level is Processed
            &&& written is Confirmed <==> level is Confirmed
            &&& written is Finalized <==> level is Finalized
        }),
        ({
            let read = <CommitmentLevel as vstd::std_specs::convert::FromSpec<
                CommitmentLevelProto,
            >>::from_spec(proto);
            &&& read is Processed <==> proto is Processed
            &&& read is Confirmed <==> proto is Confirmed
            &&& read is Finalized <==> proto is Finalized
        }),
{
}

/// A status keeps its name on the wire and back.
pub proof fn law_status_keeps_its_name(status: SlotStatus, proto: SlotStatusProto)
    ensures
        ({
            let written = <SlotStatusProto as vstd::std_specs::convert::FromSpec<
                SlotStatus,
            >>::from_spec(status);
            &&& written is SlotProcessed <==> status is Processed
            &&& written is SlotConfirmed <==> status is Confirmed
            &&& written is SlotFinalized <==> status is Finalized
            &&& written is SlotFirstShredReceived <==> status is FirstShredReceived
            &&& written is SlotCompleted <==> status is Completed
            &&& written is SlotCreatedBank <==> status is CreatedBank
            &&& written is SlotDead <==> status is Dead
        }),
        ({
            let read = <SlotStatus as vstd::std_specs::convert::FromSpec<
                SlotStatusProto,
            >>::from_spec(proto);
            &&& read is Processed <==> proto is SlotProcessed
            &&& read is Confirmed <==> proto is SlotConfirmed
            &&& read is Finalized <==> proto is SlotFinalized
            &&& read is FirstShredReceived <==> proto is SlotFirstShredReceived
            &&& read is Completed <==> proto is SlotCompleted
            &&& read is CreatedBank <==> proto is SlotCreatedBank
            &&& read is Dead <==> proto is SlotDead
        }),
{
}

/// Keys, signatures and hashes are equal exactly where all their bytes are, and sets of keys where
/// they hold the same keys.
pub proof fn law_equal_means_the_same_bytes(
    a: Pubkey,
    b: Pubkey,
    c: Signature,
    d: Signature,
    e: BlockHash,
    f: BlockHash,
    g: KeySet,
    h: KeySet,
)
    ensures
        vstd::std_specs::cmp::PartialEqSpec::eq_spec(&a, &b) <==> a@ == b@,
        vstd::std_specs::cmp::PartialEqSpec::eq_spec(&c, &d) <==> c@ == d@,
        vstd::std_specs::cmp::PartialEqSpec::eq_spec(&e, &f) <==> e@ == f@,
        vstd::std_specs::cmp::PartialEqSpec::eq_spec(&g, &h) <==> g@ == h@,
        a@ == b@ ==> a == b,
        c@ == d@ ==> c == d,
        e@ == f@ ==> e == f,
        a@.len() == 32,
        c@.len() == 64,
        e@.len() == 32,
{
    a.lemma_view(b);
    c.lemma_view(d);
    e.lemma_view(f);
}

/// Bytes become a key, a signature or a hash exactly where they have its width, and are got back
/// from it.
pub proof fn law_bytes_become_keys(
    bytes: &[u8],
    key: Option<Pubkey>,
    signature: Option<Signature>,
    hash: Option<BlockHash>,
)
    requires
        call_ensures(Pubkey::try_from_slice, (bytes,), key),
        call_ensures(Signature::try_from_slice, (bytes,), signature),
        call_ensures(BlockHash::try_from_slice, (bytes,), hash),
    ensures
        key is Some <==> bytes@.len() == 32,
        signature is Some <==> bytes@.len() == 64,
        hash is Some <==> bytes@.len() == 32,
        key matches Some(given) ==> given@ == bytes@,
        signature matches Some(given) ==> given@ == bytes@,
        hash matches Some(given) ==> given@ == bytes@,
{
}

} // verus!
