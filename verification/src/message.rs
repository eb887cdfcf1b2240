//! The messages that travel from the validator to the subscribers.

use crate::confirmed_block::{BlockHeight, NumPartitions, Rewards, UnixTimestamp};
use crate::confirmed_block::{Transaction, TransactionStatusMeta};
use crate::geyser::CommitmentLevel as CommitmentLevelProto;
use crate::geyser::SlotStatus as SlotStatusProto;
use crate::geyser::{SubscribeUpdateAccountInfo, SubscribeUpdateBlockMeta};
use crate::geyser_plugin_interface::SlotStatus as GeyserSlotStatus;
use crate::geyser_plugin_interface::{
    ReplicaAccountInfoV3, ReplicaBlockInfoV4, ReplicaEntryInfoV2, ReplicaTransactionInfoV2,
    ReplicaTransactionInfoV3, RewardsAndNumPartitions,
};
use crate::key_map::{keys_in, KeySet};
use crate::keys::{BlockHash, Pubkey, Signature, HASH_BYTES, PUBKEY_BYTES, SIGNATURE_BYTES};
use crate::timestamp::{Timestamp, NANOS_PER_SECOND};
use std::sync::Arc;
use vstd::pervasive::unreached;
use vstd::prelude::*;
use vstd::slice::slice_to_vec;

verus! {

/// How sure a block is.
#[derive(Debug, Clone, Copy, PartialEq, Eq, PartialOrd, Ord, Structural)]
pub enum CommitmentLevel {
    Processed,
    Confirmed,
    Finalized,
}

impl From<CommitmentLevel> for CommitmentLevelProto {
    fn from(commitment: CommitmentLevel) -> (proto: Self) {
        match commitment {
            CommitmentLevel::Processed => CommitmentLevelProto::Processed,
            CommitmentLevel::Confirmed => CommitmentLevelProto::Confirmed,
            CommitmentLevel::Finalized => CommitmentLevelProto::Finalized,
        }
    }
}

impl vstd::std_specs::convert::FromSpecImpl<CommitmentLevel> for CommitmentLevelProto {
    open spec fn obeys_from_spec() -> bool {
        true
    }

    open spec fn from_spec(commitment: CommitmentLevel) -> Self {
        match commitment {
            CommitmentLevel::Processed => CommitmentLevelProto::Processed,
            CommitmentLevel::Confirmed => CommitmentLevelProto::Confirmed,
            CommitmentLevel::Finalized => CommitmentLevelProto::Finalized,
        }
    }
}

impl From<CommitmentLevelProto> for CommitmentLevel {
    fn from(status: CommitmentLevelProto) -> (commitment: Self) {
        match status {
            CommitmentLevelProto::Processed => CommitmentLevel::Processed,
            CommitmentLevelProto::Confirmed => CommitmentLevel::Confirmed,
            CommitmentLevelProto::Finalized => CommitmentLevel::Finalized,
        }
    }
}

impl vstd::std_specs::convert::FromSpecImpl<CommitmentLevelProto> for CommitmentLevel {
    open spec fn obeys_from_spec() -> bool {
        true
    }

    open spec fn from_spec(status: CommitmentLevelProto) -> Self {
        match status {
            CommitmentLevelProto::Processed => CommitmentLevel::Processed,
            CommitmentLevelProto::Confirmed => CommitmentLevel::Confirmed,
            CommitmentLevelProto::Finalized => CommitmentLevel::Finalized,
        }
    }
}

impl CommitmentLevel {
    /// The name of the level.
    pub open spec fn name(self) -> Seq<char> {
        match self {
            CommitmentLevel::Processed => "processed"@,
            CommitmentLevel::Confirmed => "confirmed"@,
            CommitmentLevel::Finalized => "finalized"@,
        }
    }

    /// The name of the level.
    pub fn as_str(&self) -> (text: &'static str)
        ensures
            text@ == self.name(),
    {
        match self {
            CommitmentLevel::Processed => "processed",
            CommitmentLevel::Confirmed => "confirmed",
            CommitmentLevel::Finalized => "finalized",
        }
    }
}

/// What happened to a slot.
#[derive(Debug, Clone, Copy, PartialEq, Eq, PartialOrd, Ord, Structural)]
pub enum SlotStatus {
    Processed,
    Confirmed,
    Finalized,
    FirstShredReceived,
    Completed,
    CreatedBank,
    Dead,
}

impl From<&GeyserSlotStatus> for SlotStatus {
    fn from(status: &GeyserSlotStatus) -> (converted: Self) {
        match status {
            GeyserSlotStatus::Processed => SlotStatus::Processed,
            GeyserSlotStatus::Confirmed => SlotStatus::Confirmed,
            GeyserSlotStatus::Rooted => SlotStatus::Finalized,
            GeyserSlotStatus::FirstShredReceived => SlotStatus::FirstShredReceived,
            GeyserSlotStatus::Completed => SlotStatus::Completed,
            GeyserSlotStatus::CreatedBank => SlotStatus::CreatedBank,
            GeyserSlotStatus::Dead(_) => SlotStatus::Dead,
        }
    }
}

/// The status that the validator's status stands for: what it calls rooted is final, and why a
/// slot died is told elsewhere.
pub open spec fn status_of(status: GeyserSlotStatus) -> SlotStatus {
    match status {
        GeyserSlotStatus::Processed => SlotStatus::Processed,
        GeyserSlotStatus::Confirmed => SlotStatus::Confirmed,
        GeyserSlotStatus::Rooted => SlotStatus::Finalized,
        GeyserSlotStatus::FirstShredReceived => SlotStatus::FirstShredReceived,
        GeyserSlotStatus::Completed => SlotStatus::Completed,
        GeyserSlotStatus::CreatedBank => SlotStatus::CreatedBank,
        GeyserSlotStatus::Dead(_) => SlotStatus::Dead,
    }
}

impl vstd::std_specs::convert::FromSpecImpl<&GeyserSlotStatus> for SlotStatus {
    open spec fn obeys_from_spec() -> bool {
        true
    }

    open spec fn from_spec(status: &GeyserSlotStatus) -> Self {
        status_of(*status)
    }
}

impl From<SlotStatusProto> for SlotStatus {
    fn from(status: SlotStatusProto) -> (converted: Self) {
        match status {
            SlotStatusProto::SlotProcessed => SlotStatus::Processed,
            SlotStatusProto::SlotConfirmed => SlotStatus::Confirmed,
            SlotStatusProto::SlotFinalized => SlotStatus::Finalized,
            SlotStatusProto::SlotFirstShredReceived => SlotStatus::FirstShredReceived,
            SlotStatusProto::SlotCompleted => SlotStatus::Completed,
            SlotStatusProto::SlotCreatedBank => SlotStatus::CreatedBank,
            SlotStatusProto::SlotDead => SlotStatus::Dead,
        }
    }
}

impl vstd::std_specs::convert::FromSpecImpl<SlotStatusProto> for SlotStatus {
    open spec fn obeys_from_spec() -> bool {
        true
    }

    open spec fn from_spec(status: SlotStatusProto) -> Self {
        match status {
            SlotStatusProto::SlotProcessed => SlotStatus::Processed,
            SlotStatusProto::SlotConfirmed => SlotStatus::Confirmed,
            SlotStatusProto::SlotFinalized => SlotStatus::Finalized,
            SlotStatusProto::SlotFirstShredReceived => SlotStatus::FirstShredReceived,
            SlotStatusProto::SlotCompleted => SlotStatus::Completed,
            SlotStatusProto::SlotCreatedBank => SlotStatus::CreatedBank,
            SlotStatusProto::SlotDead => SlotStatus::Dead,
        }
    }
}

impl From<SlotStatus> for SlotStatusProto {
    fn from(status: SlotStatus) -> (proto: Self) {
        match status {
            SlotStatus::Processed => SlotStatusProto::SlotProcessed,
            SlotStatus::Confirmed => SlotStatusProto::SlotConfirmed,
            SlotStatus::Finalized => SlotStatusProto::SlotFinalized,
            SlotStatus::FirstShredReceived => SlotStatusProto::SlotFirstShredReceived,
            SlotStatus::Completed => SlotStatusProto::SlotCompleted,
            SlotStatus::CreatedBank => SlotStatusProto::SlotCreatedBank,
            SlotStatus::Dead => SlotStatusProto::SlotDead,
        }
    }
}

impl vstd::std_specs::convert::FromSpecImpl<SlotStatus> for SlotStatusProto {
    open spec fn obeys_from_spec() -> bool {
        true
    }

    open spec fn from_spec(status: SlotStatus) -> Self {
        match status {
            SlotStatus::Processed => SlotStatusProto::SlotProcessed,
            SlotStatus::Confirmed => SlotStatusProto::SlotConfirmed,
            SlotStatus::Finalized => SlotStatusProto::SlotFinalized,
            SlotStatus::FirstShredReceived => SlotStatusProto::SlotFirstShredReceived,
            SlotStatus::Completed => SlotStatusProto::SlotCompleted,
            SlotStatus::CreatedBank => SlotStatusProto::SlotCreatedBank,
            SlotStatus::Dead => SlotStatusProto::SlotDead,
        }
    }
}

impl PartialEq<SlotStatus> for CommitmentLevel {
    fn eq(&self, other: &SlotStatus) -> (same: bool) {
        match self {
            CommitmentLevel::Processed => *other == SlotStatus::Processed,
            CommitmentLevel::Confirmed => *other == SlotStatus::Confirmed,
            CommitmentLevel::Finalized => *other == SlotStatus::Finalized,
        }
    }
}

impl vstd::std_specs::cmp::PartialEqSpecImpl<SlotStatus> for CommitmentLevel {
    open spec fn obeys_eq_spec() -> bool {
        true
    }

    open spec fn eq_spec(&self, other: &SlotStatus) -> bool {
        match self {
            CommitmentLevel::Processed => *other == SlotStatus::Processed,
            CommitmentLevel::Confirmed => *other == SlotStatus::Confirmed,
            CommitmentLevel::Finalized => *other == SlotStatus::Finalized,
        }
    }
}

impl SlotStatus {
    /// The name of the status.
    pub open spec fn name(self) -> Seq<char> {
        match self {
            SlotStatus::Processed => "processed"@,
            SlotStatus::Confirmed => "confirmed"@,
            SlotStatus::Finalized => "finalized"@,
            SlotStatus::FirstShredReceived => "first_shread_received"@,
            SlotStatus::Completed => "completed"@,
            SlotStatus::CreatedBank => "created_bank"@,
            SlotStatus::Dead => "dead"@,
        }
    }

    /// The name of the status.
    pub fn as_str(&self) -> (text: &'static str)
        ensures
            text@ == self.name(),
    {
        match self {
            SlotStatus::Processed => "processed",
            SlotStatus::Confirmed => "confirmed",
            SlotStatus::Finalized => "finalized",
            SlotStatus::FirstShredReceived => "first_shread_received",
            SlotStatus::Completed => "completed",
            SlotStatus::CreatedBank => "created_bank",
            SlotStatus::Dead => "dead",
        }
    }
}

/// A commitment level and a slot status are equal exactly where they have the same name.
pub proof fn law_equal_levels_have_one_name(level: CommitmentLevel, status: SlotStatus)
    ensures
        vstd::std_specs::cmp::PartialEqSpec::eq_spec(&level, &status) <==> level.name()
            == status.name(),
{
    reveal_strlit("processed");
    reveal_strlit("confirmed");
    reveal_strlit("finalized");
    reveal_strlit("first_shread_received");
    reveal_strlit("completed");
    reveal_strlit("created_bank");
    reveal_strlit("dead");
    assert("processed"@[0] == 'p');
    assert("confirmed"@[0] == 'c' && "confirmed"@[2] == 'n');
    assert("finalized"@[0] == 'f');
    assert("completed"@[0] == 'c' && "completed"@[2] == 'm');
    if level.name() =~= status.name() {
        assert(level.name()[0] == status.name()[0]);
        assert(level.name()[2] == status.name()[2]);
    }
}

/// Converting a level to the wire and back gives the level back, and so the other way round.
pub proof fn law_commitment_round_trip(level: CommitmentLevel, proto: CommitmentLevelProto)
    ensures
        <CommitmentLevel as vstd::std_specs::convert::FromSpec<CommitmentLevelProto>>::from_spec(
            <CommitmentLevelProto as vstd::std_specs::convert::FromSpec<
                CommitmentLevel,
            >>::from_spec(level),
        ) == level,
        <CommitmentLevelProto as vstd::std_specs::convert::FromSpec<CommitmentLevel>>::from_spec(
            <CommitmentLevel as vstd::std_specs::convert::FromSpec<
                CommitmentLevelProto,
            >>::from_spec(proto),
        ) == proto,
{
}

/// Converting a status to the wire and back gives the status back, and so the other way round.
pub proof fn law_slot_status_round_trip(status: SlotStatus, proto: SlotStatusProto)
    ensures
        <SlotStatus as vstd::std_specs::convert::FromSpec<SlotStatusProto>>::from_spec(
            <SlotStatusProto as vstd::std_specs::convert::FromSpec<SlotStatus>>::from_spec(status),
        ) == status,
        <SlotStatusProto as vstd::std_specs::convert::FromSpec<SlotStatus>>::from_spec(
            <SlotStatus as vstd::std_specs::convert::FromSpec<SlotStatusProto>>::from_spec(proto),
        ) == proto,
{
}

/// Whether a timestamp counts its nanoseconds within a second.
pub open spec fn is_normal(timestamp: Timestamp) -> bool {
    0 <= timestamp.nanos < NANOS_PER_SECOND
}

/// News of a slot.
#[derive(Debug, Clone, PartialEq)]
pub struct MessageSlot {
    pub slot: u64,
    pub parent: Option<u64>,
    pub status: SlotStatus,
    pub dead_error: Option<String>,
    pub created_at: Timestamp,
    pub sequence_number: u64,
}

impl MessageSlot {
    /// Whether the message says what the validator said of a slot.
    pub open spec fn tells(
        self,
        slot: u64,
        parent: Option<u64>,
        status: GeyserSlotStatus,
        sequence_number: u64,
    ) -> bool {
        &&& self.slot == slot
        &&& self.parent == parent
        &&& self.status == status_of(status)
        &&& match status {
            GeyserSlotStatus::Dead(error) => self.dead_error matches Some(text) && text@ == error@,
            _ => self.dead_error is None,
        }
        &&& self.sequence_number == sequence_number
    }

    /// The message on what the validator says of a slot, made now.
    pub fn from_geyser(
        slot: u64,
        parent: Option<u64>,
        status: &GeyserSlotStatus,
        sequence_number: u64,
    ) -> (message: Self)
        ensures
            message.tells(slot, parent, *status, sequence_number),
            is_normal(message.created_at),
    {
        Self::from_geyser_at(slot, parent, status, sequence_number, Timestamp::now())
    }

    /// The message on what the validator says of a slot, made at the given time.
    pub fn from_geyser_at(
        slot: u64,
        parent: Option<u64>,
        status: &GeyserSlotStatus,
        sequence_number: u64,
        created_at: Timestamp,
    ) -> (message: Self)
        ensures
            message.tells(slot, parent, *status, sequence_number),
            message.created_at == created_at,
    {
        let dead_error = match status {
            GeyserSlotStatus::Dead(error) => Some(error.clone()),
            _ => None,
        };
        MessageSlot {
            slot,
            parent,
            status: SlotStatus::from(status),
            dead_error,
            created_at,
            sequence_number,
        }
    }
}

/// An account that was written.
#[derive(Debug, PartialEq)]
pub struct MessageAccountInfo {
    pub pubkey: Pubkey,
    pub lamports: u64,
    pub owner: Pubkey,
    pub executable: bool,
    pub rent_epoch: u64,
    pub data: Vec<u8>,
    pub write_version: u64,
    pub txn_signature: Option<Signature>,
    pub transaction_index: u64,
}

/// What a [`MessageAccountInfo`] says.
#[verifier::ext_equal]
pub struct MessageAccountInfoView {
    pub pubkey: Pubkey,
    pub lamports: u64,
    pub owner: Pubkey,
    pub executable: bool,
    pub rent_epoch: u64,
    pub data: Seq<u8>,
    pub write_version: u64,
    pub txn_signature: Option<Signature>,
    pub transaction_index: u64,
}

impl View for MessageAccountInfo {
    type V = MessageAccountInfoView;

    open spec fn view(&self) -> MessageAccountInfoView {
        MessageAccountInfoView {
            pubkey: self.pubkey,
            lamports: self.lamports,
            owner: self.owner,
            executable: self.executable,
            rent_epoch: self.rent_epoch,
            data: self.data@,
            write_version: self.write_version,
            txn_signature: self.txn_signature,
            transaction_index: self.transaction_index,
        }
    }
}

impl Clone for MessageAccountInfo {
    fn clone(&self) -> (copy: Self)
        ensures
            copy@ == self@,
    {
        MessageAccountInfo {
            pubkey: self.pubkey,
            lamports: self.lamports,
            owner: self.owner,
            executable: self.executable,
            rent_epoch: self.rent_epoch,
            data: slice_to_vec(self.data.as_slice()),
            write_version: self.write_version,
            txn_signature: self.txn_signature,
            transaction_index: self.transaction_index,
        }
    }
}

/// Why an account from the wire is not one: its key, its owner or its signature has not the width
/// of one, the first of them that has not.
pub open spec fn account_fault(info: SubscribeUpdateAccountInfo) -> Option<Seq<char>> {
    if info.pubkey@.len() != PUBKEY_BYTES {
        Some("invalid pubkey length"@)
    } else if info.owner@.len() != PUBKEY_BYTES {
        Some("invalid owner length"@)
    } else {
        match info.txn_signature {
            Some(signature) => if signature@.len() != SIGNATURE_BYTES {
                Some("invalid signature length"@)
            } else {
                None
            },
            None => None,
        }
    }
}

impl MessageAccountInfo {
    /// Whether this is the account that the validator handed over. The validator does not say
    /// which transaction of the block wrote it.
    pub open spec fn tells(self, info: ReplicaAccountInfoV3) -> bool {
        &&& self.pubkey@ == info.pubkey@
        &&& self.lamports == info.lamports
        &&& self.owner@ == info.owner@
        &&& self.executable == info.executable
        &&& self.rent_epoch == info.rent_epoch
        &&& self.data@ == info.data@
        &&& self.write_version == info.write_version
        &&& self.txn_signature == info.txn
        &&& self.transaction_index == u64::MAX
    }

    /// The account that the validator hands over.
    pub fn from_geyser(info: &ReplicaAccountInfoV3<'_>) -> (account: Self)
        requires
            info.pubkey@.len() == PUBKEY_BYTES,
            info.owner@.len() == PUBKEY_BYTES,
        ensures
            account.tells(*info),
    {
        MessageAccountInfo {
            pubkey: match Pubkey::try_from_slice(info.pubkey) {
                Some(key) => key,
                None => unreached(),
            },
            lamports: info.lamports,
            owner: match Pubkey::try_from_slice(info.owner) {
                Some(key) => key,
                None => unreached(),
            },
            executable: info.executable,
            rent_epoch: info.rent_epoch,
            data: slice_to_vec(info.data),
            write_version: info.write_version,
            txn_signature: info.txn,
            transaction_index: u64::MAX,
        }
    }

    /// The account that came over the wire, unless something in it has the wrong width.
    pub fn from_update_oneof(msg: SubscribeUpdateAccountInfo) -> (result: Result<
        Self,
        &'static str,
    >)
        ensures
            match account_fault(msg) {
                Some(fault) => result matches Err(text) && text@ == fault,
                None => result matches Ok(account) && {
                    &&& account.pubkey@ == msg.pubkey@
                    &&& account.lamports == msg.lamports
                    &&& account.owner@ == msg.owner@
                    &&& account.executable == msg.executable
                    &&& account.rent_epoch == msg.rent_epoch
                    &&& account.data@ == msg.data@
                    &&& account.write_version == msg.write_version
                    &&& match msg.txn_signature {
                        Some(bytes) => account.txn_signature matches Some(signature) && signature@
                            == bytes@,
                        None => account.txn_signature is None,
                    }
                    &&& account.transaction_index == msg.transaction_index
                },
            },
    {
        let pubkey = match Pubkey::try_from_slice(msg.pubkey.as_slice()) {
            Some(key) => key,
            None => {
                return Err("invalid pubkey length");
            },
        };
        let owner = match Pubkey::try_from_slice(msg.owner.as_slice()) {
            Some(key) => key,
            None => {
                return Err("invalid owner length");
            },
        };
        let txn_signature = match &msg.txn_signature {
            Some(bytes) => match Signature::try_from_slice(bytes.as_slice()) {
                Some(signature) => Some(signature),
                None => {
                    return Err("invalid signature length");
                },
            },
            None => None,
        };
        Ok(
            MessageAccountInfo {
                pubkey,
                lamports: msg.lamports,
                owner,
                executable: msg.executable,
                rent_epoch: msg.rent_epoch,
                data: msg.data,
                write_version: msg.write_version,
                txn_signature,
                transaction_index: msg.transaction_index,
            },
        )
    }
}

/// News of an account.
#[derive(Debug, Clone, PartialEq)]
pub struct MessageAccount {
    pub account: Arc<MessageAccountInfo>,
    pub slot: u64,
    /// The bank in which the account was written, where it is known.
    pub bank_id: Option<u64>,
    pub is_startup: bool,
    pub created_at: Timestamp,
    pub sequence_number: u64,
}

/// What a [`MessageAccount`] says.
#[verifier::ext_equal]
pub struct MessageAccountView {
    pub account: MessageAccountInfoView,
    pub slot: u64,
    pub bank_id: Option<u64>,
    pub is_startup: bool,
    pub created_at: Timestamp,
    pub sequence_number: u64,
}

impl View for MessageAccount {
    type V = MessageAccountView;

    open spec fn view(&self) -> MessageAccountView {
        MessageAccountView {
            account: (*self.account)@,
            slot: self.slot,
            bank_id: self.bank_id,
            is_startup: self.is_startup,
            created_at: self.created_at,
            sequence_number: self.sequence_number,
        }
    }
}

impl MessageAccount {
    /// Whether this is the news of an account that the validator handed over.
    pub open spec fn tells(
        self,
        info: ReplicaAccountInfoV3,
        slot: u64,
        is_startup: bool,
        sequence_number: u64,
    ) -> bool {
        &&& (*self.account).tells(info)
        &&& self.slot == slot
        &&& self.bank_id is None
        &&& self.is_startup == is_startup
        &&& self.sequence_number == sequence_number
    }

    /// The news of an account that the validator hands over, made now.
    pub fn from_geyser(
        info: &ReplicaAccountInfoV3<'_>,
        slot: u64,
        is_startup: bool,
        sequence_number: u64,
    ) -> (message: Self)
        requires
            info.pubkey@.len() == PUBKEY_BYTES,
            info.owner@.len() == PUBKEY_BYTES,
        ensures
            message.tells(*info, slot, is_startup, sequence_number),
            is_normal(message.created_at),
    {
        Self::from_geyser_at(info, slot, is_startup, sequence_number, Timestamp::now())
    }

    /// The news of an account that the validator hands over, made at the given time.
    pub fn from_geyser_at(
        info: &ReplicaAccountInfoV3<'_>,
        slot: u64,
        is_startup: bool,
        sequence_number: u64,
        created_at: Timestamp,
    ) -> (message: Self)
        requires
            info.pubkey@.len() == PUBKEY_BYTES,
            info.owner@.len() == PUBKEY_BYTES,
        ensures
            message.tells(*info, slot, is_startup, sequence_number),
            message.created_at == created_at,
    {
        MessageAccount {
            account: Arc::new(MessageAccountInfo::from_geyser(info)),
            slot,
            bank_id: None,
            is_startup,
            created_at,
            sequence_number,
        }
    }
}

/// A transaction that was executed.
#[derive(Debug, Clone, PartialEq)]
pub struct MessageTransactionInfo {
    pub signature: Signature,
    pub is_vote: bool,
    pub transaction: Transaction,
    pub meta: TransactionStatusMeta,
    pub index: usize,
    pub account_keys: KeySet,
    pub sequence_number: u64,
}

/// The byte strings in a list.
pub open spec fn strings_in(strings: Seq<Vec<u8>>) -> Set<Seq<u8>> {
    Set::new(
        |string: Seq<u8>| exists|i: int| 0 <= i < strings.len() && #[trigger] strings[i]@ == string,
    )
}

/// Whether all byte strings of a list have the width of a key.
pub open spec fn all_keys(strings: Seq<Vec<u8>>) -> bool {
    forall|i: int| 0 <= i < strings.len() ==> (#[trigger] strings[i]@).len() == PUBKEY_BYTES
}

/// Adds a list of byte strings to a set of keys. Where one of them is no key, the set is left
/// with some of those before it.
fn add_keys(set: &mut KeySet, strings: &Vec<Vec<u8>>) -> (valid: bool)
    ensures
        valid == all_keys(strings@),
        valid ==> final(set)@ == old(set)@.union(strings_in(strings@)),
{
    let mut i: usize = 0;
    assert(set@ =~= old(set)@.union(strings_in(strings@.take(0))));
    while i < strings.len()
        invariant
            i <= strings@.len(),
            all_keys(strings@.take(i as int)),
            set@ == old(set)@.union(strings_in(strings@.take(i as int))),
        decreases strings@.len() - i,
    {
        let ghost old_part = strings@.take(i as int);
        let ghost new_part = strings@.take(i + 1);
        let ghost before = set@;
        match Pubkey::try_from_slice(strings[i].as_slice()) {
            Some(key) => {
                set.insert(key);
                proof {
                    assert forall|j: int| 0 <= j < new_part.len() implies (#[trigger] new_part[j]@).len()
                        == PUBKEY_BYTES by {
                        if j < i {
                            assert(old_part[j]@.len() == PUBKEY_BYTES);
                        }
                    }
                    assert forall|string: Seq<u8>|
                        strings_in(new_part).contains(string) <==> strings_in(old_part).insert(
                            key@,
                        ).contains(string) by {
                        if strings_in(new_part).contains(string) && string != key@ {
                            let j = choose|j: int|
                                0 <= j < new_part.len() && #[trigger] new_part[j]@ == string;
                            assert(old_part[j]@ == string);
                        }
                        if strings_in(old_part).contains(string) {
                            let j = choose|j: int|
                                0 <= j < old_part.len() && #[trigger] old_part[j]@ == string;
                            assert(new_part[j]@ == string);
                        }
                        assert(new_part[i as int]@ == key@);
                    }
                    assert(set@ =~= old(set)@.union(strings_in(new_part)));
                }
            },
            None => {
                return false;
            },
        }
        i += 1;
    }
    assert(strings@.take(i as int) =~= strings@);
    true
}

impl MessageTransactionInfo {
    /// The accounts that the transaction's own parts name: those of its message, and those that it
    /// loaded.
    pub open spec fn named_keys(self) -> Set<Seq<u8>> {
        let own = match self.transaction.message {
            Some(message) => strings_in(message.account_keys@),
            None => Set::empty(),
        };
        own.union(strings_in(self.meta.loaded_writable_addresses@)).union(
            strings_in(self.meta.loaded_readonly_addresses@),
        )
    }

    /// Whether all accounts that the transaction's own parts name have the width of a key.
    pub open spec fn names_keys(self) -> bool {
        &&& self.transaction.message matches Some(message) ==> all_keys(message.account_keys@)
        &&& all_keys(self.meta.loaded_writable_addresses@)
        &&& all_keys(self.meta.loaded_readonly_addresses@)
    }

    /// Whether this is the transaction that the validator handed over.
    pub open spec fn tells(self, info: ReplicaTransactionInfoV2, sequence_number: u64) -> bool {
        &&& self.signature == info.signature
        &&& self.is_vote == info.is_vote
        &&& self.transaction == info.transaction
        &&& self.meta == info.transaction_status_meta
        &&& self.index == info.index
        &&& self.account_keys@ == keys_in(info.account_keys@)
        &&& self.sequence_number == sequence_number
    }

    /// Whether this is the transaction that the validator handed over in the later form.
    pub open spec fn tells_v3(self, info: ReplicaTransactionInfoV3, sequence_number: u64) -> bool {
        &&& self.signature == info.signature
        &&& self.is_vote == info.is_vote
        &&& self.transaction == info.transaction
        &&& self.meta == info.transaction_status_meta
        &&& self.index == info.index
        &&& self.account_keys@ == keys_in(info.account_keys@)
        &&& self.sequence_number == sequence_number
    }

    /// The transaction that the validator hands over.
    pub fn from_geyser(info: ReplicaTransactionInfoV2, sequence_number: u64) -> (transaction: Self)
        ensures
            transaction.tells(info, sequence_number),
    {
        let account_keys = KeySet::from_keys(&info.account_keys);
        MessageTransactionInfo {
            signature: info.signature,
            is_vote: info.is_vote,
            transaction: info.transaction,
            meta: info.transaction_status_meta,
            index: info.index,
            account_keys,
            sequence_number,
        }
    }

    /// The transaction that the validator hands over in the later form.
    pub fn from_geyser_v3(info: ReplicaTransactionInfoV3, sequence_number: u64) -> (transaction:
        Self)
        ensures
            transaction.tells_v3(info, sequence_number),
    {
        let account_keys = KeySet::from_keys(&info.account_keys);
        MessageTransactionInfo {
            signature: info.signature,
            is_vote: info.is_vote,
            transaction: info.transaction,
            meta: info.transaction_status_meta,
            index: info.index,
            account_keys,
            sequence_number,
        }
    }

    /// Sets the accounts of the transaction to those that its own parts name. Where one of them
    /// has not the width of a key, nothing changes.
    pub fn fill_account_keys(&mut self) -> (result: Result<(), &'static str>)
        ensures
            result is Ok <==> old(self).names_keys(),
            match result {
                Ok(()) => {
                    &&& final(self).account_keys@ == old(self).named_keys()
                    &&& *final(self) == (MessageTransactionInfo {
                        account_keys: final(self).account_keys,
                        ..*old(self)
                    })
                },
                Err(text) => text@ == "invalid pubkey length"@ && *final(self) == *old(self),
            },
    {
        let mut account_keys = KeySet::new();
        match &self.transaction.message {
            Some(message) => {
                if !add_keys(&mut account_keys, &message.account_keys) {
                    return Err("invalid pubkey length");
                }
            },
            None => {},
        }
        if !add_keys(&mut account_keys, &self.meta.loaded_writable_addresses) {
            return Err("invalid pubkey length");
        }
        if !add_keys(&mut account_keys, &self.meta.loaded_readonly_addresses) {
            return Err("invalid pubkey length");
        }
        assert(account_keys@ =~= self.named_keys());
        self.account_keys = account_keys;
        Ok(())
    }
}

/// News of a transaction.
#[derive(Debug, Clone, PartialEq)]
pub struct MessageTransaction {
    pub transaction: Arc<MessageTransactionInfo>,
    pub slot: u64,
    pub created_at: Timestamp,
}

impl MessageTransaction {
    /// The news of a transaction that the validator hands over, made now.
    pub fn from_geyser(info: ReplicaTransactionInfoV2, slot: u64, sequence_number: u64) -> (message:
        Self)
        ensures
            (*message.transaction).tells(info, sequence_number),
            message.slot == slot,
            is_normal(message.created_at),
    {
        Self::from_geyser_at(info, slot, sequence_number, Timestamp::now())
    }

    /// The news of a transaction that the validator hands over, made at the given time.
    pub fn from_geyser_at(
        info: ReplicaTransactionInfoV2,
        slot: u64,
        sequence_number: u64,
        created_at: Timestamp,
    ) -> (message: Self)
        ensures
            (*message.transaction).tells(info, sequence_number),
            message.slot == slot,
            message.created_at == created_at,
    {
        MessageTransaction {
            transaction: Arc::new(MessageTransactionInfo::from_geyser(info, sequence_number)),
            slot,
            created_at,
        }
    }

    /// The news of a transaction that the validator hands over in the later form, made now.
    pub fn from_geyser_v3(
        info: ReplicaTransactionInfoV3,
        slot: u64,
        sequence_number: u64,
    ) -> (message: Self)
        ensures
            (*message.transaction).tells_v3(info, sequence_number),
            message.slot == slot,
            is_normal(message.created_at),
    {
        Self::from_geyser_v3_at(info, slot, sequence_number, Timestamp::now())
    }

    /// The news of a transaction that the validator hands over in the later form, made at the
    /// given time.
    pub fn from_geyser_v3_at(
        info: ReplicaTransactionInfoV3,
        slot: u64,
        sequence_number: u64,
        created_at: Timestamp,
    ) -> (message: Self)
        ensures
            (*message.transaction).tells_v3(info, sequence_number),
            message.slot == slot,
            message.created_at == created_at,
    {
        MessageTransaction {
            transaction: Arc::new(MessageTransactionInfo::from_geyser_v3(info, sequence_number)),
            slot,
            created_at,
        }
    }
}

/// News of an entry.
#[derive(Debug, Clone, Copy, PartialEq)]
pub struct MessageEntry {
    pub slot: u64,
    pub index: usize,
    pub num_hashes: u64,
    pub hash: BlockHash,
    pub executed_transaction_count: u64,
    pub starting_transaction_index: u64,
    pub created_at: Timestamp,
    pub sequence_number: u64,
}

impl MessageEntry {
    /// Whether this is the entry that the validator handed over.
    pub open spec fn tells(self, info: ReplicaEntryInfoV2, sequence_number: u64) -> bool {
        &&& self.slot == info.slot
        &&& self.index == info.index
        &&& self.num_hashes == info.num_hashes
        &&& self.hash@ == info.hash@
        &&& self.executed_transaction_count == info.executed_transaction_count
        &&& self.starting_transaction_index == info.starting_transaction_index
        &&& self.sequence_number == sequence_number
    }

    /// The news of an entry that the validator hands over, made now.
    pub fn from_geyser(info: &ReplicaEntryInfoV2<'_>, sequence_number: u64) -> (message: Self)
        requires
            info.hash@.len() == HASH_BYTES,
        ensures
            message.tells(*info, sequence_number),
            is_normal(message.created_at),
    {
        Self::from_geyser_at(info, sequence_number, Timestamp::now())
    }

    /// The news of an entry that the validator hands over, made at the given time.
    pub fn from_geyser_at(
        info: &ReplicaEntryInfoV2<'_>,
        sequence_number: u64,
        created_at: Timestamp,
    ) -> (message: Self)
        requires
            info.hash@.len() == HASH_BYTES,
        ensures
            message.tells(*info, sequence_number),
            message.created_at == created_at,
    {
        MessageEntry {
            slot: info.slot,
            index: info.index,
            num_hashes: info.num_hashes,
            hash: match BlockHash::try_from_slice(info.hash) {
                Some(hash) => hash,
                None => unreached(),
            },
            executed_transaction_count: info.executed_transaction_count,
            starting_transaction_index: info.starting_transaction_index as u64,
            created_at,
            sequence_number,
        }
    }
}

/// News of a block's description.
#[derive(Debug, Clone, PartialEq)]
pub struct MessageBlockMeta {
    pub block_meta: SubscribeUpdateBlockMeta,
    pub created_at: Timestamp,
    pub sequence_number: u64,
}

impl std::ops::Deref for MessageBlockMeta {
    type Target = SubscribeUpdateBlockMeta;

    fn deref(&self) -> (block_meta: &SubscribeUpdateBlockMeta)
        ensures
            *block_meta == self.block_meta,
    {
        &self.block_meta
    }
}

impl std::ops::DerefMut for MessageBlockMeta {
    fn deref_mut(&mut self) -> (block_meta: &mut SubscribeUpdateBlockMeta)
        ensures
            *block_meta == old(self).block_meta,
            *final(self) == (MessageBlockMeta { block_meta: *final(block_meta), ..*old(self) }),
    {
        &mut self.block_meta
    }
}

/// The rewards of a block as they are stored with it.
pub open spec fn rewards_of(rewards: RewardsAndNumPartitions) -> Rewards {
    Rewards {
        rewards: rewards.rewards,
        num_partitions: match rewards.num_partitions {
            Some(num_partitions) => Some(NumPartitions { num_partitions }),
            None => None,
        },
    }
}

/// The description of a block that the validator handed over.
pub open spec fn block_meta_of(info: ReplicaBlockInfoV4) -> SubscribeUpdateBlockMeta {
    SubscribeUpdateBlockMeta {
        slot: info.slot,
        blockhash: info.blockhash,
        rewards: Some(rewards_of(info.rewards)),
        block_time: match info.block_time {
            Some(timestamp) => Some(UnixTimestamp { timestamp }),
            None => None,
        },
        block_height: match info.block_height {
            Some(block_height) => Some(BlockHeight { block_height }),
            None => None,
        },
        parent_slot: info.parent_slot,
        parent_blockhash: info.parent_blockhash,
        executed_transaction_count: info.executed_transaction_count,
        entries_count: info.entry_count,
    }
}

impl MessageBlockMeta {
    /// The news of a block's description that the validator hands over, made now.
    pub fn from_geyser(info: ReplicaBlockInfoV4, sequence_number: u64) -> (message: Self)
        ensures
            message.block_meta == block_meta_of(info),
            message.sequence_number == sequence_number,
            is_normal(message.created_at),
    {
        Self::from_geyser_at(info, sequence_number, Timestamp::now())
    }

    /// The news of a block's description that the validator hands over, made at the given time.
    pub fn from_geyser_at(
        info: ReplicaBlockInfoV4,
        sequence_number: u64,
        created_at: Timestamp,
    ) -> (message: Self)
        ensures
            message == (MessageBlockMeta {
                block_meta: block_meta_of(info),
                created_at,
                sequence_number,
            }),
    {
        let num_partitions = match info.rewards.num_partitions {
            Some(num_partitions) => Some(NumPartitions { num_partitions }),
            None => None,
        };
        MessageBlockMeta {
            block_meta: SubscribeUpdateBlockMeta {
                parent_slot: info.parent_slot,
                slot: info.slot,
                parent_blockhash: info.parent_blockhash,
                blockhash: info.blockhash,
                rewards: Some(Rewards { rewards: info.rewards.rewards, num_partitions }),
                block_time: match info.block_time {
                    Some(timestamp) => Some(UnixTimestamp { timestamp }),
                    None => None,
                },
                block_height: match info.block_height {
                    Some(block_height) => Some(BlockHeight { block_height }),
                    None => None,
                },
                executed_transaction_count: info.executed_transaction_count,
                entries_count: info.entry_count,
            },
            created_at,
            sequence_number,
        }
    }

    /// The news of a block's description that came over the wire, which carries no sequence
    /// number.
    pub fn from_update_oneof(block_meta: SubscribeUpdateBlockMeta, created_at: Timestamp) -> (message:
        Self)
        ensures
            message == (MessageBlockMeta { block_meta, created_at, sequence_number: 0 }),
    {
        MessageBlockMeta { block_meta, created_at, sequence_number: 0 }
    }

    /// The slot of the block.
    pub fn slot(&self) -> (slot: u64)
        ensures
            slot == self.block_meta.slot,
    {
        self.block_meta.slot
    }
}

/// News of a whole block.
#[derive(Debug, Clone, PartialEq)]
pub struct MessageBlock {
    pub meta: Arc<MessageBlockMeta>,
    pub transactions: Vec<Arc<MessageTransactionInfo>>,
    pub updated_account_count: u64,
    pub accounts: Vec<Arc<MessageAccountInfo>>,
    pub entries: Vec<Arc<MessageEntry>>,
    pub created_at: Timestamp,
}

impl MessageBlock {
    /// Whether this is the block with the given parts.
    pub open spec fn tells(
        self,
        meta: Arc<MessageBlockMeta>,
        transactions: Vec<Arc<MessageTransactionInfo>>,
        accounts: Vec<Arc<MessageAccountInfo>>,
        entries: Vec<Arc<MessageEntry>>,
    ) -> bool {
        &&& self.meta == meta
        &&& self.transactions == transactions
        &&& self.updated_account_count == accounts@.len()
        &&& self.accounts == accounts
        &&& self.entries == entries
    }

    /// The block with the given parts, made now.
    pub fn new(
        meta: Arc<MessageBlockMeta>,
        transactions: Vec<Arc<MessageTransactionInfo>>,
        accounts: Vec<Arc<MessageAccountInfo>>,
        entries: Vec<Arc<MessageEntry>>,
    ) -> (block: Self)
        ensures
            block.tells(meta, transactions, accounts, entries),
            is_normal(block.created_at),
    {
        Self::new_at(meta, transactions, accounts, entries, Timestamp::now())
    }

    /// The block with the given parts, made at the given time.
    pub fn new_at(
        meta: Arc<MessageBlockMeta>,
        transactions: Vec<Arc<MessageTransactionInfo>>,
        accounts: Vec<Arc<MessageAccountInfo>>,
        entries: Vec<Arc<MessageEntry>>,
        created_at: Timestamp,
    ) -> (block: Self)
        ensures
            block.tells(meta, transactions, accounts, entries),
            block.created_at == created_at,
    {
        let updated_account_count: u64 = accounts.len() as u64;
        MessageBlock { meta, transactions, updated_account_count, accounts, entries, created_at }
    }
}

/// A message.
#[derive(Debug, Clone, PartialEq)]
pub enum Message {
    Slot(MessageSlot),
    Account(MessageAccount),
    Transaction(MessageTransaction),
    Entry(Arc<MessageEntry>),
    BlockMeta(Arc<MessageBlockMeta>),
    Block(Arc<MessageBlock>),
}

impl Message {
    /// The number of the message.
    pub open spec fn sequence_number(self) -> u64 {
        match self {
            Message::Slot(message) => message.sequence_number,
            Message::Account(message) => message.sequence_number,
            Message::Transaction(message) => message.transaction.sequence_number,
            Message::Entry(message) => message.sequence_number,
            Message::BlockMeta(message) => message.sequence_number,
            Message::Block(message) => message.meta.sequence_number,
        }
    }

    /// The slot that the message is about.
    pub open spec fn slot(self) -> u64 {
        match self {
            Message::Slot(message) => message.slot,
            Message::Account(message) => message.slot,
            Message::Transaction(message) => message.slot,
            Message::Entry(message) => message.slot,
            Message::BlockMeta(message) => message.block_meta.slot,
            Message::Block(message) => message.meta.block_meta.slot,
        }
    }

    /// When the message was made.
    pub open spec fn made_at(self) -> Timestamp {
        match self {
            Message::Slot(message) => message.created_at,
            Message::Account(message) => message.created_at,
            Message::Transaction(message) => message.created_at,
            Message::Entry(message) => message.created_at,
            Message::BlockMeta(message) => message.created_at,
            Message::Block(message) => message.created_at,
        }
    }

    /// The name of the kind of message.
    pub open spec fn kind(self) -> Seq<char> {
        match self {
            Message::Slot(_) => "slot"@,
            Message::Account(_) => "account"@,
            Message::Transaction(_) => "transaction"@,
            Message::Entry(_) => "entry"@,
            Message::BlockMeta(_) => "block_meta"@,
            Message::Block(_) => "block"@,
        }
    }

    /// The number of the message; a block has that of its description.
    pub fn get_sequence_number(&self) -> (number: u64)
        ensures
            number == self.sequence_number(),
    {
        match self {
            Message::Slot(message) => message.sequence_number,
            Message::Account(message) => message.sequence_number,
            Message::Transaction(message) => message.transaction.sequence_number,
            Message::Entry(message) => message.sequence_number,
            Message::BlockMeta(message) => message.sequence_number,
            Message::Block(message) => message.meta.sequence_number,
        }
    }

    /// The slot that the message is about.
    pub fn get_slot(&self) -> (slot: u64)
        ensures
            slot == self.slot(),
    {
        match self {
            Message::Slot(message) => message.slot,
            Message::Account(message) => message.slot,
            Message::Transaction(message) => message.slot,
            Message::Entry(message) => message.slot,
            Message::BlockMeta(message) => message.block_meta.slot,
            Message::Block(message) => message.meta.block_meta.slot,
        }
    }

    /// When the message was made.
    pub fn created_at(&self) -> (timestamp: Timestamp)
        ensures
            timestamp == self.made_at(),
    {
        match self {
            Message::Slot(message) => message.created_at,
            Message::Account(message) => message.created_at,
            Message::Transaction(message) => message.created_at,
            Message::Entry(message) => message.created_at,
            Message::BlockMeta(message) => message.created_at,
            Message::Block(message) => message.created_at,
        }
    }

    /// The name of the kind of message.
    pub fn kind_name(&self) -> (text: &'static str)
        ensures
            text@ == self.kind(),
    {
        match self {
            Message::Slot(_) => "slot",
            Message::Account(_) => "account",
            Message::Transaction(_) => "transaction",
            Message::Entry(_) => "entry",
            Message::BlockMeta(_) => "block_meta",
            Message::Block(_) => "block",
        }
    }
}

/// What a [`Message`] says: that of an account by its contents, all others as they are.
pub enum MessageView {
    Account(MessageAccountView),
    Other(Message),
}

impl View for Message {
    type V = MessageView;

    open spec fn view(&self) -> MessageView {
        match *self {
            Message::Account(account) => MessageView::Account(account@),
            message => MessageView::Other(message),
        }
    }
}

} // verus!
