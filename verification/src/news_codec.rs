//! Points in time, and what updates tell of slots, entries and transactions, on the wire.

use crate::account_codec::flag;
use crate::fields::{
    byte_string, bytes_of, encode, integer, joined, lemma_message_round_trip, lemma_no_fields,
    lemma_then, lemma_then_bytes, lemma_then_integer, merge_part, message_bytes, optional_bytes,
    optional_integer, push_bytes, push_integer, push_optional_integer, push_some_bytes, reads_to,
    views_of, with_part, Field, FieldMessage, FieldView,
};
use crate::geyser::{
    EntryUpdateView, SlotUpdateView, SubscribeUpdateEntry, SubscribeUpdateSlot,
    SubscribeUpdateTransaction, SubscribeUpdateTransactionInfo, TransactionInfoView,
    TransactionUpdateView,
};
use crate::scalars::{
    from_signed_bits, from_small_signed_bits, lemma_signed_round_trip,
    lemma_small_signed_round_trip, lemma_text_round_trip, read_text, signed_bits, signed_of,
    small_signed_of, text_bytes, text_in, to_signed_bits, utf8_of,
};
use crate::timestamp::Timestamp;
use crate::wire::{DecodeError, WireMessage};
use vstd::prelude::*;
use vstd::slice::slice_to_vec;
use vstd::utf8::encode_utf8;

verus! {

/// Tag of the seconds of a point in time.
pub const TIMESTAMP_SECONDS_TAG: u32 = 1;

/// Tag of the nanoseconds of a point in time.
pub const TIMESTAMP_NANOS_TAG: u32 = 2;

impl FieldMessage for Timestamp {
    open spec fn empty() -> Timestamp {
        Timestamp { seconds: 0, nanos: 0 }
    }

    open spec fn takes_integer(tag: u32) -> bool {
        tag == TIMESTAMP_SECONDS_TAG || tag == TIMESTAMP_NANOS_TAG
    }

    open spec fn takes_bytes(tag: u32) -> bool {
        false
    }

    open spec fn with_integer(message: Timestamp, tag: u32, value: u64) -> Timestamp {
        if tag == TIMESTAMP_SECONDS_TAG {
            Timestamp { seconds: signed_of(value), ..message }
        } else if tag == TIMESTAMP_NANOS_TAG {
            Timestamp { nanos: small_signed_of(value), ..message }
        } else {
            message
        }
    }

    open spec fn with_bytes(message: Timestamp, tag: u32, bytes: Seq<u8>, depth: nat) -> Result<
        Timestamp,
        DecodeError,
    > {
        Ok(message)
    }

    open spec fn fields(message: Timestamp) -> Seq<FieldView> {
        integer(TIMESTAMP_SECONDS_TAG, signed_bits(message.seconds))
            + integer(TIMESTAMP_NANOS_TAG, signed_bits(message.nanos as i64))
    }

    fn new_empty() -> (message: Self) {
        Timestamp { seconds: 0, nanos: 0 }
    }

    fn has_integer(tag: u32) -> (found: bool) {
        tag == TIMESTAMP_SECONDS_TAG || tag == TIMESTAMP_NANOS_TAG
    }

    fn has_bytes(tag: u32) -> (found: bool) {
        false
    }

    fn set_integer(&mut self, tag: u32, value: u64) {
        if tag == TIMESTAMP_SECONDS_TAG {
            self.seconds = from_signed_bits(value);
        } else if tag == TIMESTAMP_NANOS_TAG {
            self.nanos = from_small_signed_bits(value);
        }
    }

    fn set_bytes(&mut self, tag: u32, bytes: &[u8], depth: u32) -> (result: Result<
        (),
        DecodeError,
    >) {
        Ok(())
    }

    fn to_fields(&self) -> (fields: Vec<Field>) {
        let mut fields: Vec<Field> = Vec::new();
        push_integer(&mut fields, TIMESTAMP_SECONDS_TAG, to_signed_bits(self.seconds));
        push_integer(&mut fields, TIMESTAMP_NANOS_TAG, to_signed_bits(self.nanos as i64));
        assert(views_of(fields@) =~= Self::fields(self@));
        fields
    }
}

/// Reading the fields of a point in time gives it back.
pub proof fn lemma_timestamp(message: Timestamp, depth: nat)
    ensures
        reads_to::<Timestamp>(Timestamp::fields(message), message, depth),
{
    let f0 = Seq::<FieldView>::empty();
    let m0 = Timestamp::empty();
    lemma_no_fields::<Timestamp>(depth);
    let f1 = f0 + integer(TIMESTAMP_SECONDS_TAG, signed_bits(message.seconds));
    let m1 = Timestamp { seconds: message.seconds, ..m0 };
    lemma_signed_round_trip(message.seconds);
    lemma_then_integer::<Timestamp>(
        f0,
        m0,
        TIMESTAMP_SECONDS_TAG,
        signed_bits(message.seconds),
        m1,
        depth,
    );
    let f2 = f1 + integer(TIMESTAMP_NANOS_TAG, signed_bits(message.nanos as i64));
    let m2 = Timestamp { nanos: message.nanos, ..m1 };
    lemma_small_signed_round_trip(message.nanos);
    lemma_then_integer::<Timestamp>(
        f1,
        m1,
        TIMESTAMP_NANOS_TAG,
        signed_bits(message.nanos as i64),
        m2,
        depth,
    );
    assert(f2 =~= Timestamp::fields(message));
    assert(m2 =~= message);
}

/// Tag of the number of a slot.
pub const SLOT_SLOT_TAG: u32 = 1;

/// Tag of the slot before a slot.
pub const SLOT_PARENT_TAG: u32 = 2;

/// Tag of what happened to a slot.
pub const SLOT_STATUS_TAG: u32 = 3;

/// Tag of why a slot is dead.
pub const SLOT_DEAD_ERROR_TAG: u32 = 4;

impl FieldMessage for SubscribeUpdateSlot {
    open spec fn empty() -> SlotUpdateView {
        SlotUpdateView { slot: 0, parent: None, status: 0, dead_error: None }
    }

    open spec fn takes_integer(tag: u32) -> bool {
        tag == SLOT_SLOT_TAG || tag == SLOT_PARENT_TAG || tag == SLOT_STATUS_TAG
    }

    open spec fn takes_bytes(tag: u32) -> bool {
        tag == SLOT_DEAD_ERROR_TAG
    }

    open spec fn with_integer(message: SlotUpdateView, tag: u32, value: u64) -> SlotUpdateView {
        if tag == SLOT_SLOT_TAG {
            SlotUpdateView { slot: value, ..message }
        } else if tag == SLOT_PARENT_TAG {
            SlotUpdateView { parent: Some(value), ..message }
        } else if tag == SLOT_STATUS_TAG {
            SlotUpdateView { status: small_signed_of(value), ..message }
        } else {
            message
        }
    }

    open spec fn with_bytes(
        message: SlotUpdateView,
        tag: u32,
        bytes: Seq<u8>,
        depth: nat,
    ) -> Result<SlotUpdateView, DecodeError> {
        if tag == SLOT_DEAD_ERROR_TAG {
            match text_in(bytes) {
                Ok(text) => Ok(SlotUpdateView { dead_error: Some(text), ..message }),
                Err(error) => Err(error),
            }
        } else {
            Ok(message)
        }
    }

    open spec fn fields(message: SlotUpdateView) -> Seq<FieldView> {
        integer(SLOT_SLOT_TAG, message.slot)
            + optional_integer(SLOT_PARENT_TAG, message.parent)
            + integer(SLOT_STATUS_TAG, signed_bits(message.status as i64))
            + optional_bytes(SLOT_DEAD_ERROR_TAG, utf8_of(message.dead_error))
    }

    fn new_empty() -> (message: Self) {
        SubscribeUpdateSlot { slot: 0, parent: None, status: 0, dead_error: None }
    }

    fn has_integer(tag: u32) -> (found: bool) {
        tag == SLOT_SLOT_TAG || tag == SLOT_PARENT_TAG || tag == SLOT_STATUS_TAG
    }

    fn has_bytes(tag: u32) -> (found: bool) {
        tag == SLOT_DEAD_ERROR_TAG
    }

    fn set_integer(&mut self, tag: u32, value: u64) {
        if tag == SLOT_SLOT_TAG {
            self.slot = value;
        } else if tag == SLOT_PARENT_TAG {
            self.parent = Some(value);
        } else if tag == SLOT_STATUS_TAG {
            self.status = from_small_signed_bits(value);
        }
    }

    fn set_bytes(&mut self, tag: u32, bytes: &[u8], depth: u32) -> (result: Result<
        (),
        DecodeError,
    >) {
        if tag == SLOT_DEAD_ERROR_TAG {
            match read_text(bytes) {
                Ok(text) => {
                    self.dead_error = Some(text);
                    Ok(())
                },
                Err(error) => Err(error),
            }
        } else {
            Ok(())
        }
    }

    fn to_fields(&self) -> (fields: Vec<Field>) {
        let mut fields: Vec<Field> = Vec::new();
        push_integer(&mut fields, SLOT_SLOT_TAG, self.slot);
        push_optional_integer(&mut fields, SLOT_PARENT_TAG, self.parent);
        push_integer(&mut fields, SLOT_STATUS_TAG, to_signed_bits(self.status as i64));
        if let Some(text) = &self.dead_error {
            push_some_bytes(&mut fields, SLOT_DEAD_ERROR_TAG, text_bytes(text));
        }
        assert(views_of(fields@) =~= Self::fields(self@));
        fields
    }
}

/// Whether the parts of an update on a slot are short enough for their lengths to be written.
pub open spec fn fits_slot_update(message: SlotUpdateView) -> bool {
    &&& message.dead_error matches Some(text) ==> encode_utf8(text).len() <= u64::MAX
}

/// Reading the fields of an update on a slot gives it back.
pub proof fn lemma_slot_update(message: SlotUpdateView, depth: nat)
    requires
        fits_slot_update(message),
    ensures
        reads_to::<SubscribeUpdateSlot>(SubscribeUpdateSlot::fields(message), message, depth),
{
    let f0 = Seq::<FieldView>::empty();
    let m0 = SubscribeUpdateSlot::empty();
    lemma_no_fields::<SubscribeUpdateSlot>(depth);
    let f1 = f0 + integer(SLOT_SLOT_TAG, message.slot);
    let m1 = SlotUpdateView { slot: message.slot, ..m0 };
    lemma_then_integer::<SubscribeUpdateSlot>(f0, m0, SLOT_SLOT_TAG, message.slot, m1, depth);
    let f2 = f1 + optional_integer(SLOT_PARENT_TAG, message.parent);
    let m2 = SlotUpdateView { parent: message.parent, ..m1 };
    if let Some(value) = message.parent {
        lemma_then::<SubscribeUpdateSlot>(
            f1,
            m1,
            FieldView::Integer(SLOT_PARENT_TAG, value),
            m2,
            depth,
        );
    } else {
        assert(f2 =~= f1);
    }
    let f3 = f2 + integer(SLOT_STATUS_TAG, signed_bits(message.status as i64));
    let m3 = SlotUpdateView { status: message.status, ..m2 };
    lemma_small_signed_round_trip(message.status);
    lemma_then_integer::<SubscribeUpdateSlot>(
        f2,
        m2,
        SLOT_STATUS_TAG,
        signed_bits(message.status as i64),
        m3,
        depth,
    );
    let f4 = f3 + optional_bytes(SLOT_DEAD_ERROR_TAG, utf8_of(message.dead_error));
    let m4 = SlotUpdateView { dead_error: message.dead_error, ..m3 };
    if let Some(text) = message.dead_error {
        lemma_text_round_trip(text);
        lemma_then::<SubscribeUpdateSlot>(
            f3,
            m3,
            FieldView::Bytes(SLOT_DEAD_ERROR_TAG, encode_utf8(text)),
            m4,
            depth,
        );
    } else {
        assert(f4 =~= f3);
    }
    assert(f4 =~= SubscribeUpdateSlot::fields(message));
    assert(m4 =~= message);
}

/// Tag of the slot of an entry.
pub const ENTRY_SLOT_TAG: u32 = 1;

/// Tag of the index of an entry in its block.
pub const ENTRY_INDEX_TAG: u32 = 2;

/// Tag of how many hashes lie before an entry.
pub const ENTRY_NUM_HASHES_TAG: u32 = 3;

/// Tag of the hash of an entry.
pub const ENTRY_HASH_TAG: u32 = 4;

/// Tag of how many transactions an entry holds.
pub const ENTRY_EXECUTED_TRANSACTION_COUNT_TAG: u32 = 5;

/// Tag of the index of the first transaction of an entry.
pub const ENTRY_STARTING_TRANSACTION_INDEX_TAG: u32 = 6;

impl FieldMessage for SubscribeUpdateEntry {
    open spec fn empty() -> EntryUpdateView {
        EntryUpdateView {
            slot: 0,
            index: 0,
            num_hashes: 0,
            hash: Seq::empty(),
            executed_transaction_count: 0,
            starting_transaction_index: 0,
        }
    }

    open spec fn takes_integer(tag: u32) -> bool {
        tag == ENTRY_SLOT_TAG || tag == ENTRY_INDEX_TAG || tag == ENTRY_NUM_HASHES_TAG || tag
            == ENTRY_EXECUTED_TRANSACTION_COUNT_TAG || tag
            == ENTRY_STARTING_TRANSACTION_INDEX_TAG
    }

    open spec fn takes_bytes(tag: u32) -> bool {
        tag == ENTRY_HASH_TAG
    }

    open spec fn with_integer(message: EntryUpdateView, tag: u32, value: u64) -> EntryUpdateView {
        if tag == ENTRY_SLOT_TAG {
            EntryUpdateView { slot: value, ..message }
        } else if tag == ENTRY_INDEX_TAG {
            EntryUpdateView { index: value, ..message }
        } else if tag == ENTRY_NUM_HASHES_TAG {
            EntryUpdateView { num_hashes: value, ..message }
        } else if tag == ENTRY_EXECUTED_TRANSACTION_COUNT_TAG {
            EntryUpdateView { executed_transaction_count: value, ..message }
        } else if tag == ENTRY_STARTING_TRANSACTION_INDEX_TAG {
            EntryUpdateView { starting_transaction_index: value, ..message }
        } else {
            message
        }
    }

    open spec fn with_bytes(
        message: EntryUpdateView,
        tag: u32,
        bytes: Seq<u8>,
        depth: nat,
    ) -> Result<EntryUpdateView, DecodeError> {
        if tag == ENTRY_HASH_TAG {
            Ok(EntryUpdateView { hash: bytes, ..message })
        } else {
            Ok(message)
        }
    }

    open spec fn fields(message: EntryUpdateView) -> Seq<FieldView> {
        integer(ENTRY_SLOT_TAG, message.slot)
            + integer(ENTRY_INDEX_TAG, message.index)
            + integer(ENTRY_NUM_HASHES_TAG, message.num_hashes)
            + byte_string(ENTRY_HASH_TAG, message.hash)
            + integer(ENTRY_EXECUTED_TRANSACTION_COUNT_TAG, message.executed_transaction_count)
            + integer(ENTRY_STARTING_TRANSACTION_INDEX_TAG, message.starting_transaction_index)
    }

    fn new_empty() -> (message: Self) {
        SubscribeUpdateEntry {
            slot: 0,
            index: 0,
            num_hashes: 0,
            hash: Vec::new(),
            executed_transaction_count: 0,
            starting_transaction_index: 0,
        }
    }

    fn has_integer(tag: u32) -> (found: bool) {
        tag == ENTRY_SLOT_TAG || tag == ENTRY_INDEX_TAG || tag == ENTRY_NUM_HASHES_TAG || tag
            == ENTRY_EXECUTED_TRANSACTION_COUNT_TAG || tag
            == ENTRY_STARTING_TRANSACTION_INDEX_TAG
    }

    fn has_bytes(tag: u32) -> (found: bool) {
        tag == ENTRY_HASH_TAG
    }

    fn set_integer(&mut self, tag: u32, value: u64) {
        if tag == ENTRY_SLOT_TAG {
            self.slot = value;
        } else if tag == ENTRY_INDEX_TAG {
            self.index = value;
        } else if tag == ENTRY_NUM_HASHES_TAG {
            self.num_hashes = value;
        } else if tag == ENTRY_EXECUTED_TRANSACTION_COUNT_TAG {
            self.executed_transaction_count = value;
        } else if tag == ENTRY_STARTING_TRANSACTION_INDEX_TAG {
            self.starting_transaction_index = value;
        }
    }

    fn set_bytes(&mut self, tag: u32, bytes: &[u8], depth: u32) -> (result: Result<
        (),
        DecodeError,
    >) {
        if tag == ENTRY_HASH_TAG {
            self.hash = slice_to_vec(bytes);
            Ok(())
        } else {
            Ok(())
        }
    }

    fn to_fields(&self) -> (fields: Vec<Field>) {
        let mut fields: Vec<Field> = Vec::new();
        push_integer(&mut fields, ENTRY_SLOT_TAG, self.slot);
        push_integer(&mut fields, ENTRY_INDEX_TAG, self.index);
        push_integer(&mut fields, ENTRY_NUM_HASHES_TAG, self.num_hashes);
        push_bytes(&mut fields, ENTRY_HASH_TAG, slice_to_vec(self.hash.as_slice()));
        push_integer(
            &mut fields,
            ENTRY_EXECUTED_TRANSACTION_COUNT_TAG,
            self.executed_transaction_count,
        );
        push_integer(
            &mut fields,
            ENTRY_STARTING_TRANSACTION_INDEX_TAG,
            self.starting_transaction_index,
        );
        assert(views_of(fields@) =~= Self::fields(self@));
        fields
    }
}

/// Whether the parts of an update on an entry are short enough for their lengths to be written.
pub open spec fn fits_entry_update(message: EntryUpdateView) -> bool {
    &&& message.hash.len() <= u64::MAX
}

/// Reading the fields of an update on an entry gives it back.
pub proof fn lemma_entry_update(message: EntryUpdateView, depth: nat)
    requires
        fits_entry_update(message),
    ensures
        reads_to::<SubscribeUpdateEntry>(SubscribeUpdateEntry::fields(message), message, depth),
{
    let f0 = Seq::<FieldView>::empty();
    let m0 = SubscribeUpdateEntry::empty();
    lemma_no_fields::<SubscribeUpdateEntry>(depth);
    let f1 = f0 + integer(ENTRY_SLOT_TAG, message.slot);
    let m1 = EntryUpdateView { slot: message.slot, ..m0 };
    lemma_then_integer::<SubscribeUpdateEntry>(f0, m0, ENTRY_SLOT_TAG, message.slot, m1, depth);
    let f2 = f1 + integer(ENTRY_INDEX_TAG, message.index);
    let m2 = EntryUpdateView { index: message.index, ..m1 };
    lemma_then_integer::<SubscribeUpdateEntry>(f1, m1, ENTRY_INDEX_TAG, message.index, m2, depth);
    let f3 = f2 + integer(ENTRY_NUM_HASHES_TAG, message.num_hashes);
    let m3 = EntryUpdateView { num_hashes: message.num_hashes, ..m2 };
    lemma_then_integer::<SubscribeUpdateEntry>(
        f2,
        m2,
        ENTRY_NUM_HASHES_TAG,
        message.num_hashes,
        m3,
        depth,
    );
    let f4 = f3 + byte_string(ENTRY_HASH_TAG, message.hash);
    let m4 = EntryUpdateView { hash: message.hash, ..m3 };
    if message.hash.len() == 0 {
        assert(message.hash =~= Seq::<u8>::empty());
    }
    lemma_then_bytes::<SubscribeUpdateEntry>(f3, m3, ENTRY_HASH_TAG, message.hash, m4, depth);
    let f5 = f4 + integer(ENTRY_EXECUTED_TRANSACTION_COUNT_TAG, message.executed_transaction_count);
    let m5 = EntryUpdateView {
        executed_transaction_count: message.executed_transaction_count,
        ..m4
    };
    lemma_then_integer::<SubscribeUpdateEntry>(
        f4,
        m4,
        ENTRY_EXECUTED_TRANSACTION_COUNT_TAG,
        message.executed_transaction_count,
        m5,
        depth,
    );
    let f6 = f5 + integer(ENTRY_STARTING_TRANSACTION_INDEX_TAG, message.starting_transaction_index);
    let m6 = EntryUpdateView {
        starting_transaction_index: message.starting_transaction_index,
        ..m5
    };
    lemma_then_integer::<SubscribeUpdateEntry>(
        f5,
        m5,
        ENTRY_STARTING_TRANSACTION_INDEX_TAG,
        message.starting_transaction_index,
        m6,
        depth,
    );
    assert(f6 =~= SubscribeUpdateEntry::fields(message));
    assert(m6 =~= message);
}

/// Tag of the signature of a transaction.
pub const INFO_SIGNATURE_TAG: u32 = 1;

/// Tag of the mark of a vote.
pub const INFO_IS_VOTE_TAG: u32 = 2;

/// Tag of a transaction in its stored form.
pub const INFO_TRANSACTION_TAG: u32 = 3;

/// Tag of what became of a transaction, in its stored form.
pub const INFO_META_TAG: u32 = 4;

/// Tag of the index of a transaction in its block.
pub const INFO_INDEX_TAG: u32 = 5;

impl FieldMessage for SubscribeUpdateTransactionInfo {
    open spec fn empty() -> TransactionInfoView {
        TransactionInfoView {
            signature: Seq::empty(),
            is_vote: false,
            transaction: None,
            meta: None,
            index: 0,
        }
    }

    open spec fn takes_integer(tag: u32) -> bool {
        tag == INFO_IS_VOTE_TAG || tag == INFO_INDEX_TAG
    }

    open spec fn takes_bytes(tag: u32) -> bool {
        tag == INFO_SIGNATURE_TAG || tag == INFO_TRANSACTION_TAG || tag == INFO_META_TAG
    }

    open spec fn with_integer(
        message: TransactionInfoView,
        tag: u32,
        value: u64,
    ) -> TransactionInfoView {
        if tag == INFO_IS_VOTE_TAG {
            TransactionInfoView { is_vote: value != 0, ..message }
        } else if tag == INFO_INDEX_TAG {
            TransactionInfoView { index: value, ..message }
        } else {
            message
        }
    }

    open spec fn with_bytes(
        message: TransactionInfoView,
        tag: u32,
        bytes: Seq<u8>,
        depth: nat,
    ) -> Result<TransactionInfoView, DecodeError> {
        if tag == INFO_SIGNATURE_TAG {
            Ok(TransactionInfoView { signature: bytes, ..message })
        } else if tag == INFO_TRANSACTION_TAG {
            let whole = match message.transaction {
                Some(before) => before + bytes,
                None => bytes,
            };
            Ok(TransactionInfoView { transaction: Some(whole), ..message })
        } else if tag == INFO_META_TAG {
            let whole = match message.meta {
                Some(before) => before + bytes,
                None => bytes,
            };
            Ok(TransactionInfoView { meta: Some(whole), ..message })
        } else {
            Ok(message)
        }
    }

    open spec fn fields(message: TransactionInfoView) -> Seq<FieldView> {
        byte_string(INFO_SIGNATURE_TAG, message.signature)
            + integer(INFO_IS_VOTE_TAG, flag(message.is_vote))
            + optional_bytes(INFO_TRANSACTION_TAG, message.transaction)
            + optional_bytes(INFO_META_TAG, message.meta)
            + integer(INFO_INDEX_TAG, message.index)
    }

    fn new_empty() -> (message: Self) {
        SubscribeUpdateTransactionInfo {
            signature: Vec::new(),
            is_vote: false,
            transaction: None,
            meta: None,
            index: 0,
        }
    }

    fn has_integer(tag: u32) -> (found: bool) {
        tag == INFO_IS_VOTE_TAG || tag == INFO_INDEX_TAG
    }

    fn has_bytes(tag: u32) -> (found: bool) {
        tag == INFO_SIGNATURE_TAG || tag == INFO_TRANSACTION_TAG || tag == INFO_META_TAG
    }

    fn set_integer(&mut self, tag: u32, value: u64) {
        if tag == INFO_IS_VOTE_TAG {
            self.is_vote = value != 0;
        } else if tag == INFO_INDEX_TAG {
            self.index = value;
        }
    }

    fn set_bytes(&mut self, tag: u32, bytes: &[u8], depth: u32) -> (result: Result<
        (),
        DecodeError,
    >) {
        if tag == INFO_SIGNATURE_TAG {
            self.signature = slice_to_vec(bytes);
            Ok(())
        } else if tag == INFO_TRANSACTION_TAG {
            self.transaction = Some(joined(self.transaction.take(), bytes));
            Ok(())
        } else if tag == INFO_META_TAG {
            self.meta = Some(joined(self.meta.take(), bytes));
            Ok(())
        } else {
            Ok(())
        }
    }

    fn to_fields(&self) -> (fields: Vec<Field>) {
        let mut fields: Vec<Field> = Vec::new();
        push_bytes(&mut fields, INFO_SIGNATURE_TAG, slice_to_vec(self.signature.as_slice()));
        push_integer(&mut fields, INFO_IS_VOTE_TAG, if self.is_vote { 1 } else { 0 });
        if let Some(bytes) = &self.transaction {
            push_some_bytes(&mut fields, INFO_TRANSACTION_TAG, slice_to_vec(bytes.as_slice()));
        }
        if let Some(bytes) = &self.meta {
            push_some_bytes(&mut fields, INFO_META_TAG, slice_to_vec(bytes.as_slice()));
        }
        push_integer(&mut fields, INFO_INDEX_TAG, self.index);
        assert(views_of(fields@) =~= Self::fields(self@));
        fields
    }
}

/// Whether the parts of a transaction are short enough for their lengths to be written.
pub open spec fn fits_transaction_info(message: TransactionInfoView) -> bool {
    &&& message.signature.len() <= u64::MAX
    &&& message.transaction matches Some(bytes) ==> bytes.len() <= u64::MAX
    &&& message.meta matches Some(bytes) ==> bytes.len() <= u64::MAX
}

/// Reading the fields of a transaction gives it back.
pub proof fn lemma_transaction_info(message: TransactionInfoView, depth: nat)
    requires
        fits_transaction_info(message),
    ensures
        reads_to::<SubscribeUpdateTransactionInfo>(
            SubscribeUpdateTransactionInfo::fields(message),
            message,
            depth,
        ),
{
    let f0 = Seq::<FieldView>::empty();
    let m0 = SubscribeUpdateTransactionInfo::empty();
    lemma_no_fields::<SubscribeUpdateTransactionInfo>(depth);
    let f1 = f0 + byte_string(INFO_SIGNATURE_TAG, message.signature);
    let m1 = TransactionInfoView { signature: message.signature, ..m0 };
    if message.signature.len() == 0 {
        assert(message.signature =~= Seq::<u8>::empty());
    }
    lemma_then_bytes::<SubscribeUpdateTransactionInfo>(
        f0,
        m0,
        INFO_SIGNATURE_TAG,
        message.signature,
        m1,
        depth,
    );
    let f2 = f1 + integer(INFO_IS_VOTE_TAG, flag(message.is_vote));
    let m2 = TransactionInfoView { is_vote: message.is_vote, ..m1 };
    lemma_then_integer::<SubscribeUpdateTransactionInfo>(
        f1,
        m1,
        INFO_IS_VOTE_TAG,
        flag(message.is_vote),
        m2,
        depth,
    );
    let f3 = f2 + optional_bytes(INFO_TRANSACTION_TAG, message.transaction);
    let m3 = TransactionInfoView { transaction: message.transaction, ..m2 };
    if let Some(bytes) = message.transaction {
        lemma_then::<SubscribeUpdateTransactionInfo>(
            f2,
            m2,
            FieldView::Bytes(INFO_TRANSACTION_TAG, bytes),
            m3,
            depth,
        );
    } else {
        assert(f3 =~= f2);
    }
    let f4 = f3 + optional_bytes(INFO_META_TAG, message.meta);
    let m4 = TransactionInfoView { meta: message.meta, ..m3 };
    if let Some(bytes) = message.meta {
        lemma_then::<SubscribeUpdateTransactionInfo>(
            f3,
            m3,
            FieldView::Bytes(INFO_META_TAG, bytes),
            m4,
            depth,
        );
    } else {
        assert(f4 =~= f3);
    }
    let f5 = f4 + integer(INFO_INDEX_TAG, message.index);
    let m5 = TransactionInfoView { index: message.index, ..m4 };
    lemma_then_integer::<SubscribeUpdateTransactionInfo>(
        f4,
        m4,
        INFO_INDEX_TAG,
        message.index,
        m5,
        depth,
    );
    assert(f5 =~= SubscribeUpdateTransactionInfo::fields(message));
    assert(m5 =~= message);
}

/// Tag of the transaction in an update on it.
pub const TRANSACTION_TRANSACTION_TAG: u32 = 1;

/// Tag of the slot of a transaction.
pub const TRANSACTION_SLOT_TAG: u32 = 2;

impl FieldMessage for SubscribeUpdateTransaction {
    open spec fn empty() -> TransactionUpdateView {
        TransactionUpdateView { transaction: None, slot: 0 }
    }

    open spec fn takes_integer(tag: u32) -> bool {
        tag == TRANSACTION_SLOT_TAG
    }

    open spec fn takes_bytes(tag: u32) -> bool {
        tag == TRANSACTION_TRANSACTION_TAG
    }

    open spec fn with_integer(
        message: TransactionUpdateView,
        tag: u32,
        value: u64,
    ) -> TransactionUpdateView {
        if tag == TRANSACTION_SLOT_TAG {
            TransactionUpdateView { slot: value, ..message }
        } else {
            message
        }
    }

    open spec fn with_bytes(
        message: TransactionUpdateView,
        tag: u32,
        bytes: Seq<u8>,
        depth: nat,
    ) -> Result<TransactionUpdateView, DecodeError> {
        if tag == TRANSACTION_TRANSACTION_TAG {
            let before = match message.transaction {
                Some(part) => part,
                None => SubscribeUpdateTransactionInfo::unset(),
            };
            match with_part::<SubscribeUpdateTransactionInfo>(before, bytes, depth) {
                Ok(part) => Ok(TransactionUpdateView { transaction: Some(part), ..message }),
                Err(error) => Err(error),
            }
        } else {
            Ok(message)
        }
    }

    open spec fn fields(message: TransactionUpdateView) -> Seq<FieldView> {
        optional_bytes(
            TRANSACTION_TRANSACTION_TAG,
            bytes_of::<SubscribeUpdateTransactionInfo>(message.transaction),
        )
            + integer(TRANSACTION_SLOT_TAG, message.slot)
    }

    fn new_empty() -> (message: Self) {
        SubscribeUpdateTransaction { transaction: None, slot: 0 }
    }

    fn has_integer(tag: u32) -> (found: bool) {
        tag == TRANSACTION_SLOT_TAG
    }

    fn has_bytes(tag: u32) -> (found: bool) {
        tag == TRANSACTION_TRANSACTION_TAG
    }

    fn set_integer(&mut self, tag: u32, value: u64) {
        if tag == TRANSACTION_SLOT_TAG {
            self.slot = value;
        }
    }

    fn set_bytes(&mut self, tag: u32, bytes: &[u8], depth: u32) -> (result: Result<
        (),
        DecodeError,
    >) {
        if tag == TRANSACTION_TRANSACTION_TAG {
            let mut part = match self.transaction.take() {
                Some(part) => part,
                None => SubscribeUpdateTransactionInfo::new_unset(),
            };
            match merge_part(&mut part, bytes, depth) {
                Ok(()) => {
                    self.transaction = Some(part);
                    Ok(())
                },
                Err(error) => Err(error),
            }
        } else {
            Ok(())
        }
    }

    fn to_fields(&self) -> (fields: Vec<Field>) {
        let mut fields: Vec<Field> = Vec::new();
        if let Some(part) = &self.transaction {
            push_some_bytes(&mut fields, TRANSACTION_TRANSACTION_TAG, encode(part));
        }
        push_integer(&mut fields, TRANSACTION_SLOT_TAG, self.slot);
        assert(views_of(fields@) =~= Self::fields(self@));
        fields
    }
}

/// Whether the parts of an update on a transaction are short enough for their lengths to be
/// written.
pub open spec fn fits_transaction_update(message: TransactionUpdateView) -> bool {
    &&& message.transaction matches Some(part) ==> fits_transaction_info(part) && message_bytes::<
        SubscribeUpdateTransactionInfo,
    >(part).len() <= u64::MAX
}

/// Reading the fields of an update on a transaction gives it back.
pub proof fn lemma_transaction_update(message: TransactionUpdateView, depth: nat)
    requires
        fits_transaction_update(message),
        depth >= 1,
    ensures
        reads_to::<SubscribeUpdateTransaction>(
            SubscribeUpdateTransaction::fields(message),
            message,
            depth,
        ),
{
    let f0 = Seq::<FieldView>::empty();
    let m0 = SubscribeUpdateTransaction::empty();
    lemma_no_fields::<SubscribeUpdateTransaction>(depth);
    let f1 = f0 + optional_bytes(
        TRANSACTION_TRANSACTION_TAG,
        bytes_of::<SubscribeUpdateTransactionInfo>(message.transaction),
    );
    let m1 = TransactionUpdateView { transaction: message.transaction, ..m0 };
    if let Some(part) = message.transaction {
        lemma_transaction_info(part, (depth - 1) as nat);
        lemma_message_round_trip::<SubscribeUpdateTransactionInfo>(part, (depth - 1) as nat);
        lemma_then::<SubscribeUpdateTransaction>(
            f0,
            m0,
            FieldView::Bytes(
                TRANSACTION_TRANSACTION_TAG,
                message_bytes::<SubscribeUpdateTransactionInfo>(part),
            ),
            m1,
            depth,
        );
    } else {
        assert(f1 =~= f0);
    }
    let f2 = f1 + integer(TRANSACTION_SLOT_TAG, message.slot);
    let m2 = TransactionUpdateView { slot: message.slot, ..m1 };
    lemma_then_integer::<SubscribeUpdateTransaction>(
        f1,
        m1,
        TRANSACTION_SLOT_TAG,
        message.slot,
        m2,
        depth,
    );
    assert(f2 =~= SubscribeUpdateTransaction::fields(message));
    assert(m2 =~= message);
}

} // verus!
