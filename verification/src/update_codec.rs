//! Updates on the wire.

use crate::account_codec::{account_bytes, fits_wire, flag, lemma_account_round_trip};
use crate::block_meta_codec::{fits_block_meta, lemma_block_meta};
use crate::fields::{
    bytes_of, encode, integer, lemma_message_round_trip, lemma_no_fields, lemma_then,
    lemma_then_integer, merge_part, message_bytes, optional_bytes, push_integer, push_some_bytes,
    reads_to, views_of, with_part, Field, FieldMessage, FieldView,
};
use crate::geyser::{
    texts_of, AccountInfoView, AccountUpdateView, SubscribeUpdate, SubscribeUpdateAccount,
    SubscribeUpdateAccountInfo, SubscribeUpdateBlock, SubscribeUpdateBlockMeta,
    SubscribeUpdateEntry, SubscribeUpdateSlot, SubscribeUpdateTransaction, UpdateOneof,
    UpdateOneofView, UpdateView,
};
use crate::news_codec::{
    fits_entry_update, fits_slot_update, fits_transaction_update, lemma_entry_update,
    lemma_slot_update, lemma_timestamp, lemma_transaction_update,
};
use crate::scalars::{lemma_text_round_trip, read_text, text_bytes, text_in};
use crate::timestamp::Timestamp;
use crate::wire::{decode, decoded, DecodeError, WireMessage, NESTING_LIMIT};
use vstd::prelude::*;
use vstd::utf8::encode_utf8;

verus! {

/// Tag of the names of the filters that an update passed.
pub const FILTERS_TAG: u32 = 1;

/// Tag of an account update in an update.
pub const ACCOUNT_UPDATE_TAG: u32 = 2;

/// Tag of an update on a slot in an update.
pub const SLOT_UPDATE_TAG: u32 = 3;

/// Tag of an update on a transaction in an update.
pub const TRANSACTION_UPDATE_TAG: u32 = 4;

/// Tag of a block update in an update.
pub const BLOCK_UPDATE_TAG: u32 = 5;

/// Tag of the description of a block in an update.
pub const BLOCK_META_UPDATE_TAG: u32 = 7;

/// Tag of an update on an entry in an update.
pub const ENTRY_UPDATE_TAG: u32 = 8;

/// Tag of the time at which an update was made.
pub const CREATED_AT_TAG: u32 = 11;

/// Tag of the accounts in a block update.
pub const BLOCK_ACCOUNTS_TAG: u32 = 11;

/// The bytes of an optional account.
pub open spec fn account_bytes_of(info: Option<AccountInfoView>) -> Option<Seq<u8>> {
    match info {
        Some(info) => Some(account_bytes(info)),
        None => None,
    }
}

/// Tag of the account in an account update.
pub const ACCOUNT_TAG: u32 = 1;

/// Tag of the slot of an account update.
pub const SLOT_TAG: u32 = 2;

/// Tag of the mark of an account that was loaded at startup.
pub const IS_STARTUP_TAG: u32 = 3;

impl FieldMessage for SubscribeUpdateAccount {
    open spec fn empty() -> AccountUpdateView {
        AccountUpdateView { account: None, slot: 0, is_startup: false }
    }

    open spec fn takes_integer(tag: u32) -> bool {
        tag == SLOT_TAG || tag == IS_STARTUP_TAG
    }

    open spec fn takes_bytes(tag: u32) -> bool {
        tag == ACCOUNT_TAG
    }

    open spec fn with_integer(
        message: AccountUpdateView,
        tag: u32,
        value: u64,
    ) -> AccountUpdateView {
        if tag == SLOT_TAG {
            AccountUpdateView { slot: value, ..message }
        } else if tag == IS_STARTUP_TAG {
            AccountUpdateView { is_startup: value != 0, ..message }
        } else {
            message
        }
    }

    open spec fn with_bytes(
        message: AccountUpdateView,
        tag: u32,
        bytes: Seq<u8>,
        depth: nat,
    ) -> Result<AccountUpdateView, DecodeError> {
        if tag == ACCOUNT_TAG {
            let before = match message.account {
                Some(part) => part,
                None => SubscribeUpdateAccountInfo::unset(),
            };
            match with_part::<SubscribeUpdateAccountInfo>(before, bytes, depth) {
                Ok(part) => Ok(AccountUpdateView { account: Some(part), ..message }),
                Err(error) => Err(error),
            }
        } else {
            Ok(message)
        }
    }

    open spec fn fields(message: AccountUpdateView) -> Seq<FieldView> {
        optional_bytes(ACCOUNT_TAG, account_bytes_of(message.account))
            + integer(SLOT_TAG, message.slot)
            + integer(IS_STARTUP_TAG, flag(message.is_startup))
    }

    fn new_empty() -> (message: Self) {
        SubscribeUpdateAccount { account: None, slot: 0, is_startup: false }
    }

    fn has_integer(tag: u32) -> (found: bool) {
        tag == SLOT_TAG || tag == IS_STARTUP_TAG
    }

    fn has_bytes(tag: u32) -> (found: bool) {
        tag == ACCOUNT_TAG
    }

    fn set_integer(&mut self, tag: u32, value: u64) {
        if tag == SLOT_TAG {
            self.slot = value;
        } else if tag == IS_STARTUP_TAG {
            self.is_startup = value != 0;
        }
    }

    fn set_bytes(&mut self, tag: u32, bytes: &[u8], depth: u32) -> (result: Result<
        (),
        DecodeError,
    >) {
        if tag == ACCOUNT_TAG {
            let mut part = match self.account.take() {
                Some(part) => part,
                None => SubscribeUpdateAccountInfo::new_unset(),
            };
            match merge_part(&mut part, bytes, depth) {
                Ok(()) => {
                    self.account = Some(part);
                    Ok(())
                },
                Err(error) => Err(error),
            }
        } else {
            Ok(())
        }
    }

    fn to_fields(&self) -> (fields: Vec<Field>) {
        let mut fields: Vec<Field> = Vec::new();
        if let Some(part) = &self.account {
            push_some_bytes(&mut fields, ACCOUNT_TAG, part.encode_to_vec());
        }
        push_integer(&mut fields, SLOT_TAG, self.slot);
        push_integer(&mut fields, IS_STARTUP_TAG, if self.is_startup { 1 } else { 0 });
        assert(views_of(fields@) =~= Self::fields(self@));
        fields
    }
}

/// Whether the parts of an account update are short enough for their lengths to be written.
pub open spec fn fits_account_update(message: AccountUpdateView) -> bool {
    &&& message.account matches Some(part) ==> fits_wire(part) && account_bytes(part).len()
        <= u64::MAX
}

/// Reading the fields of an account update gives it back.
pub proof fn lemma_account_update(message: AccountUpdateView, depth: nat)
    requires
        fits_account_update(message),
        depth >= 1,
    ensures
        reads_to::<SubscribeUpdateAccount>(SubscribeUpdateAccount::fields(message), message, depth),
{
    let f0 = Seq::<FieldView>::empty();
    let m0 = SubscribeUpdateAccount::empty();
    lemma_no_fields::<SubscribeUpdateAccount>(depth);
    let f1 = f0 + optional_bytes(
        ACCOUNT_TAG,
        account_bytes_of(message.account),
    );
    let m1 = AccountUpdateView { account: message.account, ..m0 };
    if let Some(part) = message.account {
        lemma_account_round_trip(part, (depth - 1) as nat);
        lemma_then::<SubscribeUpdateAccount>(
            f0,
            m0,
            FieldView::Bytes(ACCOUNT_TAG, account_bytes(part)),
            m1,
            depth,
        );
    } else {
        assert(f1 =~= f0);
    }
    let f2 = f1 + integer(SLOT_TAG, message.slot);
    let m2 = AccountUpdateView { slot: message.slot, ..m1 };
    lemma_then_integer::<SubscribeUpdateAccount>(f1, m1, SLOT_TAG, message.slot, m2, depth);
    let f3 = f2 + integer(IS_STARTUP_TAG, flag(message.is_startup));
    let m3 = AccountUpdateView { is_startup: message.is_startup, ..m2 };
    lemma_then_integer::<SubscribeUpdateAccount>(
        f2,
        m2,
        IS_STARTUP_TAG,
        flag(message.is_startup),
        m3,
        depth,
    );
    assert(f3 =~= SubscribeUpdateAccount::fields(message));
    assert(m3 =~= message);
}

/// The fields of the accounts of a block update.
pub open spec fn account_parts(accounts: Seq<AccountInfoView>) -> Seq<FieldView> {
    accounts.map_values(
        |info: AccountInfoView| FieldView::Bytes(BLOCK_ACCOUNTS_TAG, account_bytes(info)),
    )
}

impl FieldMessage for SubscribeUpdateBlock {
    open spec fn empty() -> Seq<AccountInfoView> {
        Seq::empty()
    }

    open spec fn takes_integer(tag: u32) -> bool {
        false
    }

    open spec fn takes_bytes(tag: u32) -> bool {
        tag == BLOCK_ACCOUNTS_TAG
    }

    open spec fn with_integer(message: Seq<AccountInfoView>, tag: u32, value: u64) -> Seq<
        AccountInfoView,
    > {
        message
    }

    open spec fn with_bytes(
        message: Seq<AccountInfoView>,
        tag: u32,
        bytes: Seq<u8>,
        depth: nat,
    ) -> Result<Seq<AccountInfoView>, DecodeError> {
        if tag == BLOCK_ACCOUNTS_TAG {
            match with_part::<SubscribeUpdateAccountInfo>(AccountInfoView::unset(), bytes, depth) {
                Ok(info) => Ok(message.push(info)),
                Err(error) => Err(error),
            }
        } else {
            Ok(message)
        }
    }

    open spec fn fields(message: Seq<AccountInfoView>) -> Seq<FieldView> {
        account_parts(message)
    }

    fn new_empty() -> (message: Self) {
        let message = SubscribeUpdateBlock { accounts: Vec::new() };
        assert(message@ =~= Self::empty());
        message
    }

    fn has_integer(tag: u32) -> (found: bool) {
        false
    }

    fn has_bytes(tag: u32) -> (found: bool) {
        tag == BLOCK_ACCOUNTS_TAG
    }

    fn set_integer(&mut self, tag: u32, value: u64) {
    }

    fn set_bytes(&mut self, tag: u32, bytes: &[u8], depth: u32) -> (result: Result<
        (),
        DecodeError,
    >) {
        if tag != BLOCK_ACCOUNTS_TAG {
            return Ok(());
        }
        let mut info = SubscribeUpdateAccountInfo::default();
        match merge_part(&mut info, bytes, depth) {
            Ok(()) => {
                self.accounts.push(info);
                assert(self@ =~= old(self)@.push(info@));
                Ok(())
            },
            Err(error) => Err(error),
        }
    }

    fn to_fields(&self) -> (fields: Vec<Field>) {
        let mut fields: Vec<Field> = Vec::new();
        let mut i: usize = 0;
        assert(views_of(fields@) =~= account_parts(self@).take(0));
        while i < self.accounts.len()
            invariant
                i <= self.accounts@.len(),
                views_of(fields@) == account_parts(self@).take(i as int),
            decreases self.accounts@.len() - i,
        {
            push_some_bytes(&mut fields, BLOCK_ACCOUNTS_TAG, self.accounts[i].encode_to_vec());
            proof {
                assert(self@[i as int] == self.accounts@[i as int]@);
                assert(views_of(fields@) =~= account_parts(self@).take(i + 1));
            }
            i += 1;
        }
        assert(account_parts(self@).take(i as int) =~= account_parts(self@));
        fields
    }
}

/// Whether accounts are short enough for their lengths to be written.
pub open spec fn fit_wire(accounts: Seq<AccountInfoView>) -> bool {
    forall|i: int|
        0 <= i < accounts.len() ==> fits_wire(#[trigger] accounts[i]) && account_bytes(
            accounts[i],
        ).len() <= u64::MAX
}

/// Reading the fields of a block update gives it back.
pub proof fn lemma_block_update(accounts: Seq<AccountInfoView>, depth: nat)
    requires
        fit_wire(accounts),
        depth >= 1,
    ensures
        reads_to::<SubscribeUpdateBlock>(SubscribeUpdateBlock::fields(accounts), accounts, depth),
    decreases accounts.len(),
{
    if accounts.len() == 0 {
        lemma_no_fields::<SubscribeUpdateBlock>(depth);
        assert(account_parts(accounts) =~= Seq::<FieldView>::empty());
        assert(accounts =~= Seq::<AccountInfoView>::empty());
    } else {
        let first = accounts.drop_last();
        let last = accounts[accounts.len() - 1];
        assert forall|i: int| 0 <= i < first.len() implies fits_wire(#[trigger] first[i])
            && account_bytes(first[i]).len() <= u64::MAX by {
            assert(first[i] == accounts[i]);
        }
        lemma_block_update(first, depth);
        lemma_account_round_trip(last, (depth - 1) as nat);
        assert(first.push(last) =~= accounts);
        let field = FieldView::Bytes(BLOCK_ACCOUNTS_TAG, account_bytes(last));
        lemma_then::<SubscribeUpdateBlock>(account_parts(first), first, field, accounts, depth);
        assert(account_parts(accounts) =~= account_parts(first) + seq![field]);
    }
}

/// The fields of the names of filters.
pub open spec fn filter_fields(filters: Seq<Seq<char>>) -> Seq<FieldView> {
    filters.map_values(|name: Seq<char>| FieldView::Bytes(FILTERS_TAG, encode_utf8(name)))
}

/// The field of what an update tells.
pub open spec fn oneof_field(update: UpdateOneofView) -> FieldView {
    match update {
        UpdateOneofView::Account(update) => FieldView::Bytes(
            ACCOUNT_UPDATE_TAG,
            message_bytes::<SubscribeUpdateAccount>(update),
        ),
        UpdateOneofView::Slot(update) => FieldView::Bytes(
            SLOT_UPDATE_TAG,
            message_bytes::<SubscribeUpdateSlot>(update),
        ),
        UpdateOneofView::Transaction(update) => FieldView::Bytes(
            TRANSACTION_UPDATE_TAG,
            message_bytes::<SubscribeUpdateTransaction>(update),
        ),
        UpdateOneofView::Block(accounts) => FieldView::Bytes(
            BLOCK_UPDATE_TAG,
            message_bytes::<SubscribeUpdateBlock>(accounts),
        ),
        UpdateOneofView::BlockMeta(meta) => FieldView::Bytes(
            BLOCK_META_UPDATE_TAG,
            message_bytes::<SubscribeUpdateBlockMeta>(meta),
        ),
        UpdateOneofView::Entry(update) => FieldView::Bytes(
            ENTRY_UPDATE_TAG,
            message_bytes::<SubscribeUpdateEntry>(update),
        ),
    }
}

/// The field of what an update tells, if it tells something.
pub open spec fn oneof_fields(update: Option<UpdateOneofView>) -> Seq<FieldView> {
    match update {
        Some(update) => seq![oneof_field(update)],
        None => Seq::empty(),
    }
}

/// What an update tells once one more field of that was read. A kind that comes again is merged
/// into what is there of it; another kind takes its place.
pub open spec fn with_oneof(
    before: Option<UpdateOneofView>,
    tag: u32,
    bytes: Seq<u8>,
    depth: nat,
) -> Result<UpdateOneofView, DecodeError> {
    if tag == ACCOUNT_UPDATE_TAG {
        let part = match before {
            Some(UpdateOneofView::Account(update)) => update,
            _ => SubscribeUpdateAccount::empty(),
        };
        match with_part::<SubscribeUpdateAccount>(part, bytes, depth) {
            Ok(update) => Ok(UpdateOneofView::Account(update)),
            Err(error) => Err(error),
        }
    } else if tag == SLOT_UPDATE_TAG {
        let part = match before {
            Some(UpdateOneofView::Slot(update)) => update,
            _ => SubscribeUpdateSlot::empty(),
        };
        match with_part::<SubscribeUpdateSlot>(part, bytes, depth) {
            Ok(update) => Ok(UpdateOneofView::Slot(update)),
            Err(error) => Err(error),
        }
    } else if tag == TRANSACTION_UPDATE_TAG {
        let part = match before {
            Some(UpdateOneofView::Transaction(update)) => update,
            _ => SubscribeUpdateTransaction::empty(),
        };
        match with_part::<SubscribeUpdateTransaction>(part, bytes, depth) {
            Ok(update) => Ok(UpdateOneofView::Transaction(update)),
            Err(error) => Err(error),
        }
    } else if tag == BLOCK_UPDATE_TAG {
        let part = match before {
            Some(UpdateOneofView::Block(accounts)) => accounts,
            _ => SubscribeUpdateBlock::empty(),
        };
        match with_part::<SubscribeUpdateBlock>(part, bytes, depth) {
            Ok(accounts) => Ok(UpdateOneofView::Block(accounts)),
            Err(error) => Err(error),
        }
    } else if tag == BLOCK_META_UPDATE_TAG {
        let part = match before {
            Some(UpdateOneofView::BlockMeta(meta)) => meta,
            _ => SubscribeUpdateBlockMeta::empty(),
        };
        match with_part::<SubscribeUpdateBlockMeta>(part, bytes, depth) {
            Ok(meta) => Ok(UpdateOneofView::BlockMeta(meta)),
            Err(error) => Err(error),
        }
    } else {
        let part = match before {
            Some(UpdateOneofView::Entry(update)) => update,
            _ => SubscribeUpdateEntry::empty(),
        };
        match with_part::<SubscribeUpdateEntry>(part, bytes, depth) {
            Ok(update) => Ok(UpdateOneofView::Entry(update)),
            Err(error) => Err(error),
        }
    }
}

/// Whether a field with this tag says what an update tells.
pub open spec fn is_oneof_tag(tag: u32) -> bool {
    tag == ACCOUNT_UPDATE_TAG || tag == SLOT_UPDATE_TAG || tag == TRANSACTION_UPDATE_TAG || tag
        == BLOCK_UPDATE_TAG || tag == BLOCK_META_UPDATE_TAG || tag == ENTRY_UPDATE_TAG
}

/// Merges one more field into what an update tells.
fn merge_oneof(before: Option<UpdateOneof>, tag: u32, bytes: &[u8], depth: u32) -> (result: Result<
    UpdateOneof,
    DecodeError,
>)
    ensures
        match (
            result,
            with_oneof(
                match before {
                    Some(update) => Some(update@),
                    None => None,
                },
                tag,
                bytes@,
                depth as nat,
            ),
        ) {
            (Ok(update), Ok(view)) => update@ == view,
            (Err(a), Err(b)) => a == b,
            _ => false,
        },
{
    if tag == ACCOUNT_UPDATE_TAG {
        let mut part = match before {
            Some(UpdateOneof::Account(update)) => update,
            _ => SubscribeUpdateAccount::new_empty(),
        };
        match merge_part(&mut part, bytes, depth) {
            Ok(()) => Ok(UpdateOneof::Account(part)),
            Err(error) => Err(error),
        }
    } else if tag == SLOT_UPDATE_TAG {
        let mut part = match before {
            Some(UpdateOneof::Slot(update)) => update,
            _ => SubscribeUpdateSlot::new_empty(),
        };
        match merge_part(&mut part, bytes, depth) {
            Ok(()) => Ok(UpdateOneof::Slot(part)),
            Err(error) => Err(error),
        }
    } else if tag == TRANSACTION_UPDATE_TAG {
        let mut part = match before {
            Some(UpdateOneof::Transaction(update)) => update,
            _ => SubscribeUpdateTransaction::new_empty(),
        };
        match merge_part(&mut part, bytes, depth) {
            Ok(()) => Ok(UpdateOneof::Transaction(part)),
            Err(error) => Err(error),
        }
    } else if tag == BLOCK_UPDATE_TAG {
        let mut part = match before {
            Some(UpdateOneof::Block(block)) => block,
            _ => SubscribeUpdateBlock::new_empty(),
        };
        match merge_part(&mut part, bytes, depth) {
            Ok(()) => Ok(UpdateOneof::Block(part)),
            Err(error) => Err(error),
        }
    } else if tag == BLOCK_META_UPDATE_TAG {
        let mut part = match before {
            Some(UpdateOneof::BlockMeta(meta)) => meta,
            _ => SubscribeUpdateBlockMeta::new_empty(),
        };
        match merge_part(&mut part, bytes, depth) {
            Ok(()) => Ok(UpdateOneof::BlockMeta(part)),
            Err(error) => Err(error),
        }
    } else {
        let mut part = match before {
            Some(UpdateOneof::Entry(update)) => update,
            _ => SubscribeUpdateEntry::new_empty(),
        };
        match merge_part(&mut part, bytes, depth) {
            Ok(()) => Ok(UpdateOneof::Entry(part)),
            Err(error) => Err(error),
        }
    }
}

/// Writes what an update tells as a field.
pub fn to_oneof_field(update: &UpdateOneof) -> (field: Field)
    ensures
        field@ == oneof_field(update@),
{
    match update {
        UpdateOneof::Account(update) => Field::Bytes(ACCOUNT_UPDATE_TAG, encode(update)),
        UpdateOneof::Slot(update) => Field::Bytes(SLOT_UPDATE_TAG, encode(update)),
        UpdateOneof::Transaction(update) => Field::Bytes(TRANSACTION_UPDATE_TAG, encode(update)),
        UpdateOneof::Block(block) => Field::Bytes(BLOCK_UPDATE_TAG, encode(block)),
        UpdateOneof::BlockMeta(meta) => Field::Bytes(BLOCK_META_UPDATE_TAG, encode(meta)),
        UpdateOneof::Entry(update) => Field::Bytes(ENTRY_UPDATE_TAG, encode(update)),
    }
}

impl FieldMessage for SubscribeUpdate {
    open spec fn empty() -> UpdateView {
        UpdateView { filters: Seq::empty(), update_oneof: None, created_at: None }
    }

    open spec fn takes_integer(tag: u32) -> bool {
        false
    }

    open spec fn takes_bytes(tag: u32) -> bool {
        tag == FILTERS_TAG || tag == CREATED_AT_TAG || is_oneof_tag(tag)
    }

    open spec fn with_integer(message: UpdateView, tag: u32, value: u64) -> UpdateView {
        message
    }

    open spec fn with_bytes(message: UpdateView, tag: u32, bytes: Seq<u8>, depth: nat) -> Result<
        UpdateView,
        DecodeError,
    > {
        if tag == FILTERS_TAG {
            match text_in(bytes) {
                Ok(name) => Ok(UpdateView { filters: message.filters.push(name), ..message }),
                Err(error) => Err(error),
            }
        } else if tag == CREATED_AT_TAG {
            let before = match message.created_at {
                Some(time) => time,
                None => Timestamp::empty(),
            };
            match with_part::<Timestamp>(before, bytes, depth) {
                Ok(time) => Ok(UpdateView { created_at: Some(time), ..message }),
                Err(error) => Err(error),
            }
        } else if is_oneof_tag(tag) {
            match with_oneof(message.update_oneof, tag, bytes, depth) {
                Ok(update) => Ok(UpdateView { update_oneof: Some(update), ..message }),
                Err(error) => Err(error),
            }
        } else {
            Ok(message)
        }
    }

    open spec fn fields(message: UpdateView) -> Seq<FieldView> {
        filter_fields(message.filters) + oneof_fields(message.update_oneof) + optional_bytes(
            CREATED_AT_TAG,
            bytes_of::<Timestamp>(message.created_at),
        )
    }

    fn new_empty() -> (message: Self) {
        let message = SubscribeUpdate { filters: Vec::new(), update_oneof: None, created_at: None };
        assert(message@ =~= Self::empty());
        message
    }

    fn has_integer(tag: u32) -> (found: bool) {
        false
    }

    fn has_bytes(tag: u32) -> (found: bool) {
        tag == FILTERS_TAG || tag == CREATED_AT_TAG || tag == ACCOUNT_UPDATE_TAG || tag
            == SLOT_UPDATE_TAG || tag == TRANSACTION_UPDATE_TAG || tag == BLOCK_UPDATE_TAG || tag
            == BLOCK_META_UPDATE_TAG || tag == ENTRY_UPDATE_TAG
    }

    fn set_integer(&mut self, tag: u32, value: u64) {
    }

    fn set_bytes(&mut self, tag: u32, bytes: &[u8], depth: u32) -> (result: Result<
        (),
        DecodeError,
    >) {
        if tag == FILTERS_TAG {
            match read_text(bytes) {
                Ok(name) => {
                    self.filters.push(name);
                    assert(self@.filters =~= old(self)@.filters.push(name@));
                    Ok(())
                },
                Err(error) => Err(error),
            }
        } else if tag == CREATED_AT_TAG {
            let mut time = match self.created_at {
                Some(time) => time,
                None => Timestamp::new_empty(),
            };
            match merge_part(&mut time, bytes, depth) {
                Ok(()) => {
                    self.created_at = Some(time);
                    Ok(())
                },
                Err(error) => Err(error),
            }
        } else if Self::has_bytes(tag) {
            match merge_oneof(self.update_oneof.take(), tag, bytes, depth) {
                Ok(update) => {
                    self.update_oneof = Some(update);
                    Ok(())
                },
                Err(error) => Err(error),
            }
        } else {
            Ok(())
        }
    }

    fn to_fields(&self) -> (fields: Vec<Field>) {
        let mut fields: Vec<Field> = Vec::new();
        push_filters(&mut fields, &self.filters);
        if let Some(update) = &self.update_oneof {
            fields.push(to_oneof_field(update));
        }
        assert(views_of(fields@) =~= filter_fields(self@.filters) + oneof_fields(
            self@.update_oneof,
        ));
        if let Some(time) = &self.created_at {
            push_some_bytes(&mut fields, CREATED_AT_TAG, encode(time));
        }
        assert(views_of(fields@) =~= Self::fields(self@));
        fields
    }
}

/// Appends the names of filters.
pub fn push_filters(fields: &mut Vec<Field>, filters: &Vec<String>)
    ensures
        views_of(final(fields)@) == views_of(old(fields)@) + filter_fields(texts_of(filters@)),
{
    let ghost all = filter_fields(texts_of(filters@));
    let mut i: usize = 0;
    assert(views_of(old(fields)@) + all.take(0) =~= views_of(old(fields)@));
    while i < filters.len()
        invariant
            i <= filters@.len(),
            all == filter_fields(texts_of(filters@)),
            views_of(fields@) == views_of(old(fields)@) + all.take(i as int),
        decreases filters@.len() - i,
    {
        push_some_bytes(fields, FILTERS_TAG, text_bytes(&filters[i]));
        proof {
            assert(all[i as int] == FieldView::Bytes(
                FILTERS_TAG,
                encode_utf8(filters@[i as int]@),
            ));
            assert(views_of(fields@) =~= views_of(old(fields)@) + all.take(i + 1));
        }
        i += 1;
    }
    assert(all.take(i as int) =~= all);
}

/// The bytes of an update.
pub open spec fn update_bytes(update: UpdateView) -> Seq<u8> {
    message_bytes::<SubscribeUpdate>(update)
}

impl SubscribeUpdate {
    /// The bytes of the update.
    pub fn encode_to_vec(&self) -> (bytes: Vec<u8>)
        ensures
            bytes@ == update_bytes(self@),
    {
        encode(self)
    }

    /// The number of bytes of the update.
    pub fn encoded_len(&self) -> (len: usize)
        ensures
            len == update_bytes(self@).len(),
    {
        self.encode_to_vec().len()
    }

    /// Reads an update.
    pub fn decode(data: &[u8]) -> (result: Result<Self, DecodeError>)
        ensures
            match (result, decoded::<Self>(data@)) {
                (Ok(update), Ok(view)) => update@ == view,
                (Err(a), Err(b)) => a == b,
                _ => false,
            },
    {
        decode::<Self>(data)
    }
}

/// Whether the parts of what an update tells are short enough for their lengths to be written.
pub open spec fn fits_oneof(update: UpdateOneofView) -> bool {
    &&& match update {
        UpdateOneofView::Account(update) => fits_account_update(update),
        UpdateOneofView::Slot(update) => fits_slot_update(update),
        UpdateOneofView::Transaction(update) => fits_transaction_update(update),
        UpdateOneofView::Block(accounts) => fit_wire(accounts),
        UpdateOneofView::BlockMeta(meta) => fits_block_meta(meta),
        UpdateOneofView::Entry(update) => fits_entry_update(update),
    }
    &&& oneof_field(update)->Bytes_1.len() <= u64::MAX
}

/// Whether the parts of an update are short enough for their lengths to be written.
pub open spec fn fits_update(update: UpdateView) -> bool {
    &&& forall|i: int|
        0 <= i < update.filters.len() ==> encode_utf8(#[trigger] update.filters[i]).len()
            <= u64::MAX
    &&& update.update_oneof matches Some(told) ==> fits_oneof(told)
    &&& update.created_at matches Some(time) ==> message_bytes::<Timestamp>(time).len() <= u64::MAX
}

proof fn lemma_filters(filters: Seq<Seq<char>>, depth: nat)
    requires
        forall|i: int|
            0 <= i < filters.len() ==> encode_utf8(#[trigger] filters[i]).len() <= u64::MAX,
    ensures
        reads_to::<SubscribeUpdate>(
            filter_fields(filters),
            UpdateView { filters, update_oneof: None, created_at: None },
            depth,
        ),
    decreases filters.len(),
{
    if filters.len() == 0 {
        lemma_no_fields::<SubscribeUpdate>(depth);
        assert(filter_fields(filters) =~= Seq::<FieldView>::empty());
        assert(filters =~= Seq::<Seq<char>>::empty());
    } else {
        let first = filters.drop_last();
        let last = filters[filters.len() - 1];
        assert forall|i: int| 0 <= i < first.len() implies encode_utf8(#[trigger] first[i]).len()
            <= u64::MAX by {
            assert(first[i] == filters[i]);
        }
        lemma_filters(first, depth);
        lemma_text_round_trip(last);
        assert(first.push(last) =~= filters);
        let field = FieldView::Bytes(FILTERS_TAG, encode_utf8(last));
        lemma_then::<SubscribeUpdate>(
            filter_fields(first),
            UpdateView { filters: first, update_oneof: None, created_at: None },
            field,
            UpdateView { filters, update_oneof: None, created_at: None },
            depth,
        );
        assert(filter_fields(filters) =~= filter_fields(first) + seq![field]);
    }
}

proof fn lemma_oneof(update: UpdateOneofView, depth: nat)
    requires
        fits_oneof(update),
        depth >= 3,
    ensures
        oneof_field(update) matches FieldView::Bytes(tag, bytes) && is_oneof_tag(tag) && with_oneof(
            None,
            tag,
            bytes,
            depth,
        ) == Ok::<UpdateOneofView, DecodeError>(update),
{
    let inner = (depth - 1) as nat;
    match update {
        UpdateOneofView::Account(part) => {
            lemma_account_update(part, inner);
            lemma_message_round_trip::<SubscribeUpdateAccount>(part, inner);
        },
        UpdateOneofView::Slot(part) => {
            lemma_slot_update(part, inner);
            lemma_message_round_trip::<SubscribeUpdateSlot>(part, inner);
        },
        UpdateOneofView::Transaction(part) => {
            lemma_transaction_update(part, inner);
            lemma_message_round_trip::<SubscribeUpdateTransaction>(part, inner);
        },
        UpdateOneofView::Block(accounts) => {
            lemma_block_update(accounts, inner);
            lemma_message_round_trip::<SubscribeUpdateBlock>(accounts, inner);
        },
        UpdateOneofView::BlockMeta(meta) => {
            lemma_block_meta(meta, inner);
            lemma_message_round_trip::<SubscribeUpdateBlockMeta>(meta, inner);
        },
        UpdateOneofView::Entry(part) => {
            lemma_entry_update(part, inner);
            lemma_message_round_trip::<SubscribeUpdateEntry>(part, inner);
        },
    }
}

/// Reading the bytes of an update gives the update back.
pub proof fn law_update_round_trip(update: UpdateView)
    requires
        fits_update(update),
    ensures
        decoded::<SubscribeUpdate>(update_bytes(update)) == Ok::<UpdateView, DecodeError>(update),
{
    let depth = NESTING_LIMIT as nat;
    let f1 = filter_fields(update.filters);
    let m1 = UpdateView { filters: update.filters, update_oneof: None, created_at: None };
    lemma_filters(update.filters, depth);
    let f2 = f1 + oneof_fields(update.update_oneof);
    let m2 = UpdateView { update_oneof: update.update_oneof, ..m1 };
    if let Some(told) = update.update_oneof {
        lemma_oneof(told, depth);
        lemma_then::<SubscribeUpdate>(f1, m1, oneof_field(told), m2, depth);
    } else {
        assert(f2 =~= f1);
    }
    let f3 = f2 + optional_bytes(CREATED_AT_TAG, bytes_of::<Timestamp>(update.created_at));
    if let Some(time) = update.created_at {
        lemma_timestamp(time, (depth - 1) as nat);
        lemma_message_round_trip::<Timestamp>(time, (depth - 1) as nat);
        lemma_then::<SubscribeUpdate>(
            f2,
            m2,
            FieldView::Bytes(CREATED_AT_TAG, message_bytes::<Timestamp>(time)),
            update,
            depth,
        );
    } else {
        assert(f3 =~= f2);
    }
    lemma_message_round_trip::<SubscribeUpdate>(update, depth);
}

} // verus!
