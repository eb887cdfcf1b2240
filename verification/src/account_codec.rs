//! Accounts on the wire.

use crate::geyser::{AccountInfoView, SubscribeUpdateAccountInfo};
use crate::wire::{
    bytes_field_at, bytes_field_bytes, decode, decoded, lemma_bytes_field_round_trip, lemma_join,
    lemma_lies_at_front, lemma_u64_field_round_trip, lies_at, optional_bytes_field_bytes,
    read_bytes_field, read_u64_field, skip_field, skipped_at, some_bytes_field_bytes, u64_field_at,
    u64_field_bytes, with_fields_from, write_bytes_field, write_some_bytes_field, write_u64_field,
    DecodeError, WireMessage, NESTING_LIMIT,
};
use vstd::prelude::*;
use vstd::slice::{slice_subrange, slice_to_vec};

verus! {

/// Tag of the account's key.
pub const PUBKEY_TAG: u32 = 1;

/// Tag of the account's balance.
pub const LAMPORTS_TAG: u32 = 2;

/// Tag of the program that owns the account.
pub const OWNER_TAG: u32 = 3;

/// Tag of the mark of a program account.
pub const EXECUTABLE_TAG: u32 = 4;

/// Tag of the epoch at which rent is next due.
pub const RENT_EPOCH_TAG: u32 = 5;

/// Tag of the account's data.
pub const DATA_TAG: u32 = 6;

/// Tag of the number of the write.
pub const WRITE_VERSION_TAG: u32 = 7;

/// Tag of the signature of the transaction that wrote the account.
pub const TXN_SIGNATURE_TAG: u32 = 8;

/// Tag of the index of the transaction that wrote the account.
pub const TRANSACTION_INDEX_TAG: u32 = 32;

/// `info` with one integer field set.
pub open spec fn with_u64(info: AccountInfoView, tag: u32, value: u64) -> AccountInfoView {
    if tag == LAMPORTS_TAG {
        AccountInfoView { lamports: value, ..info }
    } else if tag == EXECUTABLE_TAG {
        AccountInfoView { executable: value != 0, ..info }
    } else if tag == RENT_EPOCH_TAG {
        AccountInfoView { rent_epoch: value, ..info }
    } else if tag == WRITE_VERSION_TAG {
        AccountInfoView { write_version: value, ..info }
    } else {
        AccountInfoView { transaction_index: value, ..info }
    }
}

/// `info` with one byte-string field set.
pub open spec fn with_bytes(info: AccountInfoView, tag: u32, value: Seq<u8>) -> AccountInfoView {
    if tag == PUBKEY_TAG {
        AccountInfoView { pubkey: value, ..info }
    } else if tag == OWNER_TAG {
        AccountInfoView { owner: value, ..info }
    } else if tag == DATA_TAG {
        AccountInfoView { data: value, ..info }
    } else {
        AccountInfoView { txn_signature: Some(value), ..info }
    }
}

/// Whether an account has an integer field with this tag.
pub open spec fn is_u64_tag(tag: u32) -> bool {
    ||| tag == LAMPORTS_TAG
    ||| tag == EXECUTABLE_TAG
    ||| tag == RENT_EPOCH_TAG
    ||| tag == WRITE_VERSION_TAG
    ||| tag == TRANSACTION_INDEX_TAG
}

/// Whether an account has a byte-string field with this tag.
pub open spec fn is_bytes_tag(tag: u32) -> bool {
    ||| tag == PUBKEY_TAG
    ||| tag == OWNER_TAG
    ||| tag == DATA_TAG
    ||| tag == TXN_SIGNATURE_TAG
}

/// One for true, zero for false.
pub open spec fn flag(value: bool) -> u64 {
    if value {
        1
    } else {
        0
    }
}

/// The bytes of an account without the index of its transaction: what a producer writes that
/// does not know that field.
pub open spec fn legacy_bytes(info: AccountInfoView) -> Seq<u8> {
    bytes_field_bytes(PUBKEY_TAG, info.pubkey) + u64_field_bytes(LAMPORTS_TAG, info.lamports)
        + bytes_field_bytes(OWNER_TAG, info.owner) + u64_field_bytes(
        EXECUTABLE_TAG,
        flag(info.executable),
    ) + u64_field_bytes(RENT_EPOCH_TAG, info.rent_epoch) + bytes_field_bytes(DATA_TAG, info.data)
        + u64_field_bytes(WRITE_VERSION_TAG, info.write_version) + optional_bytes_field_bytes(
        TXN_SIGNATURE_TAG,
        info.txn_signature,
    )
}

/// The bytes of an account.
pub open spec fn account_bytes(info: AccountInfoView) -> Seq<u8> {
    legacy_bytes(info) + u64_field_bytes(TRANSACTION_INDEX_TAG, info.transaction_index)
}

impl WireMessage for SubscribeUpdateAccountInfo {
    open spec fn unset() -> AccountInfoView {
        AccountInfoView::unset()
    }

    open spec fn with_field_at(
        message: AccountInfoView,
        s: Seq<u8>,
        pos: int,
        tag: u32,
        wire_type: u8,
        depth: nat,
    ) -> Result<(AccountInfoView, int), DecodeError> {
        if is_u64_tag(tag) {
            match u64_field_at(s, pos, wire_type) {
                Ok((value, end)) => Ok((with_u64(message, tag, value), end)),
                Err(error) => Err(error),
            }
        } else if is_bytes_tag(tag) {
            match bytes_field_at(s, pos, wire_type) {
                Ok((value, end)) => Ok((with_bytes(message, tag, value), end)),
                Err(error) => Err(error),
            }
        } else {
            match skipped_at(s, pos, tag, wire_type, depth) {
                Ok(end) => Ok((message, end)),
                Err(error) => Err(error),
            }
        }
    }

    fn new_unset() -> (message: Self) {
        SubscribeUpdateAccountInfo::default()
    }

    fn merge_field(
        &mut self,
        data: &[u8],
        pos: usize,
        tag: u32,
        wire_type: u8,
        depth: u32,
    ) -> (result: Result<usize, DecodeError>) {
        if tag == LAMPORTS_TAG || tag == EXECUTABLE_TAG || tag == RENT_EPOCH_TAG || tag
            == WRITE_VERSION_TAG || tag == TRANSACTION_INDEX_TAG {
            match read_u64_field(data, pos, wire_type) {
                Ok((value, end)) => {
                    if tag == LAMPORTS_TAG {
                        self.lamports = value;
                    } else if tag == EXECUTABLE_TAG {
                        self.executable = value != 0;
                    } else if tag == RENT_EPOCH_TAG {
                        self.rent_epoch = value;
                    } else if tag == WRITE_VERSION_TAG {
                        self.write_version = value;
                    } else {
                        self.transaction_index = value;
                    }
                    Ok(end)
                },
                Err(error) => Err(error),
            }
        } else if tag == PUBKEY_TAG || tag == OWNER_TAG || tag == DATA_TAG || tag
            == TXN_SIGNATURE_TAG {
            match read_bytes_field(data, pos, wire_type) {
                Ok((start, end)) => {
                    let value = slice_to_vec(slice_subrange(data, start, end));
                    if tag == PUBKEY_TAG {
                        self.pubkey = value;
                    } else if tag == OWNER_TAG {
                        self.owner = value;
                    } else if tag == DATA_TAG {
                        self.data = value;
                    } else {
                        self.txn_signature = Some(value);
                    }
                    Ok(end)
                },
                Err(error) => Err(error),
            }
        } else {
            skip_field(data, pos, tag, wire_type, depth)
        }
    }
}

/// The parts of an account, wherever they lie.
pub struct AccountParts<'a> {
    pub pubkey: &'a [u8],
    pub lamports: u64,
    pub owner: &'a [u8],
    pub executable: bool,
    pub rent_epoch: u64,
    pub data: &'a [u8],
    pub write_version: u64,
    pub txn_signature: Option<&'a [u8]>,
    pub transaction_index: u64,
}

impl<'a> View for AccountParts<'a> {
    type V = AccountInfoView;

    open spec fn view(&self) -> AccountInfoView {
        AccountInfoView {
            pubkey: self.pubkey@,
            lamports: self.lamports,
            owner: self.owner@,
            executable: self.executable,
            rent_epoch: self.rent_epoch,
            data: self.data@,
            write_version: self.write_version,
            txn_signature: match self.txn_signature {
                Some(signature) => Some(signature@),
                None => None,
            },
            transaction_index: self.transaction_index,
        }
    }
}

/// Appends the bytes of an account.
pub fn write_account(out: &mut Vec<u8>, parts: &AccountParts<'_>)
    ensures
        final(out)@ == old(out)@ + account_bytes(parts@),
{
    let ghost before = out@;
    let ghost f1 = bytes_field_bytes(PUBKEY_TAG, parts@.pubkey);
    let ghost f2 = u64_field_bytes(LAMPORTS_TAG, parts@.lamports);
    let ghost f3 = bytes_field_bytes(OWNER_TAG, parts@.owner);
    let ghost f4 = u64_field_bytes(EXECUTABLE_TAG, flag(parts@.executable));
    let ghost f5 = u64_field_bytes(RENT_EPOCH_TAG, parts@.rent_epoch);
    let ghost f6 = bytes_field_bytes(DATA_TAG, parts@.data);
    let ghost f7 = u64_field_bytes(WRITE_VERSION_TAG, parts@.write_version);
    let ghost f8 = optional_bytes_field_bytes(TXN_SIGNATURE_TAG, parts@.txn_signature);
    let ghost f9 = u64_field_bytes(TRANSACTION_INDEX_TAG, parts@.transaction_index);
    write_bytes_field(out, PUBKEY_TAG, parts.pubkey);
    write_u64_field(out, LAMPORTS_TAG, parts.lamports);
    write_bytes_field(out, OWNER_TAG, parts.owner);
    write_u64_field(out, EXECUTABLE_TAG, if parts.executable { 1 } else { 0 });
    write_u64_field(out, RENT_EPOCH_TAG, parts.rent_epoch);
    write_bytes_field(out, DATA_TAG, parts.data);
    write_u64_field(out, WRITE_VERSION_TAG, parts.write_version);
    let ghost seventh = out@;
    match parts.txn_signature {
        Some(signature) => {
            write_some_bytes_field(out, TXN_SIGNATURE_TAG, signature);
        },
        None => {
            assert(seventh + f8 =~= seventh);
        },
    }
    write_u64_field(out, TRANSACTION_INDEX_TAG, parts.transaction_index);
    proof {
        lemma_join(before, f1, f2);
        lemma_join(before, f1 + f2, f3);
        lemma_join(before, f1 + f2 + f3, f4);
        lemma_join(before, f1 + f2 + f3 + f4, f5);
        lemma_join(before, f1 + f2 + f3 + f4 + f5, f6);
        lemma_join(before, f1 + f2 + f3 + f4 + f5 + f6, f7);
        lemma_join(before, f1 + f2 + f3 + f4 + f5 + f6 + f7, f8);
        lemma_join(before, f1 + f2 + f3 + f4 + f5 + f6 + f7 + f8, f9);
    }
}

impl SubscribeUpdateAccountInfo {
    /// Appends the bytes of the account.
    pub fn write_to(&self, out: &mut Vec<u8>)
        ensures
            final(out)@ == old(out)@ + account_bytes(self@),
    {
        write_account(
            out,
            &AccountParts {
                pubkey: self.pubkey.as_slice(),
                lamports: self.lamports,
                owner: self.owner.as_slice(),
                executable: self.executable,
                rent_epoch: self.rent_epoch,
                data: self.data.as_slice(),
                write_version: self.write_version,
                txn_signature: match &self.txn_signature {
                    Some(signature) => Some(signature.as_slice()),
                    None => None,
                },
                transaction_index: self.transaction_index,
            },
        );
    }

    /// Reads an account.
    pub fn decode(data: &[u8]) -> (result: Result<Self, DecodeError>)
        ensures
            match (result, decoded::<Self>(data@)) {
                (Ok(info), Ok(view)) => info@ == view,
                (Err(a), Err(b)) => a == b,
                _ => false,
            },
    {
        decode::<Self>(data)
    }

    /// The bytes of the account.
    pub fn encode_to_vec(&self) -> (bytes: Vec<u8>)
        ensures
            bytes@ == account_bytes(self@),
    {
        let mut bytes: Vec<u8> = Vec::new();
        self.write_to(&mut bytes);
        assert(bytes@ =~= account_bytes(self@));
        bytes
    }
}

/// Whether the byte strings of an account are short enough for their lengths to be written.
pub open spec fn fits_wire(info: AccountInfoView) -> bool {
    &&& info.pubkey.len() <= u64::MAX
    &&& info.owner.len() <= u64::MAX
    &&& info.data.len() <= u64::MAX
    &&& info.txn_signature matches Some(signature) ==> signature.len() <= u64::MAX
}

/// The account once all fields from `pos` on are merged into it.
#[verifier::opaque]
spec fn read_on(info: AccountInfoView, s: Seq<u8>, pos: int, depth: nat) -> Result<
    AccountInfoView,
    DecodeError,
> {
    with_fields_from::<SubscribeUpdateAccountInfo>(info, s, pos, depth)
}

proof fn lemma_u64_step(
    info: AccountInfoView,
    s: Seq<u8>,
    pos: int,
    tag: u32,
    value: u64,
    depth: nat,
)
    requires
        is_u64_tag(tag),
        lies_at(s, pos, u64_field_bytes(tag, value)),
    ensures
        read_on(info, s, pos, depth)
            == read_on(
            if value == 0 {
                info
            } else {
                with_u64(info, tag, value)
            },
            s,
            pos + u64_field_bytes(tag, value).len(),
            depth,
        ),
{
    reveal(read_on);
    if value != 0 {
        lemma_u64_field_round_trip(s, pos, tag, value);
    }
}

proof fn lemma_some_bytes_step(
    info: AccountInfoView,
    s: Seq<u8>,
    pos: int,
    tag: u32,
    value: Seq<u8>,
    depth: nat,
)
    requires
        is_bytes_tag(tag),
        value.len() <= u64::MAX,
        lies_at(s, pos, some_bytes_field_bytes(tag, value)),
    ensures
        read_on(info, s, pos, depth)
            == read_on(
            with_bytes(info, tag, value),
            s,
            pos + some_bytes_field_bytes(tag, value).len(),
            depth,
        ),
{
    reveal(read_on);
    lemma_bytes_field_round_trip(s, pos, tag, value);
}

proof fn lemma_bytes_step(
    info: AccountInfoView,
    s: Seq<u8>,
    pos: int,
    tag: u32,
    value: Seq<u8>,
    depth: nat,
)
    requires
        is_bytes_tag(tag),
        value.len() <= u64::MAX,
        lies_at(s, pos, bytes_field_bytes(tag, value)),
    ensures
        read_on(info, s, pos, depth)
            == read_on(
            if value.len() == 0 {
                info
            } else {
                with_bytes(info, tag, value)
            },
            s,
            pos + bytes_field_bytes(tag, value).len(),
            depth,
        ),
{
    if value.len() != 0 {
        lemma_some_bytes_step(info, s, pos, tag, value, depth);
    }
}

/// Reading on where the bytes of an account lie in front gives that account, and what comes behind
/// is still to be read.
pub proof fn lemma_account_in_front(info: AccountInfoView, s: Seq<u8>, depth: nat)
    requires
        fits_wire(info),
        lies_at(s, 0, account_bytes(info)),
    ensures
        with_fields_from::<SubscribeUpdateAccountInfo>(AccountInfoView::unset(), s, 0, depth)
            == with_fields_from::<SubscribeUpdateAccountInfo>(
            info,
            s,
            account_bytes(info).len() as int,
            depth,
        ),
{
    let f1 = bytes_field_bytes(PUBKEY_TAG, info.pubkey);
    let f2 = u64_field_bytes(LAMPORTS_TAG, info.lamports);
    let f3 = bytes_field_bytes(OWNER_TAG, info.owner);
    let f4 = u64_field_bytes(EXECUTABLE_TAG, flag(info.executable));
    let f5 = u64_field_bytes(RENT_EPOCH_TAG, info.rent_epoch);
    let f6 = bytes_field_bytes(DATA_TAG, info.data);
    let f7 = u64_field_bytes(WRITE_VERSION_TAG, info.write_version);
    let f8 = optional_bytes_field_bytes(TXN_SIGNATURE_TAG, info.txn_signature);
    let f9 = u64_field_bytes(TRANSACTION_INDEX_TAG, info.transaction_index);
    let p2 = f1.len() as int;
    let p3 = p2 + f2.len();
    let p4 = p3 + f3.len();
    let p5 = p4 + f4.len();
    let p6 = p5 + f5.len();
    let p7 = p6 + f6.len();
    let p8 = p7 + f7.len();
    let p9 = p8 + f8.len();
    lemma_lies_at_front(s, 0, f1 + f2 + f3 + f4 + f5 + f6 + f7 + f8, f9);
    lemma_lies_at_front(s, 0, f1 + f2 + f3 + f4 + f5 + f6 + f7, f8);
    lemma_lies_at_front(s, 0, f1 + f2 + f3 + f4 + f5 + f6, f7);
    lemma_lies_at_front(s, 0, f1 + f2 + f3 + f4 + f5, f6);
    lemma_lies_at_front(s, 0, f1 + f2 + f3 + f4, f5);
    lemma_lies_at_front(s, 0, f1 + f2 + f3, f4);
    lemma_lies_at_front(s, 0, f1 + f2, f3);
    lemma_lies_at_front(s, 0, f1, f2);
    let a1 = AccountInfoView { pubkey: info.pubkey, ..AccountInfoView::unset() };
    let a2 = AccountInfoView { lamports: info.lamports, ..a1 };
    let a3 = AccountInfoView { owner: info.owner, ..a2 };
    let a4 = AccountInfoView { executable: info.executable, ..a3 };
    let a5 = AccountInfoView { rent_epoch: info.rent_epoch, ..a4 };
    let a6 = AccountInfoView { data: info.data, ..a5 };
    let a7 = AccountInfoView { write_version: info.write_version, ..a6 };
    let a8 = AccountInfoView { txn_signature: info.txn_signature, ..a7 };
    lemma_bytes_step(AccountInfoView::unset(), s, 0, PUBKEY_TAG, info.pubkey, depth);
    assert(info.pubkey.len() == 0 ==> a1 =~= AccountInfoView::unset());
    lemma_u64_step(a1, s, p2, LAMPORTS_TAG, info.lamports, depth);
    lemma_bytes_step(a2, s, p3, OWNER_TAG, info.owner, depth);
    assert(info.owner.len() == 0 ==> a3 =~= a2);
    lemma_u64_step(a3, s, p4, EXECUTABLE_TAG, flag(info.executable), depth);
    lemma_u64_step(a4, s, p5, RENT_EPOCH_TAG, info.rent_epoch, depth);
    lemma_bytes_step(a5, s, p6, DATA_TAG, info.data, depth);
    assert(info.data.len() == 0 ==> a6 =~= a5);
    lemma_u64_step(a6, s, p7, WRITE_VERSION_TAG, info.write_version, depth);
    if let Some(signature) = info.txn_signature {
        lemma_some_bytes_step(a7, s, p8, TXN_SIGNATURE_TAG, signature, depth);
    }
    lemma_u64_step(a8, s, p9, TRANSACTION_INDEX_TAG, info.transaction_index, depth);
    assert(account_bytes(info).len() == p9 + f9.len());
    reveal(read_on);
}

/// Reading the bytes of an account gives the account back, at whatever depth.
pub proof fn lemma_account_round_trip(info: AccountInfoView, depth: nat)
    requires
        fits_wire(info),
    ensures
        with_fields_from::<SubscribeUpdateAccountInfo>(
            AccountInfoView::unset(),
            account_bytes(info),
            0,
            depth,
        ) == Ok::<AccountInfoView, DecodeError>(info),
{
    let s = account_bytes(info);
    assert(s.subrange(0, s.len() as int) =~= s);
    lemma_account_in_front(info, s, depth);
}

/// Reading the bytes of an account gives the account back.
pub proof fn law_account_round_trip(info: AccountInfoView)
    requires
        fits_wire(info),
    ensures
        decoded::<SubscribeUpdateAccountInfo>(account_bytes(info)) == Ok::<
            AccountInfoView,
            DecodeError,
        >(info),
{
    lemma_account_round_trip(info, NESTING_LIMIT as nat);
}

/// What a producer writes that does not know the index of the transaction reads as an account
/// that the first transaction of the block wrote.
pub proof fn law_legacy_account_reads_as_first_transaction(info: AccountInfoView)
    requires
        fits_wire(info),
    ensures
        decoded::<SubscribeUpdateAccountInfo>(legacy_bytes(info)) == Ok::<
            AccountInfoView,
            DecodeError,
        >(AccountInfoView { transaction_index: 0, ..info }),
{
    let first = AccountInfoView { transaction_index: 0, ..info };
    law_account_round_trip(first);
    assert(account_bytes(first) =~= legacy_bytes(info));
}

/// A field that this side does not know changes nothing: a producer that writes more is understood.
pub proof fn law_unknown_field_is_ignored(info: AccountInfoView, tag: u32, value: u64)
    requires
        fits_wire(info),
        0 < tag < 0x1000_0000,
        !is_u64_tag(tag),
        !is_bytes_tag(tag),
    ensures
        decoded::<SubscribeUpdateAccountInfo>(account_bytes(info) + u64_field_bytes(tag, value))
            == Ok::<AccountInfoView, DecodeError>(info),
{
    let known = account_bytes(info);
    let more = u64_field_bytes(tag, value);
    let s = known + more;
    let at = known.len() as int;
    let depth = NESTING_LIMIT as nat;
    assert(s.subrange(0, s.len() as int) =~= s);
    lemma_lies_at_front(s, 0, known, more);
    lemma_account_in_front(info, s, depth);
    if value != 0 {
        lemma_u64_field_round_trip(s, at, tag, value);
        assert(with_fields_from::<SubscribeUpdateAccountInfo>(info, s, at, depth)
            == with_fields_from::<SubscribeUpdateAccountInfo>(info, s, s.len() as int, depth));
    } else {
        assert(s =~= known);
    }
}

} // verus!
