//! What is promised of messages on the wire: how each is written, byte for byte, and how each part
//! is read.

use crate::account_codec::{
    account_bytes, fits_wire, flag, is_bytes_tag, is_u64_tag, legacy_bytes, with_bytes, with_u64,
};
use crate::block_meta_codec::{fits_block_meta, fits_reward, fits_rewards};
use crate::confirmed_block::{
    BlockHeight, NumPartitions, Reward, RewardView, Rewards, RewardsView, UnixTimestamp,
};
use crate::fields::{
    byte_string, bytes_of, field_bytes, fields_bytes, integer, message_bytes, optional_bytes,
    optional_integer, FieldMessage, FieldView,
};
use crate::geyser::{
    AccountInfoView, AccountUpdateView, BlockMetaView, EntryUpdateView, SlotUpdateView,
    SubscribeUpdate, SubscribeUpdateAccount, SubscribeUpdateAccountInfo, SubscribeUpdateBlock,
    SubscribeUpdateBlockMeta, SubscribeUpdateEntry, SubscribeUpdateSlot,
    SubscribeUpdateTransaction, SubscribeUpdateTransactionInfo, TransactionInfoView,
    TransactionUpdateView, UpdateOneofView, UpdateView,
};
use crate::news_codec::{fits_entry_update, fits_slot_update, fits_transaction_update};
use crate::scalars::{signed_bits, signed_of, small_signed_of, text_in, utf8_of};
use crate::timestamp::Timestamp;
use crate::update_codec::{
    account_bytes_of, fit_wire, fits_account_update, fits_update, is_oneof_tag, oneof_field,
    update_bytes,
};
use crate::wire::{
    bytes_field_at, bytes_field_bytes, decoded, key_at, lemma_varint_round_trip,
    optional_bytes_field_bytes, skipped_at, some_bytes_field_bytes, some_u64_field_bytes,
    u64_field_at, u64_field_bytes, varint_at, varint_bytes, varint_from, with_fields_from,
    DecodeError, WireMessage,
};
use vstd::arithmetic::power::{lemma_pow1, lemma_pow_adds, pow};
use vstd::prelude::*;
use vstd::utf8::{decode_utf8, encode_utf8, valid_utf8};

verus! {

/// A signed number and what is written of it differ by a multiple of two to the sixty-fourth, and
/// so do a number that is written and what is read of it; of one of thirty-two bits, by a multiple
/// of two to the thirty-second.
pub proof fn law_signed_numbers_wrap(value: i64, bits: u64)
    ensures
        signed_bits(value) == value as int % 0x1_0000_0000_0000_0000,
        (bits - signed_of(bits)) % 0x1_0000_0000_0000_0000 == 0,
        (bits - small_signed_of(bits)) % 0x1_0000_0000 == 0,
        signed_of(signed_bits(value)) == value,
        signed_bits(signed_of(bits)) == bits,
{
}

/// Bytes are read as a text exactly where they are what is written of it.
pub proof fn law_text_is_its_bytes(bytes: Seq<u8>, text: Seq<char>)
    ensures
        text_in(bytes) == Ok::<Seq<char>, DecodeError>(text) <==> bytes == encode_utf8(text),
        text_in(bytes) is Err ==> text_in(bytes) == Err::<Seq<char>, DecodeError>(
            DecodeError::InvalidUtf8,
        ),
        text_in(bytes) is Err <==> !valid_utf8(bytes),
{
    vstd::utf8::encode_utf8_valid_utf8(text);
    vstd::utf8::encode_utf8_decode_utf8(text);
    if valid_utf8(bytes) {
        vstd::utf8::decode_utf8_encode_utf8(bytes);
    }
}

/// An optional text has bytes where it is there, and those of the text.
pub proof fn law_optional_text_is_its_bytes(text: Option<Seq<char>>)
    ensures
        utf8_of(text) is Some <==> text is Some,
        text matches Some(given) ==> utf8_of(text) == Some(encode_utf8(given)),
{
}

/// The number that `n + 1` bytes from `pos` on spell: seven bits of each, the lowest first.
pub open spec fn groups(s: Seq<u8>, pos: int, n: nat) -> int
    decreases n,
{
    if n == 0 {
        s[pos] as int % 128
    } else {
        groups(s, pos, (n - 1) as nat) + (s[pos + n] as int % 128) * pow(128, n)
    }
}

proof fn lemma_groups_shift(s: Seq<u8>, pos: int, n: nat)
    requires
        n > 0,
    ensures
        groups(s, pos, n) == s[pos] as int % 128 + 128 * groups(s, pos + 1, (n - 1) as nat),
    decreases n,
{
    let top = s[pos + n] as int % 128;
    lemma_pow1(128);
    if n == 1 {
        assert(top * pow(128, 1) == 128 * top) by (nonlinear_arith)
            requires
                pow(128, 1) == 128,
        ;
        assert(groups(s, pos, 0) == s[pos] as int % 128);
        assert(groups(s, pos + 1, 0) == s[pos + 1] as int % 128);
        assert(groups(s, pos, 1) == groups(s, pos, 0) + (s[pos + 1] as int % 128) * pow(128, 1));
    } else {
        let m = (n - 1) as nat;
        lemma_groups_shift(s, pos, m);
        lemma_pow_adds(128, 1, m);
        let low = groups(s, pos + 1, (m - 1) as nat);
        let power = pow(128, m);
        assert(s[(pos + 1) + m] == s[pos + n]);
        assert(groups(s, pos + 1, m) == low + top * power);
        assert(pow(128, n) == 128 * power);
        assert(128 * (low + top * power) == 128 * low + top * (128 * power)) by (nonlinear_arith);
    }
}

proof fn lemma_varint_groups(s: Seq<u8>, pos: int, n: nat, i: nat)
    requires
        0 <= pos,
        pos + n < s.len(),
        i + n <= 9,
        forall|k: int| pos <= k < pos + n ==> s[k] >= 128,
        s[pos + n] < 128,
        i + n == 9 ==> s[pos + n] < 2,
    ensures
        varint_from(s, pos, i) == Ok::<(nat, int), DecodeError>(
            (groups(s, pos, n) as nat, pos + n + 1),
        ),
        groups(s, pos, n) >= 0,
    decreases n,
{
    if n > 0 {
        let m = (n - 1) as nat;
        lemma_varint_groups(s, pos + 1, m, i + 1);
        lemma_groups_shift(s, pos, n);
    }
}

/// An integer on the wire is worth seven bits of each of its bytes, the lowest first. All bytes but
/// the last have the top bit set. It has ten bytes at most, of which the tenth is worth one bit.
pub proof fn law_integer_is_seven_bit_groups(s: Seq<u8>, pos: int, n: nat)
    requires
        0 <= pos,
        pos + n < s.len(),
        n <= 9,
        forall|k: int| pos <= k < pos + n ==> s[k] >= 128,
        s[pos + n] < 128,
        n == 9 ==> s[pos + n] < 2,
    ensures
        varint_at(s, pos) == Ok::<(nat, int), DecodeError>(
            (groups(s, pos, n) as nat, pos + n + 1),
        ),
{
    lemma_varint_groups(s, pos, n, 0);
}

proof fn lemma_no_varint(s: Seq<u8>, pos: int, n: nat, i: nat)
    requires
        0 <= pos,
        i + n <= 10,
        pos + n <= s.len(),
        forall|k: int| pos <= k < pos + n ==> s[k] >= 128,
        ({
            ||| pos + n == s.len()
            ||| i + n == 10
            ||| i + n == 9 && 2 <= s[pos + n] < 128
        }),
    ensures
        varint_from(s, pos, i) == Err::<(nat, int), DecodeError>(DecodeError::InvalidVarint),
    decreases n,
{
    if n > 0 {
        lemma_no_varint(s, pos + 1, (n - 1) as nat, i + 1);
    }
}

/// An integer that is cut off, that has more than ten bytes, or whose tenth byte is worth more than
/// a bit, is none.
pub proof fn law_bad_integers_are_refused(s: Seq<u8>, pos: int, n: nat)
    requires
        0 <= pos,
        n <= 10,
        pos + n <= s.len(),
        forall|k: int| pos <= k < pos + n ==> s[k] >= 128,
        ({
            ||| pos + n == s.len()
            ||| n == 10
            ||| n == 9 && 2 <= s[pos + n] < 128
        }),
    ensures
        varint_at(s, pos) == Err::<(nat, int), DecodeError>(DecodeError::InvalidVarint),
{
    lemma_no_varint(s, pos, n, 0);
}

/// An integer is written in as few bytes as it takes: all but the last have the top bit set, the
/// last has not, and is zero only where it is the only one. What is written is worth the integer.
pub proof fn law_integers_are_written_short(value: nat)
    requires
        value <= u64::MAX,
    ensures
        ({
            let bytes = varint_bytes(value);
            &&& 1 <= bytes.len() <= 10
            &&& forall|i: int| 0 <= i < bytes.len() - 1 ==> #[trigger] bytes[i] >= 128
            &&& bytes.last() < 128
            &&& bytes.len() > 1 ==> bytes.last() > 0
            &&& varint_at(bytes, 0) == Ok::<(nat, int), DecodeError>((value, bytes.len() as int))
        }),
{
    let bytes = varint_bytes(value);
    lemma_varint_shape(value);
    assert(bytes.subrange(0, bytes.len() as int) =~= bytes);
    lemma_varint_round_trip(bytes, 0, value);
    if bytes.len() > 10 {
        lemma_no_varint(bytes, 0, 10, 0);
    }
}

proof fn lemma_varint_shape(value: nat)
    ensures
        varint_bytes(value).len() >= 1,
        forall|i: int|
            0 <= i < varint_bytes(value).len() - 1 ==> #[trigger] varint_bytes(value)[i] >= 128,
        varint_bytes(value).last() < 128,
        varint_bytes(value).len() > 1 ==> varint_bytes(value).last() > 0,
        varint_bytes(value).len() == 1 ==> varint_bytes(value)[0] == value,
    decreases value,
{
    if value >= 128 {
        lemma_varint_shape(value / 128);
        let rest = varint_bytes(value / 128);
        let bytes = varint_bytes(value);
        assert(bytes.len() == rest.len() + 1);
        assert(bytes.last() == rest.last());
        assert forall|i: int| 0 <= i < bytes.len() - 1 implies #[trigger] bytes[i] >= 128 by {
            if i > 0 {
                assert(bytes[i] == rest[i - 1]);
            }
        }
    }
}

/// A key is an integer of thirty-two bits: eight times the tag, which is not zero, and the wire
/// type, of which there are six.
pub proof fn law_key_is_tag_and_wire_type(s: Seq<u8>, pos: int, key: nat, end: int)
    requires
        varint_at(s, pos) == Ok::<(nat, int), DecodeError>((key, end)),
    ensures
        key_at(s, pos) is Ok <==> key <= 0xffff_ffff && key % 8 <= 5 && key / 8 >= 1,
        key_at(s, pos) matches Ok((tag, wire_type, after)) ==> key == tag * 8 + wire_type
            && wire_type < 8 && after == end,
        key > 0xffff_ffff ==> key_at(s, pos) == Err::<(u32, u8, int), DecodeError>(
            DecodeError::InvalidKey,
        ),
        key <= 0xffff_ffff && key % 8 > 5 ==> key_at(s, pos) == Err::<(u32, u8, int), DecodeError>(
            DecodeError::InvalidWireType,
        ),
        key < 8 && key % 8 <= 5 ==> key_at(s, pos) == Err::<(u32, u8, int), DecodeError>(
            DecodeError::InvalidTag,
        ),
{
}

/// The value of an integer field is the integer that begins there, if its wire type is zero.
pub proof fn law_integer_field_is_read(s: Seq<u8>, pos: int, wire_type: u8)
    ensures
        wire_type != 0 ==> u64_field_at(s, pos, wire_type) == Err::<(u64, int), DecodeError>(
            DecodeError::WireTypeMismatch,
        ),
        varint_at(s, pos) matches Ok((value, end)) ==> (value <= u64::MAX ==> u64_field_at(
            s,
            pos,
            0,
        ) == Ok::<(u64, int), DecodeError>((value as u64, end))),
        varint_at(s, pos) matches Err(error) ==> u64_field_at(s, pos, 0) == Err::<
            (u64, int),
            DecodeError,
        >(error),
{
}

/// The value of a byte-string field has as many bytes as the integer says that begins there, and
/// lies right behind it, if the wire type is two; it must not reach past the end.
pub proof fn law_byte_string_field_is_read(s: Seq<u8>, pos: int, wire_type: u8)
    ensures
        wire_type != 2 ==> bytes_field_at(s, pos, wire_type) == Err::<(Seq<u8>, int), DecodeError>(
            DecodeError::WireTypeMismatch,
        ),
        varint_at(s, pos) matches Ok((len, start)) ==> {
            &&& start + len > s.len() ==> bytes_field_at(s, pos, 2) == Err::<
                (Seq<u8>, int),
                DecodeError,
            >(DecodeError::BufferUnderflow)
            &&& 0 <= start && start + len <= s.len() ==> {
                &&& bytes_field_at(s, pos, 2) matches Ok((bytes, end))
                &&& bytes.len() == len
                &&& end == start + len
                &&& forall|i: int| 0 <= i < len ==> #[trigger] bytes[i] == s[start + i]
            }
        },
        varint_at(s, pos) matches Err(error) ==> bytes_field_at(s, pos, 2) == Err::<
            (Seq<u8>, int),
            DecodeError,
        >(error),
{
}

/// A field that a message does not know is passed over as its wire type says: an integer, eight
/// bytes, a byte string, a group, or four bytes. The end of a group that did not begin is an
/// error, and so is whatever nests too deep.
pub proof fn law_unknown_field_is_passed_over(s: Seq<u8>, pos: int, tag: u32, depth: nat)
    requires
        depth > 0,
    ensures
        skipped_at(s, pos, tag, 0, depth) == match varint_at(s, pos) {
            Ok((_, end)) => Ok::<int, DecodeError>(end),
            Err(error) => Err::<int, DecodeError>(error),
        },
        skipped_at(s, pos, tag, 1, depth) == if pos + 8 <= s.len() {
            Ok::<int, DecodeError>(pos + 8)
        } else {
            Err::<int, DecodeError>(DecodeError::BufferUnderflow)
        },
        skipped_at(s, pos, tag, 2, depth) == match varint_at(s, pos) {
            Ok((len, start)) => if start + len <= s.len() {
                Ok::<int, DecodeError>(start + len)
            } else {
                Err::<int, DecodeError>(DecodeError::BufferUnderflow)
            },
            Err(error) => Err::<int, DecodeError>(error),
        },
        skipped_at(s, pos, tag, 4, depth) == Err::<int, DecodeError>(
            DecodeError::UnexpectedEndGroup,
        ),
        skipped_at(s, pos, tag, 5, depth) == if pos + 4 <= s.len() {
            Ok::<int, DecodeError>(pos + 4)
        } else {
            Err::<int, DecodeError>(DecodeError::BufferUnderflow)
        },
        forall|wire_type: u8| #[trigger]
            skipped_at(s, pos, tag, wire_type, 0) == Err::<int, DecodeError>(
                DecodeError::RecursionLimit,
            ),
{
}

/// A group is passed over field by field, each a level deeper, up to the end of the group with its
/// own tag; the end of another group is an error.
pub proof fn law_group_is_passed_over(
    s: Seq<u8>,
    pos: int,
    tag: u32,
    depth: nat,
    inner_tag: u32,
    inner_type: u8,
    value: int,
)
    requires
        depth > 0,
        key_at(s, pos) == Ok::<(u32, u8, int), DecodeError>((inner_tag, inner_type, value)),
    ensures
        inner_type == 4 && inner_tag == tag ==> skipped_at(s, pos, tag, 3, depth) == Ok::<
            int,
            DecodeError,
        >(value),
        inner_type == 4 && inner_tag != tag ==> skipped_at(s, pos, tag, 3, depth) == Err::<
            int,
            DecodeError,
        >(DecodeError::UnexpectedEndGroup),
        inner_type != 4 ==> match skipped_at(
            s,
            value,
            inner_tag,
            inner_type,
            (depth - 1) as nat,
        ) {
            Ok(next) => pos < next <= s.len() ==> skipped_at(s, pos, tag, 3, depth) == skipped_at(
                s,
                next,
                tag,
                3,
                depth,
            ),
            Err(error) => skipped_at(s, pos, tag, 3, depth) == Err::<int, DecodeError>(error),
        },
{
    reveal_with_fuel(crate::wire::group_end_at, 2);
    reveal_with_fuel(skipped_at, 2);
}

/// A message nests a hundred levels deep at most, and one without bytes has nothing set.
pub proof fn law_message_begins_unset<M: WireMessage>(s: Seq<u8>)
    ensures
        decoded::<M>(s) == with_fields_from::<M>(M::unset(), s, 0, 100),
        decoded::<M>(Seq::empty()) == Ok::<M::V, DecodeError>(M::unset()),
{
}

/// The fields of a message are merged one after the other, from the first to the last; the first
/// that cannot be read is the error.
pub proof fn law_fields_are_merged_in_turn<M: WireMessage>(
    message: M::V,
    s: Seq<u8>,
    pos: int,
    depth: nat,
    tag: u32,
    wire_type: u8,
    value: int,
)
    requires
        0 <= pos < s.len(),
        key_at(s, pos) == Ok::<(u32, u8, int), DecodeError>((tag, wire_type, value)),
    ensures
        match M::with_field_at(message, s, value, tag, wire_type, depth) {
            Ok((merged, next)) => pos < next <= s.len() ==> with_fields_from::<M>(
                message,
                s,
                pos,
                depth,
            ) == with_fields_from::<M>(merged, s, next, depth),
            Err(error) => with_fields_from::<M>(message, s, pos, depth) == Err::<
                M::V,
                DecodeError,
            >(error),
        },
{
}

/// A field of a message is read as the kind of field that its tag stands for, and one that the
/// message does not have changes nothing.
pub proof fn law_field_is_read_by_its_tag<M: FieldMessage>(
    message: M::V,
    s: Seq<u8>,
    pos: int,
    tag: u32,
    wire_type: u8,
    depth: nat,
)
    ensures
        M::takes_integer(tag) ==> match u64_field_at(s, pos, wire_type) {
            Ok((value, end)) => M::with_field_at(message, s, pos, tag, wire_type, depth) == Ok::<
                (M::V, int),
                DecodeError,
            >((M::with_integer(message, tag, value), end)),
            Err(error) => M::with_field_at(message, s, pos, tag, wire_type, depth) == Err::<
                (M::V, int),
                DecodeError,
            >(error),
        },
        !M::takes_integer(tag) && !M::takes_bytes(tag) ==> match skipped_at(
            s,
            pos,
            tag,
            wire_type,
            depth,
        ) {
            Ok(end) => M::with_field_at(message, s, pos, tag, wire_type, depth) == Ok::<
                (M::V, int),
                DecodeError,
            >((message, end)),
            Err(error) => M::with_field_at(message, s, pos, tag, wire_type, depth) == Err::<
                (M::V, int),
                DecodeError,
            >(error),
        },
        !M::takes_integer(tag) && M::takes_bytes(tag) ==> match bytes_field_at(s, pos, wire_type) {
            Ok((bytes, end)) => match M::with_bytes(message, tag, bytes, depth) {
                Ok(merged) => M::with_field_at(message, s, pos, tag, wire_type, depth) == Ok::<
                    (M::V, int),
                    DecodeError,
                >((merged, end)),
                Err(error) => M::with_field_at(message, s, pos, tag, wire_type, depth) == Err::<
                    (M::V, int),
                    DecodeError,
                >(error),
            },
            Err(error) => M::with_field_at(message, s, pos, tag, wire_type, depth) == Err::<
                (M::V, int),
                DecodeError,
            >(error),
        },
        M::unset() == M::empty(),
{
}

/// A field is written with a key of eight times its tag and the wire type, which is zero for an
/// integer and two for a byte string; a byte string follows its length. An integer that is zero
/// and a byte string that is empty are left out unless they must be there.
pub proof fn law_fields_are_written(tag: u32, value: u64, bytes: Seq<u8>)
    ensures
        some_u64_field_bytes(tag, value) == varint_bytes((tag * 8) as nat) + varint_bytes(
            value as nat,
        ),
        some_bytes_field_bytes(tag, bytes) == varint_bytes((tag * 8 + 2) as nat) + varint_bytes(
            bytes.len(),
        ) + bytes,
        u64_field_bytes(tag, 0) == Seq::<u8>::empty(),
        value != 0 ==> u64_field_bytes(tag, value) == some_u64_field_bytes(tag, value),
        bytes_field_bytes(tag, Seq::empty()) == Seq::<u8>::empty(),
        bytes.len() > 0 ==> bytes_field_bytes(tag, bytes) == some_bytes_field_bytes(tag, bytes),
        optional_bytes_field_bytes(tag, None) == Seq::<u8>::empty(),
        optional_bytes_field_bytes(tag, Some(bytes)) == some_bytes_field_bytes(tag, bytes),
        field_bytes(FieldView::Integer(tag, value)) == some_u64_field_bytes(tag, value),
        field_bytes(FieldView::Bytes(tag, bytes)) == some_bytes_field_bytes(tag, bytes),
        fields_bytes(Seq::empty()) == Seq::<u8>::empty(),
{
}

/// The bytes of fields are those of the first and then those of the others.
pub proof fn law_fields_are_written_in_turn(field: FieldView, others: Seq<FieldView>)
    ensures
        fields_bytes(seq![field] + others) == field_bytes(field) + fields_bytes(others),
{
    let all = seq![field] + others;
    assert(all.drop_first() =~= others);
}

proof fn lemma_field_bytes(fields: Seq<FieldView>)
    requires
        fields.len() <= 1,
    ensures
        fields_bytes(fields) == if fields.len() == 0 {
            Seq::empty()
        } else {
            field_bytes(fields[0])
        },
{
    if fields.len() == 1 {
        assert(fields.drop_first() =~= Seq::<FieldView>::empty());
        assert(fields_bytes(fields.drop_first()) =~= Seq::<u8>::empty());
        assert(field_bytes(fields[0]) + Seq::<u8>::empty() =~= field_bytes(fields[0]));
    }
}

proof fn lemma_fields_bytes_join(a: Seq<FieldView>, b: Seq<FieldView>)
    ensures
        fields_bytes(a + b) == fields_bytes(a) + fields_bytes(b),
    decreases a.len(),
{
    if a.len() == 0 {
        assert(a + b =~= b);
        assert(fields_bytes(a) =~= Seq::<u8>::empty());
        assert(Seq::<u8>::empty() + fields_bytes(b) =~= fields_bytes(b));
    } else {
        let rest = a.drop_first();
        lemma_fields_bytes_join(rest, b);
        assert((a + b).drop_first() =~= rest + b);
        assert(field_bytes(a[0]) + (fields_bytes(rest) + fields_bytes(b)) =~= (field_bytes(a[0])
            + fields_bytes(rest)) + fields_bytes(b));
    }
}

/// Whether the bytes of a message in another are merged into what was there of it, and the result
/// takes its place; a level must be left for it, and what cannot be read is the error.
pub open spec fn merges_part<M: FieldMessage, P: WireMessage>(
    message: M::V,
    tag: u32,
    bytes: Seq<u8>,
    depth: nat,
    before: Option<P::V>,
    put: spec_fn(P::V) -> M::V,
) -> bool {
    let start = match before {
        Some(part) => part,
        None => P::unset(),
    };
    if depth == 0 {
        M::with_bytes(message, tag, bytes, depth) == Err::<M::V, DecodeError>(
            DecodeError::RecursionLimit,
        )
    } else {
        match with_fields_from::<P>(start, bytes, 0, (depth - 1) as nat) {
            Ok(part) => M::with_bytes(message, tag, bytes, depth) == Ok::<M::V, DecodeError>(
                put(part),
            ),
            Err(error) => M::with_bytes(message, tag, bytes, depth) == Err::<M::V, DecodeError>(
                error,
            ),
        }
    }
}

/// The bytes of an account are those of its parts, in this order and under these tags; a producer
/// that does not know the index of the transaction leaves it out.
pub proof fn law_account_info_is_written(info: AccountInfoView)
    ensures
        legacy_bytes(info) == bytes_field_bytes(1, info.pubkey) + u64_field_bytes(2, info.lamports)
            + bytes_field_bytes(3, info.owner) + u64_field_bytes(
            4,
            if info.executable {
                1
            } else {
                0
            },
        ) + u64_field_bytes(5, info.rent_epoch) + bytes_field_bytes(6, info.data)
            + u64_field_bytes(7, info.write_version) + (match info.txn_signature {
            Some(bytes) => some_bytes_field_bytes(8, bytes),
            None => Seq::empty(),
        }),
        account_bytes(info) == legacy_bytes(info) + u64_field_bytes(32, info.transaction_index),
{
}

/// Each part of an account is read under its tag, and leaves all others as they were.
pub proof fn law_account_info_is_read(
    info: AccountInfoView,
    tag: u32,
    value: u64,
    bytes: Seq<u8>,
)
    ensures
        is_u64_tag(tag) <==> tag == 2 || tag == 4 || tag == 5 || tag == 7 || tag == 32,
        is_bytes_tag(tag) <==> tag == 1 || tag == 3 || tag == 6 || tag == 8,
        with_u64(info, 2, value) == (AccountInfoView { lamports: value, ..info }),
        with_u64(info, 4, value) == (AccountInfoView { executable: value != 0, ..info }),
        with_u64(info, 5, value) == (AccountInfoView { rent_epoch: value, ..info }),
        with_u64(info, 7, value) == (AccountInfoView { write_version: value, ..info }),
        with_u64(info, 32, value) == (AccountInfoView { transaction_index: value, ..info }),
        with_bytes(info, 1, bytes) == (AccountInfoView { pubkey: bytes, ..info }),
        with_bytes(info, 3, bytes) == (AccountInfoView { owner: bytes, ..info }),
        with_bytes(info, 6, bytes) == (AccountInfoView { data: bytes, ..info }),
        with_bytes(info, 8, bytes) == (AccountInfoView { txn_signature: Some(bytes), ..info }),
{
}

/// A field of an account is read as the kind of field that its tag stands for, and one that an
/// account does not have changes nothing.
pub proof fn law_account_field_is_read_by_its_tag(
    info: AccountInfoView,
    s: Seq<u8>,
    pos: int,
    tag: u32,
    wire_type: u8,
    depth: nat,
)
    ensures
        SubscribeUpdateAccountInfo::with_field_at(info, s, pos, tag, wire_type, depth) == if tag
            == 2 || tag == 4 || tag == 5 || tag == 7 || tag == 32 {
            match u64_field_at(s, pos, wire_type) {
                Ok((value, end)) => Ok::<(AccountInfoView, int), DecodeError>(
                    (with_u64(info, tag, value), end),
                ),
                Err(error) => Err::<(AccountInfoView, int), DecodeError>(error),
            }
        } else if tag == 1 || tag == 3 || tag == 6 || tag == 8 {
            match bytes_field_at(s, pos, wire_type) {
                Ok((bytes, end)) => Ok::<(AccountInfoView, int), DecodeError>(
                    (with_bytes(info, tag, bytes), end),
                ),
                Err(error) => Err::<(AccountInfoView, int), DecodeError>(error),
            }
        } else {
            match skipped_at(s, pos, tag, wire_type, depth) {
                Ok(end) => Ok::<(AccountInfoView, int), DecodeError>((info, end)),
                Err(error) => Err::<(AccountInfoView, int), DecodeError>(error),
            }
        },
        AccountInfoView::unset() == (AccountInfoView {
            pubkey: Seq::empty(),
            lamports: 0,
            owner: Seq::empty(),
            executable: false,
            rent_epoch: 0,
            data: Seq::empty(),
            write_version: 0,
            txn_signature: None,
            transaction_index: 0,
        }),
        SubscribeUpdateAccountInfo::unset() == AccountInfoView::unset(),
{
}

/// The bytes of a time are those of its parts, in this order and under these tags.
pub proof fn law_timestamp_is_written(message: Timestamp)
    ensures
        message_bytes::<Timestamp>(message) == u64_field_bytes(1, signed_bits(message.seconds))
            + u64_field_bytes(2, signed_bits(message.nanos as i64)),
{
    let f0 = integer(1, signed_bits(message.seconds));
    let f1 = integer(2, signed_bits(message.nanos as i64));
    lemma_field_bytes(f0);
    lemma_field_bytes(f1);
    lemma_fields_bytes_join(f0, f1);
    assert(Timestamp::fields(message) == f0 + f1);
}

/// Each part of a time is read under its tag, and leaves all others as they were.
pub proof fn law_timestamp_is_read(
    message: Timestamp,
    tag: u32,
    value: u64,
    bytes: Seq<u8>,
    depth: nat,
)
    ensures
        Timestamp::takes_integer(tag) <==> tag == 1 || tag == 2,
        !Timestamp::takes_bytes(tag),
        Timestamp::with_integer(message, 1, value)
            == (Timestamp { seconds: signed_of(value), ..message }),
        Timestamp::with_integer(message, 2, value)
            == (Timestamp { nanos: small_signed_of(value), ..message }),
{
}

/// The bytes of the news of a slot are those of its parts, in this order and under these tags.
pub proof fn law_slot_is_written(message: SlotUpdateView)
    ensures
        message_bytes::<SubscribeUpdateSlot>(message) == u64_field_bytes(1, message.slot)
            + (match message.parent {
            Some(value) => some_u64_field_bytes(2, value),
            None => Seq::empty(),
        })
            + u64_field_bytes(3, signed_bits(message.status as i64))
            + (match message.dead_error {
            Some(text) => some_bytes_field_bytes(4, encode_utf8(text)),
            None => Seq::empty(),
        }),
{
    let f0 = integer(1, message.slot);
    let f1 = optional_integer(2, message.parent);
    let f2 = integer(3, signed_bits(message.status as i64));
    let f3 = optional_bytes(4, utf8_of(message.dead_error));
    lemma_field_bytes(f0);
    lemma_field_bytes(f1);
    lemma_fields_bytes_join(f0, f1);
    lemma_field_bytes(f2);
    lemma_fields_bytes_join(f0 + f1, f2);
    lemma_field_bytes(f3);
    lemma_fields_bytes_join(f0 + f1 + f2, f3);
    assert(SubscribeUpdateSlot::fields(message) == f0 + f1 + f2 + f3);
}

/// Each part of the news of a slot is read under its tag, and leaves all others as they were.
pub proof fn law_slot_is_read(
    message: SlotUpdateView,
    tag: u32,
    value: u64,
    bytes: Seq<u8>,
    depth: nat,
)
    ensures
        SubscribeUpdateSlot::takes_integer(tag) <==> tag == 1 || tag == 2 || tag == 3,
        SubscribeUpdateSlot::takes_bytes(tag) <==> tag == 4,
        SubscribeUpdateSlot::with_integer(message, 1, value)
            == (SlotUpdateView { slot: value, ..message }),
        SubscribeUpdateSlot::with_integer(message, 2, value)
            == (SlotUpdateView { parent: Some(value), ..message }),
        SubscribeUpdateSlot::with_integer(message, 3, value)
            == (SlotUpdateView { status: small_signed_of(value), ..message }),
        valid_utf8(bytes) ==> SubscribeUpdateSlot::with_bytes(message, 4, bytes, depth)
            == Ok::<SlotUpdateView, DecodeError>(
            SlotUpdateView { dead_error: Some(decode_utf8(bytes)), ..message },
        ),
        !valid_utf8(bytes) ==> SubscribeUpdateSlot::with_bytes(message, 4, bytes, depth)
            == Err::<SlotUpdateView, DecodeError>(
            DecodeError::InvalidUtf8,
        ),
{
}

/// The bytes of an entry are those of its parts, in this order and under these tags.
pub proof fn law_entry_is_written(message: EntryUpdateView)
    ensures
        message_bytes::<SubscribeUpdateEntry>(message) == u64_field_bytes(1, message.slot)
            + u64_field_bytes(2, message.index)
            + u64_field_bytes(3, message.num_hashes)
            + bytes_field_bytes(4, message.hash)
            + u64_field_bytes(5, message.executed_transaction_count)
            + u64_field_bytes(6, message.starting_transaction_index),
{
    let f0 = integer(1, message.slot);
    let f1 = integer(2, message.index);
    let f2 = integer(3, message.num_hashes);
    let f3 = byte_string(4, message.hash);
    let f4 = integer(5, message.executed_transaction_count);
    let f5 = integer(6, message.starting_transaction_index);
    lemma_field_bytes(f0);
    lemma_field_bytes(f1);
    lemma_fields_bytes_join(f0, f1);
    lemma_field_bytes(f2);
    lemma_fields_bytes_join(f0 + f1, f2);
    lemma_field_bytes(f3);
    lemma_fields_bytes_join(f0 + f1 + f2, f3);
    lemma_field_bytes(f4);
    lemma_fields_bytes_join(f0 + f1 + f2 + f3, f4);
    lemma_field_bytes(f5);
    lemma_fields_bytes_join(f0 + f1 + f2 + f3 + f4, f5);
    assert(SubscribeUpdateEntry::fields(message) == f0 + f1 + f2 + f3 + f4 + f5);
}

/// Each part of an entry is read under its tag, and leaves all others as they were.
pub proof fn law_entry_is_read(
    message: EntryUpdateView,
    tag: u32,
    value: u64,
    bytes: Seq<u8>,
    depth: nat,
)
    ensures
        SubscribeUpdateEntry::takes_integer(tag) <==> tag == 1 || tag == 2 || tag == 3 || tag
            == 5 || tag == 6,
        SubscribeUpdateEntry::takes_bytes(tag) <==> tag == 4,
        SubscribeUpdateEntry::with_integer(message, 1, value)
            == (EntryUpdateView { slot: value, ..message }),
        SubscribeUpdateEntry::with_integer(message, 2, value)
            == (EntryUpdateView { index: value, ..message }),
        SubscribeUpdateEntry::with_integer(message, 3, value)
            == (EntryUpdateView { num_hashes: value, ..message }),
        SubscribeUpdateEntry::with_bytes(message, 4, bytes, depth)
            == Ok::<EntryUpdateView, DecodeError>(
            EntryUpdateView { hash: bytes, ..message },
        ),
        SubscribeUpdateEntry::with_integer(message, 5, value)
            == (EntryUpdateView { executed_transaction_count: value, ..message }),
        SubscribeUpdateEntry::with_integer(message, 6, value)
            == (EntryUpdateView { starting_transaction_index: value, ..message }),
{
}

/// The bytes of a transaction are those of its parts, in this order and under these tags.
pub proof fn law_transaction_info_is_written(message: TransactionInfoView)
    ensures
        message_bytes::<SubscribeUpdateTransactionInfo>(message)
            == bytes_field_bytes(1, message.signature)
            + u64_field_bytes(
            2,
            if message.is_vote {
                1
            } else {
                0
            },
        )
            + (match message.transaction {
            Some(bytes) => some_bytes_field_bytes(3, bytes),
            None => Seq::empty(),
        })
            + (match message.meta {
            Some(bytes) => some_bytes_field_bytes(4, bytes),
            None => Seq::empty(),
        })
            + u64_field_bytes(5, message.index),
{
    let f0 = byte_string(1, message.signature);
    let f1 = integer(2, flag(message.is_vote));
    let f2 = optional_bytes(3, message.transaction);
    let f3 = optional_bytes(4, message.meta);
    let f4 = integer(5, message.index);
    lemma_field_bytes(f0);
    lemma_field_bytes(f1);
    lemma_fields_bytes_join(f0, f1);
    lemma_field_bytes(f2);
    lemma_fields_bytes_join(f0 + f1, f2);
    lemma_field_bytes(f3);
    lemma_fields_bytes_join(f0 + f1 + f2, f3);
    lemma_field_bytes(f4);
    lemma_fields_bytes_join(f0 + f1 + f2 + f3, f4);
    assert(SubscribeUpdateTransactionInfo::fields(message) == f0 + f1 + f2 + f3 + f4);
}

/// Each part of a transaction is read under its tag, and leaves all others as they were.
pub proof fn law_transaction_info_is_read(
    message: TransactionInfoView,
    tag: u32,
    value: u64,
    bytes: Seq<u8>,
    depth: nat,
)
    ensures
        SubscribeUpdateTransactionInfo::takes_integer(tag) <==> tag == 2 || tag == 5,
        SubscribeUpdateTransactionInfo::takes_bytes(tag) <==> tag == 1 || tag == 3 || tag == 4,
        SubscribeUpdateTransactionInfo::with_bytes(message, 1, bytes, depth)
            == Ok::<TransactionInfoView, DecodeError>(
            TransactionInfoView { signature: bytes, ..message },
        ),
        SubscribeUpdateTransactionInfo::with_integer(message, 2, value)
            == (TransactionInfoView { is_vote: value != 0, ..message }),
        message.transaction is None
            ==> SubscribeUpdateTransactionInfo::with_bytes(message, 3, bytes, depth)
            == Ok::<TransactionInfoView, DecodeError>(
            TransactionInfoView { transaction: Some(bytes), ..message },
        ),
        message.transaction matches Some(before)
            ==> SubscribeUpdateTransactionInfo::with_bytes(message, 3, bytes, depth)
            == Ok::<TransactionInfoView, DecodeError>(
            TransactionInfoView { transaction: Some(before + bytes), ..message },
        ),
        message.meta is None
            ==> SubscribeUpdateTransactionInfo::with_bytes(message, 4, bytes, depth)
            == Ok::<TransactionInfoView, DecodeError>(
            TransactionInfoView { meta: Some(bytes), ..message },
        ),
        message.meta matches Some(before)
            ==> SubscribeUpdateTransactionInfo::with_bytes(message, 4, bytes, depth)
            == Ok::<TransactionInfoView, DecodeError>(
            TransactionInfoView { meta: Some(before + bytes), ..message },
        ),
        SubscribeUpdateTransactionInfo::with_integer(message, 5, value)
            == (TransactionInfoView { index: value, ..message }),
{
}

/// The bytes of the news of a transaction are those of its parts, in this order and under these
/// tags.
pub proof fn law_transaction_is_written(message: TransactionUpdateView)
    ensures
        message_bytes::<SubscribeUpdateTransaction>(message) == (match message.transaction {
            Some(part) => some_bytes_field_bytes(1,
                message_bytes::<SubscribeUpdateTransactionInfo>(part)),
            None => Seq::empty(),
        })
            + u64_field_bytes(2, message.slot),
{
    let f0 = optional_bytes(1, bytes_of::<SubscribeUpdateTransactionInfo>(message.transaction));
    let f1 = integer(2, message.slot);
    lemma_field_bytes(f0);
    lemma_field_bytes(f1);
    lemma_fields_bytes_join(f0, f1);
    assert(SubscribeUpdateTransaction::fields(message) == f0 + f1);
}

/// Each part of the news of a transaction is read under its tag, and leaves all others as they
/// were.
pub proof fn law_transaction_is_read(
    message: TransactionUpdateView,
    tag: u32,
    value: u64,
    bytes: Seq<u8>,
    depth: nat,
)
    ensures
        SubscribeUpdateTransaction::takes_integer(tag) <==> tag == 2,
        SubscribeUpdateTransaction::takes_bytes(tag) <==> tag == 1,
        merges_part::<SubscribeUpdateTransaction, SubscribeUpdateTransactionInfo>(
            message,
            1,
            bytes,
            depth,
            message.transaction,
            |part: TransactionInfoView|
                TransactionUpdateView { transaction: Some(part), ..message },
        ),
        SubscribeUpdateTransaction::with_integer(message, 2, value)
            == (TransactionUpdateView { slot: value, ..message }),
{
}

/// The bytes of the time of a block are those of its parts, in this order and under these tags.
pub proof fn law_block_time_is_written(message: UnixTimestamp)
    ensures
        message_bytes::<UnixTimestamp>(message)
            == u64_field_bytes(1, signed_bits(message.timestamp)),
{
    let f0 = integer(1, signed_bits(message.timestamp));
    lemma_field_bytes(f0);
    assert(UnixTimestamp::fields(message) =~= f0);
}

/// Each part of the time of a block is read under its tag, and leaves all others as they were.
pub proof fn law_block_time_is_read(
    message: UnixTimestamp,
    tag: u32,
    value: u64,
    bytes: Seq<u8>,
    depth: nat,
)
    ensures
        UnixTimestamp::takes_integer(tag) <==> tag == 1,
        !UnixTimestamp::takes_bytes(tag),
        UnixTimestamp::with_integer(message, 1, value)
            == (UnixTimestamp { timestamp: signed_of(value) }),
{
}

/// The bytes of the height of a block are those of its parts, in this order and under these tags.
pub proof fn law_block_height_is_written(message: BlockHeight)
    ensures
        message_bytes::<BlockHeight>(message) == u64_field_bytes(1, message.block_height),
{
    let f0 = integer(1, message.block_height);
    lemma_field_bytes(f0);
    assert(BlockHeight::fields(message) =~= f0);
}

/// Each part of the height of a block is read under its tag, and leaves all others as they were.
pub proof fn law_block_height_is_read(
    message: BlockHeight,
    tag: u32,
    value: u64,
    bytes: Seq<u8>,
    depth: nat,
)
    ensures
        BlockHeight::takes_integer(tag) <==> tag == 1,
        !BlockHeight::takes_bytes(tag),
        BlockHeight::with_integer(message, 1, value) == (BlockHeight { block_height: value }),
{
}

/// The bytes of a number of partitions are those of its parts, in this order and under these tags.
pub proof fn law_num_partitions_is_written(message: NumPartitions)
    ensures
        message_bytes::<NumPartitions>(message) == u64_field_bytes(1, message.num_partitions),
{
    let f0 = integer(1, message.num_partitions);
    lemma_field_bytes(f0);
    assert(NumPartitions::fields(message) =~= f0);
}

/// Each part of a number of partitions is read under its tag, and leaves all others as they were.
pub proof fn law_num_partitions_is_read(
    message: NumPartitions,
    tag: u32,
    value: u64,
    bytes: Seq<u8>,
    depth: nat,
)
    ensures
        NumPartitions::takes_integer(tag) <==> tag == 1,
        !NumPartitions::takes_bytes(tag),
        NumPartitions::with_integer(message, 1, value) == (NumPartitions { num_partitions: value }),
{
}

/// The bytes of a reward are those of its parts, in this order and under these tags.
pub proof fn law_reward_is_written(message: RewardView)
    ensures
        message_bytes::<Reward>(message) == bytes_field_bytes(1, encode_utf8(message.pubkey))
            + u64_field_bytes(2, signed_bits(message.lamports))
            + u64_field_bytes(3, message.post_balance)
            + u64_field_bytes(4, signed_bits(message.reward_type as i64))
            + bytes_field_bytes(5, encode_utf8(message.commission)),
{
    let f0 = byte_string(1, encode_utf8(message.pubkey));
    let f1 = integer(2, signed_bits(message.lamports));
    let f2 = integer(3, message.post_balance);
    let f3 = integer(4, signed_bits(message.reward_type as i64));
    let f4 = byte_string(5, encode_utf8(message.commission));
    lemma_field_bytes(f0);
    lemma_field_bytes(f1);
    lemma_fields_bytes_join(f0, f1);
    lemma_field_bytes(f2);
    lemma_fields_bytes_join(f0 + f1, f2);
    lemma_field_bytes(f3);
    lemma_fields_bytes_join(f0 + f1 + f2, f3);
    lemma_field_bytes(f4);
    lemma_fields_bytes_join(f0 + f1 + f2 + f3, f4);
    assert(Reward::fields(message) == f0 + f1 + f2 + f3 + f4);
}

/// Each part of a reward is read under its tag, and leaves all others as they were.
pub proof fn law_reward_is_read(
    message: RewardView,
    tag: u32,
    value: u64,
    bytes: Seq<u8>,
    depth: nat,
)
    ensures
        Reward::takes_integer(tag) <==> tag == 2 || tag == 3 || tag == 4,
        Reward::takes_bytes(tag) <==> tag == 1 || tag == 5,
        valid_utf8(bytes) ==> Reward::with_bytes(message, 1, bytes, depth)
            == Ok::<RewardView, DecodeError>(
            RewardView { pubkey: decode_utf8(bytes), ..message },
        ),
        !valid_utf8(bytes) ==> Reward::with_bytes(message, 1, bytes, depth)
            == Err::<RewardView, DecodeError>(
            DecodeError::InvalidUtf8,
        ),
        Reward::with_integer(message, 2, value)
            == (RewardView { lamports: signed_of(value), ..message }),
        Reward::with_integer(message, 3, value) == (RewardView { post_balance: value, ..message }),
        Reward::with_integer(message, 4, value)
            == (RewardView { reward_type: small_signed_of(value), ..message }),
        valid_utf8(bytes) ==> Reward::with_bytes(message, 5, bytes, depth)
            == Ok::<RewardView, DecodeError>(
            RewardView { commission: decode_utf8(bytes), ..message },
        ),
        !valid_utf8(bytes) ==> Reward::with_bytes(message, 5, bytes, depth)
            == Err::<RewardView, DecodeError>(
            DecodeError::InvalidUtf8,
        ),
{
}

/// The bytes of the description of a block are those of its parts, in this order and under these
/// tags.
pub proof fn law_block_meta_is_written(message: BlockMetaView)
    ensures
        message_bytes::<SubscribeUpdateBlockMeta>(message) == u64_field_bytes(1, message.slot)
            + bytes_field_bytes(2, encode_utf8(message.blockhash))
            + (match message.rewards {
            Some(part) => some_bytes_field_bytes(3, message_bytes::<Rewards>(part)),
            None => Seq::empty(),
        })
            + (match message.block_time {
            Some(part) => some_bytes_field_bytes(4, message_bytes::<UnixTimestamp>(part)),
            None => Seq::empty(),
        })
            + (match message.block_height {
            Some(part) => some_bytes_field_bytes(5, message_bytes::<BlockHeight>(part)),
            None => Seq::empty(),
        })
            + u64_field_bytes(6, message.parent_slot)
            + bytes_field_bytes(7, encode_utf8(message.parent_blockhash))
            + u64_field_bytes(8, message.executed_transaction_count)
            + u64_field_bytes(9, message.entries_count),
{
    let f0 = integer(1, message.slot);
    let f1 = byte_string(2, encode_utf8(message.blockhash));
    let f2 = optional_bytes(3, bytes_of::<Rewards>(message.rewards));
    let f3 = optional_bytes(4, bytes_of::<UnixTimestamp>(message.block_time));
    let f4 = optional_bytes(5, bytes_of::<BlockHeight>(message.block_height));
    let f5 = integer(6, message.parent_slot);
    let f6 = byte_string(7, encode_utf8(message.parent_blockhash));
    let f7 = integer(8, message.executed_transaction_count);
    let f8 = integer(9, message.entries_count);
    lemma_field_bytes(f0);
    lemma_field_bytes(f1);
    lemma_fields_bytes_join(f0, f1);
    lemma_field_bytes(f2);
    lemma_fields_bytes_join(f0 + f1, f2);
    lemma_field_bytes(f3);
    lemma_fields_bytes_join(f0 + f1 + f2, f3);
    lemma_field_bytes(f4);
    lemma_fields_bytes_join(f0 + f1 + f2 + f3, f4);
    lemma_field_bytes(f5);
    lemma_fields_bytes_join(f0 + f1 + f2 + f3 + f4, f5);
    lemma_field_bytes(f6);
    lemma_fields_bytes_join(f0 + f1 + f2 + f3 + f4 + f5, f6);
    lemma_field_bytes(f7);
    lemma_fields_bytes_join(f0 + f1 + f2 + f3 + f4 + f5 + f6, f7);
    lemma_field_bytes(f8);
    lemma_fields_bytes_join(f0 + f1 + f2 + f3 + f4 + f5 + f6 + f7, f8);
    assert(SubscribeUpdateBlockMeta::fields(message) == f0 + f1 + f2 + f3 + f4 + f5 + f6 + f7 + f8);
}

/// Each part of the description of a block is read under its tag, and leaves all others as they
/// were.
pub proof fn law_block_meta_is_read(
    message: BlockMetaView,
    tag: u32,
    value: u64,
    bytes: Seq<u8>,
    depth: nat,
)
    ensures
        SubscribeUpdateBlockMeta::takes_integer(tag) <==> tag == 1 || tag == 6 || tag == 8
            || tag == 9,
        SubscribeUpdateBlockMeta::takes_bytes(tag) <==> tag == 2 || tag == 3 || tag == 4 || tag
            == 5 || tag == 7,
        SubscribeUpdateBlockMeta::with_integer(message, 1, value)
            == (BlockMetaView { slot: value, ..message }),
        valid_utf8(bytes) ==> SubscribeUpdateBlockMeta::with_bytes(message, 2, bytes, depth)
            == Ok::<BlockMetaView, DecodeError>(
            BlockMetaView { blockhash: decode_utf8(bytes), ..message },
        ),
        !valid_utf8(bytes) ==> SubscribeUpdateBlockMeta::with_bytes(message, 2, bytes, depth)
            == Err::<BlockMetaView, DecodeError>(
            DecodeError::InvalidUtf8,
        ),
        merges_part::<SubscribeUpdateBlockMeta, Rewards>(
            message,
            3,
            bytes,
            depth,
            message.rewards,
            |part: RewardsView| BlockMetaView { rewards: Some(part), ..message },
        ),
        merges_part::<SubscribeUpdateBlockMeta, UnixTimestamp>(
            message,
            4,
            bytes,
            depth,
            message.block_time,
            |part: UnixTimestamp| BlockMetaView { block_time: Some(part), ..message },
        ),
        merges_part::<SubscribeUpdateBlockMeta, BlockHeight>(
            message,
            5,
            bytes,
            depth,
            message.block_height,
            |part: BlockHeight| BlockMetaView { block_height: Some(part), ..message },
        ),
        SubscribeUpdateBlockMeta::with_integer(message, 6, value)
            == (BlockMetaView { parent_slot: value, ..message }),
        valid_utf8(bytes) ==> SubscribeUpdateBlockMeta::with_bytes(message, 7, bytes, depth)
            == Ok::<BlockMetaView, DecodeError>(
            BlockMetaView { parent_blockhash: decode_utf8(bytes), ..message },
        ),
        !valid_utf8(bytes) ==> SubscribeUpdateBlockMeta::with_bytes(message, 7, bytes, depth)
            == Err::<BlockMetaView, DecodeError>(
            DecodeError::InvalidUtf8,
        ),
        SubscribeUpdateBlockMeta::with_integer(message, 8, value)
            == (BlockMetaView { executed_transaction_count: value, ..message }),
        SubscribeUpdateBlockMeta::with_integer(message, 9, value)
            == (BlockMetaView { entries_count: value, ..message }),
{
}

/// The bytes of the news of an account are those of its parts, in this order and under these tags.
pub proof fn law_account_is_written(message: AccountUpdateView)
    ensures
        message_bytes::<SubscribeUpdateAccount>(message) == (match message.account {
            Some(part) => some_bytes_field_bytes(1, account_bytes(part)),
            None => Seq::empty(),
        })
            + u64_field_bytes(2, message.slot)
            + u64_field_bytes(
            3,
            if message.is_startup {
                1
            } else {
                0
            },
        ),
{
    let f0 = optional_bytes(1, account_bytes_of(message.account));
    let f1 = integer(2, message.slot);
    let f2 = integer(3, flag(message.is_startup));
    lemma_field_bytes(f0);
    lemma_field_bytes(f1);
    lemma_fields_bytes_join(f0, f1);
    lemma_field_bytes(f2);
    lemma_fields_bytes_join(f0 + f1, f2);
    assert(SubscribeUpdateAccount::fields(message) == f0 + f1 + f2);
}

/// Each part of the news of an account is read under its tag, and leaves all others as they were.
pub proof fn law_account_is_read(
    message: AccountUpdateView,
    tag: u32,
    value: u64,
    bytes: Seq<u8>,
    depth: nat,
)
    ensures
        SubscribeUpdateAccount::takes_integer(tag) <==> tag == 2 || tag == 3,
        SubscribeUpdateAccount::takes_bytes(tag) <==> tag == 1,
        merges_part::<SubscribeUpdateAccount, SubscribeUpdateAccountInfo>(
            message,
            1,
            bytes,
            depth,
            message.account,
            |part: AccountInfoView| AccountUpdateView { account: Some(part), ..message },
        ),
        SubscribeUpdateAccount::with_integer(message, 2, value)
            == (AccountUpdateView { slot: value, ..message }),
        SubscribeUpdateAccount::with_integer(message, 3, value)
            == (AccountUpdateView { is_startup: value != 0, ..message }),
{
}

/// The bytes of rewards are those of each reward in turn, and then the number of partitions.
pub proof fn law_rewards_are_written(message: RewardsView, reward: RewardView)
    ensures
        message_bytes::<Rewards>(
            RewardsView { rewards: message.rewards.push(reward), num_partitions: None },
        ) == message_bytes::<Rewards>(RewardsView { num_partitions: None, ..message })
            + some_bytes_field_bytes(1, message_bytes::<Reward>(reward)),
        message_bytes::<Rewards>(message) == message_bytes::<Rewards>(
            RewardsView { num_partitions: None, ..message },
        ) + (match message.num_partitions {
            Some(part) => some_bytes_field_bytes(2, message_bytes::<NumPartitions>(part)),
            None => Seq::empty(),
        }),
        message_bytes::<Rewards>(RewardsView { rewards: Seq::empty(), num_partitions: None })
            == Seq::<u8>::empty(),
{
    let none = RewardsView { num_partitions: None, ..message };
    let more = RewardsView { rewards: message.rewards.push(reward), num_partitions: None };
    let nothing = RewardsView { rewards: Seq::empty(), num_partitions: None };
    let last = seq![FieldView::Bytes(1, message_bytes::<Reward>(reward))];
    assert(Rewards::fields(more) =~= Rewards::fields(none) + last);
    lemma_fields_bytes_join(Rewards::fields(none), last);
    lemma_field_bytes(last);
    let number = optional_bytes(2, bytes_of::<NumPartitions>(message.num_partitions));
    assert(Rewards::fields(message) =~= Rewards::fields(none) + number);
    lemma_fields_bytes_join(Rewards::fields(none), number);
    lemma_field_bytes(number);
    assert(Rewards::fields(nothing) =~= Seq::<FieldView>::empty());
}

/// Each reward that is read comes behind those read before, and the number of partitions is merged
/// into what was there of it.
pub proof fn law_rewards_are_read(
    message: RewardsView,
    tag: u32,
    bytes: Seq<u8>,
    depth: nat,
)
    ensures
        !Rewards::takes_integer(tag),
        Rewards::takes_bytes(tag) <==> tag == 1 || tag == 2,
        merges_part::<Rewards, Reward>(
            message,
            1,
            bytes,
            depth,
            None,
            |part: RewardView| RewardsView { rewards: message.rewards.push(part), ..message },
        ),
        merges_part::<Rewards, NumPartitions>(
            message,
            2,
            bytes,
            depth,
            message.num_partitions,
            |part: NumPartitions| RewardsView { num_partitions: Some(part), ..message },
        ),
{
}

/// The bytes of a block are those of each account in turn.
pub proof fn law_block_is_written(accounts: Seq<AccountInfoView>, account: AccountInfoView)
    ensures
        message_bytes::<SubscribeUpdateBlock>(accounts.push(account)) == message_bytes::<
            SubscribeUpdateBlock,
        >(accounts) + some_bytes_field_bytes(11, account_bytes(account)),
        message_bytes::<SubscribeUpdateBlock>(Seq::empty()) == Seq::<u8>::empty(),
{
    let last = seq![FieldView::Bytes(11, account_bytes(account))];
    assert(SubscribeUpdateBlock::fields(accounts.push(account)) =~= SubscribeUpdateBlock::fields(
        accounts,
    ) + last);
    lemma_fields_bytes_join(SubscribeUpdateBlock::fields(accounts), last);
    lemma_field_bytes(last);
    assert(SubscribeUpdateBlock::fields(Seq::empty()) =~= Seq::<FieldView>::empty());
}

/// Each account of a block that is read comes behind those read before.
pub proof fn law_block_is_read(
    accounts: Seq<AccountInfoView>,
    tag: u32,
    bytes: Seq<u8>,
    depth: nat,
)
    ensures
        !SubscribeUpdateBlock::takes_integer(tag),
        SubscribeUpdateBlock::takes_bytes(tag) <==> tag == 11,
        merges_part::<SubscribeUpdateBlock, SubscribeUpdateAccountInfo>(
            accounts,
            11,
            bytes,
            depth,
            None,
            |part: AccountInfoView| accounts.push(part),
        ),
{
}

/// The bytes of an update are the names of its filters in turn, then what it tells under the tag of
/// its kind, then when it was made.
pub proof fn law_update_is_written(update: UpdateView, name: Seq<char>)
    ensures
        ({
            let names = UpdateView { update_oneof: None, created_at: None, ..update };
            let more = UpdateView { filters: update.filters.push(name), ..names };
            &&& update_bytes(more) == update_bytes(names) + some_bytes_field_bytes(
                1,
                encode_utf8(name),
            )
            &&& update_bytes(update) == update_bytes(names) + (match update.update_oneof {
                Some(UpdateOneofView::Account(told)) => some_bytes_field_bytes(
                    2,
                    message_bytes::<SubscribeUpdateAccount>(told),
                ),
                Some(UpdateOneofView::Slot(told)) => some_bytes_field_bytes(
                    3,
                    message_bytes::<SubscribeUpdateSlot>(told),
                ),
                Some(UpdateOneofView::Transaction(told)) => some_bytes_field_bytes(
                    4,
                    message_bytes::<SubscribeUpdateTransaction>(told),
                ),
                Some(UpdateOneofView::Block(told)) => some_bytes_field_bytes(
                    5,
                    message_bytes::<SubscribeUpdateBlock>(told),
                ),
                Some(UpdateOneofView::BlockMeta(told)) => some_bytes_field_bytes(
                    7,
                    message_bytes::<SubscribeUpdateBlockMeta>(told),
                ),
                Some(UpdateOneofView::Entry(told)) => some_bytes_field_bytes(
                    8,
                    message_bytes::<SubscribeUpdateEntry>(told),
                ),
                None => Seq::empty(),
            }) + (match update.created_at {
                Some(time) => some_bytes_field_bytes(11, message_bytes::<Timestamp>(time)),
                None => Seq::empty(),
            })
        }),
        update_bytes(UpdateView { filters: Seq::empty(), update_oneof: None, created_at: None })
            == Seq::<u8>::empty(),
{
    let names = UpdateView { update_oneof: None, created_at: None, ..update };
    let more = UpdateView { filters: update.filters.push(name), ..names };
    let nothing = UpdateView { filters: Seq::empty(), update_oneof: None, created_at: None };
    let first = SubscribeUpdate::fields(names);
    let last = seq![FieldView::Bytes(1, encode_utf8(name))];
    assert(SubscribeUpdate::fields(more) =~= first + last);
    lemma_fields_bytes_join(first, last);
    lemma_field_bytes(last);
    let told = match update.update_oneof {
        Some(told) => seq![oneof_field(told)],
        None => Seq::empty(),
    };
    let time = optional_bytes(11, bytes_of::<Timestamp>(update.created_at));
    assert(SubscribeUpdate::fields(update) =~= first + told + time);
    lemma_field_bytes(told);
    lemma_field_bytes(time);
    lemma_fields_bytes_join(first, told);
    lemma_fields_bytes_join(first + told, time);
    assert(SubscribeUpdate::fields(nothing) =~= Seq::<FieldView>::empty());
}

/// A name of a filter that is read comes behind those read before, the time is merged into what was
/// there of it, and what is told of the kind that was told before is merged into that; what is told
/// of another kind takes its place.
pub proof fn law_update_is_read(update: UpdateView, tag: u32, bytes: Seq<u8>, depth: nat)
    ensures
        !SubscribeUpdate::takes_integer(tag),
        SubscribeUpdate::takes_bytes(tag) <==> tag == 1 || tag == 2 || tag == 3 || tag == 4 || tag
            == 5 || tag == 7 || tag == 8 || tag == 11,
        is_oneof_tag(tag) <==> tag == 2 || tag == 3 || tag == 4 || tag == 5 || tag == 7 || tag == 8,
        valid_utf8(bytes) ==> SubscribeUpdate::with_bytes(update, 1, bytes, depth) == Ok::<
            UpdateView,
            DecodeError,
        >(UpdateView { filters: update.filters.push(decode_utf8(bytes)), ..update }),
        !valid_utf8(bytes) ==> SubscribeUpdate::with_bytes(update, 1, bytes, depth) == Err::<
            UpdateView,
            DecodeError,
        >(DecodeError::InvalidUtf8),
        merges_part::<SubscribeUpdate, Timestamp>(
            update,
            11,
            bytes,
            depth,
            update.created_at,
            |time: Timestamp| UpdateView { created_at: Some(time), ..update },
        ),
        merges_part::<SubscribeUpdate, SubscribeUpdateAccount>(
            update,
            2,
            bytes,
            depth,
            match update.update_oneof {
                Some(UpdateOneofView::Account(told)) => Some(told),
                _ => None,
            },
            |told: AccountUpdateView|
                UpdateView { update_oneof: Some(UpdateOneofView::Account(told)), ..update },
        ),
        merges_part::<SubscribeUpdate, SubscribeUpdateSlot>(
            update,
            3,
            bytes,
            depth,
            match update.update_oneof {
                Some(UpdateOneofView::Slot(told)) => Some(told),
                _ => None,
            },
            |told: SlotUpdateView|
                UpdateView { update_oneof: Some(UpdateOneofView::Slot(told)), ..update },
        ),
        merges_part::<SubscribeUpdate, SubscribeUpdateTransaction>(
            update,
            4,
            bytes,
            depth,
            match update.update_oneof {
                Some(UpdateOneofView::Transaction(told)) => Some(told),
                _ => None,
            },
            |told: TransactionUpdateView|
                UpdateView { update_oneof: Some(UpdateOneofView::Transaction(told)), ..update },
        ),
        merges_part::<SubscribeUpdate, SubscribeUpdateBlock>(
            update,
            5,
            bytes,
            depth,
            match update.update_oneof {
                Some(UpdateOneofView::Block(told)) => Some(told),
                _ => None,
            },
            |told: Seq<AccountInfoView>|
                UpdateView { update_oneof: Some(UpdateOneofView::Block(told)), ..update },
        ),
        merges_part::<SubscribeUpdate, SubscribeUpdateBlockMeta>(
            update,
            7,
            bytes,
            depth,
            match update.update_oneof {
                Some(UpdateOneofView::BlockMeta(told)) => Some(told),
                _ => None,
            },
            |told: BlockMetaView|
                UpdateView { update_oneof: Some(UpdateOneofView::BlockMeta(told)), ..update },
        ),
        merges_part::<SubscribeUpdate, SubscribeUpdateEntry>(
            update,
            8,
            bytes,
            depth,
            match update.update_oneof {
                Some(UpdateOneofView::Entry(told)) => Some(told),
                _ => None,
            },
            |told: EntryUpdateView|
                UpdateView { update_oneof: Some(UpdateOneofView::Entry(told)), ..update },
        ),
{
}

/// A message of which no field was read has nothing set.
pub proof fn law_unset_messages_are_empty()
    ensures
        Timestamp::empty() == (Timestamp { seconds: 0, nanos: 0 }),
        SubscribeUpdateSlot::empty() == (SlotUpdateView {
            slot: 0,
            parent: None,
            status: 0,
            dead_error: None,
        }),
        SubscribeUpdateEntry::empty() == (EntryUpdateView {
            slot: 0,
            index: 0,
            num_hashes: 0,
            hash: Seq::empty(),
            executed_transaction_count: 0,
            starting_transaction_index: 0,
        }),
        SubscribeUpdateTransactionInfo::empty() == (TransactionInfoView {
            signature: Seq::empty(),
            is_vote: false,
            transaction: None,
            meta: None,
            index: 0,
        }),
        SubscribeUpdateTransaction::empty()
            == (TransactionUpdateView { transaction: None, slot: 0 }),
        UnixTimestamp::empty() == (UnixTimestamp { timestamp: 0 }),
        BlockHeight::empty() == (BlockHeight { block_height: 0 }),
        NumPartitions::empty() == (NumPartitions { num_partitions: 0 }),
        Reward::empty() == (RewardView {
            pubkey: Seq::empty(),
            lamports: 0,
            post_balance: 0,
            reward_type: 0,
            commission: Seq::empty(),
        }),
        Rewards::empty() == (RewardsView { rewards: Seq::empty(), num_partitions: None }),
        SubscribeUpdateBlockMeta::empty() == (BlockMetaView {
            slot: 0,
            blockhash: Seq::empty(),
            rewards: None,
            block_time: None,
            block_height: None,
            parent_slot: 0,
            parent_blockhash: Seq::empty(),
            executed_transaction_count: 0,
            entries_count: 0,
        }),
        SubscribeUpdateAccount::empty() == (AccountUpdateView {
            account: None,
            slot: 0,
            is_startup: false,
        }),
        SubscribeUpdateBlock::empty() == Seq::<AccountInfoView>::empty(),
        SubscribeUpdate::empty() == (UpdateView {
            filters: Seq::empty(),
            update_oneof: None,
            created_at: None,
        }),
{
}

/// Messages fit the wire where all their texts, byte strings and inner messages are short enough
/// for their lengths to be written; nothing else is asked of them.
pub proof fn law_what_fits_the_wire(
    info: AccountInfoView,
    slot: SlotUpdateView,
    entry: EntryUpdateView,
    transaction: TransactionUpdateView,
    account: AccountUpdateView,
)
    ensures
        fits_wire(info) <==> info.pubkey.len() <= u64::MAX && info.owner.len() <= u64::MAX
            && info.data.len() <= u64::MAX && (info.txn_signature matches Some(signature)
            ==> signature.len() <= u64::MAX),
        fits_slot_update(slot) <==> (slot.dead_error matches Some(text) ==> encode_utf8(text).len()
            <= u64::MAX),
        fits_entry_update(entry) <==> entry.hash.len() <= u64::MAX,
        fits_transaction_update(transaction) <==> (transaction.transaction matches Some(part)
            ==> message_bytes::<SubscribeUpdateTransactionInfo>(part).len() <= u64::MAX
            && part.signature.len() <= u64::MAX && (part.transaction matches Some(bytes)
            ==> bytes.len() <= u64::MAX) && (part.meta matches Some(bytes) ==> bytes.len()
            <= u64::MAX)),
        fits_account_update(account) <==> (account.account matches Some(part) ==> account_bytes(
            part,
        ).len() <= u64::MAX && fits_wire(part)),
{
}

/// Descriptions of blocks, blocks and updates fit the wire where all their parts do.
pub proof fn law_what_else_fits_the_wire(
    reward: RewardView,
    rewards: RewardsView,
    meta: BlockMetaView,
    accounts: Seq<AccountInfoView>,
    update: UpdateView,
)
    ensures
        fits_reward(reward) <==> encode_utf8(reward.pubkey).len() <= u64::MAX && encode_utf8(
            reward.commission,
        ).len() <= u64::MAX,
        (forall|i: int|
            0 <= i < rewards.rewards.len() ==> fits_reward(#[trigger] rewards.rewards[i])
                && message_bytes::<Reward>(rewards.rewards[i]).len() <= u64::MAX) && (
        rewards.num_partitions matches Some(part) ==> message_bytes::<NumPartitions>(part).len()
            <= u64::MAX) ==> fits_rewards(rewards),
        encode_utf8(meta.blockhash).len() <= u64::MAX && encode_utf8(meta.parent_blockhash).len()
            <= u64::MAX && (meta.rewards matches Some(part) ==> fits_rewards(part)
            && message_bytes::<Rewards>(part).len() <= u64::MAX) && (meta.block_time matches Some(
            part,
        ) ==> message_bytes::<UnixTimestamp>(part).len() <= u64::MAX) && (meta.block_height matches
            Some(part) ==> message_bytes::<BlockHeight>(part).len() <= u64::MAX)
            ==> fits_block_meta(meta),
        (forall|i: int|
            0 <= i < accounts.len() ==> fits_wire(#[trigger] accounts[i]) && account_bytes(
                accounts[i],
            ).len() <= u64::MAX) ==> fit_wire(accounts),
        (forall|i: int|
            0 <= i < update.filters.len() ==> encode_utf8(#[trigger] update.filters[i]).len()
                <= u64::MAX) && (update.created_at matches Some(time) ==> message_bytes::<
            Timestamp,
        >(time).len() <= u64::MAX) && (update.update_oneof matches Some(told) ==> match told {
            UpdateOneofView::Account(part) => fits_account_update(part) && message_bytes::<
                SubscribeUpdateAccount,
            >(part).len() <= u64::MAX,
            UpdateOneofView::Slot(part) => fits_slot_update(part) && message_bytes::<
                SubscribeUpdateSlot,
            >(part).len() <= u64::MAX,
            UpdateOneofView::Transaction(part) => fits_transaction_update(part) && message_bytes::<
                SubscribeUpdateTransaction,
            >(part).len() <= u64::MAX,
            UpdateOneofView::Block(part) => fit_wire(part) && message_bytes::<SubscribeUpdateBlock>(
                part,
            ).len() <= u64::MAX,
            UpdateOneofView::BlockMeta(part) => fits_block_meta(part) && message_bytes::<
                SubscribeUpdateBlockMeta,
            >(part).len() <= u64::MAX,
            UpdateOneofView::Entry(part) => fits_entry_update(part) && message_bytes::<
                SubscribeUpdateEntry,
            >(part).len() <= u64::MAX,
        }) ==> fits_update(update),
{
}

} // verus!
