//! Messages as lists of fields: each kind of message says which fields it has, and reading,
//! writing and the way back are the same for all.

use crate::wire::{
    append, bytes_field_at, key_bytes, lemma_bytes_field_round_trip, lemma_lies_at_front,
    lemma_some_u64_field_round_trip, lies_at, merge_fields, read_bytes_field, read_u64_field,
    skip_field, skipped_at, some_bytes_field_bytes, some_u64_field_bytes, u64_field_at,
    with_fields_from, write_some_bytes_field, write_some_u64_field, DecodeError, WireMessage,
    LENGTH_DELIMITED, VARINT,
};
use vstd::prelude::*;
use vstd::slice::{slice_subrange, slice_to_vec};

verus! {

/// A field as it is written.
#[derive(Debug)]
pub enum Field {
    /// A tag and an integer.
    Integer(u32, u64),
    /// A tag and a byte string.
    Bytes(u32, Vec<u8>),
}

/// What a [`Field`] says.
#[verifier::ext_equal]
pub enum FieldView {
    Integer(u32, u64),
    Bytes(u32, Seq<u8>),
}

impl View for Field {
    type V = FieldView;

    open spec fn view(&self) -> FieldView {
        match *self {
            Field::Integer(tag, value) => FieldView::Integer(tag, value),
            Field::Bytes(tag, bytes) => FieldView::Bytes(tag, bytes@),
        }
    }
}

/// What the fields of a list say.
pub open spec fn views_of(fields: Seq<Field>) -> Seq<FieldView> {
    fields.map_values(|field: Field| field@)
}

/// The bytes of a field.
pub open spec fn field_bytes(field: FieldView) -> Seq<u8> {
    match field {
        FieldView::Integer(tag, value) => some_u64_field_bytes(tag, value),
        FieldView::Bytes(tag, bytes) => some_bytes_field_bytes(tag, bytes),
    }
}

/// The bytes of some fields, one after the other.
pub open spec fn fields_bytes(fields: Seq<FieldView>) -> Seq<u8>
    decreases fields.len(),
{
    if fields.len() == 0 {
        Seq::empty()
    } else {
        field_bytes(fields[0]) + fields_bytes(fields.drop_first())
    }
}

/// An integer field, which is left out where it is zero.
pub open spec fn integer(tag: u32, value: u64) -> Seq<FieldView> {
    if value == 0 {
        Seq::empty()
    } else {
        seq![FieldView::Integer(tag, value)]
    }
}

/// An integer field that may be missing.
pub open spec fn optional_integer(tag: u32, value: Option<u64>) -> Seq<FieldView> {
    match value {
        Some(value) => seq![FieldView::Integer(tag, value)],
        None => Seq::empty(),
    }
}

/// A byte-string field, which is left out where it is empty.
pub open spec fn byte_string(tag: u32, bytes: Seq<u8>) -> Seq<FieldView> {
    if bytes.len() == 0 {
        Seq::empty()
    } else {
        seq![FieldView::Bytes(tag, bytes)]
    }
}

/// A byte-string field that may be missing.
pub open spec fn optional_bytes(tag: u32, bytes: Option<Seq<u8>>) -> Seq<FieldView> {
    match bytes {
        Some(bytes) => seq![FieldView::Bytes(tag, bytes)],
        None => Seq::empty(),
    }
}

/// Appends an integer field.
pub fn push_integer(fields: &mut Vec<Field>, tag: u32, value: u64)
    ensures
        views_of(final(fields)@) == views_of(old(fields)@) + integer(tag, value),
{
    if value != 0 {
        fields.push(Field::Integer(tag, value));
    }
    assert(views_of(fields@) =~= views_of(old(fields)@) + integer(tag, value));
}

/// Appends an integer field that may be missing.
pub fn push_optional_integer(fields: &mut Vec<Field>, tag: u32, value: Option<u64>)
    ensures
        views_of(final(fields)@) == views_of(old(fields)@) + optional_integer(tag, value),
{
    if let Some(value) = value {
        fields.push(Field::Integer(tag, value));
    }
    assert(views_of(fields@) =~= views_of(old(fields)@) + optional_integer(tag, value));
}

/// Appends a byte-string field that is there.
pub fn push_some_bytes(fields: &mut Vec<Field>, tag: u32, bytes: Vec<u8>)
    ensures
        views_of(final(fields)@) == views_of(old(fields)@) + seq![FieldView::Bytes(tag, bytes@)],
{
    fields.push(Field::Bytes(tag, bytes));
    assert(views_of(fields@) =~= views_of(old(fields)@) + seq![FieldView::Bytes(tag, bytes@)]);
}

/// Appends a byte-string field.
pub fn push_bytes(fields: &mut Vec<Field>, tag: u32, bytes: Vec<u8>)
    ensures
        views_of(final(fields)@) == views_of(old(fields)@) + byte_string(tag, bytes@),
{
    if bytes.len() != 0 {
        push_some_bytes(fields, tag, bytes);
    }
    assert(views_of(fields@) =~= views_of(old(fields)@) + byte_string(tag, bytes@));
}

/// Writes some fields.
pub fn encode_fields(fields: &Vec<Field>) -> (out: Vec<u8>)
    ensures
        out@ == fields_bytes(views_of(fields@)),
{
    let mut out: Vec<u8> = Vec::new();
    let ghost all = views_of(fields@);
    let mut i: usize = 0;
    assert(all.skip(0) =~= all);
    while i < fields.len()
        invariant
            i <= fields@.len(),
            all == views_of(fields@),
            out@ + fields_bytes(all.skip(i as int)) == fields_bytes(all),
        decreases fields@.len() - i,
    {
        let ghost before = out@;
        let ghost rest = all.skip(i as int);
        match &fields[i] {
            Field::Integer(tag, value) => write_some_u64_field(&mut out, *tag, *value),
            Field::Bytes(tag, bytes) => write_some_bytes_field(&mut out, *tag, bytes.as_slice()),
        }
        proof {
            assert(rest[0] == fields@[i as int]@);
            assert(rest.drop_first() =~= all.skip(i + 1));
            assert(out@ =~= before + field_bytes(rest[0]));
            assert(out@ + fields_bytes(all.skip(i + 1)) =~= before + (field_bytes(rest[0])
                + fields_bytes(rest.drop_first())));
        }
        i += 1;
    }
    assert(out@ =~= fields_bytes(all));
    out
}

/// A message that is a list of fields.
pub trait FieldMessage: View + Sized {
    /// The message of which no field was read.
    spec fn empty() -> Self::V;

    /// Whether the message has an integer field with this tag.
    spec fn takes_integer(tag: u32) -> bool;

    /// Whether the message has a byte-string field, a text or a message in it with this tag.
    spec fn takes_bytes(tag: u32) -> bool;

    /// The message once one more integer field was read.
    spec fn with_integer(message: Self::V, tag: u32, value: u64) -> Self::V;

    /// The message once one more byte-string field was read. Messages in it may nest `depth` deep.
    spec fn with_bytes(message: Self::V, tag: u32, bytes: Seq<u8>, depth: nat) -> Result<
        Self::V,
        DecodeError,
    >;

    /// The fields of a message, in the order in which they are written.
    spec fn fields(message: Self::V) -> Seq<FieldView>;

    /// The message of which no field was read.
    fn new_empty() -> (message: Self)
        ensures
            message@ == Self::empty(),
    ;

    /// Whether the message has an integer field with this tag.
    fn has_integer(tag: u32) -> (found: bool)
        ensures
            found == Self::takes_integer(tag),
    ;

    /// Whether the message has a byte-string field with this tag.
    fn has_bytes(tag: u32) -> (found: bool)
        ensures
            found == Self::takes_bytes(tag),
    ;

    /// Reads an integer field.
    fn set_integer(&mut self, tag: u32, value: u64)
        ensures
            final(self)@ == Self::with_integer(old(self)@, tag, value),
    ;

    /// Reads a byte-string field.
    fn set_bytes(&mut self, tag: u32, bytes: &[u8], depth: u32) -> (result: Result<(), DecodeError>)
        ensures
            match (result, Self::with_bytes(old(self)@, tag, bytes@, depth as nat)) {
                (Ok(()), Ok(message)) => final(self)@ == message,
                (Err(a), Err(b)) => a == b,
                _ => false,
            },
    ;

    /// Lists the fields of the message.
    fn to_fields(&self) -> (fields: Vec<Field>)
        ensures
            views_of(fields@) == Self::fields(self@),
    ;
}

/// The message once one more field was read.
pub open spec fn with_field<M: FieldMessage>(message: M::V, field: FieldView, depth: nat) -> Result<
    M::V,
    DecodeError,
> {
    match field {
        FieldView::Integer(tag, value) => Ok(M::with_integer(message, tag, value)),
        FieldView::Bytes(tag, bytes) => M::with_bytes(message, tag, bytes, depth),
    }
}

/// The message once some more fields were read.
pub open spec fn with_fields<M: FieldMessage>(
    message: M::V,
    fields: Seq<FieldView>,
    depth: nat,
) -> Result<M::V, DecodeError>
    decreases fields.len(),
{
    if fields.len() == 0 {
        Ok(message)
    } else {
        match with_field::<M>(message, fields[0], depth) {
            Ok(merged) => with_fields::<M>(merged, fields.drop_first(), depth),
            Err(error) => Err(error),
        }
    }
}

/// Whether a field is one that the message has.
pub open spec fn is_field_of<M: FieldMessage>(field: FieldView) -> bool {
    match field {
        FieldView::Integer(tag, _) => 0 < tag < 0x1000_0000 && M::takes_integer(tag),
        FieldView::Bytes(tag, bytes) => {
            &&& 0 < tag < 0x1000_0000
            &&& !M::takes_integer(tag)
            &&& M::takes_bytes(tag)
            &&& bytes.len() <= u64::MAX
        },
    }
}

/// Whether fields are ones that the message has.
pub open spec fn are_fields_of<M: FieldMessage>(fields: Seq<FieldView>) -> bool {
    forall|i: int| 0 <= i < fields.len() ==> is_field_of::<M>(#[trigger] fields[i])
}

/// The bytes of a message.
pub open spec fn message_bytes<M: FieldMessage>(message: M::V) -> Seq<u8> {
    fields_bytes(M::fields(message))
}

/// Writes a message.
pub fn encode<M: FieldMessage>(message: &M) -> (bytes: Vec<u8>)
    ensures
        bytes@ == message_bytes::<M>(message@),
{
    encode_fields(&message.to_fields())
}

/// The bytes of an optional message.
pub open spec fn bytes_of<M: FieldMessage>(message: Option<M::V>) -> Option<Seq<u8>> {
    match message {
        Some(message) => Some(message_bytes::<M>(message)),
        None => None,
    }
}

/// The fields of messages that come under one tag.
pub open spec fn parts<M: FieldMessage>(tag: u32, messages: Seq<M::V>) -> Seq<FieldView> {
    messages.map_values(|message: M::V| FieldView::Bytes(tag, message_bytes::<M>(message)))
}

/// What the messages of a list say.
pub open spec fn views_in<M: View>(messages: Seq<M>) -> Seq<M::V> {
    messages.map_values(|message: M| message@)
}

/// Appends messages under one tag.
pub fn push_parts<M: FieldMessage>(fields: &mut Vec<Field>, tag: u32, messages: &Vec<M>)
    ensures
        views_of(final(fields)@) == views_of(old(fields)@) + parts::<M>(tag, views_in(messages@)),
{
    let ghost all = parts::<M>(tag, views_in(messages@));
    let mut i: usize = 0;
    assert(views_of(old(fields)@) + all.take(0) =~= views_of(old(fields)@));
    while i < messages.len()
        invariant
            i <= messages@.len(),
            all == parts::<M>(tag, views_in(messages@)),
            views_of(fields@) == views_of(old(fields)@) + all.take(i as int),
        decreases messages@.len() - i,
    {
        push_some_bytes(fields, tag, encode(&messages[i]));
        proof {
            assert(all[i as int] == FieldView::Bytes(
                tag,
                message_bytes::<M>(messages@[i as int]@),
            ));
            assert(views_of(fields@) =~= views_of(old(fields)@) + all.take(i + 1));
        }
        i += 1;
    }
    assert(all.take(i as int) =~= all);
}

/// A byte string, if there is one, with another behind it.
pub fn joined(before: Option<Vec<u8>>, bytes: &[u8]) -> (whole: Vec<u8>)
    ensures
        whole@ == match before {
            Some(before) => before@ + bytes@,
            None => bytes@,
        },
{
    match before {
        Some(before) => {
            let mut whole = before;
            append(&mut whole, bytes);
            whole
        },
        None => slice_to_vec(bytes),
    }
}

impl<M: FieldMessage> WireMessage for M {
    open spec fn unset() -> M::V {
        M::empty()
    }

    open spec fn with_field_at(
        message: M::V,
        s: Seq<u8>,
        pos: int,
        tag: u32,
        wire_type: u8,
        depth: nat,
    ) -> Result<(M::V, int), DecodeError> {
        if M::takes_integer(tag) {
            match u64_field_at(s, pos, wire_type) {
                Ok((value, end)) => Ok((M::with_integer(message, tag, value), end)),
                Err(error) => Err(error),
            }
        } else if M::takes_bytes(tag) {
            match bytes_field_at(s, pos, wire_type) {
                Ok((bytes, end)) => match M::with_bytes(message, tag, bytes, depth) {
                    Ok(merged) => Ok((merged, end)),
                    Err(error) => Err(error),
                },
                Err(error) => Err(error),
            }
        } else {
            match skipped_at(s, pos, tag, wire_type, depth) {
                Ok(end) => Ok((message, end)),
                Err(error) => Err(error),
            }
        }
    }

    fn new_unset() -> (message: Self) {
        M::new_empty()
    }

    fn merge_field(
        &mut self,
        data: &[u8],
        pos: usize,
        tag: u32,
        wire_type: u8,
        depth: u32,
    ) -> (result: Result<usize, DecodeError>) {
        if M::has_integer(tag) {
            match read_u64_field(data, pos, wire_type) {
                Ok((value, end)) => {
                    self.set_integer(tag, value);
                    Ok(end)
                },
                Err(error) => Err(error),
            }
        } else if M::has_bytes(tag) {
            match read_bytes_field(data, pos, wire_type) {
                Ok((start, end)) => match self.set_bytes(
                    tag,
                    slice_subrange(data, start, end),
                    depth,
                ) {
                    Ok(()) => Ok(end),
                    Err(error) => Err(error),
                },
                Err(error) => Err(error),
            }
        } else {
            skip_field(data, pos, tag, wire_type, depth)
        }
    }
}

/// Reading fields in two parts is reading them all.
pub proof fn lemma_with_fields_join<M: FieldMessage>(
    message: M::V,
    a: Seq<FieldView>,
    b: Seq<FieldView>,
    depth: nat,
)
    ensures
        with_fields::<M>(message, a + b, depth) == match with_fields::<M>(message, a, depth) {
            Ok(merged) => with_fields::<M>(merged, b, depth),
            Err(error) => Err(error),
        },
    decreases a.len(),
{
    if a.len() == 0 {
        assert(a + b =~= b);
    } else {
        assert((a + b)[0] == a[0]);
        assert((a + b).drop_first() =~= a.drop_first() + b);
        if let Ok(merged) = with_field::<M>(message, a[0], depth) {
            lemma_with_fields_join::<M>(merged, a.drop_first(), b, depth);
        }
    }
}

proof fn lemma_fields_at<M: FieldMessage>(
    message: M::V,
    s: Seq<u8>,
    pos: int,
    fields: Seq<FieldView>,
    depth: nat,
)
    requires
        are_fields_of::<M>(fields),
        lies_at(s, pos, fields_bytes(fields)),
        pos + fields_bytes(fields).len() == s.len(),
    ensures
        with_fields_from::<M>(message, s, pos, depth) == with_fields::<M>(message, fields, depth),
    decreases fields.len(),
{
    if fields.len() > 0 {
        let first = fields[0];
        let rest = fields.drop_first();
        lemma_lies_at_front(s, pos, field_bytes(first), fields_bytes(rest));
        assert forall|i: int| 0 <= i < rest.len() implies is_field_of::<M>(#[trigger] rest[i]) by {
            assert(rest[i] == fields[i + 1]);
        }
        assert(is_field_of::<M>(first));
        let next = pos + field_bytes(first).len();
        match first {
            FieldView::Integer(tag, value) => {
                lemma_some_u64_field_round_trip(s, pos, tag, value);
                let after = pos + key_bytes(tag, VARINT).len();
                assert(M::with_field_at(message, s, after, tag, VARINT, depth) == Ok::<
                    (M::V, int),
                    DecodeError,
                >((M::with_integer(message, tag, value), next)));
            },
            FieldView::Bytes(tag, bytes) => {
                lemma_bytes_field_round_trip(s, pos, tag, bytes);
                let after = pos + key_bytes(tag, LENGTH_DELIMITED).len();
                match M::with_bytes(message, tag, bytes, depth) {
                    Ok(merged) => {
                        assert(M::with_field_at(message, s, after, tag, LENGTH_DELIMITED, depth)
                            == Ok::<(M::V, int), DecodeError>((merged, next)));
                    },
                    Err(error) => {
                        assert(M::with_field_at(message, s, after, tag, LENGTH_DELIMITED, depth)
                            == Err::<(M::V, int), DecodeError>(error));
                    },
                }
            },
        }
        if let Ok(merged) = with_field::<M>(message, first, depth) {
            lemma_fields_at::<M>(merged, s, next, rest, depth);
        }
    }
}

/// Whether fields are ones that the message has, and reading them, where messages may nest `depth`
/// deep, gives the message.
pub open spec fn reads_to<M: FieldMessage>(
    fields: Seq<FieldView>,
    message: M::V,
    depth: nat,
) -> bool {
    &&& are_fields_of::<M>(fields)
    &&& with_fields::<M>(M::empty(), fields, depth) == Ok::<M::V, DecodeError>(message)
}

/// Without any field, the message is empty.
pub proof fn lemma_no_fields<M: FieldMessage>(depth: nat)
    ensures
        reads_to::<M>(Seq::<FieldView>::empty(), M::empty(), depth),
{
}

/// One more field that is there.
pub proof fn lemma_then<M: FieldMessage>(
    fields: Seq<FieldView>,
    message: M::V,
    field: FieldView,
    merged: M::V,
    depth: nat,
)
    requires
        reads_to::<M>(fields, message, depth),
        is_field_of::<M>(field),
        with_field::<M>(message, field, depth) == Ok::<M::V, DecodeError>(merged),
    ensures
        reads_to::<M>(fields + seq![field], merged, depth),
{
    let one = seq![field];
    assert(one.drop_first() =~= Seq::<FieldView>::empty());
    reveal_with_fuel(with_fields, 2);
    assert(with_fields::<M>(message, one, depth) == Ok::<M::V, DecodeError>(merged));
    lemma_with_fields_join::<M>(M::empty(), fields, one, depth);
    let all = fields + one;
    assert forall|i: int| 0 <= i < all.len() implies is_field_of::<M>(#[trigger] all[i]) by {
        if i < fields.len() {
            assert(all[i] == fields[i]);
        }
    }
}

/// One more integer field, which is left out where it is zero.
pub proof fn lemma_then_integer<M: FieldMessage>(
    fields: Seq<FieldView>,
    message: M::V,
    tag: u32,
    value: u64,
    merged: M::V,
    depth: nat,
)
    requires
        reads_to::<M>(fields, message, depth),
        0 < tag < 0x1000_0000,
        M::takes_integer(tag),
        merged == if value == 0 {
            message
        } else {
            M::with_integer(message, tag, value)
        },
    ensures
        reads_to::<M>(fields + integer(tag, value), merged, depth),
{
    if value == 0 {
        assert(fields + integer(tag, value) =~= fields);
    } else {
        lemma_then::<M>(fields, message, FieldView::Integer(tag, value), merged, depth);
    }
}

/// One more byte-string field, which is left out where it is empty.
pub proof fn lemma_then_bytes<M: FieldMessage>(
    fields: Seq<FieldView>,
    message: M::V,
    tag: u32,
    bytes: Seq<u8>,
    merged: M::V,
    depth: nat,
)
    requires
        reads_to::<M>(fields, message, depth),
        is_field_of::<M>(FieldView::Bytes(tag, bytes)),
        if bytes.len() == 0 {
            merged == message
        } else {
            M::with_bytes(message, tag, bytes, depth) == Ok::<M::V, DecodeError>(merged)
        },
    ensures
        reads_to::<M>(fields + byte_string(tag, bytes), merged, depth),
{
    if bytes.len() == 0 {
        assert(fields + byte_string(tag, bytes) =~= fields);
    } else {
        lemma_then::<M>(fields, message, FieldView::Bytes(tag, bytes), merged, depth);
    }
}

/// Reading the bytes of a message gives what reading its fields gives.
pub proof fn lemma_message_round_trip<M: FieldMessage>(message: M::V, depth: nat)
    requires
        reads_to::<M>(M::fields(message), message, depth),
    ensures
        with_fields_from::<M>(M::empty(), message_bytes::<M>(message), 0, depth) == Ok::<
            M::V,
            DecodeError,
        >(message),
{
    let s = message_bytes::<M>(message);
    assert(s.subrange(0, s.len() as int) =~= s);
    lemma_fields_at::<M>(M::empty(), s, 0, M::fields(message), depth);
}

/// The message once the bytes of a message in another are merged into it.
pub open spec fn with_part<M: WireMessage>(message: M::V, bytes: Seq<u8>, depth: nat) -> Result<
    M::V,
    DecodeError,
> {
    if depth == 0 {
        Err(DecodeError::RecursionLimit)
    } else {
        with_fields_from::<M>(message, bytes, 0, (depth - 1) as nat)
    }
}

/// Merges the bytes of a message in another into it.
pub fn merge_part<M: WireMessage>(message: &mut M, bytes: &[u8], depth: u32) -> (result: Result<
    (),
    DecodeError,
>)
    ensures
        match (result, with_part::<M>(old(message)@, bytes@, depth as nat)) {
            (Ok(()), Ok(merged)) => final(message)@ == merged,
            (Err(a), Err(b)) => a == b,
            _ => false,
        },
{
    if depth == 0 {
        Err(DecodeError::RecursionLimit)
    } else {
        merge_fields(message, bytes, depth - 1)
    }
}

} // verus!
