//! The wire format of the protocol: keyed fields, variable-length integers and length-delimited
//! byte strings.

use vstd::prelude::*;

verus! {

/// Why a byte string is not a message.
#[derive(Debug, Clone, Copy, PartialEq, Eq, Structural)]
pub enum DecodeError {
    /// A variable-length integer is cut off, too long, or does not fit 64 bits.
    InvalidVarint,
    /// A field key does not fit 32 bits.
    InvalidKey,
    /// A field key names a wire type that does not exist.
    InvalidWireType,
    /// A field key names the tag zero.
    InvalidTag,
    /// A field that the message knows comes with another wire type.
    WireTypeMismatch,
    /// A value reaches past the end of the bytes.
    BufferUnderflow,
    /// A group ends that did not begin.
    UnexpectedEndGroup,
    /// Groups are nested too deep.
    RecursionLimit,
    /// A text is not valid UTF-8.
    InvalidUtf8,
}

/// Wire type of variable-length integers.
pub const VARINT: u8 = 0;

/// Wire type of eight-byte values.
pub const SIXTY_FOUR_BIT: u8 = 1;

/// Wire type of length-delimited byte strings.
pub const LENGTH_DELIMITED: u8 = 2;

/// Wire type that begins a group.
pub const START_GROUP: u8 = 3;

/// Wire type that ends a group.
pub const END_GROUP: u8 = 4;

/// Wire type of four-byte values.
pub const THIRTY_TWO_BIT: u8 = 5;

/// How deep groups and messages may nest.
pub const NESTING_LIMIT: u32 = 100;

/// The bound on what the bytes of a variable-length integer from the `i`th on can spell.
pub open spec fn varint_bound(i: nat) -> nat
    decreases 10 - i,
{
    if i >= 9 {
        2
    } else {
        128 * varint_bound(i + 1)
    }
}

/// The integer whose bytes from the `i`th on begin at `pos`, and where it ends. Each byte gives
/// seven bits, the lowest first, and all but the last have the top bit set; ten bytes at most,
/// of which the tenth holds one bit.
pub open spec fn varint_from(s: Seq<u8>, pos: int, i: nat) -> Result<(nat, int), DecodeError>
    decreases 10 - i,
{
    if i >= 10 || pos >= s.len() {
        Err(DecodeError::InvalidVarint)
    } else if s[pos] < 128 {
        if i == 9 && s[pos] >= 2 {
            Err(DecodeError::InvalidVarint)
        } else {
            Ok((s[pos] as nat, pos + 1))
        }
    } else {
        match varint_from(s, pos + 1, i + 1) {
            Ok((high, end)) => Ok(((s[pos] - 128 + 128 * high) as nat, end)),
            Err(error) => Err(error),
        }
    }
}

/// The integer that begins at `pos`, and where it ends.
pub open spec fn varint_at(s: Seq<u8>, pos: int) -> Result<(nat, int), DecodeError> {
    varint_from(s, pos, 0)
}

/// The bytes of an integer.
pub open spec fn varint_bytes(value: nat) -> Seq<u8>
    decreases value,
{
    if value < 128 {
        seq![value as u8]
    } else {
        seq![(128 + value % 128) as u8] + varint_bytes(value / 128)
    }
}

/// Whether `part` lies in `s` at `pos`.
pub open spec fn lies_at(s: Seq<u8>, pos: int, part: Seq<u8>) -> bool {
    &&& 0 <= pos
    &&& pos + part.len() <= s.len()
    &&& s.subrange(pos, pos + part.len()) == part
}

proof fn lemma_varint_bound(i: nat)
    ensures
        varint_bound(i) <= varint_bound(0),
        varint_bound(0) == 0x1_0000_0000_0000_0000,
        varint_bound(i) >= 2,
{
    reveal_with_fuel(varint_bound, 11);
}

/// What an integer spells keeps to its bound, and it ends past its beginning, within the bytes.
pub proof fn lemma_varint_from(s: Seq<u8>, pos: int, i: nat)
    ensures
        varint_from(s, pos, i) matches Ok((value, end)) ==> {
            &&& value < varint_bound(i)
            &&& pos < end <= s.len()
        },
    decreases 10 - i,
{
    if i < 10 && pos < s.len() {
        lemma_varint_bound(i);
        if s[pos] >= 128 {
            lemma_varint_from(s, pos + 1, i + 1);
        } else if i < 9 {
            lemma_varint_bound((i + 1) as nat);
        }
    }
}

/// What [`lemma_varint_from`] says of a whole integer.
pub proof fn lemma_varint_at(s: Seq<u8>, pos: int)
    ensures
        varint_at(s, pos) matches Ok((value, end)) ==> {
            &&& value <= u64::MAX
            &&& pos < end <= s.len()
        },
{
    lemma_varint_from(s, pos, 0);
    lemma_varint_bound(0);
}

proof fn lemma_varint_bytes_from(s: Seq<u8>, pos: int, value: nat, i: nat)
    requires
        i < 10,
        value < varint_bound(i),
        lies_at(s, pos, varint_bytes(value)),
    ensures
        varint_from(s, pos, i) == Ok::<(nat, int), DecodeError>(
            (value, pos + varint_bytes(value).len()),
        ),
    decreases value,
{
    let bytes = varint_bytes(value);
    assert(bytes.len() > 0);
    assert(s[pos] == s.subrange(pos, pos + bytes.len())[0]);
    if value >= 128 {
        let rest = varint_bytes(value / 128);
        assert(i < 9);
        let tail = s.subrange(pos + 1, pos + 1 + rest.len());
        assert forall|j: int| 0 <= j < rest.len() implies #[trigger] tail[j] == rest[j] by {
            assert(s.subrange(pos, pos + bytes.len())[j + 1] == bytes[j + 1]);
        }
        assert(tail =~= rest);
        lemma_varint_bytes_from(s, pos + 1, value / 128, i + 1);
    }
}

/// Reading an integer where its bytes lie gives it back.
pub proof fn lemma_varint_round_trip(s: Seq<u8>, pos: int, value: nat)
    requires
        value <= u64::MAX,
        lies_at(s, pos, varint_bytes(value)),
    ensures
        varint_at(s, pos) == Ok::<(nat, int), DecodeError>(
            (value, pos + varint_bytes(value).len()),
        ),
{
    lemma_varint_bound(0);
    lemma_varint_bytes_from(s, pos, value, 0);
}

fn read_varint_from(data: &[u8], pos: usize, i: u8) -> (result: Result<(u64, usize), DecodeError>)
    requires
        pos <= data@.len(),
    ensures
        match (result, varint_from(data@, pos as int, i as nat)) {
            (Ok((value, end)), Ok((v, e))) => value == v && end == e,
            (Err(a), Err(b)) => a == b,
            _ => false,
        },
    decreases 10 - i,
{
    if i >= 10 || pos >= data.len() {
        return Err(DecodeError::InvalidVarint);
    }
    let byte: u8 = data[pos];
    if byte < 128 {
        if i == 9 && byte >= 2 {
            Err(DecodeError::InvalidVarint)
        } else {
            Ok((byte as u64, pos + 1))
        }
    } else {
        proof {
            lemma_varint_from(data@, pos as int, i as nat);
            lemma_varint_bound(i as nat);
        }
        match read_varint_from(data, pos + 1, i + 1) {
            Ok((high, end)) => Ok(((byte - 128) as u64 + 128 * high, end)),
            Err(error) => Err(error),
        }
    }
}

/// Reads the integer at `pos`, and says where it ends.
pub fn read_varint(data: &[u8], pos: usize) -> (result: Result<(u64, usize), DecodeError>)
    requires
        pos <= data@.len(),
    ensures
        match (result, varint_at(data@, pos as int)) {
            (Ok((value, end)), Ok((v, e))) => value == v && end == e && pos < end <= data@.len(),
            (Err(a), Err(b)) => a == b,
            _ => false,
        },
{
    proof {
        lemma_varint_at(data@, pos as int);
    }
    read_varint_from(data, pos, 0)
}

/// Appends the bytes of an integer.
pub fn write_varint(out: &mut Vec<u8>, value: u64)
    ensures
        final(out)@ == old(out)@ + varint_bytes(value as nat),
{
    let mut rest: u64 = value;
    while rest >= 128
        invariant
            out@ + varint_bytes(rest as nat) == old(out)@ + varint_bytes(value as nat),
        decreases rest,
    {
        let ghost before = out@;
        out.push((128 + rest % 128) as u8);
        proof {
            assert(varint_bytes(rest as nat) =~= seq![(128 + rest % 128) as u8] + varint_bytes(
                (rest / 128) as nat,
            ));
            assert(out@ + varint_bytes((rest / 128) as nat) =~= before + varint_bytes(rest as nat));
        }
        rest = rest / 128;
    }
    let ghost before = out@;
    out.push(rest as u8);
    assert(out@ =~= before + varint_bytes(rest as nat));
}

/// The tag and the wire type of the field whose key begins at `pos`, and where the key ends.
pub open spec fn key_at(s: Seq<u8>, pos: int) -> Result<(u32, u8, int), DecodeError> {
    match varint_at(s, pos) {
        Err(error) => Err(error),
        Ok((key, end)) => if key > u32::MAX {
            Err(DecodeError::InvalidKey)
        } else if key % 8 > 5 {
            Err(DecodeError::InvalidWireType)
        } else if key / 8 == 0 {
            Err(DecodeError::InvalidTag)
        } else {
            Ok(((key / 8) as u32, (key % 8) as u8, end))
        },
    }
}

/// Reads the field key at `pos`.
pub fn read_key(data: &[u8], pos: usize) -> (result: Result<(u32, u8, usize), DecodeError>)
    requires
        pos <= data@.len(),
    ensures
        match (result, key_at(data@, pos as int)) {
            (Ok((tag, wire_type, end)), Ok((t, w, e))) => {
                &&& tag == t && wire_type == w && end == e
                &&& pos < end <= data@.len()
            },
            (Err(a), Err(b)) => a == b,
            _ => false,
        },
{
    let (key, end) = match read_varint(data, pos) {
        Ok(read) => read,
        Err(error) => {
            return Err(error);
        },
    };
    if key > 0xffff_ffff {
        Err(DecodeError::InvalidKey)
    } else if key % 8 > 5 {
        Err(DecodeError::InvalidWireType)
    } else if key / 8 == 0 {
        Err(DecodeError::InvalidTag)
    } else {
        Ok(((key / 8) as u32, (key % 8) as u8, end))
    }
}

/// The value of an integer field with wire type `wire_type` that begins at `pos`, and its end.
pub open spec fn u64_field_at(s: Seq<u8>, pos: int, wire_type: u8) -> Result<
    (u64, int),
    DecodeError,
> {
    if wire_type != VARINT {
        Err(DecodeError::WireTypeMismatch)
    } else {
        match varint_at(s, pos) {
            Ok((value, end)) => Ok((value as u64, end)),
            Err(error) => Err(error),
        }
    }
}

/// Reads the value of an integer field.
pub fn read_u64_field(data: &[u8], pos: usize, wire_type: u8) -> (result: Result<
    (u64, usize),
    DecodeError,
>)
    requires
        pos <= data@.len(),
    ensures
        match (result, u64_field_at(data@, pos as int, wire_type)) {
            (Ok((value, end)), Ok((v, e))) => value == v && end == e && pos < end <= data@.len(),
            (Err(a), Err(b)) => a == b,
            _ => false,
        },
{
    if wire_type != VARINT {
        Err(DecodeError::WireTypeMismatch)
    } else {
        read_varint(data, pos)
    }
}

/// The value of a byte-string field with wire type `wire_type` that begins at `pos`, and its end.
pub open spec fn bytes_field_at(s: Seq<u8>, pos: int, wire_type: u8) -> Result<
    (Seq<u8>, int),
    DecodeError,
> {
    if wire_type != LENGTH_DELIMITED {
        Err(DecodeError::WireTypeMismatch)
    } else {
        match varint_at(s, pos) {
            Ok((len, start)) => if start + len > s.len() {
                Err(DecodeError::BufferUnderflow)
            } else {
                Ok((s.subrange(start, start + len), start + len))
            },
            Err(error) => Err(error),
        }
    }
}

/// Reads where the value of a byte-string field begins and ends.
pub fn read_bytes_field(data: &[u8], pos: usize, wire_type: u8) -> (result: Result<
    (usize, usize),
    DecodeError,
>)
    requires
        pos <= data@.len(),
    ensures
        match (result, bytes_field_at(data@, pos as int, wire_type)) {
            (Ok((start, end)), Ok((value, e))) => {
                &&& pos < start <= end <= data@.len()
                &&& end == e
                &&& value == data@.subrange(start as int, end as int)
            },
            (Err(a), Err(b)) => a == b,
            _ => false,
        },
{
    if wire_type != LENGTH_DELIMITED {
        return Err(DecodeError::WireTypeMismatch);
    }
    let (len, start) = match read_varint(data, pos) {
        Ok(read) => read,
        Err(error) => {
            return Err(error);
        },
    };
    if len > (data.len() - start) as u64 {
        Err(DecodeError::BufferUnderflow)
    } else {
        Ok((start, start + len as usize))
    }
}

/// Where a value of a field that the message does not know ends. A group is skipped with all
/// that it holds, down to `depth` levels.
pub open spec fn skipped_at(s: Seq<u8>, pos: int, tag: u32, wire_type: u8, depth: nat) -> Result<
    int,
    DecodeError,
>
    decreases depth, s.len() - pos, 1int,
{
    if depth == 0 {
        Err(DecodeError::RecursionLimit)
    } else if wire_type == VARINT {
        match varint_at(s, pos) {
            Ok((_, end)) => Ok(end),
            Err(error) => Err(error),
        }
    } else if wire_type == SIXTY_FOUR_BIT {
        if pos + 8 > s.len() {
            Err(DecodeError::BufferUnderflow)
        } else {
            Ok(pos + 8)
        }
    } else if wire_type == LENGTH_DELIMITED {
        match bytes_field_at(s, pos, wire_type) {
            Ok((_, end)) => Ok(end),
            Err(error) => Err(error),
        }
    } else if wire_type == START_GROUP {
        group_end_at(s, pos, tag, depth)
    } else if wire_type == THIRTY_TWO_BIT {
        if pos + 4 > s.len() {
            Err(DecodeError::BufferUnderflow)
        } else {
            Ok(pos + 4)
        }
    } else {
        Err(DecodeError::UnexpectedEndGroup)
    }
}

/// Where the group with the given tag ends whose remaining fields begin at `pos`. (Reading a
/// field always makes progress, so the case that it does not is there for termination alone.)
pub open spec fn group_end_at(s: Seq<u8>, pos: int, tag: u32, depth: nat) -> Result<
    int,
    DecodeError,
>
    decreases depth, s.len() - pos, 0int,
{
    match key_at(s, pos) {
        Err(error) => Err(error),
        Ok((inner_tag, inner_type, value)) => if inner_type == END_GROUP {
            if inner_tag == tag {
                Ok(value)
            } else {
                Err(DecodeError::UnexpectedEndGroup)
            }
        } else if depth == 0 {
            Err(DecodeError::RecursionLimit)
        } else {
            match skipped_at(s, value, inner_tag, inner_type, (depth - 1) as nat) {
                Err(error) => Err(error),
                Ok(next) => if pos < next <= s.len() {
                    group_end_at(s, next, tag, depth)
                } else {
                    Err(DecodeError::BufferUnderflow)
                },
            }
        },
    }
}

/// Skips the value of a field that the message does not know.
pub fn skip_field(data: &[u8], pos: usize, tag: u32, wire_type: u8, depth: u32) -> (result: Result<
    usize,
    DecodeError,
>)
    requires
        pos <= data@.len(),
    ensures
        match (result, skipped_at(data@, pos as int, tag, wire_type, depth as nat)) {
            (Ok(end), Ok(e)) => end == e && pos <= end <= data@.len(),
            (Err(a), Err(b)) => a == b,
            _ => false,
        },
    decreases depth,
{
    if depth == 0 {
        return Err(DecodeError::RecursionLimit);
    }
    if wire_type == VARINT {
        match read_varint(data, pos) {
            Ok((_, end)) => Ok(end),
            Err(error) => Err(error),
        }
    } else if wire_type == SIXTY_FOUR_BIT {
        if data.len() - pos < 8 {
            Err(DecodeError::BufferUnderflow)
        } else {
            Ok(pos + 8)
        }
    } else if wire_type == LENGTH_DELIMITED {
        match read_bytes_field(data, pos, wire_type) {
            Ok((_, end)) => Ok(end),
            Err(error) => Err(error),
        }
    } else if wire_type == START_GROUP {
        let mut at: usize = pos;
        loop
            invariant
                depth > 0,
                pos <= at <= data@.len(),
                group_end_at(data@, pos as int, tag, depth as nat) == group_end_at(
                    data@,
                    at as int,
                    tag,
                    depth as nat,
                ),
                skipped_at(data@, pos as int, tag, wire_type, depth as nat) == group_end_at(
                    data@,
                    pos as int,
                    tag,
                    depth as nat,
                ),
            decreases data@.len() - at,
        {
            let (inner_tag, inner_type, value) = match read_key(data, at) {
                Ok(read) => read,
                Err(error) => {
                    return Err(error);
                },
            };
            if inner_type == END_GROUP {
                if inner_tag == tag {
                    return Ok(value);
                } else {
                    return Err(DecodeError::UnexpectedEndGroup);
                }
            }
            at = match skip_field(data, value, inner_tag, inner_type, depth - 1) {
                Ok(next) => next,
                Err(error) => {
                    return Err(error);
                },
            };
        }
    } else if wire_type == THIRTY_TWO_BIT {
        if data.len() - pos < 4 {
            Err(DecodeError::BufferUnderflow)
        } else {
            Ok(pos + 4)
        }
    } else {
        Err(DecodeError::UnexpectedEndGroup)
    }
}

/// A message that is read from the wire field by field.
pub trait WireMessage: View + Sized {
    /// The message of which no field was read.
    spec fn unset() -> Self::V;

    /// The message once the value of one more field, which begins at `pos`, is merged into it,
    /// and where that value ends.
    spec fn with_field_at(
        message: Self::V,
        s: Seq<u8>,
        pos: int,
        tag: u32,
        wire_type: u8,
        depth: nat,
    ) -> Result<(Self::V, int), DecodeError>;

    /// The message of which no field was read.
    fn new_unset() -> (message: Self)
        ensures
            message@ == Self::unset(),
    ;

    /// Merges the value of one field, which begins at `pos`, and says where it ends.
    fn merge_field(
        &mut self,
        data: &[u8],
        pos: usize,
        tag: u32,
        wire_type: u8,
        depth: u32,
    ) -> (result: Result<usize, DecodeError>)
        requires
            pos <= data@.len(),
        ensures
            match (
                result,
                Self::with_field_at(old(self)@, data@, pos as int, tag, wire_type, depth as nat),
            ) {
                (Ok(end), Ok((message, e))) => {
                    &&& final(self)@ == message
                    &&& end == e
                    &&& pos <= end <= data@.len()
                },
                (Err(a), Err(b)) => a == b,
                _ => false,
            },
    ;
}

/// The message once all fields from `pos` on are merged into it. (Reading a field always makes
/// progress, so the case that it does not is there for termination alone.)
pub open spec fn with_fields_from<M: WireMessage>(
    message: M::V,
    s: Seq<u8>,
    pos: int,
    depth: nat,
) -> Result<M::V, DecodeError>
    decreases s.len() - pos,
{
    if pos >= s.len() {
        Ok(message)
    } else {
        match key_at(s, pos) {
            Err(error) => Err(error),
            Ok((tag, wire_type, value)) => match M::with_field_at(
                message,
                s,
                value,
                tag,
                wire_type,
                depth,
            ) {
                Err(error) => Err(error),
                Ok((merged, next)) => if pos < next <= s.len() {
                    with_fields_from::<M>(merged, s, next, depth)
                } else {
                    Err(DecodeError::BufferUnderflow)
                },
            },
        }
    }
}

/// The message that a byte string spells.
pub open spec fn decoded<M: WireMessage>(s: Seq<u8>) -> Result<M::V, DecodeError> {
    with_fields_from::<M>(M::unset(), s, 0, NESTING_LIMIT as nat)
}

/// Merges all fields of `data` into a message.
pub fn merge_fields<M: WireMessage>(message: &mut M, data: &[u8], depth: u32) -> (result: Result<
    (),
    DecodeError,
>)
    ensures
        match (result, with_fields_from::<M>(old(message)@, data@, 0, depth as nat)) {
            (Ok(()), Ok(merged)) => final(message)@ == merged,
            (Err(a), Err(b)) => a == b,
            _ => false,
        },
{
    let mut pos: usize = 0;
    while pos < data.len()
        invariant
            pos <= data@.len(),
            with_fields_from::<M>(old(message)@, data@, 0, depth as nat) == with_fields_from::<M>(
                message@,
                data@,
                pos as int,
                depth as nat,
            ),
        decreases data@.len() - pos,
    {
        let (tag, wire_type, value) = match read_key(data, pos) {
            Ok(read) => read,
            Err(error) => {
                return Err(error);
            },
        };
        pos = match message.merge_field(data, value, tag, wire_type, depth) {
            Ok(next) => next,
            Err(error) => {
                return Err(error);
            },
        };
    }
    Ok(())
}

/// Reads a message.
pub fn decode<M: WireMessage>(data: &[u8]) -> (result: Result<M, DecodeError>)
    ensures
        match (result, decoded::<M>(data@)) {
            (Ok(message), Ok(m)) => message@ == m,
            (Err(a), Err(b)) => a == b,
            _ => false,
        },
{
    let mut message = M::new_unset();
    match merge_fields(&mut message, data, NESTING_LIMIT) {
        Ok(()) => Ok(message),
        Err(error) => Err(error),
    }
}

/// The bytes of a field key.
pub open spec fn key_bytes(tag: u32, wire_type: u8) -> Seq<u8> {
    varint_bytes((tag * 8 + wire_type) as nat)
}

/// The bytes of an integer field that is there.
pub open spec fn some_u64_field_bytes(tag: u32, value: u64) -> Seq<u8> {
    key_bytes(tag, VARINT) + varint_bytes(value as nat)
}

/// The bytes of an integer field, which is left out where it is zero.
pub open spec fn u64_field_bytes(tag: u32, value: u64) -> Seq<u8> {
    if value == 0 {
        seq![]
    } else {
        some_u64_field_bytes(tag, value)
    }
}

/// The bytes of a byte-string field that is there.
pub open spec fn some_bytes_field_bytes(tag: u32, value: Seq<u8>) -> Seq<u8> {
    key_bytes(tag, LENGTH_DELIMITED) + varint_bytes(value.len()) + value
}

/// The bytes of a byte-string field, which is left out where it is empty.
pub open spec fn bytes_field_bytes(tag: u32, value: Seq<u8>) -> Seq<u8> {
    if value.len() == 0 {
        seq![]
    } else {
        some_bytes_field_bytes(tag, value)
    }
}

/// The bytes of an optional byte-string field.
pub open spec fn optional_bytes_field_bytes(tag: u32, value: Option<Seq<u8>>) -> Seq<u8> {
    match value {
        Some(bytes) => some_bytes_field_bytes(tag, bytes),
        None => seq![],
    }
}

/// Parts can be joined from either side.
pub proof fn lemma_join(a: Seq<u8>, b: Seq<u8>, c: Seq<u8>)
    ensures
        (a + b) + c == a + (b + c),
{
    assert((a + b) + c =~= a + (b + c));
}

fn write_key(out: &mut Vec<u8>, tag: u32, wire_type: u8)
    ensures
        final(out)@ == old(out)@ + key_bytes(tag, wire_type),
{
    write_varint(out, tag as u64 * 8 + wire_type as u64);
}

/// Appends an integer field that is there.
pub fn write_some_u64_field(out: &mut Vec<u8>, tag: u32, value: u64)
    ensures
        final(out)@ == old(out)@ + some_u64_field_bytes(tag, value),
{
    write_key(out, tag, VARINT);
    write_varint(out, value);
    assert(out@ =~= old(out)@ + some_u64_field_bytes(tag, value));
}

/// Appends an integer field.
pub fn write_u64_field(out: &mut Vec<u8>, tag: u32, value: u64)
    ensures
        final(out)@ == old(out)@ + u64_field_bytes(tag, value),
{
    if value != 0 {
        write_some_u64_field(out, tag, value);
    }
    assert(out@ =~= old(out)@ + u64_field_bytes(tag, value));
}

/// Appends bytes.
pub fn append(out: &mut Vec<u8>, bytes: &[u8])
    ensures
        final(out)@ == old(out)@ + bytes@,
{
    let mut i: usize = 0;
    while i < bytes.len()
        invariant
            i <= bytes@.len(),
            out@ == old(out)@ + bytes@.subrange(0, i as int),
        decreases bytes@.len() - i,
    {
        out.push(bytes[i]);
        i += 1;
        assert(out@ =~= old(out)@ + bytes@.subrange(0, i as int));
    }
    assert(bytes@.subrange(0, i as int) =~= bytes@);
}

/// Appends a byte-string field that is there.
pub fn write_some_bytes_field(out: &mut Vec<u8>, tag: u32, value: &[u8])
    ensures
        final(out)@ == old(out)@ + some_bytes_field_bytes(tag, value@),
{
    write_key(out, tag, LENGTH_DELIMITED);
    write_varint(out, value.len() as u64);
    append(out, value);
    assert(out@ =~= old(out)@ + some_bytes_field_bytes(tag, value@));
}

/// Appends a byte-string field.
pub fn write_bytes_field(out: &mut Vec<u8>, tag: u32, value: &[u8])
    ensures
        final(out)@ == old(out)@ + bytes_field_bytes(tag, value@),
{
    if value.len() != 0 {
        write_some_bytes_field(out, tag, value);
    }
    assert(out@ =~= old(out)@ + bytes_field_bytes(tag, value@));
}

/// Where two parts lie one after the other, each lies in its place.
pub proof fn lemma_lies_at_front(s: Seq<u8>, pos: int, a: Seq<u8>, b: Seq<u8>)
    requires
        lies_at(s, pos, a + b),
    ensures
        lies_at(s, pos, a),
        lies_at(s, pos + a.len(), b),
{
    let whole = s.subrange(pos, pos + a.len() + b.len());
    assert(whole == a + b);
    assert(s.subrange(pos, pos + a.len()) =~= a) by {
        assert forall|j: int| 0 <= j < a.len() implies #[trigger] s.subrange(pos, pos + a.len())[j]
            == a[j] by {
            assert(whole[j] == (a + b)[j]);
        }
    }
    assert(s.subrange(pos + a.len(), pos + a.len() + b.len()) =~= b) by {
        assert forall|j: int| 0 <= j < b.len() implies #[trigger] s.subrange(
            pos + a.len(),
            pos + a.len() + b.len(),
        )[j] == b[j] by {
            assert(whole[a.len() + j] == (a + b)[a.len() + j]);
        }
    }
}

/// Reading a key where its bytes lie gives it back.
pub proof fn lemma_key_round_trip(s: Seq<u8>, pos: int, tag: u32, wire_type: u8)
    requires
        0 < tag < 0x1000_0000,
        wire_type <= 5,
        lies_at(s, pos, key_bytes(tag, wire_type)),
    ensures
        key_at(s, pos) == Ok::<(u32, u8, int), DecodeError>(
            (tag, wire_type, pos + key_bytes(tag, wire_type).len()),
        ),
        key_bytes(tag, wire_type).len() > 0,
{
    lemma_varint_round_trip(s, pos, (tag * 8 + wire_type) as nat);
}

/// Reading an integer field that is there where its bytes lie gives its key, and behind it its
/// value.
pub proof fn lemma_some_u64_field_round_trip(s: Seq<u8>, pos: int, tag: u32, value: u64)
    requires
        0 < tag < 0x1000_0000,
        lies_at(s, pos, some_u64_field_bytes(tag, value)),
    ensures
        ({
            let after = pos + key_bytes(tag, VARINT).len();
            let end = pos + some_u64_field_bytes(tag, value).len();
            &&& pos < after < end <= s.len()
            &&& key_at(s, pos) == Ok::<(u32, u8, int), DecodeError>((tag, VARINT, after))
            &&& u64_field_at(s, after, VARINT) == Ok::<(u64, int), DecodeError>((value, end))
        }),
{
    let after = pos + key_bytes(tag, VARINT).len();
    lemma_lies_at_front(s, pos, key_bytes(tag, VARINT), varint_bytes(value as nat));
    lemma_key_round_trip(s, pos, tag, VARINT);
    lemma_varint_round_trip(s, after, value as nat);
    lemma_varint_at(s, after);
}

/// What [`lemma_some_u64_field_round_trip`] says of a field that is left out where it is zero.
pub proof fn lemma_u64_field_round_trip(s: Seq<u8>, pos: int, tag: u32, value: u64)
    requires
        0 < tag < 0x1000_0000,
        value != 0,
        lies_at(s, pos, u64_field_bytes(tag, value)),
    ensures
        ({
            let after = pos + key_bytes(tag, VARINT).len();
            let end = pos + u64_field_bytes(tag, value).len();
            &&& pos < after < end <= s.len()
            &&& key_at(s, pos) == Ok::<(u32, u8, int), DecodeError>((tag, VARINT, after))
            &&& u64_field_at(s, after, VARINT) == Ok::<(u64, int), DecodeError>((value, end))
        }),
{
    lemma_some_u64_field_round_trip(s, pos, tag, value);
}

/// Reading a byte-string field where its bytes lie gives its key, and behind it its value.
pub proof fn lemma_bytes_field_round_trip(s: Seq<u8>, pos: int, tag: u32, value: Seq<u8>)
    requires
        0 < tag < 0x1000_0000,
        value.len() <= u64::MAX,
        lies_at(s, pos, some_bytes_field_bytes(tag, value)),
    ensures
        ({
            let after = pos + key_bytes(tag, LENGTH_DELIMITED).len();
            let end = pos + some_bytes_field_bytes(tag, value).len();
            &&& pos < after < end <= s.len()
            &&& key_at(s, pos) == Ok::<(u32, u8, int), DecodeError>((tag, LENGTH_DELIMITED, after))
            &&& bytes_field_at(s, after, LENGTH_DELIMITED) == Ok::<(Seq<u8>, int), DecodeError>(
                (value, end),
            )
        }),
{
    let key = key_bytes(tag, LENGTH_DELIMITED);
    let after = pos + key.len();
    let len = varint_bytes(value.len());
    assert(key + len + value =~= key + (len + value));
    lemma_lies_at_front(s, pos, key, len + value);
    lemma_lies_at_front(s, after, len, value);
    lemma_key_round_trip(s, pos, tag, LENGTH_DELIMITED);
    lemma_varint_round_trip(s, after, value.len());
    lemma_varint_at(s, after);
}

} // verus!
