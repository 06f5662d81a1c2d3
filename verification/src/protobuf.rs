//! Messages of numbered fields: varints, length-delimited bytes and fixed-width numbers.

use vstd::prelude::*;
use crate::error::VncError;
use crate::wire::push_bytes;

verus! {

/// The largest field number.
pub const PROTOBUF_MAX_FIELD_NUMBER: u64 = 0x1fff_ffff;

/// The wire type of varints.
pub const PROTOBUF_VARINT_WIRE_TYPE: u64 = 0;

/// The wire type of eight bytes.
pub const PROTOBUF_FIXED64_WIRE_TYPE: u64 = 1;

/// The wire type of bytes behind their length.
pub const PROTOBUF_LENGTH_DELIMITED_WIRE_TYPE: u64 = 2;

/// The wire type of four bytes.
pub const PROTOBUF_FIXED32_WIRE_TYPE: u64 = 5;

/// The shortest encoding of a number: seven bits to a byte, the lowest first, all bytes but the
/// last marked.
pub open spec fn varint_bytes(value: nat) -> Seq<u8>
    decreases value,
{
    if value < 128 {
        seq![value as u8]
    } else {
        seq![(value % 128 + 128) as u8] + varint_bytes(value / 128)
    }
}

/// Appends a number.
pub fn append_protobuf_varint(value: u64, destination: &mut Vec<u8>)
    ensures
        final(destination)@ == old(destination)@ + varint_bytes(value as nat),
{
    let mut left: u64 = value;
    while left >= 128
        invariant
            destination@ + varint_bytes(left as nat) == old(destination)@ + varint_bytes(
                value as nat,
            ),
        decreases left,
    {
        let ghost before = destination@;
        let ghost octet = (left % 128 + 128) as u8;
        destination.push((left % 128 + 128) as u8);
        proof {
            assert(before.push(octet) + varint_bytes((left / 128) as nat) =~= before + (seq![octet]
                + varint_bytes((left / 128) as nat)));
        }
        left = left / 128;
    }
    let ghost before = destination@;
    destination.push(left as u8);
    assert(before + seq![left as u8] =~= destination@);
}

/// How many values the octets from the `k`-th on can give.
pub open spec fn varint_room(k: int) -> nat
    decreases 10 - k,
{
    if k >= 9 {
        2
    } else {
        128 * varint_room(k + 1)
    }
}

/// The value of the octets of `s` from the `k`-th on, and the place behind the last of them.
pub open spec fn octets_from(s: Seq<u8>, k: int) -> Result<(nat, int), VncError>
    decreases 10 - k,
{
    if k >= s.len() {
        Err(VncError::Text("protobuf varint 截断"))
    } else if k >= 9 && s[k] > 1 {
        Err(VncError::Text("protobuf varint 超过 u64"))
    } else if s[k] < 128 {
        Ok((s[k] as nat, k + 1))
    } else {
        match octets_from(s, k + 1) {
            Err(e) => Err(e),
            Ok((high, end)) => Ok(((s[k] - 128) as nat + 128 * high, end)),
        }
    }
}

/// The number at the front of `s`, and how many octets it takes. Only the shortest encoding
/// counts.
pub open spec fn varint_of(s: Seq<u8>) -> Result<(u64, int), VncError> {
    match octets_from(s, 0) {
        Err(e) => Err(e),
        Ok((value, end)) => if s.take(end) != varint_bytes(value) {
            Err(VncError::Text("protobuf varint 不是最短编码"))
        } else {
            Ok((value as u64, end))
        },
    }
}

/// The octets that are read are there, and their value is within the room.
proof fn lemma_octets_bound(s: Seq<u8>, k: int)
    requires
        0 <= k <= 9,
    ensures
        octets_from(s, k) matches Ok((value, end)) ==> k < end <= s.len() && end <= 10 && value
            < varint_room(k),
    decreases 10 - k,
{
    if k < 9 && k < s.len() && s[k] >= 128 {
        lemma_octets_bound(s, k + 1);
    } else {
        lemma_room_positive(k);
    }
}

/// There is room for any octet.
proof fn lemma_room_positive(k: int)
    requires
        0 <= k <= 9,
    ensures
        varint_room(k) >= 2,
        k < 9 ==> varint_room(k) >= 128,
    decreases 10 - k,
{
    if k < 9 {
        lemma_room_positive(k + 1);
    }
}

/// The room of all octets is that of a number.
proof fn lemma_room()
    ensures
        varint_room(0) == 0x1_0000_0000_0000_0000,
{
    reveal_with_fuel(varint_room, 11);
}

/// The room of fewer octets is smaller.
proof fn lemma_room_shrinks(k: int)
    requires
        0 <= k <= 9,
    ensures
        varint_room(k) <= 0x1_0000_0000_0000_0000,
    decreases k,
{
    lemma_room();
    if k > 0 {
        lemma_room_shrinks(k - 1);
        lemma_room_positive(k);
    }
}

/// A number that was written is read back, whatever stands behind it.
pub proof fn law_varint_is_read_back(value: u64, rest: Seq<u8>)
    ensures
        varint_of(varint_bytes(value as nat) + rest) == Ok::<(u64, int), VncError>(
            (value, varint_bytes(value as nat).len() as int),
        ),
{
    let s = varint_bytes(value as nat) + rest;
    lemma_room();
    assert(s.skip(0) =~= s);
    lemma_written_octets(s, 0, value as nat, rest);
    assert(s.take(varint_bytes(value as nat).len() as int) =~= varint_bytes(value as nat));
}

/// What the octets of a written number give from the `k`-th on.
proof fn lemma_written_octets(s: Seq<u8>, k: int, value: nat, rest: Seq<u8>)
    requires
        0 <= k <= 9,
        k <= s.len(),
        value < varint_room(k),
        s.skip(k) == varint_bytes(value) + rest,
    ensures
        octets_from(s, k) == Ok::<(nat, int), VncError>((value, k + varint_bytes(value).len())),
    decreases value,
{
    let b = varint_bytes(value);
    assert(b.len() > 0);
    assert(s.skip(k).len() == s.len() - k);
    assert(s.skip(k)[0] == s[k]);
    assert((b + rest)[0] == b[0]);
    if value >= 128 {
        lemma_room_positive(k);
        assert(k < 9);
        let tail = varint_bytes(value / 128);
        assert(s.skip(k + 1) =~= s.skip(k).skip(1));
        assert((b + rest).skip(1) =~= tail + rest);
        lemma_written_octets(s, k + 1, value / 128, rest);
    }
}

/// The place behind the last octet of `s` from the `k`-th on that is looked at.
pub open spec fn octets_taken(s: Seq<u8>, k: int) -> int
    decreases 10 - k,
{
    if k >= s.len() {
        k
    } else if k >= 9 || s[k] < 128 {
        k + 1
    } else {
        octets_taken(s, k + 1)
    }
}

/// The octets that are looked at are there, and those of a number are all that are.
proof fn lemma_octets_taken(s: Seq<u8>, k: int)
    requires
        0 <= k <= 9,
        k <= s.len(),
    ensures
        k <= octets_taken(s, k) <= s.len(),
        octets_from(s, k) matches Ok((_, end)) ==> octets_taken(s, k) == end,
    decreases 10 - k,
{
    if k < 9 && k < s.len() && s[k] >= 128 {
        lemma_octets_taken(s, k + 1);
    }
}

/// Reads the octets of a number from the `k`-th on: the number, and the place behind the last octet
/// that was looked at.
fn read_octets(bytes: &[u8], start: usize, k: usize) -> (r: (Result<u64, VncError>, usize))
    requires
        start + k <= bytes@.len(),
        k <= 9,
    ensures
        r.1 == octets_taken(bytes@.skip(start as int), k as int),
        start + r.1 <= bytes@.len(),
        match octets_from(bytes@.skip(start as int), k as int) {
            Ok((value, end)) => r.0 == Ok::<u64, VncError>(value as u64) && value <= u64::MAX && r.1
                == end,
            Err(e) => r.0 == Err::<u64, VncError>(e),
        },
    decreases 10 - k,
{
    let ghost s = bytes@.skip(start as int);
    proof {
        lemma_octets_bound(s, k as int);
        lemma_octets_taken(s, k as int);
        lemma_room_shrinks(k as int);
    }
    if k >= bytes.len() - start {
        return (Err(VncError::Text("protobuf varint 截断")), k);
    }
    let octet: u8 = bytes[start + k];
    assert(octet == s[k as int]);
    if k == 9 && octet > 1 {
        return (Err(VncError::Text("protobuf varint 超过 u64")), k + 1);
    }
    if octet < 128 {
        return (Ok(octet as u64), k + 1);
    }
    proof {
        lemma_octets_bound(s, k + 1);
    }
    match read_octets(bytes, start, k + 1) {
        (Ok(high), taken) => (Ok((octet - 128) as u64 + 128 * high), taken),
        (Err(e), taken) => (Err(e), taken),
    }
}

/// Whether two runs of bytes are equal.
pub fn same_bytes(a: &[u8], b: &[u8]) -> (r: bool)
    ensures
        r == (a@ == b@),
{
    if a.len() != b.len() {
        return false;
    }
    let mut i: usize = 0;
    while i < a.len()
        invariant
            i <= a@.len(),
            a@.len() == b@.len(),
            forall|k: int| 0 <= k < i ==> a@[k] == b@[k],
        decreases a@.len() - i,
    {
        if a[i] != b[i] {
            return false;
        }
        i = i + 1;
    }
    assert(a@ =~= b@);
    true
}

/// Reads the number at `position` and moves behind the octets that it looked at.
pub fn parse_protobuf_varint(bytes: &[u8], position: &mut usize) -> (r: Result<u64, VncError>)
    ensures
        *old(position) > bytes@.len() ==> r == Err::<u64, VncError>(
            VncError::Text("protobuf varint 截断"),
        ) && *final(position) == *old(position),
        *old(position) <= bytes@.len() ==> {
            &&& *final(position) == *old(position) + octets_taken(
                bytes@.skip(*old(position) as int),
                0,
            )
            &&& *final(position) <= bytes@.len()
            &&& match varint_of(bytes@.skip(*old(position) as int)) {
                Ok((value, count)) => r == Ok::<u64, VncError>(value) && *final(position) == *old(
                    position,
                ) + count,
                Err(e) => r == Err::<u64, VncError>(e),
            }
        },
{
    let start: usize = *position;
    let total: usize = bytes.len();
    if start > total {
        return Err(VncError::Text("protobuf varint 截断"));
    }
    let ghost s = bytes@.skip(start as int);
    proof {
        lemma_octets_bound(s, 0);
        lemma_octets_taken(s, 0);
    }
    let (read, count) = read_octets(bytes, start, 0);
    *position = start + count;
    let value: u64 = read?;
    let mut canonical: Vec<u8> = Vec::new();
    append_protobuf_varint(value, &mut canonical);
    assert(canonical@ =~= varint_bytes(value as nat));
    let taken = vstd::slice::slice_subrange(bytes, start, start + count);
    assert(taken@ =~= s.take(count as int));
    if !same_bytes(taken, canonical.as_slice()) {
        return Err(VncError::Text("protobuf varint 不是最短编码"));
    }
    Ok(value)
}

/// Why `s`, which stands behind `before` bytes, is no run of fields, where it is none.
pub open spec fn fields_refusal(s: Seq<u8>, before: int) -> Option<VncError>
    decreases s.len(),
{
    if s.len() == 0 {
        None
    } else {
        match varint_of(s) {
            Err(e) => Some(e),
            Ok((tag, n)) => if !(1 <= tag / 8 <= PROTOBUF_MAX_FIELD_NUMBER) {
                Some(VncError::Text("protobuf 字段编号非法"))
            } else if n <= 0 || n > s.len() {
                None
            } else {
                match value_end(s.skip(n), before + n, tag % 8) {
                    Err(e) => Some(e),
                    Ok(length) => if 0 <= length <= s.len() - n {
                        fields_refusal(s.skip(n + length), before + n + length)
                    } else {
                        None
                    },
                }
            },
        }
    }
}

/// How many bytes the value of this wire type takes at the front of `s`.
pub open spec fn value_end(s: Seq<u8>, before: int, wire_type: u64) -> Result<int, VncError> {
    if wire_type == PROTOBUF_VARINT_WIRE_TYPE {
        match varint_of(s) {
            Err(e) => Err(e),
            Ok((_, n)) => Ok(n),
        }
    } else if wire_type == PROTOBUF_FIXED64_WIRE_TYPE {
        if s.len() < 8 {
            Err(VncError::Text("protobuf fixed64 截断"))
        } else {
            Ok(8)
        }
    } else if wire_type == PROTOBUF_LENGTH_DELIMITED_WIRE_TYPE {
        match varint_of(s) {
            Err(e) => Err(e),
            Ok((length, n)) => if length > usize::MAX {
                Err(VncError::Text("protobuf 长度超过 usize"))
            } else if before + n + length > usize::MAX {
                Err(VncError::Text("protobuf length-delimited 长度溢出"))
            } else if n + length > s.len() {
                Err(VncError::Text("protobuf length-delimited 字段截断"))
            } else {
                Ok(n + length)
            },
        }
    } else if wire_type == PROTOBUF_FIXED32_WIRE_TYPE {
        if s.len() < 4 {
            Err(VncError::Text("protobuf fixed32 截断"))
        } else {
            Ok(4)
        }
    } else {
        Err(
            VncError::Number {
                before: "protobuf wire type ",
                value: wire_type,
                after: " 未被当前协议允许",
            },
        )
    }
}

/// Why a message is refused, where it is.
pub open spec fn message_refusal(bytes: Seq<u8>) -> Option<VncError> {
    if bytes.len() == 0 {
        Some(VncError::Text("协商 protobuf 为空"))
    } else {
        fields_refusal(bytes, 0)
    }
}

/// Moves behind a value.
fn skip_value(bytes: &[u8], position: &mut usize, wire_type: u64) -> (r: Result<(), VncError>)
    requires
        *old(position) <= bytes@.len(),
    ensures
        match value_end(bytes@.skip(*old(position) as int), *old(position) as int, wire_type) {
            Ok(length) => r is Ok && *final(position) == *old(position) + length && *old(position)
                <= *final(position) <= bytes@.len(),
            Err(e) => r == Err::<(), VncError>(e),
        },
{
    let start: usize = *position;
    let left: usize = bytes.len() - start;
    proof {
        lemma_octets_bound(bytes@.skip(start as int), 0);
    }
    if wire_type == PROTOBUF_VARINT_WIRE_TYPE {
        let _value: u64 = parse_protobuf_varint(bytes, position)?;
        Ok(())
    } else if wire_type == PROTOBUF_FIXED64_WIRE_TYPE {
        if left < 8 {
            return Err(VncError::Text("protobuf fixed64 截断"));
        }
        *position = start + 8;
        Ok(())
    } else if wire_type == PROTOBUF_LENGTH_DELIMITED_WIRE_TYPE {
        let length: u64 = parse_protobuf_varint(bytes, position)?;
        if length > usize::MAX as u64 {
            return Err(VncError::Text("protobuf 长度超过 usize"));
        }
        let end: usize = match position.checked_add(length as usize) {
            Some(end) => end,
            None => {
                return Err(VncError::Text("protobuf length-delimited 长度溢出"));
            },
        };
        if end > bytes.len() {
            return Err(VncError::Text("protobuf length-delimited 字段截断"));
        }
        *position = end;
        Ok(())
    } else if wire_type == PROTOBUF_FIXED32_WIRE_TYPE {
        if left < 4 {
            return Err(VncError::Text("protobuf fixed32 截断"));
        }
        *position = start + 4;
        Ok(())
    } else {
        Err(
            VncError::Number {
                before: "protobuf wire type ",
                value: wire_type,
                after: " 未被当前协议允许",
            },
        )
    }
}

/// Accepts a message that is not empty and consists of whole fields.
pub fn validate_protobuf(bytes: &[u8]) -> (r: Result<(), VncError>)
    ensures
        r == crate::error::checked(message_refusal(bytes@)),
{
    if bytes.len() == 0 {
        return Err(VncError::Text("协商 protobuf 为空"));
    }
    let mut position: usize = 0;
    let ghost goal = fields_refusal(bytes@, 0);
    assert(bytes@.skip(0) =~= bytes@);
    while position < bytes.len()
        invariant
            position <= bytes@.len(),
            bytes@.len() > 0,
            goal == fields_refusal(bytes@, 0),
            goal == fields_refusal(bytes@.skip(position as int), position as int),
        decreases bytes@.len() - position,
    {
        let ghost s = bytes@.skip(position as int);
        let ghost start = position;
        proof {
            lemma_octets_bound(s, 0);
        }
        let tag: u64 = parse_protobuf_varint(bytes, &mut position)?;
        let field_number: u64 = tag / 8;
        if field_number < 1 || field_number > PROTOBUF_MAX_FIELD_NUMBER {
            return Err(VncError::Text("protobuf 字段编号非法"));
        }
        let ghost n = position - start;
        assert(s.skip(n) =~= bytes@.skip(position as int));
        skip_value(bytes, &mut position, tag % 8)?;
        assert(s.skip(position - start) =~= bytes@.skip(position as int));
    }
    Ok(())
}

/// A field that holds a number.
pub open spec fn varint_field(field: u32, value: u64) -> Seq<u8> {
    varint_bytes((field * 8) as nat) + varint_bytes(value as nat)
}

/// A field that holds bytes.
pub open spec fn bytes_field(field: u32, value: Seq<u8>) -> Seq<u8> {
    varint_bytes((field * 8 + 2) as nat) + varint_bytes(value.len()) + value
}

/// Appends a field that holds a number.
pub fn append_protobuf_varint_field(field: u32, value: u64, destination: &mut Vec<u8>)
    ensures
        final(destination)@ == old(destination)@ + varint_field(field, value),
{
    append_protobuf_varint(field as u64 * 8, destination);
    append_protobuf_varint(value, destination);
    assert(destination@ =~= old(destination)@ + varint_field(field, value));
}

/// Appends a field that holds bytes.
pub fn append_protobuf_bytes_field(field: u32, value: &[u8], destination: &mut Vec<u8>)
    ensures
        final(destination)@ == old(destination)@ + bytes_field(field, value@),
{
    append_protobuf_varint(field as u64 * 8 + PROTOBUF_LENGTH_DELIMITED_WIRE_TYPE, destination);
    append_protobuf_varint(value.len() as u64, destination);
    push_bytes(destination, value);
    assert(destination@ =~= old(destination)@ + bytes_field(field, value@));
}

/// A field that holds a number is accepted in front of fields that are.
pub proof fn law_varint_field_is_accepted(field: u32, value: u64, rest: Seq<u8>, before: int)
    requires
        1 <= field <= PROTOBUF_MAX_FIELD_NUMBER,
    ensures
        fields_refusal(varint_field(field, value) + rest, before) == fields_refusal(
            rest,
            before + varint_field(field, value).len(),
        ),
{
    let tag = (field * 8) as u64;
    let head = varint_bytes(tag as nat);
    let body = varint_bytes(value as nat);
    let s = varint_field(field, value) + rest;
    assert(s =~= head + (body + rest));
    law_varint_is_read_back(tag, body + rest);
    law_varint_is_read_back(value, rest);
    assert(s.skip(head.len() as int) =~= body + rest);
    assert(s.skip((head.len() + body.len()) as int) =~= rest);
    lemma_varint_not_empty(tag as nat);
    lemma_varint_not_empty(value as nat);
}

/// A field that holds bytes is accepted in front of fields that are.
pub proof fn law_bytes_field_is_accepted(field: u32, value: Seq<u8>, rest: Seq<u8>, before: int)
    requires
        1 <= field <= PROTOBUF_MAX_FIELD_NUMBER,
        0 <= before,
        before + bytes_field(field, value).len() + rest.len() <= usize::MAX,
    ensures
        fields_refusal(bytes_field(field, value) + rest, before) == fields_refusal(
            rest,
            before + bytes_field(field, value).len(),
        ),
{
    let tag = (field * 8 + 2) as u64;
    let head = varint_bytes(tag as nat);
    let length = varint_bytes(value.len());
    let s = bytes_field(field, value) + rest;
    assert(s =~= head + (length + (value + rest)));
    law_varint_is_read_back(tag, length + (value + rest));
    law_varint_is_read_back(value.len() as u64, value + rest);
    assert(s.skip(head.len() as int) =~= length + (value + rest));
    assert(s.skip((head.len() + length.len() + value.len()) as int) =~= rest);
    lemma_varint_not_empty(tag as nat);
    lemma_varint_not_empty(value.len());
}

/// A number takes at least one octet.
proof fn lemma_varint_not_empty(value: nat)
    ensures
        varint_bytes(value).len() >= 1,
{
}

/// A field: its number and what it holds.
pub enum Field {
    Number(u32, u64),
    Bytes(u32, Seq<u8>),
}

/// The bytes of a field.
pub open spec fn field_bytes(f: Field) -> Seq<u8> {
    match f {
        Field::Number(field, value) => varint_field(field, value),
        Field::Bytes(field, value) => bytes_field(field, value),
    }
}

/// The number of a field.
pub open spec fn field_number(f: Field) -> u32 {
    match f {
        Field::Number(field, value) => field,
        Field::Bytes(field, value) => field,
    }
}

/// The bytes of fields, one behind the other.
pub open spec fn message(fields: Seq<Field>) -> Seq<u8>
    decreases fields.len(),
{
    if fields.len() == 0 {
        Seq::empty()
    } else {
        message(fields.drop_last()) + field_bytes(fields.last())
    }
}

/// Whether all fields have numbers that are allowed.
pub open spec fn numbers_allowed(fields: Seq<Field>) -> bool {
    forall|i: int| 0 <= i < fields.len() ==> 1 <= field_number(#[trigger] fields[i])
        <= PROTOBUF_MAX_FIELD_NUMBER
}

/// A message that is put together from fields is accepted.
pub proof fn law_message_is_accepted(fields: Seq<Field>)
    requires
        fields.len() > 0,
        numbers_allowed(fields),
        message(fields).len() <= usize::MAX,
    ensures
        message_refusal(message(fields)) is None,
{
    lemma_fields_accepted(fields, Seq::empty());
    assert(message(fields) + Seq::<u8>::empty() =~= message(fields));
    lemma_field_not_empty(fields.last());
}

proof fn lemma_field_not_empty(f: Field)
    ensures
        field_bytes(f).len() >= 1,
{
    match f {
        Field::Number(field, value) => lemma_varint_not_empty((field * 8) as nat),
        Field::Bytes(field, value) => lemma_varint_not_empty((field * 8 + 2) as nat),
    }
}

proof fn lemma_fields_accepted(fields: Seq<Field>, rest: Seq<u8>)
    requires
        numbers_allowed(fields),
        message(fields).len() + rest.len() <= usize::MAX,
    ensures
        fields_refusal(message(fields) + rest, 0) == fields_refusal(
            rest,
            message(fields).len() as int,
        ),
    decreases fields.len(),
{
    if fields.len() == 0 {
        assert(message(fields) + rest =~= rest);
    } else {
        let f = fields.last();
        let init = fields.drop_last();
        let tail = field_bytes(f) + rest;
        assert(numbers_allowed(init));
        assert(message(fields) + rest =~= message(init) + tail);
        lemma_fields_accepted(init, tail);
        assert(1 <= field_number(fields[fields.len() - 1]) <= PROTOBUF_MAX_FIELD_NUMBER);
        let before = message(init).len() as int;
        match f {
            Field::Number(field, value) => law_varint_field_is_accepted(field, value, rest, before),
            Field::Bytes(field, value) => law_bytes_field_is_accepted(field, value, rest, before),
        }
    }
}

/// Puts a message together.
pub struct MessageWriter {
    pub bytes: Vec<u8>,
    pub fields: Ghost<Seq<Field>>,
}

impl MessageWriter {
    /// The bytes are those of the fields.
    pub open spec fn wf(self) -> bool {
        self.bytes@ == message(self.fields@)
    }

    /// No field yet.
    pub fn new() -> (r: Self)
        ensures
            r.wf(),
            r.fields@ == Seq::<Field>::empty(),
    {
        MessageWriter { bytes: Vec::new(), fields: Ghost(Seq::empty()) }
    }

    /// Adds a field that holds a number.
    pub fn number(&mut self, field: u32, value: u64)
        requires
            old(self).wf(),
        ensures
            final(self).wf(),
            final(self).fields@ == old(self).fields@.push(Field::Number(field, value)),
    {
        append_protobuf_varint_field(field, value, &mut self.bytes);
        let ghost before = self.fields@;
        self.fields = Ghost(self.fields@.push(Field::Number(field, value)));
        assert(self.fields@.drop_last() =~= before);
    }

    /// Adds a field that holds bytes.
    pub fn bytes(&mut self, field: u32, value: &[u8])
        requires
            old(self).wf(),
        ensures
            final(self).wf(),
            final(self).fields@ == old(self).fields@.push(Field::Bytes(field, value@)),
    {
        append_protobuf_bytes_field(field, value, &mut self.bytes);
        let ghost before = self.fields@;
        self.fields = Ghost(self.fields@.push(Field::Bytes(field, value@)));
        assert(self.fields@.drop_last() =~= before);
    }
}

} // verus!
