//! Binary property lists: writing objects, and reading a dictionary of data.

use vstd::prelude::*;
use vstd::string::*;
use crate::error::VncError;
use crate::mvs_stream::owned_bytes;
use crate::protobuf::same_bytes;
use crate::wire::{push_be16, push_be32, push_be64, push_bytes};
use crate::wire_cursor::is_all_zero;

verus! {

/// The bytes that open a property list.
pub const BINARY_PLIST_HEADER: [u8; 8] = [0x62, 0x70, 0x6c, 0x69, 0x73, 0x74, 0x30, 0x30];

/// The marker of dictionaries.
pub const BINARY_PLIST_DICTIONARY_MARKER: u8 = 0xd0;

/// The marker of ASCII strings.
pub const BINARY_PLIST_ASCII_STRING_MARKER: u8 = 0x50;

/// The marker of data.
pub const BINARY_PLIST_DATA_MARKER: u8 = 0x40;

/// The marker of integers.
pub const BINARY_PLIST_INTEGER_MARKER: u8 = 0x10;

/// The first count that does not fit into the marker.
pub const BINARY_PLIST_INLINE_LENGTH_LIMIT: usize = 15;

/// The bytes of the trailer.
pub const BINARY_PLIST_TRAILER_LEN: usize = 32;

/// The most bytes of an integer.
pub const BINARY_PLIST_MAX_INTEGER_WIDTH: usize = 8;

/// The most objects of a list that is read.
pub const BINARY_PLIST_MAX_OBJECTS: usize = 256;

/// The most entries of a dictionary that is read.
pub const BINARY_PLIST_MAX_DICTIONARY_ENTRIES: usize = 16;

/// The longest key that is read.
pub const BINARY_PLIST_MAX_KEY_BYTES: usize = 128;

/// A marker and the count behind it.
pub open spec fn count_bytes(marker: u8, count: nat) -> Seq<u8> {
    if count < BINARY_PLIST_INLINE_LENGTH_LIMIT {
        seq![marker | (count as u8)]
    } else if count <= u8::MAX {
        seq![marker | 15u8, 0x10, count as u8]
    } else if count <= u16::MAX {
        seq![marker | 15u8, 0x11] + crate::wire::be16_bytes(count as u16)
    } else if count <= u32::MAX {
        seq![marker | 15u8, 0x12] + crate::wire::be32_bytes(count as u32)
    } else {
        seq![marker | 15u8, 0x13] + crate::wire::be64_bytes(count as u64)
    }
}

/// Appends a marker and the count behind it.
pub fn append_binary_plist_count(marker: u8, count: usize, destination: &mut Vec<u8>)
    ensures
        final(destination)@ == old(destination)@ + count_bytes(marker, count as nat),
{
    if count < BINARY_PLIST_INLINE_LENGTH_LIMIT {
        destination.push(marker | count as u8);
    } else {
        destination.push(marker | 15);
        if count <= 0xff {
            destination.push(BINARY_PLIST_INTEGER_MARKER);
            destination.push(count as u8);
        } else if count <= 0xffff {
            destination.push(BINARY_PLIST_INTEGER_MARKER + 1);
            push_be16(destination, count as u16);
        } else if count <= 0xffff_ffff {
            destination.push(BINARY_PLIST_INTEGER_MARKER + 2);
            push_be32(destination, count as u32);
        } else {
            destination.push(BINARY_PLIST_INTEGER_MARKER + 3);
            push_be64(destination, count as u64);
        }
    }
    assert(destination@ =~= old(destination)@ + count_bytes(marker, count as nat));
}

/// An object that holds bytes.
pub open spec fn bytes_object(marker: u8, value: Seq<u8>) -> Seq<u8> {
    count_bytes(marker, value.len()) + value
}

/// An object that holds bytes.
fn binary_plist_bytes(marker: u8, value: &[u8]) -> (r: Vec<u8>)
    ensures
        r@ == bytes_object(marker, value@),
{
    let mut object: Vec<u8> = Vec::new();
    append_binary_plist_count(marker, value.len(), &mut object);
    push_bytes(&mut object, value);
    assert(object@ =~= bytes_object(marker, value@));
    object
}

/// An object that holds a string.
pub fn binary_plist_ascii_string(value: &str) -> (r: Result<Vec<u8>, VncError>)
    ensures
        value.is_ascii() ==> (r matches Ok(v) && v@ == bytes_object(
            BINARY_PLIST_ASCII_STRING_MARKER,
            value.spec_bytes(),
        )),
        !value.is_ascii() ==> r == Err::<Vec<u8>, VncError>(
            VncError::Text("二进制 plist 键必须是 ASCII"),
        ),
{
    if !value.is_ascii() {
        return Err(VncError::Text("二进制 plist 键必须是 ASCII"));
    }
    Ok(binary_plist_bytes(BINARY_PLIST_ASCII_STRING_MARKER, value.as_bytes()))
}

/// An object that holds data.
pub fn binary_plist_data(value: &[u8]) -> (r: Vec<u8>)
    ensures
        r@ == bytes_object(BINARY_PLIST_DATA_MARKER, value@),
{
    binary_plist_bytes(BINARY_PLIST_DATA_MARKER, value)
}

/// A number as `width` bytes, the highest first.
pub open spec fn width_bytes(value: nat, width: nat) -> Seq<u8>
    decreases width,
{
    if width == 0 {
        Seq::empty()
    } else {
        width_bytes(value / 256, (width - 1) as nat).push((value % 256) as u8)
    }
}

/// Appends a number as `width` bytes.
pub fn push_width(out: &mut Vec<u8>, value: u64, width: usize)
    ensures
        final(out)@ == old(out)@ + width_bytes(value as nat, width as nat),
    decreases width,
{
    if width > 0 {
        push_width(out, value / 256, width - 1);
        out.push((value % 256) as u8);
    }
    assert(out@ =~= old(out)@ + width_bytes(value as nat, width as nat));
}

/// The number that bytes give, the highest first.
pub open spec fn unsigned_value(bytes: Seq<u8>) -> nat
    decreases bytes.len(),
{
    if bytes.len() == 0 {
        0
    } else {
        unsigned_value(bytes.drop_last()) * 256 + bytes.last() as nat
    }
}

/// How many numbers `width` bytes can give.
pub open spec fn width_room(width: nat) -> nat
    decreases width,
{
    if width == 0 {
        1
    } else {
        256 * width_room((width - 1) as nat)
    }
}

/// Bytes give a number within the room of their width.
proof fn lemma_unsigned_bound(bytes: Seq<u8>)
    ensures
        unsigned_value(bytes) < width_room(bytes.len()),
    decreases bytes.len(),
{
    if bytes.len() > 0 {
        lemma_unsigned_bound(bytes.drop_last());
    }
}

/// Eight bytes have the room of a number.
proof fn lemma_width_room(width: nat)
    requires
        width <= 8,
    ensures
        width_room(width) <= 0x1_0000_0000_0000_0000,
        width <= 7 ==> 256 * width_room(width) <= 0x1_0000_0000_0000_0000,
{
    reveal_with_fuel(width_room, 9);
}

/// A number that was written in a width with enough room is read back.
pub proof fn law_width_is_read_back(value: nat, width: nat)
    requires
        value < width_room(width),
    ensures
        width_bytes(value, width).len() == width,
        unsigned_value(width_bytes(value, width)) == value,
    decreases width,
{
    if width > 0 {
        law_width_is_read_back(value / 256, (width - 1) as nat);
        assert(width_bytes(value, width).drop_last() =~= width_bytes(
            value / 256,
            (width - 1) as nat,
        ));
    }
}

/// The number that is read from bytes of the named field.
pub open spec fn unsigned_of(bytes: Seq<u8>, field: &'static str) -> Result<u64, VncError> {
    if bytes.len() == 0 || bytes.len() > BINARY_PLIST_MAX_INTEGER_WIDTH {
        Err(VncError::Role { role: field, after: " 整数宽度非法" })
    } else {
        Ok(unsigned_value(bytes) as u64)
    }
}

/// Reads the number that bytes give.
pub fn read_binary_plist_unsigned(bytes: &[u8], field: &'static str) -> (r: Result<u64, VncError>)
    ensures
        r == unsigned_of(bytes@, field),
        r matches Ok(v) ==> v == unsigned_value(bytes@),
{
    if bytes.len() == 0 || bytes.len() > BINARY_PLIST_MAX_INTEGER_WIDTH {
        return Err(VncError::Role { role: field, after: " 整数宽度非法" });
    }
    let mut value: u64 = 0;
    let mut i: usize = 0;
    assert(bytes@.take(0) =~= Seq::<u8>::empty());
    while i < bytes.len()
        invariant
            i <= bytes@.len() <= 8,
            value == unsigned_value(bytes@.take(i as int)),
        decreases bytes@.len() - i,
    {
        proof {
            let part = bytes@.take(i as int);
            lemma_unsigned_bound(part);
            lemma_width_room(i as nat);
            assert(bytes@.take(i + 1).drop_last() =~= part);
        }
        value = value * 256 + bytes[i] as u64;
        i = i + 1;
    }
    assert(bytes@.take(i as int) =~= bytes@);
    Ok(value)
}

/// A number as an index, where it is one.
pub open spec fn index_of(value: Result<u64, VncError>, refusal: VncError) -> Result<usize, VncError> {
    match value {
        Err(e) => Err(e),
        Ok(v) => if v > usize::MAX {
            Err(refusal)
        } else {
            Ok(v as usize)
        },
    }
}

/// A number as an index, where it is one.
fn to_index(value: u64, refusal: VncError) -> (r: Result<usize, VncError>)
    ensures
        r == index_of(Ok(value), refusal),
{
    if value > usize::MAX as u64 {
        return Err(refusal);
    }
    Ok(value as usize)
}

/// The places of the objects of a list, and what its trailer tells.
#[verifier::ext_equal]
pub struct PlistView {
    pub offsets: Seq<usize>,
    pub reference_size: usize,
    pub root_object: usize,
    pub offset_table_offset: usize,
}

/// The first `n` offsets of a table.
pub open spec fn offsets_read(bytes: Seq<u8>, table: int, size: int, n: int) -> Result<
    Seq<usize>,
    VncError,
>
    decreases n,
{
    if n <= 0 {
        Ok(Seq::empty())
    } else {
        match offsets_read(bytes, table, size, n - 1) {
            Err(e) => Err(e),
            Ok(before) => {
                let start = table + (n - 1) * size;
                match index_of(
                    unsigned_of(bytes.subrange(start, start + size), "binary plist object offset"),
                    VncError::Text("binary plist object offset 超过 usize"),
                ) {
                    Err(e) => Err(e),
                    Ok(offset) => if !(8 <= offset < table) {
                        Err(VncError::Text("binary plist object offset 越界"))
                    } else if before.contains(offset) {
                        Err(VncError::Text("binary plist object offset 重复"))
                    } else {
                        Ok(before.push(offset))
                    },
                }
            },
        }
    }
}

/// Where a part of a table is refused, the table is refused likewise.
proof fn lemma_refused_table(bytes: Seq<u8>, table: int, size: int, part: int, n: int)
    requires
        0 <= part <= n,
        offsets_read(bytes, table, size, part) is Err,
    ensures
        offsets_read(bytes, table, size, n) == offsets_read(bytes, table, size, part),
    decreases n - part,
{
    if part < n {
        lemma_refused_table(bytes, table, size, part, n - 1);
    }
}

/// Why the trailer of a list is refused, where it is; else the size of an offset, the size of a
/// reference, the number of objects, the root object and the place of the table.
pub open spec fn trailer_of(bytes: Seq<u8>) -> Result<(usize, usize, usize, usize, usize), VncError> {
    let end = bytes.len() - 32;
    let offset_size = bytes[end + 6];
    let reference_size = bytes[end + 7];
    let count = index_of(
        unsigned_of(bytes.subrange(end + 8, end + 16), "binary plist object count"),
        VncError::Text("binary plist object count 超过 usize"),
    );
    let root = index_of(
        unsigned_of(bytes.subrange(end + 16, end + 24), "binary plist root object"),
        VncError::Text("binary plist root object 超过 usize"),
    );
    let table = index_of(
        unsigned_of(bytes.subrange(end + 24, end + 32), "binary plist offset table"),
        VncError::Text("binary plist offset table 超过 usize"),
    );
    if bytes.len() < 8 || bytes.take(8) != BINARY_PLIST_HEADER@ {
        Err(VncError::Text("answer 不是 binary plist"))
    } else if bytes.len() < 40 {
        Err(VncError::Text("binary plist 头或 trailer 截断"))
    } else if !crate::wire_cursor::all_zero(bytes.subrange(end, end + 6)) {
        Err(VncError::Text("binary plist trailer 保留区必须为零"))
    } else if !(1 <= offset_size <= BINARY_PLIST_MAX_INTEGER_WIDTH) {
        Err(VncError::Text("binary plist offset 宽度非法"))
    } else if !(1 <= reference_size <= BINARY_PLIST_MAX_INTEGER_WIDTH) {
        Err(VncError::Text("binary plist object reference 宽度非法"))
    } else if count is Err {
        Err(count->Err_0)
    } else if !(1 <= count->Ok_0 <= BINARY_PLIST_MAX_OBJECTS) {
        Err(VncError::Text("binary plist object count 超过预算"))
    } else if root is Err {
        Err(root->Err_0)
    } else if root->Ok_0 >= count->Ok_0 {
        Err(VncError::Text("binary plist root object 越界"))
    } else if table is Err {
        Err(table->Err_0)
    } else if !(8 <= table->Ok_0 <= end) {
        Err(VncError::Text("binary plist offset table 位置非法"))
    } else if table->Ok_0 + count->Ok_0 * offset_size != end {
        Err(VncError::Text("binary plist offset table 长度与 trailer 不一致"))
    } else {
        Ok(
            (
                offset_size as usize,
                reference_size as usize,
                count->Ok_0,
                root->Ok_0,
                table->Ok_0,
            ),
        )
    }
}

/// The places of the objects of a list.
pub open spec fn plist_of(bytes: Seq<u8>) -> Result<PlistView, VncError> {
    match trailer_of(bytes) {
        Err(e) => Err(e),
        Ok((offset_size, reference_size, count, root, table)) => match offsets_read(
            bytes,
            table as int,
            offset_size as int,
            count as int,
        ) {
            Err(e) => Err(e),
            Ok(offsets) => Ok(
                PlistView {
                    offsets,
                    reference_size,
                    root_object: root,
                    offset_table_offset: table,
                },
            ),
        },
    }
}

/// A list that has been opened.
pub struct BinaryPlistReader<'a> {
    pub bytes: &'a [u8],
    pub offsets: Vec<usize>,
    pub reference_size: usize,
    pub root_object: usize,
    pub offset_table_offset: usize,
}

impl<'a> View for BinaryPlistReader<'a> {
    type V = PlistView;

    open spec fn view(&self) -> PlistView {
        PlistView {
            offsets: self.offsets@,
            reference_size: self.reference_size,
            root_object: self.root_object,
            offset_table_offset: self.offset_table_offset,
        }
    }
}

/// Reads eight bytes of the trailer as an index.
fn read_trailer_index(
    bytes: &[u8],
    at: usize,
    field: &'static str,
    refusal: VncError,
) -> (r: Result<usize, VncError>)
    requires
        at + 8 <= bytes@.len(),
    ensures
        r == index_of(unsigned_of(bytes@.subrange(at as int, at + 8), field), refusal),
{
    let _total: usize = bytes.len();
    let value: u64 = read_binary_plist_unsigned(
        vstd::slice::slice_subrange(bytes, at, at + 8),
        field,
    )?;
    to_index(value, refusal)
}

/// Reads the trailer of a list.
fn read_trailer(bytes: &[u8]) -> (r: Result<(usize, usize, usize, usize, usize), VncError>)
    ensures
        r == trailer_of(bytes@),
{
    let total: usize = bytes.len();
    if total < 8 {
        return Err(VncError::Text("answer 不是 binary plist"));
    }
    let head = vstd::slice::slice_subrange(bytes, 0, 8);
    assert(head@ =~= bytes@.take(8));
    if !same_bytes(head, BINARY_PLIST_HEADER.as_slice()) {
        return Err(VncError::Text("answer 不是 binary plist"));
    }
    if total < 40 {
        return Err(VncError::Text("binary plist 头或 trailer 截断"));
    }
    let end: usize = total - BINARY_PLIST_TRAILER_LEN;
    if !is_all_zero(vstd::slice::slice_subrange(bytes, end, end + 6)) {
        return Err(VncError::Text("binary plist trailer 保留区必须为零"));
    }
    let offset_size: usize = bytes[end + 6] as usize;
    let reference_size: usize = bytes[end + 7] as usize;
    if offset_size < 1 || offset_size > BINARY_PLIST_MAX_INTEGER_WIDTH {
        return Err(VncError::Text("binary plist offset 宽度非法"));
    }
    if reference_size < 1 || reference_size > BINARY_PLIST_MAX_INTEGER_WIDTH {
        return Err(VncError::Text("binary plist object reference 宽度非法"));
    }
    let count: usize = read_trailer_index(
        bytes,
        end + 8,
        "binary plist object count",
        VncError::Text("binary plist object count 超过 usize"),
    )?;
    if count < 1 || count > BINARY_PLIST_MAX_OBJECTS {
        return Err(VncError::Text("binary plist object count 超过预算"));
    }
    let root: usize = read_trailer_index(
        bytes,
        end + 16,
        "binary plist root object",
        VncError::Text("binary plist root object 超过 usize"),
    )?;
    if root >= count {
        return Err(VncError::Text("binary plist root object 越界"));
    }
    let table: usize = read_trailer_index(
        bytes,
        end + 24,
        "binary plist offset table",
        VncError::Text("binary plist offset table 超过 usize"),
    )?;
    if table < 8 || table > end {
        return Err(VncError::Text("binary plist offset table 位置非法"));
    }
    assert(0 <= count * offset_size <= 256 * 8) by (nonlinear_arith)
        requires
            0 <= count <= 256,
            0 <= offset_size <= 8,
    ;
    let table_len: usize = count * offset_size;
    if end - table != table_len {
        return Err(VncError::Text("binary plist offset table 长度与 trailer 不一致"));
    }
    Ok((offset_size, reference_size, count, root, table))
}

/// Whether an offset is among the ones that were read.
fn holds_offset(offsets: &Vec<usize>, offset: usize) -> (r: bool)
    ensures
        r == offsets@.contains(offset),
{
    let mut i: usize = 0;
    while i < offsets.len()
        invariant
            i <= offsets@.len(),
            forall|k: int| 0 <= k < i ==> offsets@[k] != offset,
        decreases offsets@.len() - i,
    {
        if offsets[i] == offset {
            return true;
        }
        i = i + 1;
    }
    false
}

/// Reads the table of offsets.
fn read_offsets(bytes: &[u8], table: usize, size: usize, count: usize) -> (r: Result<
    Vec<usize>,
    VncError,
>)
    requires
        table + count * size <= bytes@.len(),
        1 <= size <= 8,
        count <= 256,
    ensures
        match offsets_read(bytes@, table as int, size as int, count as int) {
            Ok(offsets) => r matches Ok(v) && v@ == offsets,
            Err(e) => r == Err::<Vec<usize>, VncError>(e),
        },
{
    let _total: usize = bytes.len();
    let mut offsets: Vec<usize> = Vec::new();
    let mut i: usize = 0;
    while i < count
        invariant
            i <= count <= 256,
            1 <= size <= 8,
            table + count * size <= bytes@.len() <= usize::MAX,
            offsets_read(bytes@, table as int, size as int, i as int) == Ok::<Seq<usize>, VncError>(
                offsets@,
            ),
        decreases count - i,
    {
        assert(0 <= i * size && i * size + size <= count * size) by (nonlinear_arith)
            requires
                0 <= i < count,
                0 <= size,
        ;
        let start: usize = table + i * size;
        let part = vstd::slice::slice_subrange(bytes, start, start + size);
        proof {
            if offsets_read(bytes@, table as int, size as int, i + 1) is Err {
                lemma_refused_table(bytes@, table as int, size as int, i + 1, count as int);
            }
        }
        let value: u64 = read_binary_plist_unsigned(part, "binary plist object offset")?;
        let offset: usize = to_index(value, VncError::Text("binary plist object offset 超过 usize"))?;
        if offset < 8 || offset >= table {
            return Err(VncError::Text("binary plist object offset 越界"));
        }
        if holds_offset(&offsets, offset) {
            return Err(VncError::Text("binary plist object offset 重复"));
        }
        offsets.push(offset);
        i = i + 1;
    }
    Ok(offsets)
}

/// Offsets that were read lie before the table.
proof fn lemma_offsets_bound(bytes: Seq<u8>, table: int, size: int, n: int)
    requires
        0 <= n,
    ensures
        offsets_read(bytes, table, size, n) matches Ok(offsets) ==> {
            &&& offsets.len() == n
            &&& forall|i: int| 0 <= i < n ==> 8 <= #[trigger] offsets[i] < table
        },
    decreases n,
{
    if n > 0 {
        lemma_offsets_bound(bytes, table, size, n - 1);
    }
}

impl<'a> BinaryPlistReader<'a> {
    /// Every object lies before the table, and the table in the list.
    pub open spec fn wf(self) -> bool {
        &&& 8 <= self.offset_table_offset <= self.bytes@.len()
        &&& 1 <= self.reference_size <= 8
        &&& forall|i: int| 0 <= i < self.offsets@.len() ==> 8 <= #[trigger] self.offsets@[i]
            < self.offset_table_offset
    }

    /// Opens a list.
    pub fn new(bytes: &'a [u8]) -> (r: Result<Self, VncError>)
        ensures
            crate::error::viewed(r) == plist_of(bytes@),
            r matches Ok(reader) ==> reader.wf() && reader.bytes == bytes,
    {
        let (offset_size, reference_size, count, root_object, offset_table_offset) = read_trailer(
            bytes,
        )?;
        let offsets = read_offsets(bytes, offset_table_offset, offset_size, count)?;
        proof {
            lemma_offsets_bound(
                bytes@,
                offset_table_offset as int,
                offset_size as int,
                count as int,
            );
        }
        Ok(BinaryPlistReader { bytes, offsets, reference_size, root_object, offset_table_offset })
    }
}

/// The `count` bytes of an object from `start` on.
pub open spec fn object_bytes_of(
    bytes: Seq<u8>,
    list: PlistView,
    start: int,
    count: int,
    field: &'static str,
) -> Result<Seq<u8>, VncError> {
    if start + count > usize::MAX {
        Err(VncError::Role { role: field, after: " 长度溢出" })
    } else if start + count > list.offset_table_offset {
        Err(VncError::Role { role: field, after: " 越过 object table" })
    } else {
        Ok(bytes.subrange(start, start + count))
    }
}

/// The count that stands behind a marker at `at` in an integer of its own, and the place behind it.
pub open spec fn extended_count_of(bytes: Seq<u8>, list: PlistView, at: int, field: &'static str) -> Result<
    (usize, usize),
    VncError,
> {
    let width = width_of(bytes[at] % 16);
    if object_bytes_of(bytes, list, at, 1, field) is Err {
        Err(object_bytes_of(bytes, list, at, 1, field)->Err_0)
    } else if bytes[at] / 16 != 1 {
        Err(VncError::Role { role: field, after: " 扩展长度不是 integer object" })
    } else if bytes[at] % 16 > 3 {
        Err(VncError::Role { role: field, after: " 扩展长度整数过宽" })
    } else {
        match object_bytes_of(bytes, list, at + 1, width, field) {
            Err(e) => Err(e),
            Ok(number) => match index_of(
                unsigned_of(number, field),
                VncError::Role { role: field, after: " 长度超过 usize" },
            ) {
                Err(e) => Err(e),
                Ok(count) => Ok((count, (at + 1 + width) as usize)),
            },
        }
    }
}

/// The width of an integer whose marker has this power.
pub open spec fn width_of(power: u8) -> int {
    if power == 0 {
        1
    } else if power == 1 {
        2
    } else if power == 2 {
        4
    } else {
        8
    }
}

/// How many things an object of this type holds, and where they begin.
pub open spec fn payload_of(
    bytes: Seq<u8>,
    list: PlistView,
    index: int,
    expected_type: u8,
    maximum: int,
    field: &'static str,
) -> Result<(usize, usize), VncError> {
    let offset = list.offsets[index] as int;
    let marker = bytes[offset];
    let found = if marker % 16 != 15 {
        Ok(((marker % 16) as usize, (offset + 1) as usize))
    } else {
        extended_count_of(bytes, list, offset + 1, field)
    };
    if index >= list.offsets.len() {
        Err(VncError::Role { role: field, after: " object reference 越界" })
    } else if marker / 16 != expected_type / 16 {
        Err(VncError::Role { role: field, after: " object 类型非法" })
    } else {
        match found {
            Err(e) => Err(e),
            Ok((count, start)) => if count > maximum {
                Err(VncError::Role { role: field, after: " 长度超过预算" })
            } else {
                Ok((count, start))
            },
        }
    }
}

proof fn lemma_value_be16(front: Seq<u8>, x: u16)
    ensures
        unsigned_value(front + crate::wire::be16_bytes(x)) == unsigned_value(front) * 65536 + x,
{
    let whole = front + crate::wire::be16_bytes(x);
    let part = front.push((x / 256) as u8);
    assert(whole.drop_last() =~= part);
    assert(whole.last() == (x % 256) as u8);
    assert(part.drop_last() =~= front);
    assert(unsigned_value(part) == unsigned_value(front) * 256 + x / 256);
    assert(unsigned_value(whole) == unsigned_value(part) * 256 + x % 256);
}

proof fn lemma_value_be32(front: Seq<u8>, x: u32)
    ensures
        unsigned_value(front + crate::wire::be32_bytes(x)) == unsigned_value(front) * 0x1_0000_0000
            + x,
{
    let high = (x / 65536) as u16;
    let low = (x % 65536) as u16;
    let part = front + crate::wire::be16_bytes(high);
    assert(front + crate::wire::be32_bytes(x) =~= part + crate::wire::be16_bytes(low));
    lemma_value_be16(front, high);
    lemma_value_be16(part, low);
}

proof fn lemma_value_be64(x: u64)
    ensures
        unsigned_value(crate::wire::be64_bytes(x)) == x,
{
    let high = (x / 0x1_0000_0000) as u32;
    let low = (x % 0x1_0000_0000) as u32;
    let none = Seq::<u8>::empty();
    let part = none + crate::wire::be32_bytes(high);
    assert(crate::wire::be64_bytes(x) =~= part + crate::wire::be32_bytes(low));
    lemma_value_be32(none, high);
    lemma_value_be32(part, low);
}

/// A marker takes a count in its lower half.
proof fn lemma_marked(marker: u8, low: u8)
    requires
        marker % 16 == 0,
        low < 16,
    ensures
        (marker | low) % 16 == low,
        (marker | low) / 16 == marker / 16,
{
    assert((marker | low) % 16 == low && (marker | low) / 16 == marker / 16) by (bit_vector)
        requires
            marker % 16 == 0,
            low < 16,
    ;
}

/// A count that does not fit into its marker stands behind it as an integer.
proof fn lemma_long_count(marker: u8, count: nat)
    requires
        15 <= count <= u64::MAX,
    ensures
        ({
            let head = count_bytes(marker, count);
            &&& head.len() >= 2
            &&& head[0] == marker | 15u8
            &&& head[1] / 16 == 1
            &&& head[1] % 16 <= 3
            &&& head.len() == 2 + width_of((head[1] % 16) as u8)
            &&& unsigned_value(head.skip(2)) == count
        }),
{
    let none = Seq::<u8>::empty();
    let number = count_bytes(marker, count).skip(2);
    if count <= u8::MAX {
        assert(number =~= none.push(count as u8));
        assert(number.drop_last() =~= none);
        assert(unsigned_value(none) == 0);
        assert(unsigned_value(number) == unsigned_value(none) * 256 + number.last());
    } else if count <= u16::MAX {
        assert(number =~= none + crate::wire::be16_bytes(count as u16));
        lemma_value_be16(none, count as u16);
    } else if count <= u32::MAX {
        assert(number =~= none + crate::wire::be32_bytes(count as u32));
        lemma_value_be32(none, count as u32);
    } else {
        assert(number =~= crate::wire::be64_bytes(count as u64));
        lemma_value_be64(count as u64);
    }
}

/// The count of an object is read back, and behind it stands what was counted.
pub proof fn law_object_is_read_back(
    bytes: Seq<u8>,
    list: PlistView,
    index: int,
    marker: u8,
    value: Seq<u8>,
    maximum: int,
    field: &'static str,
)
    requires
        0 <= index < list.offsets.len(),
        marker % 16 == 0,
        value.len() <= maximum,
        list.offsets[index] + bytes_object(marker, value).len() <= list.offset_table_offset
            <= bytes.len() <= usize::MAX,
        bytes.subrange(
            list.offsets[index] as int,
            list.offsets[index] + bytes_object(marker, value).len(),
        ) == bytes_object(marker, value),
    ensures
        payload_of(bytes, list, index, marker, maximum, field) matches Ok((count, start)) && count
            == value.len() && bytes.subrange(start as int, start + count) == value,
{
    let offset = list.offsets[index] as int;
    let object = bytes_object(marker, value);
    let head = count_bytes(marker, value.len());
    let count = value.len();
    let range = bytes.subrange(offset, offset + object.len());
    assert(range == object);
    assert(object.skip(head.len() as int) =~= value);
    assert(bytes.subrange(offset + head.len(), offset + head.len() + count) =~= range.skip(
        head.len() as int,
    ));
    assert(range[0] == bytes[offset] && object[0] == head[0]);
    if count < BINARY_PLIST_INLINE_LENGTH_LIMIT {
        lemma_marked(marker, count as u8);
    } else {
        lemma_marked(marker, 15);
        lemma_long_count(marker, count);
        assert(range[1] == bytes[offset + 1] && object[1] == head[1]);
        let number = head.skip(2);
        assert(object.subrange(2, 2 + number.len() as int) =~= number);
        assert(bytes.subrange(offset + 2, offset + 2 + number.len()) =~= range.subrange(
            2,
            2 + number.len() as int,
        ));
    }
}

/// The reference that is written at `position`.
pub open spec fn reference_of(bytes: Seq<u8>, list: PlistView, position: int, field: &'static str) -> Result<
    usize,
    VncError,
> {
    match object_bytes_of(bytes, list, position, list.reference_size as int, field) {
        Err(e) => Err(e),
        Ok(number) => match index_of(
            unsigned_of(number, field),
            VncError::Role { role: field, after: " reference 超过 usize" },
        ) {
            Err(e) => Err(e),
            Ok(index) => if index >= list.offsets.len() {
                Err(VncError::Role { role: field, after: " reference 越界" })
            } else {
                Ok(index)
            },
        },
    }
}

/// Whether all bytes are ASCII.
pub open spec fn all_ascii(bytes: Seq<u8>) -> bool {
    forall|i: int| 0 <= i < bytes.len() ==> bytes[i] < 128
}

/// Whether all bytes are ASCII.
fn is_all_ascii(bytes: &[u8]) -> (r: bool)
    ensures
        r == all_ascii(bytes@),
{
    let mut i: usize = 0;
    while i < bytes.len()
        invariant
            i <= bytes@.len(),
            forall|k: int| 0 <= k < i ==> bytes@[k] < 128,
        decreases bytes@.len() - i,
    {
        if bytes[i] >= 128 {
            return false;
        }
        i = i + 1;
    }
    true
}

/// The bytes of a string object.
pub open spec fn string_of(bytes: Seq<u8>, list: PlistView, index: int, field: &'static str) -> Result<
    Seq<u8>,
    VncError,
> {
    match payload_of(
        bytes,
        list,
        index,
        BINARY_PLIST_ASCII_STRING_MARKER,
        BINARY_PLIST_MAX_KEY_BYTES as int,
        field,
    ) {
        Err(e) => Err(e),
        Ok((length, start)) => match object_bytes_of(
            bytes,
            list,
            start as int,
            length as int,
            field,
        ) {
            Err(e) => Err(e),
            Ok(text) => if all_ascii(text) {
                Ok(text)
            } else {
                Err(VncError::Role { role: field, after: " 不是 ASCII" })
            },
        },
    }
}

/// The bytes of a data object.
pub open spec fn data_of(bytes: Seq<u8>, list: PlistView, index: int, field: &'static str) -> Result<
    Seq<u8>,
    VncError,
> {
    match payload_of(
        bytes,
        list,
        index,
        BINARY_PLIST_DATA_MARKER,
        list.offset_table_offset - 8,
        field,
    ) {
        Err(e) => Err(e),
        Ok((length, start)) => object_bytes_of(bytes, list, start as int, length as int, field),
    }
}

/// An entry of a dictionary.
pub struct PlistEntry {
    pub key: Vec<u8>,
    pub value: Vec<u8>,
}

impl View for PlistEntry {
    type V = (Seq<u8>, Seq<u8>);

    open spec fn view(&self) -> (Seq<u8>, Seq<u8>) {
        (self.key@, self.value@)
    }
}

/// What entries hold.
pub open spec fn entries_view(entries: Seq<PlistEntry>) -> Seq<(Seq<u8>, Seq<u8>)> {
    Seq::new(entries.len(), |i: int| entries[i]@)
}

/// Whether an entry with this key is there.
pub open spec fn has_key(entries: Seq<(Seq<u8>, Seq<u8>)>, key: Seq<u8>) -> bool {
    exists|i: int| 0 <= i < entries.len() && (#[trigger] entries[i]).0 == key
}

/// The `i`-th entry of a dictionary whose keys and values are referred to from these places.
pub open spec fn entry_of(bytes: Seq<u8>, list: PlistView, keys: int, values: int, i: int) -> Result<
    (Seq<u8>, Seq<u8>),
    VncError,
> {
    match reference_of(bytes, list, keys + i * list.reference_size, "binary plist key") {
        Err(e) => Err(e),
        Ok(key) => match reference_of(
            bytes,
            list,
            values + i * list.reference_size,
            "binary plist value",
        ) {
            Err(e) => Err(e),
            Ok(value) => match string_of(bytes, list, key as int, "binary plist key string") {
                Err(e) => Err(e),
                Ok(text) => match data_of(bytes, list, value as int, "binary plist data value") {
                    Err(e) => Err(e),
                    Ok(data) => Ok((text, data)),
                },
            },
        },
    }
}

/// The first `n` entries of a dictionary. No key comes twice.
pub open spec fn entries_of(bytes: Seq<u8>, list: PlistView, keys: int, values: int, n: int) -> Result<
    Seq<(Seq<u8>, Seq<u8>)>,
    VncError,
>
    decreases n,
{
    if n <= 0 {
        Ok(Seq::empty())
    } else {
        match entries_of(bytes, list, keys, values, n - 1) {
            Err(e) => Err(e),
            Ok(before) => match entry_of(bytes, list, keys, values, n - 1) {
                Err(e) => Err(e),
                Ok(entry) => if has_key(before, entry.0) {
                    Err(VncError::Text("binary plist dictionary key 重复"))
                } else {
                    Ok(before.push(entry))
                },
            },
        }
    }
}

/// Where a part of a dictionary is refused, the dictionary is refused likewise.
proof fn lemma_refused_entries(
    bytes: Seq<u8>,
    list: PlistView,
    keys: int,
    values: int,
    part: int,
    n: int,
)
    requires
        0 <= part <= n,
        entries_of(bytes, list, keys, values, part) is Err,
    ensures
        entries_of(bytes, list, keys, values, n) == entries_of(bytes, list, keys, values, part),
    decreases n - part,
{
    if part < n {
        lemma_refused_entries(bytes, list, keys, values, part, n - 1);
    }
}

/// The dictionary that is the root of a list.
pub open spec fn dictionary_of(bytes: Seq<u8>, list: PlistView) -> Result<
    Seq<(Seq<u8>, Seq<u8>)>,
    VncError,
> {
    match payload_of(
        bytes,
        list,
        list.root_object as int,
        BINARY_PLIST_DICTIONARY_MARKER,
        BINARY_PLIST_MAX_DICTIONARY_ENTRIES as int,
        "binary plist root dictionary",
    ) {
        Err(e) => Err(e),
        Ok((count, start)) => {
            let length = count * list.reference_size;
            match object_bytes_of(
                bytes,
                list,
                start as int,
                length * 2,
                "binary plist root dictionary references",
            ) {
                Err(e) => Err(e),
                Ok(_) => entries_of(bytes, list, start as int, start + length, count as int),
            }
        },
    }
}

impl<'a> BinaryPlistReader<'a> {
    fn take_object_bytes(&self, start: usize, count: usize, field: &'static str) -> (r: Result<
        &'a [u8],
        VncError,
    >)
        requires
            self.wf(),
        ensures
            match object_bytes_of(self.bytes@, self@, start as int, count as int, field) {
                Ok(s) => r matches Ok(v) && v@ == s,
                Err(e) => r == Err::<&'a [u8], VncError>(e),
            },
    {
        let end: usize = match start.checked_add(count) {
            Some(end) => end,
            None => {
                return Err(VncError::Role { role: field, after: " 长度溢出" });
            },
        };
        if end > self.offset_table_offset {
            return Err(VncError::Role { role: field, after: " 越过 object table" });
        }
        Ok(vstd::slice::slice_subrange(self.bytes, start, end))
    }

    fn extended_count(&self, at: usize, field: &'static str) -> (r: Result<(usize, usize), VncError>)
        requires
            self.wf(),
            at <= self.offset_table_offset,
        ensures
            r == extended_count_of(self.bytes@, self@, at as int, field),
    {
        let _total: usize = self.bytes.len();
        let marker_bytes = self.take_object_bytes(at, 1, field)?;
        let marker: u8 = marker_bytes[0];
        assert(marker == self.bytes@[at as int]);
        if marker / 16 != 1 {
            return Err(VncError::Role { role: field, after: " 扩展长度不是 integer object" });
        }
        let power: u8 = marker % 16;
        if power > 3 {
            return Err(VncError::Role { role: field, after: " 扩展长度整数过宽" });
        }
        let width: usize = if power == 0 {
            1
        } else if power == 1 {
            2
        } else if power == 2 {
            4
        } else {
            8
        };
        let number = self.take_object_bytes(at + 1, width, field)?;
        let value: u64 = read_binary_plist_unsigned(number, field)?;
        let count: usize = to_index(value, VncError::Role { role: field, after: " 长度超过 usize" })?;
        Ok((count, at + 1 + width))
    }

    fn object_payload(
        &self,
        object_index: usize,
        expected_type: u8,
        maximum_count: usize,
        field: &'static str,
    ) -> (r: Result<(usize, usize), VncError>)
        requires
            self.wf(),
        ensures
            r == payload_of(
                self.bytes@,
                self@,
                object_index as int,
                expected_type,
                maximum_count as int,
                field,
            ),
    {
        if object_index >= self.offsets.len() {
            return Err(VncError::Role { role: field, after: " object reference 越界" });
        }
        let offset: usize = self.offsets[object_index];
        let marker: u8 = self.bytes[offset];
        if marker / 16 != expected_type / 16 {
            return Err(VncError::Role { role: field, after: " object 类型非法" });
        }
        let (count, start) = if marker % 16 != 15 {
            ((marker % 16) as usize, offset + 1)
        } else {
            self.extended_count(offset + 1, field)?
        };
        if count > maximum_count {
            return Err(VncError::Role { role: field, after: " 长度超过预算" });
        }
        Ok((count, start))
    }

    fn object_reference(&self, position: usize, field: &'static str) -> (r: Result<usize, VncError>)
        requires
            self.wf(),
        ensures
            r == reference_of(self.bytes@, self@, position as int, field),
    {
        let number = self.take_object_bytes(position, self.reference_size, field)?;
        let value: u64 = read_binary_plist_unsigned(number, field)?;
        let index: usize = to_index(
            value,
            VncError::Role { role: field, after: " reference 超过 usize" },
        )?;
        if index >= self.offsets.len() {
            return Err(VncError::Role { role: field, after: " reference 越界" });
        }
        Ok(index)
    }

    fn ascii_string(&self, object_index: usize, field: &'static str) -> (r: Result<Vec<u8>, VncError>)
        requires
            self.wf(),
        ensures
            crate::error::viewed(r) == string_of(self.bytes@, self@, object_index as int, field),
    {
        let (length, start) = self.object_payload(
            object_index,
            BINARY_PLIST_ASCII_STRING_MARKER,
            BINARY_PLIST_MAX_KEY_BYTES,
            field,
        )?;
        let text = self.take_object_bytes(start, length, field)?;
        if !is_all_ascii(text) {
            return Err(VncError::Role { role: field, after: " 不是 ASCII" });
        }
        Ok(owned_bytes(text))
    }

    fn data(&self, object_index: usize, field: &'static str) -> (r: Result<Vec<u8>, VncError>)
        requires
            self.wf(),
        ensures
            crate::error::viewed(r) == data_of(self.bytes@, self@, object_index as int, field),
    {
        let (length, start) = self.object_payload(
            object_index,
            BINARY_PLIST_DATA_MARKER,
            self.offset_table_offset - 8,
            field,
        )?;
        let value = self.take_object_bytes(start, length, field)?;
        Ok(owned_bytes(value))
    }

    fn entry(&self, keys: usize, values: usize, i: usize) -> (r: Result<PlistEntry, VncError>)
        requires
            self.wf(),
            keys + i * self.reference_size <= usize::MAX,
            values + i * self.reference_size <= usize::MAX,
        ensures
            crate::error::viewed(r) == entry_of(
                self.bytes@,
                self@,
                keys as int,
                values as int,
                i as int,
            ),
    {
        assert(0 <= i * self.reference_size) by (nonlinear_arith)
            requires
                0 <= i,
                0 <= self.reference_size,
        ;
        let key_reference: usize = self.object_reference(
            keys + i * self.reference_size,
            "binary plist key",
        )?;
        let value_reference: usize = self.object_reference(
            values + i * self.reference_size,
            "binary plist value",
        )?;
        let key = self.ascii_string(key_reference, "binary plist key string")?;
        let value = self.data(value_reference, "binary plist data value")?;
        Ok(PlistEntry { key, value })
    }

    /// Reads the dictionary that is the root of the list. Its keys are strings and its values are
    /// data.
    pub fn root_data_dictionary(&self) -> (r: Result<Vec<PlistEntry>, VncError>)
        requires
            self.wf(),
        ensures
            match dictionary_of(self.bytes@, self@) {
                Ok(entries) => r matches Ok(v) && entries_view(v@) == entries,
                Err(e) => r == Err::<Vec<PlistEntry>, VncError>(e),
            },
    {
        let (count, start) = self.object_payload(
            self.root_object,
            BINARY_PLIST_DICTIONARY_MARKER,
            BINARY_PLIST_MAX_DICTIONARY_ENTRIES,
            "binary plist root dictionary",
        )?;
        assert(0 <= count * self.reference_size <= 16 * 8) by (nonlinear_arith)
            requires
                0 <= count <= 16,
                0 <= self.reference_size <= 8,
        ;
        let length: usize = count * self.reference_size;
        let _references = self.take_object_bytes(
            start,
            length * 2,
            "binary plist root dictionary references",
        )?;
        let values: usize = start + length;
        let mut entries: Vec<PlistEntry> = Vec::new();
        let mut i: usize = 0;
        assert(entries_view(entries@) =~= Seq::<(Seq<u8>, Seq<u8>)>::empty());
        while i < count
            invariant
                self.wf(),
                i <= count <= 16,
                length == count * self.reference_size,
                values == start + length,
                start + length * 2 <= self.offset_table_offset,
                entries_of(self.bytes@, self@, start as int, values as int, i as int) == Ok::<
                    Seq<(Seq<u8>, Seq<u8>)>,
                    VncError,
                >(entries_view(entries@)),
                dictionary_of(self.bytes@, self@) == entries_of(
                    self.bytes@,
                    self@,
                    start as int,
                    values as int,
                    count as int,
                ),
            decreases count - i,
        {
            assert(0 <= i * self.reference_size <= count * self.reference_size)
                by (nonlinear_arith)
                requires
                    0 <= i < count,
                    0 <= self.reference_size,
            ;
            proof {
                if entries_of(self.bytes@, self@, start as int, values as int, i + 1) is Err {
                    lemma_refused_entries(
                        self.bytes@,
                        self@,
                        start as int,
                        values as int,
                        i + 1,
                        count as int,
                    );
                }
            }
            let entry = self.entry(start, values, i)?;
            if holds_key(&entries, entry.key.as_slice()) {
                return Err(VncError::Text("binary plist dictionary key 重复"));
            }
            let ghost before = entries_view(entries@);
            let ghost added = entry@;
            entries.push(entry);
            assert(entries_view(entries@) =~= before.push(added));
            i = i + 1;
        }
        Ok(entries)
    }
}

/// Whether an entry with this key is there.
pub fn holds_key(entries: &Vec<PlistEntry>, key: &[u8]) -> (r: bool)
    ensures
        r == has_key(entries_view(entries@), key@),
{
    let ghost all = entries_view(entries@);
    let mut i: usize = 0;
    while i < entries.len()
        invariant
            i <= entries@.len(),
            all == entries_view(entries@),
            forall|k: int| 0 <= k < i ==> (#[trigger] all[k]).0 != key@,
        decreases entries@.len() - i,
    {
        if same_bytes(entries[i].key.as_slice(), key) {
            assert(all[i as int].0 == key@);
            return true;
        }
        i = i + 1;
    }
    false
}

} // verus!
