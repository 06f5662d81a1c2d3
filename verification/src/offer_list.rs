//! The property list that carries an offer.

use vstd::prelude::*;
use vstd::string::*;
use crate::binary_plist;
use crate::binary_plist::{binary_plist_ascii_string, binary_plist_data, push_width, PlistView};
use crate::binary_plist::{BINARY_PLIST_ASCII_STRING_MARKER, BINARY_PLIST_DATA_MARKER};
use crate::binary_plist::BINARY_PLIST_HEADER;
use crate::error::VncError;
use crate::media_offer::{MediaNegotiatorMode, MEDIA_NEGOTIATOR_MEDIA_BLOB_KEY};
use crate::media_offer::{MEDIA_NEGOTIATOR_MODE_KEY, MEDIA_STREAM_CALL_ID_KEY};
use crate::media_offer::MEDIA_STREAM_REMOTE_ENDPOINT_INFO_KEY;
use crate::text::push_upper_hex_byte;
use crate::wire::{push_be64, push_bytes};

verus! {

/// The text of the first `n` bytes of an identifier, with hyphens in front of some.
pub open spec fn uuid_chars(uuid: Seq<u8>, n: int) -> Seq<char>
    decreases n,
{
    if n <= 0 {
        Seq::empty()
    } else {
        let before = uuid_chars(uuid, n - 1);
        let hyphened = if n == 5 || n == 7 || n == 9 || n == 11 {
            before + "-"@
        } else {
            before
        };
        hyphened + crate::text::upper_hex_byte(uuid[n - 1])
    }
}

/// Writes an identifier as text.
pub fn uuid_text(uuid: &[u8; 16]) -> (r: String)
    ensures
        r@ == uuid_chars(uuid@, 16),
{
    let mut text = String::new();
    let mut i: usize = 0;
    while i < 16
        invariant
            i <= 16,
            text@ == uuid_chars(uuid@, i as int),
        decreases 16 - i,
    {
        if i == 4 || i == 6 || i == 8 || i == 10 {
            text.append("-");
        }
        push_upper_hex_byte(&mut text, uuid[i]);
        i = i + 1;
    }
    text
}

/// The text of an identifier is ASCII.
pub proof fn lemma_uuid_ascii(uuid: Seq<u8>, n: int)
    ensures
        vstd::utf8::is_ascii_chars(uuid_chars(uuid, n)),
    decreases n,
{
    if n > 0 {
        lemma_uuid_ascii(uuid, n - 1);
        reveal_strlit("-");
    }
}

/// The object of a string.
pub open spec fn string_object(value: Seq<u8>) -> Seq<u8> {
    binary_plist::bytes_object(BINARY_PLIST_ASCII_STRING_MARKER, value)
}

/// The object of data.
pub open spec fn data_object(value: Seq<u8>) -> Seq<u8> {
    binary_plist::bytes_object(BINARY_PLIST_DATA_MARKER, value)
}

/// The objects of an offer: the dictionary, its four keys and its four values.
pub open spec fn offer_objects(
    mode: MediaNegotiatorMode,
    blob: Seq<u8>,
    endpoint: Seq<u8>,
    call_id: Seq<u8>,
) -> Seq<Seq<u8>> {
    seq![
        seq![0xd4u8, 1u8, 2u8, 3u8, 4u8, 5u8, 6u8, 7u8, 8u8],
        string_object(MEDIA_STREAM_REMOTE_ENDPOINT_INFO_KEY.spec_bytes()),
        string_object(MEDIA_NEGOTIATOR_MODE_KEY.spec_bytes()),
        string_object(MEDIA_NEGOTIATOR_MEDIA_BLOB_KEY.spec_bytes()),
        string_object(MEDIA_STREAM_CALL_ID_KEY.spec_bytes()),
        data_object(endpoint),
        seq![0x10u8, mode.number()],
        data_object(blob),
        string_object(call_id),
    ]
}

/// Where the `i`-th object begins.
pub open spec fn offset_at(objects: Seq<Seq<u8>>, i: int) -> nat {
    8 + crate::mvs_stream::joined(objects.take(i)).len()
}

/// The width of the offsets of a list whose last offset is this.
pub open spec fn offset_width(last: nat) -> nat {
    if last <= 0xff {
        1
    } else if last <= 0xffff {
        2
    } else if last <= 0xffff_ffff {
        4
    } else {
        8
    }
}

/// The table of the first `n` offsets.
pub open spec fn offset_table(objects: Seq<Seq<u8>>, width: nat, n: int) -> Seq<u8>
    decreases n,
{
    if n <= 0 {
        Seq::empty()
    } else {
        offset_table(objects, width, n - 1) + binary_plist::width_bytes(
            offset_at(objects, n - 1),
            width,
        )
    }
}

/// The trailer of a list.
pub open spec fn trailer_bytes(width: nat, count: nat, table: nat) -> Seq<u8> {
    seq![0u8, 0u8, 0u8, 0u8, 0u8, 0u8, width as u8, 1u8] + crate::wire::be64_bytes(count as u64)
        + crate::wire::be64_bytes(0) + crate::wire::be64_bytes(table as u64)
}

/// The list of these objects.
pub open spec fn list_bytes(objects: Seq<Seq<u8>>) -> Seq<u8> {
    let width = offset_width(offset_at(objects, objects.len() - 1));
    BINARY_PLIST_HEADER@ + crate::mvs_stream::joined(objects) + offset_table(
        objects,
        width,
        objects.len() as int,
    ) + trailer_bytes(width, objects.len(), offset_at(objects, objects.len() as int))
}

/// Writes the objects of an offer.
fn build_offer_objects(
    mode: MediaNegotiatorMode,
    compressed_blob: &[u8],
    remote_endpoint_info: &[u8],
    call_id: &str,
) -> (r: Result<Vec<Vec<u8>>, VncError>)
    ensures
        call_id.is_ascii() ==> (r matches Ok(v) && objects_view(v@) == offer_objects(
            mode,
            compressed_blob@,
            remote_endpoint_info@,
            call_id.spec_bytes(),
        )),
        !call_id.is_ascii() ==> r == Err::<Vec<Vec<u8>>, VncError>(
            VncError::Text("二进制 plist 键必须是 ASCII"),
        ),
{
    proof {
        reveal_strlit("avcMediaStreamOptionRemoteEndpointInfo");
        reveal_strlit("avcMediaStreamNegotiatorMode");
        reveal_strlit("avcMediaStreamNegotiatorMediaBlob");
        reveal_strlit("avcMediaStreamOptionCallID");
    }
    let mut objects: Vec<Vec<u8>> = Vec::new();
    objects.push(vec![0xd4u8, 1u8, 2u8, 3u8, 4u8, 5u8, 6u8, 7u8, 8u8]);
    objects.push(binary_plist_ascii_string(MEDIA_STREAM_REMOTE_ENDPOINT_INFO_KEY)?);
    objects.push(binary_plist_ascii_string(MEDIA_NEGOTIATOR_MODE_KEY)?);
    objects.push(binary_plist_ascii_string(MEDIA_NEGOTIATOR_MEDIA_BLOB_KEY)?);
    objects.push(binary_plist_ascii_string(MEDIA_STREAM_CALL_ID_KEY)?);
    objects.push(binary_plist_data(remote_endpoint_info));
    objects.push(vec![0x10u8, mode.wire_value()]);
    objects.push(binary_plist_data(compressed_blob));
    objects.push(binary_plist_ascii_string(call_id)?);
    proof {
        let expected = offer_objects(
            mode,
            compressed_blob@,
            remote_endpoint_info@,
            call_id.spec_bytes(),
        );
        assert(objects@[0]@ =~= expected[0]);
        assert(objects@[6]@ =~= expected[6]);
        assert(objects_view(objects@) =~= expected);
    }
    Ok(objects)
}

/// What objects hold.
pub open spec fn objects_view(objects: Seq<Vec<u8>>) -> Seq<Seq<u8>> {
    Seq::new(objects.len(), |i: int| objects[i]@)
}

/// Puts objects into a list.
fn build_list(objects: &Vec<Vec<u8>>) -> (r: Vec<u8>)
    requires
        1 <= objects@.len() <= 255,
    ensures
        r@ == list_bytes(objects_view(objects@)),
{
    let ghost all = objects_view(objects@);
    let mut plist: Vec<u8> = Vec::new();
    push_bytes(&mut plist, BINARY_PLIST_HEADER.as_slice());
    assert(plist@ =~= BINARY_PLIST_HEADER@);
    let mut offsets: Vec<usize> = Vec::new();
    let mut i: usize = 0;
    assert(all.take(0) =~= Seq::<Seq<u8>>::empty());
    assert(plist@ =~= BINARY_PLIST_HEADER@ + crate::mvs_stream::joined(all.take(0)));
    while i < objects.len()
        invariant
            i <= objects@.len(),
            all == objects_view(objects@),
            offsets@.len() == i,
            forall|k: int| 0 <= k < i ==> (#[trigger] offsets@[k]) as nat == offset_at(all, k),
            plist@ == BINARY_PLIST_HEADER@ + crate::mvs_stream::joined(all.take(i as int)),
        decreases objects@.len() - i,
    {
        offsets.push(plist.len());
        push_bytes(&mut plist, objects[i].as_slice());
        proof {
            assert(all.take(i + 1).drop_last() =~= all.take(i as int));
            assert(plist@ =~= BINARY_PLIST_HEADER@ + crate::mvs_stream::joined(all.take(i + 1)));
        }
        i = i + 1;
    }
    assert(all.take(i as int) =~= all);
    let table: usize = plist.len();
    let last: usize = offsets[offsets.len() - 1];
    let width: usize = if last <= 0xff {
        1
    } else if last <= 0xffff {
        2
    } else if last <= 0xffff_ffff {
        4
    } else {
        8
    };
    let ghost body = plist@;
    let mut k: usize = 0;
    assert(plist@ =~= body + offset_table(all, width as nat, 0));
    while k < offsets.len()
        invariant
            k <= offsets@.len(),
            offsets@.len() == all.len(),
            forall|j: int| 0 <= j < all.len() ==> (#[trigger] offsets@[j]) as nat == offset_at(
                all,
                j,
            ),
            plist@ == body + offset_table(all, width as nat, k as int),
        decreases offsets@.len() - k,
    {
        push_width(&mut plist, offsets[k] as u64, width);
        assert(plist@ =~= body + offset_table(all, width as nat, k + 1));
        k = k + 1;
    }
    let ghost filled = plist@;
    plist.push(0);
    plist.push(0);
    plist.push(0);
    plist.push(0);
    plist.push(0);
    plist.push(0);
    plist.push(width as u8);
    plist.push(1);
    push_be64(&mut plist, objects.len() as u64);
    push_be64(&mut plist, 0);
    push_be64(&mut plist, table as u64);
    assert(plist@ =~= filled + trailer_bytes(width as nat, all.len(), table as nat));
    assert(plist@ =~= list_bytes(all));
    plist
}

/// Writes the list that carries an offer.
pub fn binary_plist_offer(
    mode: MediaNegotiatorMode,
    compressed_blob: &[u8],
    remote_endpoint_info: &[u8],
    call_id: &str,
) -> (r: Result<Vec<u8>, VncError>)
    ensures
        call_id.is_ascii() ==> (r matches Ok(v) && v@ == list_bytes(
            offer_objects(
                mode,
                compressed_blob@,
                remote_endpoint_info@,
                call_id.spec_bytes(),
            ),
        )),
        !call_id.is_ascii() ==> r == Err::<Vec<u8>, VncError>(
            VncError::Text("二进制 plist 键必须是 ASCII"),
        ),
{
    let objects = build_offer_objects(mode, compressed_blob, remote_endpoint_info, call_id)?;
    assert(objects_view(objects@).len() == 9);
    Ok(build_list(&objects))
}

/// The table has one offset behind the other.
proof fn lemma_table(objects: Seq<Seq<u8>>, width: nat, n: int, i: int)
    requires
        0 <= i < n,
        forall|k: int| 0 <= k < n ==> #[trigger] offset_at(objects, k) < binary_plist::width_room(
            width,
        ),
    ensures
        offset_table(objects, width, n).len() == n * width,
        0 <= i * width,
        i * width + width <= n * width,
        offset_table(objects, width, n).subrange(
            (i * width) as int,
            (i * width + width) as int,
        ) == binary_plist::width_bytes(offset_at(objects, i), width),
    decreases n,
{
    let before = offset_table(objects, width, n - 1);
    let last = binary_plist::width_bytes(offset_at(objects, n - 1), width);
    assert(offset_at(objects, n - 1) < binary_plist::width_room(width));
    binary_plist::law_width_is_read_back(offset_at(objects, n - 1), width);
    lemma_table_length(objects, width, n - 1);
    assert((n - 1) * width + width == n * width) by (nonlinear_arith);
    assert(0 <= i * width && i * width + width <= n * width) by (nonlinear_arith)
        requires
            0 <= i < n,
    ;
    let t = offset_table(objects, width, n);
    if i < n - 1 {
        lemma_table(objects, width, n - 1, i);
        assert(t.subrange((i * width) as int, (i * width + width) as int) =~= before.subrange(
            (i * width) as int,
            (i * width + width) as int,
        ));
    } else {
        assert(t.subrange((i * width) as int, (i * width + width) as int) =~= last);
    }
}

proof fn lemma_table_length(objects: Seq<Seq<u8>>, width: nat, n: int)
    requires
        0 <= n,
        forall|k: int| 0 <= k < n ==> #[trigger] offset_at(objects, k) < binary_plist::width_room(
            width,
        ),
    ensures
        offset_table(objects, width, n).len() == n * width,
    decreases n,
{
    if n > 0 {
        lemma_table_length(objects, width, n - 1);
        assert(offset_at(objects, n - 1) < binary_plist::width_room(width));
        binary_plist::law_width_is_read_back(offset_at(objects, n - 1), width);
        assert((n - 1) * width + width == n * width) by (nonlinear_arith);
    } else {
        assert(n * width == 0) by (nonlinear_arith)
            requires
                n == 0,
        ;
    }
}

/// Objects that are not empty begin one behind the other.
proof fn lemma_offsets_grow(objects: Seq<Seq<u8>>, i: int, j: int)
    requires
        0 <= i < j <= objects.len(),
        forall|k: int| 0 <= k < objects.len() ==> (#[trigger] objects[k]).len() > 0,
    ensures
        offset_at(objects, i) < offset_at(objects, j),
    decreases j - i,
{
    assert(objects.take(j).drop_last() =~= objects.take(j - 1));
    assert(objects.take(j).last() == objects[j - 1]);
    if i < j - 1 {
        lemma_offsets_grow(objects, i, j - 1);
    }
}

/// A width has room for every offset up to the last.
proof fn lemma_width_fits(last: nat, offset: nat)
    requires
        offset <= last <= u64::MAX,
    ensures
        offset < binary_plist::width_room(offset_width(last)),
        1 <= offset_width(last) <= 8,
{
    reveal_with_fuel(binary_plist::width_room, 9);
}

/// The number that two runs of bytes give together.
proof fn lemma_unsigned_joined(a: Seq<u8>, b: Seq<u8>)
    ensures
        binary_plist::unsigned_value(a + b) == binary_plist::unsigned_value(a)
            * binary_plist::width_room(b.len()) + binary_plist::unsigned_value(b),
    decreases b.len(),
{
    if b.len() == 0 {
        assert(a + b =~= a);
        assert(binary_plist::unsigned_value(a) * 1 == binary_plist::unsigned_value(a));
    } else {
        let u = binary_plist::unsigned_value(a);
        let init = b.drop_last();
        let room = binary_plist::width_room(init.len());
        lemma_unsigned_joined(a, init);
        assert((a + b).drop_last() =~= a + init);
        assert((a + b).last() == b.last());
        let v = binary_plist::unsigned_value(init);
        assert((u * room + v) * 256 == u * (256 * room) + v * 256) by (nonlinear_arith);
    }
}

/// The eight bytes of a number, read in the way of property lists.
proof fn lemma_be64_unsigned(value: u64)
    ensures
        binary_plist::unsigned_value(crate::wire::be64_bytes(value)) == value,
        crate::wire::be64_bytes(value).len() == 8,
{
    let high = (value / 0x1_0000_0000) as u32;
    let low = (value % 0x1_0000_0000) as u32;
    lemma_be32_unsigned(high);
    lemma_be32_unsigned(low);
    lemma_unsigned_joined(crate::wire::be32_bytes(high), crate::wire::be32_bytes(low));
    reveal_with_fuel(binary_plist::width_room, 5);
    let room = binary_plist::width_room(4);
    assert(high * room == high * 0x1_0000_0000) by (nonlinear_arith)
        requires
            room == 0x1_0000_0000,
    ;
}

proof fn lemma_be32_unsigned(value: u32)
    ensures
        binary_plist::unsigned_value(crate::wire::be32_bytes(value)) == value,
        crate::wire::be32_bytes(value).len() == 4,
{
    let high = (value / 65536) as u16;
    let low = (value % 65536) as u16;
    lemma_be16_unsigned(high);
    lemma_be16_unsigned(low);
    lemma_unsigned_joined(crate::wire::be16_bytes(high), crate::wire::be16_bytes(low));
    reveal_with_fuel(binary_plist::width_room, 3);
    let room = binary_plist::width_room(2);
    assert(high * room == high * 65536) by (nonlinear_arith)
        requires
            room == 65536,
    ;
}

proof fn lemma_be16_unsigned(value: u16)
    ensures
        binary_plist::unsigned_value(crate::wire::be16_bytes(value)) == value,
        crate::wire::be16_bytes(value).len() == 2,
{
    let b = crate::wire::be16_bytes(value);
    assert(b.drop_last().drop_last() =~= Seq::<u8>::empty());
    reveal_with_fuel(binary_plist::unsigned_value, 3);
}

/// The places of the objects of a list.
pub open spec fn list_view(objects: Seq<Seq<u8>>) -> PlistView {
    PlistView {
        offsets: Seq::new(objects.len(), |i: int| offset_at(objects, i) as usize),
        reference_size: 1,
        root_object: 0,
        offset_table_offset: offset_at(objects, objects.len() as int) as usize,
    }
}

/// A list that was written is opened, and every object is found where it was put.
pub proof fn law_written_list_is_opened(objects: Seq<Seq<u8>>)
    requires
        1 <= objects.len() <= 255,
        forall|k: int| 0 <= k < objects.len() ==> (#[trigger] objects[k]).len() > 0,
        list_bytes(objects).len() <= usize::MAX,
    ensures
        binary_plist::plist_of(list_bytes(objects)) == Ok::<PlistView, VncError>(list_view(objects)),
{
    let bytes = list_bytes(objects);
    let n = objects.len() as int;
    let last = offset_at(objects, n - 1);
    let table = offset_at(objects, n);
    let width = offset_width(last);
    let head = BINARY_PLIST_HEADER@ + crate::mvs_stream::joined(objects);
    let middle = offset_table(objects, width, n);
    let trailer = trailer_bytes(width, objects.len(), table);
    assert(objects.take(n) =~= objects);
    assert(head.len() == table);
    lemma_offsets_grow(objects, n - 1, n);
    assert(table <= bytes.len());
    lemma_width_fits(last, last);
    assert forall|k: int| 0 <= k < n implies #[trigger] offset_at(objects, k)
        < binary_plist::width_room(width) by {
        if k < n - 1 {
            lemma_offsets_grow(objects, k, n - 1);
        }
        lemma_width_fits(last, offset_at(objects, k));
    }
    lemma_table_length(objects, width, n);
    assert(trailer.len() == 32);
    let end = bytes.len() - 32;
    assert(end == table + n * width);
    assert(0 <= n * width) by (nonlinear_arith)
        requires
            0 <= n,
    ;
    assert(bytes =~= head + middle + trailer);
    assert(bytes.subrange(end, bytes.len() as int) =~= trailer);
    assert(bytes.take(8) =~= BINARY_PLIST_HEADER@);
    lemma_trailer(bytes, width, objects.len(), table);
    assert(bytes.subrange(table as int, table + n * width) =~= middle);
    lemma_offsets(objects, bytes, head, width, n, n);
    assert(list_view(objects).offsets =~= list_view(objects).offsets.take(n));
}

/// The trailer of a list is read back.
proof fn lemma_trailer(bytes: Seq<u8>, width: nat, count: nat, table: nat)
    requires
        bytes.len() <= usize::MAX,
        bytes.len() >= 40,
        bytes.take(8) == BINARY_PLIST_HEADER@,
        bytes.subrange(bytes.len() - 32, bytes.len() as int) == trailer_bytes(width, count, table),
        1 <= width <= 8,
        1 <= count <= 255,
        8 <= table,
        table + count * width == bytes.len() - 32,
    ensures
        binary_plist::trailer_of(bytes) == Ok::<(usize, usize, usize, usize, usize), VncError>(
            (width as usize, 1usize, count as usize, 0usize, table as usize),
        ),
{
    let end = bytes.len() - 32;
    let t = bytes.subrange(end, bytes.len() as int);
    assert(0 <= count * width) by (nonlinear_arith)
        requires
            0 <= count,
            0 <= width,
    ;
    assert(forall|k: int| 0 <= k < 8 ==> bytes[end + k] == t[k]);
    assert(bytes[end + 6] == t[6]);
    assert(bytes[end + 7] == t[7]);
    assert(bytes.subrange(end, end + 6) =~= t.subrange(0, 6));
    assert(crate::wire_cursor::all_zero(t.subrange(0, 6)));
    assert(bytes.subrange(end + 8, end + 16) =~= t.subrange(8, 16));
    assert(t.subrange(8, 16) =~= crate::wire::be64_bytes(count as u64));
    lemma_be64_unsigned(count as u64);
    assert(bytes.subrange(end + 16, end + 24) =~= t.subrange(16, 24));
    assert(t.subrange(16, 24) =~= crate::wire::be64_bytes(0));
    lemma_be64_unsigned(0);
    assert(bytes.subrange(end + 24, end + 32) =~= t.subrange(24, 32));
    assert(t.subrange(24, 32) =~= crate::wire::be64_bytes(table as u64));
    lemma_be64_unsigned(table as u64);
}

/// The offsets of a list are read back.
proof fn lemma_offsets(
    objects: Seq<Seq<u8>>,
    bytes: Seq<u8>,
    head: Seq<u8>,
    width: nat,
    n: int,
    part: int,
)
    requires
        n == objects.len(),
        0 <= part <= n,
        1 <= width <= 8,
        forall|k: int| 0 <= k < n ==> (#[trigger] objects[k]).len() > 0,
        forall|k: int| 0 <= k < n ==> #[trigger] offset_at(objects, k) < binary_plist::width_room(
            width,
        ),
        head.len() == offset_at(objects, n),
        head.len() <= usize::MAX,
        head.len() + n * width <= bytes.len(),
        bytes.subrange(head.len() as int, (head.len() + n * width) as int) == offset_table(
            objects,
            width,
            n,
        ),
    ensures
        binary_plist::offsets_read(bytes, head.len() as int, width as int, part) == Ok::<
            Seq<usize>,
            VncError,
        >(list_view(objects).offsets.take(part)),
    decreases part,
{
    let table = head.len() as int;
    let offsets = list_view(objects).offsets;
    if part == 0 {
        assert(offsets.take(0) =~= Seq::<usize>::empty());
    } else {
        let i = part - 1;
        lemma_offsets(objects, bytes, head, width, n, i);
        lemma_table(objects, width, n, i);
        let start = table + i * width;
        let whole = bytes.subrange(table, table + n * width);
        assert(bytes.subrange(start, start + width) =~= whole.subrange(
            (i * width) as int,
            (i * width + width) as int,
        ));
        assert(offset_at(objects, i) < binary_plist::width_room(width));
        binary_plist::law_width_is_read_back(offset_at(objects, i), width);
        lemma_offsets_grow(objects, i, n);
        assert(!offsets.take(i).contains(offset_at(objects, i) as usize)) by {
            assert forall|k: int| 0 <= k < i implies offsets.take(i)[k] != offset_at(
                objects,
                i,
            ) as usize by {
                lemma_offsets_grow(objects, k, i);
            }
        }
        assert(offsets.take(i).push(offset_at(objects, i) as usize) =~= offsets.take(part));
    }
}

/// An offer that was written is opened as a list of nine objects.
pub proof fn law_offer_is_opened(
    mode: MediaNegotiatorMode,
    blob: Seq<u8>,
    endpoint: Seq<u8>,
    call_id: Seq<u8>,
)
    requires
        list_bytes(offer_objects(mode, blob, endpoint, call_id)).len() <= usize::MAX,
    ensures
        binary_plist::plist_of(list_bytes(offer_objects(mode, blob, endpoint, call_id))) == Ok::<
            PlistView,
            VncError,
        >(list_view(offer_objects(mode, blob, endpoint, call_id))),
        list_view(offer_objects(mode, blob, endpoint, call_id)).offsets.len() == 9,
{
    law_written_list_is_opened(offer_objects(mode, blob, endpoint, call_id));
}

} // verus!
