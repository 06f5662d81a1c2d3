//! What the smaller messages tell, and what is refused: bells and texts of a server, numbers and
//! fields of a message, and the frame of credentials.

use vstd::prelude::*;
use crate::cold_credentials;
use crate::mvs_full::SurfaceView;
use crate::mvs_partial_record;
use crate::mvs_tiles::SavedTileState;
use crate::protobuf;
use crate::server_message;
use crate::server_message::{ReadMessage, ReaderView, ServerEventView, Stage};
use crate::text;

verus! {

/// A bell is one byte, and nothing behind it is touched.
pub proof fn law_bell_is_heard(rest: Seq<u8>)
    ensures
        server_message::read_from(server_message::unread(), seq![2u8] + rest, 0)
            == ReadMessage::Whole(ServerEventView::Bell, 1),
{
    reveal(server_message::read_from);
    let bytes = seq![2u8] + rest;
    assert(bytes.subrange(0, 1) =~= seq![2u8]);
}

/// A cut text is told as it stands: three bytes of no meaning, its length and its bytes. One of more
/// than 1,048,576 bytes is refused before it is read.
pub proof fn law_cut_text_is_told(head: Seq<u8>, cut: Seq<u8>, rest: Seq<u8>, length: u32)
    requires
        head.len() == 8,
        head[0] == 3,
        length == 256 * (256 * (256 * head[4] + head[5]) + head[6]) + head[7],
    ensures
        length == cut.len() && length <= 1_048_576 ==> server_message::read_from(
            server_message::unread(),
            head + cut + rest,
            0,
        ) == ReadMessage::Whole(
            ServerEventView::ServerCutText(text::lossy_text(cut)),
            (8 + cut.len()) as int,
        ),
        length > 1_048_576 ==> server_message::read_from(
            server_message::unread(),
            head + cut + rest,
            0,
        ) is Refused,
{
    reveal_with_fuel(server_message::read_from, 2);
    let bytes = head + cut + rest;
    assert(bytes.subrange(0, 1) =~= seq![3u8]);
    let first = ReaderView { stage: Stage::CutTextHead, ..server_message::unread() };
    assert(server_message::read_from(server_message::unread(), bytes, 0)
        == server_message::read_from(first, bytes, 1));
    let piece = bytes.subrange(1, 8);
    assert(piece[3] == head[4] && piece[4] == head[5] && piece[5] == head[6] && piece[6] == head[7]);
    assert(crate::wire::be32(piece, 3) == length);
    if length == cut.len() && length <= 1_048_576 {
        let second = ReaderView { stage: Stage::CutText { length }, ..server_message::unread() };
        assert(server_message::read_from(first, bytes, 1) == server_message::read_from(
            second,
            bytes,
            8,
        ));
        assert(bytes.subrange(8, 8 + cut.len() as int) =~= cut);
    }
}

/// A colour map and a sign of life are passed over whole: six bytes for every entry, and eight bytes
/// in all.
pub proof fn law_ignored_messages_are_passed_over(head: Seq<u8>, body: Seq<u8>, rest: Seq<u8>)
    ensures
        head.len() == 6 && head[0] == 1 && body.len() == 6 * (256 * head[4] + head[5])
            ==> server_message::read_from(server_message::unread(), head + body + rest, 0)
            == ReadMessage::Whole(ServerEventView::Ignored, (6 + body.len()) as int),
        head.len() == 8 && head[0] == 0x14 ==> server_message::read_from(
            server_message::unread(),
            head + body + rest,
            0,
        ) == ReadMessage::Whole(ServerEventView::Ignored, 8),
        head.len() > 0 && head[0] > 3 && head[0] != 0x14 ==> server_message::read_from(
            server_message::unread(),
            head + body + rest,
            0,
        ) is Refused,
{
    reveal_with_fuel(server_message::read_from, 2);
    let bytes = head + body + rest;
    let start = server_message::unread();
    if head.len() > 0 {
        assert(bytes.subrange(0, 1) =~= seq![head[0]]);
    }
    if head.len() == 6 && head[0] == 1 && body.len() == 6 * (256 * head[4] + head[5]) {
        let first = ReaderView { stage: Stage::ColourHead, ..start };
        assert(server_message::read_from(start, bytes, 0) == server_message::read_from(
            first,
            bytes,
            1,
        ));
        let piece = bytes.subrange(1, 6);
        assert(piece[3] == head[4] && piece[4] == head[5]);
        let count = crate::wire::be16(piece, 3);
        let second = ReaderView { stage: Stage::ColourEntries { count }, ..start };
        assert(server_message::read_from(first, bytes, 1) == server_message::read_from(
            second,
            bytes,
            6,
        ));
    }
    if head.len() == 8 && head[0] == 0x14 {
        let first = ReaderView { stage: Stage::Keepalive, ..start };
        assert(server_message::read_from(start, bytes, 0) == server_message::read_from(
            first,
            bytes,
            1,
        ));
    }
}

/// The number of octets, each counting its low seven bits, the first the least.
pub open spec fn by_sevens(octets: Seq<u8>) -> int
    decreases octets.len(),
{
    if octets.len() == 0 {
        0
    } else {
        octets[0] % 128 + 128 * by_sevens(octets.skip(1))
    }
}

/// A number is written by sevens: every octet but the last is marked, and the last is not nothing
/// where there is another.
pub proof fn law_numbers_are_written_by_sevens(value: nat, i: int)
    ensures
        by_sevens(protobuf::varint_bytes(value)) == value,
        protobuf::varint_bytes(value).len() >= 1,
        0 <= i < protobuf::varint_bytes(value).len() - 1 ==> protobuf::varint_bytes(value)[i] >= 128,
        protobuf::varint_bytes(value).last() < 128,
        protobuf::varint_bytes(value).len() > 1 ==> protobuf::varint_bytes(value).last() > 0,
    decreases value,
{
    let s = protobuf::varint_bytes(value);
    reveal_with_fuel(by_sevens, 2);
    if value < 128 {
        assert(s.skip(1) =~= Seq::empty());
    } else {
        law_numbers_are_written_by_sevens(value / 128, i - 1);
        assert(s.skip(1) =~= protobuf::varint_bytes(value / 128));
        assert(s.last() == protobuf::varint_bytes(value / 128).last());
    }
}

/// A field is told by its number and by what it holds: zero for a number, and two for bytes behind
/// their length.
pub proof fn law_fields_tell_what_they_hold(field: u32, value: u64, held: Seq<u8>)
    requires
        held.len() <= u64::MAX,
    ensures
        ({
            let whole = protobuf::varint_field(field, value);
            let (tag, n) = protobuf::varint_of(whole)->Ok_0;
            let (read, m) = protobuf::varint_of(whole.skip(n))->Ok_0;
            &&& protobuf::varint_of(whole) is Ok && protobuf::varint_of(whole.skip(n)) is Ok
            &&& tag == 8 * field
            &&& read == value
            &&& n + m == whole.len()
        }),
        ({
            let whole = protobuf::bytes_field(field, held);
            let (tag, n) = protobuf::varint_of(whole)->Ok_0;
            let (length, m) = protobuf::varint_of(whole.skip(n))->Ok_0;
            &&& protobuf::varint_of(whole) is Ok && protobuf::varint_of(whole.skip(n)) is Ok
            &&& tag == 8 * field + 2
            &&& length == held.len()
            &&& whole.skip(n + m) =~= held
        }),
{
    let tag = (field * 8) as u64;
    let other = (field * 8 + 2) as u64;
    let body = protobuf::varint_bytes(value as nat);
    let length = protobuf::varint_bytes(held.len());
    protobuf::law_varint_is_read_back(tag, body);
    protobuf::law_varint_is_read_back(value, Seq::empty());
    assert(body + Seq::<u8>::empty() =~= body);
    assert(protobuf::varint_field(field, value).skip(protobuf::varint_bytes(tag as nat).len() as int)
        =~= body);
    protobuf::law_varint_is_read_back(other, length + held);
    protobuf::law_varint_is_read_back(held.len() as u64, held);
    let whole = protobuf::bytes_field(field, held);
    assert(whole =~= protobuf::varint_bytes(other as nat) + (length + held));
    assert(whole.skip(protobuf::varint_bytes(other as nat).len() as int) =~= length + held);
    assert(whole.skip((protobuf::varint_bytes(other as nat).len() + length.len()) as int) =~= held);
}

/// A message is refused where it is empty, where a field has no number or is of no kind that is
/// known, and where the value of a field is cut short.
pub proof fn law_broken_messages_are_refused(tag: u64, length: u64, rest: Seq<u8>)
    ensures
        protobuf::message_refusal(Seq::empty()) is Some,
        tag / 8 == 0 || tag / 8 > 0x1fff_ffff || tag % 8 == 3 || tag % 8 == 4 || tag % 8 >= 6 || (tag
            % 8 == 1 && rest.len() < 8) || (tag % 8 == 5 && rest.len() < 4) || (tag % 8 == 0
            && rest.len() == 0) ==> protobuf::message_refusal(
            protobuf::varint_bytes(tag as nat) + rest,
        ) is Some,
        tag % 8 == 2 && rest.len() < length ==> protobuf::message_refusal(
            protobuf::varint_bytes(tag as nat) + (protobuf::varint_bytes(length as nat) + rest),
        ) is Some,
{
    let head = protobuf::varint_bytes(tag as nat);
    law_numbers_are_written_by_sevens(tag as nat, 0);
    protobuf::law_varint_is_read_back(tag, rest);
    assert((head + rest).skip(head.len() as int) =~= rest);
    let sized = protobuf::varint_bytes(length as nat) + rest;
    protobuf::law_varint_is_read_back(tag, sized);
    assert((head + sized).skip(head.len() as int) =~= sized);
    protobuf::law_varint_is_read_back(length, rest);
}

/// A frame of credentials that is accepted has a header of twenty bytes with the lengths of its three
/// texts, which fill the rest of it: a host and a name of 1 to 255 bytes, a password of 1 to 1024
/// without a zero, and a port. The host has no control character.
pub proof fn law_accepted_credentials(bytes: Seq<u8>, i: int)
    requires
        cold_credentials::frame_refusal(bytes) is None,
    ensures
        ({
            let host = 256 * bytes[12] + bytes[13];
            let name = 256 * bytes[14] + bytes[15];
            let password = 256 * bytes[16] + bytes[17];
            &&& bytes.len() == 20 + host + name + password
            &&& 1 <= host <= 255
            &&& 1 <= name <= 255
            &&& 1 <= password <= 1024
            &&& 256 * bytes[18] + bytes[19] > 0
            &&& bytes.take(8) =~= seq![70u8, 82, 68, 83, 84, 68, 48, 49]
            &&& 256 * (256 * (256 * bytes[8] + bytes[9]) + bytes[10]) + bytes[11] == bytes.len() - 12
            &&& 20 <= i < 20 + host ==> bytes[i] >= 32 && bytes[i] != 127
            &&& 20 + host + name <= i < bytes.len() ==> bytes[i] != 0
            &&& vstd::utf8::valid_utf8(bytes.subrange(20, 20 + host))
            &&& vstd::utf8::valid_utf8(bytes.subrange(20 + host, 20 + host + name))
            &&& vstd::utf8::valid_utf8(bytes.subrange(20 + host + name, bytes.len() as int))
            &&& cold_credentials::credentials_of(bytes).port == 256 * bytes[18] + bytes[19]
        }),
{
    let host = bytes.subrange(20, cold_credentials::host_end(bytes));
    let password = bytes.subrange(
        cold_credentials::username_end(bytes),
        cold_credentials::password_end(bytes),
    );
    if 20 <= i < cold_credentials::host_end(bytes) {
        assert(host[i - 20] == bytes[i]);
    }
    if cold_credentials::username_end(bytes) <= i < bytes.len() {
        assert(password[i - cold_credentials::username_end(bytes)] == bytes[i]);
    }
}

/// Bytes are read until nothing more comes or more have come than a frame can have; an attempt that
/// was interrupted is made again, and one that failed ends it.
pub proof fn law_reading_ends(used: int, count: usize)
    requires
        0 <= used <= 1554,
    ensures
        cold_credentials::after_read(used, cold_credentials::ReadOutcome::Count(0)) == Ok::<
            cold_credentials::ReadNext,
            crate::error::VncError,
        >(cold_credentials::ReadNext::Finished(used as usize)),
        1 <= count && used + count <= 1554 ==> cold_credentials::after_read(
            used,
            cold_credentials::ReadOutcome::Count(count),
        ) == Ok::<cold_credentials::ReadNext, crate::error::VncError>(
            cold_credentials::ReadNext::More((used + count) as usize),
        ),
        1554 < used + count <= usize::MAX ==> cold_credentials::after_read(
            used,
            cold_credentials::ReadOutcome::Count(count),
        ) == Ok::<cold_credentials::ReadNext, crate::error::VncError>(
            cold_credentials::ReadNext::Finished((used + count) as usize),
        ),
        cold_credentials::after_read(used, cold_credentials::ReadOutcome::Interrupted) == Ok::<
            cold_credentials::ReadNext,
            crate::error::VncError,
        >(cold_credentials::ReadNext::More(used as usize)),
        cold_credentials::after_read(used, cold_credentials::ReadOutcome::Failed) is Err,
{
}

/// A kept reference is followed only to a tile and a pixel of the surface, where the tile was painted
/// by the same record; one that a later record has painted over is left alone.
pub proof fn law_references_stay_on_the_surface(surface: SurfaceView, tile: SavedTileState)
    ensures
        mvs_partial_record::reference_refusal(surface, tile) is None <==> (
        tile.reference matches Some(reference) ==> reference.tile_index < surface.tiles.len() && (
        surface.tiles[reference.tile_index as int].generation == tile.generation
            ==> reference.framebuffer_offset < 4 * (surface.width * surface.height))),
{
}

} // verus!
