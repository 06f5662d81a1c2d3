//! Frames of a session with a Mac.

use vstd::prelude::*;
use vstd::string::*;
use crate::error::VncError;
use crate::mvs_stream::{owned_bytes, MvsRect};
use crate::wire::{read_be16, read_be32, to_signed};

pub mod cursor;
pub mod encoding;

verus! {

/// The bytes of a frame before what its encoding says.
pub const FRAME_HEADER_BYTES: usize = 16;

/// The bytes of the message that sets up a display.
pub const SET_DISPLAY_CONFIG_BYTES: usize = 308;

/// The bytes that tell the state of the server.
pub const SERVER_STATE_PAYLOAD_BYTES: u16 = 76;

/// A size that a display can have.
#[derive(Clone, Copy, Debug, PartialEq, Eq, Structural)]
pub struct DisplaySize {
    pub width: u16,
    pub height: u16,
}

impl DisplaySize {
    /// The size, where it is not empty.
    pub fn new(width: u16, height: u16) -> (r: Option<DisplaySize>)
        ensures
            r == (if width == 0 || height == 0 {
                None
            } else {
                Some(DisplaySize { width, height })
            }),
    {
        if width == 0 || height == 0 {
            None
        } else {
            Some(DisplaySize { width, height })
        }
    }
}

/// The message that sets up a display of this name.
pub open spec fn display_config_bytes(name: Seq<u8>) -> Seq<u8> {
    seq![0x1du8, 0, 1, 0x30, 0, 1, 0, 1, 0, 0, 0, 0, 1, 0x28] + name + Seq::new(
        (294 - name.len()) as nat,
        |i: int| 0u8,
    )
}

/// Sets up a display of this name.
pub fn build_set_display_config(name: &str) -> (r: Vec<u8>)
    requires
        vstd::utf8::encode_utf8(name@).len() <= 294,
    ensures
        r@ == display_config_bytes(vstd::utf8::encode_utf8(name@)),
        r@.len() == SET_DISPLAY_CONFIG_BYTES,
{
    let bytes = name.as_bytes();
    let mut message: Vec<u8> = vec![0x1d, 0, 1, 0x30, 0, 1, 0, 1, 0, 0, 0, 0, 1, 0x28];
    message.extend_from_slice(bytes);
    let ghost front = message@;
    assert(front =~= seq![0x1du8, 0, 1, 0x30, 0, 1, 0, 1, 0, 0, 0, 0, 1, 0x28] + bytes@);
    let mut i: usize = bytes.len();
    while i < 294
        invariant
            bytes@.len() <= i <= 294,
            message@.len() == 14 + i,
            front.len() == 14 + bytes@.len(),
            message@ == front + Seq::new((i - bytes@.len()) as nat, |k: int| 0u8),
        decreases 294 - i,
    {
        message.push(0);
        i = i + 1;
        assert(message@ =~= front + Seq::new((i - bytes@.len()) as nat, |k: int| 0u8));
    }
    assert(message@ =~= display_config_bytes(bytes@));
    message
}

/// The message that asks for a display of this size.
pub open spec fn display_query_bytes(width: u16, height: u16) -> Seq<u8> {
    seq![9u8, 0, 0, 1, 0, 0, 0, 0, 0, 0, 0, 0] + crate::wire::be16_bytes(width)
        + crate::wire::be16_bytes(height)
}

/// Asks for a display of this size.
pub fn build_display_query(size: DisplaySize) -> (r: [u8; 16])
    ensures
        r@ == display_query_bytes(size.width, size.height),
{
    let message: [u8; 16] = [
        9,
        0,
        0,
        1,
        0,
        0,
        0,
        0,
        0,
        0,
        0,
        0,
        (size.width / 256) as u8,
        (size.width % 256) as u8,
        (size.height / 256) as u8,
        (size.height % 256) as u8,
    ];
    assert(message@ =~= display_query_bytes(size.width, size.height));
    message
}

/// What a frame carries.
#[derive(Debug, PartialEq, Eq)]
pub enum Media {
    /// The front of a record of the media stream.
    Mvs { x: u16, y: u16, w: u16, h: u16, total: u32, body: Vec<u8> },
    /// A state, by its encoding.
    State(i32),
    /// Something else, by its encoding.
    Other(i32),
}

/// What a frame carries.
pub enum MediaView {
    Mvs { x: u16, y: u16, w: u16, h: u16, total: u32, body: Seq<u8> },
    State(i32),
    Other(i32),
}

impl View for Media {
    type V = MediaView;

    open spec fn view(&self) -> MediaView {
        match *self {
            Media::Mvs { x, y, w, h, total, body } => MediaView::Mvs {
                x,
                y,
                w,
                h,
                total,
                body: body@,
            },
            Media::State(encoding) => MediaView::State(encoding),
            Media::Other(encoding) => MediaView::Other(encoding),
        }
    }
}

/// Whether bytes begin as an update of a single rectangle does.
pub open spec fn is_frame(frame: Seq<u8>) -> bool {
    frame.len() >= FRAME_HEADER_BYTES && crate::wire::be32(frame, 0) == 1
}

/// The encoding of a frame.
pub open spec fn frame_encoding(frame: Seq<u8>) -> i32 {
    crate::wire::signed_of(crate::wire::be32(frame, 12))
}

/// What a frame carries.
pub open spec fn media_of(frame: Seq<u8>) -> Result<MediaView, VncError> {
    if !is_frame(frame) {
        Err(VncError::Text("HPSS 应用帧头非法"))
    } else if frame_encoding(frame) == encoding::MVS {
        if frame.len() < 20 {
            Err(VncError::Text("MVS envelope 截断"))
        } else {
            Ok(
                MediaView::Mvs {
                    x: crate::wire::be16(frame, 4),
                    y: crate::wire::be16(frame, 6),
                    w: crate::wire::be16(frame, 8),
                    h: crate::wire::be16(frame, 10),
                    total: crate::wire::be32(frame, 16),
                    body: frame.skip(20),
                },
            )
        }
    } else if encoding::APPLE_STATE_MIN <= frame_encoding(frame) <= encoding::APPLE_STATE_MAX {
        Ok(MediaView::State(frame_encoding(frame)))
    } else {
        Ok(MediaView::Other(frame_encoding(frame)))
    }
}

/// Reads what a frame carries.
pub fn parse_media(frame: &[u8]) -> (r: Result<Media, VncError>)
    ensures
        crate::error::viewed(r) == media_of(frame@),
{
    if frame.len() < FRAME_HEADER_BYTES || read_be32(frame, 0) != 1 {
        return Err(VncError::Text("HPSS 应用帧头非法"));
    }
    let found: i32 = to_signed(read_be32(frame, 12));
    if found == encoding::MVS {
        if frame.len() < 20 {
            return Err(VncError::Text("MVS envelope 截断"));
        }
        let body = owned_bytes(vstd::slice::slice_subrange(frame, 20, frame.len()));
        assert(body@ =~= frame@.skip(20));
        return Ok(
            Media::Mvs {
                x: read_be16(frame, 4),
                y: read_be16(frame, 6),
                w: read_be16(frame, 8),
                h: read_be16(frame, 10),
                total: read_be32(frame, 16),
                body,
            },
        );
    }
    if encoding::APPLE_STATE_MIN <= found && found <= encoding::APPLE_STATE_MAX {
        return Ok(Media::State(found));
    }
    Ok(Media::Other(found))
}

/// The rectangle of bytes that begin as a record of the media stream does, whole or not.
pub open spec fn candidate_rect(frame: Seq<u8>) -> Option<MvsRect> {
    if is_frame(frame) && frame_encoding(frame) == encoding::MVS {
        Some(
            MvsRect {
                x: crate::wire::be16(frame, 4),
                y: crate::wire::be16(frame, 6),
                width: crate::wire::be16(frame, 8),
                height: crate::wire::be16(frame, 10),
            },
        )
    } else {
        None
    }
}

/// Reads the rectangle of bytes that begin as a record of the media stream does.
pub fn mvs_envelope_candidate_rect(frame: &[u8]) -> (r: Option<MvsRect>)
    ensures
        r == candidate_rect(frame@),
{
    if frame.len() < FRAME_HEADER_BYTES || read_be32(frame, 0) != 1 || to_signed(
        read_be32(frame, 12),
    ) != encoding::MVS {
        return None;
    }
    Some(
        MvsRect {
            x: read_be16(frame, 4),
            y: read_be16(frame, 6),
            width: read_be16(frame, 8),
            height: read_be16(frame, 10),
        },
    )
}

/// The size that the state of the server tells.
pub open spec fn state_geometry(frame: Seq<u8>) -> Result<DisplaySize, VncError> {
    if !is_frame(frame) || frame_encoding(frame) != encoding::SERVER_STATE || frame.len() != 18
        + SERVER_STATE_PAYLOAD_BYTES || crate::wire::be16(frame, 16) != SERVER_STATE_PAYLOAD_BYTES
        || crate::wire::be16(frame, 18) != 1 {
        Err(VncError::Text("ServerState 帧非法"))
    } else if crate::wire::be16(frame, 20) == 0 || crate::wire::be16(frame, 22) == 0 {
        Err(VncError::Text("ServerState 尺寸为零"))
    } else {
        Ok(
            DisplaySize {
                width: crate::wire::be16(frame, 20),
                height: crate::wire::be16(frame, 22),
            },
        )
    }
}

/// Reads the size that the state of the server tells.
pub fn parse_server_state_geometry(frame: &[u8]) -> (r: Result<DisplaySize, VncError>)
    ensures
        r == state_geometry(frame@),
{
    if frame.len() != 94 || read_be32(frame, 0) != 1 || to_signed(read_be32(frame, 12))
        != encoding::SERVER_STATE || read_be16(frame, 16) != SERVER_STATE_PAYLOAD_BYTES || read_be16(
        frame,
        18,
    ) != 1 {
        return Err(VncError::Text("ServerState 帧非法"));
    }
    match DisplaySize::new(read_be16(frame, 20), read_be16(frame, 22)) {
        Some(size) => Ok(size),
        None => Err(VncError::Text("ServerState 尺寸为零")),
    }
}

/// What a frame is written as: that it has one rectangle, the rectangle, the encoding, and what the
/// encoding says, each number with its high byte first.
pub open spec fn frame_bytes(x: u16, y: u16, w: u16, h: u16, encoding: u16, rest: Seq<u8>) -> Seq<u8> {
    seq![
        0u8,
        0,
        0,
        1,
        (x / 256) as u8,
        (x % 256) as u8,
        (y / 256) as u8,
        (y % 256) as u8,
        (w / 256) as u8,
        (w % 256) as u8,
        (h / 256) as u8,
        (h % 256) as u8,
        0,
        0,
        (encoding / 256) as u8,
        (encoding % 256) as u8,
    ] + rest
}

/// A frame that was written is read back: a record of the media stream, of encoding 0x3f3, with its
/// rectangle, its size and its bytes; the states, of the encodings 0x44c to 0x455, and all others by
/// their encoding.
pub proof fn law_frame_is_read_back(
    x: u16,
    y: u16,
    w: u16,
    h: u16,
    encoding: u16,
    rest: Seq<u8>,
    total: u32,
    body: Seq<u8>,
)
    ensures
        encoding == 0x3f3 && rest == seq![
            (total / 0x100_0000) as u8,
            (total / 0x1_0000 % 256) as u8,
            (total / 256 % 256) as u8,
            (total % 256) as u8,
        ] + body ==> media_of(frame_bytes(x, y, w, h, encoding, rest)) == Ok::<MediaView, VncError>(
            MediaView::Mvs { x, y, w, h, total, body },
        ),
        encoding == 0x3f3 && rest.len() < 4 ==> media_of(frame_bytes(x, y, w, h, encoding, rest))
            is Err,
        0x44c <= encoding <= 0x455 ==> media_of(frame_bytes(x, y, w, h, encoding, rest)) == Ok::<
            MediaView,
            VncError,
        >(MediaView::State(encoding as i32)),
        encoding != 0x3f3 && !(0x44c <= encoding <= 0x455) ==> media_of(
            frame_bytes(x, y, w, h, encoding, rest),
        ) == Ok::<MediaView, VncError>(MediaView::Other(encoding as i32)),
        candidate_rect(frame_bytes(x, y, w, h, encoding, rest)) == (if encoding == 0x3f3 {
            Some(MvsRect { x, y, width: w, height: h })
        } else {
            None
        }),
{
    let frame = frame_bytes(x, y, w, h, encoding, rest);
    assert(crate::wire::be32(frame, 0) == 1);
    assert(crate::wire::be32(frame, 12) == encoding);
    assert(frame_encoding(frame) == encoding);
    assert(crate::wire::be16(frame, 4) == x && crate::wire::be16(frame, 6) == y
        && crate::wire::be16(frame, 8) == w && crate::wire::be16(frame, 10) == h);
    if rest == seq![
        (total / 0x100_0000) as u8,
        (total / 0x1_0000 % 256) as u8,
        (total / 256 % 256) as u8,
        (total % 256) as u8,
    ] + body {
        assert(frame[16] == rest[0] && frame[17] == rest[1] && frame[18] == rest[2] && frame[19]
            == rest[3]);
        assert(crate::wire::be32(frame, 16) == total);
        assert(frame.skip(20) =~= body);
    }
}

/// The state of the server, of encoding 0x451, tells the size of the display: behind its size of 76
/// bytes and the number one stand the width and the height. A size of nothing is refused, and so is
/// every other shape.
pub proof fn law_state_tells_the_size(
    x: u16,
    y: u16,
    w: u16,
    h: u16,
    encoding: u16,
    size: u16,
    kind: u16,
    width: u16,
    height: u16,
    more: Seq<u8>,
)
    ensures
        ({
            let rest = seq![
                (size / 256) as u8,
                (size % 256) as u8,
                (kind / 256) as u8,
                (kind % 256) as u8,
                (width / 256) as u8,
                (width % 256) as u8,
                (height / 256) as u8,
                (height % 256) as u8,
            ] + more;
            let told = state_geometry(frame_bytes(x, y, w, h, encoding, rest));
            &&& told is Ok <==> encoding == 0x451 && size == 76 && kind == 1 && more.len() == 70
                && width > 0 && height > 0
            &&& told matches Ok(found) ==> found == (DisplaySize { width, height })
        }),
{
    let rest = seq![
        (size / 256) as u8,
        (size % 256) as u8,
        (kind / 256) as u8,
        (kind % 256) as u8,
        (width / 256) as u8,
        (width % 256) as u8,
        (height / 256) as u8,
        (height % 256) as u8,
    ] + more;
    let frame = frame_bytes(x, y, w, h, encoding, rest);
    assert(crate::wire::be32(frame, 0) == 1);
    assert(crate::wire::be32(frame, 12) == encoding);
    assert(frame[16] == rest[0] && frame[17] == rest[1] && frame[18] == rest[2] && frame[19]
        == rest[3] && frame[20] == rest[4] && frame[21] == rest[5] && frame[22] == rest[6]
        && frame[23] == rest[7]);
    assert(crate::wire::be16(frame, 16) == size && crate::wire::be16(frame, 18) == kind
        && crate::wire::be16(frame, 20) == width && crate::wire::be16(frame, 22) == height);
}

/// The messages to a Mac tell how long they are and what they ask for: a display of a name, which
/// stands behind fourteen bytes and is filled up with zeros, and a display of a size, whose width
/// stands before its height at the end.
pub proof fn law_messages_tell_what_they_ask(name: Seq<u8>, width: u16, height: u16, i: int)
    requires
        name.len() <= 294,
    ensures
        ({
            let config = display_config_bytes(name);
            let query = display_query_bytes(width, height);
            &&& config.len() == 308
            &&& config[0] == 0x1d
            &&& 4 + 256 * config[2] + config[3] == config.len()
            &&& 12 + 256 * config[12] + config[13] == config.len()
            &&& 0 <= i < name.len() ==> config[14 + i] == name[i]
            &&& name.len() <= i < 294 ==> config[14 + i] == 0
            &&& query.len() == 16
            &&& query[0] == 9
            &&& 256 * query[12] + query[13] == width
            &&& 256 * query[14] + query[15] == height
            &&& 1 <= i < 12 ==> query[i] == (if i == 3 {
                1u8
            } else {
                0
            })
        }),
{
    let query = display_query_bytes(width, height);
    let w = crate::wire::be16_bytes(width);
    let h = crate::wire::be16_bytes(height);
    assert(query[12] == w[0] && query[13] == w[1] && query[14] == h[0] && query[15] == h[1]);
}

} // verus!
