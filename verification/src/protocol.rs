//! The messages of the remote framebuffer protocol.

use vstd::prelude::*;
use vstd::string::*;
use crate::error::VncError;
use crate::text::push_digit;
use crate::wire::{push_be16, push_be32, read_be16, to_word};

pub mod apple_session;
pub mod limits;
pub mod pointer;
pub mod security;

verus! {

/// The bytes of a banner.
pub const RFB_BANNER_BYTES: usize = 12;

/// The result of an authentication that succeeded.
pub const RFB_SECURITY_RESULT_OK: u32 = 0;

/// The bytes of a pixel.
pub const RFB_PIXEL_WIDTH_BYTES: usize = 4;

/// The most bytes that the reason of a failure may have.
pub const SECURITY_FAILURE_REASON_MAX_BYTES: usize = 4096;

/// The bytes between the type of a colour map message and its count.
pub const SERVER_COLOUR_MAP_PADDING_BYTES: usize = 3;

/// The bytes of an entry of a colour map.
pub const SERVER_COLOUR_MAP_ENTRY_WIDTH_BYTES: usize = 6;

/// The bytes between the type of a cut text message and its length.
pub const SERVER_CUT_TEXT_PADDING_BYTES: usize = 3;

/// The most bytes that a cut text may have.
pub const SERVER_CUT_TEXT_MAX_BYTES: usize = 1_048_576;

/// The bytes of a message that sets the pixel format.
pub const SET_PIXEL_FORMAT_MESSAGE_BYTES: usize = 20;

/// The bytes of a message that asks for an update.
pub const FRAMEBUFFER_UPDATE_REQUEST_MESSAGE_BYTES: usize = 10;

/// The encoding of plain pixels.
pub const RAW: i32 = 0;

/// The encoding of a copy from elsewhere on the surface.
pub const COPYRECT: i32 = 1;

pub const RFB_VERSION_3_3: (u8, u8) = (3, 3);

pub const RFB_VERSION_3_7: (u8, u8) = (3, 7);

pub const RFB_VERSION_3_8: (u8, u8) = (3, 8);

/// The encodings that the client asks for, the best first.
pub const SUPPORTED_ENCODINGS: [i32; 2] = [COPYRECT, RAW];

/// The name of a kind of authentication.
pub open spec fn security_name(value: u8) -> &'static str {
    if value == security::INVALID {
        "Invalid"
    } else if value == security::NONE {
        "None（无认证）"
    } else if value == security::VNC_AUTH {
        "VNC Authentication（DES 挑战-响应）"
    } else if value == security::TIGHT {
        "Tight"
    } else if value == security::ULTRA {
        "Ultra"
    } else if value == security::VENCRYPT {
        "VeNCrypt"
    } else if value == security::TLS {
        "TLS"
    } else if value == security::APPLE_ARD {
        "Apple Remote Desktop（Diffie-Hellman，macOS 私有）"
    } else if value == security::APPLE_RSA_SRP {
        "Apple RSA-SRP 混合（macOS 私有）"
    } else if value == security::APPLE_SRP {
        "Apple SRP-6a（SHA-512 + PBKDF2，macOS 私有）"
    } else if value == security::APPLE_ARD_39 {
        "Apple Remote Desktop v3.9（macOS 私有）"
    } else {
        "未知"
    }
}

/// The name of a kind of authentication.
pub fn security_type_name(value: u8) -> (r: &'static str)
    ensures
        r == security_name(value),
{
    match value {
        security::INVALID => "Invalid",
        security::NONE => "None（无认证）",
        security::VNC_AUTH => "VNC Authentication（DES 挑战-响应）",
        security::TIGHT => "Tight",
        security::ULTRA => "Ultra",
        security::VENCRYPT => "VeNCrypt",
        security::TLS => "TLS",
        security::APPLE_ARD => "Apple Remote Desktop（Diffie-Hellman，macOS 私有）",
        security::APPLE_RSA_SRP => "Apple RSA-SRP 混合（macOS 私有）",
        security::APPLE_SRP => "Apple SRP-6a（SHA-512 + PBKDF2，macOS 私有）",
        security::APPLE_ARD_39 => "Apple Remote Desktop v3.9（macOS 私有）",
        _ => "未知",
    }
}

/// A banner that was read.
#[derive(Debug)]
pub struct ParsedRfbBanner {
    pub major: u16,
    pub minor: u16,
    /// The banner without its line end.
    pub display: String,
    /// The banner as it came.
    pub wire: [u8; RFB_BANNER_BYTES],
}

/// The banner of a version.
pub open spec fn banner_bytes(major: u16, minor: u16) -> Seq<u8> {
    seq![
        0x52,
        0x46,
        0x42,
        0x20,
        (48 + major / 100) as u8,
        (48 + major / 10 % 10) as u8,
        (48 + major % 10) as u8,
        0x2e,
        (48 + minor / 100) as u8,
        (48 + minor / 10 % 10) as u8,
        (48 + minor % 10) as u8,
        0x0a,
    ]
}

/// The three digits of a part of a version.
pub open spec fn three_digits(n: u16) -> Seq<char> {
    seq![
        crate::text::digit_char(n as int / 100),
        crate::text::digit_char(n as int / 10 % 10),
        crate::text::digit_char(n as int % 10),
    ]
}

/// The banner of a version as text, without its line end.
pub open spec fn banner_text(major: u16, minor: u16) -> Seq<char> {
    "RFB "@ + three_digits(major) + "."@ + three_digits(minor)
}

/// Whether the three bytes at `at` write this number.
pub open spec fn writes_number(bytes: Seq<u8>, at: int, n: u16) -> bool {
    &&& n <= 999
    &&& bytes[at] == 48 + n / 100
    &&& bytes[at + 1] == 48 + n / 10 % 10
    &&& bytes[at + 2] == 48 + n % 10
}

proof fn lemma_digits(hundreds: int, tens: int, ones: int)
    requires
        0 <= hundreds <= 9,
        0 <= tens <= 9,
        0 <= ones <= 9,
    ensures
        (hundreds * 100 + tens * 10 + ones) / 100 == hundreds,
        (hundreds * 100 + tens * 10 + ones) / 10 == hundreds * 10 + tens,
        (hundreds * 100 + tens * 10 + ones) / 10 % 10 == tens,
        (hundreds * 100 + tens * 10 + ones) % 10 == ones,
{
}

/// The number that three digits write, where they are digits.
fn three_digit_number(bytes: &[u8], at: usize) -> (r: Option<u16>)
    requires
        at + 3 <= bytes@.len(),
    ensures
        match r {
            Some(n) => writes_number(bytes@, at as int, n),
            None => forall|n: u16| !#[trigger] writes_number(bytes@, at as int, n),
        },
{
    let (a, b, c) = (bytes[at], bytes[at + 1], bytes[at + 2]);
    if a < 48 || a > 57 || b < 48 || b > 57 || c < 48 || c > 57 {
        return None;
    }
    let (hundreds, tens, ones): (u16, u16, u16) = ((a - 48) as u16, (b - 48) as u16, (c - 48) as u16);
    let n: u16 = hundreds * 100 + tens * 10 + ones;
    proof {
        lemma_digits(hundreds as int, tens as int, ones as int);
    }
    Some(n)
}

fn push_three_digits(out: &mut String, n: u16)
    requires
        n <= 999,
    ensures
        final(out)@ == old(out)@ + three_digits(n),
{
    push_digit(out, (n / 100) as u8);
    push_digit(out, (n / 10 % 10) as u8);
    push_digit(out, (n % 10) as u8);
    assert(out@ =~= old(out)@ + three_digits(n));
}

/// Reads a banner.
pub fn parse_rfb_banner(bytes: &[u8]) -> (r: Result<ParsedRfbBanner, VncError>)
    ensures
        match r {
            Ok(banner) => {
                &&& banner.major <= 999
                &&& banner.minor <= 999
                &&& bytes@ == banner_bytes(banner.major, banner.minor)
                &&& banner.wire@ == bytes@
                &&& banner.display@ == banner_text(banner.major, banner.minor)
            },
            Err(e) => {
                &&& e == VncError::Text("RFB banner 格式非法")
                &&& forall|major: u16, minor: u16|
                    major <= 999 && minor <= 999 ==> bytes@ != #[trigger] banner_bytes(major, minor)
            },
        },
{
    if bytes.len() != 12 {
        return Err(VncError::Text("RFB banner 格式非法"));
    }
    let framed: bool = bytes[0] == 0x52 && bytes[1] == 0x46 && bytes[2] == 0x42 && bytes[3] == 0x20
        && bytes[7] == 0x2e && bytes[11] == 0x0a;
    let major: Option<u16> = three_digit_number(bytes, 4);
    let minor: Option<u16> = three_digit_number(bytes, 8);
    proof {
        assert forall|m: u16, n: u16| m <= 999 && n <= 999 && bytes@ == #[trigger] banner_bytes(
            m,
            n,
        ) implies framed && writes_number(bytes@, 4, m) && writes_number(bytes@, 8, n) by {
            assert(banner_bytes(m, n)[0] == bytes@[0]);
        }
    }
    match (major, minor) {
        (Some(major), Some(minor)) => {
            if !framed {
                return Err(VncError::Text("RFB banner 格式非法"));
            }
            assert(bytes@ =~= banner_bytes(major, minor));
            let mut wire: [u8; 12] = [0u8; 12];
            let mut i: usize = 0;
            while i < 12
                invariant
                    i <= 12,
                    bytes@.len() == 12,
                    forall|k: int| 0 <= k < i ==> wire@[k] == bytes@[k],
                decreases 12 - i,
            {
                wire[i] = bytes[i];
                i = i + 1;
            }
            assert(wire@ =~= bytes@);
            let mut display = String::new();
            display.append("RFB ");
            push_three_digits(&mut display, major);
            display.append(".");
            push_three_digits(&mut display, minor);
            assert(display@ =~= banner_text(major, minor));
            Ok(ParsedRfbBanner { major, minor, display, wire })
        },
        _ => Err(VncError::Text("RFB banner 格式非法")),
    }
}

/// Writes the banner of a version.
pub fn encode_rfb_banner(major: u16, minor: u16) -> (r: Result<[u8; RFB_BANNER_BYTES], VncError>)
    ensures
        match r {
            Ok(bytes) => major <= 999 && minor <= 999 && bytes@ == banner_bytes(major, minor),
            Err(e) => (major > 999 || minor > 999) && e == VncError::Text("RFB 版本号超出三位数字"),
        },
{
    if major > 999 || minor > 999 {
        return Err(VncError::Text("RFB 版本号超出三位数字"));
    }
    let bytes: [u8; 12] = [
        0x52,
        0x46,
        0x42,
        0x20,
        (48 + major / 100) as u8,
        (48 + major / 10 % 10) as u8,
        (48 + major % 10) as u8,
        0x2e,
        (48 + minor / 100) as u8,
        (48 + minor / 10 % 10) as u8,
        (48 + minor % 10) as u8,
        0x0a,
    ];
    assert(bytes@ =~= banner_bytes(major, minor));
    Ok(bytes)
}

proof fn lemma_same_digits(m: int, n: int)
    requires
        0 <= m <= 999,
        0 <= n <= 999,
        m / 100 == n / 100,
        m / 10 % 10 == n / 10 % 10,
        m % 10 == n % 10,
    ensures
        m == n,
{
    assert(m == m / 100 * 100 + m / 10 % 10 * 10 + m % 10);
    assert(n == n / 100 * 100 + n / 10 % 10 * 10 + n % 10);
}

/// A banner tells its version: no two versions have the same.
pub proof fn law_banner_tells_version(major: u16, minor: u16, other_major: u16, other_minor: u16)
    requires
        major <= 999,
        minor <= 999,
        other_major <= 999,
        other_minor <= 999,
        banner_bytes(major, minor) == banner_bytes(other_major, other_minor),
    ensures
        major == other_major,
        minor == other_minor,
{
    let a = banner_bytes(major, minor);
    let b = banner_bytes(other_major, other_minor);
    assert(major / 100 == other_major / 100 && major / 10 % 10 == other_major / 10 % 10 && major
        % 10 == other_major % 10) by {
        assert(a[4] == b[4] && a[5] == b[5] && a[6] == b[6]);
    }
    assert(minor / 100 == other_minor / 100 && minor / 10 % 10 == other_minor / 10 % 10 && minor
        % 10 == other_minor % 10) by {
        assert(a[8] == b[8] && a[9] == b[9] && a[10] == b[10]);
    }
    lemma_same_digits(major as int, other_major as int);
    lemma_same_digits(minor as int, other_minor as int);
}

/// How a pixel is laid out.
#[derive(Clone, Copy, Debug, PartialEq, Eq, Structural)]
pub struct PixelFormat {
    pub bits_per_pixel: u8,
    pub depth: u8,
    pub big_endian: bool,
    pub true_colour: bool,
    pub red_max: u16,
    pub green_max: u16,
    pub blue_max: u16,
    pub red_shift: u8,
    pub green_shift: u8,
    pub blue_shift: u8,
}

/// A flag as a byte.
pub open spec fn flag(on: bool) -> u8 {
    if on {
        1
    } else {
        0
    }
}

/// The bytes of a pixel format.
pub open spec fn pixel_format_bytes(format: PixelFormat) -> Seq<u8> {
    seq![format.bits_per_pixel, format.depth, flag(format.big_endian), flag(format.true_colour)]
        + crate::wire::be16_bytes(format.red_max) + crate::wire::be16_bytes(format.green_max)
        + crate::wire::be16_bytes(format.blue_max) + seq![
        format.red_shift,
        format.green_shift,
        format.blue_shift,
        0,
        0,
        0,
    ]
}

/// The pixel format that these bytes give.
pub open spec fn pixel_format_at(bytes: Seq<u8>, at: int) -> PixelFormat {
    PixelFormat {
        bits_per_pixel: bytes[at],
        depth: bytes[at + 1],
        big_endian: bytes[at + 2] != 0,
        true_colour: bytes[at + 3] != 0,
        red_max: crate::wire::be16(bytes, at + 4),
        green_max: crate::wire::be16(bytes, at + 6),
        blue_max: crate::wire::be16(bytes, at + 8),
        red_shift: bytes[at + 10],
        green_shift: bytes[at + 11],
        blue_shift: bytes[at + 12],
    }
}

impl PixelFormat {
    /// The format that the client works with: 32 bits, the least significant byte first, blue
    /// lowest.
    pub fn ours() -> (r: PixelFormat)
        ensures
            r == (PixelFormat {
                bits_per_pixel: 32,
                depth: 24,
                big_endian: false,
                true_colour: true,
                red_max: 255,
                green_max: 255,
                blue_max: 255,
                red_shift: 16,
                green_shift: 8,
                blue_shift: 0,
            }),
    {
        PixelFormat {
            bits_per_pixel: 32,
            depth: 24,
            big_endian: false,
            true_colour: true,
            red_max: 255,
            green_max: 255,
            blue_max: 255,
            red_shift: 16,
            green_shift: 8,
            blue_shift: 0,
        }
    }

    /// Reads the pixel format at `at`.
    pub fn read(bytes: &[u8], at: usize) -> (r: PixelFormat)
        requires
            at + 16 <= bytes@.len(),
        ensures
            r == pixel_format_at(bytes@, at as int),
    {
        PixelFormat {
            bits_per_pixel: bytes[at],
            depth: bytes[at + 1],
            big_endian: bytes[at + 2] != 0,
            true_colour: bytes[at + 3] != 0,
            red_max: read_be16(bytes, at + 4),
            green_max: read_be16(bytes, at + 6),
            blue_max: read_be16(bytes, at + 8),
            red_shift: bytes[at + 10],
            green_shift: bytes[at + 11],
            blue_shift: bytes[at + 12],
        }
    }
}

/// A pixel format is read back as it was written.
pub proof fn law_pixel_format_is_read_back(front: Seq<u8>, format: PixelFormat, rest: Seq<u8>)
    ensures
        pixel_format_at(front + pixel_format_bytes(format) + rest, front.len() as int) == format,
{
    let bytes = front + pixel_format_bytes(format) + rest;
    let at = front.len() as int;
    let middle = pixel_format_bytes(format);
    assert(forall|i: int| 0 <= i < 16 ==> #[trigger] bytes[at + i] == middle[i]);
    assert(bytes.subrange(at + 4, at + 6) =~= crate::wire::be16_bytes(format.red_max));
    assert(bytes.subrange(at + 6, at + 8) =~= crate::wire::be16_bytes(format.green_max));
    assert(bytes.subrange(at + 8, at + 10) =~= crate::wire::be16_bytes(format.blue_max));
    crate::wire::lemma_be16(bytes, at + 4, format.red_max);
    crate::wire::lemma_be16(bytes, at + 6, format.green_max);
    crate::wire::lemma_be16(bytes, at + 8, format.blue_max);
}

/// The types of the messages that a client sends.
#[derive(Clone, Copy, Debug, PartialEq, Eq, Structural)]
pub enum RfbClientMessageType {
    SetPixelFormat,
    SetEncodings,
    FramebufferUpdateRequest,
    KeyEvent,
    PointerEvent,
}

impl RfbClientMessageType {
    /// The byte of this type.
    pub open spec fn byte(self) -> u8 {
        match self {
            RfbClientMessageType::SetPixelFormat => 0,
            RfbClientMessageType::SetEncodings => 2,
            RfbClientMessageType::FramebufferUpdateRequest => 3,
            RfbClientMessageType::KeyEvent => 4,
            RfbClientMessageType::PointerEvent => 5,
        }
    }

    /// The byte of this type.
    pub fn wire_value(self) -> (r: u8)
        ensures
            r == self.byte(),
    {
        match self {
            RfbClientMessageType::SetPixelFormat => 0,
            RfbClientMessageType::SetEncodings => 2,
            RfbClientMessageType::FramebufferUpdateRequest => 3,
            RfbClientMessageType::KeyEvent => 4,
            RfbClientMessageType::PointerEvent => 5,
        }
    }
}

/// The types of the messages that a server sends.
#[derive(Clone, Copy, Debug, PartialEq, Eq, Structural)]
pub enum RfbServerMessageType {
    FramebufferUpdate,
    SetColourMapEntries,
    Bell,
    ServerCutText,
}

/// The type of this byte.
pub open spec fn server_message_type(value: u8) -> Result<RfbServerMessageType, VncError> {
    if value == 0 {
        Ok(RfbServerMessageType::FramebufferUpdate)
    } else if value == 1 {
        Ok(RfbServerMessageType::SetColourMapEntries)
    } else if value == 2 {
        Ok(RfbServerMessageType::Bell)
    } else if value == 3 {
        Ok(RfbServerMessageType::ServerCutText)
    } else {
        Err(
            VncError::Number {
                before: "未知标准 RFB 服务器消息类型 ",
                value: value as u64,
                after: "",
            },
        )
    }
}

impl TryFrom<u8> for RfbServerMessageType {
    type Error = VncError;

    fn try_from(value: u8) -> (r: Result<Self, VncError>) {
        match value {
            0 => Ok(RfbServerMessageType::FramebufferUpdate),
            1 => Ok(RfbServerMessageType::SetColourMapEntries),
            2 => Ok(RfbServerMessageType::Bell),
            3 => Ok(RfbServerMessageType::ServerCutText),
            _ => Err(
                VncError::Number {
                    before: "未知标准 RFB 服务器消息类型 ",
                    value: value as u64,
                    after: "",
                },
            ),
        }
    }
}

impl vstd::std_specs::convert::TryFromSpecImpl<u8> for RfbServerMessageType {
    open spec fn obeys_try_from_spec() -> bool {
        true
    }

    open spec fn try_from_spec(value: u8) -> Result<Self, VncError> {
        server_message_type(value)
    }
}

/// Tells the server how pixels shall be laid out.
pub fn msg_set_pixel_format(format: &PixelFormat) -> (r: [u8; SET_PIXEL_FORMAT_MESSAGE_BYTES])
    ensures
        r@ == seq![RfbClientMessageType::SetPixelFormat.byte(), 0u8, 0, 0] + pixel_format_bytes(
            *format,
        ),
{
    let message: [u8; 20] = [
        RfbClientMessageType::SetPixelFormat.wire_value(),
        0,
        0,
        0,
        format.bits_per_pixel,
        format.depth,
        if format.big_endian {
            1
        } else {
            0
        },
        if format.true_colour {
            1
        } else {
            0
        },
        (format.red_max / 256) as u8,
        (format.red_max % 256) as u8,
        (format.green_max / 256) as u8,
        (format.green_max % 256) as u8,
        (format.blue_max / 256) as u8,
        (format.blue_max % 256) as u8,
        format.red_shift,
        format.green_shift,
        format.blue_shift,
        0,
        0,
        0,
    ];
    assert(message@ =~= seq![RfbClientMessageType::SetPixelFormat.byte(), 0u8, 0, 0]
        + pixel_format_bytes(*format));
    message
}

/// The bytes of a list of encodings.
pub open spec fn encodings_bytes(encodings: Seq<i32>) -> Seq<u8>
    decreases encodings.len(),
{
    if encodings.len() == 0 {
        Seq::empty()
    } else {
        encodings_bytes(encodings.drop_last()) + crate::wire::be32_bytes(
            crate::wire::word_of(encodings.last()),
        )
    }
}

/// The message that asks for these encodings.
pub open spec fn set_encodings_bytes(encodings: Seq<i32>) -> Seq<u8> {
    seq![RfbClientMessageType::SetEncodings.byte(), 0u8] + crate::wire::be16_bytes(
        encodings.len() as u16,
    ) + encodings_bytes(encodings)
}

/// Asks the server for these encodings, the best first.
pub fn msg_set_encodings(encodings: &[i32]) -> (r: Result<Vec<u8>, VncError>)
    ensures
        match r {
            Ok(message) => encodings@.len() <= u16::MAX && message@ == set_encodings_bytes(
                encodings@,
            ),
            Err(e) => encodings@.len() > u16::MAX && e == VncError::Text("SetEncodings 编码数量超出 u16"),
        },
{
    if encodings.len() > 0xffff {
        return Err(VncError::Text("SetEncodings 编码数量超出 u16"));
    }
    let mut message: Vec<u8> = Vec::new();
    message.push(RfbClientMessageType::SetEncodings.wire_value());
    message.push(0);
    push_be16(&mut message, encodings.len() as u16);
    let mut i: usize = 0;
    assert(encodings@.take(0) =~= Seq::empty());
    assert(message@ =~= seq![RfbClientMessageType::SetEncodings.byte(), 0u8]
        + crate::wire::be16_bytes(encodings@.len() as u16) + encodings_bytes(encodings@.take(0)));
    while i < encodings.len()
        invariant
            i <= encodings@.len(),
            message@ == seq![RfbClientMessageType::SetEncodings.byte(), 0u8]
                + crate::wire::be16_bytes(encodings@.len() as u16) + encodings_bytes(
                encodings@.take(i as int),
            ),
        decreases encodings@.len() - i,
    {
        let ghost before = message@;
        push_be32(&mut message, to_word(encodings[i]));
        proof {
            let next = encodings@.take(i + 1);
            assert(next.drop_last() =~= encodings@.take(i as int));
            assert(next.last() == encodings@[i as int]);
            assert(message@ =~= seq![RfbClientMessageType::SetEncodings.byte(), 0u8]
                + crate::wire::be16_bytes(encodings@.len() as u16) + encodings_bytes(next));
        }
        i = i + 1;
    }
    assert(encodings@.take(i as int) =~= encodings@);
    Ok(message)
}

/// The message that asks for an update of a part of the surface.
pub open spec fn update_request_bytes(
    incremental: bool,
    x: u16,
    y: u16,
    width: u16,
    height: u16,
) -> Seq<u8> {
    seq![RfbClientMessageType::FramebufferUpdateRequest.byte(), flag(incremental)]
        + crate::wire::be16_bytes(x) + crate::wire::be16_bytes(y) + crate::wire::be16_bytes(width)
        + crate::wire::be16_bytes(height)
}

/// Asks the server for an update of a part of the surface.
pub fn msg_fb_update_request(incremental: bool, x: u16, y: u16, width: u16, height: u16) -> (r:
    [u8; FRAMEBUFFER_UPDATE_REQUEST_MESSAGE_BYTES])
    ensures
        r@ == update_request_bytes(incremental, x, y, width, height),
{
    let message: [u8; 10] = [
        RfbClientMessageType::FramebufferUpdateRequest.wire_value(),
        if incremental {
            1
        } else {
            0
        },
        (x / 256) as u8,
        (x % 256) as u8,
        (y / 256) as u8,
        (y % 256) as u8,
        (width / 256) as u8,
        (width % 256) as u8,
        (height / 256) as u8,
        (height % 256) as u8,
    ];
    assert(message@ =~= update_request_bytes(incremental, x, y, width, height));
    message
}

/// Tells the server that a key went down or up.
pub fn msg_key_event(down: bool, keysym: u32) -> (r: [u8; 8])
    ensures
        r@ == seq![RfbClientMessageType::KeyEvent.byte(), flag(down), 0u8, 0u8]
            + crate::wire::be32_bytes(keysym),
{
    let message: [u8; 8] = [
        RfbClientMessageType::KeyEvent.wire_value(),
        if down {
            1
        } else {
            0
        },
        0,
        0,
        (keysym / 0x100_0000) as u8,
        (keysym / 0x1_0000 % 256) as u8,
        (keysym / 0x100 % 256) as u8,
        (keysym % 256) as u8,
    ];
    proof {
        crate::wire::lemma_be32_places(keysym);
    }
    assert(message@ =~= seq![RfbClientMessageType::KeyEvent.byte(), flag(down), 0u8, 0u8]
        + crate::wire::be32_bytes(keysym));
    message
}

/// Tells the server where the pointer is and which of its buttons are down.
pub fn msg_pointer_event(button_mask: u8, x: u16, y: u16) -> (r: [u8; 6])
    ensures
        r@ == seq![RfbClientMessageType::PointerEvent.byte(), button_mask]
            + crate::wire::be16_bytes(x) + crate::wire::be16_bytes(y),
{
    let message: [u8; 6] = [
        RfbClientMessageType::PointerEvent.wire_value(),
        button_mask,
        (x / 256) as u8,
        (x % 256) as u8,
        (y / 256) as u8,
        (y % 256) as u8,
    ];
    assert(message@ =~= seq![RfbClientMessageType::PointerEvent.byte(), button_mask]
        + crate::wire::be16_bytes(x) + crate::wire::be16_bytes(y));
    message
}

/// A banner is the letters RFB and a space, three digits of the one number, a point, three digits of
/// the other, and a line end, and its text is the same without the line end.
pub proof fn law_banner_writes_its_numbers(major: u16, minor: u16)
    requires
        major <= 999,
        minor <= 999,
    ensures
        ({
            let b = banner_bytes(major, minor);
            &&& b.len() == 12
            &&& b[0] == 82 && b[1] == 70 && b[2] == 66 && b[3] == 32 && b[7] == 46 && b[11] == 10
            &&& 100 * (b[4] - 48) + 10 * (b[5] - 48) + (b[6] - 48) == major
            &&& 100 * (b[8] - 48) + 10 * (b[9] - 48) + (b[10] - 48) == minor
            &&& 48 <= b[4] <= 57 && 48 <= b[5] <= 57 && 48 <= b[6] <= 57
            &&& 48 <= b[8] <= 57 && 48 <= b[9] <= 57 && 48 <= b[10] <= 57
        }),
        crate::text::number_written(three_digits(major), 10) == major,
{
    let t = three_digits(major);
    reveal_with_fuel(crate::text::number_written, 4);
    assert(t.drop_last() =~= seq![t[0], t[1]]);
    assert(t.drop_last().drop_last() =~= seq![t[0]]);
    assert(t.drop_last().drop_last().drop_last() =~= Seq::empty());
}

/// A pixel format stands in sixteen bytes: its width, its depth, the order of its bytes and whether
/// it has colors of its own, the greatest red, green and blue, and by how many bits each of them
/// stands to the left, red before green before blue.
pub proof fn law_places_of_a_pixel_format(format: PixelFormat)
    ensures
        ({
            let b = pixel_format_bytes(format);
            &&& b.len() == 16
            &&& b[0] == format.bits_per_pixel
            &&& b[1] == format.depth
            &&& b[2] == (if format.big_endian {
                1u8
            } else {
                0
            })
            &&& b[3] == (if format.true_colour {
                1u8
            } else {
                0
            })
            &&& 256 * b[4] + b[5] == format.red_max
            &&& 256 * b[6] + b[7] == format.green_max
            &&& 256 * b[8] + b[9] == format.blue_max
            &&& b[10] == format.red_shift
            &&& b[11] == format.green_shift
            &&& b[12] == format.blue_shift
        }),
{
    let b = pixel_format_bytes(format);
    let red = crate::wire::be16_bytes(format.red_max);
    let green = crate::wire::be16_bytes(format.green_max);
    let blue = crate::wire::be16_bytes(format.blue_max);
    assert(b[4] == red[0] && b[5] == red[1] && b[6] == green[0] && b[7] == green[1] && b[8]
        == blue[0] && b[9] == blue[1]);
}

proof fn lemma_encodings(encodings: Seq<i32>, i: int)
    requires
        0 <= i < encodings.len(),
    ensures
        encodings_bytes(encodings).len() == 4 * encodings.len(),
        encodings_bytes(encodings).subrange(4 * i, 4 * i + 4) == crate::wire::be32_bytes(
            crate::wire::word_of(encodings[i]),
        ),
    decreases encodings.len(),
{
    reveal_with_fuel(encodings_bytes, 2);
    let front = encodings.drop_last();
    let all = encodings_bytes(encodings);
    let last = crate::wire::be32_bytes(crate::wire::word_of(encodings.last()));
    if front.len() > 0 {
        lemma_encodings(front, 0);
    }
    if i < front.len() {
        lemma_encodings(front, i);
        assert(all.subrange(4 * i, 4 * i + 4) =~= encodings_bytes(front).subrange(4 * i, 4 * i + 4));
        assert(front[i] == encodings[i]);
    } else {
        assert(all.subrange(4 * i, 4 * i + 4) =~= last);
    }
}

/// The message that asks for encodings tells their number and then each of them, in their order,
/// those below zero too.
pub proof fn law_encodings_are_told_in_order(encodings: Seq<i32>, i: int)
    requires
        0 <= i < encodings.len(),
        encodings.len() <= 0xffff,
    ensures
        ({
            let b = set_encodings_bytes(encodings);
            &&& b.len() == 4 + 4 * encodings.len()
            &&& b[0] == 2
            &&& 256 * b[2] + b[3] == encodings.len()
            &&& crate::wire::signed_of(crate::wire::be32(b, 4 + 4 * i)) == encodings[i]
        }),
{
    let b = set_encodings_bytes(encodings);
    let count = crate::wire::be16_bytes(encodings.len() as u16);
    lemma_encodings(encodings, i);
    assert(b[2] == count[0] && b[3] == count[1]);
    assert(b.subrange(4 + 4 * i, 8 + 4 * i) =~= encodings_bytes(encodings).subrange(
        4 * i,
        4 * i + 4,
    ));
    crate::wire::lemma_be32(b, 4 + 4 * i, crate::wire::word_of(encodings[i]));
    crate::wire::lemma_signed_word(encodings[i]);
}

/// The message that asks for an update tells whether changes will do, and then the corner and the
/// size of the part, across before down. The types of the messages are the numbers that both sides
/// know.
pub proof fn law_update_request_tells_the_part(incremental: bool, x: u16, y: u16, w: u16, h: u16, t: u8)
    ensures
        ({
            let b = update_request_bytes(incremental, x, y, w, h);
            &&& b.len() == 10
            &&& b[0] == 3
            &&& b[1] == (if incremental {
                1u8
            } else {
                0
            })
            &&& 256 * b[2] + b[3] == x
            &&& 256 * b[4] + b[5] == y
            &&& 256 * b[6] + b[7] == w
            &&& 256 * b[8] + b[9] == h
        }),
        RfbClientMessageType::SetPixelFormat.byte() == 0,
        RfbClientMessageType::KeyEvent.byte() == 4,
        RfbClientMessageType::PointerEvent.byte() == 5,
        server_message_type(t) == Ok::<RfbServerMessageType, VncError>(
            RfbServerMessageType::FramebufferUpdate,
        ) <==> t == 0,
        server_message_type(t) == Ok::<RfbServerMessageType, VncError>(
            RfbServerMessageType::SetColourMapEntries,
        ) <==> t == 1,
        server_message_type(t) == Ok::<RfbServerMessageType, VncError>(RfbServerMessageType::Bell)
            <==> t == 2,
        server_message_type(t) == Ok::<RfbServerMessageType, VncError>(
            RfbServerMessageType::ServerCutText,
        ) <==> t == 3,
{
    let b = update_request_bytes(incremental, x, y, w, h);
    let (bx, by) = (crate::wire::be16_bytes(x), crate::wire::be16_bytes(y));
    let (bw, bh) = (crate::wire::be16_bytes(w), crate::wire::be16_bytes(h));
    assert(b[2] == bx[0] && b[3] == bx[1] && b[4] == by[0] && b[5] == by[1] && b[6] == bw[0] && b[7]
        == bw[1] && b[8] == bh[0] && b[9] == bh[1]);
}

} // verus!
