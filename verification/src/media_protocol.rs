//! The control messages of media streams.

use vstd::prelude::*;
use crate::error::VncError;
use crate::wire_cursor::{is_all_zero, WireCursor};

verus! {

/// The stream that control rectangles belong to.
pub const PRIMARY_MEDIA_STREAM_ID: u32 = 1;

/// The rectangle encoding of control messages.
pub const MEDIA_STREAM_CONTROL_ENCODING: i32 = 0x03f2;

/// The version of the message that announces ports.
pub const MEDIA_STREAM_PORT_ANNOUNCEMENT_VERSION: u16 = 1;

/// The kind of the message that announces ports.
pub const MEDIA_STREAM_PORT_ANNOUNCEMENT_KIND: u16 = 1;

/// The version of the answer message.
pub const MEDIA_STREAM_ANSWER_VERSION: u16 = 2;

/// The kind of the answer message.
pub const MEDIA_STREAM_ANSWER_KIND: u16 = 2;

/// The bytes of a port announcement behind its length.
pub const MEDIA_STREAM_PORT_ANNOUNCEMENT_BODY_LEN: usize = 36;

/// The flags of a descriptor.
#[derive(Clone, Copy, Debug, PartialEq, Eq, Structural)]
pub struct MediaStreamDescriptorFlags(pub u32);

impl MediaStreamDescriptorFlags {
    /// Whether the encoder has sent the descriptor.
    pub open spec fn emitted(self) -> bool {
        self.0 % 2 == 1
    }

    /// Whether the encoder has sent the descriptor.
    pub fn encoder_emitted_marker(self) -> (r: bool)
        ensures
            r == self.emitted(),
    {
        self.0 % 2 == 1
    }

    /// Whether the stream has a high dynamic range.
    pub fn hdr(self) -> (r: bool)
        ensures
            r == ((self.0 / 2) % 2 == 1),
    {
        (self.0 / 2) % 2 == 1
    }

    fn is_zero(self) -> (r: bool)
        ensures
            r == (self.0 == 0),
    {
        self.0 == 0
    }
}

/// A port and its flags.
#[derive(Clone, Copy, Debug, PartialEq, Eq, Structural)]
pub struct MediaStreamPortDescriptor {
    pub port: u16,
    pub flags: MediaStreamDescriptorFlags,
}

impl MediaStreamPortDescriptor {
    /// Whether there is a port.
    pub fn is_announced(self) -> (r: bool)
        ensures
            r == (self.port != 0),
    {
        self.port != 0
    }
}

/// The ports of a session.
#[derive(Clone, Copy, Debug, PartialEq, Eq, Structural)]
pub struct MediaStreamPortAnnouncement {
    pub message_flags: u32,
    pub audio: MediaStreamPortDescriptor,
    pub video_stream_1: MediaStreamPortDescriptor,
    pub video_stream_2: MediaStreamPortDescriptor,
}

/// The kinds of control messages.
#[derive(Clone, Copy, Debug, PartialEq, Eq, Structural)]
pub enum MediaStreamControlKind {
    PortAnnouncement,
    Answer,
}

/// The beginning of a control message.
#[derive(Clone, Copy, Debug, PartialEq, Eq, Structural)]
pub struct MediaStreamControlDiscriminator {
    pub declared_body_len: usize,
    pub kind: MediaStreamControlKind,
}

/// The kind that a version and a kind field stand for.
pub open spec fn control_kind(version: u16, kind: u16) -> Result<MediaStreamControlKind, VncError> {
    if version == MEDIA_STREAM_PORT_ANNOUNCEMENT_VERSION && kind
        == MEDIA_STREAM_PORT_ANNOUNCEMENT_KIND {
        Ok(MediaStreamControlKind::PortAnnouncement)
    } else if version == MEDIA_STREAM_ANSWER_VERSION && kind == MEDIA_STREAM_ANSWER_KIND {
        Ok(MediaStreamControlKind::Answer)
    } else {
        Err(
            VncError::Numbers {
                before: "不支持的媒体流控制消息 version=",
                first: version as u64,
                between: " kind=",
                second: kind as u64,
                after: "",
            },
        )
    }
}

/// The beginning of a control message.
pub open spec fn discriminator_of(payload: Seq<u8>) -> Result<MediaStreamControlDiscriminator, VncError> {
    match crate::wire_cursor::u16_at(payload, 0, "消息体长度") {
        Err(e) => Err(e),
        Ok(length) => match crate::wire_cursor::u16_at(payload, 2, "消息版本") {
            Err(e) => Err(e),
            Ok(version) => match crate::wire_cursor::u16_at(payload, 4, "消息种类") {
                Err(e) => Err(e),
                Ok(kind) => match control_kind(version, kind) {
                    Err(e) => Err(e),
                    Ok(kind) => Ok(
                        MediaStreamControlDiscriminator {
                            declared_body_len: length as usize,
                            kind,
                        },
                    ),
                },
            },
        },
    }
}

/// Reads the beginning of a control message.
pub fn parse_media_stream_control_discriminator(payload: &[u8]) -> (r: Result<
    MediaStreamControlDiscriminator,
    VncError,
>)
    ensures
        r == discriminator_of(payload@),
{
    let mut cursor = WireCursor::new(payload);
    let declared_body_len: usize = cursor.read_u16("消息体长度")? as usize;
    let version: u16 = cursor.read_u16("消息版本")?;
    let kind: u16 = cursor.read_u16("消息种类")?;
    let kind = if version == MEDIA_STREAM_PORT_ANNOUNCEMENT_VERSION && kind
        == MEDIA_STREAM_PORT_ANNOUNCEMENT_KIND {
        MediaStreamControlKind::PortAnnouncement
    } else if version == MEDIA_STREAM_ANSWER_VERSION && kind == MEDIA_STREAM_ANSWER_KIND {
        MediaStreamControlKind::Answer
    } else {
        return Err(
            VncError::Numbers {
                before: "不支持的媒体流控制消息 version=",
                first: version as u64,
                between: " kind=",
                second: kind as u64,
                after: "",
            },
        );
    };
    Ok(MediaStreamControlDiscriminator { declared_body_len, kind })
}

/// Reads the kind of a control message.
pub fn parse_media_stream_control_kind(payload: &[u8]) -> (r: Result<MediaStreamControlKind, VncError>)
    ensures
        r == (match discriminator_of(payload@) {
            Ok(d) => Ok(d.kind),
            Err(e) => Err(e),
        }),
{
    let discriminator = parse_media_stream_control_discriminator(payload)?;
    Ok(discriminator.kind)
}

/// The descriptor that is written at `at`.
pub open spec fn descriptor_at(frame: Seq<u8>, at: int) -> MediaStreamPortDescriptor {
    MediaStreamPortDescriptor {
        port: crate::wire::be16(frame, at),
        flags: MediaStreamDescriptorFlags(crate::wire::be32(frame, at + 2)),
    }
}

/// Why the flags of a descriptor do not go with its port, where they do not.
pub open spec fn descriptor_refusal(d: MediaStreamPortDescriptor, role: &'static str) -> Option<
    VncError,
> {
    if d.port != 0 && !d.flags.emitted() {
        Some(VncError::Role { role, after: " 非零端口缺少编码器已发出标记" })
    } else if d.port == 0 && d.flags.0 != 0 {
        Some(VncError::Role { role, after: " 空描述符带有非零标志" })
    } else {
        None
    }
}

/// Why the head of a control message is refused, where it is: its stream, its rectangle and its
/// encoding.
pub open spec fn rectangle_refusal(frame: Seq<u8>) -> Option<VncError> {
    if frame.len() < 4 {
        Some(VncError::Role { role: "媒体流 ID", after: " 截断" })
    } else if crate::wire::be32(frame, 0) != PRIMARY_MEDIA_STREAM_ID {
        Some(VncError::Text("MediaStream Message 1 的媒体流 ID 非法"))
    } else if frame.len() < 6 {
        Some(VncError::Role { role: "媒体矩形 x", after: " 截断" })
    } else if crate::wire::be16(frame, 4) != 0 {
        Some(VncError::Text("MediaStream Message 1 必须使用零矩形"))
    } else if frame.len() < 8 {
        Some(VncError::Role { role: "媒体矩形 y", after: " 截断" })
    } else if crate::wire::be16(frame, 6) != 0 {
        Some(VncError::Text("MediaStream Message 1 必须使用零矩形"))
    } else if frame.len() < 10 {
        Some(VncError::Role { role: "媒体矩形 width", after: " 截断" })
    } else if crate::wire::be16(frame, 8) != 0 {
        Some(VncError::Text("MediaStream Message 1 必须使用零矩形"))
    } else if frame.len() < 12 {
        Some(VncError::Role { role: "媒体矩形 height", after: " 截断" })
    } else if crate::wire::be16(frame, 10) != 0 {
        Some(VncError::Text("MediaStream Message 1 必须使用零矩形"))
    } else if frame.len() < 16 {
        Some(VncError::Role { role: "媒体编码", after: " 截断" })
    } else if crate::wire::be32(frame, 12) != MEDIA_STREAM_CONTROL_ENCODING {
        Some(VncError::Text("不是 MediaStream Message 1 编码"))
    } else {
        None
    }
}

/// Why the control message behind the head is no port announcement, where it is none.
pub open spec fn announcement_refusal(frame: Seq<u8>) -> Option<VncError> {
    match discriminator_of(frame.skip(16)) {
        Err(e) => Some(e),
        Ok(control) => if control.declared_body_len != MEDIA_STREAM_PORT_ANNOUNCEMENT_BODY_LEN {
            Some(
                VncError::Number {
                    before: "MediaStream Message 1 长度字段非法: ",
                    value: control.declared_body_len as u64,
                    after: "",
                },
            )
        } else if frame.len() != 54 {
            Some(VncError::Text("MediaStream Message 1 实际长度与声明不一致"))
        } else if control.kind != MediaStreamControlKind::PortAnnouncement {
            Some(VncError::Text("媒体流控制消息不是端口公告"))
        } else {
            None
        },
    }
}

/// The ports that a message announces.
pub open spec fn announcement_of(frame: Seq<u8>) -> Result<MediaStreamPortAnnouncement, VncError> {
    let audio = descriptor_at(frame, 26);
    let first = descriptor_at(frame, 32);
    let second = descriptor_at(frame, 38);
    if rectangle_refusal(frame) is Some {
        Err(rectangle_refusal(frame)->0)
    } else if announcement_refusal(frame) is Some {
        Err(announcement_refusal(frame)->0)
    } else if descriptor_refusal(audio, "音频流") is Some {
        Err(descriptor_refusal(audio, "音频流")->0)
    } else if descriptor_refusal(first, "视频流 1") is Some {
        Err(descriptor_refusal(first, "视频流 1")->0)
    } else if descriptor_refusal(second, "视频流 2") is Some {
        Err(descriptor_refusal(second, "视频流 2")->0)
    } else if !crate::wire_cursor::all_zero(frame.subrange(44, 54)) {
        Err(VncError::Text("MediaStream Message 1 保留区必须为零"))
    } else {
        Ok(
            MediaStreamPortAnnouncement {
                message_flags: crate::wire::be32(frame, 22),
                audio,
                video_stream_1: first,
                video_stream_2: second,
            },
        )
    }
}

/// Reads a descriptor.
fn read_port_descriptor(cursor: &mut WireCursor<'_>, port_field: &'static str, flags_field: &'static str) -> (r:
    Result<MediaStreamPortDescriptor, VncError>)
    requires
        old(cursor).wf(),
        old(cursor).position + 6 <= old(cursor).bytes@.len(),
    ensures
        final(cursor).wf(),
        final(cursor).bytes == old(cursor).bytes,
        final(cursor).position == old(cursor).position + 6,
        r == Ok::<MediaStreamPortDescriptor, VncError>(
            descriptor_at(old(cursor).bytes@, old(cursor).position as int),
        ),
{
    let _total: usize = cursor.bytes.len();
    let port: u16 = cursor.read_u16(port_field)?;
    let flags: u32 = cursor.read_u32(flags_field)?;
    Ok(MediaStreamPortDescriptor { port, flags: MediaStreamDescriptorFlags(flags) })
}

/// Accepts flags that go with their port.
fn validate_descriptor(descriptor: MediaStreamPortDescriptor, role: &'static str) -> (r: Result<
    (),
    VncError,
>)
    ensures
        r == crate::error::checked(descriptor_refusal(descriptor, role)),
{
    if descriptor.is_announced() {
        if !descriptor.flags.encoder_emitted_marker() {
            return Err(VncError::Role { role, after: " 非零端口缺少编码器已发出标记" });
        }
    } else if !descriptor.flags.is_zero() {
        return Err(VncError::Role { role, after: " 空描述符带有非零标志" });
    }
    Ok(())
}

/// Reads a coordinate of the control rectangle, which has to be zero.
fn read_zero_coordinate(cursor: &mut WireCursor<'_>, field: &'static str) -> (r: Result<(), VncError>)
    requires
        old(cursor).wf(),
        old(cursor).position <= 10,
    ensures
        final(cursor).wf(),
        final(cursor).bytes == old(cursor).bytes,
        r == (if old(cursor).position + 2 > old(cursor).bytes@.len() {
            Err(VncError::Role { role: field, after: " 截断" })
        } else if crate::wire::be16(old(cursor).bytes@, old(cursor).position as int) != 0 {
            Err(VncError::Text("MediaStream Message 1 必须使用零矩形"))
        } else {
            Ok(())
        }),
        r is Ok ==> final(cursor).position == old(cursor).position + 2,
{
    let value: u16 = cursor.read_u16(field)?;
    if value != 0 {
        return Err(VncError::Text("MediaStream Message 1 必须使用零矩形"));
    }
    Ok(())
}

/// Reads the head of a control message.
fn read_rectangle(cursor: &mut WireCursor<'_>) -> (r: Result<(), VncError>)
    requires
        old(cursor).wf(),
        old(cursor).position == 0,
    ensures
        final(cursor).wf(),
        final(cursor).bytes == old(cursor).bytes,
        r == crate::error::checked(rectangle_refusal(old(cursor).bytes@)),
        r is Ok ==> final(cursor).position == 16,
{
    let stream: u32 = cursor.read_u32("媒体流 ID")?;
    if stream != PRIMARY_MEDIA_STREAM_ID {
        return Err(VncError::Text("MediaStream Message 1 的媒体流 ID 非法"));
    }
    read_zero_coordinate(cursor, "媒体矩形 x")?;
    read_zero_coordinate(cursor, "媒体矩形 y")?;
    read_zero_coordinate(cursor, "媒体矩形 width")?;
    read_zero_coordinate(cursor, "媒体矩形 height")?;
    let encoding: u32 = cursor.read_u32("媒体编码")?;
    if encoding != MEDIA_STREAM_CONTROL_ENCODING as u32 {
        return Err(VncError::Text("不是 MediaStream Message 1 编码"));
    }
    Ok(())
}

/// Reads the ports that a message announces.
pub fn parse_media_stream_port_announcement(frame: &[u8]) -> (r: Result<
    MediaStreamPortAnnouncement,
    VncError,
>)
    ensures
        r == announcement_of(frame@),
{
    let mut cursor = WireCursor::new(frame);
    read_rectangle(&mut cursor)?;
    let control = parse_media_stream_control_discriminator(cursor.remaining_bytes())?;
    if control.declared_body_len != MEDIA_STREAM_PORT_ANNOUNCEMENT_BODY_LEN {
        return Err(
            VncError::Number {
                before: "MediaStream Message 1 长度字段非法: ",
                value: control.declared_body_len as u64,
                after: "",
            },
        );
    }
    if cursor.remaining() != 2 + control.declared_body_len {
        return Err(VncError::Text("MediaStream Message 1 实际长度与声明不一致"));
    }
    if control.kind != MediaStreamControlKind::PortAnnouncement {
        return Err(VncError::Text("媒体流控制消息不是端口公告"));
    }
    let _discriminator = cursor.take(6, "MediaStream Message 1 判别字段")?;
    let message_flags: u32 = cursor.read_u32("端口公告标志")?;
    let audio = read_port_descriptor(&mut cursor, "音频流 UDP 端口", "音频流 标志")?;
    let video_stream_1 = read_port_descriptor(
        &mut cursor,
        "视频流 1 UDP 端口",
        "视频流 1 标志",
    )?;
    let video_stream_2 = read_port_descriptor(
        &mut cursor,
        "视频流 2 UDP 端口",
        "视频流 2 标志",
    )?;
    validate_descriptor(audio, "音频流")?;
    validate_descriptor(video_stream_1, "视频流 1")?;
    validate_descriptor(video_stream_2, "视频流 2")?;
    let reserved = cursor.take(10, "MediaStream Message 1 保留区")?;
    if !is_all_zero(reserved) {
        return Err(VncError::Text("MediaStream Message 1 保留区必须为零"));
    }
    Ok(MediaStreamPortAnnouncement { message_flags, audio, video_stream_1, video_stream_2 })
}

/// What the ports of a session are announced as: the stream one, an empty rectangle, the encoding
/// 0x3f2, the length of 36 bytes, version and kind one, the flags, the three descriptors, and ten
/// zeros, each number with its high byte first.
pub open spec fn announcement_bytes(a: MediaStreamPortAnnouncement) -> Seq<u8> {
    seq![0u8, 0, 0, 1, 0, 0, 0, 0, 0, 0, 0, 0, 0, 0, 3, 0xf2, 0, 36, 0, 1, 0, 1] + word_bytes(
        a.message_flags,
    ) + descriptor_bytes(a.audio) + descriptor_bytes(a.video_stream_1) + descriptor_bytes(
        a.video_stream_2,
    ) + seq![0u8, 0, 0, 0, 0, 0, 0, 0, 0, 0]
}

/// The four bytes of a number.
pub open spec fn word_bytes(x: u32) -> Seq<u8> {
    seq![
        (x / 0x100_0000) as u8,
        (x / 0x1_0000 % 256) as u8,
        (x / 256 % 256) as u8,
        (x % 256) as u8,
    ]
}

/// The port and the flags of a descriptor.
pub open spec fn descriptor_bytes(d: MediaStreamPortDescriptor) -> Seq<u8> {
    seq![(d.port / 256) as u8, (d.port % 256) as u8] + word_bytes(d.flags.0)
}

/// Whether the flags of a descriptor go with its port: a port that was sent is marked as sent, and
/// no port has no flags.
pub open spec fn is_sound(d: MediaStreamPortDescriptor) -> bool {
    if d.port == 0 {
        d.flags.0 == 0
    } else {
        d.flags.0 % 2 == 1
    }
}

/// Ports that were announced are read back, each stream its own, just where the flags of every
/// descriptor go with its port.
pub proof fn law_announcement_is_read_back(a: MediaStreamPortAnnouncement)
    ensures
        announcement_of(announcement_bytes(a)) is Ok <==> is_sound(a.audio) && is_sound(
            a.video_stream_1,
        ) && is_sound(a.video_stream_2),
        announcement_of(announcement_bytes(a)) matches Ok(read) ==> read == a,
{
    let frame = announcement_bytes(a);
    assert(frame.len() == 54);
    lemma_word_bytes(frame, 22, a.message_flags);
    lemma_descriptor_bytes(frame, 26, a.audio);
    lemma_descriptor_bytes(frame, 32, a.video_stream_1);
    lemma_descriptor_bytes(frame, 38, a.video_stream_2);
    let body = frame.skip(16);
    assert(body[0] == 0 && body[1] == 36 && body[2] == 0 && body[3] == 1 && body[4] == 0 && body[5]
        == 1);
    assert(frame.subrange(44, 54) =~= seq![0u8, 0, 0, 0, 0, 0, 0, 0, 0, 0]);
    assert(crate::wire_cursor::all_zero(frame.subrange(44, 54)));
    assert(rectangle_refusal(frame) is None);
    assert(announcement_refusal(frame) is None);
}

proof fn lemma_word_bytes(frame: Seq<u8>, at: int, x: u32)
    requires
        0 <= at,
        at + 4 <= frame.len(),
        frame.subrange(at, at + 4) =~= word_bytes(x),
    ensures
        crate::wire::be32(frame, at) == x,
{
    let part = frame.subrange(at, at + 4);
    assert(part[0] == frame[at] && part[1] == frame[at + 1] && part[2] == frame[at + 2] && part[3]
        == frame[at + 3]);
    assert(x == 256 * (256 * (256 * (x / 0x100_0000) + x / 0x1_0000 % 256) + x / 256 % 256) + x
        % 256);
}

proof fn lemma_descriptor_bytes(frame: Seq<u8>, at: int, d: MediaStreamPortDescriptor)
    requires
        0 <= at,
        at + 6 <= frame.len(),
        frame.subrange(at, at + 6) =~= descriptor_bytes(d),
    ensures
        descriptor_at(frame, at) == d,
{
    let part = frame.subrange(at, at + 6);
    assert(part[0] == frame[at] && part[1] == frame[at + 1]);
    assert(frame.subrange(at + 2, at + 6) =~= part.subrange(2, 6));
    assert(descriptor_bytes(d).subrange(2, 6) =~= word_bytes(d.flags.0));
    lemma_word_bytes(frame, at + 2, d.flags.0);
}

} // verus!
