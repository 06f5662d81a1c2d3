//! Reading the messages of a server piece by piece.

use vstd::prelude::*;
use crate::client;
use crate::client::{checked_rectangle_pixel_count, checked_update_raw_bytes, decode_raw_pixels};
use crate::client::validate_update_rectangle_count;
use crate::error::VncError;
use crate::hpss;
use crate::protocol;
use crate::protocol::limits::{MAX_RECTS_PER_UPDATE, MAX_UPDATE_RAW_BYTES};
use crate::protocol::RfbServerMessageType;
use crate::text::lossy;
use crate::wire::{read_be16, read_be32, to_signed};

verus! {

/// What a rectangle of an update does to the surface.
#[derive(Debug, PartialEq, Eq)]
pub enum RectOp {
    /// Pixels, each `0x00RRGGBB`, row by row.
    Raw { x: usize, y: usize, w: usize, h: usize, pixels: Vec<u32> },
    /// A copy from `(sx, sy)`.
    Copy { x: usize, y: usize, w: usize, h: usize, sx: usize, sy: usize },
}

/// What a rectangle of an update does to the surface.
pub enum RectOpView {
    Raw { x: int, y: int, w: int, h: int, pixels: Seq<u32> },
    Copy { x: int, y: int, w: int, h: int, sx: int, sy: int },
}

impl View for RectOp {
    type V = RectOpView;

    open spec fn view(&self) -> RectOpView {
        match *self {
            RectOp::Raw { x, y, w, h, pixels } => RectOpView::Raw {
                x: x as int,
                y: y as int,
                w: w as int,
                h: h as int,
                pixels: pixels@,
            },
            RectOp::Copy { x, y, w, h, sx, sy } => RectOpView::Copy {
                x: x as int,
                y: y as int,
                w: w as int,
                h: h as int,
                sx: sx as int,
                sy: sy as int,
            },
        }
    }
}

/// What a message of the server tells.
#[derive(Debug, PartialEq, Eq)]
pub enum ServerEvent {
    Update(Vec<RectOp>),
    Bell,
    ServerCutText(String),
    Ignored,
}

/// What a message of the server tells.
pub enum ServerEventView {
    Update(Seq<RectOpView>),
    Bell,
    ServerCutText(Seq<char>),
    Ignored,
}

/// What each rectangle does.
pub open spec fn ops_view(ops: Seq<RectOp>) -> Seq<RectOpView> {
    Seq::new(ops.len(), |i: int| ops[i]@)
}

impl View for ServerEvent {
    type V = ServerEventView;

    open spec fn view(&self) -> ServerEventView {
        match *self {
            ServerEvent::Update(ops) => ServerEventView::Update(ops_view(ops@)),
            ServerEvent::Bell => ServerEventView::Bell,
            ServerEvent::ServerCutText(text) => ServerEventView::ServerCutText(text@),
            ServerEvent::Ignored => ServerEventView::Ignored,
        }
    }
}

/// The piece of a message that comes next.
#[derive(Clone, Copy, Debug, PartialEq, Eq, Structural)]
pub enum Stage {
    MessageType,
    Keepalive,
    UpdateHead,
    RectHead,
    Raw { x: u16, y: u16, w: u16, h: u16 },
    Copy { x: u16, y: u16, w: u16, h: u16 },
    CursorMagic,
    CursorLength,
    CursorBody { length: u32 },
    ColourHead,
    ColourEntries { count: u16 },
    CutTextHead,
    CutText { length: u32 },
}

/// How far a message has been read: the piece that comes next, the rectangles that are still to
/// come, what the rectangles before them do, and the bytes of plain pixels that they have.
pub struct ReaderView {
    pub stage: Stage,
    pub left: int,
    pub ops: Seq<RectOpView>,
    pub raw_bytes: int,
}

/// Nothing of a message has been read.
pub open spec fn unread() -> ReaderView {
    ReaderView { stage: Stage::MessageType, left: 0, ops: Seq::empty(), raw_bytes: 0 }
}

/// The bytes of the piece that comes next.
pub open spec fn needed(stage: Stage) -> int {
    match stage {
        Stage::MessageType => 1,
        Stage::Keepalive => 7,
        Stage::UpdateHead => 3,
        Stage::RectHead => 12,
        Stage::Raw { x, y, w, h } => w * h * 4,
        Stage::Copy { x, y, w, h } => 4,
        Stage::CursorMagic => 4,
        Stage::CursorLength => 4,
        Stage::CursorBody { length } => length as int,
        Stage::ColourHead => 5,
        Stage::ColourEntries { count } => count * 6,
        Stage::CutTextHead => 7,
        Stage::CutText { length } => length as int,
    }
}

/// Whether a piece belongs to a rectangle.
pub open spec fn in_rectangle(stage: Stage) -> bool {
    match stage {
        Stage::RectHead => true,
        Stage::Raw { x, y, w, h } => true,
        Stage::Copy { x, y, w, h } => true,
        Stage::CursorMagic => true,
        Stage::CursorLength => true,
        Stage::CursorBody { length } => true,
        _ => false,
    }
}

/// The piece is within its budget, and a rectangle is one that was still to come.
pub open spec fn sound(v: ReaderView) -> bool {
    &&& 0 <= v.left <= MAX_RECTS_PER_UPDATE
    &&& 0 <= v.raw_bytes <= MAX_UPDATE_RAW_BYTES
    &&& in_rectangle(v.stage) ==> v.left > 0
    &&& match v.stage {
        Stage::Raw { x, y, w, h } => w * h * 4 <= MAX_UPDATE_RAW_BYTES,
        Stage::CursorBody { length } => length <= hpss::cursor::MAX_PAYLOAD_BYTES,
        Stage::CutText { length } => length <= protocol::SERVER_CUT_TEXT_MAX_BYTES,
        _ => true,
    }
}

/// What comes of a piece: how far the message has been read, and what it tells, where it is whole.
pub type Stepped = Result<(ReaderView, Option<ServerEventView>), VncError>;

/// The reader goes on to another piece.
pub open spec fn onward(v: ReaderView, stage: Stage) -> Stepped {
    Ok((ReaderView { stage, ..v }, None))
}

/// The message is whole.
pub open spec fn told(event: ServerEventView) -> Stepped {
    Ok((unread(), Some(event)))
}

/// A rectangle is whole.
pub open spec fn rectangle_done(v: ReaderView, ops: Seq<RectOpView>) -> Stepped {
    if v.left <= 1 {
        told(ServerEventView::Update(ops))
    } else {
        Ok((ReaderView { stage: Stage::RectHead, left: v.left - 1, ops, raw_bytes: v.raw_bytes }, None))
    }
}

/// What the type of a message leads to.
pub open spec fn type_step(v: ReaderView, message_type: u8) -> Stepped {
    if message_type == protocol::apple_session::SERVER_KEEPALIVE_MESSAGE_TYPE {
        onward(v, Stage::Keepalive)
    } else {
        match protocol::server_message_type(message_type) {
            Err(e) => Err(e),
            Ok(RfbServerMessageType::FramebufferUpdate) => onward(v, Stage::UpdateHead),
            Ok(RfbServerMessageType::SetColourMapEntries) => onward(v, Stage::ColourHead),
            Ok(RfbServerMessageType::Bell) => told(ServerEventView::Bell),
            Ok(RfbServerMessageType::ServerCutText) => onward(v, Stage::CutTextHead),
        }
    }
}

/// What the number of rectangles leads to.
pub open spec fn count_step(v: ReaderView, count: u16) -> Stepped {
    match client::rectangle_count_refusal(count as int) {
        Some(e) => Err(e),
        None => if count == 0 {
            told(ServerEventView::Update(Seq::empty()))
        } else {
            Ok(
                (
                    ReaderView {
                        stage: Stage::RectHead,
                        left: count as int,
                        ops: Seq::empty(),
                        raw_bytes: 0,
                    },
                    None,
                ),
            )
        },
    }
}

/// What the place and the encoding of a rectangle lead to.
pub open spec fn rectangle_step(v: ReaderView, x: u16, y: u16, w: u16, h: u16, encoding: i32) -> Stepped {
    if encoding == protocol::RAW {
        match client::rectangle_pixels(w as int, h as int) {
            Err(e) => Err(e),
            Ok(pixels) => match client::update_raw_bytes(v.raw_bytes, pixels as int, 4) {
                Err(e) => Err(e),
                Ok(total) => Ok(
                    (
                        ReaderView {
                            stage: Stage::Raw { x, y, w, h },
                            raw_bytes: total as int,
                            ..v
                        },
                        None,
                    ),
                ),
            },
        }
    } else if encoding == protocol::COPYRECT {
        match client::rectangle_pixels(w as int, h as int) {
            Err(e) => Err(e),
            Ok(_) => onward(v, Stage::Copy { x, y, w, h }),
        }
    } else if encoding == hpss::encoding::MVS {
        Err(VncError::Text("流式 RFB 解析器收到 MVS；HPSS 必须使用加密应用帧模式"))
    } else if encoding == hpss::encoding::CURSOR {
        onward(v, Stage::CursorMagic)
    } else if hpss::encoding::APPLE_STATE_MIN <= encoding <= hpss::encoding::APPLE_STATE_MAX {
        Err(
            VncError::Hex {
                before: "流式 RFB 解析器收到 Apple 私有状态编码 ",
                hex: crate::wire::word_of(encoding),
                digits: 1,
                after: "，无法安全确定边界",
            },
        )
    } else {
        Err(
            VncError::Signed {
                before: "收到未请求过的帧编码 ",
                number: encoding,
                after: "（本客户端仅请求 Raw/CopyRect）",
            },
        )
    }
}

/// What a piece leads to.
pub open spec fn step(v: ReaderView, bytes: Seq<u8>) -> Stepped {
    match v.stage {
        Stage::MessageType => type_step(v, bytes[0]),
        Stage::Keepalive => told(ServerEventView::Ignored),
        Stage::UpdateHead => count_step(v, crate::wire::be16(bytes, 1)),
        Stage::RectHead => rectangle_step(
            v,
            crate::wire::be16(bytes, 0),
            crate::wire::be16(bytes, 2),
            crate::wire::be16(bytes, 4),
            crate::wire::be16(bytes, 6),
            crate::wire::signed_of(crate::wire::be32(bytes, 8)),
        ),
        Stage::Raw { x, y, w, h } => rectangle_done(
            v,
            v.ops.push(
                RectOpView::Raw {
                    x: x as int,
                    y: y as int,
                    w: w as int,
                    h: h as int,
                    pixels: client::pixels_of(bytes),
                },
            ),
        ),
        Stage::Copy { x, y, w, h } => rectangle_done(
            v,
            v.ops.push(
                RectOpView::Copy {
                    x: x as int,
                    y: y as int,
                    w: w as int,
                    h: h as int,
                    sx: crate::wire::be16(bytes, 0) as int,
                    sy: crate::wire::be16(bytes, 2) as int,
                },
            ),
        ),
        Stage::CursorMagic => {
            let magic = crate::wire::be32(bytes, 0);
            if magic != hpss::cursor::PAYLOAD_MAGIC {
                Err(
                    VncError::Hex {
                        before: "光标 payload magic 非法: ",
                        hex: magic,
                        digits: 8,
                        after: "",
                    },
                )
            } else {
                onward(v, Stage::CursorLength)
            }
        },
        Stage::CursorLength => {
            let length = crate::wire::be32(bytes, 0);
            if length > hpss::cursor::MAX_PAYLOAD_BYTES {
                Err(
                    VncError::Number {
                        before: "光标 payload 超过资源预算: ",
                        value: length as u64,
                        after: "",
                    },
                )
            } else {
                onward(v, Stage::CursorBody { length })
            }
        },
        Stage::CursorBody { length } => rectangle_done(v, v.ops),
        Stage::ColourHead => onward(
            v,
            Stage::ColourEntries { count: crate::wire::be16(bytes, 3) },
        ),
        Stage::ColourEntries { count } => told(ServerEventView::Ignored),
        Stage::CutTextHead => {
            let length = crate::wire::be32(bytes, 3);
            if length > protocol::SERVER_CUT_TEXT_MAX_BYTES {
                Err(
                    VncError::Number {
                        before: "ServerCutText 长度异常: ",
                        value: length as u64,
                        after: "",
                    },
                )
            } else {
                onward(v, Stage::CutText { length })
            }
        },
        Stage::CutText { length } => told(
            ServerEventView::ServerCutText(crate::text::lossy_text(bytes)),
        ),
    }
}

/// A message that is being read.
pub struct ServerMessageReader {
    pub stage: Stage,
    pub left: usize,
    pub ops: Vec<RectOp>,
    pub raw_bytes: usize,
}

impl View for ServerMessageReader {
    type V = ReaderView;

    open spec fn view(&self) -> ReaderView {
        ReaderView {
            stage: self.stage,
            left: self.left as int,
            ops: ops_view(self.ops@),
            raw_bytes: self.raw_bytes as int,
        }
    }
}

impl ServerMessageReader {
    /// Nothing has been read.
    pub fn new() -> (r: Self)
        ensures
            r@ == unread(),
            sound(r@),
    {
        let r = ServerMessageReader {
            stage: Stage::MessageType,
            left: 0,
            ops: Vec::new(),
            raw_bytes: 0,
        };
        assert(r@.ops =~= Seq::empty());
        r
    }

    /// The bytes of the piece that comes next.
    pub fn needed(&self) -> (r: usize)
        requires
            sound(self@),
        ensures
            r == needed(self@.stage),
    {
        match self.stage {
            Stage::MessageType => 1,
            Stage::Keepalive => 7,
            Stage::UpdateHead => 3,
            Stage::RectHead => 12,
            Stage::Raw { x: _, y: _, w, h } => {
                let pixels: u64 = {
                    assert(w * h <= 0xffff * 0xffff) by (nonlinear_arith)
                        requires
                            w <= 0xffff,
                            h <= 0xffff,
                    ;
                    w as u64 * h as u64
                };
                (pixels * 4) as usize
            },
            Stage::Copy { .. } => 4,
            Stage::CursorMagic => 4,
            Stage::CursorLength => 4,
            Stage::CursorBody { length } => length as usize,
            Stage::ColourHead => 5,
            Stage::ColourEntries { count } => count as usize * 6,
            Stage::CutTextHead => 7,
            Stage::CutText { length } => length as usize,
        }
    }

    /// Forgets the message.
    fn restart(&mut self)
        ensures
            final(self)@ == unread(),
    {
        self.stage = Stage::MessageType;
        self.left = 0;
        self.ops = Vec::new();
        self.raw_bytes = 0;
        assert(self@.ops =~= Seq::empty());
    }

    /// Ends a rectangle.
    fn end_rectangle(&mut self) -> (r: Option<ServerEvent>)
        requires
            sound(old(self)@),
            old(self)@.left > 0,
        ensures
            rectangle_done(old(self)@, old(self)@.ops) == Ok::<
                (ReaderView, Option<ServerEventView>),
                VncError,
            >((final(self)@, event_view(r))),
            sound(final(self)@),
    {
        if self.left <= 1 {
            let mut ops: Vec<RectOp> = Vec::new();
            std::mem::swap(&mut ops, &mut self.ops);
            self.restart();
            Some(ServerEvent::Update(ops))
        } else {
            self.left = self.left - 1;
            self.stage = Stage::RectHead;
            None
        }
    }

    /// Takes the type of a message.
    fn feed_type(&mut self, message_type: u8) -> (r: Result<Option<ServerEvent>, VncError>)
        requires
            sound(old(self)@),
        ensures
            follows(type_step(old(self)@, message_type), r, final(self)@),
            r is Err ==> final(self)@ == old(self)@,
    {
        if message_type == protocol::apple_session::SERVER_KEEPALIVE_MESSAGE_TYPE {
            self.stage = Stage::Keepalive;
            return Ok(None);
        }
        match RfbServerMessageType::try_from(message_type) {
            Err(e) => Err(e),
            Ok(RfbServerMessageType::FramebufferUpdate) => {
                self.stage = Stage::UpdateHead;
                Ok(None)
            },
            Ok(RfbServerMessageType::SetColourMapEntries) => {
                self.stage = Stage::ColourHead;
                Ok(None)
            },
            Ok(RfbServerMessageType::Bell) => {
                self.restart();
                Ok(Some(ServerEvent::Bell))
            },
            Ok(RfbServerMessageType::ServerCutText) => {
                self.stage = Stage::CutTextHead;
                Ok(None)
            },
        }
    }

    /// Takes the number of rectangles.
    fn feed_count(&mut self, count: u16) -> (r: Result<Option<ServerEvent>, VncError>)
        requires
            sound(old(self)@),
        ensures
            follows(count_step(old(self)@, count), r, final(self)@),
            r is Err ==> final(self)@ == old(self)@,
    {
        validate_update_rectangle_count(count as usize)?;
        self.restart();
        if count == 0 {
            let event = ServerEvent::Update(Vec::new());
            assert(event@ == ServerEventView::Update(Seq::empty())) by {
                assert(ops_view(event->Update_0@) =~= Seq::empty());
            }
            return Ok(Some(event));
        }
        self.stage = Stage::RectHead;
        self.left = count as usize;
        Ok(None)
    }

    /// Takes the place and the encoding of a rectangle.
    fn feed_rectangle(&mut self, x: u16, y: u16, w: u16, h: u16, encoding: i32) -> (r: Result<
        Option<ServerEvent>,
        VncError,
    >)
        requires
            sound(old(self)@),
            old(self)@.left > 0,
        ensures
            follows(rectangle_step(old(self)@, x, y, w, h, encoding), r, final(self)@),
            r is Err ==> final(self)@ == old(self)@,
    {
        if encoding == protocol::RAW {
            let count: usize = checked_rectangle_pixel_count(w as usize, h as usize)?;
            let total: usize = checked_update_raw_bytes(self.raw_bytes, count, 4)?;
            self.raw_bytes = total;
            self.stage = Stage::Raw { x, y, w, h };
            assert(count == w * h);
            return Ok(None);
        }
        if encoding == protocol::COPYRECT {
            checked_rectangle_pixel_count(w as usize, h as usize)?;
            self.stage = Stage::Copy { x, y, w, h };
            return Ok(None);
        }
        if encoding == hpss::encoding::MVS {
            return Err(VncError::Text("流式 RFB 解析器收到 MVS；HPSS 必须使用加密应用帧模式"));
        }
        if encoding == hpss::encoding::CURSOR {
            self.stage = Stage::CursorMagic;
            return Ok(None);
        }
        if hpss::encoding::APPLE_STATE_MIN <= encoding && encoding
            <= hpss::encoding::APPLE_STATE_MAX {
            return Err(
                VncError::Hex {
                    before: "流式 RFB 解析器收到 Apple 私有状态编码 ",
                    hex: crate::wire::to_word(encoding),
                    digits: 1,
                    after: "，无法安全确定边界",
                },
            );
        }
        Err(
            VncError::Signed {
                before: "收到未请求过的帧编码 ",
                number: encoding,
                after: "（本客户端仅请求 Raw/CopyRect）",
            },
        )
    }

    /// Takes a piece of a rectangle.
    fn feed_in_rectangle(&mut self, bytes: &[u8]) -> (r: Result<Option<ServerEvent>, VncError>)
        requires
            sound(old(self)@),
            in_rectangle(old(self)@.stage),
            bytes@.len() == needed(old(self)@.stage),
        ensures
            follows(step(old(self)@, bytes@), r, final(self)@),
            r is Err ==> final(self)@ == old(self)@,
    {
        match self.stage {
            Stage::RectHead => self.feed_rectangle(
                read_be16(bytes, 0),
                read_be16(bytes, 2),
                read_be16(bytes, 4),
                read_be16(bytes, 6),
                to_signed(read_be32(bytes, 8)),
            ),
            Stage::Raw { x, y, w, h } => {
                let pixels = decode_raw_pixels(bytes)?;
                self.push_op(
                    RectOp::Raw {
                        x: x as usize,
                        y: y as usize,
                        w: w as usize,
                        h: h as usize,
                        pixels,
                    },
                );
                Ok(self.end_rectangle())
            },
            Stage::Copy { x, y, w, h } => {
                self.push_op(
                    RectOp::Copy {
                        x: x as usize,
                        y: y as usize,
                        w: w as usize,
                        h: h as usize,
                        sx: read_be16(bytes, 0) as usize,
                        sy: read_be16(bytes, 2) as usize,
                    },
                );
                Ok(self.end_rectangle())
            },
            Stage::CursorMagic => {
                let magic: u32 = read_be32(bytes, 0);
                if magic != hpss::cursor::PAYLOAD_MAGIC {
                    return Err(
                        VncError::Hex {
                            before: "光标 payload magic 非法: ",
                            hex: magic,
                            digits: 8,
                            after: "",
                        },
                    );
                }
                self.stage = Stage::CursorLength;
                Ok(None)
            },
            Stage::CursorLength => {
                let length: u32 = read_be32(bytes, 0);
                if length as usize > hpss::cursor::MAX_PAYLOAD_BYTES {
                    return Err(
                        VncError::Number {
                            before: "光标 payload 超过资源预算: ",
                            value: length as u64,
                            after: "",
                        },
                    );
                }
                self.stage = Stage::CursorBody { length };
                Ok(None)
            },
            _ => Ok(self.end_rectangle()),
        }
    }

    /// Takes the piece that comes next. Once the message is whole, tells what it says and is ready
    /// for another.
    pub fn feed(&mut self, bytes: &[u8]) -> (r: Result<Option<ServerEvent>, VncError>)
        requires
            sound(old(self)@),
            bytes@.len() == needed(old(self)@.stage),
        ensures
            follows(step(old(self)@, bytes@), r, final(self)@),
            r is Err ==> final(self)@ == old(self)@,
    {
        match self.stage {
            Stage::MessageType => self.feed_type(bytes[0]),
            Stage::UpdateHead => self.feed_count(read_be16(bytes, 1)),
            Stage::ColourHead => {
                self.stage = Stage::ColourEntries { count: read_be16(bytes, 3) };
                Ok(None)
            },
            Stage::Keepalive | Stage::ColourEntries { .. } => {
                self.restart();
                Ok(Some(ServerEvent::Ignored))
            },
            Stage::CutTextHead => {
                let length: u32 = read_be32(bytes, 3);
                if length as usize > protocol::SERVER_CUT_TEXT_MAX_BYTES {
                    return Err(
                        VncError::Number {
                            before: "ServerCutText 长度异常: ",
                            value: length as u64,
                            after: "",
                        },
                    );
                }
                self.stage = Stage::CutText { length };
                Ok(None)
            },
            Stage::CutText { .. } => {
                self.restart();
                Ok(Some(ServerEvent::ServerCutText(lossy(bytes))))
            },
            _ => self.feed_in_rectangle(bytes),
        }
    }

    fn push_op(&mut self, op: RectOp)
        ensures
            final(self)@ == (ReaderView { ops: old(self)@.ops.push(op@), ..old(self)@ }),
    {
        self.ops.push(op);
        assert(self@.ops =~= old(self)@.ops.push(op@));
    }
}

/// What an event tells, where there is one.
pub open spec fn event_view(event: Option<ServerEvent>) -> Option<ServerEventView> {
    match event {
        Some(event) => Some(event@),
        None => None,
    }
}

/// Whether a reader that took a piece did what the piece leads to.
pub open spec fn follows(
    stepped: Stepped,
    r: Result<Option<ServerEvent>, VncError>,
    after: ReaderView,
) -> bool {
    match (stepped, r) {
        (Ok((next, event)), Ok(told)) => after == next && sound(next) && event_view(told) == event,
        (Err(e), Err(f)) => e == f,
        _ => false,
    }
}

/// What comes of reading a message from bytes.
pub enum ReadMessage {
    /// The message goes on after the bytes.
    Short,
    Refused(VncError),
    /// What it tells, and where in the bytes it ends.
    Whole(ServerEventView, int),
}

/// A piece leaves the reader sound, and none that is empty leads to another that is.
pub proof fn lemma_step(v: ReaderView, bytes: Seq<u8>)
    requires
        sound(v),
    ensures
        needed(v.stage) >= 0,
        step(v, bytes) matches Ok((next, event)) ==> {
            &&& sound(next)
            &&& event is None && needed(v.stage) == 0 ==> needed(next.stage) > 0
        },
{
    match v.stage {
        Stage::Raw { x, y, w, h } => {
            assert(w * h >= 0) by (nonlinear_arith)
                requires
                    w >= 0,
                    h >= 0,
            ;
        },
        _ => {},
    }
}

/// What comes of reading on from `at`.
#[verifier::opaque]
pub open spec fn read_from(v: ReaderView, bytes: Seq<u8>, at: int) -> ReadMessage
    decreases
            bytes.len() - at,
            if needed(v.stage) == 0 {
                1int
            } else {
                0
            },
        when sound(v) && 0 <= at <= bytes.len()
{
    proof {
        lemma_step(v, bytes.subrange(at, at + needed(v.stage)));
    }
    let end = at + needed(v.stage);
    if end > bytes.len() {
        ReadMessage::Short
    } else {
        match step(v, bytes.subrange(at, end)) {
            Err(e) => ReadMessage::Refused(e),
            Ok((_, Some(event))) => ReadMessage::Whole(event, end),
            Ok((next, None)) => read_from(next, bytes, end),
        }
    }
}

/// Reads the message at the front of the bytes: what it tells and where it ends, or nothing where
/// it goes on after them.
pub fn read_server_message(bytes: &[u8]) -> (r: Result<Option<(ServerEvent, usize)>, VncError>)
    ensures
        match (read_from(unread(), bytes@, 0), r) {
            (ReadMessage::Short, Ok(None)) => true,
            (ReadMessage::Refused(e), Err(f)) => e == f,
            (ReadMessage::Whole(event, end), Ok(Some((told, at)))) => told@ == event && at == end,
            _ => false,
        },
{
    let mut reader = ServerMessageReader::new();
    let mut at: usize = 0;
    loop
        invariant
            sound(reader@),
            at <= bytes@.len(),
            read_from(reader@, bytes@, at as int) == read_from(unread(), bytes@, 0),
        decreases
                bytes@.len() - at,
                if needed(reader@.stage) == 0 {
                    1int
                } else {
                    0
                },
    {
        let needed: usize = reader.needed();
        proof {
            reveal(read_from);
        }
        if needed > bytes.len() - at {
            return Ok(None);
        }
        let piece = vstd::slice::slice_subrange(bytes, at, at + needed);
        proof {
            lemma_step(reader@, piece@);
        }
        match reader.feed(piece)? {
            Some(event) => {
                return Ok(Some((event, at + needed)));
            },
            None => {},
        }
        at = at + needed;
    }
}

/// The byte at `i` of pixels, each with its low bytes first.
pub open spec fn pixel_byte(pixels: Seq<u32>, i: int) -> u8 {
    let pixel = pixels[i / 4] as int;
    if i % 4 == 0 {
        (pixel % 256) as u8
    } else if i % 4 == 1 {
        (pixel / 0x100 % 256) as u8
    } else if i % 4 == 2 {
        (pixel / 0x1_0000 % 256) as u8
    } else {
        (pixel / 0x100_0000) as u8
    }
}

/// The bytes of pixels.
pub open spec fn pixel_bytes(pixels: Seq<u32>) -> Seq<u8> {
    Seq::new(pixels.len() * 4, |i: int| pixel_byte(pixels, i))
}

/// Whether a rectangle can be sent: its place fits the message and its size the budget.
pub open spec fn sendable(op: RectOpView) -> bool {
    match op {
        RectOpView::Raw { x, y, w, h, pixels } => {
            &&& 0 <= x <= u16::MAX
            &&& 0 <= y <= u16::MAX
            &&& 0 <= w <= u16::MAX
            &&& 0 <= h <= u16::MAX
            &&& pixels.len() == w * h
        },
        RectOpView::Copy { x, y, w, h, sx, sy } => {
            &&& 0 <= x <= u16::MAX
            &&& 0 <= y <= u16::MAX
            &&& 0 <= w <= u16::MAX
            &&& 0 <= h <= u16::MAX
            &&& 0 <= sx <= u16::MAX
            &&& 0 <= sy <= u16::MAX
            &&& w * h <= protocol::limits::MAX_FRAMEBUFFER_PIXELS
        },
    }
}

/// The bytes of plain pixels of a rectangle.
pub open spec fn raw_size(op: RectOpView) -> int {
    match op {
        RectOpView::Raw { x, y, w, h, pixels } => pixels.len() as int * 4,
        RectOpView::Copy { x, y, w, h, sx, sy } => 0,
    }
}

/// The bytes of plain pixels of rectangles.
pub open spec fn raw_sizes(ops: Seq<RectOpView>) -> int
    decreases ops.len(),
{
    if ops.len() == 0 {
        0
    } else {
        raw_size(ops[0]) + raw_sizes(ops.drop_first())
    }
}

/// The head of a rectangle.
pub open spec fn rectangle_head(x: int, y: int, w: int, h: int, encoding: i32) -> Seq<u8> {
    crate::wire::be16_bytes(x as u16) + crate::wire::be16_bytes(y as u16) + crate::wire::be16_bytes(
        w as u16,
    ) + crate::wire::be16_bytes(h as u16) + crate::wire::be32_bytes(crate::wire::word_of(encoding))
}

/// The bytes of a rectangle.
#[verifier::opaque]
pub open spec fn rectangle_bytes(op: RectOpView) -> Seq<u8> {
    match op {
        RectOpView::Raw { x, y, w, h, pixels } => rectangle_head(x, y, w, h, protocol::RAW)
            + pixel_bytes(pixels),
        RectOpView::Copy { x, y, w, h, sx, sy } => rectangle_head(x, y, w, h, protocol::COPYRECT)
            + crate::wire::be16_bytes(sx as u16) + crate::wire::be16_bytes(sy as u16),
    }
}

/// The bytes of rectangles.
pub open spec fn rectangles_bytes(ops: Seq<RectOpView>) -> Seq<u8>
    decreases ops.len(),
{
    if ops.len() == 0 {
        Seq::empty()
    } else {
        rectangle_bytes(ops[0]) + rectangles_bytes(ops.drop_first())
    }
}

/// The message of an update.
pub open spec fn update_bytes(ops: Seq<RectOpView>) -> Seq<u8> {
    seq![0u8, 0u8] + crate::wire::be16_bytes(ops.len() as u16) + rectangles_bytes(ops)
}

proof fn lemma_pixels_back(pixels: Seq<u32>)
    ensures
        client::pixels_of(pixel_bytes(pixels)) == pixels,
{
    let raw = pixel_bytes(pixels);
    assert forall|i: int| 0 <= i < pixels.len() implies client::pixel_at(raw, 4 * i) == pixels[i] by {
        assert((4 * i) / 4 == i && (4 * i + 1) / 4 == i && (4 * i + 2) / 4 == i && (4 * i + 3) / 4
            == i);
        let p = pixels[i] as int;
        assert(raw[4 * i] == p % 256);
        assert(raw[4 * i + 1] == p / 0x100 % 256);
        assert(raw[4 * i + 2] == p / 0x1_0000 % 256);
        assert(raw[4 * i + 3] == p / 0x100_0000);
    }
    assert(client::pixels_of(raw) =~= pixels);
}

proof fn lemma_head_back(x: int, y: int, w: int, h: int, encoding: i32)
    requires
        0 <= x <= u16::MAX,
        0 <= y <= u16::MAX,
        0 <= w <= u16::MAX,
        0 <= h <= u16::MAX,
    ensures
        rectangle_head(x, y, w, h, encoding).len() == 12,
        crate::wire::be16(rectangle_head(x, y, w, h, encoding), 0) == x,
        crate::wire::be16(rectangle_head(x, y, w, h, encoding), 2) == y,
        crate::wire::be16(rectangle_head(x, y, w, h, encoding), 4) == w,
        crate::wire::be16(rectangle_head(x, y, w, h, encoding), 6) == h,
        crate::wire::signed_of(crate::wire::be32(rectangle_head(x, y, w, h, encoding), 8))
            == encoding,
{
    let head = rectangle_head(x, y, w, h, encoding);
    assert(head.subrange(0, 2) =~= crate::wire::be16_bytes(x as u16));
    assert(head.subrange(2, 4) =~= crate::wire::be16_bytes(y as u16));
    assert(head.subrange(4, 6) =~= crate::wire::be16_bytes(w as u16));
    assert(head.subrange(6, 8) =~= crate::wire::be16_bytes(h as u16));
    assert(head.subrange(8, 12) =~= crate::wire::be32_bytes(crate::wire::word_of(encoding)));
    crate::wire::lemma_be16(head, 0, x as u16);
    crate::wire::lemma_be16(head, 2, y as u16);
    crate::wire::lemma_be16(head, 4, w as u16);
    crate::wire::lemma_be16(head, 6, h as u16);
    crate::wire::lemma_be32(head, 8, crate::wire::word_of(encoding));
    crate::wire::lemma_signed_word(encoding);
}

proof fn lemma_raw_sizes(ops: Seq<RectOpView>)
    ensures
        raw_sizes(ops) >= 0,
    decreases ops.len(),
{
    if ops.len() > 0 {
        lemma_raw_sizes(ops.drop_first());
    }
}

/// Where a reader stands after the rectangles `done`, with `left` still to come.
pub open spec fn between(left: int, done: Seq<RectOpView>, raw_bytes: int) -> ReaderView {
    ReaderView { stage: Stage::RectHead, left, ops: done, raw_bytes }
}

proof fn lemma_one_piece(v: ReaderView, bytes: Seq<u8>, at: int, piece: Seq<u8>)
    requires
        sound(v),
        0 <= at,
        at + needed(v.stage) <= bytes.len(),
        at <= bytes.len(),
        piece == bytes.subrange(at, at + needed(v.stage)),
    ensures
        read_from(v, bytes, at) == (match step(v, piece) {
            Err(e) => ReadMessage::Refused(e),
            Ok((_, Some(event))) => ReadMessage::Whole(event, at + needed(v.stage)),
            Ok((next, None)) => read_from(next, bytes, at + needed(v.stage)),
        }),
{
    reveal(read_from);
}

proof fn lemma_rectangle_back(
    front: Seq<u8>,
    op: RectOpView,
    rest: Seq<u8>,
    left: int,
    done: Seq<RectOpView>,
    raw_bytes: int,
)
    requires
        sound(between(left, done, raw_bytes)),
        sendable(op),
        raw_bytes + raw_size(op) <= MAX_UPDATE_RAW_BYTES,
    ensures
        ({
            let bytes = front + rectangle_bytes(op) + rest;
            let end = front.len() + rectangle_bytes(op).len();
            let v = between(left, done, raw_bytes);
            let read = read_from(v, bytes, front.len() as int);
            if left == 1 {
                read == ReadMessage::Whole(ServerEventView::Update(done.push(op)), end as int)
            } else {
                read == read_from(
                    between(left - 1, done.push(op), raw_bytes + raw_size(op)),
                    bytes,
                    end as int,
                )
            }
        }),
{
    reveal(rectangle_bytes);
    let bytes = front + rectangle_bytes(op) + rest;
    let v = between(left, done, raw_bytes);
    let at = front.len() as int;
    match op {
        RectOpView::Raw { x, y, w, h, pixels } => {
            let head = rectangle_head(x, y, w, h, protocol::RAW);
            lemma_head_back(x, y, w, h, protocol::RAW);
            lemma_pixels_back(pixels);
            assert(bytes.subrange(at, at + 12) =~= head);
            let next = ReaderView {
                stage: Stage::Raw { x: x as u16, y: y as u16, w: w as u16, h: h as u16 },
                raw_bytes: raw_bytes + pixels.len() * 4,
                ..v
            };
            assert(step(v, head) == Ok::<(ReaderView, Option<ServerEventView>), VncError>(
                (next, None),
            ));
            assert(needed(next.stage) == pixels.len() * 4);
            assert(bytes.subrange(at + 12, at + 12 + pixels.len() * 4) =~= pixel_bytes(pixels));
            lemma_one_piece(v, bytes, at, head);
            lemma_one_piece(next, bytes, at + 12, pixel_bytes(pixels));
        },
        RectOpView::Copy { x, y, w, h, sx, sy } => {
            let head = rectangle_head(x, y, w, h, protocol::COPYRECT);
            lemma_head_back(x, y, w, h, protocol::COPYRECT);
            assert(bytes.subrange(at, at + 12) =~= head);
            let next = ReaderView {
                stage: Stage::Copy { x: x as u16, y: y as u16, w: w as u16, h: h as u16 },
                ..v
            };
            assert(step(v, head) == Ok::<(ReaderView, Option<ServerEventView>), VncError>(
                (next, None),
            ));
            let source = crate::wire::be16_bytes(sx as u16) + crate::wire::be16_bytes(sy as u16);
            assert(bytes.subrange(at + 12, at + 16) =~= source);
            assert(source.subrange(0, 2) =~= crate::wire::be16_bytes(sx as u16));
            assert(source.subrange(2, 4) =~= crate::wire::be16_bytes(sy as u16));
            crate::wire::lemma_be16(source, 0, sx as u16);
            crate::wire::lemma_be16(source, 2, sy as u16);
            lemma_one_piece(v, bytes, at, head);
            lemma_one_piece(next, bytes, at + 12, source);
        },
    }
}

proof fn lemma_rectangles_back(
    front: Seq<u8>,
    ops: Seq<RectOpView>,
    rest: Seq<u8>,
    done: Seq<RectOpView>,
    raw_bytes: int,
)
    requires
        ops.len() > 0,
        ops.len() <= MAX_RECTS_PER_UPDATE,
        raw_bytes >= 0,
        forall|i: int| 0 <= i < ops.len() ==> sendable(#[trigger] ops[i]),
        raw_bytes + raw_sizes(ops) <= MAX_UPDATE_RAW_BYTES,
    ensures
        read_from(
            between(ops.len() as int, done, raw_bytes),
            front + rectangles_bytes(ops) + rest,
            front.len() as int,
        ) == ReadMessage::Whole(
            ServerEventView::Update(done + ops),
            (front.len() + rectangles_bytes(ops).len()) as int,
        ),
    decreases ops.len(),
{
    let others = ops.drop_first();
    let after = rectangles_bytes(others) + rest;
    lemma_raw_sizes(others);
    lemma_rectangle_back(front, ops[0], after, ops.len() as int, done, raw_bytes);
    let bytes = front + rectangles_bytes(ops) + rest;
    assert(bytes =~= front + rectangle_bytes(ops[0]) + after);
    if ops.len() == 1 {
        assert(rectangles_bytes(others) =~= Seq::<u8>::empty());
        assert(rectangles_bytes(ops) =~= rectangle_bytes(ops[0]));
        assert(done.push(ops[0]) =~= done + ops);
    } else {
        let front_next = front + rectangle_bytes(ops[0]);
        assert forall|i: int| 0 <= i < others.len() implies sendable(#[trigger] others[i]) by {
            assert(others[i] == ops[i + 1]);
        }
        lemma_rectangles_back(
            front_next,
            others,
            rest,
            done.push(ops[0]),
            raw_bytes + raw_size(ops[0]),
        );
        assert(bytes =~= front_next + rectangles_bytes(others) + rest);
        assert(done.push(ops[0]) + others =~= done + ops);
    }
}

/// An update is read back as it was sent: whatever rectangles it holds, as long as they are within
/// the budget, and whatever comes after it.
pub proof fn law_update_is_read_back(ops: Seq<RectOpView>, rest: Seq<u8>)
    requires
        ops.len() <= MAX_RECTS_PER_UPDATE,
        forall|i: int| 0 <= i < ops.len() ==> sendable(#[trigger] ops[i]),
        raw_sizes(ops) <= MAX_UPDATE_RAW_BYTES,
    ensures
        read_from(unread(), update_bytes(ops) + rest, 0) == ReadMessage::Whole(
            ServerEventView::Update(ops),
            update_bytes(ops).len() as int,
        ),
{
    reveal(read_from);
    let bytes = update_bytes(ops) + rest;
    let head = ReaderView { stage: Stage::UpdateHead, ..unread() };
    assert(bytes.subrange(0, 1) =~= seq![0u8]);
    assert(read_from(unread(), bytes, 0) == read_from(head, bytes, 1));
    let count = bytes.subrange(1, 4);
    assert(count.subrange(1, 3) =~= crate::wire::be16_bytes(ops.len() as u16));
    crate::wire::lemma_be16(count, 1, ops.len() as u16);
    if ops.len() == 0 {
        assert(ops =~= Seq::empty());
        assert(rectangles_bytes(ops) =~= Seq::<u8>::empty());
    } else {
        let front = seq![0u8, 0u8] + crate::wire::be16_bytes(ops.len() as u16);
        lemma_rectangles_back(front, ops, rest, Seq::empty(), 0);
        assert(bytes =~= front + rectangles_bytes(ops) + rest);
        assert(Seq::<RectOpView>::empty() + ops =~= ops);
        assert(read_from(head, bytes, 1) == read_from(
            between(ops.len() as int, Seq::empty(), 0),
            bytes,
            4,
        ));
    }
}

} // verus!
