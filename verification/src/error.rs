//! The failures that decoding, framing and negotiation report.

use vstd::prelude::*;
use vstd::string::*;
use crate::text::{push_decimal, push_hex_byte, push_hexadecimal, push_integer};

verus! {

/// A rectangle and the tile inside it that a failure belongs to.
#[derive(Clone, Copy, Debug, PartialEq, Eq, Structural)]
pub struct TilePlace {
    pub rect_x: usize,
    pub rect_y: usize,
    pub width: usize,
    pub height: usize,
    pub local_index: usize,
    pub local_row: usize,
    pub local_col: usize,
    pub global_index: usize,
    pub global_row: usize,
    pub global_col: usize,
}

/// Why an operation was refused.
#[derive(Debug, PartialEq, Eq)]
pub enum VncError {
    /// A fixed sentence.
    Text(&'static str),
    /// A sentence with one number in it.
    Number { before: &'static str, value: u64, after: &'static str },
    /// A sentence with two numbers in it.
    Numbers {
        before: &'static str,
        first: u64,
        between: &'static str,
        second: u64,
        after: &'static str,
    },
    /// A sentence that ends in a byte, written in hexadecimal.
    Byte { before: &'static str, byte: u8 },
    /// A sentence that begins with the name of what it is about.
    Role { role: &'static str, after: &'static str },
    /// A sentence that begins with the name of what it is about and ends in a number.
    RoleNumber { role: &'static str, after: &'static str, count: u64 },
    /// What was being done with something of this name when `cause` happened.
    RoleContext { role: &'static str, after: &'static str, cause: Box<VncError> },
    /// A sentence with a number in it that may be negative.
    Signed { before: &'static str, number: i32, after: &'static str },
    /// A sentence with a number in it that may be negative, and the number that it should be.
    SignedOf { before: &'static str, number: i32, between: &'static str, whole: u64 },
    /// A sentence with a number in it that is written in hexadecimal, with at least `digits` digits.
    Hex { before: &'static str, hex: u32, digits: u8, after: &'static str },
    /// A sentence with a text in it that comes from elsewhere.
    Said { before: &'static str, said: String, after: &'static str },
    /// A sentence that comes from elsewhere.
    Outside(String),
    /// A sentence that comes from elsewhere: a transfer took too long.
    TimedOut(String),
    /// A sentence that comes from elsewhere: the other side has closed the connection.
    PeerClosed(String),
    /// The deadline of a cold capture has passed.
    ColdDeadline,
    /// What was being done, with a text in it that comes from elsewhere, when `cause` happened.
    SaidContext { before: &'static str, said: String, after: &'static str, cause: Box<VncError> },
    /// What was being done with something of this size when `cause` happened.
    Measured { before: &'static str, across: u64, down: u64, cause: Box<VncError> },
    /// What was being done when `cause` happened.
    Context { text: &'static str, cause: Box<VncError> },
    /// What was being done, with a number in it, when `cause` happened.
    Counted { before: &'static str, value: u64, after: &'static str, cause: Box<VncError> },
    /// A read past the end of a bit stream.
    BitsExhausted { offset: usize, count: u8, remaining: usize },
    /// A rectangle that reaches past its surface.
    RectOutsideSurface {
        before: &'static str,
        x: usize,
        y: usize,
        width: usize,
        height: usize,
        surface_width: usize,
        surface_height: usize,
    },
    /// A media rectangle that reaches past the current surface.
    MediaRectOutside {
        media_width: u16,
        media_height: u16,
        media_x: u16,
        media_y: u16,
        limit_width: u16,
        limit_height: u16,
    },
    /// The opcode of a partial tile could not be read.
    PartialOpcode { place: TilePlace, opcode_start_bit: usize, failure_bit: usize, cause: Box<VncError> },
    /// The body of a partial tile was refused.
    PartialTile {
        place: TilePlace,
        opcode: u8,
        opcode_start_bit: usize,
        failure_bit: usize,
        cause: Box<VncError>,
    },
    /// A terminal byte of a partial record was missing or wrong.
    PartialTerminal {
        rect_x: usize,
        rect_y: usize,
        width: usize,
        height: usize,
        terminal_index: usize,
        terminal_bit: usize,
        failure_bit: usize,
        cause: Box<VncError>,
    },
}

/// `cause` with `text` put in front.
pub open spec fn within(text: &'static str, cause: VncError) -> VncError {
    VncError::Context { text, cause: Box::new(cause) }
}

/// `r` with `text` put in front of its failure.
pub open spec fn in_context<T>(r: Result<T, VncError>, text: &'static str) -> Result<T, VncError> {
    match r {
        Ok(v) => Ok(v),
        Err(e) => Err(within(text, e)),
    }
}

/// `r` with what its success holds in place of the success.
pub open spec fn viewed<T: View>(r: Result<T, VncError>) -> Result<T::V, VncError> {
    match r {
        Ok(v) => Ok(v@),
        Err(e) => Err(e),
    }
}

/// The refusal as the answer of a check.
pub open spec fn checked(refusal: Option<VncError>) -> Result<(), VncError> {
    match refusal {
        None => Ok(()),
        Some(e) => Err(e),
    }
}

/// Puts `text` in front of a failure and leaves a success alone.
pub fn context<T>(r: Result<T, VncError>, text: &'static str) -> (o: Result<T, VncError>)
    ensures
        o == in_context(r, text),
{
    match r {
        Ok(v) => Ok(v),
        Err(e) => Err(VncError::Context { text, cause: Box::new(e) }),
    }
}

/// `r` with the name and the text put in front of its failure.
pub open spec fn in_role<T>(r: Result<T, VncError>, role: &'static str, after: &'static str) -> Result<
    T,
    VncError,
> {
    match r {
        Ok(v) => Ok(v),
        Err(e) => Err(VncError::RoleContext { role, after, cause: Box::new(e) }),
    }
}

/// Puts a name and a text in front of a failure and leaves a success alone.
pub fn role_context<T>(r: Result<T, VncError>, role: &'static str, after: &'static str) -> (o: Result<
    T,
    VncError,
>)
    ensures
        o == in_role(r, role, after),
{
    match r {
        Ok(v) => Ok(v),
        Err(e) => Err(VncError::RoleContext { role, after, cause: Box::new(e) }),
    }
}

/// `(x,y,width,height)`.
pub open spec fn rect_text(x: usize, y: usize, width: usize, height: usize) -> Seq<char> {
    "("@ + crate::text::decimal(x as nat) + ","@ + crate::text::decimal(y as nat) + ","@
        + crate::text::decimal(width as nat) + ","@ + crate::text::decimal(height as nat) + ")"@
}

/// The fields that place a tile, each after its name.
pub open spec fn place_text(place: TilePlace) -> Seq<char> {
    rect_text(place.rect_x, place.rect_y, place.width, place.height) + " local_index="@
        + crate::text::decimal(place.local_index as nat) + " local_row="@ + crate::text::decimal(
        place.local_row as nat,
    ) + " local_col="@ + crate::text::decimal(place.local_col as nat) + " global_index="@
        + crate::text::decimal(place.global_index as nat) + " global_row="@ + crate::text::decimal(
        place.global_row as nat,
    ) + " global_col="@ + crate::text::decimal(place.global_col as nat)
}

fn push_rect(out: &mut String, x: usize, y: usize, width: usize, height: usize)
    ensures
        final(out)@ == old(out)@ + rect_text(x, y, width, height),
{
    out.append("(");
    push_decimal(out, x as u64);
    out.append(",");
    push_decimal(out, y as u64);
    out.append(",");
    push_decimal(out, width as u64);
    out.append(",");
    push_decimal(out, height as u64);
    out.append(")");
    assert(out@ =~= old(out)@ + rect_text(x, y, width, height));
}

fn push_place(out: &mut String, place: &TilePlace)
    ensures
        final(out)@ == old(out)@ + place_text(*place),
{
    push_rect(out, place.rect_x, place.rect_y, place.width, place.height);
    out.append(" local_index=");
    push_decimal(out, place.local_index as u64);
    out.append(" local_row=");
    push_decimal(out, place.local_row as u64);
    out.append(" local_col=");
    push_decimal(out, place.local_col as u64);
    out.append(" global_index=");
    push_decimal(out, place.global_index as u64);
    out.append(" global_row=");
    push_decimal(out, place.global_row as u64);
    out.append(" global_col=");
    push_decimal(out, place.global_col as u64);
    assert(out@ =~= old(out)@ + place_text(*place));
}

impl VncError {
    /// The sentence of this failure, without its cause.
    pub open spec fn headline(self) -> Seq<char> {
        match self {
            VncError::Text(text) => text@,
            VncError::Number { before, value, after } => before@ + crate::text::decimal(value as nat)
                + after@,
            VncError::Numbers { before, first, between, second, after } => before@
                + crate::text::decimal(first as nat) + between@ + crate::text::decimal(
                second as nat,
            ) + after@,
            VncError::Byte { before, byte } => before@ + "0x"@ + crate::text::hex_byte(byte),
            VncError::Role { role, after } => role@ + after@,
            VncError::RoleNumber { role, after, count } => role@ + after@ + crate::text::decimal(
                count as nat,
            ),
            VncError::RoleContext { role, after, cause } => role@ + after@,
            VncError::Signed { before, number, after } => before@ + crate::text::integer(
                number as int,
            ) + after@,
            VncError::SignedOf { before, number, between, whole } => before@ + crate::text::integer(
                number as int,
            ) + between@ + crate::text::decimal(whole as nat),
            VncError::Hex { before, hex, digits, after } => before@ + "0x"@
                + crate::text::hexadecimal(hex as nat, digits as nat) + after@,
            VncError::Said { before, said, after } => before@ + said@ + after@,
            VncError::SaidContext { before, said, after, cause } => before@ + said@ + after@,
            VncError::Outside(text) => text@,
            VncError::TimedOut(text) => text@,
            VncError::PeerClosed(text) => text@,
            VncError::ColdDeadline => "cold deadline"@,
            VncError::Measured { before, across, down, cause } => before@ + crate::text::decimal(
                across as nat,
            ) + "x"@ + crate::text::decimal(down as nat),
            VncError::Context { text, cause } => text@,
            VncError::Counted { before, value, after, cause } => before@ + crate::text::decimal(
                value as nat,
            ) + after@,
            VncError::BitsExhausted { offset, count, remaining } => "MVS 位流耗尽: bit offset "@
                + crate::text::decimal(offset as nat) + " 请求 "@ + crate::text::decimal(
                count as nat,
            ) + " 位，仅余 "@ + crate::text::decimal(remaining as nat) + " 位"@,
            VncError::RectOutsideSurface {
                before,
                x,
                y,
                width,
                height,
                surface_width,
                surface_height,
            } => before@ + rect_text(x, y, width, height) + ", surface="@ + crate::text::decimal(
                surface_width as nat,
            ) + "x"@ + crate::text::decimal(surface_height as nat),
            VncError::MediaRectOutside {
                media_width: width,
                media_height: height,
                media_x: x,
                media_y: y,
                limit_width: surface_width,
                limit_height: surface_height,
            } =>
            "MVS 矩形超出当前 surface: "@ + crate::text::decimal(width as nat) + "x"@
                + crate::text::decimal(height as nat) + "+"@ + crate::text::decimal(x as nat)
                + ","@ + crate::text::decimal(y as nat) + " > "@ + crate::text::decimal(
                surface_width as nat,
            ) + "x"@ + crate::text::decimal(surface_height as nat),
            VncError::PartialOpcode { place, opcode_start_bit, failure_bit, cause } =>
            "MVS type-1 opcode 读取失败: rect="@ + place_text(place) + " opcode_start_bit="@
                + crate::text::decimal(opcode_start_bit as nat) + " failure_bit="@
                + crate::text::decimal(failure_bit as nat),
            VncError::PartialTile { place, opcode, opcode_start_bit, failure_bit, cause } =>
            "MVS type-1 tile 处理失败: rect="@ + place_text(place) + " opcode="@
                + crate::text::decimal(opcode as nat) + " opcode_start_bit="@
                + crate::text::decimal(opcode_start_bit as nat) + " failure_bit="@
                + crate::text::decimal(failure_bit as nat),
            VncError::PartialTerminal {
                rect_x,
                rect_y,
                width,
                height,
                terminal_index,
                terminal_bit,
                failure_bit,
                cause,
            } => "MVS type-1 terminal 失败: rect="@ + rect_text(rect_x, rect_y, width, height)
                + " terminal_index="@ + crate::text::decimal(terminal_index as nat)
                + " terminal_bit="@ + crate::text::decimal(terminal_bit as nat) + " failure_bit="@
                + crate::text::decimal(failure_bit as nat),
        }
    }

    /// What lies behind this failure, where something does.
    pub open spec fn inner(self) -> Option<VncError> {
        match self {
            VncError::RoleContext { role, after, cause } => Some(*cause),
            VncError::Context { text, cause } => Some(*cause),
            VncError::Counted { before, value, after, cause } => Some(*cause),
            VncError::SaidContext { before, said, after, cause } => Some(*cause),
            VncError::Measured { before, across, down, cause } => Some(*cause),
            VncError::PartialOpcode { place, opcode_start_bit, failure_bit, cause } => Some(*cause),
            VncError::PartialTile { place, opcode, opcode_start_bit, failure_bit, cause } => Some(
                *cause,
            ),
            VncError::PartialTerminal {
                rect_x,
                rect_y,
                width,
                height,
                terminal_index,
                terminal_bit,
                failure_bit,
                cause,
            } => Some(*cause),
            _ => None,
        }
    }

    /// The sentence of this failure and of every cause behind it, parted by `: `.
    pub open spec fn whole(self) -> Seq<char>
        decreases self,
    {
        match self {
            VncError::RoleContext { role, after, cause } => self.headline() + ": "@ + cause.whole(),
            VncError::Context { text, cause } => self.headline() + ": "@ + cause.whole(),
            VncError::Counted { before, value, after, cause } => self.headline() + ": "@
                + cause.whole(),
            VncError::SaidContext { before, said, after, cause } => self.headline() + ": "@
                + cause.whole(),
            VncError::Measured { before, across, down, cause } => self.headline() + ": "@
                + cause.whole(),
            VncError::PartialOpcode { place, opcode_start_bit, failure_bit, cause } => self.headline()
                + ": "@ + cause.whole(),
            VncError::PartialTile { place, opcode, opcode_start_bit, failure_bit, cause } =>
            self.headline() + ": "@ + cause.whole(),
            VncError::PartialTerminal {
                rect_x,
                rect_y,
                width,
                height,
                terminal_index,
                terminal_bit,
                failure_bit,
                cause,
            } => self.headline() + ": "@ + cause.whole(),
            _ => self.headline(),
        }
    }

    /// This failure and every cause behind it.
    pub open spec fn links(self) -> Seq<VncError>
        decreases self,
    {
        match self {
            VncError::RoleContext { role, after, cause } => seq![self] + cause.links(),
            VncError::Context { text, cause } => seq![self] + cause.links(),
            VncError::Counted { before, value, after, cause } => seq![self] + cause.links(),
            VncError::SaidContext { before, said, after, cause } => seq![self] + cause.links(),
            VncError::Measured { before, across, down, cause } => seq![self] + cause.links(),
            VncError::PartialOpcode { place, opcode_start_bit, failure_bit, cause } => seq![self]
                + cause.links(),
            VncError::PartialTile { place, opcode, opcode_start_bit, failure_bit, cause } =>
            seq![self] + cause.links(),
            VncError::PartialTerminal {
                rect_x,
                rect_y,
                width,
                height,
                terminal_index,
                terminal_bit,
                failure_bit,
                cause,
            } => seq![self] + cause.links(),
            _ => seq![self],
        }
    }

    /// The sentence of this failure, without its cause.
    pub fn message(&self) -> (r: String)
        ensures
            r@ == self.headline(),
    {
        let mut out = String::new();
        self.push_headline(&mut out);
        assert(out@ =~= self.headline());
        out
    }

    fn push_headline(&self, out: &mut String)
        ensures
            final(out)@ == old(out)@ + self.headline(),
    {
        match self {
            VncError::Text(text) => {
                out.append(text);
                assert(out@ =~= old(out)@ + self.headline());
            },
            VncError::Number { before, value, after } => {
                out.append(before);
                push_decimal(out, *value);
                out.append(after);
                assert(out@ =~= old(out)@ + self.headline());
            },
            VncError::Numbers { before, first, between, second, after } => {
                out.append(before);
                push_decimal(out, *first);
                out.append(between);
                push_decimal(out, *second);
                out.append(after);
                assert(out@ =~= old(out)@ + self.headline());
            },
            VncError::Byte { before, byte } => {
                out.append(before);
                out.append("0x");
                push_hex_byte(out, *byte);
                assert(out@ =~= old(out)@ + self.headline());
            },
            VncError::Role { role, after } => {
                out.append(role);
                out.append(after);
                assert(out@ =~= old(out)@ + self.headline());
            },
            VncError::RoleNumber { role, after, count } => {
                out.append(role);
                out.append(after);
                push_decimal(out, *count);
                assert(out@ =~= old(out)@ + self.headline());
            },
            VncError::RoleContext { role, after, cause } => {
                out.append(role);
                out.append(after);
                assert(out@ =~= old(out)@ + self.headline());
            },
            VncError::Outside(text) | VncError::TimedOut(text) | VncError::PeerClosed(text) => {
                out.append(text.as_str());
                assert(out@ =~= old(out)@ + self.headline());
            },
            VncError::Signed { .. }
            | VncError::SignedOf { .. }
            | VncError::Hex { .. }
            | VncError::Said { .. }
            | VncError::SaidContext { .. }
            | VncError::ColdDeadline
            | VncError::Measured { .. } => {
                self.push_session_headline(out);
            },
            VncError::Context { text, cause } => {
                out.append(text);
                assert(out@ =~= old(out)@ + self.headline());
            },
            VncError::Counted { before, value, after, cause } => {
                out.append(before);
                push_decimal(out, *value);
                out.append(after);
                assert(out@ =~= old(out)@ + self.headline());
            },
            VncError::PartialOpcode { .. } | VncError::PartialTile { .. } | VncError::PartialTerminal { .. } => {
                self.push_tile_headline(out);
            },
            VncError::BitsExhausted { .. }
            | VncError::RectOutsideSurface { .. }
            | VncError::MediaRectOutside { .. } => {
                self.push_area_headline(out);
            },
        }
    }

    fn push_session_headline(&self, out: &mut String)
        requires
            self is Signed || self is SignedOf || self is Hex || self is Said || self is SaidContext
                || self is ColdDeadline || self is Measured,
        ensures
            final(out)@ == old(out)@ + self.headline(),
    {
        match self {
            VncError::Signed { before, number, after } => {
                out.append(before);
                push_integer(out, *number);
                out.append(after);
                assert(out@ =~= old(out)@ + self.headline());
            },
            VncError::SignedOf { before, number, between, whole } => {
                out.append(before);
                push_integer(out, *number);
                out.append(between);
                push_decimal(out, *whole);
                assert(out@ =~= old(out)@ + self.headline());
            },
            VncError::Hex { before, hex, digits, after } => {
                out.append(before);
                out.append("0x");
                push_hexadecimal(out, *hex, *digits);
                out.append(after);
                assert(out@ =~= old(out)@ + self.headline());
            },
            VncError::Said { before, said, after } => {
                out.append(before);
                out.append(said.as_str());
                out.append(after);
                assert(out@ =~= old(out)@ + self.headline());
            },
            VncError::SaidContext { before, said, after, cause } => {
                out.append(before);
                out.append(said.as_str());
                out.append(after);
                assert(out@ =~= old(out)@ + self.headline());
            },
            VncError::ColdDeadline => {
                out.append("cold deadline");
                assert(out@ =~= old(out)@ + self.headline());
            },
            VncError::Measured { before, across, down, cause } => {
                out.append(before);
                push_decimal(out, *across);
                out.append("x");
                push_decimal(out, *down);
                assert(out@ =~= old(out)@ + self.headline());
            },
            _ => {},
        }
    }

    fn push_tile_headline(&self, out: &mut String)
        requires
            self is PartialOpcode || self is PartialTile || self is PartialTerminal,
        ensures
            final(out)@ == old(out)@ + self.headline(),
    {
        match self {
            VncError::PartialOpcode { place, opcode_start_bit, failure_bit, cause } => {
                out.append("MVS type-1 opcode 读取失败: rect=");
                push_place(out, place);
                out.append(" opcode_start_bit=");
                push_decimal(out, *opcode_start_bit as u64);
                out.append(" failure_bit=");
                push_decimal(out, *failure_bit as u64);
                assert(out@ =~= old(out)@ + self.headline());
            },
            VncError::PartialTile { place, opcode, opcode_start_bit, failure_bit, cause } => {
                out.append("MVS type-1 tile 处理失败: rect=");
                push_place(out, place);
                out.append(" opcode=");
                push_decimal(out, *opcode as u64);
                out.append(" opcode_start_bit=");
                push_decimal(out, *opcode_start_bit as u64);
                out.append(" failure_bit=");
                push_decimal(out, *failure_bit as u64);
                assert(out@ =~= old(out)@ + self.headline());
            },
            VncError::PartialTerminal {
                rect_x,
                rect_y,
                width,
                height,
                terminal_index,
                terminal_bit,
                failure_bit,
                cause,
            } => {
                out.append("MVS type-1 terminal 失败: rect=");
                push_rect(out, *rect_x, *rect_y, *width, *height);
                out.append(" terminal_index=");
                push_decimal(out, *terminal_index as u64);
                out.append(" terminal_bit=");
                push_decimal(out, *terminal_bit as u64);
                out.append(" failure_bit=");
                push_decimal(out, *failure_bit as u64);
                assert(out@ =~= old(out)@ + self.headline());
            },
            _ => {},
        }
    }

    fn push_area_headline(&self, out: &mut String)
        requires
            self is BitsExhausted || self is RectOutsideSurface || self is MediaRectOutside,
        ensures
            final(out)@ == old(out)@ + self.headline(),
    {
        match self {
            VncError::BitsExhausted { offset, count, remaining } => {
                out.append("MVS 位流耗尽: bit offset ");
                push_decimal(out, *offset as u64);
                out.append(" 请求 ");
                push_decimal(out, *count as u64);
                out.append(" 位，仅余 ");
                push_decimal(out, *remaining as u64);
                out.append(" 位");
                assert(out@ =~= old(out)@ + self.headline());
            },
            VncError::RectOutsideSurface {
                before,
                x,
                y,
                width,
                height,
                surface_width,
                surface_height,
            } => {
                out.append(before);
                push_rect(out, *x, *y, *width, *height);
                out.append(", surface=");
                push_decimal(out, *surface_width as u64);
                out.append("x");
                push_decimal(out, *surface_height as u64);
                assert(out@ =~= old(out)@ + self.headline());
            },
            VncError::MediaRectOutside {
                media_width: width,
                media_height: height,
                media_x: x,
                media_y: y,
                limit_width: surface_width,
                limit_height: surface_height,
            } => {
                out.append("MVS 矩形超出当前 surface: ");
                push_decimal(out, *width as u64);
                out.append("x");
                push_decimal(out, *height as u64);
                out.append("+");
                push_decimal(out, *x as u64);
                out.append(",");
                push_decimal(out, *y as u64);
                out.append(" > ");
                push_decimal(out, *surface_width as u64);
                out.append("x");
                push_decimal(out, *surface_height as u64);
                assert(out@ =~= old(out)@ + self.headline());
            },
            _ => {},
        }
    }

    /// What lies behind this failure, where something does.
    pub fn cause(&self) -> (r: Option<&VncError>)
        ensures
            r == (match self.inner() {
                Some(e) => Some(&e),
                None => None,
            }),
            r matches Some(e) ==> decreases_to!(self => e),
    {
        match self {
            VncError::RoleContext { role, after, cause } => Some(&**cause),
            VncError::Context { text, cause } => Some(&**cause),
            VncError::Counted { before, value, after, cause } => Some(&**cause),
            VncError::SaidContext { before, said, after, cause } => Some(&**cause),
            VncError::Measured { before, across, down, cause } => Some(&**cause),
            VncError::PartialOpcode { place, opcode_start_bit, failure_bit, cause } => Some(&**cause),
            VncError::PartialTile { place, opcode, opcode_start_bit, failure_bit, cause } => Some(
                &**cause,
            ),
            VncError::PartialTerminal {
                rect_x,
                rect_y,
                width,
                height,
                terminal_index,
                terminal_bit,
                failure_bit,
                cause,
            } => Some(&**cause),
            _ => None,
        }
    }

    fn push_whole(&self, out: &mut String)
        ensures
            final(out)@ == old(out)@ + self.whole(),
        decreases self,
    {
        self.push_headline(out);
        match self.cause() {
            Some(cause) => {
                out.append(": ");
                cause.push_whole(out);
            },
            None => {},
        }
        assert(out@ =~= old(out)@ + self.whole());
    }

    /// The sentence of this failure and of every cause behind it, parted by `: `.
    pub fn chain(&self) -> (r: String)
        ensures
            r@ == self.whole(),
    {
        let mut out = String::new();
        self.push_whole(&mut out);
        assert(out@ =~= self.whole());
        out
    }
}

} // verus!
