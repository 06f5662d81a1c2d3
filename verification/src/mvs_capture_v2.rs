//! What the events of a capture file hold.

use vstd::prelude::*;
use crate::capture_events::{CaptureCounters, EVENT_ABORTED, EVENT_CLEAN};
use crate::capture_events::{MVS_CAPTURE_V2_MAX_CUMULATIVE_PAYLOAD, MVS_CAPTURE_V2_MAX_PAYLOAD};
use crate::error::VncError;
use crate::framebuffer::validate_framebuffer_geometry;
use crate::mvs_full::MAX_MVS_DECODE_PIXELS;
use crate::mvs_stream::{owned_bytes, validate_mvs_rect_against_surface, MvsRect, MvsRecord};
use crate::mvs_stream::RecordView;
use crate::wire::{read_be16, read_be32, read_be64};

verus! {

/// How far a capture has come.
#[derive(Clone, Copy, Debug, PartialEq, Eq, Structural)]
pub enum StructuralPhase {
    Start,
    Created,
    Armed,
    Triggered,
    Recording,
}

/// What a capture may be used for.
#[derive(Clone, Copy, Debug, PartialEq, Eq, Structural)]
pub enum MvsCaptureV2Provenance {
    DiagnosticOnly,
    HistoricalUnproven,
}

/// The size of a surface.
#[derive(Clone, Copy, Debug, PartialEq, Eq, Structural)]
pub struct MvsCaptureV2Geometry {
    pub width: u16,
    pub height: u16,
}

/// How a capture ended.
#[derive(Clone, Copy, Debug, PartialEq, Eq, Structural)]
pub enum MvsCaptureV2TerminalKind {
    Clean,
    Aborted,
}

/// Why a capture ended.
#[derive(Clone, Copy, Debug, PartialEq, Eq, Structural)]
pub enum MvsCaptureV2TerminalReason {
    Deadline,
    RecordLimit,
    ConnectFailure,
    CredentialOrAuthenticationFailure,
    ArmOutputFailure,
    TriggerFailure,
    ReadFailure,
    AssemblerFailure,
    PendingAtDeadline,
    OutputFailure,
    OperatorCancellation,
    InvalidGeometry,
    PreTriggerDeadline,
}

/// A record and the transport frames that it came in.
#[derive(Clone, Debug, PartialEq, Eq)]
pub struct MvsCaptureV2Record {
    pub generation: u64,
    pub first_source_frame_ordinal: u64,
    pub last_source_frame_ordinal: u64,
    pub record: MvsRecord,
}

/// What a captured record holds.
#[verifier::ext_equal]
pub struct CaptureRecordView {
    pub generation: u64,
    pub first: u64,
    pub last: u64,
    pub record: RecordView,
}

impl View for MvsCaptureV2Record {
    type V = CaptureRecordView;

    open spec fn view(&self) -> CaptureRecordView {
        CaptureRecordView {
            generation: self.generation,
            first: self.first_source_frame_ordinal,
            last: self.last_source_frame_ordinal,
            record: self.record@,
        }
    }
}

/// A change of the surface.
#[derive(Clone, Copy, Debug, PartialEq, Eq, Structural)]
pub struct MvsCaptureV2Surface {
    pub generation: u64,
    pub geometry: MvsCaptureV2Geometry,
}

/// A record that is missing.
#[derive(Clone, Copy, Debug, PartialEq, Eq, Structural)]
pub struct MvsCaptureV2Gap {
    pub reason: u16,
    pub stage: u16,
    pub first_source_frame_ordinal: u64,
    pub last_source_frame_ordinal: u64,
    pub declared_total: u32,
    pub accumulated_bytes: u32,
    pub rect: MvsRect,
}

/// The end of a capture and its totals.
#[derive(Clone, Copy, Debug, PartialEq, Eq, Structural)]
pub struct MvsCaptureV2Terminal {
    pub kind: MvsCaptureV2TerminalKind,
    pub reason: MvsCaptureV2TerminalReason,
    pub timestamp_us: u64,
    pub gap_count: u32,
    pub source_mvs_frame_count: u64,
    pub record_count: u64,
    pub type0_count: u64,
    pub type1_count: u64,
    pub type2_count: u64,
}

/// The surface size that was read, or why it is refused.
pub open spec fn geometry_of(width: u16, height: u16) -> Result<MvsCaptureV2Geometry, VncError> {
    if width == 0 || height == 0 {
        Err(VncError::Text("surface geometry 为零"))
    } else {
        match crate::framebuffer::framebuffer_refusal(width as int, height as int) {
            Some(e) => Err(e),
            None => Ok(MvsCaptureV2Geometry { width, height }),
        }
    }
}

/// A surface size that is not empty and within the budget.
pub fn geometry(width: u16, height: u16) -> (r: Result<MvsCaptureV2Geometry, VncError>)
    ensures
        r == geometry_of(width, height),
{
    if width == 0 || height == 0 {
        return Err(VncError::Text("surface geometry 为零"));
    }
    validate_framebuffer_geometry(width as usize, height as usize)?;
    Ok(MvsCaptureV2Geometry { width, height })
}

/// The rectangle that is written at `at`.
pub open spec fn rect_at(body: Seq<u8>, at: int) -> MvsRect {
    MvsRect {
        x: crate::wire::be16(body, at),
        y: crate::wire::be16(body, at + 2),
        width: crate::wire::be16(body, at + 4),
        height: crate::wire::be16(body, at + 6),
    }
}

/// Reads the rectangle that is written at `at`.
pub fn read_rect(body: &[u8], at: usize) -> (r: MvsRect)
    requires
        at + 8 <= body@.len(),
    ensures
        r == rect_at(body@, at as int),
{
    let _total: usize = body.len();
    MvsRect {
        x: read_be16(body, at),
        y: read_be16(body, at + 2),
        width: read_be16(body, at + 4),
        height: read_be16(body, at + 6),
    }
}

/// The rectangle that covers nothing.
pub open spec fn empty_rect() -> MvsRect {
    MvsRect { x: 0, y: 0, width: 0, height: 0 }
}

/// Whether a rectangle is the one of records without an area.
pub fn is_empty_rect(rect: MvsRect) -> (r: bool)
    ensures
        r == (rect == empty_rect()),
{
    rect.x == 0 && rect.y == 0 && rect.width == 0 && rect.height == 0
}

/// Why a record of this payload length does not fit its body, where it does not.
pub open spec fn record_length_refusal(declared: int, available_body: int) -> Option<VncError> {
    if 28 + declared > usize::MAX {
        Some(VncError::Text("Record payload length 算术溢出"))
    } else if declared < 1 || declared > MVS_CAPTURE_V2_MAX_PAYLOAD {
        Some(VncError::Text("Record payload length 超出范围"))
    } else if available_body != 28 + declared {
        Some(VncError::Text("Record payload length 与 body 不匹配"))
    } else {
        None
    }
}

/// Accepts a payload length within the limit that fills its body.
pub fn validate_record_payload_length(declared: usize, available_body: usize) -> (r: Result<
    (),
    VncError,
>)
    ensures
        r == crate::error::checked(record_length_refusal(declared as int, available_body as int)),
{
    let expected_body: usize = match declared.checked_add(28) {
        Some(expected) => expected,
        None => {
            return Err(VncError::Text("Record payload length 算术溢出"));
        },
    };
    if declared < 1 || declared > MVS_CAPTURE_V2_MAX_PAYLOAD {
        return Err(VncError::Text("Record payload length 超出范围"));
    }
    if available_body != expected_body {
        return Err(VncError::Text("Record payload length 与 body 不匹配"));
    }
    Ok(())
}

/// Why a record may not paint `rect` on `surface`, where it may not.
pub open spec fn record_rect_refusal(rect: MvsRect, surface: MvsCaptureV2Geometry) -> Option<
    VncError,
> {
    match crate::mvs_stream::rect_refusal(rect, surface.width, surface.height) {
        Some(e) => Some(e),
        None => if rect.width * rect.height > MAX_MVS_DECODE_PIXELS {
            Some(VncError::Text("MVS record rectangle 超过像素预算"))
        } else {
            None
        },
    }
}

/// Accepts a rectangle inside the surface and within the budget.
pub fn validate_record_rect(rect: MvsRect, surface: MvsCaptureV2Geometry) -> (r: Result<(), VncError>)
    ensures
        r == crate::error::checked(record_rect_refusal(rect, surface)),
{
    validate_mvs_rect_against_surface(rect, surface.width, surface.height)?;
    assert(0 <= rect.width * rect.height <= 0xffff * 0xffff) by (nonlinear_arith)
        requires
            0 <= rect.width <= 0xffff,
            0 <= rect.height <= 0xffff,
    ;
    let pixels: u32 = rect.width as u32 * rect.height as u32;
    if pixels > MAX_MVS_DECODE_PIXELS as u32 {
        return Err(VncError::Text("MVS record rectangle 超过像素预算"));
    }
    Ok(())
}

/// Why a payload with this first byte does not go with `rect`, where it does not.
pub open spec fn tag_refusal(tag: u8, rect: MvsRect, surface: MvsCaptureV2Geometry) -> Option<
    VncError,
> {
    if tag == 2 {
        if rect == empty_rect() {
            None
        } else {
            Some(VncError::Text("type-2 rectangle 必须为零"))
        }
    } else if tag == 0 || tag == 1 {
        record_rect_refusal(rect, surface)
    } else {
        Some(VncError::Text("未知 MVS payload tag"))
    }
}

/// The record that a body holds, and the payload bytes that are then counted.
pub open spec fn record_of(
    body: Seq<u8>,
    generation: u64,
    surface: MvsCaptureV2Geometry,
    payload: int,
) -> Result<(CaptureRecordView, int), VncError> {
    let first = crate::wire::be64(body, 0);
    let last = crate::wire::be64(body, 8);
    let rect = rect_at(body, 16);
    let length = crate::wire::be32(body, 24) as int;
    if body.len() < 29 {
        Err(VncError::Text("Record body 太短"))
    } else if first > last || last == u64::MAX {
        Err(VncError::Text("Record source range 无效"))
    } else if record_length_refusal(length, body.len() as int) is Some {
        Err(record_length_refusal(length, body.len() as int)->0)
    } else if tag_refusal(body[28], rect, surface) is Some {
        Err(tag_refusal(body[28], rect, surface)->0)
    } else if crate::capture_events::payload_refusal(payload, length) is Some {
        Err(crate::capture_events::payload_refusal(payload, length)->0)
    } else {
        Ok(
            (
                CaptureRecordView {
                    generation,
                    first,
                    last,
                    record: RecordView { rect, payload: body.skip(28) },
                },
                payload + length,
            ),
        )
    }
}

/// Reads a record and counts its payload. A refusal counts nothing.
pub fn parse_record(
    body: &[u8],
    generation: u64,
    surface: MvsCaptureV2Geometry,
    counters: &mut CaptureCounters,
) -> (r: Result<MvsCaptureV2Record, VncError>)
    ensures
        final(counters).events == old(counters).events,
        match record_of(body@, generation, surface, old(counters).payload as int) {
            Ok(p) => r matches Ok(v) && v@ == p.0 && final(counters).payload == p.1,
            Err(e) => r == Err::<MvsCaptureV2Record, VncError>(e) && *final(counters) == *old(
                counters,
            ),
        },
{
    if body.len() < 29 {
        return Err(VncError::Text("Record body 太短"));
    }
    let first: u64 = read_be64(body, 0);
    let last: u64 = read_be64(body, 8);
    if first > last || last == u64::MAX {
        return Err(VncError::Text("Record source range 无效"));
    }
    let rect = read_rect(body, 16);
    let payload_len: usize = read_be32(body, 24) as usize;
    validate_record_payload_length(payload_len, body.len())?;
    let tag: u8 = body[28];
    if tag == 2 {
        if !is_empty_rect(rect) {
            return Err(VncError::Text("type-2 rectangle 必须为零"));
        }
    } else if tag == 0 || tag == 1 {
        validate_record_rect(rect, surface)?;
    } else {
        return Err(VncError::Text("未知 MVS payload tag"));
    }
    counters.reserve_payload(payload_len)?;
    let payload = owned_bytes(vstd::slice::slice_subrange(body, 28, body.len()));
    assert(payload@ =~= body@.skip(28));
    Ok(
        MvsCaptureV2Record {
            generation,
            first_source_frame_ordinal: first,
            last_source_frame_ordinal: last,
            record: MvsRecord { rect, payload },
        },
    )
}

/// The step of the capture in which a gap of this reason arises.
pub open spec fn gap_stage_of(reason: u16) -> Result<u16, VncError> {
    if reason == 1 || reason == 2 || reason == 3 || reason == 10 {
        Ok(1)
    } else if reason == 4 || reason == 9 {
        Ok(2)
    } else if 5 <= reason <= 8 {
        Ok((reason - 2) as u16)
    } else if reason == 12 {
        Ok(7)
    } else if reason == 11 {
        Ok(8)
    } else {
        Err(VncError::Text("未知 Gap reason"))
    }
}

/// The step of the capture in which a gap of this reason arises.
pub fn gap_stage(reason: u16) -> (r: Result<u16, VncError>)
    ensures
        r == gap_stage_of(reason),
{
    match reason {
        1 | 2 | 3 | 10 => Ok(1),
        4 | 9 => Ok(2),
        5 => Ok(3),
        6 => Ok(4),
        7 => Ok(5),
        8 => Ok(6),
        12 => Ok(7),
        11 => Ok(8),
        _ => Err(VncError::Text("未知 Gap reason")),
    }
}

/// The number of the end that follows a gap of this reason.
pub open spec fn gap_terminal_of(reason: u16) -> Result<u16, VncError> {
    if reason == 6 {
        Ok(263)
    } else if reason == 7 {
        Ok(261)
    } else if reason == 8 {
        Ok(266)
    } else if reason == 12 {
        Ok(265)
    } else if 1 <= reason <= 11 {
        Ok(262)
    } else {
        Err(VncError::Text("未知 Gap reason"))
    }
}

/// The number of the end that follows a gap of this reason.
pub fn gap_terminal_code(reason: u16) -> (r: Result<u16, VncError>)
    ensures
        r == gap_terminal_of(reason),
{
    match reason {
        1 | 2 | 3 | 4 | 5 | 9 | 10 | 11 => Ok(262),
        6 => Ok(263),
        7 => Ok(261),
        8 => Ok(266),
        12 => Ok(265),
        _ => Err(VncError::Text("未知 Gap reason")),
    }
}

/// The number of a reason.
pub open spec fn reason_code(reason: MvsCaptureV2TerminalReason) -> u16 {
    match reason {
        MvsCaptureV2TerminalReason::Deadline => 1,
        MvsCaptureV2TerminalReason::RecordLimit => 2,
        MvsCaptureV2TerminalReason::ConnectFailure => 257,
        MvsCaptureV2TerminalReason::CredentialOrAuthenticationFailure => 258,
        MvsCaptureV2TerminalReason::ArmOutputFailure => 259,
        MvsCaptureV2TerminalReason::TriggerFailure => 260,
        MvsCaptureV2TerminalReason::ReadFailure => 261,
        MvsCaptureV2TerminalReason::AssemblerFailure => 262,
        MvsCaptureV2TerminalReason::PendingAtDeadline => 263,
        MvsCaptureV2TerminalReason::OutputFailure => 264,
        MvsCaptureV2TerminalReason::OperatorCancellation => 265,
        MvsCaptureV2TerminalReason::InvalidGeometry => 266,
        MvsCaptureV2TerminalReason::PreTriggerDeadline => 267,
    }
}

/// Whether a number is that of a reason.
pub open spec fn is_reason_code(code: u16) -> bool {
    1 <= code <= 2 || 257 <= code <= 267
}

/// The reason with this number.
pub fn terminal_reason(reason: u16) -> (r: Result<MvsCaptureV2TerminalReason, VncError>)
    ensures
        is_reason_code(reason) ==> (r matches Ok(v) && reason_code(v) == reason),
        !is_reason_code(reason) ==> r == Err::<MvsCaptureV2TerminalReason, VncError>(
            VncError::Text("未知 terminal reason"),
        ),
{
    match reason {
        1 => Ok(MvsCaptureV2TerminalReason::Deadline),
        2 => Ok(MvsCaptureV2TerminalReason::RecordLimit),
        257 => Ok(MvsCaptureV2TerminalReason::ConnectFailure),
        258 => Ok(MvsCaptureV2TerminalReason::CredentialOrAuthenticationFailure),
        259 => Ok(MvsCaptureV2TerminalReason::ArmOutputFailure),
        260 => Ok(MvsCaptureV2TerminalReason::TriggerFailure),
        261 => Ok(MvsCaptureV2TerminalReason::ReadFailure),
        262 => Ok(MvsCaptureV2TerminalReason::AssemblerFailure),
        263 => Ok(MvsCaptureV2TerminalReason::PendingAtDeadline),
        264 => Ok(MvsCaptureV2TerminalReason::OutputFailure),
        265 => Ok(MvsCaptureV2TerminalReason::OperatorCancellation),
        266 => Ok(MvsCaptureV2TerminalReason::InvalidGeometry),
        267 => Ok(MvsCaptureV2TerminalReason::PreTriggerDeadline),
        _ => Err(VncError::Text("未知 terminal reason")),
    }
}

/// Why the numbers of a gap do not go with its reason, where they do not.
pub open spec fn gap_numbers_refusal(
    reason: u16,
    first: u64,
    last: u64,
    declared: u32,
    accumulated: u32,
    cumulative_before: int,
) -> Option<VncError> {
    let sized = 1 <= declared <= MVS_CAPTURE_V2_MAX_PAYLOAD;
    let at_once = accumulated == 0 && first == last;
    if reason == 1 || reason == 9 {
        if declared == 0 && at_once {
            None
        } else {
            Some(VncError::Text("Gap immediate diagnostic 字段无效"))
        }
    } else if reason == 2 {
        if !sized && at_once {
            None
        } else {
            Some(VncError::Text("Gap reason 2 total 无效"))
        }
    } else if reason == 3 {
        if sized && at_once {
            None
        } else {
            Some(VncError::Text("Gap reason 3 字段无效"))
        }
    } else if reason == 4 || reason == 10 {
        if sized && accumulated < declared && first < last {
            None
        } else {
            Some(VncError::Text("Gap pending/offending 字段无效"))
        }
    } else if reason == 11 {
        if sized && at_once && cumulative_before + declared
            > MVS_CAPTURE_V2_MAX_CUMULATIVE_PAYLOAD {
            None
        } else {
            Some(VncError::Text("Gap reason 11 字段无效"))
        }
    } else {
        if sized && accumulated < declared {
            None
        } else {
            Some(VncError::Text("Gap pending 字段无效"))
        }
    }
}

/// Accepts numbers that go with the reason of a gap.
fn validate_gap_numbers(
    reason: u16,
    first: u64,
    last: u64,
    declared: u32,
    accumulated: u32,
    cumulative_before: usize,
) -> (r: Result<(), VncError>)
    ensures
        r == crate::error::checked(
            gap_numbers_refusal(
                reason,
                first,
                last,
                declared,
                accumulated,
                cumulative_before as int,
            ),
        ),
{
    let sized: bool = 1 <= declared && declared <= MVS_CAPTURE_V2_MAX_PAYLOAD as u32;
    let at_once: bool = accumulated == 0 && first == last;
    match reason {
        1 | 9 => if !(declared == 0 && at_once) {
            return Err(VncError::Text("Gap immediate diagnostic 字段无效"));
        },
        2 => if sized || !at_once {
            return Err(VncError::Text("Gap reason 2 total 无效"));
        },
        3 => if !sized || !at_once {
            return Err(VncError::Text("Gap reason 3 字段无效"));
        },
        4 | 10 => if !(sized && accumulated < declared && first < last) {
            return Err(VncError::Text("Gap pending/offending 字段无效"));
        },
        11 => {
            let over: bool = match cumulative_before.checked_add(declared as usize) {
                Some(total) => total > MVS_CAPTURE_V2_MAX_CUMULATIVE_PAYLOAD,
                None => true,
            };
            if !(sized && at_once && over) {
                return Err(VncError::Text("Gap reason 11 字段无效"));
            }
        },
        _ => if !(sized && accumulated < declared) {
            return Err(VncError::Text("Gap pending 字段无效"));
        },
    }
    Ok(())
}

/// The gap that a body holds.
pub open spec fn gap_of(body: Seq<u8>, cumulative_before: int) -> Result<MvsCaptureV2Gap, VncError> {
    let reason = crate::wire::be16(body, 0);
    let stage = crate::wire::be16(body, 2);
    let first = crate::wire::be64(body, 8);
    let last = crate::wire::be64(body, 16);
    let declared = crate::wire::be32(body, 24);
    let accumulated = crate::wire::be32(body, 28);
    let rect = rect_at(body, 32);
    let numbers = gap_numbers_refusal(reason, first, last, declared, accumulated, cumulative_before);
    if body.len() != 40 {
        Err(VncError::Text("Gap body 长度无效"))
    } else if gap_stage_of(reason) is Err {
        Err(gap_stage_of(reason)->Err_0)
    } else if gap_stage_of(reason)->Ok_0 != stage || crate::wire::be32(body, 4) != 1 {
        Err(VncError::Text("Gap reason/stage/flags 无效"))
    } else if first > last || first == u64::MAX || last == u64::MAX {
        Err(VncError::Text("Gap frame range 无效"))
    } else if numbers is Some {
        Err(numbers->0)
    } else if reason == 9 && rect != empty_rect() {
        Err(VncError::Text("Gap reason 9 rectangle 无效"))
    } else {
        Ok(
            MvsCaptureV2Gap {
                reason,
                stage,
                first_source_frame_ordinal: first,
                last_source_frame_ordinal: last,
                declared_total: declared,
                accumulated_bytes: accumulated,
                rect,
            },
        )
    }
}

/// Reads a gap.
pub fn parse_gap(body: &[u8], cumulative_before: usize) -> (r: Result<MvsCaptureV2Gap, VncError>)
    ensures
        r == gap_of(body@, cumulative_before as int),
{
    if body.len() != 40 {
        return Err(VncError::Text("Gap body 长度无效"));
    }
    let reason: u16 = read_be16(body, 0);
    let stage: u16 = read_be16(body, 2);
    let expected: u16 = gap_stage(reason)?;
    if expected != stage || read_be32(body, 4) != 1 {
        return Err(VncError::Text("Gap reason/stage/flags 无效"));
    }
    let first: u64 = read_be64(body, 8);
    let last: u64 = read_be64(body, 16);
    if first > last || first == u64::MAX || last == u64::MAX {
        return Err(VncError::Text("Gap frame range 无效"));
    }
    let declared_total: u32 = read_be32(body, 24);
    let accumulated_bytes: u32 = read_be32(body, 28);
    let rect = read_rect(body, 32);
    validate_gap_numbers(reason, first, last, declared_total, accumulated_bytes, cumulative_before)?;
    if reason == 9 && !is_empty_rect(rect) {
        return Err(VncError::Text("Gap reason 9 rectangle 无效"));
    }
    Ok(
        MvsCaptureV2Gap {
            reason,
            stage,
            first_source_frame_ordinal: first,
            last_source_frame_ordinal: last,
            declared_total,
            accumulated_bytes,
            rect,
        },
    )
}

/// The reason with this number.
pub open spec fn reason_of(code: u16) -> MvsCaptureV2TerminalReason {
    choose|reason: MvsCaptureV2TerminalReason| #[trigger] reason_code(reason) == code
}

/// A reason is found by its number.
pub proof fn lemma_reason_of(reason: MvsCaptureV2TerminalReason)
    ensures
        reason_of(reason_code(reason)) == reason,
        is_reason_code(reason_code(reason)),
{
    let other = reason_of(reason_code(reason));
    assert(reason_code(other) == reason_code(reason));
}

/// The kind of an end.
pub open spec fn terminal_kind_of(kind: u16) -> Option<MvsCaptureV2TerminalKind> {
    if kind == EVENT_CLEAN {
        Some(MvsCaptureV2TerminalKind::Clean)
    } else if kind == EVENT_ABORTED {
        Some(MvsCaptureV2TerminalKind::Aborted)
    } else {
        None
    }
}

/// The end that a body holds.
pub open spec fn terminal_of(kind: u16, body: Seq<u8>, timestamp_us: u64) -> Result<
    MvsCaptureV2Terminal,
    VncError,
> {
    let code = crate::wire::be16(body, 0);
    if body.len() != 48 {
        Err(VncError::Text("terminal body 长度无效"))
    } else if crate::wire::be16(body, 2) != 0 {
        Err(VncError::Text("terminal reserved 非零"))
    } else if !is_reason_code(code) {
        Err(VncError::Text("未知 terminal reason"))
    } else if terminal_kind_of(kind) is None {
        Err(VncError::Text("terminal type 无效"))
    } else if kind == EVENT_CLEAN && !(1 <= code <= 2) {
        Err(VncError::Text("Clean reason/type 无效"))
    } else if kind == EVENT_ABORTED && !(257 <= code <= 267) {
        Err(VncError::Text("Aborted reason/type 无效"))
    } else {
        Ok(
            MvsCaptureV2Terminal {
                kind: terminal_kind_of(kind)->0,
                reason: reason_of(code),
                timestamp_us,
                gap_count: crate::wire::be32(body, 4),
                source_mvs_frame_count: crate::wire::be64(body, 8),
                record_count: crate::wire::be64(body, 16),
                type0_count: crate::wire::be64(body, 24),
                type1_count: crate::wire::be64(body, 32),
                type2_count: crate::wire::be64(body, 40),
            },
        )
    }
}

/// Reads an end.
pub fn parse_terminal(kind: u16, body: &[u8], timestamp_us: u64) -> (r: Result<
    MvsCaptureV2Terminal,
    VncError,
>)
    ensures
        r == terminal_of(kind, body@, timestamp_us),
{
    if body.len() != 48 {
        return Err(VncError::Text("terminal body 长度无效"));
    }
    if read_be16(body, 2) != 0 {
        return Err(VncError::Text("terminal reserved 非零"));
    }
    let raw_reason: u16 = read_be16(body, 0);
    let reason = terminal_reason(raw_reason)?;
    proof {
        lemma_reason_of(reason);
    }
    let terminal_kind = match kind {
        EVENT_CLEAN => MvsCaptureV2TerminalKind::Clean,
        EVENT_ABORTED => MvsCaptureV2TerminalKind::Aborted,
        _ => {
            return Err(VncError::Text("terminal type 无效"));
        },
    };
    match terminal_kind {
        MvsCaptureV2TerminalKind::Clean => if !(1 <= raw_reason && raw_reason <= 2) {
            return Err(VncError::Text("Clean reason/type 无效"));
        },
        MvsCaptureV2TerminalKind::Aborted => if !(257 <= raw_reason && raw_reason <= 267) {
            return Err(VncError::Text("Aborted reason/type 无效"));
        },
    }
    Ok(
        MvsCaptureV2Terminal {
            kind: terminal_kind,
            reason,
            timestamp_us,
            gap_count: read_be32(body, 4),
            source_mvs_frame_count: read_be64(body, 8),
            record_count: read_be64(body, 16),
            type0_count: read_be64(body, 24),
            type1_count: read_be64(body, 32),
            type2_count: read_be64(body, 40),
        },
    )
}

/// Whether a capture that has come to `phase` can end for this reason.
pub open spec fn reason_fits_phase(
    kind: MvsCaptureV2TerminalKind,
    reason: MvsCaptureV2TerminalReason,
    phase: StructuralPhase,
) -> bool {
    match reason {
        MvsCaptureV2TerminalReason::ConnectFailure
        | MvsCaptureV2TerminalReason::CredentialOrAuthenticationFailure => phase
            == StructuralPhase::Created,
        MvsCaptureV2TerminalReason::ArmOutputFailure
        | MvsCaptureV2TerminalReason::PreTriggerDeadline => phase == StructuralPhase::Created
            || phase == StructuralPhase::Armed,
        MvsCaptureV2TerminalReason::TriggerFailure => phase == StructuralPhase::Armed || phase
            == StructuralPhase::Triggered || phase == StructuralPhase::Recording,
        MvsCaptureV2TerminalReason::ReadFailure
        | MvsCaptureV2TerminalReason::AssemblerFailure
        | MvsCaptureV2TerminalReason::PendingAtDeadline => phase == StructuralPhase::Recording,
        MvsCaptureV2TerminalReason::OperatorCancellation
        | MvsCaptureV2TerminalReason::OutputFailure => phase != StructuralPhase::Start,
        MvsCaptureV2TerminalReason::InvalidGeometry => phase == StructuralPhase::Created || phase
            == StructuralPhase::Recording,
        MvsCaptureV2TerminalReason::Deadline | MvsCaptureV2TerminalReason::RecordLimit => kind
            == MvsCaptureV2TerminalKind::Clean && phase == StructuralPhase::Recording,
    }
}

/// Accepts an end whose reason goes with the phase.
pub fn validate_terminal_phase(terminal: &MvsCaptureV2Terminal, phase: StructuralPhase) -> (r:
    Result<(), VncError>)
    ensures
        r == (if reason_fits_phase(terminal.kind, terminal.reason, phase) {
            Ok(())
        } else {
            Err(VncError::Text("terminal reason 与已持久化 phase 不兼容"))
        }),
{
    let valid: bool = match terminal.reason {
        MvsCaptureV2TerminalReason::ConnectFailure
        | MvsCaptureV2TerminalReason::CredentialOrAuthenticationFailure => phase
            == StructuralPhase::Created,
        MvsCaptureV2TerminalReason::ArmOutputFailure
        | MvsCaptureV2TerminalReason::PreTriggerDeadline => phase == StructuralPhase::Created
            || phase == StructuralPhase::Armed,
        MvsCaptureV2TerminalReason::TriggerFailure => phase == StructuralPhase::Armed || phase
            == StructuralPhase::Triggered || phase == StructuralPhase::Recording,
        MvsCaptureV2TerminalReason::ReadFailure
        | MvsCaptureV2TerminalReason::AssemblerFailure
        | MvsCaptureV2TerminalReason::PendingAtDeadline => phase == StructuralPhase::Recording,
        MvsCaptureV2TerminalReason::OperatorCancellation
        | MvsCaptureV2TerminalReason::OutputFailure => phase != StructuralPhase::Start,
        MvsCaptureV2TerminalReason::InvalidGeometry => phase == StructuralPhase::Created || phase
            == StructuralPhase::Recording,
        MvsCaptureV2TerminalReason::Deadline | MvsCaptureV2TerminalReason::RecordLimit => terminal.kind
            == MvsCaptureV2TerminalKind::Clean && phase == StructuralPhase::Recording,
    };
    if valid {
        Ok(())
    } else {
        Err(VncError::Text("terminal reason 与已持久化 phase 不兼容"))
    }
}

} // verus!
