//! What the events of a capture tell: records, gaps and ends that were written are read back, and an
//! end is accepted only where its totals are true.

use vstd::prelude::*;
use crate::capture_totals;
use crate::cold_hpss;
use crate::cold_hpss::{CaptureGeometry, FrameClassView};
use crate::error::VncError;
use crate::hpss;
use crate::mvs_capture_v2;
use crate::mvs_capture_v2::{CaptureRecordView, MvsCaptureV2Gap, MvsCaptureV2Geometry};
use crate::mvs_capture_v2::{MvsCaptureV2Terminal, MvsCaptureV2TerminalKind};
use crate::mvs_capture_v2::{MvsCaptureV2TerminalReason, StructuralPhase};
use crate::mvs_stream;
use crate::mvs_stream::{MvsRect, RecordView};

verus! {

/// The two bytes of a number, the high one first.
pub open spec fn two_bytes(n: int) -> Seq<u8> {
    seq![(n / 256) as u8, (n % 256) as u8]
}

/// The four bytes of a number, the high ones first.
pub open spec fn four_bytes(n: int) -> Seq<u8> {
    seq![
        (n / 0x100_0000) as u8,
        (n / 0x1_0000 % 256) as u8,
        (n / 256 % 256) as u8,
        (n % 256) as u8,
    ]
}

/// The eight bytes of a number, the high ones first.
pub open spec fn eight_bytes(n: int) -> Seq<u8> {
    four_bytes(n / 0x1_0000_0000) + four_bytes(n % 0x1_0000_0000)
}

/// The bytes of a rectangle: its corner, and then its size.
pub open spec fn rect_bytes(r: MvsRect) -> Seq<u8> {
    two_bytes(r.x as int) + two_bytes(r.y as int) + two_bytes(r.width as int) + two_bytes(
        r.height as int,
    )
}

proof fn lemma_two_bytes(s: Seq<u8>, at: int, n: u16)
    requires
        0 <= at,
        at + 2 <= s.len(),
        s.subrange(at, at + 2) == two_bytes(n as int),
    ensures
        crate::wire::be16(s, at) == n,
{
    let part = s.subrange(at, at + 2);
    assert(part[0] == s[at] && part[1] == s[at + 1]);
}

proof fn lemma_four_bytes(s: Seq<u8>, at: int, n: u32)
    requires
        0 <= at,
        at + 4 <= s.len(),
        s.subrange(at, at + 4) == four_bytes(n as int),
    ensures
        crate::wire::be32(s, at) == n,
{
    let part = s.subrange(at, at + 4);
    assert(part[0] == s[at] && part[1] == s[at + 1] && part[2] == s[at + 2] && part[3] == s[at
        + 3]);
    assert(n == 256 * (256 * (256 * (n / 0x100_0000) + n / 0x1_0000 % 256) + n / 256 % 256) + n
        % 256);
}

proof fn lemma_eight_bytes(s: Seq<u8>, at: int, n: u64)
    requires
        0 <= at,
        at + 8 <= s.len(),
        s.subrange(at, at + 8) == eight_bytes(n as int),
    ensures
        crate::wire::be64(s, at) == n,
{
    let part = s.subrange(at, at + 8);
    let all = eight_bytes(n as int);
    assert(s.subrange(at, at + 4) =~= part.subrange(0, 4));
    assert(s.subrange(at + 4, at + 8) =~= part.subrange(4, 8));
    assert(all.subrange(0, 4) =~= four_bytes(n as int / 0x1_0000_0000));
    assert(all.subrange(4, 8) =~= four_bytes(n as int % 0x1_0000_0000));
    lemma_four_bytes(s, at, (n / 0x1_0000_0000) as u32);
    lemma_four_bytes(s, at + 4, (n % 0x1_0000_0000) as u32);
}

proof fn lemma_rect_bytes(s: Seq<u8>, at: int, r: MvsRect)
    requires
        0 <= at,
        at + 8 <= s.len(),
        s.subrange(at, at + 8) == rect_bytes(r),
    ensures
        mvs_capture_v2::rect_at(s, at) == r,
{
    let part = s.subrange(at, at + 8);
    let all = rect_bytes(r);
    assert(s.subrange(at, at + 2) =~= part.subrange(0, 2));
    assert(s.subrange(at + 2, at + 4) =~= part.subrange(2, 4));
    assert(s.subrange(at + 4, at + 6) =~= part.subrange(4, 6));
    assert(s.subrange(at + 6, at + 8) =~= part.subrange(6, 8));
    assert(all.subrange(0, 2) =~= two_bytes(r.x as int));
    assert(all.subrange(2, 4) =~= two_bytes(r.y as int));
    assert(all.subrange(4, 6) =~= two_bytes(r.width as int));
    assert(all.subrange(6, 8) =~= two_bytes(r.height as int));
    lemma_two_bytes(s, at, r.x);
    lemma_two_bytes(s, at + 2, r.y);
    lemma_two_bytes(s, at + 4, r.width);
    lemma_two_bytes(s, at + 6, r.height);
}

/// The bytes of a record: its first and its last frame, its rectangle, the length of its payload and
/// the payload.
pub open spec fn record_bytes(first: u64, last: u64, rect: MvsRect, payload: Seq<u8>) -> Seq<u8> {
    eight_bytes(first as int) + eight_bytes(last as int) + rect_bytes(rect) + four_bytes(
        payload.len() as int,
    ) + payload
}

/// A rectangle is accepted just where it has pixels and every one of them lies on the surface.
pub proof fn law_rectangles_lie_on_the_surface(rect: MvsRect, width: u16, height: u16)
    ensures
        mvs_stream::rect_refusal(rect, width, height) is None <==> 1 <= rect.width && 1
            <= rect.height && (forall|x: int, y: int|
            #![trigger inside(rect, x, y)]
            inside(rect, x, y) ==> 0 <= x < width && 0 <= y < height),
{
    let right = rect.x + rect.width - 1;
    let bottom = rect.y + rect.height - 1;
    if 1 <= rect.width && 1 <= rect.height {
        assert(inside(rect, right, bottom));
    }
}

/// Whether a pixel belongs to a rectangle.
pub open spec fn inside(rect: MvsRect, x: int, y: int) -> bool {
    rect.x <= x && x - rect.x < rect.width && rect.y <= y && y - rect.y < rect.height
}

proof fn lemma_record_fields(first: u64, last: u64, rect: MvsRect, payload: Seq<u8>)
    requires
        0 < payload.len() <= u32::MAX,
    ensures
        ({
            let body = record_bytes(first, last, rect, payload);
            &&& body.len() == 28 + payload.len()
            &&& crate::wire::be64(body, 0) == first
            &&& crate::wire::be64(body, 8) == last
            &&& mvs_capture_v2::rect_at(body, 16) == rect
            &&& crate::wire::be32(body, 24) == payload.len()
            &&& body.skip(28) == payload
            &&& body[28] == payload[0]
        }),
{
    let body = record_bytes(first, last, rect, payload);
    assert(body.subrange(0, 8) =~= eight_bytes(first as int));
    assert(body.subrange(8, 16) =~= eight_bytes(last as int));
    assert(body.subrange(16, 24) =~= rect_bytes(rect));
    assert(body.subrange(24, 28) =~= four_bytes(payload.len() as int));
    lemma_eight_bytes(body, 0, first);
    lemma_eight_bytes(body, 8, last);
    lemma_rect_bytes(body, 16, rect);
    lemma_four_bytes(body, 24, payload.len() as u32);
    assert(body.skip(28) =~= payload);
    assert(body[28] == payload[0]);
}

/// A record that was written is read back, with the frames that it came in, and its payload is
/// counted. It is accepted just where its frames are in order, its payload is within the limits, and
/// its type goes with its rectangle: one that paints lies on the surface, and one that does not has
/// none.
pub proof fn law_record_is_read_back(
    first: u64,
    last: u64,
    rect: MvsRect,
    payload: Seq<u8>,
    generation: u64,
    surface: MvsCaptureV2Geometry,
    counted: int,
)
    requires
        0 < payload.len() <= u32::MAX,
        0 <= counted,
    ensures
        ({
            let told = mvs_capture_v2::record_of(
                record_bytes(first, last, rect, payload),
                generation,
                surface,
                counted,
            );
            &&& told is Ok <==> first <= last && last < u64::MAX && payload.len() <= 0x100_0000
                && counted + payload.len() <= 0x2000_0000 && (if payload[0] == 2 {
                rect.x == 0 && rect.y == 0 && rect.width == 0 && rect.height == 0
            } else {
                payload[0] < 2 && mvs_stream::rect_refusal(rect, surface.width, surface.height)
                    is None && rect.width * rect.height <= 67_108_864
            })
            &&& told matches Ok(read) ==> read.0 == (CaptureRecordView {
                generation,
                first,
                last,
                record: RecordView { rect, payload },
            }) && read.1 == counted + payload.len()
        }),
{
    lemma_record_fields(first, last, rect, payload);
}

/// The bytes of a gap: its reason and its step, the number one, its first and its last frame, the
/// size that was announced and the bytes that came, and the rectangle.
pub open spec fn gap_bytes(g: MvsCaptureV2Gap) -> Seq<u8> {
    two_bytes(g.reason as int) + two_bytes(g.stage as int) + four_bytes(1) + eight_bytes(
        g.first_source_frame_ordinal as int,
    ) + eight_bytes(g.last_source_frame_ordinal as int) + four_bytes(g.declared_total as int)
        + four_bytes(g.accumulated_bytes as int) + rect_bytes(g.rect)
}

proof fn lemma_gap_fields(g: MvsCaptureV2Gap)
    ensures
        ({
            let body = gap_bytes(g);
            &&& body.len() == 40
            &&& crate::wire::be16(body, 0) == g.reason
            &&& crate::wire::be16(body, 2) == g.stage
            &&& crate::wire::be32(body, 4) == 1
            &&& crate::wire::be64(body, 8) == g.first_source_frame_ordinal
            &&& crate::wire::be64(body, 16) == g.last_source_frame_ordinal
            &&& crate::wire::be32(body, 24) == g.declared_total
            &&& crate::wire::be32(body, 28) == g.accumulated_bytes
            &&& mvs_capture_v2::rect_at(body, 32) == g.rect
        }),
{
    let body = gap_bytes(g);
    assert(body.len() == 40);
    assert(body.subrange(0, 2) =~= two_bytes(g.reason as int));
    assert(body.subrange(2, 4) =~= two_bytes(g.stage as int));
    assert(body.subrange(4, 8) =~= four_bytes(1));
    assert(body.subrange(8, 16) =~= eight_bytes(g.first_source_frame_ordinal as int));
    assert(body.subrange(16, 24) =~= eight_bytes(g.last_source_frame_ordinal as int));
    assert(body.subrange(24, 28) =~= four_bytes(g.declared_total as int));
    assert(body.subrange(28, 32) =~= four_bytes(g.accumulated_bytes as int));
    assert(body.subrange(32, 40) =~= rect_bytes(g.rect));
    lemma_two_bytes(body, 0, g.reason);
    lemma_two_bytes(body, 2, g.stage);
    lemma_four_bytes(body, 4, 1);
    lemma_eight_bytes(body, 8, g.first_source_frame_ordinal);
    lemma_eight_bytes(body, 16, g.last_source_frame_ordinal);
    lemma_four_bytes(body, 24, g.declared_total);
    lemma_four_bytes(body, 28, g.accumulated_bytes);
    lemma_rect_bytes(body, 32, g.rect);
}

/// A gap that was written is read back as it was. What is accepted is a record that did not come to
/// its end: what came of it is less than what was announced, its frames are in order, and what was
/// refused at once came in one frame and left nothing.
pub proof fn law_gap_is_read_back(g: MvsCaptureV2Gap, before: int)
    ensures
        mvs_capture_v2::gap_of(gap_bytes(g), before) matches Ok(read) ==> read == g,
        mvs_capture_v2::gap_of(gap_bytes(g), before) is Ok ==> {
            let at_once = g.reason == 1 || g.reason == 2 || g.reason == 3 || g.reason == 9
                || g.reason == 11;
            let announced = 1 <= g.declared_total <= 0x100_0000;
            &&& 1 <= g.reason <= 12
            &&& g.first_source_frame_ordinal <= g.last_source_frame_ordinal < u64::MAX
            &&& at_once ==> g.accumulated_bytes == 0 && g.first_source_frame_ordinal
                == g.last_source_frame_ordinal
            &&& !at_once ==> announced && g.accumulated_bytes < g.declared_total
            &&& announced <==> g.reason != 1 && g.reason != 2 && g.reason != 9
            &&& g.reason == 1 || g.reason == 9 ==> g.declared_total == 0
            &&& g.reason == 4 || g.reason == 10 ==> g.first_source_frame_ordinal
                < g.last_source_frame_ordinal
            &&& g.reason == 11 ==> before + g.declared_total > 0x2000_0000
            &&& g.reason == 9 ==> g.rect.x == 0 && g.rect.y == 0 && g.rect.width == 0
                && g.rect.height == 0
            &&& mvs_capture_v2::gap_stage_of(g.reason) == Ok::<u16, VncError>(g.stage)
        },
        5 <= g.reason <= 8 && mvs_capture_v2::gap_stage_of(g.reason) == Ok::<u16, VncError>(g.stage)
            && g.accumulated_bytes < g.declared_total <= 0x100_0000
            && g.first_source_frame_ordinal <= g.last_source_frame_ordinal < u64::MAX
            ==> mvs_capture_v2::gap_of(gap_bytes(g), before) is Ok,
{
    lemma_gap_fields(g);
}

/// A gap has a step and an end just where its reason is one of twelve. What is refused as it begins
/// has the first step, what breaks off later a later one, and the end that follows is that of the
/// reason: the deadline, a failed read, a changed surface or a cancellation where it was one of
/// these, and otherwise that a record could not be put together.
pub proof fn law_gaps_lead_to_their_ends(reason: u16)
    ensures
        mvs_capture_v2::gap_stage_of(reason) is Ok <==> 1 <= reason <= 12,
        mvs_capture_v2::gap_terminal_of(reason) is Ok <==> 1 <= reason <= 12,
        mvs_capture_v2::gap_stage_of(reason) == Ok::<u16, VncError>(1) <==> reason == 1 || reason
            == 2 || reason == 3 || reason == 10,
        mvs_capture_v2::gap_stage_of(reason) == Ok::<u16, VncError>(2) <==> reason == 4 || reason
            == 9,
        5 <= reason <= 8 ==> mvs_capture_v2::gap_stage_of(reason) == Ok::<u16, VncError>(
            (reason - 2) as u16,
        ),
        mvs_capture_v2::gap_stage_of(12) == Ok::<u16, VncError>(7),
        mvs_capture_v2::gap_stage_of(11) == Ok::<u16, VncError>(8),
        mvs_capture_v2::gap_terminal_of(6) == Ok::<u16, VncError>(
            mvs_capture_v2::reason_code(MvsCaptureV2TerminalReason::PendingAtDeadline),
        ),
        mvs_capture_v2::gap_terminal_of(7) == Ok::<u16, VncError>(
            mvs_capture_v2::reason_code(MvsCaptureV2TerminalReason::ReadFailure),
        ),
        mvs_capture_v2::gap_terminal_of(8) == Ok::<u16, VncError>(
            mvs_capture_v2::reason_code(MvsCaptureV2TerminalReason::InvalidGeometry),
        ),
        mvs_capture_v2::gap_terminal_of(12) == Ok::<u16, VncError>(
            mvs_capture_v2::reason_code(MvsCaptureV2TerminalReason::OperatorCancellation),
        ),
        1 <= reason <= 11 && !(6 <= reason <= 8) ==> mvs_capture_v2::gap_terminal_of(reason) == Ok::<
            u16,
            VncError,
        >(mvs_capture_v2::reason_code(MvsCaptureV2TerminalReason::AssemblerFailure)),
{
}

/// The bytes of an end: the number of its reason, two zeros, and its totals.
pub open spec fn end_bytes(t: MvsCaptureV2Terminal) -> Seq<u8> {
    two_bytes(mvs_capture_v2::reason_code(t.reason) as int) + two_bytes(0) + four_bytes(
        t.gap_count as int,
    ) + eight_bytes(t.source_mvs_frame_count as int) + eight_bytes(t.record_count as int)
        + eight_bytes(t.type0_count as int) + eight_bytes(t.type1_count as int) + eight_bytes(
        t.type2_count as int,
    )
}

proof fn lemma_end_fields(t: MvsCaptureV2Terminal)
    ensures
        ({
            let body = end_bytes(t);
            &&& body.len() == 48
            &&& crate::wire::be16(body, 0) == mvs_capture_v2::reason_code(t.reason)
            &&& crate::wire::be16(body, 2) == 0
            &&& crate::wire::be32(body, 4) == t.gap_count
            &&& crate::wire::be64(body, 8) == t.source_mvs_frame_count
            &&& crate::wire::be64(body, 16) == t.record_count
            &&& crate::wire::be64(body, 24) == t.type0_count
            &&& crate::wire::be64(body, 32) == t.type1_count
            &&& crate::wire::be64(body, 40) == t.type2_count
        }),
{
    let body = end_bytes(t);
    let code = mvs_capture_v2::reason_code(t.reason);
    assert(body.len() == 48);
    assert(body.subrange(0, 2) =~= two_bytes(code as int));
    assert(body.subrange(2, 4) =~= two_bytes(0));
    assert(body.subrange(4, 8) =~= four_bytes(t.gap_count as int));
    assert(body.subrange(8, 16) =~= eight_bytes(t.source_mvs_frame_count as int));
    assert(body.subrange(16, 24) =~= eight_bytes(t.record_count as int));
    assert(body.subrange(24, 32) =~= eight_bytes(t.type0_count as int));
    assert(body.subrange(32, 40) =~= eight_bytes(t.type1_count as int));
    assert(body.subrange(40, 48) =~= eight_bytes(t.type2_count as int));
    lemma_two_bytes(body, 0, code);
    lemma_two_bytes(body, 2, 0);
    lemma_four_bytes(body, 4, t.gap_count);
    lemma_eight_bytes(body, 8, t.source_mvs_frame_count);
    lemma_eight_bytes(body, 16, t.record_count);
    lemma_eight_bytes(body, 24, t.type0_count);
    lemma_eight_bytes(body, 32, t.type1_count);
    lemma_eight_bytes(body, 40, t.type2_count);
}

/// An end that was written is read back as it was, just where its reason is one of its kind: a
/// capture ends as planned at its deadline or with its last record, and is given up for every other
/// reason. No two reasons have the same number.
pub proof fn law_end_is_read_back(
    t: MvsCaptureV2Terminal,
    other: MvsCaptureV2TerminalReason,
)
    ensures
        ({
            let kind = if t.kind == MvsCaptureV2TerminalKind::Clean {
                0xfeu16
            } else {
                0xff
            };
            let planned = t.reason == MvsCaptureV2TerminalReason::Deadline || t.reason
                == MvsCaptureV2TerminalReason::RecordLimit;
            let told = mvs_capture_v2::terminal_of(kind, end_bytes(t), t.timestamp_us);
            &&& told is Ok <==> (t.kind == MvsCaptureV2TerminalKind::Clean) == planned
            &&& told matches Ok(read) ==> read == t
        }),
        mvs_capture_v2::reason_code(t.reason) == mvs_capture_v2::reason_code(other) ==> t.reason
            == other,
{
    lemma_end_fields(t);
    mvs_capture_v2::lemma_reason_of(t.reason);
}

/// A capture that was not created ends for no reason; one can be cancelled or lose its output at any
/// time after that; it ends as planned only while it records; it fails to connect only before it is
/// armed, is late for its trigger only before that, and loses a record only while it records.
pub proof fn law_ends_fit_their_phase(
    kind: MvsCaptureV2TerminalKind,
    reason: MvsCaptureV2TerminalReason,
    phase: StructuralPhase,
)
    ensures
        phase == StructuralPhase::Start ==> !mvs_capture_v2::reason_fits_phase(kind, reason, phase),
        phase != StructuralPhase::Start && (reason
            == MvsCaptureV2TerminalReason::OperatorCancellation || reason
            == MvsCaptureV2TerminalReason::OutputFailure) ==> mvs_capture_v2::reason_fits_phase(
            kind,
            reason,
            phase,
        ),
        reason == MvsCaptureV2TerminalReason::Deadline || reason
            == MvsCaptureV2TerminalReason::RecordLimit ==> (mvs_capture_v2::reason_fits_phase(
            kind,
            reason,
            phase,
        ) <==> kind == MvsCaptureV2TerminalKind::Clean && phase == StructuralPhase::Recording),
        reason == MvsCaptureV2TerminalReason::ConnectFailure || reason
            == MvsCaptureV2TerminalReason::CredentialOrAuthenticationFailure ==> (
        mvs_capture_v2::reason_fits_phase(kind, reason, phase) <==> phase
            == StructuralPhase::Created),
        reason == MvsCaptureV2TerminalReason::PreTriggerDeadline || reason
            == MvsCaptureV2TerminalReason::ArmOutputFailure ==> (mvs_capture_v2::reason_fits_phase(
            kind,
            reason,
            phase,
        ) <==> phase == StructuralPhase::Created || phase == StructuralPhase::Armed),
        reason == MvsCaptureV2TerminalReason::TriggerFailure ==> (mvs_capture_v2::reason_fits_phase(
            kind,
            reason,
            phase,
        ) <==> phase != StructuralPhase::Start && phase != StructuralPhase::Created),
        reason == MvsCaptureV2TerminalReason::ReadFailure || reason
            == MvsCaptureV2TerminalReason::AssemblerFailure || reason
            == MvsCaptureV2TerminalReason::PendingAtDeadline ==> (
        mvs_capture_v2::reason_fits_phase(kind, reason, phase) <==> phase
            == StructuralPhase::Recording),
        reason == MvsCaptureV2TerminalReason::InvalidGeometry ==> (
        mvs_capture_v2::reason_fits_phase(kind, reason, phase) <==> phase
            == StructuralPhase::Recording || phase == StructuralPhase::Created),
{
}

/// How many of the records have this type.
pub open spec fn how_many(records: Seq<CaptureRecordView>, tag: int) -> int
    decreases records.len(),
{
    if records.len() == 0 {
        0
    } else {
        how_many(records.skip(1), tag) + (if records[0].record.payload[0] == tag {
            1int
        } else {
            0
        })
    }
}

proof fn lemma_how_many(records: Seq<CaptureRecordView>, tag: int)
    requires
        records.len() > 0,
    ensures
        how_many(records, tag) == how_many(records.drop_last(), tag) + (
        if records.last().record.payload[0] == tag {
            1int
        } else {
            0
        }),
        how_many(records.drop_last(), tag) >= 0,
    decreases records.len(),
{
    reveal_with_fuel(how_many, 2);
    if records.len() > 1 {
        lemma_how_many(records.skip(1), tag);
        assert(records.skip(1).drop_last() =~= records.drop_last().skip(1));
        assert(records.skip(1).last() == records.last());
        assert(records.drop_last()[0] == records[0]);
    } else {
        assert(records.drop_last() =~= Seq::empty());
        assert(records.skip(1) =~= Seq::empty());
    }
}

/// Records are tallied just where their frames follow each other from the first on without a gap;
/// the tally counts the records of each type and tells how many frames they had.
pub proof fn law_tally_is_true(records: Seq<CaptureRecordView>, i: int)
    requires
        records.len() <= u64::MAX,
    ensures
        capture_totals::tally_of(records) matches Ok(t) ==> {
            &&& t.type0 == how_many(records, 0)
            &&& t.type1 == how_many(records, 1)
            &&& t.type2 == how_many(records, 2)
            &&& t.type0 + t.type1 + t.type2 == records.len()
            &&& t.source == (if records.len() == 0 {
                0
            } else {
                records.last().last + 1
            })
            &&& 0 <= i < records.len() ==> records[i].first == (if i == 0 {
                0
            } else {
                records[i - 1].last + 1
            })
        },
    decreases records.len(),
{
    if records.len() > 0 {
        let front = records.drop_last();
        law_tally_is_true(front, i);
        law_tally_is_true(front, front.len() - 1);
        capture_totals::lemma_tally_total(records);
        capture_totals::lemma_tally_total(front);
        lemma_how_many(records, 0);
        lemma_how_many(records, 1);
        lemma_how_many(records, 2);
        if 0 <= i < front.len() {
            assert(front[i] == records[i]);
            if i > 0 {
                assert(front[i - 1] == records[i - 1]);
            }
        }
    }
}

/// An end is accepted only where its totals are true: so many records and so many of each type, as
/// many frames as the records and the gap had, no gap where the capture ended as planned and one at
/// most otherwise, and no more records than were asked for. A capture that ended at its deadline
/// reached it, and one that ended with its last record did not.
pub proof fn law_accepted_totals_are_true(
    t: MvsCaptureV2Terminal,
    records: Seq<CaptureRecordView>,
    gaps: Seq<MvsCaptureV2Gap>,
    deadline_ms: Option<u32>,
    record_limit: Option<u32>,
)
    requires
        records.len() <= u64::MAX,
        capture_totals::terminal_refusal(t, records, gaps, deadline_ms, record_limit) is None,
    ensures
        t.record_count == records.len(),
        t.type0_count == how_many(records, 0),
        t.type1_count == how_many(records, 1),
        t.type2_count == how_many(records, 2),
        t.gap_count == gaps.len(),
        gaps.len() <= 1,
        t.kind == MvsCaptureV2TerminalKind::Clean ==> gaps.len() == 0,
        t.source_mvs_frame_count == (if gaps.len() > 0 {
            gaps[0].last_source_frame_ordinal + 1
        } else if records.len() > 0 {
            records.last().last + 1
        } else {
            0
        }),
        gaps.len() > 0 ==> gaps[0].first_source_frame_ordinal == (if records.len() > 0 {
            records.last().last + 1
        } else {
            0
        }),
        record_limit matches Some(limit) ==> records.len() <= limit,
        t.kind == MvsCaptureV2TerminalKind::Clean ==> (deadline_ms matches Some(deadline)
            && record_limit matches Some(limit) && (t.timestamp_us >= 1000 * deadline <==> t.reason
            == MvsCaptureV2TerminalReason::Deadline) && (t.reason
            == MvsCaptureV2TerminalReason::RecordLimit ==> records.len() == limit)),
{
    law_tally_is_true(records, 0);
}

/// While a record is being received every frame belongs to it. Otherwise a frame of the media stream
/// begins one, a broken one is told by its rectangle, the state of the server tells a change of the
/// surface where its size is another, and all else is of no concern.
pub proof fn law_frames_are_told_apart(
    frame: Seq<u8>,
    x: u16,
    y: u16,
    w: u16,
    h: u16,
    encoding: u16,
    rest: Seq<u8>,
    committed: CaptureGeometry,
)
    ensures
        cold_hpss::frame_class(frame, true, committed) == FrameClassView::Continuation,
        ({
            let told = cold_hpss::frame_class(
                hpss::frame_bytes(x, y, w, h, encoding, rest),
                false,
                committed,
            );
            let rect = MvsRect { x, y, width: w, height: h };
            &&& encoding == 0x3f3 && rest.len() < 4 ==> told == FrameClassView::InvalidMvs(rect)
            &&& encoding == 0x3f3 && rest.len() >= 4 ==> (told matches FrameClassView::MvsBegin {
                rect: found,
                total,
                body,
            } && found == rect && total == 256 * (256 * (256 * rest[0] + rest[1]) + rest[2])
                + rest[3] && body =~= rest.subrange(4, rest.len() as int))
            &&& encoding != 0x3f3 && encoding != 0x451 ==> told == FrameClassView::NonMvs
            &&& encoding == 0x451 ==> told == (match hpss::state_geometry(
                hpss::frame_bytes(x, y, w, h, encoding, rest),
            ) {
                Ok(size) => if size.width == committed.width && size.height == committed.height {
                    FrameClassView::NonMvs
                } else {
                    FrameClassView::GeometryTransition
                },
                Err(_) => FrameClassView::NonMvs,
            })
        }),
{
    let whole = hpss::frame_bytes(x, y, w, h, encoding, rest);
    hpss::law_frame_is_read_back(x, y, w, h, encoding, rest, 0, Seq::empty());
    if encoding == 0x3f3 && rest.len() >= 4 {
        let body = rest.subrange(4, rest.len() as int);
        let total = 256 * (256 * (256 * rest[0] + rest[1]) + rest[2]) + rest[3];
        assert(rest =~= seq![
            (total / 0x100_0000) as u8,
            (total / 0x1_0000 % 256) as u8,
            (total / 256 % 256) as u8,
            (total % 256) as u8,
        ] + body);
        hpss::law_frame_is_read_back(x, y, w, h, encoding, rest, total as u32, body);
    }
}

} // verus!
