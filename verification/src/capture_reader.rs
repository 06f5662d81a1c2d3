//! Reading a capture file: its header, then one event after the other.

use vstd::prelude::*;
use crate::capture_events::{read_prefix, CaptureCounters, EVENT_ABORTED, EVENT_ARMED};
use crate::capture_events::{EVENT_CLEAN, EVENT_CREATED, EVENT_GAP, EVENT_RECORD, EVENT_RECORDING};
use crate::capture_events::{EVENT_PREFIX_BYTES, EVENT_SURFACE, EVENT_TRIGGERED};
use crate::capture_events::{MVS_CAPTURE_V2_HEADER_BYTES, MVS_CAPTURE_V2_MAX_DURATION_MS};
use crate::capture_events::{MVS_CAPTURE_V2_MAX_EVENT_BODY, MVS_CAPTURE_V2_MAX_PAYLOAD};
use crate::capture_events::MVS_CAPTURE_V2_MAX_RECORDS;
use crate::capture_totals::validate_terminal;
use crate::error::VncError;
use crate::mvs_capture_v2::{gap_terminal_code, geometry, parse_gap, parse_record, parse_terminal};
use crate::mvs_capture_v2::{terminal_reason, validate_terminal_phase, CaptureRecordView};
use crate::mvs_capture_v2::{MvsCaptureV2Gap, MvsCaptureV2Geometry, MvsCaptureV2Provenance};
use crate::mvs_capture_v2::{MvsCaptureV2Record, MvsCaptureV2Surface, MvsCaptureV2Terminal};
use crate::mvs_capture_v2::{MvsCaptureV2TerminalKind, StructuralPhase};
use crate::wire::{read_be16, read_be32, read_be64};

verus! {

/// A capture whose events are in order.
#[derive(Clone, Debug, PartialEq, Eq)]
pub struct StructuralMvsCaptureV2 {
    pub provenance: MvsCaptureV2Provenance,
    pub committed_surface: Option<MvsCaptureV2Geometry>,
    pub requested_surface: Option<MvsCaptureV2Geometry>,
    pub records: Vec<MvsCaptureV2Record>,
    pub surfaces: Vec<MvsCaptureV2Surface>,
    pub gaps: Vec<MvsCaptureV2Gap>,
    pub terminal: MvsCaptureV2Terminal,
    pub deadline_ms: Option<u32>,
    pub record_limit: Option<u32>,
    pub event_types: Vec<u16>,
    pub event_generations: Vec<u64>,
}

/// What a capture holds.
#[verifier::ext_equal]
pub struct StructuralView {
    pub provenance: MvsCaptureV2Provenance,
    pub committed: Option<MvsCaptureV2Geometry>,
    pub requested: Option<MvsCaptureV2Geometry>,
    pub records: Seq<CaptureRecordView>,
    pub surfaces: Seq<MvsCaptureV2Surface>,
    pub gaps: Seq<MvsCaptureV2Gap>,
    pub terminal: MvsCaptureV2Terminal,
    pub deadline_ms: Option<u32>,
    pub record_limit: Option<u32>,
    pub kinds: Seq<u16>,
    pub generations: Seq<u64>,
}

impl View for StructuralMvsCaptureV2 {
    type V = StructuralView;

    open spec fn view(&self) -> StructuralView {
        StructuralView {
            provenance: self.provenance,
            committed: self.committed_surface,
            requested: self.requested_surface,
            records: crate::capture_totals::records_view(self.records@),
            surfaces: self.surfaces@,
            gaps: self.gaps@,
            terminal: self.terminal,
            deadline_ms: self.deadline_ms,
            record_limit: self.record_limit,
            kinds: self.event_types@,
            generations: self.event_generations@,
        }
    }
}

/// What has been read of a capture.
#[verifier::ext_equal]
pub struct Progress {
    pub phase: StructuralPhase,
    pub generation: u64,
    pub last_timestamp: Option<u64>,
    pub events: int,
    pub payload: int,
    pub committed: Option<MvsCaptureV2Geometry>,
    pub requested: Option<MvsCaptureV2Geometry>,
    pub deadline_ms: Option<u32>,
    pub record_limit: Option<u32>,
    pub records: Seq<CaptureRecordView>,
    pub surfaces: Seq<MvsCaptureV2Surface>,
    pub gaps: Seq<MvsCaptureV2Gap>,
    pub kinds: Seq<u16>,
    pub generations: Seq<u64>,
    pub terminal: Option<MvsCaptureV2Terminal>,
}

/// Nothing but the header has been read.
pub open spec fn no_progress() -> Progress {
    Progress {
        phase: StructuralPhase::Start,
        generation: 0,
        last_timestamp: None,
        events: 0,
        payload: 0,
        committed: None,
        requested: None,
        deadline_ms: None,
        record_limit: None,
        records: Seq::empty(),
        surfaces: Seq::empty(),
        gaps: Seq::empty(),
        kinds: Seq::empty(),
        generations: Seq::empty(),
        terminal: None,
    }
}

/// Why a header is refused, where it is.
pub open spec fn header_refusal(header: Seq<u8>) -> Option<VncError> {
    if header.take(8) != crate::capture_events::MVS_CAPTURE_V2_MAGIC@ {
        Some(VncError::Text("不是 FRDMVS02 capture"))
    } else if crate::wire::be16(header, 8) != 32 {
        Some(VncError::Text("V2 header length 无效"))
    } else if header[10] != 2 || header[11] != 0 || header[12] != 1 || header[13] != 0 {
        Some(VncError::Text("V2 version/endian/checksum 无效"))
    } else if crate::wire::be16(header, 14) != 1 {
        Some(VncError::Text("V2 header flags 无效"))
    } else if crate::wire::be32(header, 16) != MVS_CAPTURE_V2_MAX_PAYLOAD {
        Some(VncError::Text("V2 payload limit 无效"))
    } else if crate::wire::be32(header, 20) != MVS_CAPTURE_V2_MAX_EVENT_BODY {
        Some(VncError::Text("V2 event body limit 无效"))
    } else if crate::wire::be32(header, 24) != MVS_CAPTURE_V2_MAX_RECORDS {
        Some(VncError::Text("V2 record limit 无效"))
    } else if crate::wire::be32(header, 28) != MVS_CAPTURE_V2_MAX_DURATION_MS {
        Some(VncError::Text("V2 duration limit 无效"))
    } else {
        None
    }
}

/// Why the first bytes of a file are refused, where they are.
pub open spec fn opening_refusal(header: Seq<u8>) -> Option<VncError> {
    if header.take(7) == crate::capture_events::MVS_CAPTURE_V2_MAGIC@.take(7) && header[7] == 0x31 {
        Some(VncError::Text("FRDMVS01 仅为 HistoricalUnproven，不能作为 V2 读取"))
    } else {
        header_refusal(header)
    }
}

/// Whether the first `count` bytes are those of the magic.
fn begins_like_capture(header: &[u8], count: usize) -> (r: bool)
    requires
        header@.len() >= 8,
        count <= 8,
    ensures
        r == (header@.take(count as int) == crate::capture_events::MVS_CAPTURE_V2_MAGIC@.take(
            count as int,
        )),
{
    let magic = crate::capture_events::MVS_CAPTURE_V2_MAGIC;
    let mut i: usize = 0;
    while i < count
        invariant
            i <= count <= 8,
            header@.len() >= 8,
            magic == crate::capture_events::MVS_CAPTURE_V2_MAGIC,
            forall|k: int| 0 <= k < i ==> header@[k] == magic@[k],
        decreases count - i,
    {
        if header[i] != magic[i] {
            assert(header@.take(count as int)[i as int] != magic@.take(count as int)[i as int]);
            return false;
        }
        i = i + 1;
    }
    assert(header@.take(count as int) =~= magic@.take(count as int));
    true
}

/// Accepts the header that every capture begins with.
pub fn validate_header(header: &[u8]) -> (r: Result<(), VncError>)
    requires
        header@.len() == MVS_CAPTURE_V2_HEADER_BYTES,
    ensures
        r == crate::error::checked(header_refusal(header@)),
{
    let ghost magic = crate::capture_events::MVS_CAPTURE_V2_MAGIC@;
    assert(magic.take(8) =~= magic);
    if !begins_like_capture(header, 8) {
        return Err(VncError::Text("不是 FRDMVS02 capture"));
    }
    if read_be16(header, 8) != 32 {
        return Err(VncError::Text("V2 header length 无效"));
    }
    if header[10] != 2 || header[11] != 0 || header[12] != 1 || header[13] != 0 {
        return Err(VncError::Text("V2 version/endian/checksum 无效"));
    }
    if read_be16(header, 14) != 1 {
        return Err(VncError::Text("V2 header flags 无效"));
    }
    if read_be32(header, 16) as usize != MVS_CAPTURE_V2_MAX_PAYLOAD {
        return Err(VncError::Text("V2 payload limit 无效"));
    }
    if read_be32(header, 20) as usize != MVS_CAPTURE_V2_MAX_EVENT_BODY {
        return Err(VncError::Text("V2 event body limit 无效"));
    }
    if read_be32(header, 24) as usize != MVS_CAPTURE_V2_MAX_RECORDS {
        return Err(VncError::Text("V2 record limit 无效"));
    }
    if read_be32(header, 28) != MVS_CAPTURE_V2_MAX_DURATION_MS {
        return Err(VncError::Text("V2 duration limit 无效"));
    }
    Ok(())
}

/// The header that is written is accepted.
pub proof fn law_header_is_accepted()
    ensures
        crate::capture_events::header_bytes().len() == MVS_CAPTURE_V2_HEADER_BYTES,
        opening_refusal(crate::capture_events::header_bytes()) is None,
{
    reveal(crate::capture_events::header_bytes);
    let h = crate::capture_events::header_bytes();
    let magic = crate::capture_events::MVS_CAPTURE_V2_MAGIC@;
    assert(magic.len() == 8);
    assert(h.take(8) =~= magic);
    assert(h[7] == magic[7]);
    assert(h.subrange(8, 10) =~= crate::wire::be16_bytes(32));
    crate::wire::lemma_be16(h, 8, 32);
    assert(h.subrange(14, 16) =~= crate::wire::be16_bytes(1));
    crate::wire::lemma_be16(h, 14, 1);
    assert(h.subrange(16, 20) =~= crate::wire::be32_bytes(0x0100_0000));
    crate::wire::lemma_be32(h, 16, 0x0100_0000);
    assert(h.subrange(20, 24) =~= crate::wire::be32_bytes(0x0100_001c));
    crate::wire::lemma_be32(h, 20, 0x0100_001c);
    assert(h.subrange(24, 28) =~= crate::wire::be32_bytes(4096));
    crate::wire::lemma_be32(h, 24, 4096);
    assert(h.subrange(28, 32) =~= crate::wire::be32_bytes(30_000));
    crate::wire::lemma_be32(h, 28, 30_000);
}

/// What follows from the prefix of an event alone.
pub open spec fn entered(p: Progress, ordinal: u64, timestamp_us: u64) -> Result<Progress, VncError> {
    if ordinal != p.events {
        Err(VncError::Text("V2 event ordinal 不连续"))
    } else if p.last_timestamp is Some && timestamp_us < p.last_timestamp->0 {
        Err(VncError::Text("V2 timestamp 倒退"))
    } else if crate::capture_events::event_count_refusal(p.events) is Some {
        Err(crate::capture_events::event_count_refusal(p.events)->0)
    } else {
        Ok(Progress { last_timestamp: Some(timestamp_us), events: p.events + 1, ..p })
    }
}

/// Whether a capture may be created to last this long.
pub open spec fn deadline_allowed(deadline_ms: u32) -> bool {
    deadline_ms == 5000 || deadline_ms == 10000 || deadline_ms == 15000 || deadline_ms == 20000
        || deadline_ms == 30000
}

/// Whether a capture may be created to last this long.
pub fn is_deadline_allowed(deadline_ms: u32) -> (r: bool)
    ensures
        r == deadline_allowed(deadline_ms),
{
    deadline_ms == 5000 || deadline_ms == 10000 || deadline_ms == 15000 || deadline_ms == 20000
        || deadline_ms == 30000
}

/// The capture is created.
pub open spec fn created(p: Progress, generation: u64, timestamp_us: u64, body: Seq<u8>) -> Result<
    Progress,
    VncError,
> {
    let deadline = crate::wire::be32(body, 0);
    let limit = crate::wire::be32(body, 4);
    if !(p.phase == StructuralPhase::Start && generation == 0 && timestamp_us == 0) {
        Err(VncError::Text("Created 位置或前缀无效"))
    } else if body.len() != 16 {
        Err(VncError::Text("Created body 长度无效"))
    } else if !deadline_allowed(deadline) {
        Err(VncError::Text("Created deadline 无效"))
    } else if !(1 <= limit <= MVS_CAPTURE_V2_MAX_RECORDS) {
        Err(VncError::Text("Created record limit 无效"))
    } else if !(crate::wire::be16(body, 8) == 1 && crate::wire::be16(body, 10) == 1
        && crate::wire::be32(body, 12) == 0) {
        Err(VncError::Text("Created 字段无效"))
    } else {
        Ok(
            Progress {
                deadline_ms: Some(deadline),
                record_limit: Some(limit),
                phase: StructuralPhase::Created,
                ..p
            },
        )
    }
}

/// The capture is armed.
pub open spec fn armed(p: Progress, generation: u64, body: Seq<u8>) -> Result<Progress, VncError> {
    let committed = geometry_at(body, 0);
    let requested = geometry_at(body, 4);
    if !(generation == p.generation && p.phase == StructuralPhase::Created && p.committed is None) {
        Err(VncError::Text("Armed 状态无效"))
    } else if body.len() != 24 {
        Err(VncError::Text("Armed body 长度无效"))
    } else if committed is Err {
        Err(committed->Err_0)
    } else if requested is Err {
        Err(requested->Err_0)
    } else if !(crate::wire::be16(body, 8) == 1 && crate::wire::be16(body, 10) == 1
        && crate::wire::be32(body, 12) == 3 && crate::wire::be64(body, 16) == 0) {
        Err(VncError::Text("Armed 字段无效"))
    } else {
        Ok(
            Progress {
                committed: Some(committed->Ok_0),
                requested: Some(requested->Ok_0),
                phase: StructuralPhase::Armed,
                ..p
            },
        )
    }
}

/// The surface size that is written at `at`.
pub open spec fn geometry_at(body: Seq<u8>, at: int) -> Result<MvsCaptureV2Geometry, VncError> {
    crate::mvs_capture_v2::geometry_of(crate::wire::be16(body, at), crate::wire::be16(body, at + 2))
}

/// The capture is triggered.
pub open spec fn triggered(p: Progress, generation: u64, body: Seq<u8>) -> Result<Progress, VncError> {
    if !(generation == p.generation && p.phase == StructuralPhase::Armed) {
        Err(VncError::Text("Triggered 状态无效"))
    } else if body.len() != 16 {
        Err(VncError::Text("Triggered body 长度无效"))
    } else if !(p.requested is Some && crate::wire::be16(body, 0) == (p.requested->0).width
        && crate::wire::be16(body, 2) == (p.requested->0).height && crate::wire::be32(body, 4) == 7
        && crate::wire::be64(body, 8) == 0) {
        Err(VncError::Text("Triggered 字段无效"))
    } else {
        Ok(Progress { phase: StructuralPhase::Triggered, ..p })
    }
}

/// Records follow from here.
pub open spec fn recording(p: Progress, generation: u64, body: Seq<u8>) -> Result<Progress, VncError> {
    if !(generation == p.generation && p.phase == StructuralPhase::Triggered) {
        Err(VncError::Text("Recording 状态无效"))
    } else if !(body.len() == 8 && crate::wire::be64(body, 0) == 0) {
        Err(VncError::Text("Recording body 无效"))
    } else {
        Ok(Progress { phase: StructuralPhase::Recording, ..p })
    }
}

/// The surface changes.
pub open spec fn resized(p: Progress, generation: u64, body: Seq<u8>) -> Result<Progress, VncError> {
    let surface = geometry_at(body, 0);
    if p.generation == u64::MAX {
        Err(VncError::Text("generation 溢出"))
    } else if generation != p.generation + 1 {
        Err(VncError::Text("Surface generation 无效"))
    } else if !(p.phase == StructuralPhase::Recording && p.committed is Some && body.len() == 8) {
        Err(VncError::Text("Surface 状态或 body 无效"))
    } else if !(crate::wire::be16(body, 4) == 1 && crate::wire::be16(body, 6) == 0) {
        Err(VncError::Text("Surface 字段无效"))
    } else {
        match surface {
            Err(e) => Err(e),
            Ok(geometry) => Ok(
                Progress {
                    generation,
                    committed: Some(geometry),
                    surfaces: p.surfaces.push(MvsCaptureV2Surface { generation, geometry }),
                    ..p
                },
            ),
        }
    }
}

/// A record comes.
pub open spec fn recorded(p: Progress, generation: u64, body: Seq<u8>) -> Result<Progress, VncError> {
    if !(generation == p.generation && p.phase == StructuralPhase::Recording) {
        Err(VncError::Text("Record generation/state 无效"))
    } else if p.committed is None {
        Err(VncError::Text("Record 缺少 active surface"))
    } else {
        match crate::mvs_capture_v2::record_of(body, generation, p.committed->0, p.payload) {
            Err(e) => Err(e),
            Ok((record, payload)) => if p.records.len() >= MVS_CAPTURE_V2_MAX_RECORDS {
                Err(VncError::Text("V2 record 数量超过上限"))
            } else {
                Ok(Progress { payload, records: p.records.push(record), ..p })
            },
        }
    }
}

/// A record is missing.
pub open spec fn gapped(p: Progress, generation: u64, body: Seq<u8>) -> Result<Progress, VncError> {
    if !(generation == p.generation && p.phase == StructuralPhase::Recording && p.gaps.len() == 0) {
        Err(VncError::Text("Gap generation 或数量无效"))
    } else {
        match crate::mvs_capture_v2::gap_of(body, p.payload) {
            Err(e) => Err(e),
            Ok(gap) => Ok(Progress { gaps: p.gaps.push(gap), ..p }),
        }
    }
}

/// The end that a body holds, where the capture can end so in `phase`.
pub open spec fn ending(phase: StructuralPhase, kind: u16, timestamp_us: u64, body: Seq<u8>) -> Result<
    MvsCaptureV2Terminal,
    VncError,
> {
    match crate::mvs_capture_v2::terminal_of(kind, body, timestamp_us) {
        Err(e) => Err(e),
        Ok(t) => if crate::mvs_capture_v2::reason_fits_phase(t.kind, t.reason, phase) {
            Ok(t)
        } else {
            Err(VncError::Text("terminal reason 与已持久化 phase 不兼容"))
        },
    }
}

/// The capture ends.
pub open spec fn ended(
    p: Progress,
    kind: u16,
    generation: u64,
    timestamp_us: u64,
    body: Seq<u8>,
) -> Result<Progress, VncError> {
    if generation != p.generation {
        Err(VncError::Text("terminal generation 无效"))
    } else if kind == EVENT_CLEAN && p.phase != StructuralPhase::Recording {
        Err(VncError::Text("Clean 必须在 Recording 后"))
    } else if kind == EVENT_ABORTED && p.phase == StructuralPhase::Start {
        Err(VncError::Text("Aborted 必须在 Created 后"))
    } else {
        match ending(p.phase, kind, timestamp_us, body) {
            Err(e) => Err(e),
            Ok(t) => Ok(Progress { terminal: Some(t), ..p }),
        }
    }
}

/// The capture ends behind a gap.
pub open spec fn ended_by_gap(
    p: Progress,
    kind: u16,
    generation: u64,
    timestamp_us: u64,
    body: Seq<u8>,
) -> Result<Progress, VncError> {
    if kind != EVENT_ABORTED {
        Err(VncError::Text("Gap 后必须紧随 Aborted"))
    } else if generation != p.generation {
        Err(VncError::Text("Gap terminal generation 无效"))
    } else {
        match ending(p.phase, kind, timestamp_us, body) {
            Err(e) => Err(e),
            Ok(t) => match crate::mvs_capture_v2::gap_terminal_of(p.gaps[0].reason) {
                Err(e) => Err(e),
                Ok(code) => if crate::mvs_capture_v2::reason_code(t.reason) == code {
                    Ok(Progress { terminal: Some(t), ..p })
                } else {
                    Err(VncError::Text("Gap terminal reason 不匹配"))
                },
            },
        }
    }
}

/// What an event does, its place among the events aside.
#[verifier::opaque]
pub open spec fn taken(
    p: Progress,
    kind: u16,
    generation: u64,
    timestamp_us: u64,
    body: Seq<u8>,
) -> Result<Progress, VncError> {
    if p.gaps.len() > 0 {
        ended_by_gap(p, kind, generation, timestamp_us, body)
    } else if kind == EVENT_CREATED {
        created(p, generation, timestamp_us, body)
    } else if kind == EVENT_ARMED {
        armed(p, generation, body)
    } else if kind == EVENT_TRIGGERED {
        triggered(p, generation, body)
    } else if kind == EVENT_RECORDING {
        recording(p, generation, body)
    } else if kind == EVENT_SURFACE {
        resized(p, generation, body)
    } else if kind == EVENT_RECORD {
        recorded(p, generation, body)
    } else if kind == EVENT_GAP {
        gapped(p, generation, body)
    } else if kind == EVENT_CLEAN || kind == EVENT_ABORTED {
        ended(p, kind, generation, timestamp_us, body)
    } else {
        Err(VncError::Text("未知 V2 event type"))
    }
}

/// What the body of an event does.
pub open spec fn handled(
    p: Progress,
    kind: u16,
    generation: u64,
    timestamp_us: u64,
    body: Seq<u8>,
) -> Result<Progress, VncError> {
    match taken(p, kind, generation, timestamp_us, body) {
        Err(e) => Err(e),
        Ok(q) => Ok(
            Progress {
                kinds: p.kinds.push(kind),
                generations: p.generations.push(generation),
                ..q
            },
        ),
    }
}

/// What an event does.
pub open spec fn stepped(p: Progress, e: crate::capture_events::Event) -> Result<Progress, VncError> {
    match entered(p, e.ordinal, e.timestamp_us) {
        Err(e) => Err(e),
        Ok(q) => handled(q, e.kind, e.generation, e.timestamp_us, e.body),
    }
}

/// What the events in `data` come to, and the bytes behind the end.
pub open spec fn events_read(p: Progress, data: Seq<u8>) -> Result<(Progress, Seq<u8>), VncError>
    decreases data.len(),
{
    if data.len() < EVENT_PREFIX_BYTES {
        Err(VncError::Text("V2 event prefix 截断"))
    } else {
        match crate::capture_events::prefix_of(data.take(32)) {
            Err(e) => Err(e),
            Ok((length, kind, ordinal, generation, timestamp_us)) => match entered(
                p,
                ordinal,
                timestamp_us,
            ) {
                Err(e) => Err(e),
                Ok(q) => if data.len() < length || length < 32 {
                    Err(VncError::Text("V2 event body 截断"))
                } else {
                    match handled(
                        q,
                        kind,
                        generation,
                        timestamp_us,
                        data.subrange(32, length as int),
                    ) {
                        Err(e) => Err(e),
                        Ok(n) => if n.terminal is Some {
                            Ok((n, data.skip(length as int)))
                        } else {
                            events_read(n, data.skip(length as int))
                        },
                    }
                },
            },
        }
    }
}

/// The capture that was read.
pub open spec fn structural_view(p: Progress) -> StructuralView {
    StructuralView {
        provenance: MvsCaptureV2Provenance::DiagnosticOnly,
        committed: p.committed,
        requested: p.requested,
        records: p.records,
        surfaces: p.surfaces,
        gaps: p.gaps,
        terminal: p.terminal->0,
        deadline_ms: p.deadline_ms,
        record_limit: p.record_limit,
        kinds: p.kinds,
        generations: p.generations,
    }
}

/// The capture that was read, where its end agrees with it.
pub open spec fn finished(p: Progress) -> Result<StructuralView, VncError> {
    match crate::capture_totals::terminal_refusal(
        p.terminal->0,
        p.records,
        p.gaps,
        p.deadline_ms,
        p.record_limit,
    ) {
        Some(e) => Err(e),
        None => Ok(structural_view(p)),
    }
}

/// The capture that the bytes of a file hold.
pub open spec fn structural_read(data: Seq<u8>) -> Result<StructuralView, VncError> {
    if data.len() < MVS_CAPTURE_V2_HEADER_BYTES {
        Err(VncError::Text("FRDMVS02 header 截断"))
    } else if opening_refusal(data.take(32)) is Some {
        Err(opening_refusal(data.take(32))->0)
    } else {
        match events_read(no_progress(), data.skip(32)) {
            Err(e) => Err(e),
            Ok((p, rest)) => if rest.len() > 0 {
                Err(VncError::Text("V2 terminal 后存在 trailing bytes"))
            } else {
                finished(p)
            },
        }
    }
}

/// The prefix of an event whose body is still to come.
#[derive(Clone, Copy, Debug, PartialEq, Eq, Structural)]
pub struct EventPrefix {
    pub body_length: usize,
    pub kind: u16,
    pub generation: u64,
    pub timestamp_us: u64,
}

/// Reads a capture one piece at a time: the header, then by turns a prefix and the body that it
/// announces, until the end.
pub struct CaptureParser {
    pub phase: StructuralPhase,
    pub generation: u64,
    pub last_timestamp: Option<u64>,
    pub counters: CaptureCounters,
    pub committed_surface: Option<MvsCaptureV2Geometry>,
    pub requested_surface: Option<MvsCaptureV2Geometry>,
    pub deadline_ms: Option<u32>,
    pub record_limit: Option<u32>,
    pub records: Vec<MvsCaptureV2Record>,
    pub surfaces: Vec<MvsCaptureV2Surface>,
    pub gaps: Vec<MvsCaptureV2Gap>,
    pub event_types: Vec<u16>,
    pub event_generations: Vec<u64>,
    pub terminal: Option<MvsCaptureV2Terminal>,
}

impl View for CaptureParser {
    type V = Progress;

    open spec fn view(&self) -> Progress {
        Progress {
            phase: self.phase,
            generation: self.generation,
            last_timestamp: self.last_timestamp,
            events: self.counters.events as int,
            payload: self.counters.payload as int,
            committed: self.committed_surface,
            requested: self.requested_surface,
            deadline_ms: self.deadline_ms,
            record_limit: self.record_limit,
            records: crate::capture_totals::records_view(self.records@),
            surfaces: self.surfaces@,
            gaps: self.gaps@,
            kinds: self.event_types@,
            generations: self.event_generations@,
            terminal: self.terminal,
        }
    }
}

impl CaptureParser {
    /// Begins with the header of a file.
    pub fn open(header: &[u8]) -> (r: Result<Self, VncError>)
        requires
            header@.len() == MVS_CAPTURE_V2_HEADER_BYTES,
        ensures
            crate::error::viewed(r) == (match opening_refusal(header@) {
                Some(e) => Err(e),
                None => Ok(no_progress()),
            }),
    {
        if begins_like_capture(header, 7) && header[7] == 0x31 {
            return Err(VncError::Text("FRDMVS01 仅为 HistoricalUnproven，不能作为 V2 读取"));
        }
        validate_header(header)?;
        let parser = CaptureParser {
            phase: StructuralPhase::Start,
            generation: 0,
            last_timestamp: None,
            counters: CaptureCounters { events: 0, payload: 0 },
            committed_surface: None,
            requested_surface: None,
            deadline_ms: None,
            record_limit: None,
            records: Vec::new(),
            surfaces: Vec::new(),
            gaps: Vec::new(),
            event_types: Vec::new(),
            event_generations: Vec::new(),
            terminal: None,
        };
        assert(parser@ =~= no_progress());
        Ok(parser)
    }

    /// Takes the prefix of the next event and tells how long its body is. A refusal changes
    /// nothing.
    pub fn accept_prefix(&mut self, prefix: &[u8]) -> (r: Result<EventPrefix, VncError>)
        ensures
            match crate::capture_events::prefix_of(prefix@) {
                Err(e) => r == Err::<EventPrefix, VncError>(e) && *final(self) == *old(self),
                Ok((length, kind, ordinal, generation, timestamp_us)) => match entered(
                    old(self)@,
                    ordinal,
                    timestamp_us,
                ) {
                    Err(e) => r == Err::<EventPrefix, VncError>(e) && *final(self) == *old(self),
                    Ok(p) => r == Ok::<EventPrefix, VncError>(
                        EventPrefix {
                            body_length: (length - 32) as usize,
                            kind,
                            generation,
                            timestamp_us,
                        },
                    ) && final(self)@ == p,
                },
            },
    {
        let (length, kind, ordinal, generation, timestamp_us) = read_prefix(prefix)?;
        if ordinal != self.counters.events as u64 {
            return Err(VncError::Text("V2 event ordinal 不连续"));
        }
        if let Some(last) = self.last_timestamp {
            if timestamp_us < last {
                return Err(VncError::Text("V2 timestamp 倒退"));
            }
        }
        self.counters.reserve_event()?;
        self.last_timestamp = Some(timestamp_us);
        Ok(
            EventPrefix { body_length: length - EVENT_PREFIX_BYTES, kind, generation, timestamp_us },
        )
    }

    fn take_created(&mut self, generation: u64, timestamp_us: u64, body: &[u8]) -> (r: Result<
        (),
        VncError,
    >)
        ensures
            match created(old(self)@, generation, timestamp_us, body@) {
                Err(e) => r == Err::<(), VncError>(e) && *final(self) == *old(self),
                Ok(p) => r is Ok && final(self)@ == p,
            },
    {
        if !(self.phase == StructuralPhase::Start && generation == 0 && timestamp_us == 0) {
            return Err(VncError::Text("Created 位置或前缀无效"));
        }
        if body.len() != 16 {
            return Err(VncError::Text("Created body 长度无效"));
        }
        let deadline: u32 = read_be32(body, 0);
        if !is_deadline_allowed(deadline) {
            return Err(VncError::Text("Created deadline 无效"));
        }
        let limit: u32 = read_be32(body, 4);
        if limit < 1 || limit > MVS_CAPTURE_V2_MAX_RECORDS as u32 {
            return Err(VncError::Text("Created record limit 无效"));
        }
        if !(read_be16(body, 8) == 1 && read_be16(body, 10) == 1 && read_be32(body, 12) == 0) {
            return Err(VncError::Text("Created 字段无效"));
        }
        self.deadline_ms = Some(deadline);
        self.record_limit = Some(limit);
        self.phase = StructuralPhase::Created;
        Ok(())
    }

    fn take_armed(&mut self, generation: u64, body: &[u8]) -> (r: Result<(), VncError>)
        ensures
            match armed(old(self)@, generation, body@) {
                Err(e) => r == Err::<(), VncError>(e) && *final(self) == *old(self),
                Ok(p) => r is Ok && final(self)@ == p,
            },
    {
        if !(generation == self.generation && self.phase == StructuralPhase::Created
            && self.committed_surface.is_none()) {
            return Err(VncError::Text("Armed 状态无效"));
        }
        if body.len() != 24 {
            return Err(VncError::Text("Armed body 长度无效"));
        }
        let committed = geometry(read_be16(body, 0), read_be16(body, 2))?;
        let requested = geometry(read_be16(body, 4), read_be16(body, 6))?;
        if !(read_be16(body, 8) == 1 && read_be16(body, 10) == 1 && read_be32(body, 12) == 3
            && read_be64(body, 16) == 0) {
            return Err(VncError::Text("Armed 字段无效"));
        }
        self.committed_surface = Some(committed);
        self.requested_surface = Some(requested);
        self.phase = StructuralPhase::Armed;
        Ok(())
    }

    fn take_triggered(&mut self, generation: u64, body: &[u8]) -> (r: Result<(), VncError>)
        ensures
            match triggered(old(self)@, generation, body@) {
                Err(e) => r == Err::<(), VncError>(e) && *final(self) == *old(self),
                Ok(p) => r is Ok && final(self)@ == p,
            },
    {
        if !(generation == self.generation && self.phase == StructuralPhase::Armed) {
            return Err(VncError::Text("Triggered 状态无效"));
        }
        if body.len() != 16 {
            return Err(VncError::Text("Triggered body 长度无效"));
        }
        let matching: bool = match self.requested_surface {
            Some(requested) => read_be16(body, 0) == requested.width && read_be16(body, 2)
                == requested.height,
            None => false,
        };
        if !(matching && read_be32(body, 4) == 7 && read_be64(body, 8) == 0) {
            return Err(VncError::Text("Triggered 字段无效"));
        }
        self.phase = StructuralPhase::Triggered;
        Ok(())
    }

    fn take_recording(&mut self, generation: u64, body: &[u8]) -> (r: Result<(), VncError>)
        ensures
            match recording(old(self)@, generation, body@) {
                Err(e) => r == Err::<(), VncError>(e) && *final(self) == *old(self),
                Ok(p) => r is Ok && final(self)@ == p,
            },
    {
        if !(generation == self.generation && self.phase == StructuralPhase::Triggered) {
            return Err(VncError::Text("Recording 状态无效"));
        }
        if !(body.len() == 8 && read_be64(body, 0) == 0) {
            return Err(VncError::Text("Recording body 无效"));
        }
        self.phase = StructuralPhase::Recording;
        Ok(())
    }

    fn take_surface(&mut self, generation: u64, body: &[u8]) -> (r: Result<(), VncError>)
        ensures
            match resized(old(self)@, generation, body@) {
                Err(e) => r == Err::<(), VncError>(e) && *final(self) == *old(self),
                Ok(p) => r is Ok && final(self)@ == p,
            },
    {
        let expected: u64 = match self.generation.checked_add(1) {
            Some(expected) => expected,
            None => {
                return Err(VncError::Text("generation 溢出"));
            },
        };
        if generation != expected {
            return Err(VncError::Text("Surface generation 无效"));
        }
        if !(self.phase == StructuralPhase::Recording && self.committed_surface.is_some()
            && body.len() == 8) {
            return Err(VncError::Text("Surface 状态或 body 无效"));
        }
        if !(read_be16(body, 4) == 1 && read_be16(body, 6) == 0) {
            return Err(VncError::Text("Surface 字段无效"));
        }
        let surface = geometry(read_be16(body, 0), read_be16(body, 2))?;
        self.generation = generation;
        self.committed_surface = Some(surface);
        self.surfaces.push(MvsCaptureV2Surface { generation, geometry: surface });
        Ok(())
    }

    fn take_record(&mut self, generation: u64, body: &[u8]) -> (r: Result<(), VncError>)
        ensures
            match recorded(old(self)@, generation, body@) {
                Err(e) => r == Err::<(), VncError>(e) && *final(self) == *old(self),
                Ok(p) => r is Ok && final(self)@ == p,
            },
    {
        if !(generation == self.generation && self.phase == StructuralPhase::Recording) {
            return Err(VncError::Text("Record generation/state 无效"));
        }
        let surface = match self.committed_surface {
            Some(surface) => surface,
            None => {
                return Err(VncError::Text("Record 缺少 active surface"));
            },
        };
        let before = self.counters;
        let record = parse_record(body, generation, surface, &mut self.counters)?;
        if self.records.len() >= MVS_CAPTURE_V2_MAX_RECORDS {
            self.counters = before;
            return Err(VncError::Text("V2 record 数量超过上限"));
        }
        let ghost so_far = crate::capture_totals::records_view(self.records@);
        let ghost added = record@;
        self.records.push(record);
        assert(crate::capture_totals::records_view(self.records@) =~= so_far.push(added));
        Ok(())
    }

    fn take_gap(&mut self, generation: u64, body: &[u8]) -> (r: Result<(), VncError>)
        ensures
            match gapped(old(self)@, generation, body@) {
                Err(e) => r == Err::<(), VncError>(e) && *final(self) == *old(self),
                Ok(p) => r is Ok && final(self)@ == p,
            },
    {
        if !(generation == self.generation && self.phase == StructuralPhase::Recording
            && self.gaps.len() == 0) {
            return Err(VncError::Text("Gap generation 或数量无效"));
        }
        let gap = parse_gap(body, self.counters.payload)?;
        self.gaps.push(gap);
        Ok(())
    }

    fn take_end(&mut self, kind: u16, generation: u64, timestamp_us: u64, body: &[u8]) -> (r: Result<
        (),
        VncError,
    >)
        ensures
            match ended(old(self)@, kind, generation, timestamp_us, body@) {
                Err(e) => r == Err::<(), VncError>(e) && *final(self) == *old(self),
                Ok(p) => r is Ok && final(self)@ == p,
            },
    {
        if generation != self.generation {
            return Err(VncError::Text("terminal generation 无效"));
        }
        if kind == EVENT_CLEAN && self.phase != StructuralPhase::Recording {
            return Err(VncError::Text("Clean 必须在 Recording 后"));
        }
        if kind == EVENT_ABORTED && self.phase == StructuralPhase::Start {
            return Err(VncError::Text("Aborted 必须在 Created 后"));
        }
        let terminal = parse_terminal(kind, body, timestamp_us)?;
        validate_terminal_phase(&terminal, self.phase)?;
        self.terminal = Some(terminal);
        Ok(())
    }

    fn take_end_of_gap(
        &mut self,
        kind: u16,
        generation: u64,
        timestamp_us: u64,
        body: &[u8],
    ) -> (r: Result<(), VncError>)
        requires
            old(self)@.gaps.len() > 0,
        ensures
            match ended_by_gap(old(self)@, kind, generation, timestamp_us, body@) {
                Err(e) => r == Err::<(), VncError>(e) && *final(self) == *old(self),
                Ok(p) => r is Ok && final(self)@ == p,
            },
    {
        if kind != EVENT_ABORTED {
            return Err(VncError::Text("Gap 后必须紧随 Aborted"));
        }
        if generation != self.generation {
            return Err(VncError::Text("Gap terminal generation 无效"));
        }
        let terminal = parse_terminal(kind, body, timestamp_us)?;
        validate_terminal_phase(&terminal, self.phase)?;
        let code: u16 = gap_terminal_code(self.gaps[0].reason)?;
        let reason = terminal_reason(code)?;
        proof {
            crate::mvs_capture_v2::lemma_reason_of(reason);
            crate::mvs_capture_v2::lemma_reason_of(terminal.reason);
        }
        if terminal.reason != reason {
            return Err(VncError::Text("Gap terminal reason 不匹配"));
        }
        self.terminal = Some(terminal);
        Ok(())
    }

    /// Takes the body of the event whose prefix was accepted last, and tells whether it was the
    /// end. A refusal changes nothing.
    pub fn accept_body(&mut self, prefix: EventPrefix, body: &[u8]) -> (r: Result<bool, VncError>)
        ensures
            match handled(
                old(self)@,
                prefix.kind,
                prefix.generation,
                prefix.timestamp_us,
                body@,
            ) {
                Err(e) => r == Err::<bool, VncError>(e) && *final(self) == *old(self),
                Ok(p) => r == Ok::<bool, VncError>(p.terminal is Some) && final(self)@ == p,
            },
    {
        reveal(taken);
        let kind: u16 = prefix.kind;
        let generation: u64 = prefix.generation;
        let timestamp_us: u64 = prefix.timestamp_us;
        if self.gaps.len() > 0 {
            self.take_end_of_gap(kind, generation, timestamp_us, body)?;
        } else {
            match kind {
                EVENT_CREATED => self.take_created(generation, timestamp_us, body)?,
                EVENT_ARMED => self.take_armed(generation, body)?,
                EVENT_TRIGGERED => self.take_triggered(generation, body)?,
                EVENT_RECORDING => self.take_recording(generation, body)?,
                EVENT_SURFACE => self.take_surface(generation, body)?,
                EVENT_RECORD => self.take_record(generation, body)?,
                EVENT_GAP => self.take_gap(generation, body)?,
                EVENT_CLEAN | EVENT_ABORTED => self.take_end(kind, generation, timestamp_us, body)?,
                _ => {
                    return Err(VncError::Text("未知 V2 event type"));
                },
            }
        }
        self.event_types.push(kind);
        self.event_generations.push(generation);
        Ok(self.terminal.is_some())
    }

    /// The capture that was read, once its end has come and nothing follows it.
    pub fn finish(self) -> (r: Result<StructuralMvsCaptureV2, VncError>)
        requires
            self@.terminal is Some,
        ensures
            crate::error::viewed(r) == finished(self@),
    {
        let terminal = self.terminal.unwrap();
        validate_terminal(
            &terminal,
            self.records.as_slice(),
            self.gaps.as_slice(),
            self.deadline_ms,
            self.record_limit,
        )?;
        Ok(
            StructuralMvsCaptureV2 {
                provenance: MvsCaptureV2Provenance::DiagnosticOnly,
                committed_surface: self.committed_surface,
                requested_surface: self.requested_surface,
                records: self.records,
                surfaces: self.surfaces,
                gaps: self.gaps,
                terminal,
                deadline_ms: self.deadline_ms,
                record_limit: self.record_limit,
                event_types: self.event_types,
                event_generations: self.event_generations,
            },
        )
    }
}

/// Reads a capture from the bytes of its file.
pub fn read_mvs_capture_v2_structural(data: &[u8]) -> (r: Result<StructuralMvsCaptureV2, VncError>)
    ensures
        crate::error::viewed(r) == structural_read(data@),
{
    let total: usize = data.len();
    if total < MVS_CAPTURE_V2_HEADER_BYTES {
        return Err(VncError::Text("FRDMVS02 header 截断"));
    }
    let header = vstd::slice::slice_subrange(data, 0, MVS_CAPTURE_V2_HEADER_BYTES);
    assert(header@ =~= data@.take(32));
    let mut parser = CaptureParser::open(header)?;
    let mut at: usize = MVS_CAPTURE_V2_HEADER_BYTES;
    let mut over: bool = false;
    let ghost goal = events_read(no_progress(), data@.skip(32));
    while !over
        invariant
            total == data@.len(),
            32 <= at <= total,
            opening_refusal(data@.take(32)) is None,
            goal == events_read(no_progress(), data@.skip(32)),
            over == (parser@.terminal is Some),
            !over ==> goal == events_read(parser@, data@.skip(at as int)),
            over ==> goal == Ok::<(Progress, Seq<u8>), VncError>((parser@, data@.skip(at as int))),
        decreases
                if over {
                    0
                } else {
                    total - at + 1
                },
    {
        let ghost rest = data@.skip(at as int);
        if total - at < EVENT_PREFIX_BYTES {
            return Err(VncError::Text("V2 event prefix 截断"));
        }
        let prefix_bytes = vstd::slice::slice_subrange(data, at, at + EVENT_PREFIX_BYTES);
        assert(prefix_bytes@ =~= rest.take(32));
        let prefix = parser.accept_prefix(prefix_bytes)?;
        let start: usize = at + EVENT_PREFIX_BYTES;
        if total - start < prefix.body_length {
            return Err(VncError::Text("V2 event body 截断"));
        }
        let end: usize = start + prefix.body_length;
        let body = vstd::slice::slice_subrange(data, start, end);
        assert(body@ =~= rest.subrange(32, 32 + prefix.body_length as int));
        assert(rest.skip(32 + prefix.body_length as int) =~= data@.skip(end as int));
        over = parser.accept_body(prefix, body)?;
        at = end;
    }
    if at < total {
        return Err(VncError::Text("V2 terminal 后存在 trailing bytes"));
    }
    parser.finish()
}

/// A planned capture without any change or gap.
#[derive(Clone, Debug, PartialEq, Eq)]
pub struct StrictColdMvsCaptureV2 {
    pub committed_surface: MvsCaptureV2Geometry,
    pub requested_surface: MvsCaptureV2Geometry,
    pub records: Vec<MvsCaptureV2Record>,
    pub deadline_ms: u32,
    pub record_limit: u32,
    pub terminal: MvsCaptureV2Terminal,
}

/// What a planned capture holds.
#[verifier::ext_equal]
pub struct StrictView {
    pub committed: MvsCaptureV2Geometry,
    pub requested: MvsCaptureV2Geometry,
    pub records: Seq<CaptureRecordView>,
    pub deadline_ms: u32,
    pub record_limit: u32,
    pub terminal: MvsCaptureV2Terminal,
}

impl View for StrictColdMvsCaptureV2 {
    type V = StrictView;

    open spec fn view(&self) -> StrictView {
        StrictView {
            committed: self.committed_surface,
            requested: self.requested_surface,
            records: crate::capture_totals::records_view(self.records@),
            deadline_ms: self.deadline_ms,
            record_limit: self.record_limit,
            terminal: self.terminal,
        }
    }
}

/// Whether the first four events are the lifecycle up to recording.
pub open spec fn lifecycle_first(kinds: Seq<u16>) -> bool {
    kinds[0] == EVENT_CREATED && kinds[1] == EVENT_ARMED && kinds[2] == EVENT_TRIGGERED && kinds[3]
        == EVENT_RECORDING
}

/// Whether only records stand between the lifecycle and the end.
pub open spec fn only_records_between(kinds: Seq<u16>) -> bool {
    forall|i: int| 4 <= i < kinds.len() - 1 ==> kinds[i] == EVENT_RECORD
}

/// Whether no event belongs to a changed surface.
pub open spec fn all_first_generation(generations: Seq<u64>) -> bool {
    forall|i: int| 0 <= i < generations.len() ==> generations[i] == 0
}

/// The planned capture that a capture is, or why it is none.
pub open spec fn strict_of(s: StructuralView) -> Result<StrictView, VncError> {
    if s.kinds.len() < 5 {
        Err(VncError::Text("严格 cold capture 缺少生命周期事件"))
    } else if !lifecycle_first(s.kinds) {
        Err(VncError::Text("严格 cold 生命周期顺序无效"))
    } else if !only_records_between(s.kinds) {
        Err(VncError::Text("严格 cold 拒绝重复生命周期或未知中间 event"))
    } else if s.kinds.last() != EVENT_CLEAN {
        Err(VncError::Text("严格 cold 要求最后 event 为 Clean"))
    } else if !all_first_generation(s.generations) {
        Err(VncError::Text("严格 cold generation 必须为零"))
    } else if !(s.surfaces.len() == 0 && s.gaps.len() == 0) {
        Err(VncError::Text("严格 cold 拒绝诊断事件"))
    } else if s.terminal.kind != MvsCaptureV2TerminalKind::Clean {
        Err(VncError::Text("严格 cold 要求 Clean terminal"))
    } else if s.committed is None {
        Err(VncError::Text("严格 cold 缺少 committed surface"))
    } else if s.requested is None {
        Err(VncError::Text("严格 cold 缺少 requested surface"))
    } else if s.deadline_ms is None {
        Err(VncError::Text("严格 cold 缺少 deadline"))
    } else if s.record_limit is None {
        Err(VncError::Text("严格 cold 缺少 record limit"))
    } else {
        Ok(
            StrictView {
                committed: s.committed->0,
                requested: s.requested->0,
                records: s.records,
                deadline_ms: s.deadline_ms->0,
                record_limit: s.record_limit->0,
                terminal: s.terminal,
            },
        )
    }
}

/// The planned capture that the bytes of a file hold.
pub open spec fn strict_read(data: Seq<u8>) -> Result<StrictView, VncError> {
    match structural_read(data) {
        Err(e) => Err(e),
        Ok(s) => strict_of(s),
    }
}

fn holds_only_records_between(kinds: &[u16]) -> (r: bool)
    requires
        kinds@.len() >= 5,
    ensures
        r == only_records_between(kinds@),
{
    let last: usize = kinds.len() - 1;
    let mut i: usize = 4;
    while i < last
        invariant
            4 <= i <= last,
            last == kinds@.len() - 1,
            forall|k: int| 4 <= k < i ==> kinds@[k] == EVENT_RECORD,
        decreases last - i,
    {
        if kinds[i] != EVENT_RECORD {
            return false;
        }
        i = i + 1;
    }
    true
}

fn holds_only_first_generation(generations: &[u64]) -> (r: bool)
    ensures
        r == all_first_generation(generations@),
{
    let mut i: usize = 0;
    while i < generations.len()
        invariant
            i <= generations@.len(),
            forall|k: int| 0 <= k < i ==> generations@[k] == 0,
        decreases generations@.len() - i,
    {
        if generations[i] != 0 {
            return false;
        }
        i = i + 1;
    }
    true
}

/// Accepts a capture as a planned one.
pub fn strict_capture(structural: StructuralMvsCaptureV2) -> (r: Result<
    StrictColdMvsCaptureV2,
    VncError,
>)
    ensures
        crate::error::viewed(r) == strict_of(structural@),
{
    let kinds = &structural.event_types;
    if kinds.len() < 5 {
        return Err(VncError::Text("严格 cold capture 缺少生命周期事件"));
    }
    if !(kinds[0] == EVENT_CREATED && kinds[1] == EVENT_ARMED && kinds[2] == EVENT_TRIGGERED
        && kinds[3] == EVENT_RECORDING) {
        return Err(VncError::Text("严格 cold 生命周期顺序无效"));
    }
    if !holds_only_records_between(kinds.as_slice()) {
        return Err(VncError::Text("严格 cold 拒绝重复生命周期或未知中间 event"));
    }
    if kinds[kinds.len() - 1] != EVENT_CLEAN {
        return Err(VncError::Text("严格 cold 要求最后 event 为 Clean"));
    }
    if !holds_only_first_generation(structural.event_generations.as_slice()) {
        return Err(VncError::Text("严格 cold generation 必须为零"));
    }
    if !(structural.surfaces.len() == 0 && structural.gaps.len() == 0) {
        return Err(VncError::Text("严格 cold 拒绝诊断事件"));
    }
    if structural.terminal.kind != MvsCaptureV2TerminalKind::Clean {
        return Err(VncError::Text("严格 cold 要求 Clean terminal"));
    }
    let committed_surface = match structural.committed_surface {
        Some(surface) => surface,
        None => {
            return Err(VncError::Text("严格 cold 缺少 committed surface"));
        },
    };
    let requested_surface = match structural.requested_surface {
        Some(surface) => surface,
        None => {
            return Err(VncError::Text("严格 cold 缺少 requested surface"));
        },
    };
    let deadline_ms: u32 = match structural.deadline_ms {
        Some(deadline) => deadline,
        None => {
            return Err(VncError::Text("严格 cold 缺少 deadline"));
        },
    };
    let record_limit: u32 = match structural.record_limit {
        Some(limit) => limit,
        None => {
            return Err(VncError::Text("严格 cold 缺少 record limit"));
        },
    };
    Ok(
        StrictColdMvsCaptureV2 {
            committed_surface,
            requested_surface,
            records: structural.records,
            deadline_ms,
            record_limit,
            terminal: structural.terminal,
        },
    )
}

/// Reads a planned capture from the bytes of its file.
pub fn read_mvs_capture_v2_strict_cold(data: &[u8]) -> (r: Result<StrictColdMvsCaptureV2, VncError>)
    ensures
        crate::error::viewed(r) == strict_read(data@),
{
    let structural = read_mvs_capture_v2_structural(data)?;
    strict_capture(structural)
}

/// The bytes of events, one behind the other.
pub open spec fn events_bytes(events: Seq<crate::capture_events::Event>) -> Seq<u8>
    decreases events.len(),
{
    if events.len() == 0 {
        Seq::empty()
    } else {
        events_bytes(events.drop_last()) + crate::capture_events::event_bytes(events.last())
    }
}

/// What events come to, one behind the other. Nothing may follow the end.
pub open spec fn replayed(p: Progress, events: Seq<crate::capture_events::Event>) -> Result<
    Progress,
    VncError,
>
    decreases events.len(),
{
    if events.len() == 0 {
        Ok(p)
    } else {
        match replayed(p, events.drop_last()) {
            Err(e) => Err(e),
            Ok(q) => if q.terminal is Some {
                Err(VncError::Text("V2 terminal 后存在 trailing bytes"))
            } else {
                stepped(q, events.last())
            },
        }
    }
}

/// Whether the body of every event is within the limit.
pub open spec fn bodies_fit(events: Seq<crate::capture_events::Event>) -> bool {
    forall|i: int| 0 <= i < events.len() ==> (#[trigger] events[i]).body.len()
        <= MVS_CAPTURE_V2_MAX_EVENT_BODY
}

/// The bytes of an event at the front are read as that event.
proof fn lemma_event_first(q: Progress, e: crate::capture_events::Event, rest: Seq<u8>)
    requires
        e.body.len() <= MVS_CAPTURE_V2_MAX_EVENT_BODY,
    ensures
        events_read(q, crate::capture_events::event_bytes(e) + rest) == (match stepped(q, e) {
            Err(e) => Err(e),
            Ok(n) => if n.terminal is Some {
                Ok((n, rest))
            } else {
                events_read(n, rest)
            },
        }),
{
    crate::capture_events::law_event_is_read_back(e, rest);
    assert((crate::capture_events::event_bytes(e) + rest).len() >= 32 + e.body.len());
}

/// Joining is associative.
proof fn lemma_joined(a: Seq<u8>, b: Seq<u8>, c: Seq<u8>)
    ensures
        a + b + c == a + (b + c),
{
    assert(a + b + c =~= a + (b + c));
}

/// Reading the bytes of events comes to what the events come to.
pub proof fn law_written_events_are_read(
    p: Progress,
    events: Seq<crate::capture_events::Event>,
    rest: Seq<u8>,
)
    requires
        bodies_fit(events),
        p.terminal is None,
        replayed(p, events) is Ok,
    ensures
        events_read(p, events_bytes(events) + rest) == ({
            let q = replayed(p, events)->Ok_0;
            if q.terminal is Some {
                Ok((q, rest))
            } else {
                events_read(q, rest)
            }
        }),
    decreases events.len(),
{
    if events.len() == 0 {
        assert(events_bytes(events) + rest =~= rest);
    } else {
        let e = events.last();
        let before = events.drop_last();
        let tail = crate::capture_events::event_bytes(e) + rest;
        assert(bodies_fit(before));
        lemma_joined(events_bytes(before), crate::capture_events::event_bytes(e), rest);
        law_written_events_are_read(p, before, tail);
        lemma_event_first(replayed(p, before)->Ok_0, e, rest);
    }
}

/// Whatever is accepted as a planned capture is also accepted as a capture, with the same records
/// and the same end, and has neither gaps nor changes of the surface.
pub proof fn law_strict_is_structural(data: Seq<u8>)
    requires
        strict_read(data) is Ok,
    ensures
        structural_read(data) matches Ok(s) && {
            let t = strict_read(data)->Ok_0;
            &&& s.records == t.records
            &&& s.terminal == t.terminal
            &&& s.committed == Some(t.committed)
            &&& s.requested == Some(t.requested)
            &&& s.gaps.len() == 0
            &&& s.surfaces.len() == 0
            &&& s.terminal.kind == MvsCaptureV2TerminalKind::Clean
        },
{
}

} // verus!
