//! What the capture writer does, as functions of its state and of the answers that its sink and
//! its clock give.

use vstd::prelude::*;
use crate::capture_events::{Event, EVENT_ABORTED, EVENT_ARMED, EVENT_CLEAN};
use crate::capture_events::{EVENT_CREATED, EVENT_GAP, EVENT_RECORD, EVENT_RECORDING};
use crate::capture_events::{EVENT_TRIGGERED, MVS_CAPTURE_V2_MAX_CUMULATIVE_PAYLOAD};
use crate::capture_events::{MVS_CAPTURE_V2_MAX_EVENTS, MVS_CAPTURE_V2_MAX_PAYLOAD};
use crate::capture_events::MVS_CAPTURE_V2_MAX_RECORDS;
use crate::error::VncError;
use crate::mvs_capture_v2::{CaptureRecordView, MvsCaptureV2Gap, MvsCaptureV2Geometry};
use crate::mvs_full::MAX_MVS_DECODE_PIXELS;
use crate::mvs_stream::{MvsRect, PendingView, RecordView};

verus! {

/// The shortest time that a capture may last, in microseconds.
pub const DEADLINE_MICROS: u64 = 5_000_000;

/// How long a record may stay unfinished, in microseconds.
pub const INCOMPLETE_RECORD_MICROS: u64 = 2_000_000;

/// Where a capture stands.
#[derive(Clone, Copy, Debug, PartialEq, Eq, Structural)]
pub enum CaptureState {
    Created,
    Armed,
    Triggering,
    Recording,
    Finalizing,
    Clean,
    Aborted,
}

/// The limits that a capture is created with.
#[derive(Clone, Copy, Debug, PartialEq, Eq, Structural)]
pub struct CreatedConfig {
    pub deadline_ms: u32,
    pub record_limit: u32,
}

/// The surface that is captured and the one that was asked for.
#[derive(Clone, Copy, Debug, PartialEq, Eq, Structural)]
pub struct ArmedConfig {
    pub committed: MvsCaptureV2Geometry,
    pub requested: MvsCaptureV2Geometry,
}

/// Whether the capture goes on.
#[derive(Clone, Copy, Debug, PartialEq, Eq, Structural)]
pub enum WriterDecision {
    Continue,
    Finalized(CaptureState),
}

/// Where the unfinished record came from.
#[derive(Clone, Copy, Debug, PartialEq, Eq, Structural)]
pub struct PendingProvenance {
    pub first: u64,
    pub last: u64,
    pub total: u32,
    pub accepted: u32,
    pub rect: MvsRect,
    pub started_at: u64,
}

/// What the writer asks of its clock, its sink and the file that the sink leaves.
pub enum Action {
    ReadClock,
    Write(Seq<u8>),
    Flush,
    Sync,
    Close,
    SyncFile,
    Release,
}

/// A request and its answer. An answer without a value holds zero.
pub struct Call {
    pub action: Action,
    pub answer: Result<u64, VncError>,
}

/// What a writer holds, the events and records that it has written, and all its calls.
#[verifier::ext_equal]
pub struct WriterView {
    pub open: bool,
    pub state: CaptureState,
    pub config: CreatedConfig,
    pub event_ordinal: u64,
    pub event_count: usize,
    pub payload: usize,
    pub generation: u64,
    pub armed: Option<ArmedConfig>,
    pub trigger_mask: u32,
    pub assembling: Option<PendingView>,
    pub pending: Option<PendingProvenance>,
    pub sources: u64,
    pub records: u64,
    pub type0: u64,
    pub type1: u64,
    pub type2: u64,
    pub gap_count: u32,
    pub last_gap: Option<MvsCaptureV2Gap>,
    pub terminal_reason: Option<u16>,
    pub abort_reason: Option<u16>,
    pub last_timestamp: u64,
    pub events: Seq<Event>,
    pub kept: Seq<CaptureRecordView>,
    pub calls: Seq<Call>,
}

/// What an operation leaves and answers.
pub type Outcome = (WriterView, Result<WriterDecision, VncError>);

/// Whether `longer` begins with `shorter`.
pub open spec fn extends(longer: Seq<Call>, shorter: Seq<Call>) -> bool {
    &&& shorter.len() <= longer.len()
    &&& forall|i: int| 0 <= i < shorter.len() ==> #[trigger] longer[i] == shorter[i]
}

/// The request is made, and answered as `all` has it.
pub open spec fn asked(w: WriterView, action: Action, all: Seq<Call>) -> (
    WriterView,
    Result<u64, VncError>,
) {
    let answer = all[w.calls.len() as int].answer;
    (WriterView { calls: w.calls.push(Call { action, answer }), ..w }, answer)
}

/// The answer of a request without a value.
pub open spec fn valueless(r: Result<(), VncError>) -> Result<u64, VncError> {
    match r {
        Ok(_) => Ok(0),
        Err(e) => Err(e),
    }
}

/// The clock is read. It may not go back.
pub open spec fn clock_read(w: WriterView, all: Seq<Call>) -> (WriterView, Result<u64, VncError>) {
    let (v, answer) = asked(w, Action::ReadClock, all);
    match answer {
        Err(e) => (v, Err(e)),
        Ok(now) => if now < v.last_timestamp {
            (v, Err(VncError::Text("capture clock 倒退")))
        } else {
            (WriterView { last_timestamp: now, ..v }, Ok(now))
        },
    }
}

/// When the capture is over, in microseconds.
pub open spec fn deadline_us(w: WriterView) -> int {
    w.config.deadline_ms * 1000
}

/// Why an operation that needs one of certain states is refused, where it is.
pub open spec fn state_refusal(w: WriterView, allowed: bool) -> Option<VncError> {
    if !allowed {
        Some(VncError::Text("capture state 转换无效"))
    } else if !w.open {
        Some(VncError::Text("capture sink 已被消费"))
    } else {
        None
    }
}

/// Whether the capture is still going on.
pub open spec fn ongoing(state: CaptureState) -> bool {
    state == CaptureState::Created || state == CaptureState::Armed || state
        == CaptureState::Triggering || state == CaptureState::Recording
}

/// Whether the payload is within its limit, and the events are as many as the state of the capture
/// says: one before it is armed, two before it records, and then four and one for every record,
/// with room for the end.
pub open spec fn counted(w: WriterView) -> bool {
    &&& w.payload <= MVS_CAPTURE_V2_MAX_CUMULATIVE_PAYLOAD
    &&& match w.state {
        CaptureState::Created => w.event_count == 1 && w.records == 0,
        CaptureState::Armed | CaptureState::Triggering => w.event_count == 2 && w.records == 0,
        CaptureState::Recording => w.event_count == 4 + w.records && w.event_count
            < MVS_CAPTURE_V2_MAX_EVENTS,
        _ => true,
    }
}

/// The first failure: the one so far, or this answer's.
pub open spec fn first_failure(
    so_far: Option<VncError>,
    answer: Result<u64, VncError>,
    text: &'static str,
) -> Option<VncError> {
    match so_far {
        Some(e) => Some(e),
        None => match answer {
            Err(e) => Some(crate::error::within(text, e)),
            Ok(_) => None,
        },
    }
}

/// The sink is closed, its file synchronised and released, whatever fails on the way.
pub open spec fn consumed(w: WriterView, failure: Option<VncError>, all: Seq<Call>) -> (
    WriterView,
    Option<VncError>,
) {
    let (w1, a1) = asked(w, Action::Close, all);
    let f1 = first_failure(failure, a1, "final implicit flush");
    let (w2, a2) = asked(w1, Action::SyncFile, all);
    let f2 = first_failure(f1, a2, "final file sync_data");
    let (w3, a3) = asked(w2, Action::Release, all);
    let f3 = first_failure(f2, a3, "final file relinquish");
    (w3, f3)
}

/// The capture is given up without an end.
pub open spec fn given_up(w: WriterView, error: VncError, all: Seq<Call>) -> Outcome {
    let v = WriterView { state: CaptureState::Finalizing, open: false, ..w };
    if w.open {
        (consumed(v, Some(error), all).0, Err(error))
    } else {
        (v, Err(error))
    }
}

/// The reason of the end is settled.
pub open spec fn selected(w: WriterView, clean: bool, reason: u16) -> WriterView {
    WriterView {
        terminal_reason: Some(reason),
        abort_reason: if clean {
            w.abort_reason
        } else {
            Some(reason)
        },
        state: CaptureState::Finalizing,
        ..w
    }
}

/// The capture is given up because its output or its clock failed.
pub open spec fn output_given_up(w: WriterView, error: VncError, all: Seq<Call>) -> Outcome {
    given_up(selected(w, false, 264), error, all)
}

/// Why there is no room for `slots` more events, where there is none.
pub open spec fn preflight_refusal(w: WriterView, slots: int) -> Option<VncError> {
    if w.event_count + slots > usize::MAX {
        Some(VncError::Text("V2 event 计数溢出"))
    } else if w.event_count + slots > MVS_CAPTURE_V2_MAX_EVENTS {
        Some(VncError::Text("V2 event 数量超过上限"))
    } else {
        None
    }
}

/// The body of an end.
#[verifier::opaque]
pub open spec fn terminal_body(w: WriterView) -> Seq<u8> {
    crate::wire::be16_bytes(w.terminal_reason->0) + crate::wire::be16_bytes(0) + crate::wire::be32_bytes(w.gap_count) + crate::wire::be64_bytes(
        w.sources,
    ) + crate::wire::be64_bytes(w.records) + crate::wire::be64_bytes(w.type0) + crate::wire::be64_bytes(w.type1) + crate::wire::be64_bytes(w.type2)
}

/// The event that a writer writes next.
pub open spec fn next_event(w: WriterView, kind: u16, timestamp_us: u64, body: Seq<u8>) -> Event {
    Event {
        kind,
        ordinal: w.event_ordinal,
        generation: w.generation,
        timestamp_us,
        body,
    }
}

/// An event has been written.
pub open spec fn with_event(w: WriterView, e: Event) -> WriterView {
    WriterView {
        event_count: (w.event_count + 1) as usize,
        event_ordinal: (w.event_ordinal + 1) as u64,
        events: w.events.push(e),
        ..w
    }
}

/// The end is written and the sink consumed.
#[verifier::opaque]
pub open spec fn finalized(w: WriterView, clean: bool, timestamp_us: u64, all: Seq<Call>) -> Outcome {
    match preflight_refusal(w, 1) {
        Some(e) => given_up(w, e, all),
        None => {
            let kind = if clean {
                EVENT_CLEAN
            } else {
                EVENT_ABORTED
            };
            let e = next_event(w, kind, timestamp_us, terminal_body(w));
            let (w1, answer) = asked(
                WriterView { open: false, ..w },
                Action::Write(crate::capture_events::event_bytes(e)),
                all,
            );
            let w2 = if answer is Ok {
                with_event(w1, e)
            } else {
                w1
            };
            let (w3, failure) = consumed(
                w2,
                first_failure(None, answer, "写入 terminal event"),
                all,
            );
            match failure {
                Some(e) => (w3, Err(e)),
                None => {
                    let state = if clean {
                        CaptureState::Clean
                    } else {
                        CaptureState::Aborted
                    };
                    (WriterView { state, ..w3 }, Ok(WriterDecision::Finalized(state)))
                },
            }
        },
    }
}

/// The capture ends now, at a time that is already known.
pub open spec fn finalized_at(
    w: WriterView,
    clean: bool,
    reason: u16,
    timestamp_us: u64,
    all: Seq<Call>,
) -> Outcome {
    finalized(selected(w, clean, reason), clean, timestamp_us, all)
}

/// The capture ends now.
pub open spec fn finalized_now(w: WriterView, clean: bool, reason: u16, all: Seq<Call>) -> Outcome {
    let (v, time) = clock_read(selected(w, clean, reason), all);
    match time {
        Err(e) => given_up(v, e, all),
        Ok(timestamp_us) => finalized(v, clean, timestamp_us, all),
    }
}

/// Why a payload of this length is not taken any more, where it is not.
pub open spec fn room_refusal(w: WriterView, payload: int) -> Option<VncError> {
    if preflight_refusal(w, 2) is Some {
        preflight_refusal(w, 2)
    } else {
        crate::capture_events::payload_refusal(w.payload as int, payload)
    }
}

/// An event that is not the end is written.
#[verifier::opaque]
pub open spec fn written(
    w: WriterView,
    kind: u16,
    timestamp_us: u64,
    body: Seq<u8>,
    payload: usize,
    all: Seq<Call>,
) -> (WriterView, Result<(), VncError>) {
    match room_refusal(w, payload as int) {
        Some(e) => (w, Err(e)),
        None => {
            let e = next_event(w, kind, timestamp_us, body);
            let (v, answer) = asked(w, Action::Write(crate::capture_events::event_bytes(e)), all);
            match answer {
                Err(f) => (v, Err(crate::error::within("写入 FRDMVS02 event", f))),
                Ok(_) => (
                    WriterView { payload: (w.payload + payload) as usize, ..with_event(v, e) },
                    Ok(()),
                ),
            }
        },
    }
}

/// A gap.
pub open spec fn gap_view(
    reason: u16,
    first: u64,
    last: u64,
    declared_total: u32,
    accumulated_bytes: u32,
    rect: MvsRect,
) -> MvsCaptureV2Gap {
    MvsCaptureV2Gap {
        reason,
        stage: match crate::mvs_capture_v2::gap_stage_of(reason) {
            Ok(stage) => stage,
            Err(_) => 0,
        },
        first_source_frame_ordinal: first,
        last_source_frame_ordinal: last,
        declared_total,
        accumulated_bytes,
        rect,
    }
}

/// The gap that the unfinished record leaves.
pub open spec fn pending_gap_view(p: PendingProvenance, reason: u16, last: u64) -> MvsCaptureV2Gap {
    gap_view(reason, p.first, last, p.total, p.accepted, p.rect)
}

/// The bytes of a rectangle.
pub open spec fn rect_bytes(rect: MvsRect) -> Seq<u8> {
    crate::wire::be16_bytes(rect.x) + crate::wire::be16_bytes(rect.y) + crate::wire::be16_bytes(rect.width) + crate::wire::be16_bytes(rect.height)
}

/// The body of a gap.
#[verifier::opaque]
pub open spec fn gap_body(g: MvsCaptureV2Gap) -> Seq<u8> {
    crate::wire::be16_bytes(g.reason) + crate::wire::be16_bytes(g.stage) + crate::wire::be32_bytes(1) + crate::wire::be64_bytes(
        g.first_source_frame_ordinal,
    ) + crate::wire::be64_bytes(g.last_source_frame_ordinal) + crate::wire::be32_bytes(g.declared_total) + crate::wire::be32_bytes(
        g.accumulated_bytes,
    ) + rect_bytes(g.rect)
}

/// A gap is written, and the capture ends.
#[verifier::opaque]
pub open spec fn gap_emitted(w: WriterView, gap: MvsCaptureV2Gap, terminal: u16, all: Seq<Call>) -> Outcome {
    match preflight_refusal(w, 2) {
        Some(e) => given_up(w, e, all),
        None => {
            let (w1, time) = clock_read(w, all);
            match time {
                Err(e) => given_up(w1, e, all),
                Ok(timestamp_us) => {
                    let (w2, done) = written(w1, EVENT_GAP, timestamp_us, gap_body(gap), 0, all);
                    match done {
                        Err(e) => given_up(w2, e, all),
                        Ok(_) => finalized_now(
                            WriterView {
                                gap_count: 1,
                                last_gap: Some(gap),
                                pending: None,
                                assembling: None,
                                ..w2
                            },
                            false,
                            terminal,
                            all,
                        ),
                    }
                },
            }
        },
    }
}

/// The unfinished record is given up.
pub open spec fn pending_given_up(w: WriterView, reason: u16, terminal: u16, all: Seq<Call>) -> Outcome {
    gap_emitted(w, pending_gap_view(w.pending->0, reason, (w.pending->0).last), terminal, all)
}

/// The capture ends because its time is over.
pub open spec fn over_at(w: WriterView, now: u64, all: Seq<Call>) -> Outcome {
    if w.pending is Some {
        pending_given_up(w, 6, 263, all)
    } else {
        finalized_at(w, true, 1, now, all)
    }
}

/// The capture goes on behind a frame, or ends because its time is over or it has all its records.
pub open spec fn after_frame(w: WriterView, now: u64, all: Seq<Call>) -> Outcome {
    if now >= deadline_us(w) {
        over_at(w, now, all)
    } else if w.records == w.config.record_limit {
        finalized_at(w, true, 2, now, all)
    } else {
        (w, Ok(WriterDecision::Continue))
    }
}

/// The clock is read behind a frame.
pub open spec fn clocked_after_frame(w: WriterView, all: Seq<Call>) -> Outcome {
    let (v, time) = clock_read(w, all);
    match time {
        Err(e) => given_up(v, e, all),
        Ok(now) => after_frame(v, now, all),
    }
}

/// Whether the unfinished record has been so for too long.
pub open spec fn pending_expired_at(w: WriterView, now: u64) -> bool {
    w.pending is Some && now - (w.pending->0).started_at >= INCOMPLETE_RECORD_MICROS
}

/// The body of a record.
#[verifier::opaque]
pub open spec fn record_body(first: u64, last: u64, record: RecordView) -> Seq<u8> {
    crate::wire::be64_bytes(first) + crate::wire::be64_bytes(last) + rect_bytes(record.rect) + crate::wire::be32_bytes(
        record.payload.len() as u32,
    ) + record.payload
}

/// Why a record that paints may not cover `rect`, where it may not.
pub open spec fn paint_refusal(armed: Option<ArmedConfig>, rect: MvsRect) -> Option<VncError> {
    if armed is None {
        Some(VncError::Text("Record 缺少 committed surface"))
    } else if rect.width == 0 || rect.height == 0 {
        Some(VncError::Text("MVS record rectangle 为零"))
    } else if rect.x + rect.width > u16::MAX {
        Some(VncError::Text("MVS rectangle right 溢出"))
    } else if rect.y + rect.height > u16::MAX {
        Some(VncError::Text("MVS rectangle bottom 溢出"))
    } else if rect.x + rect.width > (armed->0).committed.width || rect.y + rect.height > (
    armed->0).committed.height {
        Some(VncError::Text("MVS record rectangle 超出 committed surface"))
    } else if rect.width * rect.height > MAX_MVS_DECODE_PIXELS {
        Some(VncError::Text("MVS record rectangle 超过像素预算"))
    } else {
        None
    }
}

/// A record of this type has been counted.
pub open spec fn counted_record(w: WriterView, tag: u8) -> WriterView {
    WriterView {
        records: (w.records + 1) as u64,
        type0: if tag == 0 {
            (w.type0 + 1) as u64
        } else {
            w.type0
        },
        type1: if tag == 1 {
            (w.type1 + 1) as u64
        } else {
            w.type1
        },
        type2: if tag == 2 {
            (w.type2 + 1) as u64
        } else {
            w.type2
        },
        ..w
    }
}

/// What becomes of the capture once a record is in the file. A record without an area that has a
/// rectangle is refused, and the capture goes on.
pub open spec fn classified(w: WriterView, record: RecordView, all: Seq<Call>) -> Outcome {
    let tag = record.payload[0];
    let v = counted_record(w, tag);
    if w.records == u64::MAX {
        given_up(w, VncError::Text("record count 溢出"), all)
    } else if tag == 0 || tag == 1 {
        match paint_refusal(w.armed, record.rect) {
            Some(e) => given_up(v, e, all),
            None => clocked_after_frame(v, all),
        }
    } else if tag == 2 {
        if record.rect != crate::mvs_capture_v2::empty_rect() {
            (v, Err(VncError::Text("type-2 rectangle 必须为零")))
        } else {
            clocked_after_frame(v, all)
        }
    } else {
        given_up(v, VncError::Text("未知 MVS payload tag（Record 已持久化）"), all)
    }
}

/// A record is complete.
#[verifier::opaque]
pub open spec fn completed(
    w: WriterView,
    first: u64,
    last: u64,
    record: RecordView,
    all: Seq<Call>,
) -> Outcome {
    let (w1, time) = clock_read(w, all);
    match time {
        Err(e) => given_up(w1, e, all),
        Ok(timestamp_us) => {
            let (w2, done) = written(
                w1,
                EVENT_RECORD,
                timestamp_us,
                record_body(first, last, record),
                record.payload.len() as usize,
                all,
            );
            match done {
                Err(e) => given_up(w2, e, all),
                Ok(_) => classified(
                    WriterView {
                        kept: w2.kept.push(
                            CaptureRecordView { generation: w2.generation, first, last, record },
                        ),
                        ..w2
                    },
                    record,
                    all,
                ),
            }
        },
    }
}

/// Why a capture is not created with these limits, where it is not.
pub open spec fn config_refusal(config: CreatedConfig) -> Option<VncError> {
    if !crate::capture_reader::deadline_allowed(config.deadline_ms) {
        Some(VncError::Text("V2 Created deadline 无效"))
    } else if !(1 <= config.record_limit <= MVS_CAPTURE_V2_MAX_RECORDS) {
        Some(VncError::Text("V2 Created record limit 无效"))
    } else {
        None
    }
}

/// The body of the first event.
#[verifier::opaque]
pub open spec fn created_body(config: CreatedConfig) -> Seq<u8> {
    crate::wire::be32_bytes(config.deadline_ms) + crate::wire::be32_bytes(config.record_limit) + crate::wire::be16_bytes(1) + crate::wire::be16_bytes(1)
        + crate::wire::be32_bytes(0)
}

/// The first event.
pub open spec fn created_event(config: CreatedConfig) -> Event {
    Event {
        kind: EVENT_CREATED,
        ordinal: 0,
        generation: 0,
        timestamp_us: 0,
        body: created_body(config),
    }
}

/// A writer that has just written the first event.
pub open spec fn created_writer(config: CreatedConfig) -> WriterView {
    WriterView {
        open: true,
        state: CaptureState::Created,
        config,
        event_ordinal: 1,
        event_count: 1,
        payload: 0,
        generation: 0,
        armed: None,
        trigger_mask: 0,
        assembling: None,
        pending: None,
        sources: 0,
        records: 0,
        type0: 0,
        type1: 0,
        type2: 0,
        gap_count: 0,
        last_gap: None,
        terminal_reason: None,
        abort_reason: None,
        last_timestamp: 0,
        events: seq![created_event(config)],
        kept: Seq::empty(),
        calls: seq![
            Call {
                action: Action::Write(
                    crate::capture_events::header_bytes() + crate::capture_events::event_bytes(created_event(config)),
                ),
                answer: Ok(0),
            },
            Call { action: Action::Flush, answer: Ok(0) },
        ],
    }
}

/// The time before the trigger is watched.
pub open spec fn checkpointed(w: WriterView, all: Seq<Call>) -> Outcome {
    match state_refusal(w, w.state == CaptureState::Created || w.state == CaptureState::Armed) {
        Some(e) => (w, Err(e)),
        None => {
            let (v, time) = clock_read(w, all);
            match time {
                Err(e) => output_given_up(v, e, all),
                Ok(now) => if now >= deadline_us(v) {
                    finalized_at(v, false, 267, now, all)
                } else {
                    (v, Ok(WriterDecision::Continue))
                },
            }
        },
    }
}

/// The body of the event that arms a capture.
#[verifier::opaque]
pub open spec fn armed_body(config: ArmedConfig) -> Seq<u8> {
    crate::wire::be16_bytes(config.committed.width) + crate::wire::be16_bytes(config.committed.height) + crate::wire::be16_bytes(
        config.requested.width,
    ) + crate::wire::be16_bytes(config.requested.height) + crate::wire::be16_bytes(1) + crate::wire::be16_bytes(1) + crate::wire::be32_bytes(3)
        + crate::wire::be64_bytes(0)
}

/// The event that arms a capture is in the sink: it is brought to the disk.
pub open spec fn armed_synced(w: WriterView, config: ArmedConfig, all: Seq<Call>) -> Outcome {
    let (w1, flushed) = asked(w, Action::Flush, all);
    if flushed is Err {
        finalized_now(w1, false, 259, all)
    } else {
        let (w2, synced) = asked(w1, Action::Sync, all);
        if synced is Err {
            finalized_now(w2, false, 259, all)
        } else {
            let (w3, time) = clock_read(w2, all);
            match time {
                Err(e) => given_up(w3, e, all),
                Ok(now) => if now >= deadline_us(w3) {
                    finalized_at(w3, false, 267, now, all)
                } else {
                    (
                        WriterView { armed: Some(config), state: CaptureState::Armed, ..w3 },
                        Ok(WriterDecision::Continue),
                    )
                },
            }
        }
    }
}

/// Whether a capture can be armed with these surfaces.
pub open spec fn armable(config: ArmedConfig) -> bool {
    &&& crate::mvs_capture_v2::geometry_of(config.committed.width, config.committed.height) is Ok
    &&& crate::mvs_capture_v2::geometry_of(config.requested.width, config.requested.height) is Ok
}

/// The capture is armed.
pub open spec fn armed(w: WriterView, config: ArmedConfig, all: Seq<Call>) -> Outcome {
    match state_refusal(w, w.state == CaptureState::Created) {
        Some(e) => (w, Err(e)),
        None => if !armable(config) {
            finalized_now(w, false, 266, all)
        } else {
            let (w1, time) = clock_read(w, all);
            match time {
                Err(e) => output_given_up(w1, e, all),
                Ok(timestamp_us) => if timestamp_us >= deadline_us(w1) {
                    finalized_at(w1, false, 267, timestamp_us, all)
                } else {
                    let (w2, done) = written(
                        w1,
                        EVENT_ARMED,
                        timestamp_us,
                        armed_body(config),
                        0,
                        all,
                    );
                    if done is Err {
                        finalized_now(w2, false, 259, all)
                    } else {
                        armed_synced(w2, config, all)
                    }
                },
            }
        },
    }
}

/// The trigger is about to be sent.
pub open spec fn trigger_begun(w: WriterView, all: Seq<Call>) -> Outcome {
    match state_refusal(w, w.state == CaptureState::Armed) {
        Some(e) => (w, Err(e)),
        None => {
            let (v, time) = clock_read(w, all);
            match time {
                Err(e) => given_up(v, e, all),
                Ok(now) => if now >= deadline_us(v) {
                    finalized_at(v, false, 267, now, all)
                } else {
                    (
                        WriterView { state: CaptureState::Triggering, ..v },
                        Ok(WriterDecision::Continue),
                    )
                },
            }
        },
    }
}

/// The part of the trigger that has to come next.
pub open spec fn next_trigger_bit(mask: u32) -> Option<u32> {
    if mask == 0 {
        Some(1)
    } else if mask == 1 {
        Some(2)
    } else if mask == 3 {
        Some(4)
    } else {
        None
    }
}

/// A part of the trigger was sent.
pub open spec fn trigger_written(w: WriterView, bit: u32, all: Seq<Call>) -> Outcome {
    match state_refusal(w, w.state == CaptureState::Triggering) {
        Some(e) => (w, Err(e)),
        None => match next_trigger_bit(w.trigger_mask) {
            None => (w, Err(VncError::Text("trigger 已完整"))),
            Some(expected) => if bit != expected {
                (w, Err(VncError::Text("trigger mask 顺序无效")))
            } else {
                let (v, time) = clock_read(
                    WriterView { trigger_mask: (w.trigger_mask + bit) as u32, ..w },
                    all,
                );
                match time {
                    Err(e) => given_up(v, e, all),
                    Ok(now) => if now >= deadline_us(v) {
                        finalized_at(v, false, 260, now, all)
                    } else {
                        (v, Ok(WriterDecision::Continue))
                    },
                }
            },
        },
    }
}

/// The trigger could not be sent.
pub open spec fn trigger_refused(w: WriterView, all: Seq<Call>) -> Outcome {
    match state_refusal(w, w.state == CaptureState::Triggering) {
        Some(e) => (w, Err(e)),
        None => finalized_now(w, false, 260, all),
    }
}

/// The body of the event that tells of the trigger.
#[verifier::opaque]
pub open spec fn triggered_body(requested: MvsCaptureV2Geometry) -> Seq<u8> {
    crate::wire::be16_bytes(requested.width) + crate::wire::be16_bytes(requested.height) + crate::wire::be32_bytes(7) + crate::wire::be64_bytes(0)
}

/// The event that tells of the trigger is in the sink: the one that opens the recording follows.
pub open spec fn recording_opened(w: WriterView, all: Seq<Call>) -> Outcome {
    let (w1, time) = clock_read(w, all);
    match time {
        Err(e) => given_up(w1, e, all),
        Ok(timestamp_us) => {
            let (w2, done) = written(w1, EVENT_RECORDING, timestamp_us, crate::wire::be64_bytes(0), 0, all);
            if done is Err {
                finalized_now(w2, false, 260, all)
            } else {
                let (w3, flushed) = asked(w2, Action::Flush, all);
                if flushed is Err {
                    finalized_now(w3, false, 260, all)
                } else {
                    let (w4, last) = clock_read(w3, all);
                    match last {
                        Err(e) => given_up(w4, e, all),
                        Ok(now) => if now >= deadline_us(w4) {
                            finalized_at(w4, false, 260, now, all)
                        } else {
                            (
                                WriterView { state: CaptureState::Recording, ..w4 },
                                Ok(WriterDecision::Continue),
                            )
                        },
                    }
                }
            }
        },
    }
}

/// The recording begins.
pub open spec fn gate_written(w: WriterView, all: Seq<Call>) -> Outcome {
    match state_refusal(w, w.state == CaptureState::Triggering) {
        Some(e) => (w, Err(e)),
        None => if w.trigger_mask != 7 {
            (w, Err(VncError::Text("trigger mask 尚未完整")))
        } else if w.armed is None {
            (w, Err(VncError::Text("缺少 Armed 配置")))
        } else {
            let (w1, time) = clock_read(w, all);
            match time {
                Err(e) => given_up(w1, e, all),
                Ok(timestamp_us) => if timestamp_us >= deadline_us(w1) {
                    finalized_at(w1, false, 260, timestamp_us, all)
                } else {
                    let (w2, done) = written(
                        w1,
                        EVENT_TRIGGERED,
                        timestamp_us,
                        triggered_body((w.armed->0).requested),
                        0,
                        all,
                    );
                    if done is Err {
                        finalized_now(w2, false, 260, all)
                    } else {
                        let (w3, after) = clock_read(w2, all);
                        match after {
                            Err(e) => given_up(w3, e, all),
                            Ok(now) => if now >= deadline_us(w3) {
                                finalized_at(w3, false, 260, now, all)
                            } else {
                                recording_opened(w3, all)
                            },
                        }
                    }
                },
            }
        },
    }
}

/// A frame came that holds no record.
pub open spec fn non_mvs_accepted(w: WriterView, all: Seq<Call>) -> Outcome {
    match state_refusal(w, w.state == CaptureState::Recording) {
        Some(e) => (w, Err(e)),
        None => clocked_after_frame(w, all),
    }
}

/// The number of the frame that just came is taken.
pub open spec fn numbered(w: WriterView) -> (WriterView, Result<u64, VncError>) {
    if w.sources == u64::MAX {
        (w, Err(VncError::Text("MVS source ordinal 溢出")))
    } else {
        (WriterView { sources: (w.sources + 1) as u64, ..w }, Ok(w.sources))
    }
}

/// A frame came whose record could not be recognised.
pub open spec fn envelope_rejected(w: WriterView, rect: Option<MvsRect>, all: Seq<Call>) -> Outcome {
    match state_refusal(w, w.state == CaptureState::Recording) {
        Some(e) => (w, Err(e)),
        None => match numbered(w) {
            (v, Err(e)) => given_up(v, e, all),
            (v, Ok(ordinal)) => gap_emitted(
                v,
                gap_view(
                    1,
                    ordinal,
                    ordinal,
                    0,
                    0,
                    match rect {
                        Some(rect) => rect,
                        None => crate::mvs_capture_v2::empty_rect(),
                    },
                ),
                262,
                all,
            ),
        },
    }
}

/// The first chunk of a record that is taken.
pub open spec fn chunk_begun(
    w: WriterView,
    ordinal: u64,
    rect: MvsRect,
    total: u32,
    first: Seq<u8>,
    all: Seq<Call>,
) -> Outcome {
    let (v, time) = clock_read(w, all);
    match time {
        Err(e) => given_up(v, e, all),
        Ok(started_at) => {
            let (assembling, answer) = crate::mvs_stream::begun(v.assembling, rect, total, first);
            let x = WriterView { assembling, ..v };
            match answer {
                Err(e) => given_up(x, e, all),
                Ok(Some(record)) => completed(x, ordinal, ordinal, record, all),
                Ok(None) => after_frame(
                    WriterView {
                        pending: Some(
                            PendingProvenance {
                                first: ordinal,
                                last: ordinal,
                                total,
                                accepted: first.len() as u32,
                                rect,
                                started_at,
                            },
                        ),
                        ..x
                    },
                    started_at,
                    all,
                ),
            }
        },
    }
}

/// A frame came with the first chunk of a record.
pub open spec fn begin_accepted(
    w: WriterView,
    rect: MvsRect,
    total: u32,
    first: Seq<u8>,
    all: Seq<Call>,
) -> Outcome {
    match state_refusal(w, w.state == CaptureState::Recording) {
        Some(e) => (w, Err(e)),
        None => match numbered(w) {
            (v, Err(e)) => given_up(v, e, all),
            (v, Ok(ordinal)) => if v.pending is Some {
                gap_emitted(v, pending_gap_view(v.pending->0, 10, ordinal), 262, all)
            } else if total == 0 || total > MVS_CAPTURE_V2_MAX_PAYLOAD {
                gap_emitted(v, gap_view(2, ordinal, ordinal, total, 0, rect), 262, all)
            } else if first.len() > total {
                gap_emitted(v, gap_view(3, ordinal, ordinal, total, 0, rect), 262, all)
            } else if v.payload + total > MVS_CAPTURE_V2_MAX_CUMULATIVE_PAYLOAD {
                gap_emitted(v, gap_view(11, ordinal, ordinal, total, 0, rect), 262, all)
            } else {
                chunk_begun(v, ordinal, rect, total, first, all)
            },
        },
    }
}

/// A frame came with a further chunk of a record.
pub open spec fn continuation_accepted(w: WriterView, chunk: Seq<u8>, all: Seq<Call>) -> Outcome {
    match state_refusal(w, w.state == CaptureState::Recording) {
        Some(e) => (w, Err(e)),
        None => match numbered(w) {
            (v, Err(e)) => given_up(v, e, all),
            (v, Ok(ordinal)) => match v.pending {
                None => gap_emitted(v, gap_view(9, ordinal, ordinal, 0, 0, crate::mvs_capture_v2::empty_rect()), 262, all),
                Some(p) => if chunk.len() > p.total - p.accepted {
                    gap_emitted(v, pending_gap_view(p, 4, ordinal), 262, all)
                } else {
                    let (assembling, answer) = crate::mvs_stream::continued(v.assembling, chunk);
                    let x = WriterView { assembling, ..v };
                    match answer {
                        Err(e) => given_up(x, e, all),
                        Ok(Some(record)) => completed(
                            WriterView { pending: None, ..x },
                            p.first,
                            ordinal,
                            record,
                            all,
                        ),
                        Ok(None) => clocked_after_frame(
                            WriterView {
                                pending: Some(
                                    PendingProvenance {
                                        last: ordinal,
                                        accepted: (p.accepted + chunk.len()) as u32,
                                        ..p
                                    },
                                ),
                                ..x
                            },
                            all,
                        ),
                    }
                },
            },
        },
    }
}

/// The time of the recording is watched.
pub open spec fn polled(w: WriterView, all: Seq<Call>) -> Outcome {
    match state_refusal(w, w.state == CaptureState::Recording) {
        Some(e) => (w, Err(e)),
        None => {
            let (v, time) = clock_read(w, all);
            match time {
                Err(e) => given_up(v, e, all),
                Ok(now) => if now >= deadline_us(v) {
                    over_at(v, now, all)
                } else if pending_expired_at(v, now) {
                    pending_given_up(v, 5, 262, all)
                } else {
                    (v, Ok(WriterDecision::Continue))
                },
            }
        },
    }
}

/// Nothing more could be read.
pub open spec fn read_refused(w: WriterView, all: Seq<Call>) -> Outcome {
    match state_refusal(w, w.state == CaptureState::Recording) {
        Some(e) => (w, Err(e)),
        None => {
            let (v, time) = clock_read(w, all);
            match time {
                Err(e) => given_up(v, e, all),
                Ok(now) => if now >= deadline_us(v) {
                    over_at(v, now, all)
                } else if pending_expired_at(v, now) {
                    pending_given_up(v, 5, 262, all)
                } else if v.pending is Some {
                    pending_given_up(v, 7, 261, all)
                } else {
                    finalized_now(v, false, 261, all)
                },
            }
        },
    }
}

/// The surface is about to change.
pub open spec fn transition_attempted(w: WriterView, all: Seq<Call>) -> Outcome {
    match state_refusal(w, w.state == CaptureState::Recording) {
        Some(e) => (w, Err(e)),
        None => if w.pending is Some {
            pending_given_up(w, 8, 266, all)
        } else {
            finalized_now(w, false, 266, all)
        },
    }
}

/// The operator wants no more.
pub open spec fn cancelled(w: WriterView, all: Seq<Call>) -> Outcome {
    match state_refusal(w, ongoing(w.state)) {
        Some(e) => (w, Err(e)),
        None => if w.state == CaptureState::Recording && w.pending is Some {
            pending_given_up(w, 12, 265, all)
        } else {
            finalized_now(w, false, 265, all)
        },
    }
}

/// What had to precede the capture failed.
pub open spec fn created_failed(w: WriterView, reason: u16, all: Seq<Call>) -> Outcome {
    match state_refusal(w, w.state == CaptureState::Created) {
        Some(e) => (w, Err(e)),
        None => {
            let (v, time) = clock_read(w, all);
            match time {
                Err(e) => output_given_up(v, e, all),
                Ok(now) => finalized_at(
                    v,
                    false,
                    if now >= deadline_us(v) {
                        267
                    } else {
                        reason
                    },
                    now,
                    all,
                ),
            }
        },
    }
}

/// The time before the trigger is over.
pub open spec fn pre_trigger_over(w: WriterView, all: Seq<Call>) -> Outcome {
    match state_refusal(w, w.state == CaptureState::Created) {
        Some(e) => (w, Err(e)),
        None => finalized_now(w, false, 267, all),
    }
}

/// The output of the capture failed.
pub open spec fn output_refused(w: WriterView, all: Seq<Call>) -> Outcome {
    if !ongoing(w.state) {
        (w, Err(VncError::Text("capture 已进入终态")))
    } else if !w.open {
        (w, Err(VncError::Text("capture sink 已被消费")))
    } else if w.state == CaptureState::Triggering {
        finalized_now(w, false, 260, all)
    } else {
        finalized_now(w, false, 264, all)
    }
}

} // verus!
