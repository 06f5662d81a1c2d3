//! Writing a capture file, event by event, until it ends.

use vstd::prelude::*;
use crate::capture_events::{capture_header, encode_event, Event, EVENT_ABORTED, EVENT_ARMED};
use crate::capture_events::{EVENT_CLEAN, EVENT_CREATED, EVENT_GAP, EVENT_RECORD, EVENT_RECORDING};
use crate::capture_events::{EVENT_TRIGGERED, MVS_CAPTURE_V2_MAX_CUMULATIVE_PAYLOAD};
use crate::capture_events::{MVS_CAPTURE_V2_MAX_EVENTS, MVS_CAPTURE_V2_MAX_PAYLOAD};
use crate::capture_events::MVS_CAPTURE_V2_MAX_RECORDS;
use crate::capture_reader::is_deadline_allowed;
use crate::capture_writer_model;
use crate::capture_writer_model::{Action, ArmedConfig, Call, CaptureState, CreatedConfig};
use crate::capture_writer_model::{PendingProvenance, WriterDecision, WriterView};
use crate::capture_writer_model::INCOMPLETE_RECORD_MICROS;
use crate::error::VncError;
use crate::mvs_capture_v2::{gap_stage, geometry, is_empty_rect, CaptureRecordView};
use crate::mvs_capture_v2::{MvsCaptureV2Gap, MvsCaptureV2Geometry};
use crate::mvs_full::MAX_MVS_DECODE_PIXELS;
use crate::mvs_stream::{MvsRecord, MvsRecordAssembler, MvsRect};
use crate::wire::{push_be16, push_be32, push_be64, push_bytes};

verus! {

/// A point in time, as the system counts it.
#[verifier::external_type_specification]
#[verifier::external_body]
pub struct ExInstant(std::time::Instant);

/// Tells how much time has passed since the capture began.
pub trait CaptureClock {
    /// Whether the clock has given this answer. A clock that keeps no account of its answers says
    /// so of all.
    open spec fn told(&self, answer: Result<u64, VncError>) -> bool {
        true
    }

    fn elapsed_micros(&self) -> (r: Result<u64, VncError>)
        ensures
            self.told(r),
    ;
}

/// Takes the bytes of a capture file.
pub trait CaptureSink: Sized {
    type File: CaptureFinalFile;

    /// Whether this request was made of this sink, was answered so and left it like this. A sink
    /// that keeps no account of its requests says so of all; the writer takes nothing of it for
    /// granted that it has not asked.
    open spec fn did(self, call: Call, after: Self) -> bool {
        true
    }

    /// Whether this sink was closed, with this answer, and left this file.
    open spec fn closed(self, call: Call, file: Self::File) -> bool {
        true
    }

    fn write_all(&mut self, bytes: &[u8]) -> (r: Result<(), VncError>)
        ensures
            old(self).did(plain_call(Action::Write(bytes@), r), *final(self)),
    ;

    fn flush(&mut self) -> (r: Result<(), VncError>)
        ensures
            old(self).did(plain_call(Action::Flush, r), *final(self)),
    ;

    fn sync_data(&mut self) -> (r: Result<(), VncError>)
        ensures
            old(self).did(plain_call(Action::Sync, r), *final(self)),
    ;

    fn into_final_file(self) -> (r: CaptureIntoInnerResult<Self::File>)
        ensures
            self.closed(closing_call(r), left_file(r)),
    ;
}

/// The file behind a sink that takes no more bytes.
pub trait CaptureFinalFile: Sized {
    /// Whether this request was made of this file, was answered so and left it like this.
    open spec fn did(self, call: Call, after: Self) -> bool {
        true
    }

    /// Whether this file was released, with this answer.
    open spec fn released(self, call: Call) -> bool {
        true
    }

    fn sync_data(&mut self) -> (r: Result<(), VncError>)
        ensures
            old(self).did(plain_call(Action::SyncFile, r), *final(self)),
    ;

    fn relinquish(self) -> (r: Result<(), VncError>)
        ensures
            self.released(plain_call(Action::Release, r)),
    ;
}

/// A request whose answer has no value.
pub open spec fn plain_call(action: Action, r: Result<(), VncError>) -> Call {
    Call { action, answer: capture_writer_model::valueless(r) }
}

/// The request that closes a sink.
pub open spec fn closing_call<F>(r: CaptureIntoInnerResult<F>) -> Call {
    Call {
        action: Action::Close,
        answer: match r {
            CaptureIntoInnerResult::Ready(_) => Ok(0),
            CaptureIntoInnerResult::FlushFailed { error, file: _ } => Err(error),
        },
    }
}

/// The file that a sink left.
pub open spec fn left_file<F>(r: CaptureIntoInnerResult<F>) -> F {
    match r {
        CaptureIntoInnerResult::Ready(file) => file,
        CaptureIntoInnerResult::FlushFailed { error: _, file } => file,
    }
}

/// What there is of the output of a capture.
pub enum Output<S, F> {
    Sink(S),
    File(F),
    Gone,
}

/// Whether this request was made of the output, was answered so and left it like this. A sink is
/// closed before its file is asked anything, and nothing is asked of a file that was released.
pub open spec fn asked_of<S: CaptureSink>(
    from: Output<S, S::File>,
    call: Call,
    to: Output<S, S::File>,
) -> bool {
    match (from, call.action, to) {
        (Output::Sink(s), Action::Write(_), Output::Sink(t)) => s.did(call, t),
        (Output::Sink(s), Action::Flush, Output::Sink(t)) => s.did(call, t),
        (Output::Sink(s), Action::Sync, Output::Sink(t)) => s.did(call, t),
        (Output::Sink(s), Action::Close, Output::File(f)) => s.closed(call, f),
        (Output::File(f), Action::SyncFile, Output::File(g)) => f.did(call, g),
        (Output::File(f), Action::Release, Output::Gone) => f.released(call),
        _ => false,
    }
}

/// Whether the requests were made one behind the other, of the clock or of an output that was
/// `start` at first and became `end`, and were answered so.
pub open spec fn made<S: CaptureSink, C: CaptureClock>(
    clock: C,
    start: S,
    calls: Seq<Call>,
    end: Output<S, S::File>,
) -> bool
    decreases calls.len(),
{
    if calls.len() == 0 {
        end == Output::<S, S::File>::Sink(start)
    } else if calls.last().action is ReadClock {
        clock.told(calls.last().answer) && made(clock, start, calls.drop_last(), end)
    } else {
        exists|mid: Output<S, S::File>|
            made(clock, start, calls.drop_last(), mid) && #[trigger] asked_of(
                mid,
                calls.last(),
                end,
            )
    }
}

/// Whether the requests are those that were made, and the sink, as long as there is one, is what
/// they left.
#[verifier::opaque]
pub open spec fn vouched<S: CaptureSink, C: CaptureClock>(
    sink: Option<S>,
    clock: C,
    start: S,
    calls: Seq<Call>,
) -> bool {
    match sink {
        Some(s) => made(clock, start, calls, Output::Sink(s)),
        None => exists|end: Output<S, S::File>| #[trigger] made(clock, start, calls, end),
    }
}

/// The clock was read.
proof fn lemma_clock_made<S: CaptureSink, C: CaptureClock>(
    clock: C,
    start: S,
    calls: Seq<Call>,
    answer: Result<u64, VncError>,
    end: Output<S, S::File>,
)
    requires
        made(clock, start, calls, end),
        clock.told(answer),
    ensures
        made(clock, start, calls.push(Call { action: Action::ReadClock, answer }), end),
{
    assert(calls.push(Call { action: Action::ReadClock, answer }).drop_last() =~= calls);
}

/// The clock was read.
proof fn lemma_vouched_clock<S: CaptureSink, C: CaptureClock>(
    sink: Option<S>,
    clock: C,
    start: S,
    calls: Seq<Call>,
    answer: Result<u64, VncError>,
)
    requires
        vouched(sink, clock, start, calls),
        clock.told(answer),
    ensures
        vouched(sink, clock, start, calls.push(Call { action: Action::ReadClock, answer })),
{
    reveal(vouched);
    let end = match sink {
        Some(s) => Output::Sink(s),
        None => choose|end: Output<S, S::File>| #[trigger] made(clock, start, calls, end),
    };
    lemma_clock_made(clock, start, calls, answer, end);
}

/// The output was asked.
proof fn lemma_asked_made<S: CaptureSink, C: CaptureClock>(
    clock: C,
    start: S,
    calls: Seq<Call>,
    from: Output<S, S::File>,
    call: Call,
    to: Output<S, S::File>,
)
    requires
        made(clock, start, calls, from),
        asked_of(from, call, to),
    ensures
        made(clock, start, calls.push(call), to),
        vouched(None, clock, start, calls.push(call)),
{
    reveal(vouched);
    assert(calls.push(call).drop_last() =~= calls);
}

/// The file that a sink leaves, and the failure of its last flush where it failed.
pub enum CaptureIntoInnerResult<F> {
    Ready(F),
    FlushFailed { error: VncError, file: F },
}

/// Writes a capture.
pub struct MvsCaptureV2Writer<S: CaptureSink, C: CaptureClock> {
    pub sink: Option<S>,
    pub clock: C,
    pub state: CaptureState,
    pub config: CreatedConfig,
    pub event_ordinal: u64,
    pub event_count: usize,
    pub cumulative_payload: usize,
    pub generation: u64,
    pub armed: Option<ArmedConfig>,
    pub trigger_mask: u32,
    pub assembler: MvsRecordAssembler,
    pub pending: Option<PendingProvenance>,
    pub source_frame_count: u64,
    pub record_count: u64,
    pub type_counts: [u64; 3],
    pub gap_count: u32,
    pub last_gap: Option<MvsCaptureV2Gap>,
    pub selected_terminal_reason: Option<u16>,
    pub selected_abort_reason: Option<u16>,
    pub last_timestamp_us: u64,
    pub absolute_deadline: Option<std::time::Instant>,
    pub events: Ghost<Seq<Event>>,
    pub kept: Ghost<Seq<CaptureRecordView>>,
    pub calls: Ghost<Seq<Call>>,
    pub start: Ghost<S>,
}

impl<S: CaptureSink, C: CaptureClock> View for MvsCaptureV2Writer<S, C> {
    type V = WriterView;

    open spec fn view(&self) -> WriterView {
        WriterView {
            open: self.sink is Some,
            state: self.state,
            config: self.config,
            event_ordinal: self.event_ordinal,
            event_count: self.event_count,
            payload: self.cumulative_payload,
            generation: self.generation,
            armed: self.armed,
            trigger_mask: self.trigger_mask,
            assembling: self.assembler@,
            pending: self.pending,
            sources: self.source_frame_count,
            records: self.record_count,
            type0: self.type_counts[0],
            type1: self.type_counts[1],
            type2: self.type_counts[2],
            gap_count: self.gap_count,
            last_gap: self.last_gap,
            terminal_reason: self.selected_terminal_reason,
            abort_reason: self.selected_abort_reason,
            last_timestamp: self.last_timestamp_us,
            events: self.events@,
            kept: self.kept@,
            calls: self.calls@,
        }
    }
}

/// Accepts limits that a capture may be created with.
pub fn validate_created_config(config: CreatedConfig) -> (r: Result<(), VncError>)
    ensures
        r == crate::error::checked(capture_writer_model::config_refusal(config)),
{
    if !is_deadline_allowed(config.deadline_ms) {
        return Err(VncError::Text("V2 Created deadline 无效"));
    }
    if config.record_limit < 1 || config.record_limit > MVS_CAPTURE_V2_MAX_RECORDS as u32 {
        return Err(VncError::Text("V2 Created record limit 无效"));
    }
    Ok(())
}

/// A gap, with the step of the capture in which its reason arises.
fn gap(
    reason: u16,
    first: u64,
    last: u64,
    declared_total: u32,
    accumulated_bytes: u32,
    rect: MvsRect,
) -> (r: MvsCaptureV2Gap)
    ensures
        r == capture_writer_model::gap_view(
            reason,
            first,
            last,
            declared_total,
            accumulated_bytes,
            rect,
        ),
{
    let stage: u16 = match gap_stage(reason) {
        Ok(stage) => stage,
        Err(_) => 0,
    };
    MvsCaptureV2Gap {
        reason,
        stage,
        first_source_frame_ordinal: first,
        last_source_frame_ordinal: last,
        declared_total,
        accumulated_bytes,
        rect,
    }
}

/// The rectangle that covers nothing.
fn zero_rect() -> (r: MvsRect)
    ensures
        r == crate::mvs_capture_v2::empty_rect(),
{
    MvsRect { x: 0, y: 0, width: 0, height: 0 }
}

/// Accepts a surface size that is not empty and within the budget.
pub fn validate_geometry(size: MvsCaptureV2Geometry) -> (r: Result<(), VncError>)
    ensures
        r == (match crate::mvs_capture_v2::geometry_of(size.width, size.height) {
            Ok(_) => Ok(()),
            Err(e) => Err(e),
        }),
{
    match geometry(size.width, size.height) {
        Ok(_) => Ok(()),
        Err(e) => Err(e),
    }
}

fn push_rect(out: &mut Vec<u8>, rect: MvsRect)
    ensures
        final(out)@ == old(out)@ + capture_writer_model::rect_bytes(rect),
{
    push_be16(out, rect.x);
    push_be16(out, rect.y);
    push_be16(out, rect.width);
    push_be16(out, rect.height);
    assert(out@ =~= old(out)@ + capture_writer_model::rect_bytes(rect));
}

fn created_body(config: CreatedConfig) -> (r: Vec<u8>)
    ensures
        r@ == capture_writer_model::created_body(config),
        r@.len() == 16,
{
    reveal(capture_writer_model::created_body);
    let mut body: Vec<u8> = Vec::with_capacity(16);
    push_be32(&mut body, config.deadline_ms);
    push_be32(&mut body, config.record_limit);
    push_be16(&mut body, 1);
    push_be16(&mut body, 1);
    push_be32(&mut body, 0);
    assert(body@ =~= capture_writer_model::created_body(config));
    body
}

fn armed_body(config: ArmedConfig) -> (r: Vec<u8>)
    ensures
        r@ == capture_writer_model::armed_body(config),
        r@.len() == 24,
{
    reveal(capture_writer_model::armed_body);
    let mut body: Vec<u8> = Vec::with_capacity(24);
    push_be16(&mut body, config.committed.width);
    push_be16(&mut body, config.committed.height);
    push_be16(&mut body, config.requested.width);
    push_be16(&mut body, config.requested.height);
    push_be16(&mut body, 1);
    push_be16(&mut body, 1);
    push_be32(&mut body, 3);
    push_be64(&mut body, 0);
    assert(body@ =~= capture_writer_model::armed_body(config));
    body
}

fn triggered_body(requested: MvsCaptureV2Geometry) -> (r: Vec<u8>)
    ensures
        r@ == capture_writer_model::triggered_body(requested),
        r@.len() == 16,
{
    reveal(capture_writer_model::triggered_body);
    let mut body: Vec<u8> = Vec::with_capacity(16);
    push_be16(&mut body, requested.width);
    push_be16(&mut body, requested.height);
    push_be32(&mut body, 7);
    push_be64(&mut body, 0);
    assert(body@ =~= capture_writer_model::triggered_body(requested));
    body
}

fn gap_body(g: &MvsCaptureV2Gap) -> (r: Vec<u8>)
    ensures
        r@ == capture_writer_model::gap_body(*g),
        r@.len() == 40,
{
    reveal(capture_writer_model::gap_body);
    let mut body: Vec<u8> = Vec::with_capacity(40);
    push_be16(&mut body, g.reason);
    push_be16(&mut body, g.stage);
    push_be32(&mut body, 1);
    push_be64(&mut body, g.first_source_frame_ordinal);
    push_be64(&mut body, g.last_source_frame_ordinal);
    push_be32(&mut body, g.declared_total);
    push_be32(&mut body, g.accumulated_bytes);
    push_rect(&mut body, g.rect);
    assert(body@ =~= capture_writer_model::gap_body(*g));
    body
}

fn record_body(first: u64, last: u64, record: &MvsRecord) -> (r: Vec<u8>)
    requires
        record@.payload.len() <= MVS_CAPTURE_V2_MAX_PAYLOAD,
    ensures
        r@ == capture_writer_model::record_body(first, last, record@),
        r@.len() == 28 + record@.payload.len(),
{
    reveal(capture_writer_model::record_body);
    let mut body: Vec<u8> = Vec::new();
    push_be64(&mut body, first);
    push_be64(&mut body, last);
    push_rect(&mut body, record.rect);
    push_be32(&mut body, record.payload.len() as u32);
    push_bytes(&mut body, record.payload.as_slice());
    assert(body@ =~= capture_writer_model::record_body(first, last, record@));
    body
}

/// The first bytes of a capture with this configuration.
pub open spec fn first_write(config: CreatedConfig) -> Action {
    Action::Write(
        crate::capture_events::header_bytes() + crate::capture_events::event_bytes(
            capture_writer_model::created_event(config),
        ),
    )
}

/// Whether a capture was not created because this sink did not take its first bytes, or took them
/// and could not be flushed.
pub open spec fn creation_refused<S: CaptureSink>(sink: S, config: CreatedConfig, e: VncError) -> bool {
    ||| exists|cause: VncError, after: S|
        e == crate::error::within("写入 FRDMVS02 Header + Created", cause) && #[trigger] sink.did(
            Call { action: first_write(config), answer: Err(cause) },
            after,
        )
    ||| exists|cause: VncError, full: S, after: S|
        e == crate::error::within("flush FRDMVS02 Created", cause) && #[trigger] sink.did(
            Call { action: first_write(config), answer: Ok(0) },
            full,
        ) && #[trigger] full.did(Call { action: Action::Flush, answer: Err(cause) }, after)
}

impl<S: CaptureSink, C: CaptureClock> MvsCaptureV2Writer<S, C> {
    /// The counters are within their limits, what is known of the unfinished record agrees with its
    /// bytes, and the requests are those that were made.
    pub open spec fn in_order(self) -> bool {
        &&& self.event_ordinal <= self.event_count <= MVS_CAPTURE_V2_MAX_EVENTS
        &&& self.cumulative_payload <= MVS_CAPTURE_V2_MAX_CUMULATIVE_PAYLOAD
        &&& self.type_counts[0] <= self.record_count
        &&& self.type_counts[1] <= self.record_count
        &&& self.type_counts[2] <= self.record_count
        &&& self.assembler.wf()
        &&& match (self.pending, self.assembler@) {
            (None, None) => true,
            (Some(p), Some(a)) => p.total == a.total && p.accepted == a.received.len(),
            _ => false,
        }
        &&& vouched(self.sink, self.clock, self.start@, self.calls@)
    }

    /// All is in order, and the events are as many as the state of the capture says.
    pub open spec fn wf(self) -> bool {
        &&& self.in_order()
        &&& capture_writer_model::counted(self@)
    }

    /// Whether an operation can go on to end the capture.
    pub open spec fn live(self) -> bool {
        &&& self.in_order()
        &&& self.sink is Some
    }

    /// Whether this writer is `earlier`, later.
    pub open spec fn continues(self, earlier: Self) -> bool {
        &&& self.absolute_deadline == earlier.absolute_deadline
        &&& self.start == earlier.start
        &&& self.clock == earlier.clock
    }

    /// Whether the capture stands where `earlier` stood, with as many events and records.
    spec fn tallies(self, earlier: Self) -> bool {
        &&& self.state == earlier.state
        &&& self.event_count == earlier.event_count
        &&& self.record_count == earlier.record_count
    }

    /// Begins a capture: writes the header and the first event, and flushes them.
    pub fn new(sink: S, clock: C, config: CreatedConfig) -> (r: Result<Self, VncError>)
        ensures
            match capture_writer_model::config_refusal(config) {
                Some(e) => r == Err::<Self, VncError>(e),
                None => match r {
                    Ok(w) => w.wf() && w.sink is Some && w.clock == clock && w.start@
                        == sink && w.absolute_deadline is None && w@
                        == capture_writer_model::created_writer(config),
                    Err(e) => creation_refused(sink, config, e),
                },
            },
    {
        validate_created_config(config)?;
        Self::new_validated(sink, clock, config, None)
    }

    /// Begins a capture that is over at a known point in time, where there is such a point.
    pub fn new_with_deadline(
        sink: S,
        clock: C,
        config: CreatedConfig,
        deadline: Option<std::time::Instant>,
    ) -> (r: Result<Self, VncError>)
        ensures
            match capture_writer_model::config_refusal(config) {
                Some(e) => r == Err::<Self, VncError>(e),
                None => if deadline is None {
                    r == Err::<Self, VncError>(VncError::Text("capture absolute deadline 溢出"))
                } else {
                    match r {
                        Ok(w) => w.wf() && w.sink is Some && w.clock == clock && w.start@
                            == sink && w.absolute_deadline == deadline && w@
                            == capture_writer_model::created_writer(config),
                        Err(e) => creation_refused(sink, config, e),
                    }
                },
            },
    {
        validate_created_config(config)?;
        if deadline.is_none() {
            return Err(VncError::Text("capture absolute deadline 溢出"));
        }
        Self::new_validated(sink, clock, config, deadline)
    }

    fn new_validated(
        sink: S,
        clock: C,
        config: CreatedConfig,
        absolute_deadline: Option<std::time::Instant>,
    ) -> (r: Result<Self, VncError>)
        ensures
            match r {
                Ok(w) => w.wf() && w.sink is Some && w.clock == clock && w.start@ == sink
                    && w.absolute_deadline == absolute_deadline && w@
                    == capture_writer_model::created_writer(config),
                Err(e) => creation_refused(sink, config, e),
            },
    {
        let ghost start = sink;
        let mut sink = sink;
        let body = created_body(config);
        let created = encode_event(EVENT_CREATED, 0, 0, 0, body.as_slice())?;
        let mut bytes = capture_header();
        push_bytes(&mut bytes, created.as_slice());
        let written = sink.write_all(bytes.as_slice());
        let ghost full = sink;
        let ghost first = plain_call(Action::Write(bytes@), written);
        if let Err(cause) = written {
            assert(first == (Call { action: first_write(config), answer: Err(cause) }));
            return Err(
                VncError::Context { text: "写入 FRDMVS02 Header + Created", cause: Box::new(cause) },
            );
        }
        let flushed = sink.flush();
        let ghost second = plain_call(Action::Flush, flushed);
        if let Err(cause) = flushed {
            assert(second == (Call { action: Action::Flush, answer: Err(cause) }));
            assert(first == (Call { action: first_write(config), answer: Ok(0) }));
            return Err(VncError::Context { text: "flush FRDMVS02 Created", cause: Box::new(cause) });
        }
        let ghost none = Seq::<Call>::empty();
        proof {
            reveal(vouched);
            lemma_asked_made(clock, start, none, Output::Sink(start), first, Output::Sink(full));
            lemma_asked_made(
                clock,
                start,
                none.push(first),
                Output::Sink(full),
                second,
                Output::Sink(sink),
            );
        }
        let writer = MvsCaptureV2Writer {
            sink: Some(sink),
            clock,
            state: CaptureState::Created,
            config,
            event_ordinal: 1,
            event_count: 1,
            cumulative_payload: 0,
            generation: 0,
            armed: None,
            trigger_mask: 0,
            assembler: MvsRecordAssembler { pending: None },
            pending: None,
            source_frame_count: 0,
            record_count: 0,
            type_counts: [0, 0, 0],
            gap_count: 0,
            last_gap: None,
            selected_terminal_reason: None,
            selected_abort_reason: None,
            last_timestamp_us: 0,
            absolute_deadline,
            events: Ghost(capture_writer_model::created_writer(config).events),
            kept: Ghost(Seq::empty()),
            calls: Ghost(none.push(first).push(second)),
            start: Ghost(start),
        };
        assert(writer@.calls =~= capture_writer_model::created_writer(config).calls);
        assert(writer@ =~= capture_writer_model::created_writer(config));
        Ok(writer)
    }

    /// Where the capture stands.
    pub fn state(&self) -> (r: CaptureState)
        ensures
            r == self@.state,
    {
        self.state
    }

    /// The reason for which the capture was given up.
    pub fn selected_abort_reason(&self) -> (r: Option<u16>)
        ensures
            r == self@.abort_reason,
    {
        self.selected_abort_reason
    }

    /// The reason for which the capture ended.
    pub fn selected_terminal_reason(&self) -> (r: Option<u16>)
        ensures
            r == self@.terminal_reason,
    {
        self.selected_terminal_reason
    }

    /// The number of gaps.
    pub fn gap_count(&self) -> (r: u32)
        ensures
            r == self@.gap_count,
    {
        self.gap_count
    }

    /// The gap.
    pub fn last_gap(&self) -> (r: Option<&MvsCaptureV2Gap>)
        ensures
            match self@.last_gap {
                None => r is None,
                Some(gap) => r matches Some(g) && *g == gap,
            },
    {
        match &self.last_gap {
            Some(gap) => Some(gap),
            None => None,
        }
    }

    /// The point in time at which the capture is over.
    pub fn absolute_deadline(&self) -> (r: Result<std::time::Instant, VncError>)
        ensures
            r == (match self.absolute_deadline {
                Some(deadline) => Ok(deadline),
                None => Err(VncError::Text("capture absolute deadline 不可用")),
            }),
    {
        match self.absolute_deadline {
            Some(deadline) => Ok(deadline),
            None => Err(VncError::Text("capture absolute deadline 不可用")),
        }
    }

    fn now(&mut self) -> (r: Result<u64, VncError>)
        requires
            old(self).in_order(),
        ensures
            final(self).in_order(),
            final(self).continues(*old(self)),
            final(self).tallies(*old(self)),
            final(self).live() == old(self).live(),
            final(self).selected_terminal_reason == old(self).selected_terminal_reason,
            final(self).pending == old(self).pending,
            capture_writer_model::extends(final(self)@.calls, old(self)@.calls),
            forall|all: Seq<Call>|
                capture_writer_model::extends(all, final(self)@.calls)
                    ==> #[trigger] capture_writer_model::clock_read(old(self)@, all) == (
                    final(self)@,
                    r,
                ),
    {
        let answer = self.clock.elapsed_micros();
        proof {
            lemma_vouched_clock(self.sink, self.clock, self.start@, self.calls@, answer);
        }
        self.calls = Ghost(self.calls@.push(Call { action: Action::ReadClock, answer }));
        let now: u64 = answer?;
        if now < self.last_timestamp_us {
            return Err(VncError::Text("capture clock 倒退"));
        }
        self.last_timestamp_us = now;
        Ok(now)
    }

    fn preflight_events(&self, slots: usize) -> (r: Result<(), VncError>)
        ensures
            r == crate::error::checked(
                capture_writer_model::preflight_refusal(self@, slots as int),
            ),
    {
        let next: usize = match self.event_count.checked_add(slots) {
            Some(next) => next,
            None => {
                return Err(VncError::Text("V2 event 计数溢出"));
            },
        };
        if next > MVS_CAPTURE_V2_MAX_EVENTS {
            return Err(VncError::Text("V2 event 数量超过上限"));
        }
        Ok(())
    }

    fn deadline_micros(&self) -> (r: u64)
        ensures
            r == capture_writer_model::deadline_us(self@),
    {
        self.config.deadline_ms as u64 * 1_000
    }

    /// Whether the requests are those that were made, and left `output`.
    spec fn left(self, output: Output<S, S::File>) -> bool {
        made(self.clock, self.start@, self.calls@, output)
    }

    /// Notes a request that was made of the output, which is held back.
    fn note(
        &mut self,
        Ghost(from): Ghost<Output<S, S::File>>,
        Ghost(call): Ghost<Call>,
        Ghost(to): Ghost<Output<S, S::File>>,
    )
        requires
            old(self).in_order(),
            old(self).sink is None,
            old(self).left(from),
            asked_of(from, call, to),
        ensures
            *final(self) == (MvsCaptureV2Writer {
                calls: Ghost(old(self).calls@.push(call)),
                ..*old(self)
            }),
            final(self).in_order(),
            final(self).left(to),
    {
        proof {
            lemma_asked_made(self.clock, self.start@, self.calls@, from, call, to);
        }
        self.calls = Ghost(self.calls@.push(call));
    }

    /// The sink, to be asked something.
    fn hold_sink(&mut self) -> (sink: S)
        requires
            old(self).live(),
        ensures
            *final(self) == (MvsCaptureV2Writer { sink: None, ..*old(self) }),
            final(self).in_order(),
            old(self).sink == Some(sink),
            final(self).left(Output::Sink(sink)),
    {
        proof {
            reveal(vouched);
        }
        self.sink.take().unwrap()
    }

    /// The sink, which has been asked what was noted, is put back.
    fn restore_sink(&mut self, sink: S)
        requires
            old(self).in_order(),
            old(self).sink is None,
            old(self).left(Output::Sink(sink)),
        ensures
            *final(self) == (MvsCaptureV2Writer { sink: Some(sink), ..*old(self) }),
            final(self).in_order(),
    {
        proof {
            reveal(vouched);
        }
        self.sink = Some(sink);
    }

    /// Asks the sink, which is held back, to take bytes.
    fn write_to(&mut self, sink: &mut S, bytes: &[u8]) -> (r: Result<(), VncError>)
        requires
            old(self).in_order(),
            old(self).sink is None,
            old(self).left(Output::Sink(*old(sink))),
        ensures
            *final(self) == (MvsCaptureV2Writer {
                calls: Ghost(old(self).calls@.push(plain_call(Action::Write(bytes@), r))),
                ..*old(self)
            }),
            final(self).in_order(),
            final(self).left(Output::Sink(*final(sink))),
    {
        let ghost from = Output::<S, S::File>::Sink(*sink);
        let r = sink.write_all(bytes);
        self.note(
            Ghost(from),
            Ghost(plain_call(Action::Write(bytes@), r)),
            Ghost(Output::Sink(*sink)),
        );
        r
    }

    /// Asks the sink, which is held back, to hand on what it has.
    fn flush_of(&mut self, sink: &mut S) -> (r: Result<(), VncError>)
        requires
            old(self).in_order(),
            old(self).sink is None,
            old(self).left(Output::Sink(*old(sink))),
        ensures
            *final(self) == (MvsCaptureV2Writer {
                calls: Ghost(old(self).calls@.push(plain_call(Action::Flush, r))),
                ..*old(self)
            }),
            final(self).in_order(),
            final(self).left(Output::Sink(*final(sink))),
    {
        let ghost from = Output::<S, S::File>::Sink(*sink);
        let r = sink.flush();
        self.note(Ghost(from), Ghost(plain_call(Action::Flush, r)), Ghost(Output::Sink(*sink)));
        r
    }

    /// Closes the sink, synchronises its file and releases it, whatever fails on the way. The
    /// first failure is the one that counts.
    fn consume_sink(&mut self, sink: S, failure: Option<VncError>) -> (r: Result<(), VncError>)
        requires
            old(self).in_order(),
            old(self).sink is None,
            old(self).left(Output::Sink(sink)),
        ensures
            final(self).in_order(),
            final(self).continues(*old(self)),
            final(self).tallies(*old(self)),
            final(self).sink is None,
            capture_writer_model::extends(final(self)@.calls, old(self)@.calls),
            forall|all: Seq<Call>|
                capture_writer_model::extends(all, final(self)@.calls)
                    ==> #[trigger] capture_writer_model::consumed(
                    old(self)@,
                    failure,
                    all,
                ) == (
                    final(self)@,
                    match r {
                        Ok(_) => None,
                        Err(e) => Some(e),
                    },
                ),
    {
        let mut first_error = failure;
        let ghost from = Output::<S, S::File>::Sink(sink);
        let closed = sink.into_final_file();
        let ghost call = closing_call(closed);
        let mut file = match closed {
            CaptureIntoInnerResult::Ready(file) => file,
            CaptureIntoInnerResult::FlushFailed { error, file } => {
                if first_error.is_none() {
                    first_error = Some(
                        VncError::Context { text: "final implicit flush", cause: Box::new(error) },
                    );
                }
                file
            },
        };
        let ghost open = Output::<S, S::File>::File(file);
        self.note(Ghost(from), Ghost(call), Ghost(open));
        let synced = file.sync_data();
        let ghost done = Output::<S, S::File>::File(file);
        self.note(Ghost(open), Ghost(plain_call(Action::SyncFile, synced)), Ghost(done));
        if let Err(error) = synced {
            if first_error.is_none() {
                first_error = Some(
                    VncError::Context { text: "final file sync_data", cause: Box::new(error) },
                );
            }
        }
        let released = file.relinquish();
        self.note(
            Ghost(done),
            Ghost(plain_call(Action::Release, released)),
            Ghost(Output::Gone),
        );
        if let Err(error) = released {
            if first_error.is_none() {
                first_error = Some(
                    VncError::Context { text: "final file relinquish", cause: Box::new(error) },
                );
            }
        }
        match first_error {
            Some(error) => Err(error),
            None => Ok(()),
        }
    }

    fn fail_closed(&mut self, error: VncError) -> (r: Result<WriterDecision, VncError>)
        requires
            old(self).in_order(),
        ensures
            final(self).in_order(),
            final(self).continues(*old(self)),
            !capture_writer_model::ongoing(final(self).state),
            capture_writer_model::extends(final(self)@.calls, old(self)@.calls),
            forall|all: Seq<Call>|
                capture_writer_model::extends(all, final(self)@.calls) ==> #[trigger] capture_writer_model::given_up(old(self)@, error, all) == (
                    final(self)@,
                    r,
                ),
    {
        self.state = CaptureState::Finalizing;
        if self.sink.is_none() {
            return Err(error);
        }
        let sink = self.hold_sink();
        let ghost before = self@;
        match self.consume_sink(sink, Some(error)) {
            Err(e) => {
                assert(e == error) by {
                    assert(capture_writer_model::consumed(
                        before,
                        Some(error),
                        self@.calls,
                    ).1 == Some(e));
                }
                Err(e)
            },
            Ok(_) => {
                assert(false) by {
                    assert(capture_writer_model::consumed(
                        before,
                        Some(error),
                        self@.calls,
                    ).1 is None);
                }
                Ok(WriterDecision::Continue)
            },
        }
    }

    fn select_terminal(&mut self, clean: bool, reason: u16)
        requires
            old(self).in_order(),
        ensures
            final(self).in_order(),
            final(self).continues(*old(self)),
            final(self)@ == capture_writer_model::selected(old(self)@, clean, reason),
    {
        self.selected_terminal_reason = Some(reason);
        if !clean {
            self.selected_abort_reason = Some(reason);
        }
        self.state = CaptureState::Finalizing;
    }

    fn fail_closed_output(&mut self, error: VncError) -> (r: Result<WriterDecision, VncError>)
        requires
            old(self).in_order(),
        ensures
            final(self).in_order(),
            final(self).continues(*old(self)),
            !capture_writer_model::ongoing(final(self).state),
            capture_writer_model::extends(final(self)@.calls, old(self)@.calls),
            forall|all: Seq<Call>|
                capture_writer_model::extends(all, final(self)@.calls) ==> #[trigger] capture_writer_model::output_given_up(old(self)@, error, all) == (
                    final(self)@,
                    r,
                ),
    {
        self.select_terminal(false, 264);
        self.fail_closed(error)
    }

    fn terminal_body(&self) -> (r: Vec<u8>)
        requires
            self.selected_terminal_reason is Some,
        ensures
            r@ == capture_writer_model::terminal_body(self@),
            r@.len() == 48,
    {
        reveal(capture_writer_model::terminal_body);
        let reason: u16 = self.selected_terminal_reason.unwrap();
        let mut body: Vec<u8> = Vec::with_capacity(48);
        push_be16(&mut body, reason);
        push_be16(&mut body, 0);
        push_be32(&mut body, self.gap_count);
        push_be64(&mut body, self.source_frame_count);
        push_be64(&mut body, self.record_count);
        push_be64(&mut body, self.type_counts[0]);
        push_be64(&mut body, self.type_counts[1]);
        push_be64(&mut body, self.type_counts[2]);
        assert(body@ =~= capture_writer_model::terminal_body(self@));
        body
    }

    fn finalize_selected(&mut self, clean: bool, timestamp: u64) -> (r: Result<WriterDecision, VncError>)
        requires
            old(self).live(),
            old(self).selected_terminal_reason is Some,
            !capture_writer_model::ongoing(old(self).state),
        ensures
            final(self).in_order(),
            final(self).continues(*old(self)),
            !capture_writer_model::ongoing(final(self).state),
            capture_writer_model::extends(final(self)@.calls, old(self)@.calls),
            forall|all: Seq<Call>|
                capture_writer_model::extends(all, final(self)@.calls) ==> #[trigger] capture_writer_model::finalized(old(self)@, clean, timestamp, all) == (
                    final(self)@,
                    r,
                ),
    {
        reveal(capture_writer_model::finalized);
        if let Err(error) = self.preflight_events(1) {
            return self.fail_closed(error);
        }
        let body = self.terminal_body();
        let kind: u16 = if clean {
            EVENT_CLEAN
        } else {
            EVENT_ABORTED
        };
        let ghost e = capture_writer_model::next_event(self@, kind, timestamp, body@);
        let event = match encode_event(
            kind,
            self.event_ordinal,
            self.generation,
            timestamp,
            body.as_slice(),
        ) {
            Ok(event) => event,
            Err(error) => {
                return self.fail_closed(error);
            },
        };
        assert(event@ == crate::capture_events::event_bytes(e));
        let mut sink = self.hold_sink();
        let answer = self.write_to(&mut sink, event.as_slice());
        let mut failure: Option<VncError> = None;
        if let Err(error) = answer {
            failure = Some(VncError::Context { text: "写入 terminal event", cause: Box::new(error) });
        } else {
            self.event_count = self.event_count + 1;
            self.event_ordinal = self.event_ordinal + 1;
            self.events = Ghost(self.events@.push(e));
        }
        self.consume_sink(sink, failure)?;
        self.state = if clean {
            CaptureState::Clean
        } else {
            CaptureState::Aborted
        };
        Ok(WriterDecision::Finalized(self.state))
    }

    fn finalize_at(&mut self, clean: bool, reason: u16, timestamp: u64) -> (r: Result<WriterDecision, VncError>)
        requires
            old(self).live(),
        ensures
            final(self).in_order(),
            final(self).continues(*old(self)),
            !capture_writer_model::ongoing(final(self).state),
            capture_writer_model::extends(final(self)@.calls, old(self)@.calls),
            forall|all: Seq<Call>|
                capture_writer_model::extends(all, final(self)@.calls) ==> #[trigger] capture_writer_model::finalized_at(old(self)@, clean, reason, timestamp, all) == (
                    final(self)@,
                    r,
                ),
    {
        self.select_terminal(clean, reason);
        self.finalize_selected(clean, timestamp)
    }

    fn finalize(&mut self, clean: bool, reason: u16) -> (r: Result<WriterDecision, VncError>)
        requires
            old(self).live(),
        ensures
            final(self).in_order(),
            final(self).continues(*old(self)),
            !capture_writer_model::ongoing(final(self).state),
            capture_writer_model::extends(final(self)@.calls, old(self)@.calls),
            forall|all: Seq<Call>|
                capture_writer_model::extends(all, final(self)@.calls) ==> #[trigger] capture_writer_model::finalized_now(old(self)@, clean, reason, all) == (
                    final(self)@,
                    r,
                ),
    {
        self.select_terminal(clean, reason);
        let timestamp: u64 = match self.now() {
            Ok(timestamp) => timestamp,
            Err(error) => {
                return self.fail_closed(error);
            },
        };
        self.finalize_selected(clean, timestamp)
    }

    fn write_nonterminal(&mut self, kind: u16, timestamp: u64, body: &[u8], payload: usize) -> (r:
        Result<(), VncError>)
        requires
            old(self).live(),
            body@.len() <= crate::capture_events::MVS_CAPTURE_V2_MAX_EVENT_BODY,
        ensures
            final(self).in_order(),
            final(self).continues(*old(self)),
            final(self).state == old(self).state,
            final(self).record_count == old(self).record_count,
            r is Ok ==> final(self).event_count == old(self).event_count + 1
                < MVS_CAPTURE_V2_MAX_EVENTS,
            r is Err ==> final(self).event_count == old(self).event_count,
            final(self).live(),
            capture_writer_model::extends(final(self)@.calls, old(self)@.calls),
            forall|all: Seq<Call>|
                capture_writer_model::extends(all, final(self)@.calls) ==> #[trigger] capture_writer_model::written(old(self)@, kind, timestamp, body@, payload, all) == (
                    final(self)@,
                    r,
                ),
    {
        reveal(capture_writer_model::written);
        self.preflight_events(2)?;
        let next_payload: usize = match self.cumulative_payload.checked_add(payload) {
            Some(next) => next,
            None => {
                return Err(VncError::Text("V2 payload 累计溢出"));
            },
        };
        if next_payload > MVS_CAPTURE_V2_MAX_CUMULATIVE_PAYLOAD {
            return Err(VncError::Text("V2 payload 累计超过上限"));
        }
        let ghost e = capture_writer_model::next_event(self@, kind, timestamp, body@);
        let encoded = encode_event(kind, self.event_ordinal, self.generation, timestamp, body)?;
        assert(encoded@ == crate::capture_events::event_bytes(e));
        let mut sink = self.hold_sink();
        let answer = self.write_to(&mut sink, encoded.as_slice());
        self.restore_sink(sink);
        if let Err(error) = answer {
            return Err(VncError::Context { text: "写入 FRDMVS02 event", cause: Box::new(error) });
        }
        self.event_count = self.event_count + 1;
        self.cumulative_payload = next_payload;
        self.event_ordinal = self.event_ordinal + 1;
        self.events = Ghost(self.events@.push(e));
        Ok(())
    }

    fn emit_gap(&mut self, diagnostic: MvsCaptureV2Gap, terminal: u16) -> (r: Result<WriterDecision, VncError>)
        requires
            old(self).live(),
        ensures
            final(self).in_order(),
            final(self).continues(*old(self)),
            !capture_writer_model::ongoing(final(self).state),
            capture_writer_model::extends(final(self)@.calls, old(self)@.calls),
            forall|all: Seq<Call>|
                capture_writer_model::extends(all, final(self)@.calls) ==> #[trigger] capture_writer_model::gap_emitted(old(self)@, diagnostic, terminal, all) == (
                    final(self)@,
                    r,
                ),
    {
        reveal(capture_writer_model::gap_emitted);
        if let Err(error) = self.preflight_events(2) {
            return self.fail_closed(error);
        }
        let body = gap_body(&diagnostic);
        let timestamp: u64 = match self.now() {
            Ok(timestamp) => timestamp,
            Err(error) => {
                return self.fail_closed(error);
            },
        };
        if let Err(error) = self.write_nonterminal(EVENT_GAP, timestamp, body.as_slice(), 0) {
            return self.fail_closed(error);
        }
        self.gap_count = 1;
        self.last_gap = Some(diagnostic);
        self.pending = None;
        self.assembler = MvsRecordAssembler { pending: None };
        self.finalize(false, terminal)
    }

    fn emit_pending_gap(&mut self, reason: u16, terminal: u16) -> (r: Result<WriterDecision, VncError>)
        requires
            old(self).live(),
            old(self).pending is Some,
        ensures
            final(self).in_order(),
            final(self).continues(*old(self)),
            !capture_writer_model::ongoing(final(self).state),
            capture_writer_model::extends(final(self)@.calls, old(self)@.calls),
            forall|all: Seq<Call>|
                capture_writer_model::extends(all, final(self)@.calls) ==> #[trigger] capture_writer_model::pending_given_up(old(self)@, reason, terminal, all) == (
                    final(self)@,
                    r,
                ),
    {
        let pending = self.pending.unwrap();
        self.emit_gap(
            gap(
                reason,
                pending.first,
                pending.last,
                pending.total,
                pending.accepted,
                pending.rect,
            ),
            terminal,
        )
    }

    fn pending_expired(&self, now: u64) -> (r: bool)
        ensures
            r == capture_writer_model::pending_expired_at(self@, now),
    {
        match self.pending {
            Some(pending) => now >= pending.started_at && now - pending.started_at
                >= INCOMPLETE_RECORD_MICROS,
            None => false,
        }
    }

    fn time_over(&mut self, now: u64) -> (r: Result<WriterDecision, VncError>)
        requires
            old(self).live(),
        ensures
            final(self).in_order(),
            final(self).continues(*old(self)),
            !capture_writer_model::ongoing(final(self).state),
            capture_writer_model::extends(final(self)@.calls, old(self)@.calls),
            forall|all: Seq<Call>|
                capture_writer_model::extends(all, final(self)@.calls) ==> #[trigger] capture_writer_model::over_at(old(self)@, now, all) == (
                    final(self)@,
                    r,
                ),
    {
        if self.pending.is_some() {
            self.emit_pending_gap(6, 263)
        } else {
            self.finalize_at(true, 1, now)
        }
    }

    fn post_frame(&mut self, now: u64) -> (r: Result<WriterDecision, VncError>)
        requires
            old(self).live(),
        ensures
            final(self).in_order(),
            final(self).continues(*old(self)),
            capture_writer_model::ongoing(final(self).state) ==> final(self).tallies(*old(self)),
            capture_writer_model::extends(final(self)@.calls, old(self)@.calls),
            forall|all: Seq<Call>|
                capture_writer_model::extends(all, final(self)@.calls) ==> #[trigger] capture_writer_model::after_frame(old(self)@, now, all) == (
                    final(self)@,
                    r,
                ),
    {
        if now >= self.deadline_micros() {
            return self.time_over(now);
        }
        if self.record_count == self.config.record_limit as u64 {
            return self.finalize_at(true, 2, now);
        }
        Ok(WriterDecision::Continue)
    }

    fn clocked_post_frame(&mut self) -> (r: Result<WriterDecision, VncError>)
        requires
            old(self).live(),
        ensures
            final(self).in_order(),
            final(self).continues(*old(self)),
            capture_writer_model::ongoing(final(self).state) ==> final(self).tallies(*old(self)),
            capture_writer_model::extends(final(self)@.calls, old(self)@.calls),
            forall|all: Seq<Call>|
                capture_writer_model::extends(all, final(self)@.calls) ==> #[trigger] capture_writer_model::clocked_after_frame(old(self)@, all) == (
                    final(self)@,
                    r,
                ),
    {
        let now: u64 = match self.now() {
            Ok(now) => now,
            Err(error) => {
                return self.fail_closed(error);
            },
        };
        self.post_frame(now)
    }

    fn validate_record_rect(&self, rect: MvsRect) -> (r: Result<(), VncError>)
        ensures
            r == crate::error::checked(capture_writer_model::paint_refusal(self@.armed, rect)),
    {
        let surface = match self.armed {
            Some(armed) => armed.committed,
            None => {
                return Err(VncError::Text("Record 缺少 committed surface"));
            },
        };
        if rect.width == 0 || rect.height == 0 {
            return Err(VncError::Text("MVS record rectangle 为零"));
        }
        let right: u16 = match rect.x.checked_add(rect.width) {
            Some(right) => right,
            None => {
                return Err(VncError::Text("MVS rectangle right 溢出"));
            },
        };
        let bottom: u16 = match rect.y.checked_add(rect.height) {
            Some(bottom) => bottom,
            None => {
                return Err(VncError::Text("MVS rectangle bottom 溢出"));
            },
        };
        if right > surface.width || bottom > surface.height {
            return Err(VncError::Text("MVS record rectangle 超出 committed surface"));
        }
        assert(0 <= rect.width * rect.height <= 0xffff * 0xffff) by (nonlinear_arith)
            requires
                0 <= rect.width <= 0xffff,
                0 <= rect.height <= 0xffff,
        ;
        let pixels: u32 = rect.width as u32 * rect.height as u32;
        if pixels > MAX_MVS_DECODE_PIXELS as u32 {
            return Err(VncError::Text("MVS record rectangle 超过像素预算"));
        }
        Ok(())
    }

    /// Counts a record that is in the file, and ends the capture where the record is no good or
    /// the last one.
    fn classify_record(&mut self, record: &MvsRecord) -> (r: Result<WriterDecision, VncError>)
        requires
            old(self).live(),
            record@.payload.len() >= 1,
        ensures
            final(self).in_order(),
            final(self).continues(*old(self)),
            capture_writer_model::ongoing(final(self).state) ==> final(self).state == old(self).state
                && final(self).event_count == old(self).event_count && final(self).record_count
                == old(self).record_count + 1,
            capture_writer_model::extends(final(self)@.calls, old(self)@.calls),
            forall|all: Seq<Call>|
                capture_writer_model::extends(all, final(self)@.calls) ==> #[trigger] capture_writer_model::classified(old(self)@, record@, all) == (
                    final(self)@,
                    r,
                ),
    {
        self.record_count = match self.record_count.checked_add(1) {
            Some(count) => count,
            None => {
                return self.fail_closed(VncError::Text("record count 溢出"));
            },
        };
        let tag: u8 = record.payload[0];
        if tag == 0 || tag == 1 {
            self.type_counts[tag as usize] = self.type_counts[tag as usize] + 1;
            assert(self@ == capture_writer_model::counted_record(old(self)@, tag));
            if let Err(error) = self.validate_record_rect(record.rect) {
                return self.fail_closed(error);
            }
        } else if tag == 2 {
            self.type_counts[2] = self.type_counts[2] + 1;
            assert(self@ == capture_writer_model::counted_record(old(self)@, tag));
            if !is_empty_rect(record.rect) {
                return Err(VncError::Text("type-2 rectangle 必须为零"));
            }
        } else {
            assert(self@ == capture_writer_model::counted_record(old(self)@, tag));
            return self.fail_closed(
                VncError::Text("未知 MVS payload tag（Record 已持久化）"),
            );
        }
        self.clocked_post_frame()
    }

    fn complete_record(&mut self, first: u64, last: u64, record: MvsRecord) -> (r: Result<WriterDecision, VncError>)
        requires
            old(self).live(),
            1 <= record@.payload.len() <= MVS_CAPTURE_V2_MAX_PAYLOAD,
        ensures
            final(self).in_order(),
            final(self).continues(*old(self)),
            capture_writer_model::ongoing(final(self).state) ==> final(self).state == old(self).state
                && final(self).event_count == old(self).event_count + 1 < MVS_CAPTURE_V2_MAX_EVENTS
                && final(self).record_count == old(self).record_count + 1,
            capture_writer_model::extends(final(self)@.calls, old(self)@.calls),
            forall|all: Seq<Call>|
                capture_writer_model::extends(all, final(self)@.calls) ==> #[trigger] capture_writer_model::completed(old(self)@, first, last, record@, all) == (
                    final(self)@,
                    r,
                ),
    {
        reveal(capture_writer_model::completed);
        let payload_len: usize = record.payload.len();
        let body = record_body(first, last, &record);
        let timestamp: u64 = match self.now() {
            Ok(timestamp) => timestamp,
            Err(error) => {
                return self.fail_closed(error);
            },
        };
        if let Err(error) = self.write_nonterminal(
            EVENT_RECORD,
            timestamp,
            body.as_slice(),
            payload_len,
        ) {
            return self.fail_closed(error);
        }
        self.kept = Ghost(
            self.kept@.push(
                CaptureRecordView { generation: self.generation, first, last, record: record@ },
            ),
        );
        self.classify_record(&record)
    }

    fn assign_source_ordinal(&mut self) -> (r: Result<u64, VncError>)
        requires
            old(self).live(),
        ensures
            final(self).live(),
            final(self).continues(*old(self)),
            (final(self)@, r) == capture_writer_model::numbered(old(self)@),
    {
        let ordinal: u64 = self.source_frame_count;
        if ordinal == u64::MAX {
            return Err(VncError::Text("MVS source ordinal 溢出"));
        }
        self.source_frame_count = ordinal + 1;
        Ok(ordinal)
    }

    /// Accepts an operation in one of certain states.
    fn require(&self, allowed: bool) -> (r: Result<(), VncError>)
        ensures
            r == crate::error::checked(capture_writer_model::state_refusal(self@, allowed)),
            r is Ok ==> self.sink is Some,
    {
        if !allowed {
            return Err(VncError::Text("capture state 转换无效"));
        }
        if self.sink.is_none() {
            return Err(VncError::Text("capture sink 已被消费"));
        }
        Ok(())
    }

    /// Watches the time before the trigger.
    pub fn pre_trigger_checkpoint(&mut self) -> (r: Result<WriterDecision, VncError>)
        requires
            old(self).wf(),
        ensures
            final(self).wf(),
            final(self).continues(*old(self)),
            capture_writer_model::extends(final(self)@.calls, old(self)@.calls),
            forall|all: Seq<Call>|
                capture_writer_model::extends(all, final(self)@.calls) ==> #[trigger] capture_writer_model::checkpointed(old(self)@, all) == (
                    final(self)@,
                    r,
                ),
    {
        self.require(self.state == CaptureState::Created || self.state == CaptureState::Armed)?;
        let now: u64 = match self.now() {
            Ok(now) => now,
            Err(error) => {
                return self.fail_closed_output(error);
            },
        };
        if now >= self.deadline_micros() {
            return self.finalize_at(false, 267, now);
        }
        Ok(WriterDecision::Continue)
    }

    fn sync_armed(&mut self, config: ArmedConfig) -> (r: Result<WriterDecision, VncError>)
        requires
            old(self).live(),
        ensures
            final(self).in_order(),
            final(self).continues(*old(self)),
            capture_writer_model::ongoing(final(self).state) ==> final(self).state
                == CaptureState::Armed && final(self).event_count == old(self).event_count
                && final(self).record_count == old(self).record_count,
            capture_writer_model::extends(final(self)@.calls, old(self)@.calls),
            forall|all: Seq<Call>|
                capture_writer_model::extends(all, final(self)@.calls) ==> #[trigger] capture_writer_model::armed_synced(old(self)@, config, all) == (
                    final(self)@,
                    r,
                ),
    {
        let mut sink = self.hold_sink();
        let flushed = self.flush_of(&mut sink);
        if flushed.is_err() {
            self.restore_sink(sink);
            return self.finalize(false, 259);
        }
        let ghost from = Output::<S, S::File>::Sink(sink);
        let synced = sink.sync_data();
        self.note(Ghost(from), Ghost(plain_call(Action::Sync, synced)), Ghost(Output::Sink(sink)));
        self.restore_sink(sink);
        if synced.is_err() {
            return self.finalize(false, 259);
        }
        let now: u64 = match self.now() {
            Ok(now) => now,
            Err(error) => {
                return self.fail_closed(error);
            },
        };
        if now >= self.deadline_micros() {
            return self.finalize_at(false, 267, now);
        }
        self.armed = Some(config);
        self.state = CaptureState::Armed;
        Ok(WriterDecision::Continue)
    }

    /// Arms the capture: its event is on the disk before the trigger can be sent.
    pub fn arm(&mut self, config: ArmedConfig) -> (r: Result<WriterDecision, VncError>)
        requires
            old(self).wf(),
        ensures
            final(self).wf(),
            final(self).continues(*old(self)),
            capture_writer_model::extends(final(self)@.calls, old(self)@.calls),
            forall|all: Seq<Call>|
                capture_writer_model::extends(all, final(self)@.calls) ==> #[trigger] capture_writer_model::armed(old(self)@, config, all) == (
                    final(self)@,
                    r,
                ),
    {
        self.require(self.state == CaptureState::Created)?;
        if validate_geometry(config.committed).is_err() || validate_geometry(
            config.requested,
        ).is_err() {
            return self.finalize(false, 266);
        }
        let body = armed_body(config);
        let now: u64 = match self.now() {
            Ok(now) => now,
            Err(error) => {
                return self.fail_closed_output(error);
            },
        };
        if now >= self.deadline_micros() {
            return self.finalize_at(false, 267, now);
        }
        if self.write_nonterminal(EVENT_ARMED, now, body.as_slice(), 0).is_err() {
            return self.finalize(false, 259);
        }
        self.sync_armed(config)
    }

    /// Begins to send the trigger.
    pub fn begin_trigger(&mut self) -> (r: Result<WriterDecision, VncError>)
        requires
            old(self).wf(),
        ensures
            final(self).wf(),
            final(self).continues(*old(self)),
            capture_writer_model::extends(final(self)@.calls, old(self)@.calls),
            forall|all: Seq<Call>|
                capture_writer_model::extends(all, final(self)@.calls) ==> #[trigger] capture_writer_model::trigger_begun(old(self)@, all) == (
                    final(self)@,
                    r,
                ),
    {
        self.require(self.state == CaptureState::Armed)?;
        let now: u64 = match self.now() {
            Ok(now) => now,
            Err(error) => {
                return self.fail_closed(error);
            },
        };
        if now >= self.deadline_micros() {
            return self.finalize_at(false, 267, now);
        }
        self.state = CaptureState::Triggering;
        Ok(WriterDecision::Continue)
    }

    /// Notes a part of the trigger that was sent. The parts come in their order.
    pub fn trigger_write_succeeded(&mut self, bit: u32) -> (r: Result<WriterDecision, VncError>)
        requires
            old(self).wf(),
        ensures
            final(self).wf(),
            final(self).continues(*old(self)),
            capture_writer_model::extends(final(self)@.calls, old(self)@.calls),
            forall|all: Seq<Call>|
                capture_writer_model::extends(all, final(self)@.calls) ==> #[trigger] capture_writer_model::trigger_written(old(self)@, bit, all) == (
                    final(self)@,
                    r,
                ),
    {
        self.require(self.state == CaptureState::Triggering)?;
        let expected: u32 = match self.trigger_mask {
            0 => 1,
            1 => 2,
            3 => 4,
            _ => {
                return Err(VncError::Text("trigger 已完整"));
            },
        };
        if bit != expected {
            return Err(VncError::Text("trigger mask 顺序无效"));
        }
        self.trigger_mask = self.trigger_mask + bit;
        let now: u64 = match self.now() {
            Ok(now) => now,
            Err(error) => {
                return self.fail_closed(error);
            },
        };
        if now >= self.deadline_micros() {
            return self.finalize_at(false, 260, now);
        }
        Ok(WriterDecision::Continue)
    }

    /// Ends the capture because the trigger could not be sent.
    pub fn trigger_failed(&mut self) -> (r: Result<WriterDecision, VncError>)
        requires
            old(self).wf(),
        ensures
            final(self).wf(),
            final(self).continues(*old(self)),
            capture_writer_model::extends(final(self)@.calls, old(self)@.calls),
            forall|all: Seq<Call>|
                capture_writer_model::extends(all, final(self)@.calls) ==> #[trigger] capture_writer_model::trigger_refused(old(self)@, all) == (
                    final(self)@,
                    r,
                ),
    {
        self.require(self.state == CaptureState::Triggering)?;
        self.finalize(false, 260)
    }

    fn open_recording(&mut self) -> (r: Result<WriterDecision, VncError>)
        requires
            old(self).live(),
        ensures
            final(self).in_order(),
            final(self).continues(*old(self)),
            capture_writer_model::ongoing(final(self).state) ==> final(self).state
                == CaptureState::Recording && final(self).event_count == old(self).event_count + 1
                < MVS_CAPTURE_V2_MAX_EVENTS && final(self).record_count == old(self).record_count,
            capture_writer_model::extends(final(self)@.calls, old(self)@.calls),
            forall|all: Seq<Call>|
                capture_writer_model::extends(all, final(self)@.calls) ==> #[trigger] capture_writer_model::recording_opened(old(self)@, all) == (
                    final(self)@,
                    r,
                ),
    {
        let now: u64 = match self.now() {
            Ok(now) => now,
            Err(error) => {
                return self.fail_closed(error);
            },
        };
        let mut body: Vec<u8> = Vec::new();
        push_be64(&mut body, 0);
        assert(body@ =~= crate::wire::be64_bytes(0));
        if self.write_nonterminal(EVENT_RECORDING, now, body.as_slice(), 0).is_err() {
            return self.finalize(false, 260);
        }
        let mut sink = self.hold_sink();
        let flushed = self.flush_of(&mut sink);
        self.restore_sink(sink);
        if flushed.is_err() {
            return self.finalize(false, 260);
        }
        let now: u64 = match self.now() {
            Ok(now) => now,
            Err(error) => {
                return self.fail_closed(error);
            },
        };
        if now >= self.deadline_micros() {
            return self.finalize_at(false, 260, now);
        }
        self.state = CaptureState::Recording;
        Ok(WriterDecision::Continue)
    }

    /// Writes the events that stand between the trigger and the records.
    pub fn write_recording_gate(&mut self) -> (r: Result<WriterDecision, VncError>)
        requires
            old(self).wf(),
        ensures
            final(self).wf(),
            final(self).continues(*old(self)),
            capture_writer_model::extends(final(self)@.calls, old(self)@.calls),
            forall|all: Seq<Call>|
                capture_writer_model::extends(all, final(self)@.calls) ==> #[trigger] capture_writer_model::gate_written(old(self)@, all) == (
                    final(self)@,
                    r,
                ),
    {
        self.require(self.state == CaptureState::Triggering)?;
        if self.trigger_mask != 7 {
            return Err(VncError::Text("trigger mask 尚未完整"));
        }
        let requested = match self.armed {
            Some(armed) => armed.requested,
            None => {
                return Err(VncError::Text("缺少 Armed 配置"));
            },
        };
        let triggered = triggered_body(requested);
        let now: u64 = match self.now() {
            Ok(now) => now,
            Err(error) => {
                return self.fail_closed(error);
            },
        };
        if now >= self.deadline_micros() {
            return self.finalize_at(false, 260, now);
        }
        if self.write_nonterminal(EVENT_TRIGGERED, now, triggered.as_slice(), 0).is_err() {
            return self.finalize(false, 260);
        }
        let now: u64 = match self.now() {
            Ok(now) => now,
            Err(error) => {
                return self.fail_closed(error);
            },
        };
        if now >= self.deadline_micros() {
            return self.finalize_at(false, 260, now);
        }
        self.open_recording()
    }

    /// Takes note of a frame that holds no record.
    pub fn accept_non_mvs(&mut self) -> (r: Result<WriterDecision, VncError>)
        requires
            old(self).wf(),
        ensures
            final(self).wf(),
            final(self).continues(*old(self)),
            capture_writer_model::extends(final(self)@.calls, old(self)@.calls),
            forall|all: Seq<Call>|
                capture_writer_model::extends(all, final(self)@.calls) ==> #[trigger] capture_writer_model::non_mvs_accepted(old(self)@, all) == (
                    final(self)@,
                    r,
                ),
    {
        self.require(self.state == CaptureState::Recording)?;
        self.clocked_post_frame()
    }

    /// Ends the capture at a frame whose record could not be recognised.
    pub fn reject_mvs_envelope(&mut self, rect: Option<MvsRect>) -> (r: Result<WriterDecision, VncError>)
        requires
            old(self).wf(),
        ensures
            final(self).wf(),
            final(self).continues(*old(self)),
            capture_writer_model::extends(final(self)@.calls, old(self)@.calls),
            forall|all: Seq<Call>|
                capture_writer_model::extends(all, final(self)@.calls) ==> #[trigger] capture_writer_model::envelope_rejected(old(self)@, rect, all) == (
                    final(self)@,
                    r,
                ),
    {
        self.require(self.state == CaptureState::Recording)?;
        let ordinal: u64 = match self.assign_source_ordinal() {
            Ok(ordinal) => ordinal,
            Err(error) => {
                return self.fail_closed(error);
            },
        };
        let place = match rect {
            Some(rect) => rect,
            None => zero_rect(),
        };
        self.emit_gap(gap(1, ordinal, ordinal, 0, 0, place), 262)
    }

    fn begin_chunk(&mut self, ordinal: u64, rect: MvsRect, total: u32, first: &[u8]) -> (r: Result<WriterDecision, VncError>)
        requires
            old(self).live(),
            old(self).pending is None,
            first@.len() <= total <= MVS_CAPTURE_V2_MAX_PAYLOAD,
        ensures
            final(self).in_order(),
            final(self).continues(*old(self)),
            capture_writer_model::ongoing(final(self).state) ==> final(self).tallies(*old(self)) || (
            final(self).state == old(self).state
                && final(self).event_count == old(self).event_count + 1 < MVS_CAPTURE_V2_MAX_EVENTS
                && final(self).record_count == old(self).record_count + 1),
            capture_writer_model::extends(final(self)@.calls, old(self)@.calls),
            forall|all: Seq<Call>|
                capture_writer_model::extends(all, final(self)@.calls) ==> #[trigger] capture_writer_model::chunk_begun(old(self)@, ordinal, rect, total, first@, all) == (
                    final(self)@,
                    r,
                ),
    {
        let started_at: u64 = match self.now() {
            Ok(started_at) => started_at,
            Err(error) => {
                return self.fail_closed(error);
            },
        };
        match self.assembler.begin(rect, total, first) {
            Ok(Some(record)) => self.complete_record(ordinal, ordinal, record),
            Ok(None) => {
                self.pending = Some(
                    PendingProvenance {
                        first: ordinal,
                        last: ordinal,
                        total,
                        accepted: first.len() as u32,
                        rect,
                        started_at,
                    },
                );
                self.post_frame(started_at)
            },
            Err(error) => self.fail_closed(error),
        }
    }

    /// Takes the first chunk of a record.
    pub fn accept_mvs_begin(&mut self, rect: MvsRect, total: u32, first: &[u8]) -> (r: Result<WriterDecision, VncError>)
        requires
            old(self).wf(),
        ensures
            final(self).wf(),
            final(self).continues(*old(self)),
            capture_writer_model::extends(final(self)@.calls, old(self)@.calls),
            forall|all: Seq<Call>|
                capture_writer_model::extends(all, final(self)@.calls) ==> #[trigger] capture_writer_model::begin_accepted(old(self)@, rect, total, first@, all) == (
                    final(self)@,
                    r,
                ),
    {
        self.require(self.state == CaptureState::Recording)?;
        let ordinal: u64 = match self.assign_source_ordinal() {
            Ok(ordinal) => ordinal,
            Err(error) => {
                return self.fail_closed(error);
            },
        };
        if let Some(pending) = self.pending {
            return self.emit_gap(
                gap(
                    10,
                    pending.first,
                    ordinal,
                    pending.total,
                    pending.accepted,
                    pending.rect,
                ),
                262,
            );
        }
        if total == 0 || total > MVS_CAPTURE_V2_MAX_PAYLOAD as u32 {
            return self.emit_gap(gap(2, ordinal, ordinal, total, 0, rect), 262);
        }
        if first.len() > total as usize {
            return self.emit_gap(gap(3, ordinal, ordinal, total, 0, rect), 262);
        }
        let over: bool = match self.cumulative_payload.checked_add(total as usize) {
            Some(value) => value > MVS_CAPTURE_V2_MAX_CUMULATIVE_PAYLOAD,
            None => true,
        };
        if over {
            return self.emit_gap(gap(11, ordinal, ordinal, total, 0, rect), 262);
        }
        self.begin_chunk(ordinal, rect, total, first)
    }

    /// Takes a further chunk of a record.
    pub fn accept_mvs_continuation(&mut self, chunk: &[u8]) -> (r: Result<WriterDecision, VncError>)
        requires
            old(self).wf(),
        ensures
            final(self).wf(),
            final(self).continues(*old(self)),
            capture_writer_model::extends(final(self)@.calls, old(self)@.calls),
            forall|all: Seq<Call>|
                capture_writer_model::extends(all, final(self)@.calls) ==> #[trigger] capture_writer_model::continuation_accepted(old(self)@, chunk@, all) == (
                    final(self)@,
                    r,
                ),
    {
        self.require(self.state == CaptureState::Recording)?;
        let ordinal: u64 = match self.assign_source_ordinal() {
            Ok(ordinal) => ordinal,
            Err(error) => {
                return self.fail_closed(error);
            },
        };
        let pending = match self.pending {
            Some(pending) => pending,
            None => {
                return self.emit_gap(gap(9, ordinal, ordinal, 0, 0, zero_rect()), 262);
            },
        };
        let remaining: u32 = pending.total - pending.accepted;
        if chunk.len() > remaining as usize {
            return self.emit_gap(
                gap(
                    4,
                    pending.first,
                    ordinal,
                    pending.total,
                    pending.accepted,
                    pending.rect,
                ),
                262,
            );
        }
        match self.assembler.push_continuation(chunk) {
            Err(error) => self.fail_closed(error),
            Ok(Some(record)) => {
                self.pending = None;
                self.complete_record(pending.first, ordinal, record)
            },
            Ok(None) => {
                self.pending = Some(
                    PendingProvenance {
                        first: pending.first,
                        last: ordinal,
                        total: pending.total,
                        accepted: pending.accepted + chunk.len() as u32,
                        rect: pending.rect,
                        started_at: pending.started_at,
                    },
                );
                self.clocked_post_frame()
            },
        }
    }

    /// Watches the time of the recording.
    pub fn poll_recording(&mut self) -> (r: Result<WriterDecision, VncError>)
        requires
            old(self).wf(),
        ensures
            final(self).wf(),
            final(self).continues(*old(self)),
            capture_writer_model::extends(final(self)@.calls, old(self)@.calls),
            forall|all: Seq<Call>|
                capture_writer_model::extends(all, final(self)@.calls) ==> #[trigger] capture_writer_model::polled(old(self)@, all) == (
                    final(self)@,
                    r,
                ),
    {
        self.require(self.state == CaptureState::Recording)?;
        let now: u64 = match self.now() {
            Ok(now) => now,
            Err(error) => {
                return self.fail_closed(error);
            },
        };
        if now >= self.deadline_micros() {
            return self.time_over(now);
        }
        if self.pending_expired(now) {
            return self.emit_pending_gap(5, 262);
        }
        Ok(WriterDecision::Continue)
    }

    /// Ends the capture because nothing more could be read.
    pub fn read_failed(&mut self) -> (r: Result<WriterDecision, VncError>)
        requires
            old(self).wf(),
        ensures
            final(self).wf(),
            final(self).continues(*old(self)),
            capture_writer_model::extends(final(self)@.calls, old(self)@.calls),
            forall|all: Seq<Call>|
                capture_writer_model::extends(all, final(self)@.calls) ==> #[trigger] capture_writer_model::read_refused(old(self)@, all) == (
                    final(self)@,
                    r,
                ),
    {
        self.require(self.state == CaptureState::Recording)?;
        let now: u64 = match self.now() {
            Ok(now) => now,
            Err(error) => {
                return self.fail_closed(error);
            },
        };
        if now >= self.deadline_micros() {
            return self.time_over(now);
        }
        if self.pending_expired(now) {
            return self.emit_pending_gap(5, 262);
        }
        if self.pending.is_some() {
            self.emit_pending_gap(7, 261)
        } else {
            self.finalize(false, 261)
        }
    }

    /// Ends the capture because the surface is about to change.
    pub fn generation_transition_attempted(&mut self) -> (r: Result<WriterDecision, VncError>)
        requires
            old(self).wf(),
        ensures
            final(self).wf(),
            final(self).continues(*old(self)),
            capture_writer_model::extends(final(self)@.calls, old(self)@.calls),
            forall|all: Seq<Call>|
                capture_writer_model::extends(all, final(self)@.calls) ==> #[trigger] capture_writer_model::transition_attempted(old(self)@, all) == (
                    final(self)@,
                    r,
                ),
    {
        self.require(self.state == CaptureState::Recording)?;
        if self.pending.is_some() {
            self.emit_pending_gap(8, 266)
        } else {
            self.finalize(false, 266)
        }
    }

    /// Ends the capture because the operator wants no more.
    pub fn cancel(&mut self) -> (r: Result<WriterDecision, VncError>)
        requires
            old(self).wf(),
        ensures
            final(self).wf(),
            final(self).continues(*old(self)),
            capture_writer_model::extends(final(self)@.calls, old(self)@.calls),
            forall|all: Seq<Call>|
                capture_writer_model::extends(all, final(self)@.calls) ==> #[trigger] capture_writer_model::cancelled(old(self)@, all) == (
                    final(self)@,
                    r,
                ),
    {
        self.require(
            self.state == CaptureState::Created || self.state == CaptureState::Armed || self.state
                == CaptureState::Triggering || self.state == CaptureState::Recording,
        )?;
        if self.state == CaptureState::Recording && self.pending.is_some() {
            self.emit_pending_gap(12, 265)
        } else {
            self.finalize(false, 265)
        }
    }

    /// Ends the capture because there is no connection.
    pub fn connect_failed(&mut self) -> (r: Result<WriterDecision, VncError>)
        requires
            old(self).wf(),
        ensures
            final(self).wf(),
            final(self).continues(*old(self)),
            capture_writer_model::extends(final(self)@.calls, old(self)@.calls),
            forall|all: Seq<Call>|
                capture_writer_model::extends(all, final(self)@.calls) ==> #[trigger] capture_writer_model::created_failed(old(self)@, 257, all) == (
                    final(self)@,
                    r,
                ),
    {
        self.created_operation_failed(257)
    }

    /// Ends the capture because the authentication failed.
    pub fn authentication_failed(&mut self) -> (r: Result<WriterDecision, VncError>)
        requires
            old(self).wf(),
        ensures
            final(self).wf(),
            final(self).continues(*old(self)),
            capture_writer_model::extends(final(self)@.calls, old(self)@.calls),
            forall|all: Seq<Call>|
                capture_writer_model::extends(all, final(self)@.calls) ==> #[trigger] capture_writer_model::created_failed(old(self)@, 258, all) == (
                    final(self)@,
                    r,
                ),
    {
        self.created_operation_failed(258)
    }

    /// Ends the capture because the time before the trigger is over.
    pub fn pre_trigger_deadline_failed(&mut self) -> (r: Result<WriterDecision, VncError>)
        requires
            old(self).wf(),
        ensures
            final(self).wf(),
            final(self).continues(*old(self)),
            capture_writer_model::extends(final(self)@.calls, old(self)@.calls),
            forall|all: Seq<Call>|
                capture_writer_model::extends(all, final(self)@.calls) ==> #[trigger] capture_writer_model::pre_trigger_over(old(self)@, all) == (
                    final(self)@,
                    r,
                ),
    {
        self.require(self.state == CaptureState::Created)?;
        self.finalize(false, 267)
    }

    fn created_operation_failed(&mut self, ordinary_reason: u16) -> (r: Result<WriterDecision, VncError>)
        requires
            old(self).wf(),
        ensures
            final(self).wf(),
            final(self).continues(*old(self)),
            capture_writer_model::extends(final(self)@.calls, old(self)@.calls),
            forall|all: Seq<Call>|
                capture_writer_model::extends(all, final(self)@.calls) ==> #[trigger] capture_writer_model::created_failed(old(self)@, ordinary_reason, all) == (
                    final(self)@,
                    r,
                ),
    {
        self.require(self.state == CaptureState::Created)?;
        let now: u64 = match self.now() {
            Ok(now) => now,
            Err(error) => {
                return self.fail_closed_output(error);
            },
        };
        let reason: u16 = if now >= self.deadline_micros() {
            267
        } else {
            ordinary_reason
        };
        self.finalize_at(false, reason, now)
    }

    /// Ends the capture because its output failed.
    pub fn output_failed(&mut self) -> (r: Result<WriterDecision, VncError>)
        requires
            old(self).wf(),
        ensures
            final(self).wf(),
            final(self).continues(*old(self)),
            capture_writer_model::extends(final(self)@.calls, old(self)@.calls),
            forall|all: Seq<Call>|
                capture_writer_model::extends(all, final(self)@.calls) ==> #[trigger] capture_writer_model::output_refused(old(self)@, all) == (
                    final(self)@,
                    r,
                ),
    {
        match self.state {
            CaptureState::Finalizing | CaptureState::Clean | CaptureState::Aborted => {
                return Err(VncError::Text("capture 已进入终态"));
            },
            _ => {},
        }
        if self.sink.is_none() {
            return Err(VncError::Text("capture sink 已被消费"));
        }
        let reason: u16 = if self.state == CaptureState::Triggering {
            260
        } else {
            264
        };
        self.finalize(false, reason)
    }
}

} // verus!
