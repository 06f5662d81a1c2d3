//! What holds of every cold session.

use vstd::prelude::*;
use crate::capture_writer_laws;
use crate::capture_writer_laws::Operation;
use crate::capture_writer_model;
use crate::capture_writer_model::{ArmedConfig, Call, CaptureState, CreatedConfig, Outcome};
use crate::capture_writer_model::{WriterDecision, WriterView};
use crate::client;
use crate::cold_hpss;
use crate::cold_hpss::{CaptureGeometry, Ended, FrameClassView, IoCall, Opened};
use crate::error::VncError;
use crate::mvs_stream::{MvsRect, RecordView};

verus! {

/// A decision that ends the capture names the state that it is in.
pub open spec fn decided(o: Outcome) -> bool {
    o.1 matches Ok(WriterDecision::Finalized(state)) ==> o.0.state == state
}

/// The bytes of the unfinished record that are still to come.
pub open spec fn owed(w: WriterView) -> Option<usize> {
    match w.pending {
        Some(p) => Some((p.total - p.accepted) as usize),
        None => None,
    }
}

/// Whether the capture goes on, with the same unfinished record.
pub open spec fn goes_on_alike(o: Outcome, w: WriterView) -> bool {
    o.1 == Ok::<WriterDecision, VncError>(WriterDecision::Continue) ==> o.0.pending == w.pending
}

proof fn lemma_finalized(w: WriterView, clean: bool, timestamp_us: u64, all: Seq<Call>)
    ensures
        decided(capture_writer_model::finalized(w, clean, timestamp_us, all)),
        capture_writer_model::finalized(w, clean, timestamp_us, all).1 != Ok::<
            WriterDecision,
            VncError,
        >(WriterDecision::Continue),
{
    reveal(capture_writer_model::finalized);
}

proof fn lemma_finalized_now(w: WriterView, clean: bool, reason: u16, all: Seq<Call>)
    ensures
        decided(capture_writer_model::finalized_now(w, clean, reason, all)),
        capture_writer_model::finalized_now(w, clean, reason, all).1 != Ok::<
            WriterDecision,
            VncError,
        >(WriterDecision::Continue),
{
    let (v, time) = capture_writer_model::clock_read(
        capture_writer_model::selected(w, clean, reason),
        all,
    );
    if let Ok(timestamp_us) = time {
        lemma_finalized(v, clean, timestamp_us, all);
    }
}

proof fn lemma_gap_emitted(
    w: WriterView,
    gap: crate::mvs_capture_v2::MvsCaptureV2Gap,
    terminal: u16,
    all: Seq<Call>,
)
    ensures
        decided(capture_writer_model::gap_emitted(w, gap, terminal, all)),
        capture_writer_model::gap_emitted(w, gap, terminal, all).1 != Ok::<
            WriterDecision,
            VncError,
        >(WriterDecision::Continue),
{
    reveal(capture_writer_model::gap_emitted);
    let (w1, time) = capture_writer_model::clock_read(w, all);
    if let Ok(timestamp_us) = time {
        let (w2, done) = capture_writer_model::written(
            w1,
            crate::capture_events::EVENT_GAP,
            timestamp_us,
            capture_writer_model::gap_body(gap),
            0,
            all,
        );
        lemma_finalized_now(
            WriterView { gap_count: 1, last_gap: Some(gap), pending: None, assembling: None, ..w2 },
            false,
            terminal,
            all,
        );
    }
}

proof fn lemma_over_at(w: WriterView, now: u64, all: Seq<Call>)
    ensures
        decided(capture_writer_model::over_at(w, now, all)),
        capture_writer_model::over_at(w, now, all).1 != Ok::<WriterDecision, VncError>(
            WriterDecision::Continue,
        ),
{
    if w.pending is Some {
        lemma_gap_emitted(
            w,
            capture_writer_model::pending_gap_view(w.pending->0, 6, (w.pending->0).last),
            263,
            all,
        );
    } else {
        lemma_finalized(capture_writer_model::selected(w, true, 1), true, now, all);
    }
}

proof fn lemma_after_frame(w: WriterView, now: u64, all: Seq<Call>)
    ensures
        decided(capture_writer_model::after_frame(w, now, all)),
        goes_on_alike(capture_writer_model::after_frame(w, now, all), w),
{
    lemma_over_at(w, now, all);
    lemma_finalized(capture_writer_model::selected(w, true, 2), true, now, all);
}

proof fn lemma_clocked_after_frame(w: WriterView, all: Seq<Call>)
    ensures
        decided(capture_writer_model::clocked_after_frame(w, all)),
        goes_on_alike(capture_writer_model::clocked_after_frame(w, all), w),
{
    let (v, time) = capture_writer_model::clock_read(w, all);
    if let Ok(now) = time {
        lemma_after_frame(v, now, all);
    }
}

proof fn lemma_completed(w: WriterView, first: u64, last: u64, record: RecordView, all: Seq<Call>)
    ensures
        decided(capture_writer_model::completed(w, first, last, record, all)),
        goes_on_alike(capture_writer_model::completed(w, first, last, record, all), w),
{
    reveal(capture_writer_model::completed);
    reveal(capture_writer_model::written);
    let (w1, time) = capture_writer_model::clock_read(w, all);
    if let Ok(timestamp_us) = time {
        let (w2, done) = capture_writer_model::written(
            w1,
            crate::capture_events::EVENT_RECORD,
            timestamp_us,
            capture_writer_model::record_body(first, last, record),
            record.payload.len() as usize,
            all,
        );
        let w3 = WriterView {
            kept: w2.kept.push(
                crate::mvs_capture_v2::CaptureRecordView {
                    generation: w2.generation,
                    first,
                    last,
                    record,
                },
            ),
            ..w2
        };
        lemma_clocked_after_frame(
            capture_writer_model::counted_record(w3, record.payload[0]),
            all,
        );
    }
}

proof fn lemma_polled(w: WriterView, all: Seq<Call>)
    ensures
        decided(capture_writer_model::polled(w, all)),
        goes_on_alike(capture_writer_model::polled(w, all), w),
{
    let (v, time) = capture_writer_model::clock_read(w, all);
    if let Ok(now) = time {
        lemma_over_at(v, now, all);
        if v.pending is Some {
            lemma_gap_emitted(
                v,
                capture_writer_model::pending_gap_view(v.pending->0, 5, (v.pending->0).last),
                262,
                all,
            );
        }
    }
}

proof fn lemma_read_refused(w: WriterView, all: Seq<Call>)
    ensures
        decided(capture_writer_model::read_refused(w, all)),
{
    let (v, time) = capture_writer_model::clock_read(w, all);
    if let Ok(now) = time {
        lemma_over_at(v, now, all);
        if v.pending is Some {
            let p = v.pending->0;
            lemma_gap_emitted(v, capture_writer_model::pending_gap_view(p, 5, p.last), 262, all);
            lemma_gap_emitted(v, capture_writer_model::pending_gap_view(p, 7, p.last), 261, all);
        } else {
            lemma_finalized_now(v, false, 261, all);
        }
    }
}

proof fn lemma_cancelled(w: WriterView, all: Seq<Call>)
    ensures
        decided(capture_writer_model::cancelled(w, all)),
{
    if w.pending is Some {
        let p = w.pending->0;
        lemma_gap_emitted(w, capture_writer_model::pending_gap_view(p, 12, p.last), 265, all);
    }
    lemma_finalized_now(w, false, 265, all);
}

proof fn lemma_begin(w: WriterView, rect: MvsRect, total: u32, first: Seq<u8>, all: Seq<Call>)
    requires
        capture_writer_laws::faithful(w),
    ensures
        decided(capture_writer_model::begin_accepted(w, rect, total, first, all)),
        capture_writer_model::begin_accepted(w, rect, total, first, all).1 == Ok::<
            WriterDecision,
            VncError,
        >(WriterDecision::Continue) ==> owed(
            capture_writer_model::begin_accepted(w, rect, total, first, all).0,
        ) == cold_hpss::left_after(total as int, first.len() as int),
{
    let (v, number) = capture_writer_model::numbered(w);
    if let Ok(ordinal) = number {
        if v.pending is Some {
            lemma_gap_emitted(
                v,
                capture_writer_model::pending_gap_view(v.pending->0, 10, ordinal),
                262,
                all,
            );
        }
        lemma_gap_emitted(
            v,
            capture_writer_model::gap_view(2, ordinal, ordinal, total, 0, rect),
            262,
            all,
        );
        lemma_gap_emitted(
            v,
            capture_writer_model::gap_view(3, ordinal, ordinal, total, 0, rect),
            262,
            all,
        );
        lemma_gap_emitted(
            v,
            capture_writer_model::gap_view(11, ordinal, ordinal, total, 0, rect),
            262,
            all,
        );
        let (x, time) = capture_writer_model::clock_read(v, all);
        if let Ok(started_at) = time {
            let (assembling, answer) = crate::mvs_stream::begun(x.assembling, rect, total, first);
            let y = WriterView { assembling, ..x };
            match answer {
                Ok(Some(record)) => lemma_completed(y, ordinal, ordinal, record, all),
                Ok(None) => lemma_after_frame(
                    WriterView {
                        pending: Some(
                            capture_writer_model::PendingProvenance {
                                first: ordinal,
                                last: ordinal,
                                total,
                                accepted: first.len() as u32,
                                rect,
                                started_at,
                            },
                        ),
                        ..y
                    },
                    started_at,
                    all,
                ),
                Err(_) => {},
            }
        }
    }
}

proof fn lemma_continuation(w: WriterView, chunk: Seq<u8>, all: Seq<Call>)
    requires
        capture_writer_laws::faithful(w),
        w.pending is Some,
    ensures
        decided(capture_writer_model::continuation_accepted(w, chunk, all)),
        capture_writer_model::continuation_accepted(w, chunk, all).1 == Ok::<
            WriterDecision,
            VncError,
        >(WriterDecision::Continue) ==> owed(
            capture_writer_model::continuation_accepted(w, chunk, all).0,
        ) == cold_hpss::left_after(owed(w)->0 as int, chunk.len() as int),
{
    let (v, number) = capture_writer_model::numbered(w);
    if let Ok(ordinal) = number {
        let p = v.pending->0;
        lemma_gap_emitted(v, capture_writer_model::pending_gap_view(p, 4, ordinal), 262, all);
        let (assembling, answer) = crate::mvs_stream::continued(v.assembling, chunk);
        let x = WriterView { assembling, ..v };
        match answer {
            Ok(Some(record)) => lemma_completed(
                WriterView { pending: None, ..x },
                p.first,
                ordinal,
                record,
                all,
            ),
            Ok(None) => lemma_clocked_after_frame(
                WriterView {
                    pending: Some(
                        capture_writer_model::PendingProvenance {
                            last: ordinal,
                            accepted: (p.accepted + chunk.len()) as u32,
                            ..p
                        },
                    ),
                    ..x
                },
                all,
            ),
            Err(_) => {},
        }
    }
}

/// Whether a frame completes a record without an area that has a rectangle.
pub open spec fn frame_spoils(
    w: WriterView,
    pending: Option<usize>,
    committed: CaptureGeometry,
    frame: Seq<u8>,
) -> bool {
    match cold_hpss::frame_class(frame, pending is Some, committed) {
        FrameClassView::Continuation => capture_writer_laws::spoils(w, Operation::Continue(frame)),
        FrameClassView::MvsBegin { rect, total, body } => capture_writer_laws::spoils(
            w,
            Operation::Begin { rect, total, first: body },
        ),
        _ => false,
    }
}

/// Whether a frame of the recording completes a record without an area that has a rectangle.
pub open spec fn recording_spoils(
    w: WriterView,
    pending: Option<usize>,
    committed: CaptureGeometry,
    heard: Seq<IoCall>,
    at: int,
    all: Seq<Call>,
) -> bool
    decreases heard.len() - at,
{
    let (w1, watched) = capture_writer_model::polled(w, all);
    if at + 1 >= heard.len() || watched != Ok::<WriterDecision, VncError>(
        WriterDecision::Continue,
    ) {
        false
    } else {
        match heard[at + 1] {
            IoCall::Read(Ok(Some(frame))) => {
                let ((w2, taken), left) = cold_hpss::processed(w1, pending, committed, frame, all);
                frame_spoils(w1, pending, committed, frame) || recording_spoils(
                    w2,
                    left,
                    committed,
                    heard,
                    at + 2,
                    all,
                )
            },
            IoCall::Read(_) => recording_spoils(w1, pending, committed, heard, at + 2, all),
            _ => false,
        }
    }
}

/// What holds when a session has ended: its capture is faithful, and where the session succeeded,
/// the capture has come to a clean end.
pub open spec fn well_ended(ended: Ended) -> bool {
    &&& capture_writer_laws::faithful(ended.0)
    &&& ended.1 is Ok ==> ended.0.state == CaptureState::Clean
}

proof fn lemma_processed(
    w: WriterView,
    pending: Option<usize>,
    committed: CaptureGeometry,
    frame: Seq<u8>,
    all: Seq<Call>,
)
    requires
        capture_writer_laws::faithful(w),
        pending == owed(w),
        !frame_spoils(w, pending, committed, frame),
    ensures
        ({
            let (o, left) = cold_hpss::processed(w, pending, committed, frame, all);
            &&& capture_writer_laws::faithful(o.0)
            &&& decided(o)
            &&& o.1 == Ok::<WriterDecision, VncError>(WriterDecision::Continue) ==> left == owed(
                o.0,
            )
        }),
{
    match cold_hpss::frame_class(frame, pending is Some, committed) {
        FrameClassView::Continuation => {
            capture_writer_laws::law_operations_keep_faithful(w, Operation::Continue(frame), all);
            lemma_continuation(w, frame, all);
        },
        FrameClassView::MvsBegin { rect, total, body } => {
            capture_writer_laws::law_operations_keep_faithful(
                w,
                Operation::Begin { rect, total, first: body },
                all,
            );
            lemma_begin(w, rect, total, body, all);
        },
        FrameClassView::InvalidMvs(rect) => {
            capture_writer_laws::law_operations_keep_faithful(
                w,
                Operation::RejectEnvelope(Some(rect)),
                all,
            );
            let (v, number) = capture_writer_model::numbered(w);
            if let Ok(ordinal) = number {
                lemma_gap_emitted(
                    v,
                    capture_writer_model::gap_view(1, ordinal, ordinal, 0, 0, rect),
                    262,
                    all,
                );
            }
        },
        FrameClassView::GeometryTransition => {
            capture_writer_laws::law_operations_keep_faithful(
                w,
                Operation::GenerationTransition,
                all,
            );
            if w.pending is Some {
                let p = w.pending->0;
                lemma_gap_emitted(w, capture_writer_model::pending_gap_view(p, 8, p.last), 266, all);
            }
            lemma_finalized_now(w, false, 266, all);
        },
        FrameClassView::NonMvs => {
            capture_writer_laws::law_operations_keep_faithful(w, Operation::NonMvs, all);
            lemma_clocked_after_frame(w, all);
        },
    }
}

proof fn lemma_recorded(
    w: WriterView,
    pending: Option<usize>,
    committed: CaptureGeometry,
    heard: Seq<IoCall>,
    at: int,
    all: Seq<Call>,
)
    requires
        capture_writer_laws::faithful(w),
        pending == owed(w),
        0 <= at,
        !recording_spoils(w, pending, committed, heard, at, all),
    ensures
        cold_hpss::recorded(w, pending, committed, heard, at, all) matches Some((ended, _))
            ==> well_ended(ended),
    decreases heard.len() - at,
{
    reveal(cold_hpss::recorded);
    capture_writer_laws::law_operations_keep_faithful(w, Operation::Poll, all);
    lemma_polled(w, all);
    let (w1, watched) = capture_writer_model::polled(w, all);
    if watched == Ok::<WriterDecision, VncError>(WriterDecision::Continue) && at < heard.len() {
        if heard[at] == IoCall::Cancelled(true) {
            capture_writer_laws::law_operations_keep_faithful(w1, Operation::Cancel, all);
            lemma_cancelled(w1, all);
        } else if heard[at] == IoCall::Cancelled(false) && at + 1 < heard.len() {
            match heard[at + 1] {
                IoCall::Read(Ok(None)) => {
                    lemma_recorded(w1, pending, committed, heard, at + 2, all);
                },
                IoCall::Read(Err(e)) => {
                    if client::traced_to(e, client::FailureKind::TimedOut) {
                        lemma_recorded(w1, pending, committed, heard, at + 2, all);
                    } else {
                        capture_writer_laws::law_operations_keep_faithful(
                            w1,
                            Operation::ReadFailed,
                            all,
                        );
                        lemma_read_refused(w1, all);
                    }
                },
                IoCall::Read(Ok(Some(frame))) => {
                    lemma_processed(w1, pending, committed, frame, all);
                    let ((w2, taken), left) = cold_hpss::processed(
                        w1,
                        pending,
                        committed,
                        frame,
                        all,
                    );
                    if taken == Ok::<WriterDecision, VncError>(WriterDecision::Continue) {
                        lemma_recorded(w2, left, committed, heard, at + 2, all);
                    }
                },
                _ => {},
            }
        }
    }
}

/// What holds when a session has been opened, or has ended at that.
pub open spec fn well_opened(o: Opened) -> bool {
    match o {
        Opened::Ended { ended, heard } => well_ended(ended),
        Opened::Ready { writer, heard } => capture_writer_laws::faithful(writer) && writer.pending is None,
        Opened::Unheard => true,
    }
}

proof fn lemma_trigger_sent(
    w: WriterView,
    message: Seq<u8>,
    bit: u32,
    heard: Seq<IoCall>,
    at: int,
    all: Seq<Call>,
)
    requires
        capture_writer_laws::faithful(w),
        w.pending is None,
    ensures
        well_opened(cold_hpss::trigger_sent(w, message, bit, heard, at, all)),
{
    capture_writer_laws::law_operations_keep_faithful(w, Operation::TriggerWritten(bit), all);
    capture_writer_laws::law_operations_keep_faithful(w, Operation::TriggerFailed, all);
    let (v, time) = capture_writer_model::clock_read(
        WriterView { trigger_mask: (w.trigger_mask + bit) as u32, ..w },
        all,
    );
    if let Ok(now) = time {
        lemma_finalized(capture_writer_model::selected(v, false, 260), false, now, all);
    }
}

proof fn lemma_written_alike(
    w: WriterView,
    kind: u16,
    timestamp_us: u64,
    body: Seq<u8>,
    payload: usize,
    all: Seq<Call>,
)
    ensures
        capture_writer_model::written(w, kind, timestamp_us, body, payload, all).0.pending
            == w.pending,
{
    reveal(capture_writer_model::written);
}

proof fn lemma_recording_opened(w: WriterView, all: Seq<Call>)
    ensures
        goes_on_alike(capture_writer_model::recording_opened(w, all), w),
{
    let (w1, time) = capture_writer_model::clock_read(w, all);
    if let Ok(timestamp_us) = time {
        let body = crate::wire::be64_bytes(0);
        lemma_written_alike(
            w1,
            crate::capture_events::EVENT_RECORDING,
            timestamp_us,
            body,
            0,
            all,
        );
        let (w2, done) = capture_writer_model::written(
            w1,
            crate::capture_events::EVENT_RECORDING,
            timestamp_us,
            body,
            0,
            all,
        );
        lemma_finalized_now(w2, false, 260, all);
        let (w3, flushed) = capture_writer_model::asked(
            w2,
            capture_writer_model::Action::Flush,
            all,
        );
        lemma_finalized_now(w3, false, 260, all);
        let (w4, last) = capture_writer_model::clock_read(w3, all);
        if let Ok(now) = last {
            lemma_finalized(capture_writer_model::selected(w4, false, 260), false, now, all);
        }
    }
}

proof fn lemma_gate_written(w: WriterView, all: Seq<Call>)
    ensures
        goes_on_alike(capture_writer_model::gate_written(w, all), w),
{
    let (w1, time) = capture_writer_model::clock_read(w, all);
    if let Ok(timestamp_us) = time {
        lemma_finalized(capture_writer_model::selected(w1, false, 260), false, timestamp_us, all);
        let body = capture_writer_model::triggered_body((w.armed->0).requested);
        lemma_written_alike(
            w1,
            crate::capture_events::EVENT_TRIGGERED,
            timestamp_us,
            body,
            0,
            all,
        );
        let (w2, done) = capture_writer_model::written(
            w1,
            crate::capture_events::EVENT_TRIGGERED,
            timestamp_us,
            body,
            0,
            all,
        );
        lemma_finalized_now(w2, false, 260, all);
        let (w3, after) = capture_writer_model::clock_read(w2, all);
        if let Ok(now) = after {
            lemma_finalized(capture_writer_model::selected(w3, false, 260), false, now, all);
            lemma_recording_opened(w3, all);
        }
    }
}

proof fn lemma_gate_opened(w: WriterView, heard: Seq<IoCall>, at: int, all: Seq<Call>)
    requires
        capture_writer_laws::faithful(w),
        w.pending is None,
    ensures
        well_opened(cold_hpss::gate_opened(w, heard, at, all)),
{
    capture_writer_laws::law_operations_keep_faithful(w, Operation::RecordingGate, all);
    lemma_gate_written(w, all);
    let v = capture_writer_model::gate_written(w, all).0;
    capture_writer_laws::law_operations_keep_faithful(v, Operation::ReadFailed, all);
    lemma_read_refused(v, all);
}

proof fn lemma_triggered(
    w: WriterView,
    requested: CaptureGeometry,
    heard: Seq<IoCall>,
    at: int,
    all: Seq<Call>,
)
    requires
        capture_writer_laws::faithful(w),
        w.pending is None,
    ensures
        well_opened(cold_hpss::triggered(w, requested, heard, at, all)),
{
    let name = crate::hpss::display_config_bytes(
        vstd::utf8::encode_utf8(cold_hpss::COLD_DISPLAY_NAME@),
    );
    let query = crate::hpss::display_query_bytes(requested.width, requested.height);
    let request = crate::protocol::update_request_bytes(
        false,
        0,
        0,
        requested.width,
        requested.height,
    );
    lemma_trigger_sent(w, name, 1, heard, at, all);
    if let Opened::Ready { writer: w1, heard: at1 } = cold_hpss::trigger_sent(
        w,
        name,
        1,
        heard,
        at,
        all,
    ) {
        lemma_trigger_sent(w1, query, 2, heard, at1, all);
        if let Opened::Ready { writer: w2, heard: at2 } = cold_hpss::trigger_sent(
            w1,
            query,
            2,
            heard,
            at1,
            all,
        ) {
            lemma_trigger_sent(w2, request, 4, heard, at2, all);
            if let Opened::Ready { writer: w3, heard: at3 } = cold_hpss::trigger_sent(
                w2,
                request,
                4,
                heard,
                at2,
                all,
            ) {
                lemma_gate_opened(w3, heard, at3, all);
            }
        }
    }
}

proof fn lemma_opened(
    w: WriterView,
    requested: CaptureGeometry,
    heard: Seq<IoCall>,
    at: int,
    all: Seq<Call>,
)
    requires
        capture_writer_laws::faithful(w),
        w.pending is None,
    ensures
        well_opened(cold_hpss::opened(w, requested, heard, at, all)),
{
    let config = ArmedConfig { committed: requested, requested };
    capture_writer_laws::law_operations_keep_faithful(w, Operation::AuthenticationFailed, all);
    capture_writer_laws::law_operations_keep_faithful(w, Operation::Arm(config), all);
    let w1 = capture_writer_model::armed(w, config, all).0;
    if cold_hpss::required(capture_writer_model::armed(w, config, all)).1 is Ok {
        lemma_armed_pending(w, config, all);
        capture_writer_laws::law_operations_keep_faithful(w1, Operation::BeginTrigger, all);
        let w2 = capture_writer_model::trigger_begun(w1, all).0;
        if cold_hpss::required(capture_writer_model::trigger_begun(w1, all)).1 is Ok {
            lemma_trigger_begun_pending(w1, all);
            lemma_triggered(w2, requested, heard, at + 1, all);
        }
    }
}

proof fn lemma_armed_pending(w: WriterView, config: ArmedConfig, all: Seq<Call>)
    requires
        w.pending is None,
        capture_writer_model::armed(w, config, all).1 == Ok::<WriterDecision, VncError>(
            WriterDecision::Continue,
        ),
    ensures
        capture_writer_model::armed(w, config, all).0.pending is None,
{
    reveal(capture_writer_model::written);
    reveal(capture_writer_model::finalized);
}

proof fn lemma_trigger_begun_pending(w: WriterView, all: Seq<Call>)
    requires
        w.pending is None,
        capture_writer_model::trigger_begun(w, all).1 == Ok::<WriterDecision, VncError>(
            WriterDecision::Continue,
        ),
    ensures
        capture_writer_model::trigger_begun(w, all).0.pending is None,
{
    reveal(capture_writer_model::finalized);
}

/// Whether a frame of the session completes a record without an area that has a rectangle.
pub open spec fn session_spoils(
    w: WriterView,
    requested: CaptureGeometry,
    heard: Seq<IoCall>,
    at: int,
    all: Seq<Call>,
) -> bool {
    match cold_hpss::opened(w, requested, heard, at, all) {
        Opened::Ready { writer, heard: next } => recording_spoils(
            writer,
            None,
            requested,
            heard,
            next,
            all,
        ),
        _ => false,
    }
}

/// Whatever the connection, the sink and the clock answer, what a session captured can be read:
/// once its capture has ended, the bytes that were written are a capture file that the reader
/// accepts; and a session succeeds only where that is a planned capture with a planned end.
pub proof fn law_session_is_read_back(
    config: CreatedConfig,
    requested: CaptureGeometry,
    heard: Seq<IoCall>,
    all: Seq<Call>,
)
    requires
        capture_writer_model::config_refusal(config) is None,
        !session_spoils(
            capture_writer_model::created_writer(config),
            requested,
            heard,
            0,
            all,
        ),
    ensures
        cold_hpss::session(
            capture_writer_model::created_writer(config),
            requested,
            heard,
            0,
            all,
        ) matches Some((ended, _)) ==> {
            let w = ended.0;
            &&& w.state == CaptureState::Clean || w.state == CaptureState::Aborted
                ==> capture_writer_laws::readable(w)
            &&& ended.1 is Ok ==> crate::capture_reader::strict_read(
                capture_writer_laws::sent(w.calls),
            ) is Ok
        },
{
    let w = capture_writer_model::created_writer(config);
    capture_writer_laws::law_created_is_faithful(config);
    lemma_opened(w, requested, heard, 0, all);
    if let Opened::Ready { writer, heard: next } = cold_hpss::opened(w, requested, heard, 0, all) {
        lemma_opened_heard(w, requested, heard, 0, all);
        lemma_recorded(writer, None, requested, heard, next, all);
    }
}

/// Whether the answer at `i` is that of a read.
pub open spec fn is_read(heard: Seq<IoCall>, i: int) -> bool {
    heard[i] is Read
}

proof fn lemma_opened_heard(
    w: WriterView,
    requested: CaptureGeometry,
    heard: Seq<IoCall>,
    at: int,
    all: Seq<Call>,
)
    requires
        0 <= at,
    ensures
        match cold_hpss::opened(w, requested, heard, at, all) {
            Opened::Ready { writer, heard: next } => next == at + 5 && begins_session(
                requested,
                heard,
                at,
            ),
            Opened::Ended { ended, heard: next } => at <= next <= heard.len() && forall|i: int|
                at <= i < next ==> !#[trigger] is_read(heard, i),
            Opened::Unheard => true,
        },
{
}

/// Whether the answers are those of a connection that is encrypted, took the three parts of the
/// trigger one after the other, and then a limit on how long a read may wait.
pub open spec fn begins_session(requested: CaptureGeometry, heard: Seq<IoCall>, at: int) -> bool {
    &&& at + 5 <= heard.len()
    &&& heard[at] == IoCall::Encrypted(true)
    &&& heard[at + 1] == IoCall::Wrote(
        crate::hpss::display_config_bytes(
            vstd::utf8::encode_utf8(cold_hpss::COLD_DISPLAY_NAME@),
        ),
        true,
    )
    &&& heard[at + 2] == IoCall::Wrote(
        crate::hpss::display_query_bytes(requested.width, requested.height),
        true,
    )
    &&& heard[at + 3] == IoCall::Wrote(
        crate::protocol::update_request_bytes(
            false,
            0,
            0,
            requested.width,
            requested.height,
        ),
        true,
    )
    &&& heard[at + 4] == IoCall::TimeoutSet(cold_hpss::RECORDING_READ_POLL_MILLIS, true)
}

/// Nothing is read before the session is encrypted, the whole trigger was sent in its order, and
/// the wait of a read is limited.
pub proof fn law_nothing_is_read_before_the_trigger(
    w: WriterView,
    requested: CaptureGeometry,
    heard: Seq<IoCall>,
    at: int,
    all: Seq<Call>,
    read: int,
)
    requires
        0 <= at <= read,
        cold_hpss::session(w, requested, heard, at, all) matches Some((_, end)) && read < end,
        is_read(heard, read),
    ensures
        begins_session(requested, heard, at),
        at + 5 <= read,
{
    lemma_opened_heard(w, requested, heard, at, all);
}

/// A connection that is not encrypted is sent nothing and nothing is read from it.
pub proof fn law_unencrypted_session_ends(
    w: WriterView,
    requested: CaptureGeometry,
    heard: Seq<IoCall>,
    at: int,
    all: Seq<Call>,
)
    requires
        0 <= at < heard.len(),
        heard[at] == IoCall::Encrypted(false),
    ensures
        cold_hpss::session(w, requested, heard, at, all) matches Some((ended, end)) && ended.1 is Err
            && end == at + 1,
{
}

/// While a record is being received, every frame is a chunk of it, whatever it looks like.
pub proof fn law_pending_record_owns_every_frame(frame: Seq<u8>, committed: CaptureGeometry)
    ensures
        cold_hpss::frame_class(frame, true, committed) == FrameClassView::Continuation,
{
}

} // verus!
