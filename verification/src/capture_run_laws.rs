//! How a capture goes on and ends: frames without a record leave no trace in it, and the operator can
//! end it at any time.

use vstd::prelude::*;
use crate::capture_events::{EVENT_ABORTED, EVENT_GAP, MVS_CAPTURE_V2_MAX_CUMULATIVE_PAYLOAD};
use crate::capture_events::MVS_CAPTURE_V2_MAX_RECORDS;
use crate::capture_writer_laws;
use crate::capture_writer_laws::Operation;
use crate::capture_writer_model;
use crate::capture_writer_model::{Action, ArmedConfig, Call, CaptureState, CreatedConfig};
use crate::capture_writer_model::{PendingProvenance, WriterDecision, WriterView};
use crate::error::VncError;
use crate::mvs_capture_v2::MvsCaptureV2Gap;
use crate::mvs_stream::{MvsRect, RecordView};

verus! {

/// What is wrong with the end of a capture whose last event is request `at`: the first failure
/// among writing it, closing the sink, synchronising its file and releasing it.
pub open spec fn end_failure(all: Seq<Call>, at: int) -> Option<VncError> {
    let written = capture_writer_model::first_failure(None, all[at].answer, "写入 terminal event");
    let closed = capture_writer_model::first_failure(
        written,
        all[at + 1].answer,
        "final implicit flush",
    );
    let synced = capture_writer_model::first_failure(
        closed,
        all[at + 2].answer,
        "final file sync_data",
    );
    capture_writer_model::first_failure(synced, all[at + 3].answer, "final file relinquish")
}

/// The requests that end a capture: its last event is written, the sink is closed, its file is
/// synchronised and released, whatever the answers are.
pub open spec fn end_requests(last: Seq<u8>, all: Seq<Call>, at: int) -> Seq<Call> {
    seq![
        Call { action: Action::Write(last), answer: all[at].answer },
        Call { action: Action::Close, answer: all[at + 1].answer },
        Call { action: Action::SyncFile, answer: all[at + 2].answer },
        Call { action: Action::Release, answer: all[at + 3].answer },
    ]
}

/// A reading of the clock that does not go back.
pub open spec fn reads_clock(all: Seq<Call>, at: int, since: u64) -> bool {
    all[at].answer matches Ok(now) && now >= since
}

/// The time that the clock told.
pub open spec fn time_at(all: Seq<Call>, at: int) -> u64 {
    all[at].answer->Ok_0
}

/// The request that read the clock.
pub open spec fn clock_request(all: Seq<Call>, at: int) -> Call {
    Call { action: Action::ReadClock, answer: all[at].answer }
}

/// The bytes of the end of a capture that the operator cancelled.
pub open spec fn cancelled_end(w: WriterView, time: u64) -> Seq<u8> {
    crate::capture_events::event_bytes(
        capture_writer_model::next_event(
            w,
            EVENT_ABORTED,
            time,
            capture_writer_model::terminal_body(
                WriterView { terminal_reason: Some(265), ..w },
            ),
        ),
    )
}

/// Whether a capture whose end is request `at` ended as one that the operator cancelled.
pub open spec fn ended_by_operator(
    v: WriterView,
    r: Result<WriterDecision, VncError>,
    all: Seq<Call>,
    at: int,
) -> bool {
    &&& !v.open
    &&& v.terminal_reason == Some(265u16)
    &&& v.abort_reason == Some(265u16)
    &&& match end_failure(all, at) {
        None => r == Ok::<WriterDecision, VncError>(
            WriterDecision::Finalized(CaptureState::Aborted),
        ) && v.state == CaptureState::Aborted,
        Some(e) => r == Err::<WriterDecision, VncError>(e) && v.state == CaptureState::Finalizing,
    }
}

/// The operator can end a capture that goes on and has no unfinished record: there is room for the
/// end, which is the only event that is written, and the sink is closed and its file synchronised
/// and released whatever fails. The capture is given up for the operator's reason, and the first
/// failure, where there is one, is the answer.
pub proof fn law_cancel_ends(w: WriterView, all: Seq<Call>)
    requires
        capture_writer_model::counted(w),
        capture_writer_model::ongoing(w.state),
        w.open,
        w.pending is None || w.state != CaptureState::Recording,
        reads_clock(all, w.calls.len() as int, w.last_timestamp),
    ensures
        ({
            let (v, r) = capture_writer_model::cancelled(w, all);
            let n = w.calls.len() as int;
            &&& ended_by_operator(v, r, all, n + 1)
            &&& v.calls == w.calls.push(clock_request(all, n)) + end_requests(
                cancelled_end(w, time_at(all, n)),
                all,
                n + 1,
            )
            &&& v.gap_count == w.gap_count
            &&& v.last_gap == w.last_gap
        }),
{
    reveal(capture_writer_model::finalized);
    reveal(capture_writer_model::terminal_body);
    let n = w.calls.len() as int;
    let (v, r) = capture_writer_model::cancelled(w, all);
    assert(v.calls =~= w.calls.push(clock_request(all, n)) + end_requests(
        cancelled_end(w, time_at(all, n)),
        all,
        n + 1,
    ));
}

/// The gap that an unfinished record leaves where the operator cancels the capture.
pub open spec fn cancelled_gap(p: PendingProvenance) -> MvsCaptureV2Gap {
    MvsCaptureV2Gap {
        reason: 12,
        stage: 7,
        first_source_frame_ordinal: p.first,
        last_source_frame_ordinal: p.last,
        declared_total: p.total,
        accumulated_bytes: p.accepted,
        rect: p.rect,
    }
}

/// The bytes of a gap.
pub open spec fn gap_bytes(w: WriterView, gap: MvsCaptureV2Gap, time: u64) -> Seq<u8> {
    crate::capture_events::event_bytes(
        capture_writer_model::next_event(
            w,
            EVENT_GAP,
            time,
            capture_writer_model::gap_body(gap),
        ),
    )
}

/// The writer once the gap of an unfinished record is in the file.
pub open spec fn behind_gap(w: WriterView, gap: MvsCaptureV2Gap) -> WriterView {
    WriterView {
        event_ordinal: (w.event_ordinal + 1) as u64,
        event_count: (w.event_count + 1) as usize,
        gap_count: 1,
        last_gap: Some(gap),
        ..w
    }
}

/// The operator can end a capture while a record is unfinished: a gap tells of that record, the end
/// follows it, and the rest is as without one. There is room for both as long as no more records
/// are in the file than a capture may have.
pub proof fn law_cancel_ends_unfinished(w: WriterView, all: Seq<Call>)
    requires
        capture_writer_model::counted(w),
        w.state == CaptureState::Recording,
        w.open,
        w.pending is Some,
        w.records <= MVS_CAPTURE_V2_MAX_RECORDS,
        reads_clock(all, w.calls.len() as int, w.last_timestamp),
        all[w.calls.len() as int + 1].answer is Ok,
        reads_clock(all, w.calls.len() as int + 2, time_at(all, w.calls.len() as int)),
    ensures
        ({
            let (v, r) = capture_writer_model::cancelled(w, all);
            let n = w.calls.len() as int;
            let gap = cancelled_gap(w.pending->0);
            let written = Call {
                action: Action::Write(gap_bytes(w, gap, time_at(all, n))),
                answer: all[n + 1].answer,
            };
            &&& ended_by_operator(v, r, all, n + 3)
            &&& v.calls == w.calls.push(clock_request(all, n)).push(written).push(
                clock_request(all, n + 2),
            ) + end_requests(
                cancelled_end(behind_gap(w, gap), time_at(all, n + 2)),
                all,
                n + 3,
            )
            &&& v.gap_count == 1
            &&& v.last_gap == Some(gap)
        }),
{
    reveal(capture_writer_model::finalized);
    reveal(capture_writer_model::written);
    reveal(capture_writer_model::gap_emitted);
    reveal(capture_writer_model::terminal_body);
    let n = w.calls.len() as int;
    let gap = cancelled_gap(w.pending->0);
    let (v, r) = capture_writer_model::cancelled(w, all);
    let written = Call {
        action: Action::Write(gap_bytes(w, gap, time_at(all, n))),
        answer: all[n + 1].answer,
    };
    assert(capture_writer_model::pending_gap_view(w.pending->0, 12, (w.pending->0).last) == gap);
    assert(v.calls =~= w.calls.push(clock_request(all, n)).push(written).push(
        clock_request(all, n + 2),
    ) + end_requests(cancelled_end(behind_gap(w, gap), time_at(all, n + 2)), all, n + 3));
}

/// With more records in the file than a capture may have, which takes a record that was refused
/// after it was written, there is no room for a gap and the end: a capture that is cancelled while a
/// record is unfinished is then given up. Nothing more is written, the sink is closed and its file
/// synchronised and released.
pub proof fn law_cancel_without_room(w: WriterView, all: Seq<Call>)
    requires
        capture_writer_model::counted(w),
        w.state == CaptureState::Recording,
        w.open,
        w.pending is Some,
        w.records > MVS_CAPTURE_V2_MAX_RECORDS,
    ensures
        ({
            let (v, r) = capture_writer_model::cancelled(w, all);
            let n = w.calls.len() as int;
            &&& r == Err::<WriterDecision, VncError>(VncError::Text("V2 event 数量超过上限"))
            &&& !v.open
            &&& v.state == CaptureState::Finalizing
            &&& v.calls == w.calls.push(
                Call { action: Action::Close, answer: all[n].answer },
            ).push(Call { action: Action::SyncFile, answer: all[n + 1].answer }).push(
                Call { action: Action::Release, answer: all[n + 2].answer },
            )
        }),
{
    reveal(capture_writer_model::gap_emitted);
}

/// Whatever fails, a capture that the operator ends is over: the sink is closed and its file
/// synchronised and released, by the last three requests, and the answer is the end or a failure.
pub proof fn law_cancel_releases(w: WriterView, all: Seq<Call>)
    requires
        capture_writer_model::ongoing(w.state),
        w.open,
    ensures
        ({
            let (v, r) = capture_writer_model::cancelled(w, all);
            let n = v.calls.len() as int;
            &&& !v.open
            &&& !capture_writer_model::ongoing(v.state)
            &&& n >= w.calls.len() + 3
            &&& v.calls[n - 3].action == Action::Close
            &&& v.calls[n - 2].action == Action::SyncFile
            &&& v.calls[n - 1].action == Action::Release
            &&& r is Err || r == Ok::<WriterDecision, VncError>(
                WriterDecision::Finalized(CaptureState::Aborted),
            )
        }),
{
    reveal(capture_writer_model::finalized);
    reveal(capture_writer_model::written);
    reveal(capture_writer_model::gap_emitted);
}

/// Two writers that differ in the time that they last knew and in one reading of the clock more.
pub open spec fn alike(w: WriterView, v: WriterView) -> bool {
    v == (WriterView { calls: v.calls, last_timestamp: v.last_timestamp, ..w })
}

/// Two writers of which the second has read the clock once more, at `now`.
spec fn twins(w: WriterView, v: WriterView, now: u64) -> bool {
    &&& alike(w, v)
    &&& v.calls.len() == w.calls.len() + 1
    &&& v.last_timestamp == w.last_timestamp || (w.last_timestamp <= now && v.last_timestamp == now)
}

/// Answers of which the second have one reading of the clock more, before `from`, at `now`, behind
/// which the clock does not go back.
spec fn shifted(all: Seq<Call>, more: Seq<Call>, from: int, now: u64) -> bool {
    &&& forall|i: int|
        from <= i < all.len() ==> more[i + 1].answer == (#[trigger] all[i]).answer
    &&& goes_on(all, from, now)
}

/// Whether no reading of the clock from `from` on is before `now`.
pub open spec fn goes_on(all: Seq<Call>, from: int, now: u64) -> bool {
    forall|i: int|
        from <= i < all.len() && (#[trigger] all[i]).action is ReadClock && all[i].answer is Ok
            ==> all[i].answer->Ok_0 >= now
}

/// What the lemmas on two writers need.
spec fn paired(
    w: WriterView,
    v: WriterView,
    all: Seq<Call>,
    more: Seq<Call>,
    from: int,
    now: u64,
) -> bool {
    &&& twins(w, v, now)
    &&& from <= w.calls.len()
    &&& shifted(all, more, from, now)
}

/// Whether two outcomes are the same, and leave such writers.
spec fn same(
    o: (WriterView, Result<WriterDecision, VncError>),
    q: (WriterView, Result<WriterDecision, VncError>),
    now: u64,
) -> bool {
    &&& twins(o.0, q.0, now)
    &&& o.1 == q.1
}

/// Writing an event, ending a capture, and what is made of these ask more and more.
proof fn lemma_asks_more()
    ensures
        forall|w: WriterView, clean: bool, time: u64, all: Seq<Call>|
            capture_writer_model::extends(
                (#[trigger] capture_writer_model::finalized(w, clean, time, all)).0.calls,
                w.calls,
            ),
        forall|w: WriterView, kind: u16, time: u64, body: Seq<u8>, payload: usize, all: Seq<Call>|
            capture_writer_model::extends(
                (#[trigger] capture_writer_model::written(
                    w,
                    kind,
                    time,
                    body,
                    payload,
                    all,
                )).0.calls,
                w.calls,
            ),
{
    reveal(capture_writer_model::finalized);
    reveal(capture_writer_model::written);
}

/// A gap and a record ask more and more.
proof fn lemma_recording_asks_more()
    ensures
        forall|w: WriterView, gap: MvsCaptureV2Gap, reason: u16, all: Seq<Call>|
            capture_writer_model::extends(
                (#[trigger] capture_writer_model::gap_emitted(w, gap, reason, all)).0.calls,
                w.calls,
            ),
        forall|w: WriterView, first: u64, last: u64, record: RecordView, all: Seq<Call>|
            capture_writer_model::extends(
                (#[trigger] capture_writer_model::completed(w, first, last, record, all)).0.calls,
                w.calls,
            ),
{
    lemma_asks_more();
    assert forall|w: WriterView, gap: MvsCaptureV2Gap, reason: u16, all: Seq<Call>|
        capture_writer_model::extends(
            (#[trigger] capture_writer_model::gap_emitted(w, gap, reason, all)).0.calls,
            w.calls,
        ) by {
        reveal(capture_writer_model::gap_emitted);
    }
    assert forall|w: WriterView, first: u64, last: u64, record: RecordView, all: Seq<Call>|
        capture_writer_model::extends(
            (#[trigger] capture_writer_model::completed(w, first, last, record, all)).0.calls,
            w.calls,
        ) by {
        reveal(capture_writer_model::completed);
    }
}

/// Whether an operation arms the capture, begins the recording or takes a part of a record.
spec fn writes(op: Operation) -> bool {
    op is Arm || op is RecordingGate || op is Begin || op is Continue
}

proof fn lemma_arming_asks_more(w: WriterView, config: ArmedConfig, all: Seq<Call>)
    ensures
        capture_writer_model::extends(
            capture_writer_model::armed(w, config, all).0.calls,
            w.calls,
        ),
{
    lemma_asks_more();
}

proof fn lemma_gate_asks_more(w: WriterView, all: Seq<Call>)
    ensures
        capture_writer_model::extends(capture_writer_model::gate_written(w, all).0.calls, w.calls),
{
    lemma_asks_more();
}

#[verifier::rlimit(40)]
proof fn lemma_chunk_asks_more(
    w: WriterView,
    rect: MvsRect,
    total: u32,
    first: Seq<u8>,
    all: Seq<Call>,
)
    ensures
        capture_writer_model::extends(
            capture_writer_model::begin_accepted(w, rect, total, first, all).0.calls,
            w.calls,
        ),
        capture_writer_model::extends(
            capture_writer_model::continuation_accepted(w, first, all).0.calls,
            w.calls,
        ),
{
    lemma_asks_more();
    lemma_recording_asks_more();
}

#[verifier::rlimit(40)]
proof fn lemma_others_ask_more(w: WriterView, op: Operation, all: Seq<Call>)
    requires
        !writes(op),
    ensures
        capture_writer_model::extends(
            capture_writer_laws::performed(w, op, all).0.calls,
            w.calls,
        ),
{
    lemma_asks_more();
    lemma_recording_asks_more();
}

/// The requests of an operation come behind those before it.
pub proof fn law_operations_ask_more(w: WriterView, op: Operation, all: Seq<Call>)
    ensures
        capture_writer_model::extends(
            capture_writer_laws::performed(w, op, all).0.calls,
            w.calls,
        ),
{
    match op {
        Operation::Arm(config) => lemma_arming_asks_more(w, config, all),
        Operation::RecordingGate => lemma_gate_asks_more(w, all),
        Operation::Begin { rect, total, first } => lemma_chunk_asks_more(
            w,
            rect,
            total,
            first,
            all,
        ),
        Operation::Continue(chunk) => lemma_chunk_asks_more(
            w,
            crate::mvs_capture_v2::empty_rect(),
            0,
            chunk,
            all,
        ),
        _ => lemma_others_ask_more(w, op, all),
    }
}

proof fn lemma_clock_twins(
    w: WriterView,
    v: WriterView,
    all: Seq<Call>,
    more: Seq<Call>,
    from: int,
    now: u64,
)
    requires
        paired(w, v, all, more, from, now),
        capture_writer_model::extends(all, capture_writer_model::clock_read(w, all).0.calls),
    ensures
        ({
            let (x, t) = capture_writer_model::clock_read(w, all);
            let (y, u) = capture_writer_model::clock_read(v, more);
            twins(x, y, now) && t == u
        }),
{
    let n = w.calls.len() as int;
    assert(all[n] == capture_writer_model::clock_read(w, all).0.calls[n]);
    assert(more[n + 1].answer == all[n].answer);
}

proof fn lemma_asked_twins(
    w: WriterView,
    v: WriterView,
    action: Action,
    all: Seq<Call>,
    more: Seq<Call>,
    from: int,
    now: u64,
)
    requires
        paired(w, v, all, more, from, now),
        w.calls.len() < all.len(),
    ensures
        ({
            let (x, a) = capture_writer_model::asked(w, action, all);
            let (y, b) = capture_writer_model::asked(v, action, more);
            twins(x, y, now) && a == b
        }),
{
    assert(more[w.calls.len() as int + 1].answer == all[w.calls.len() as int].answer);
}

proof fn lemma_consumed_twins(
    w: WriterView,
    v: WriterView,
    failure: Option<VncError>,
    all: Seq<Call>,
    more: Seq<Call>,
    from: int,
    now: u64,
)
    requires
        paired(w, v, all, more, from, now),
        capture_writer_model::extends(all, capture_writer_model::consumed(w, failure, all).0.calls),
    ensures
        ({
            let (x, a) = capture_writer_model::consumed(w, failure, all);
            let (y, b) = capture_writer_model::consumed(v, failure, more);
            twins(x, y, now) && a == b
        }),
{
    lemma_asked_twins(w, v, Action::Close, all, more, from, now);
    let w1 = capture_writer_model::asked(w, Action::Close, all).0;
    let v1 = capture_writer_model::asked(v, Action::Close, more).0;
    lemma_asked_twins(w1, v1, Action::SyncFile, all, more, from, now);
    let w2 = capture_writer_model::asked(w1, Action::SyncFile, all).0;
    let v2 = capture_writer_model::asked(v1, Action::SyncFile, more).0;
    lemma_asked_twins(w2, v2, Action::Release, all, more, from, now);
}

proof fn lemma_given_up_twins(
    w: WriterView,
    v: WriterView,
    error: VncError,
    all: Seq<Call>,
    more: Seq<Call>,
    from: int,
    now: u64,
)
    requires
        paired(w, v, all, more, from, now),
        capture_writer_model::extends(all, capture_writer_model::given_up(w, error, all).0.calls),
    ensures
        same(
            capture_writer_model::given_up(w, error, all),
            capture_writer_model::given_up(v, error, more),
            now,
        ),
{
    if w.open {
        let x = WriterView { state: CaptureState::Finalizing, open: false, ..w };
        let y = WriterView { state: CaptureState::Finalizing, open: false, ..v };
        lemma_consumed_twins(x, y, Some(error), all, more, from, now);
    }
}

proof fn lemma_terminal_twins(w: WriterView, v: WriterView)
    requires
        alike(w, v),
    ensures
        capture_writer_model::terminal_body(w) == capture_writer_model::terminal_body(v),
{
    reveal(capture_writer_model::terminal_body);
}

proof fn lemma_finalized_twins(
    w: WriterView,
    v: WriterView,
    clean: bool,
    time: u64,
    all: Seq<Call>,
    more: Seq<Call>,
    from: int,
    now: u64,
)
    requires
        paired(w, v, all, more, from, now),
        capture_writer_model::extends(
            all,
            capture_writer_model::finalized(w, clean, time, all).0.calls,
        ),
    ensures
        same(
            capture_writer_model::finalized(w, clean, time, all),
            capture_writer_model::finalized(v, clean, time, more),
            now,
        ),
{
    reveal(capture_writer_model::finalized);
    lemma_terminal_twins(w, v);
    match capture_writer_model::preflight_refusal(w, 1) {
        Some(e) => lemma_given_up_twins(w, v, e, all, more, from, now),
        None => {
            let kind = if clean {
                crate::capture_events::EVENT_CLEAN
            } else {
                EVENT_ABORTED
            };
            let e = capture_writer_model::next_event(
                w,
                kind,
                time,
                capture_writer_model::terminal_body(w),
            );
            let action = Action::Write(crate::capture_events::event_bytes(e));
            let x = WriterView { open: false, ..w };
            let y = WriterView { open: false, ..v };
            lemma_asked_twins(x, y, action, all, more, from, now);
            let (w1, answer) = capture_writer_model::asked(x, action, all);
            let (v1, _) = capture_writer_model::asked(y, action, more);
            let (w2, v2) = if answer is Ok {
                (capture_writer_model::with_event(w1, e), capture_writer_model::with_event(v1, e))
            } else {
                (w1, v1)
            };
            let failure = capture_writer_model::first_failure(
                None,
                answer,
                "写入 terminal event",
            );
            lemma_consumed_twins(w2, v2, failure, all, more, from, now);
        },
    }
}

proof fn lemma_finalized_now_twins(
    w: WriterView,
    v: WriterView,
    clean: bool,
    reason: u16,
    all: Seq<Call>,
    more: Seq<Call>,
    from: int,
    now: u64,
)
    requires
        paired(w, v, all, more, from, now),
        capture_writer_model::extends(
            all,
            capture_writer_model::finalized_now(w, clean, reason, all).0.calls,
        ),
    ensures
        same(
            capture_writer_model::finalized_now(w, clean, reason, all),
            capture_writer_model::finalized_now(v, clean, reason, more),
            now,
        ),
{
    lemma_asks_more();
    let x = capture_writer_model::selected(w, clean, reason);
    let y = capture_writer_model::selected(v, clean, reason);
    lemma_clock_twins(x, y, all, more, from, now);
    let (w1, time) = capture_writer_model::clock_read(x, all);
    let (v1, _) = capture_writer_model::clock_read(y, more);
    match time {
        Err(e) => lemma_given_up_twins(w1, v1, e, all, more, from, now),
        Ok(t) => lemma_finalized_twins(w1, v1, clean, t, all, more, from, now),
    }
}

proof fn lemma_written_twins(
    w: WriterView,
    v: WriterView,
    kind: u16,
    time: u64,
    body: Seq<u8>,
    payload: usize,
    all: Seq<Call>,
    more: Seq<Call>,
    from: int,
    now: u64,
)
    requires
        paired(w, v, all, more, from, now),
        capture_writer_model::extends(
            all,
            capture_writer_model::written(w, kind, time, body, payload, all).0.calls,
        ),
    ensures
        ({
            let (x, a) = capture_writer_model::written(w, kind, time, body, payload, all);
            let (y, b) = capture_writer_model::written(v, kind, time, body, payload, more);
            twins(x, y, now) && a == b
        }),
{
    reveal(capture_writer_model::written);
    if capture_writer_model::room_refusal(w, payload as int) is None {
        let e = capture_writer_model::next_event(w, kind, time, body);
        let action = Action::Write(crate::capture_events::event_bytes(e));
        lemma_asked_twins(w, v, action, all, more, from, now);
    }
}

proof fn lemma_gap_twins(
    w: WriterView,
    v: WriterView,
    gap: MvsCaptureV2Gap,
    terminal: u16,
    all: Seq<Call>,
    more: Seq<Call>,
    from: int,
    now: u64,
)
    requires
        paired(w, v, all, more, from, now),
        capture_writer_model::extends(
            all,
            capture_writer_model::gap_emitted(w, gap, terminal, all).0.calls,
        ),
    ensures
        same(
            capture_writer_model::gap_emitted(w, gap, terminal, all),
            capture_writer_model::gap_emitted(v, gap, terminal, more),
            now,
        ),
{
    reveal(capture_writer_model::gap_emitted);
    lemma_asks_more();
    match capture_writer_model::preflight_refusal(w, 2) {
        Some(e) => lemma_given_up_twins(w, v, e, all, more, from, now),
        None => {
            lemma_clock_twins(w, v, all, more, from, now);
            let (w1, time) = capture_writer_model::clock_read(w, all);
            let (v1, _) = capture_writer_model::clock_read(v, more);
            match time {
                Err(e) => lemma_given_up_twins(w1, v1, e, all, more, from, now),
                Ok(t) => {
                    let body = capture_writer_model::gap_body(gap);
                    let (w2, done) = capture_writer_model::written(w1, EVENT_GAP, t, body, 0, all);
                    let (v2, _) = capture_writer_model::written(v1, EVENT_GAP, t, body, 0, more);
                    lemma_written_twins(w1, v1, EVENT_GAP, t, body, 0, all, more, from, now);
                    match done {
                        Err(e) => lemma_given_up_twins(w2, v2, e, all, more, from, now),
                        Ok(_) => {
                            let x = WriterView {
                                gap_count: 1,
                                last_gap: Some(gap),
                                pending: None,
                                assembling: None,
                                ..w2
                            };
                            let y = WriterView {
                                gap_count: 1,
                                last_gap: Some(gap),
                                pending: None,
                                assembling: None,
                                ..v2
                            };
                            lemma_finalized_now_twins(
                                x,
                                y,
                                false,
                                terminal,
                                all,
                                more,
                                from,
                                now,
                            );
                        },
                    }
                },
            }
        },
    }
}

proof fn lemma_over_twins(
    w: WriterView,
    v: WriterView,
    time: u64,
    all: Seq<Call>,
    more: Seq<Call>,
    from: int,
    now: u64,
)
    requires
        paired(w, v, all, more, from, now),
        capture_writer_model::extends(all, capture_writer_model::over_at(w, time, all).0.calls),
    ensures
        same(
            capture_writer_model::over_at(w, time, all),
            capture_writer_model::over_at(v, time, more),
            now,
        ),
{
    if w.pending is Some {
        let p = w.pending->0;
        let gap = capture_writer_model::pending_gap_view(p, 6, p.last);
        lemma_gap_twins(w, v, gap, 263, all, more, from, now);
    } else {
        let x = capture_writer_model::selected(w, true, 1);
        let y = capture_writer_model::selected(v, true, 1);
        lemma_finalized_twins(x, y, true, time, all, more, from, now);
    }
}

proof fn lemma_after_frame_twins(
    w: WriterView,
    v: WriterView,
    time: u64,
    all: Seq<Call>,
    more: Seq<Call>,
    from: int,
    now: u64,
)
    requires
        paired(w, v, all, more, from, now),
        capture_writer_model::extends(all, capture_writer_model::after_frame(w, time, all).0.calls),
    ensures
        same(
            capture_writer_model::after_frame(w, time, all),
            capture_writer_model::after_frame(v, time, more),
            now,
        ),
{
    if time >= capture_writer_model::deadline_us(w) {
        lemma_over_twins(w, v, time, all, more, from, now);
    } else if w.records == w.config.record_limit {
        let x = capture_writer_model::selected(w, true, 2);
        let y = capture_writer_model::selected(v, true, 2);
        lemma_finalized_twins(x, y, true, time, all, more, from, now);
    }
}

proof fn lemma_clocked_twins(
    w: WriterView,
    v: WriterView,
    all: Seq<Call>,
    more: Seq<Call>,
    from: int,
    now: u64,
)
    requires
        paired(w, v, all, more, from, now),
        capture_writer_model::extends(
            all,
            capture_writer_model::clocked_after_frame(w, all).0.calls,
        ),
    ensures
        same(
            capture_writer_model::clocked_after_frame(w, all),
            capture_writer_model::clocked_after_frame(v, more),
            now,
        ),
{
    lemma_asks_more();
    lemma_recording_asks_more();
    let (w1, time) = capture_writer_model::clock_read(w, all);
    let (v1, _) = capture_writer_model::clock_read(v, more);
    lemma_clock_twins(w, v, all, more, from, now);
    match time {
        Err(e) => lemma_given_up_twins(w1, v1, e, all, more, from, now),
        Ok(t) => lemma_after_frame_twins(w1, v1, t, all, more, from, now),
    }
}

proof fn lemma_classified_twins(
    w: WriterView,
    v: WriterView,
    record: RecordView,
    all: Seq<Call>,
    more: Seq<Call>,
    from: int,
    now: u64,
)
    requires
        paired(w, v, all, more, from, now),
        capture_writer_model::extends(
            all,
            capture_writer_model::classified(w, record, all).0.calls,
        ),
    ensures
        same(
            capture_writer_model::classified(w, record, all),
            capture_writer_model::classified(v, record, more),
            now,
        ),
{
    let tag = record.payload[0];
    let x = capture_writer_model::counted_record(w, tag);
    let y = capture_writer_model::counted_record(v, tag);
    if w.records == u64::MAX {
        lemma_given_up_twins(w, v, VncError::Text("record count 溢出"), all, more, from, now);
    } else if tag == 0 || tag == 1 {
        match capture_writer_model::paint_refusal(w.armed, record.rect) {
            Some(e) => lemma_given_up_twins(x, y, e, all, more, from, now),
            None => lemma_clocked_twins(x, y, all, more, from, now),
        }
    } else if tag == 2 {
        if record.rect == crate::mvs_capture_v2::empty_rect() {
            lemma_clocked_twins(x, y, all, more, from, now);
        }
    } else {
        let e = VncError::Text("未知 MVS payload tag（Record 已持久化）");
        lemma_given_up_twins(x, y, e, all, more, from, now);
    }
}

proof fn lemma_completed_twins(
    w: WriterView,
    v: WriterView,
    first: u64,
    last: u64,
    record: RecordView,
    all: Seq<Call>,
    more: Seq<Call>,
    from: int,
    now: u64,
)
    requires
        paired(w, v, all, more, from, now),
        capture_writer_model::extends(
            all,
            capture_writer_model::completed(w, first, last, record, all).0.calls,
        ),
    ensures
        same(
            capture_writer_model::completed(w, first, last, record, all),
            capture_writer_model::completed(v, first, last, record, more),
            now,
        ),
{
    reveal(capture_writer_model::completed);
    lemma_asks_more();
    lemma_recording_asks_more();
    let (w1, time) = capture_writer_model::clock_read(w, all);
    let (v1, _) = capture_writer_model::clock_read(v, more);
    lemma_clock_twins(w, v, all, more, from, now);
    match time {
        Err(e) => lemma_given_up_twins(w1, v1, e, all, more, from, now),
        Ok(t) => {
            let kind = crate::capture_events::EVENT_RECORD;
            let body = capture_writer_model::record_body(first, last, record);
            let length = record.payload.len() as usize;
            let (w2, done) = capture_writer_model::written(w1, kind, t, body, length, all);
            let (v2, _) = capture_writer_model::written(v1, kind, t, body, length, more);
            lemma_written_twins(w1, v1, kind, t, body, length, all, more, from, now);
            match done {
                Err(e) => lemma_given_up_twins(w2, v2, e, all, more, from, now),
                Ok(_) => {
                    let kept = w2.kept.push(
                        crate::mvs_capture_v2::CaptureRecordView {
                            generation: w2.generation,
                            first,
                            last,
                            record,
                        },
                    );
                    let x = WriterView { kept, ..w2 };
                    let y = WriterView { kept, ..v2 };
                    lemma_classified_twins(x, y, record, all, more, from, now);
                },
            }
        },
    }
}

proof fn lemma_begin_twins(
    w: WriterView,
    v: WriterView,
    rect: MvsRect,
    total: u32,
    first: Seq<u8>,
    all: Seq<Call>,
    more: Seq<Call>,
    from: int,
    now: u64,
)
    requires
        paired(w, v, all, more, from, now),
        capture_writer_model::extends(
            all,
            capture_writer_model::begin_accepted(w, rect, total, first, all).0.calls,
        ),
    ensures
        same(
            capture_writer_model::begin_accepted(w, rect, total, first, all),
            capture_writer_model::begin_accepted(v, rect, total, first, more),
            now,
        ),
{
    if w.state == CaptureState::Recording && w.open {
        let (x, ordinal) = capture_writer_model::numbered(w);
        let (y, _) = capture_writer_model::numbered(v);
        match ordinal {
            Err(e) => lemma_given_up_twins(x, y, e, all, more, from, now),
            Ok(n) => if x.pending is Some {
                let gap = capture_writer_model::pending_gap_view(x.pending->0, 10, n);
                lemma_gap_twins(x, y, gap, 262, all, more, from, now);
            } else if total == 0 || total > crate::capture_events::MVS_CAPTURE_V2_MAX_PAYLOAD {
                let gap = capture_writer_model::gap_view(2, n, n, total, 0, rect);
                lemma_gap_twins(x, y, gap, 262, all, more, from, now);
            } else if first.len() > total {
                let gap = capture_writer_model::gap_view(3, n, n, total, 0, rect);
                lemma_gap_twins(x, y, gap, 262, all, more, from, now);
            } else if x.payload + total > MVS_CAPTURE_V2_MAX_CUMULATIVE_PAYLOAD {
                let gap = capture_writer_model::gap_view(11, n, n, total, 0, rect);
                lemma_gap_twins(x, y, gap, 262, all, more, from, now);
            } else {
                lemma_chunk_twins(x, y, n, rect, total, first, all, more, from, now);
            },
        }
    }
}

proof fn lemma_chunk_twins(
    w: WriterView,
    v: WriterView,
    ordinal: u64,
    rect: MvsRect,
    total: u32,
    first: Seq<u8>,
    all: Seq<Call>,
    more: Seq<Call>,
    from: int,
    now: u64,
)
    requires
        paired(w, v, all, more, from, now),
        capture_writer_model::extends(
            all,
            capture_writer_model::chunk_begun(w, ordinal, rect, total, first, all).0.calls,
        ),
    ensures
        same(
            capture_writer_model::chunk_begun(w, ordinal, rect, total, first, all),
            capture_writer_model::chunk_begun(v, ordinal, rect, total, first, more),
            now,
        ),
{
    lemma_asks_more();
    lemma_recording_asks_more();
    let (w1, time) = capture_writer_model::clock_read(w, all);
    let (v1, _) = capture_writer_model::clock_read(v, more);
    lemma_clock_twins(w, v, all, more, from, now);
    match time {
        Err(e) => lemma_given_up_twins(w1, v1, e, all, more, from, now),
        Ok(started_at) => {
            let (assembling, answer) = crate::mvs_stream::begun(w1.assembling, rect, total, first);
            let x = WriterView { assembling, ..w1 };
            let y = WriterView { assembling, ..v1 };
            match answer {
                Err(e) => lemma_given_up_twins(x, y, e, all, more, from, now),
                Ok(Some(record)) => lemma_completed_twins(
                    x,
                    y,
                    ordinal,
                    ordinal,
                    record,
                    all,
                    more,
                    from,
                    now,
                ),
                Ok(None) => {
                    let pending = Some(
                        PendingProvenance {
                            first: ordinal,
                            last: ordinal,
                            total,
                            accepted: first.len() as u32,
                            rect,
                            started_at,
                        },
                    );
                    lemma_after_frame_twins(
                        WriterView { pending, ..x },
                        WriterView { pending, ..y },
                        started_at,
                        all,
                        more,
                        from,
                        now,
                    );
                },
            }
        },
    }
}

proof fn lemma_continuation_twins(
    w: WriterView,
    v: WriterView,
    chunk: Seq<u8>,
    all: Seq<Call>,
    more: Seq<Call>,
    from: int,
    now: u64,
)
    requires
        paired(w, v, all, more, from, now),
        capture_writer_model::extends(
            all,
            capture_writer_model::continuation_accepted(w, chunk, all).0.calls,
        ),
    ensures
        same(
            capture_writer_model::continuation_accepted(w, chunk, all),
            capture_writer_model::continuation_accepted(v, chunk, more),
            now,
        ),
{
    if w.state == CaptureState::Recording && w.open {
        let (x, ordinal) = capture_writer_model::numbered(w);
        let (y, _) = capture_writer_model::numbered(v);
        match ordinal {
            Err(e) => lemma_given_up_twins(x, y, e, all, more, from, now),
            Ok(n) => match x.pending {
                None => {
                    let empty = crate::mvs_capture_v2::empty_rect();
                    let gap = capture_writer_model::gap_view(9, n, n, 0, 0, empty);
                    lemma_gap_twins(x, y, gap, 262, all, more, from, now);
                },
                Some(p) => if chunk.len() > p.total - p.accepted {
                    let gap = capture_writer_model::pending_gap_view(p, 4, n);
                    lemma_gap_twins(x, y, gap, 262, all, more, from, now);
                } else {
                    let (assembling, answer) = crate::mvs_stream::continued(x.assembling, chunk);
                    let a = WriterView { assembling, ..x };
                    let b = WriterView { assembling, ..y };
                    match answer {
                        Err(e) => lemma_given_up_twins(a, b, e, all, more, from, now),
                        Ok(Some(record)) => lemma_completed_twins(
                            WriterView { pending: None, ..a },
                            WriterView { pending: None, ..b },
                            p.first,
                            n,
                            record,
                            all,
                            more,
                            from,
                            now,
                        ),
                        Ok(None) => {
                            let pending = Some(
                                PendingProvenance {
                                    last: n,
                                    accepted: (p.accepted + chunk.len()) as u32,
                                    ..p
                                },
                            );
                            lemma_clocked_twins(
                                WriterView { pending, ..a },
                                WriterView { pending, ..b },
                                all,
                                more,
                                from,
                                now,
                            );
                        },
                    }
                },
            },
        }
    }
}

/// The unfinished record is given up, or the capture ends without one.
proof fn lemma_ending_twins(
    w: WriterView,
    v: WriterView,
    reason: u16,
    terminal: u16,
    all: Seq<Call>,
    more: Seq<Call>,
    from: int,
    now: u64,
)
    requires
        paired(w, v, all, more, from, now),
    ensures
        w.pending is Some && capture_writer_model::extends(
            all,
            capture_writer_model::pending_given_up(w, reason, terminal, all).0.calls,
        ) ==> same(
            capture_writer_model::pending_given_up(w, reason, terminal, all),
            capture_writer_model::pending_given_up(v, reason, terminal, more),
            now,
        ),
        capture_writer_model::extends(
            all,
            capture_writer_model::finalized_now(w, false, terminal, all).0.calls,
        ) ==> same(
            capture_writer_model::finalized_now(w, false, terminal, all),
            capture_writer_model::finalized_now(v, false, terminal, more),
            now,
        ),
{
    if w.pending is Some && capture_writer_model::extends(
        all,
        capture_writer_model::pending_given_up(w, reason, terminal, all).0.calls,
    ) {
        let p = w.pending->0;
        let gap = capture_writer_model::pending_gap_view(p, reason, p.last);
        lemma_gap_twins(w, v, gap, terminal, all, more, from, now);
    }
    if capture_writer_model::extends(
        all,
        capture_writer_model::finalized_now(w, false, terminal, all).0.calls,
    ) {
        lemma_finalized_now_twins(w, v, false, terminal, all, more, from, now);
    }
}

/// Watching the time, and ending the capture because nothing more could be read.
proof fn lemma_watched_twins(
    w: WriterView,
    v: WriterView,
    all: Seq<Call>,
    more: Seq<Call>,
    from: int,
    now: u64,
)
    requires
        paired(w, v, all, more, from, now),
    ensures
        capture_writer_model::extends(all, capture_writer_model::polled(w, all).0.calls) ==> same(
            capture_writer_model::polled(w, all),
            capture_writer_model::polled(v, more),
            now,
        ),
        capture_writer_model::extends(all, capture_writer_model::read_refused(w, all).0.calls)
            ==> same(
            capture_writer_model::read_refused(w, all),
            capture_writer_model::read_refused(v, more),
            now,
        ),
{
    if w.state == CaptureState::Recording && w.open {
        lemma_asks_more();
        lemma_recording_asks_more();
        let (w1, time) = capture_writer_model::clock_read(w, all);
        let (v1, _) = capture_writer_model::clock_read(v, more);
        if capture_writer_model::extends(all, w1.calls) {
            lemma_clock_twins(w, v, all, more, from, now);
            match time {
                Err(e) => {
                    if capture_writer_model::extends(
                        all,
                        capture_writer_model::given_up(w1, e, all).0.calls,
                    ) {
                        lemma_given_up_twins(w1, v1, e, all, more, from, now);
                    }
                },
                Ok(t) => {
                    if t >= capture_writer_model::deadline_us(w1) {
                        if capture_writer_model::extends(
                            all,
                            capture_writer_model::over_at(w1, t, all).0.calls,
                        ) {
                            lemma_over_twins(w1, v1, t, all, more, from, now);
                        }
                    } else {
                        lemma_ending_twins(w1, v1, 5, 262, all, more, from, now);
                        lemma_ending_twins(w1, v1, 7, 261, all, more, from, now);
                    }
                },
            }
        }
    }
}

/// Whether the trigger is behind the capture.
pub open spec fn past_trigger(w: WriterView) -> bool {
    w.state == CaptureState::Recording || !capture_writer_model::ongoing(w.state)
}

proof fn lemma_operation_twins(
    w: WriterView,
    v: WriterView,
    op: Operation,
    all: Seq<Call>,
    more: Seq<Call>,
    from: int,
    now: u64,
)
    requires
        paired(w, v, all, more, from, now),
        past_trigger(w),
        capture_writer_model::extends(
            all,
            capture_writer_laws::performed(w, op, all).0.calls,
        ),
    ensures
        same(
            capture_writer_laws::performed(w, op, all),
            capture_writer_laws::performed(v, op, more),
            now,
        ),
{
    let on = w.state == CaptureState::Recording && w.open;
    match op {
        Operation::NonMvs => {
            if on {
                lemma_clocked_twins(w, v, all, more, from, now);
            }
        },
        Operation::RejectEnvelope(rect) => {
            if on {
                let (x, ordinal) = capture_writer_model::numbered(w);
                let (y, _) = capture_writer_model::numbered(v);
                match ordinal {
                    Err(e) => lemma_given_up_twins(x, y, e, all, more, from, now),
                    Ok(n) => {
                        let place = match rect {
                            Some(rect) => rect,
                            None => crate::mvs_capture_v2::empty_rect(),
                        };
                        let gap = capture_writer_model::gap_view(1, n, n, 0, 0, place);
                        lemma_gap_twins(x, y, gap, 262, all, more, from, now);
                    },
                }
            }
        },
        Operation::Begin { rect, total, first } => {
            lemma_begin_twins(w, v, rect, total, first, all, more, from, now);
        },
        Operation::Continue(chunk) => {
            lemma_continuation_twins(w, v, chunk, all, more, from, now);
        },
        Operation::Poll | Operation::ReadFailed => {
            lemma_watched_twins(w, v, all, more, from, now);
        },
        Operation::GenerationTransition => {
            lemma_ending_twins(w, v, 8, 266, all, more, from, now);
        },
        Operation::Cancel => {
            lemma_ending_twins(w, v, 12, 265, all, more, from, now);
        },
        Operation::OutputFailed => {
            lemma_ending_twins(w, v, 0, 264, all, more, from, now);
        },
        _ => {},
    }
}

/// Neither writing an event nor ending a capture leads back before the trigger.
proof fn lemma_writing_stays_past_trigger()
    ensures
        forall|w: WriterView, clean: bool, time: u64, all: Seq<Call>|
            past_trigger(w) ==> past_trigger(
                (#[trigger] capture_writer_model::finalized(w, clean, time, all)).0,
            ),
        forall|w: WriterView, kind: u16, time: u64, body: Seq<u8>, payload: usize, all: Seq<Call>|
            (#[trigger] capture_writer_model::written(w, kind, time, body, payload, all)).0.state
                == w.state,
{
    reveal(capture_writer_model::finalized);
    reveal(capture_writer_model::written);
}

/// No operation leads back before the trigger.
#[verifier::rlimit(40)]
proof fn lemma_stays_past_trigger(w: WriterView, op: Operation, all: Seq<Call>)
    requires
        past_trigger(w),
    ensures
        past_trigger(capture_writer_laws::performed(w, op, all).0),
{
    lemma_writing_stays_past_trigger();
    assert forall|w: WriterView, gap: MvsCaptureV2Gap, reason: u16, all: Seq<Call>|
        past_trigger(
            (#[trigger] capture_writer_model::gap_emitted(w, gap, reason, all)).0,
        ) by {
        reveal(capture_writer_model::gap_emitted);
    }
    assert forall|w: WriterView, first: u64, last: u64, record: RecordView, all: Seq<Call>|
        past_trigger(w) implies past_trigger(
        (#[trigger] capture_writer_model::completed(w, first, last, record, all)).0,
    ) by {
        reveal(capture_writer_model::completed);
    }
}

/// A frame without a record leaves no trace in a capture: while the time is not over and records
/// are missing, it is answered by going on, the clock is read and nothing is asked of the sink; and
/// whatever operations follow, the capture comes to the same events, with the same records, numbers
/// of frames, gaps and end, as without that frame. The clock is one that does not go back.
pub proof fn law_other_frames_leave_no_trace(
    w: WriterView,
    ops: Seq<Operation>,
    all: Seq<Call>,
    now: u64,
)
    requires
        w.state == CaptureState::Recording,
        w.open,
        w.records < w.config.record_limit,
        w.last_timestamp <= now < capture_writer_model::deadline_us(w),
        w.calls.len() <= all.len(),
        capture_writer_model::extends(all, capture_writer_laws::run(w, ops, all).calls),
        goes_on(all, w.calls.len() as int, now),
    ensures
        ({
            let reading = Call { action: Action::ReadClock, answer: Ok(now) };
            let more = all.insert(w.calls.len() as int, reading);
            let (v, r) = capture_writer_laws::performed(w, Operation::NonMvs, more);
            &&& r == Ok::<WriterDecision, VncError>(WriterDecision::Continue)
            &&& v == (WriterView { calls: w.calls.push(reading), last_timestamp: now, ..w })
            &&& alike(
                capture_writer_laws::run(w, ops, all),
                capture_writer_laws::run(v, ops, more),
            )
        }),
{
    let from = w.calls.len() as int;
    let reading = Call { action: Action::ReadClock, answer: Ok(now) };
    let more = all.insert(from, reading);
    let v = WriterView { calls: w.calls.push(reading), last_timestamp: now, ..w };
    assert(more[from] == reading);
    assert(capture_writer_laws::performed(w, Operation::NonMvs, more).0 == v);
    assert forall|i: int| from <= i < all.len() implies more[i + 1].answer == (#[trigger] all[i]).answer by {
        assert(more[i + 1] == all[i]);
    }
    lemma_run_twins(w, v, ops, all, more, from, now);
}

proof fn lemma_run_twins(
    w: WriterView,
    v: WriterView,
    ops: Seq<Operation>,
    all: Seq<Call>,
    more: Seq<Call>,
    from: int,
    now: u64,
)
    requires
        paired(w, v, all, more, from, now),
        past_trigger(w),
        capture_writer_model::extends(all, capture_writer_laws::run(w, ops, all).calls),
    ensures
        twins(
            capture_writer_laws::run(w, ops, all),
            capture_writer_laws::run(v, ops, more),
            now,
        ),
        past_trigger(capture_writer_laws::run(w, ops, all)),
        from <= capture_writer_laws::run(w, ops, all).calls.len(),
    decreases ops.len(),
{
    if ops.len() > 0 {
        let x = capture_writer_laws::run(w, ops.drop_last(), all);
        let y = capture_writer_laws::run(v, ops.drop_last(), more);
        law_operations_ask_more(x, ops.last(), all);
        lemma_run_twins(w, v, ops.drop_last(), all, more, from, now);
        lemma_operation_twins(x, y, ops.last(), all, more, from, now);
        lemma_stays_past_trigger(x, ops.last(), all);
    }
}

/// Neither writing an event nor ending a capture takes more payload than there may be; writing an
/// event counts it, and what ends a capture leaves none that goes on.
proof fn lemma_writing_counts()
    ensures
        forall|w: WriterView, clean: bool, time: u64, all: Seq<Call>|
            !capture_writer_model::ongoing(w.state) ==> {
                let v = (#[trigger] capture_writer_model::finalized(w, clean, time, all)).0;
                !capture_writer_model::ongoing(v.state) && v.payload == w.payload
            },
        forall|w: WriterView, kind: u16, time: u64, body: Seq<u8>, payload: usize, all: Seq<Call>|
            w.payload <= MVS_CAPTURE_V2_MAX_CUMULATIVE_PAYLOAD ==> {
                let (v, r) = #[trigger] capture_writer_model::written(
                    w,
                    kind,
                    time,
                    body,
                    payload,
                    all,
                );
                &&& v.state == w.state
                &&& v.records == w.records
                &&& v.payload <= MVS_CAPTURE_V2_MAX_CUMULATIVE_PAYLOAD
                &&& r is Ok ==> v.event_count == w.event_count + 1
                    < crate::capture_events::MVS_CAPTURE_V2_MAX_EVENTS
            },
{
    reveal(capture_writer_model::finalized);
    reveal(capture_writer_model::written);
}

/// Neither a gap nor a record takes more payload than there may be, or leaves another number of
/// events than the state of the capture says.
proof fn lemma_recording_counts()
    ensures
        forall|w: WriterView, gap: MvsCaptureV2Gap, reason: u16, all: Seq<Call>|
            w.payload <= MVS_CAPTURE_V2_MAX_CUMULATIVE_PAYLOAD ==> capture_writer_model::counted(
                (#[trigger] capture_writer_model::gap_emitted(w, gap, reason, all)).0,
            ),
        forall|w: WriterView, first: u64, last: u64, record: RecordView, all: Seq<Call>|
            capture_writer_model::counted(w) && w.state == CaptureState::Recording
                ==> capture_writer_model::counted(
                (#[trigger] capture_writer_model::completed(w, first, last, record, all)).0,
            ),
{
    lemma_writing_counts();
    assert forall|w: WriterView, gap: MvsCaptureV2Gap, reason: u16, all: Seq<Call>|
        w.payload <= MVS_CAPTURE_V2_MAX_CUMULATIVE_PAYLOAD implies capture_writer_model::counted(
        (#[trigger] capture_writer_model::gap_emitted(w, gap, reason, all)).0,
    ) by {
        reveal(capture_writer_model::gap_emitted);
    }
    assert forall|w: WriterView, first: u64, last: u64, record: RecordView, all: Seq<Call>|
        capture_writer_model::counted(w) && w.state
            == CaptureState::Recording implies capture_writer_model::counted(
        (#[trigger] capture_writer_model::completed(w, first, last, record, all)).0,
    ) by {
        reveal(capture_writer_model::completed);
    }
}

proof fn lemma_arming_counts(w: WriterView, config: ArmedConfig, all: Seq<Call>)
    requires
        capture_writer_model::counted(w),
    ensures
        capture_writer_model::counted(capture_writer_model::armed(w, config, all).0),
{
    lemma_writing_counts();
}

proof fn lemma_gate_counts(w: WriterView, all: Seq<Call>)
    requires
        capture_writer_model::counted(w),
    ensures
        capture_writer_model::counted(capture_writer_model::gate_written(w, all).0),
{
    lemma_writing_counts();
}

#[verifier::rlimit(40)]
proof fn lemma_chunk_counts(
    w: WriterView,
    rect: MvsRect,
    total: u32,
    first: Seq<u8>,
    all: Seq<Call>,
)
    requires
        capture_writer_model::counted(w),
    ensures
        capture_writer_model::counted(
            capture_writer_model::begin_accepted(w, rect, total, first, all).0,
        ),
        capture_writer_model::counted(
            capture_writer_model::continuation_accepted(w, first, all).0,
        ),
{
    lemma_writing_counts();
    lemma_recording_counts();
}

#[verifier::rlimit(40)]
proof fn lemma_others_count(w: WriterView, op: Operation, all: Seq<Call>)
    requires
        capture_writer_model::counted(w),
        !writes(op),
    ensures
        capture_writer_model::counted(capture_writer_laws::performed(w, op, all).0),
{
    lemma_writing_counts();
    lemma_recording_counts();
}

/// No operation takes more payload than there may be, or leaves another number of events than the
/// state of the capture says.
pub proof fn law_operations_keep_counted(w: WriterView, op: Operation, all: Seq<Call>)
    requires
        capture_writer_model::counted(w),
    ensures
        capture_writer_model::counted(capture_writer_laws::performed(w, op, all).0),
{
    match op {
        Operation::Arm(config) => lemma_arming_counts(w, config, all),
        Operation::RecordingGate => lemma_gate_counts(w, all),
        Operation::Begin { rect, total, first } => lemma_chunk_counts(w, rect, total, first, all),
        Operation::Continue(chunk) => lemma_chunk_counts(
            w,
            crate::mvs_capture_v2::empty_rect(),
            0,
            chunk,
            all,
        ),
        _ => lemma_others_count(w, op, all),
    }
}

/// What operations make of a new capture has as many events as its state says.
pub proof fn law_runs_are_counted(config: CreatedConfig, ops: Seq<Operation>, all: Seq<Call>)
    ensures
        capture_writer_model::counted(
            capture_writer_laws::run(capture_writer_model::created_writer(config), ops, all),
        ),
    decreases ops.len(),
{
    if ops.len() > 0 {
        law_runs_are_counted(config, ops.drop_last(), all);
        law_operations_keep_counted(
            capture_writer_laws::run(
                capture_writer_model::created_writer(config),
                ops.drop_last(),
                all,
            ),
            ops.last(),
            all,
        );
    }
}

/// Every capture that goes on, whatever operations brought it there, as long as none of them spoiled
/// it, has room for what cancelling it writes, a gap and the end.
pub proof fn law_running_capture_can_be_cancelled(
    config: CreatedConfig,
    ops: Seq<Operation>,
    all: Seq<Call>,
)
    requires
        capture_writer_model::config_refusal(config) is None,
        !capture_writer_laws::run_spoils(
            capture_writer_model::created_writer(config),
            ops,
            all,
        ),
        capture_writer_model::ongoing(
            capture_writer_laws::run(
                capture_writer_model::created_writer(config),
                ops,
                all,
            ).state,
        ),
    ensures
        ({
            let w = capture_writer_laws::run(
                capture_writer_model::created_writer(config),
                ops,
                all,
            );
            &&& w.open
            &&& capture_writer_model::counted(w)
            &&& w.records <= MVS_CAPTURE_V2_MAX_RECORDS
            &&& capture_writer_model::preflight_refusal(w, 2) is None
            &&& w.pending is Some ==> w.state == CaptureState::Recording
        }),
{
    capture_writer_laws::law_ended_capture_is_read_back(config, ops, all);
    law_runs_are_counted(config, ops, all);
}

} // verus!
