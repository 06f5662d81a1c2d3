//! What every operation of the capture writer keeps: the events in the file are such as a reader
//! accepts, and the writer's counters are the ones that a reader comes to.

use vstd::prelude::*;
use crate::capture_events::{Event, EVENT_ABORTED, EVENT_ARMED, EVENT_CLEAN, EVENT_CREATED};
use crate::capture_events::{EVENT_GAP, EVENT_RECORD, EVENT_RECORDING, EVENT_TRIGGERED};
use crate::capture_events::{MVS_CAPTURE_V2_MAX_CUMULATIVE_PAYLOAD, MVS_CAPTURE_V2_MAX_EVENT_BODY};
use crate::capture_events::{MVS_CAPTURE_V2_MAX_EVENTS, MVS_CAPTURE_V2_MAX_PAYLOAD};
use crate::capture_reader;
use crate::capture_reader::Progress;
use crate::capture_totals;
use crate::capture_writer_model;
use crate::capture_writer_model::{Action, ArmedConfig, Call, CaptureState, CreatedConfig};
use crate::capture_writer_model::{Outcome, PendingProvenance, WriterDecision, WriterView};
use crate::error::VncError;
use crate::mvs_capture_v2;
use crate::mvs_capture_v2::{MvsCaptureV2Gap, MvsCaptureV2Geometry, MvsCaptureV2TerminalKind};
use crate::mvs_capture_v2::{MvsCaptureV2TerminalReason, StructuralPhase};
use crate::mvs_stream::{MvsRect, PendingView, RecordView};
use crate::wire;

verus! {

/// The bytes of all writes that succeeded, in their order.
pub open spec fn sent(calls: Seq<Call>) -> Seq<u8>
    decreases calls.len(),
{
    if calls.len() == 0 {
        Seq::empty()
    } else {
        let before = sent(calls.drop_last());
        match calls.last() {
            Call { action: Action::Write(bytes), answer: Ok(_) } => before + bytes,
            _ => before,
        }
    }
}

/// What a reader comes to at the events in the file.
pub open spec fn read_so_far(w: WriterView) -> Result<Progress, VncError> {
    capture_reader::replayed(capture_reader::no_progress(), w.events)
}

/// The file holds the header and the events, and a reader comes to `p` at them.
pub open spec fn holds(w: WriterView, p: Progress) -> bool {
    &&& sent(w.calls) == crate::capture_events::header_bytes() + capture_reader::events_bytes(
        w.events,
    )
    &&& capture_reader::bodies_fit(w.events)
    &&& read_so_far(w) == Ok::<Progress, VncError>(p)
}

/// The writer's counters are those of the reader.
pub open spec fn agrees(w: WriterView, p: Progress) -> bool {
    &&& capture_writer_model::config_refusal(w.config) is None
    &&& p.events == w.event_count
    &&& p.events == w.event_ordinal
    &&& p.events <= MVS_CAPTURE_V2_MAX_EVENTS
    &&& p.payload == w.payload
    &&& p.generation == 0
    &&& w.generation == 0
    &&& p.last_timestamp is Some
    &&& p.last_timestamp->0 <= w.last_timestamp
    &&& p.deadline_ms == Some(w.config.deadline_ms)
    &&& p.record_limit == Some(w.config.record_limit)
    &&& p.records == w.kept
    &&& p.records.len() == w.records
    &&& w.records <= w.config.record_limit
    &&& p.surfaces.len() == 0
    &&& p.terminal is None
    &&& p.gaps.len() == w.gap_count
    &&& capture_reader::all_first_generation(p.generations)
    &&& p.kinds.len() == p.events
    &&& p.generations.len() == p.events
}

/// The tally that the reader comes to.
pub open spec fn tallied(w: WriterView, p: Progress, source: int) -> bool {
    &&& capture_totals::tally_of(p.records) is Ok
    &&& {
        let t = capture_totals::tally_of(p.records)->Ok_0;
        &&& t.source == source
        &&& t.type0 == w.type0
        &&& t.type1 == w.type1
        &&& t.type2 == w.type2
    }
}

/// Where the frames of the records end: behind the last record, before the unfinished one.
pub open spec fn records_end(w: WriterView) -> int {
    match w.pending {
        Some(p) => p.first as int,
        None => w.sources as int,
    }
}

/// What is known of an unfinished record.
pub open spec fn pending_sound(w: WriterView) -> bool {
    match (w.pending, w.assembling) {
        (None, None) => true,
        (Some(p), Some(a)) => {
            &&& p.first <= p.last
            &&& p.last + 1 == w.sources
            &&& p.total == a.total
            &&& p.accepted == a.received.len()
            &&& p.accepted < p.total
            &&& p.total <= MVS_CAPTURE_V2_MAX_PAYLOAD
        },
        _ => false,
    }
}

/// What the reader knows of the surfaces, and the kinds of events that it has seen.
pub open spec fn phase_sound(w: WriterView, p: Progress) -> bool {
    &&& w.state == CaptureState::Created ==> {
        &&& p.phase == StructuralPhase::Created
        &&& p.committed is None
        &&& p.kinds =~= seq![EVENT_CREATED]
    }
    &&& (w.state == CaptureState::Armed || w.state == CaptureState::Triggering) ==> {
        &&& p.phase == StructuralPhase::Armed
        &&& surfaces_sound(w, p)
        &&& p.kinds =~= seq![EVENT_CREATED, EVENT_ARMED]
    }
    &&& w.state == CaptureState::Recording ==> {
        &&& p.phase == StructuralPhase::Recording
        &&& surfaces_sound(w, p)
        &&& recording_kinds(p.kinds)
        &&& w.records < w.config.record_limit
    }
    &&& w.state != CaptureState::Recording ==> w.sources == 0 && w.records == 0 && w.pending is None
}

/// The reader knows the surfaces that the writer was armed with.
pub open spec fn surfaces_sound(w: WriterView, p: Progress) -> bool {
    &&& w.armed is Some
    &&& p.committed == Some((w.armed->0).committed)
    &&& p.requested == Some((w.armed->0).requested)
}

/// The lifecycle, then records alone.
pub open spec fn recording_kinds(kinds: Seq<u16>) -> bool {
    &&& kinds.len() >= 4
    &&& capture_reader::lifecycle_first(kinds)
    &&& forall|i: int| 4 <= i < kinds.len() ==> kinds[i] == EVENT_RECORD
}

/// A capture that goes on is sound.
pub open spec fn sound(w: WriterView) -> bool {
    &&& w.open
    &&& read_so_far(w) is Ok
    &&& {
        let p = read_so_far(w)->Ok_0;
        &&& holds(w, p)
        &&& agrees(w, p)
        &&& tallied(w, p, records_end(w))
        &&& w.gap_count == 0
        &&& pending_sound(w)
        &&& phase_sound(w, p)
    }
}

/// A capture that has ended is one that a reader accepts, with the records that were written.
pub open spec fn readable(w: WriterView) -> bool {
    &&& capture_reader::structural_read(sent(w.calls)) is Ok
    &&& {
        let s = capture_reader::structural_read(sent(w.calls))->Ok_0;
        &&& s.records == w.kept
        &&& s.deadline_ms == Some(w.config.deadline_ms)
        &&& s.record_limit == Some(w.config.record_limit)
        &&& w.terminal_reason == Some(mvs_capture_v2::reason_code(s.terminal.reason))
    }
    &&& w.state == CaptureState::Clean ==> capture_reader::strict_read(sent(w.calls)) is Ok
}

/// What holds of a writer at any time. Nothing is claimed of the file of a capture that was given
/// up: it has no end.
pub open spec fn faithful(w: WriterView) -> bool {
    match w.state {
        CaptureState::Finalizing => !w.open,
        CaptureState::Clean | CaptureState::Aborted => !w.open && readable(w),
        _ => sound(w),
    }
}

/// A call that writes nothing leaves the bytes of the file alone.
proof fn lemma_sent_other(calls: Seq<Call>, call: Call)
    requires
        !(call.action is Write && call.answer is Ok),
    ensures
        sent(calls.push(call)) == sent(calls),
{
    assert(calls.push(call).drop_last() =~= calls);
}

/// A call that writes puts its bytes behind the others.
proof fn lemma_sent_write(calls: Seq<Call>, bytes: Seq<u8>, value: u64)
    ensures
        sent(calls.push(Call { action: Action::Write(bytes), answer: Ok(value) })) == sent(calls)
            + bytes,
{
    assert(calls.push(Call { action: Action::Write(bytes), answer: Ok(value) }).drop_last()
        =~= calls);
}

/// An event that a reader takes is added.
proof fn lemma_event_added(w: WriterView, p: Progress, e: Event, v: WriterView)
    requires
        holds(w, p),
        p.terminal is None,
        capture_reader::stepped(p, e) is Ok,
        e.body.len() <= MVS_CAPTURE_V2_MAX_EVENT_BODY,
        v.events == w.events.push(e),
        sent(v.calls) == sent(w.calls) + crate::capture_events::event_bytes(e),
    ensures
        holds(v, capture_reader::stepped(p, e)->Ok_0),
{
    let h = crate::capture_events::header_bytes();
    let b = capture_reader::events_bytes(w.events);
    let t = crate::capture_events::event_bytes(e);
    assert(v.events.drop_last() =~= w.events);
    assert(v.events.last() == e);
    assert(capture_reader::events_bytes(v.events) == b + t);
    assert(h + b + t =~= h + (b + t));
    assert forall|i: int| 0 <= i < v.events.len() implies (#[trigger] v.events[i]).body.len()
        <= MVS_CAPTURE_V2_MAX_EVENT_BODY by {
        if i < w.events.len() {
            assert(v.events[i] == w.events[i]);
        }
    }
}

/// Reading the clock changes nothing but the time.
proof fn lemma_clock(w: WriterView, all: Seq<Call>)
    ensures
        ({
            let (v, time) = capture_writer_model::clock_read(w, all);
            &&& sent(v.calls) == sent(w.calls)
            &&& v == (WriterView { calls: v.calls, last_timestamp: v.last_timestamp, ..w })
            &&& time matches Ok(now) ==> v.last_timestamp == now && now >= w.last_timestamp
            &&& time is Err ==> v.last_timestamp == w.last_timestamp
        }),
{
    let answer = all[w.calls.len() as int].answer;
    lemma_sent_other(w.calls, Call { action: Action::ReadClock, answer });
}

/// A capture that is given up is no longer open.
proof fn lemma_given_up(w: WriterView, error: VncError, all: Seq<Call>)
    ensures
        faithful(capture_writer_model::given_up(w, error, all).0),
{
}

/// Consuming the sink writes nothing.
proof fn lemma_consumed(w: WriterView, failure: Option<VncError>, all: Seq<Call>)
    ensures
        ({
            let (v, f) = capture_writer_model::consumed(w, failure, all);
            &&& sent(v.calls) == sent(w.calls)
            &&& v == (WriterView { calls: v.calls, ..w })
        }),
{
    let (w1, a1) = capture_writer_model::asked(w, Action::Close, all);
    lemma_sent_other(w.calls, Call { action: Action::Close, answer: a1 });
    let (w2, a2) = capture_writer_model::asked(w1, Action::SyncFile, all);
    lemma_sent_other(w1.calls, Call { action: Action::SyncFile, answer: a2 });
    let (w3, a3) = capture_writer_model::asked(w2, Action::Release, all);
    lemma_sent_other(w2.calls, Call { action: Action::Release, answer: a3 });
}

/// The body of an end is read back.
proof fn lemma_terminal_body(w: WriterView)
    ensures
        ({
            let b = capture_writer_model::terminal_body(w);
            &&& b.len() == 48
            &&& wire::be16(b, 0) == w.terminal_reason->0
            &&& wire::be16(b, 2) == 0
            &&& wire::be32(b, 4) == w.gap_count
            &&& wire::be64(b, 8) == w.sources
            &&& wire::be64(b, 16) == w.records
            &&& wire::be64(b, 24) == w.type0
            &&& wire::be64(b, 32) == w.type1
            &&& wire::be64(b, 40) == w.type2
        }),
{
    reveal(capture_writer_model::terminal_body);
    let b = capture_writer_model::terminal_body(w);
    assert(b.subrange(0, 2) =~= wire::be16_bytes(w.terminal_reason->0));
    wire::lemma_be16(b, 0, w.terminal_reason->0);
    assert(b.subrange(2, 4) =~= wire::be16_bytes(0));
    wire::lemma_be16(b, 2, 0);
    assert(b.subrange(4, 8) =~= wire::be32_bytes(w.gap_count));
    wire::lemma_be32(b, 4, w.gap_count);
    assert(b.subrange(8, 16) =~= wire::be64_bytes(w.sources));
    wire::lemma_be64(b, 8, w.sources);
    assert(b.subrange(16, 24) =~= wire::be64_bytes(w.records));
    wire::lemma_be64(b, 16, w.records);
    assert(b.subrange(24, 32) =~= wire::be64_bytes(w.type0));
    wire::lemma_be64(b, 24, w.type0);
    assert(b.subrange(32, 40) =~= wire::be64_bytes(w.type1));
    wire::lemma_be64(b, 32, w.type1);
    assert(b.subrange(40, 48) =~= wire::be64_bytes(w.type2));
    wire::lemma_be64(b, 40, w.type2);
}

/// The kind of an end.
pub open spec fn end_kind(clean: bool) -> MvsCaptureV2TerminalKind {
    if clean {
        MvsCaptureV2TerminalKind::Clean
    } else {
        MvsCaptureV2TerminalKind::Aborted
    }
}

/// Whether a capture whose file a reader has come to `p` at can end for `reason` at this time.
pub open spec fn can_end(
    w: WriterView,
    p: Progress,
    clean: bool,
    reason: MvsCaptureV2TerminalReason,
    timestamp_us: u64,
    source: int,
) -> bool {
    let code = mvs_capture_v2::reason_code(reason);
    &&& agrees(w, p)
    &&& tallied(w, p, source)
    &&& 0 <= source <= u64::MAX
    &&& clean == (code <= 2)
    &&& clean ==> recording_kinds(p.kinds) && p.committed is Some && p.requested is Some
    &&& p.phase != StructuralPhase::Start
    &&& mvs_capture_v2::reason_fits_phase(end_kind(clean), reason, p.phase)
    &&& if p.gaps.len() > 0 {
        &&& p.gaps.len() == 1
        &&& mvs_capture_v2::gap_terminal_of(p.gaps[0].reason) == Ok::<u16, VncError>(code)
    } else {
        code != 262 && code != 263
    }
    &&& capture_totals::source_end(end_kind(clean), source as u64, p.gaps) == Ok::<u64, VncError>(
        w.sources,
    )
    &&& p.last_timestamp->0 <= timestamp_us
    &&& code == 1 ==> timestamp_us >= capture_writer_model::deadline_us(w)
    &&& code == 2 ==> timestamp_us < capture_writer_model::deadline_us(w) && w.records
        == w.config.record_limit
}

/// A reader takes the end.
proof fn lemma_end_taken(
    w: WriterView,
    p: Progress,
    clean: bool,
    reason: MvsCaptureV2TerminalReason,
    timestamp_us: u64,
    source: int,
)
    requires
        can_end(w, p, clean, reason, timestamp_us, source),
        w.terminal_reason == Some(mvs_capture_v2::reason_code(reason)),
        w.event_count + 1 <= MVS_CAPTURE_V2_MAX_EVENTS,
    ensures
        ({
            let kind = if clean {
                EVENT_CLEAN
            } else {
                EVENT_ABORTED
            };
            let e = capture_writer_model::next_event(
                w,
                kind,
                timestamp_us,
                capture_writer_model::terminal_body(w),
            );
            let r = capture_reader::stepped(p, e);
            &&& r is Ok
            &&& (r->Ok_0).terminal is Some
            &&& (r->Ok_0).records == p.records
            &&& (r->Ok_0).deadline_ms == p.deadline_ms
            &&& (r->Ok_0).record_limit == p.record_limit
            &&& ((r->Ok_0).terminal->0).reason == reason
            &&& capture_reader::finished(r->Ok_0) is Ok
            &&& clean ==> capture_reader::strict_of(capture_reader::structural_view(r->Ok_0)) is Ok
        }),
{
    reveal(capture_reader::taken);
    lemma_terminal_body(w);
    mvs_capture_v2::lemma_reason_of(reason);
    let kind = if clean {
        EVENT_CLEAN
    } else {
        EVENT_ABORTED
    };
    let body = capture_writer_model::terminal_body(w);
    let e = capture_writer_model::next_event(w, kind, timestamp_us, body);
    let t = mvs_capture_v2::terminal_of(kind, body, timestamp_us);
    assert(t is Ok);
    assert(capture_reader::ending(p.phase, kind, timestamp_us, body) == t);
    let q = capture_reader::entered(p, e.ordinal, e.timestamp_us)->Ok_0;
    let n = capture_reader::stepped(p, e)->Ok_0;
    assert(n.records == p.records);
    assert(n.gaps == p.gaps);
    assert(n.terminal == Some(t->Ok_0));
    assert(capture_totals::gap_rule_refusal(t->Ok_0, p.gaps) is None);
    assert(capture_totals::clean_refusal(t->Ok_0, p.deadline_ms, p.record_limit) is None);
    assert(capture_totals::terminal_refusal(
        t->Ok_0,
        p.records,
        p.gaps,
        p.deadline_ms,
        p.record_limit,
    ) is None);
    if clean {
        let s = capture_reader::structural_view(n);
        assert(s.kinds == p.kinds.push(EVENT_CLEAN));
        assert(s.generations == p.generations.push(0));
        assert(capture_reader::all_first_generation(s.generations));
    }
}

/// Ending a sound file leaves one that a reader accepts.
proof fn lemma_finalized(
    w: WriterView,
    p: Progress,
    clean: bool,
    reason: MvsCaptureV2TerminalReason,
    timestamp_us: u64,
    source: int,
    all: Seq<Call>,
)
    requires
        w.open,
        w.state == CaptureState::Finalizing,
        holds(w, p),
        can_end(w, p, clean, reason, timestamp_us, source),
        w.terminal_reason == Some(mvs_capture_v2::reason_code(reason)),
    ensures
        faithful(capture_writer_model::finalized(w, clean, timestamp_us, all).0),
{
    reveal(capture_writer_model::finalized);
    match capture_writer_model::preflight_refusal(w, 1) {
        Some(e) => {
            lemma_given_up(w, e, all);
        },
        None => {
            let kind = if clean {
                EVENT_CLEAN
            } else {
                EVENT_ABORTED
            };
            let body = capture_writer_model::terminal_body(w);
            let e = capture_writer_model::next_event(w, kind, timestamp_us, body);
            let bytes = crate::capture_events::event_bytes(e);
            let (w1, answer) = capture_writer_model::asked(
                WriterView { open: false, ..w },
                Action::Write(bytes),
                all,
            );
            if answer is Ok {
                let w2 = capture_writer_model::with_event(w1, e);
                lemma_consumed(w2, None, all);
                lemma_sent_write(w.calls, bytes, answer->Ok_0);
                let (w3, failure) = capture_writer_model::consumed(w2, None, all);
                lemma_end_taken(w, p, clean, reason, timestamp_us, source);
                lemma_terminal_body(w);
                let q = capture_reader::stepped(p, e)->Ok_0;
                lemma_event_added(w, p, e, w3);
                let events = w3.events;
                capture_reader::law_written_events_are_read(
                    capture_reader::no_progress(),
                    events,
                    Seq::empty(),
                );
                lemma_file(w3, q);
            }
        },
    }
}

/// A file that holds an end is read as a whole.
proof fn lemma_file(w: WriterView, q: Progress)
    requires
        holds(w, q),
        q.terminal is Some,
    ensures
        capture_reader::structural_read(sent(w.calls)) == capture_reader::finished(q),
{
    let h = crate::capture_events::header_bytes();
    let b = capture_reader::events_bytes(w.events);
    let data = sent(w.calls);
    capture_reader::law_header_is_accepted();
    capture_reader::law_written_events_are_read(
        capture_reader::no_progress(),
        w.events,
        Seq::empty(),
    );
    lemma_cut(h, b);
}

/// The parts of a whole are found in it.
proof fn lemma_cut(head: Seq<u8>, tail: Seq<u8>)
    ensures
        (head + tail).take(head.len() as int) == head,
        (head + tail).skip(head.len() as int) == tail,
        tail + Seq::<u8>::empty() == tail,
{
    assert((head + tail).take(head.len() as int) =~= head);
    assert((head + tail).skip(head.len() as int) =~= tail);
    assert(tail + Seq::<u8>::empty() =~= tail);
}

/// The file holds what a reader comes to `p` at, and no record is unfinished or missing.
pub open spec fn midway(w: WriterView, p: Progress) -> bool {
    &&& w.open
    &&& holds(w, p)
    &&& agrees(w, p)
    &&& tallied(w, p, w.sources as int)
    &&& p.gaps.len() == 0
    &&& p.phase != StructuralPhase::Start
}

/// Giving up such a capture for a reason that goes with its phase leaves a file that a reader
/// accepts.
proof fn lemma_abort(w: WriterView, p: Progress, reason: MvsCaptureV2TerminalReason, all: Seq<Call>)
    requires
        midway(w, p),
        mvs_capture_v2::reason_fits_phase(MvsCaptureV2TerminalKind::Aborted, reason, p.phase),
        mvs_capture_v2::reason_code(reason) >= 257,
        mvs_capture_v2::reason_code(reason) != 262,
        mvs_capture_v2::reason_code(reason) != 263,
    ensures
        faithful(
            capture_writer_model::finalized_now(
                w,
                false,
                mvs_capture_v2::reason_code(reason),
                all,
            ).0,
        ),
        faithful(
            capture_writer_model::finalized_at(
                w,
                false,
                mvs_capture_v2::reason_code(reason),
                w.last_timestamp,
                all,
            ).0,
        ),
{
    let code = mvs_capture_v2::reason_code(reason);
    let v = capture_writer_model::selected(w, false, code);
    lemma_finalized(v, p, false, reason, w.last_timestamp, w.sources as int, all);
    lemma_clock(v, all);
    let (x, time) = capture_writer_model::clock_read(v, all);
    match time {
        Ok(now) => {
            lemma_finalized(x, p, false, reason, now, w.sources as int, all);
        },
        Err(e) => {
            lemma_given_up(x, e, all);
        },
    }
}

/// Reading the clock keeps a capture sound.
proof fn lemma_sound_clock(w: WriterView, all: Seq<Call>)
    requires
        sound(w),
    ensures
        sound(capture_writer_model::clock_read(w, all).0),
{
    lemma_clock(w, all);
}

/// A sound capture without an unfinished record is midway.
proof fn lemma_midway(w: WriterView)
    requires
        sound(w),
        capture_writer_model::ongoing(w.state),
        w.pending is None,
    ensures
        midway(w, read_so_far(w)->Ok_0),
{
}

/// Writing an event that a reader takes.
proof fn lemma_written(
    w: WriterView,
    p: Progress,
    kind: u16,
    timestamp_us: u64,
    body: Seq<u8>,
    payload: usize,
    all: Seq<Call>,
)
    requires
        holds(w, p),
        p.terminal is None,
        body.len() <= MVS_CAPTURE_V2_MAX_EVENT_BODY,
        capture_writer_model::room_refusal(w, payload as int) is None
            ==> capture_reader::stepped(
            p,
            capture_writer_model::next_event(w, kind, timestamp_us, body),
        ) is Ok,
    ensures
        ({
            let e = capture_writer_model::next_event(w, kind, timestamp_us, body);
            let (v, r) = capture_writer_model::written(w, kind, timestamp_us, body, payload, all);
            &&& r is Err ==> holds(v, p) && v == (WriterView { calls: v.calls, ..w })
            &&& r is Ok ==> {
                &&& capture_writer_model::room_refusal(w, payload as int) is None
                &&& holds(v, capture_reader::stepped(p, e)->Ok_0)
                &&& v == (WriterView {
                    calls: v.calls,
                    payload: (w.payload + payload) as usize,
                    event_count: (w.event_count + 1) as usize,
                    event_ordinal: (w.event_ordinal + 1) as u64,
                    events: w.events.push(e),
                    ..w
                })
            }
        }),
{
    reveal(capture_writer_model::written);
    if capture_writer_model::room_refusal(w, payload as int) is None {
        let e = capture_writer_model::next_event(w, kind, timestamp_us, body);
        let bytes = crate::capture_events::event_bytes(e);
        let (v, answer) = capture_writer_model::asked(w, Action::Write(bytes), all);
        match answer {
            Err(f) => {
                lemma_sent_other(w.calls, Call { action: Action::Write(bytes), answer });
            },
            Ok(value) => {
                lemma_sent_write(w.calls, bytes, value);
                let x = capture_writer_model::written(
                    w,
                    kind,
                    timestamp_us,
                    body,
                    payload,
                    all,
                ).0;
                lemma_event_added(w, p, e, x);
            },
        }
    }
}

/// The body of the event that arms a capture is read back.
proof fn lemma_armed_body(config: ArmedConfig)
    ensures
        ({
            let b = capture_writer_model::armed_body(config);
            &&& b.len() == 24
            &&& wire::be16(b, 0) == config.committed.width
            &&& wire::be16(b, 2) == config.committed.height
            &&& wire::be16(b, 4) == config.requested.width
            &&& wire::be16(b, 6) == config.requested.height
            &&& wire::be16(b, 8) == 1
            &&& wire::be16(b, 10) == 1
            &&& wire::be32(b, 12) == 3
            &&& wire::be64(b, 16) == 0
        }),
{
    reveal(capture_writer_model::armed_body);
    let b = capture_writer_model::armed_body(config);
    assert(b.subrange(0, 2) =~= wire::be16_bytes(config.committed.width));
    wire::lemma_be16(b, 0, config.committed.width);
    assert(b.subrange(2, 4) =~= wire::be16_bytes(config.committed.height));
    wire::lemma_be16(b, 2, config.committed.height);
    assert(b.subrange(4, 6) =~= wire::be16_bytes(config.requested.width));
    wire::lemma_be16(b, 4, config.requested.width);
    assert(b.subrange(6, 8) =~= wire::be16_bytes(config.requested.height));
    wire::lemma_be16(b, 6, config.requested.height);
    assert(b.subrange(8, 10) =~= wire::be16_bytes(1));
    wire::lemma_be16(b, 8, 1);
    assert(b.subrange(10, 12) =~= wire::be16_bytes(1));
    wire::lemma_be16(b, 10, 1);
    assert(b.subrange(12, 16) =~= wire::be32_bytes(3));
    wire::lemma_be32(b, 12, 3);
    assert(b.subrange(16, 24) =~= wire::be64_bytes(0));
    wire::lemma_be64(b, 16, 0);
}

/// The body of the event that tells of the trigger is read back.
proof fn lemma_triggered_body(requested: MvsCaptureV2Geometry)
    ensures
        ({
            let b = capture_writer_model::triggered_body(requested);
            &&& b.len() == 16
            &&& wire::be16(b, 0) == requested.width
            &&& wire::be16(b, 2) == requested.height
            &&& wire::be32(b, 4) == 7
            &&& wire::be64(b, 8) == 0
        }),
{
    reveal(capture_writer_model::triggered_body);
    let b = capture_writer_model::triggered_body(requested);
    assert(b.subrange(0, 2) =~= wire::be16_bytes(requested.width));
    wire::lemma_be16(b, 0, requested.width);
    assert(b.subrange(2, 4) =~= wire::be16_bytes(requested.height));
    wire::lemma_be16(b, 2, requested.height);
    assert(b.subrange(4, 8) =~= wire::be32_bytes(7));
    wire::lemma_be32(b, 4, 7);
    assert(b.subrange(8, 16) =~= wire::be64_bytes(0));
    wire::lemma_be64(b, 8, 0);
}

/// What an event that a reader takes leaves alone.
pub open spec fn one_more(p: Progress, q: Progress, kind: u16, timestamp_us: u64) -> bool {
    &&& q.events == p.events + 1
    &&& q.last_timestamp == Some(timestamp_us)
    &&& q.kinds == p.kinds.push(kind)
    &&& q.generations == p.generations.push(0)
    &&& q.generation == p.generation
    &&& q.deadline_ms == p.deadline_ms
    &&& q.record_limit == p.record_limit
    &&& q.surfaces == p.surfaces
    &&& q.terminal == p.terminal
}

/// A reader takes the event that arms the capture.
proof fn lemma_armed_step(w: WriterView, p: Progress, config: ArmedConfig, timestamp_us: u64)
    requires
        agrees(w, p),
        p.phase == StructuralPhase::Created,
        p.committed is None,
        p.gaps.len() == 0,
        capture_writer_model::armable(config),
        w.event_count + 2 <= MVS_CAPTURE_V2_MAX_EVENTS,
        p.last_timestamp->0 <= timestamp_us,
    ensures
        ({
            let e = capture_writer_model::next_event(
                w,
                EVENT_ARMED,
                timestamp_us,
                capture_writer_model::armed_body(config),
            );
            let r = capture_reader::stepped(p, e);
            &&& r is Ok
            &&& one_more(p, r->Ok_0, EVENT_ARMED, timestamp_us)
            &&& (r->Ok_0).phase == StructuralPhase::Armed
            &&& (r->Ok_0).committed == Some(config.committed)
            &&& (r->Ok_0).requested == Some(config.requested)
            &&& (r->Ok_0).records == p.records
            &&& (r->Ok_0).payload == p.payload
            &&& (r->Ok_0).gaps == p.gaps
        }),
{
    reveal(capture_reader::taken);
    lemma_armed_body(config);
}

/// A reader takes the event that tells of the trigger.
proof fn lemma_triggered_step(
    w: WriterView,
    p: Progress,
    requested: MvsCaptureV2Geometry,
    timestamp_us: u64,
)
    requires
        agrees(w, p),
        p.phase == StructuralPhase::Armed,
        p.requested == Some(requested),
        p.gaps.len() == 0,
        w.event_count + 2 <= MVS_CAPTURE_V2_MAX_EVENTS,
        p.last_timestamp->0 <= timestamp_us,
    ensures
        ({
            let e = capture_writer_model::next_event(
                w,
                EVENT_TRIGGERED,
                timestamp_us,
                capture_writer_model::triggered_body(requested),
            );
            let r = capture_reader::stepped(p, e);
            &&& r is Ok
            &&& one_more(p, r->Ok_0, EVENT_TRIGGERED, timestamp_us)
            &&& (r->Ok_0).phase == StructuralPhase::Triggered
            &&& (r->Ok_0).committed == p.committed
            &&& (r->Ok_0).requested == p.requested
            &&& (r->Ok_0).records == p.records
            &&& (r->Ok_0).payload == p.payload
            &&& (r->Ok_0).gaps == p.gaps
        }),
{
    reveal(capture_reader::taken);
    lemma_triggered_body(requested);
}

/// A reader takes the event that opens the recording.
proof fn lemma_recording_step(w: WriterView, p: Progress, timestamp_us: u64)
    requires
        agrees(w, p),
        p.phase == StructuralPhase::Triggered,
        p.gaps.len() == 0,
        w.event_count + 2 <= MVS_CAPTURE_V2_MAX_EVENTS,
        p.last_timestamp->0 <= timestamp_us,
    ensures
        ({
            let e = capture_writer_model::next_event(
                w,
                EVENT_RECORDING,
                timestamp_us,
                wire::be64_bytes(0),
            );
            let r = capture_reader::stepped(p, e);
            &&& r is Ok
            &&& one_more(p, r->Ok_0, EVENT_RECORDING, timestamp_us)
            &&& (r->Ok_0).phase == StructuralPhase::Recording
            &&& (r->Ok_0).committed == p.committed
            &&& (r->Ok_0).requested == p.requested
            &&& (r->Ok_0).records == p.records
            &&& (r->Ok_0).payload == p.payload
            &&& (r->Ok_0).gaps == p.gaps
        }),
{
    reveal(capture_reader::taken);
    let b = wire::be64_bytes(0);
    assert(b.subrange(0, 8) =~= b);
    wire::lemma_be64(b, 0, 0);
}

/// Watching the time before the trigger keeps a writer faithful.
proof fn lemma_checkpointed(w: WriterView, all: Seq<Call>)
    requires
        faithful(w),
    ensures
        faithful(capture_writer_model::checkpointed(w, all).0),
{
    if w.open && (w.state == CaptureState::Created || w.state == CaptureState::Armed) {
        lemma_clock(w, all);
        lemma_sound_clock(w, all);
        let (v, time) = capture_writer_model::clock_read(w, all);
        match time {
            Err(e) => {},
            Ok(now) => {
                lemma_midway(v);
                lemma_abort(
                    v,
                    read_so_far(v)->Ok_0,
                    MvsCaptureV2TerminalReason::PreTriggerDeadline,
                    all,
                );
            },
        }
    }
}

/// Arming a capture keeps a writer faithful.
proof fn lemma_armed(w: WriterView, config: ArmedConfig, all: Seq<Call>)
    requires
        faithful(w),
    ensures
        faithful(capture_writer_model::armed(w, config, all).0),
{
    if w.open && w.state == CaptureState::Created {
        let p = read_so_far(w)->Ok_0;
        lemma_midway(w);
        lemma_abort(w, p, MvsCaptureV2TerminalReason::InvalidGeometry, all);
        if capture_writer_model::armable(config) {
            lemma_clock(w, all);
            lemma_sound_clock(w, all);
            let (w1, time) = capture_writer_model::clock_read(w, all);
            match time {
                Err(e) => {},
                Ok(now) => {
                    lemma_midway(w1);
                    lemma_abort(w1, p, MvsCaptureV2TerminalReason::PreTriggerDeadline, all);
                    if now < capture_writer_model::deadline_us(w1) {
                        lemma_armed_written(w1, p, config, all);
                    }
                },
            }
        }
    }
}

/// Writing the event that arms a capture and bringing it to the disk.
proof fn lemma_armed_written(w1: WriterView, p: Progress, config: ArmedConfig, all: Seq<Call>)
    requires
        sound(w1),
        w1.state == CaptureState::Created,
        p == read_so_far(w1)->Ok_0,
        capture_writer_model::armable(config),
    ensures
        ({
            let (w2, done) = capture_writer_model::written(
                w1,
                EVENT_ARMED,
                w1.last_timestamp,
                capture_writer_model::armed_body(config),
                0,
                all,
            );
            &&& done is Err ==> faithful(
                capture_writer_model::finalized_now(w2, false, 259, all).0,
            )
            &&& done is Ok ==> faithful(capture_writer_model::armed_synced(w2, config, all).0)
        }),
{
    let body = capture_writer_model::armed_body(config);
    let now = w1.last_timestamp;
    lemma_armed_body(config);
    if capture_writer_model::room_refusal(w1, 0) is None {
        lemma_armed_step(w1, p, config, now);
    }
    lemma_written(w1, p, EVENT_ARMED, now, body, 0, all);
    let (w2, done) = capture_writer_model::written(w1, EVENT_ARMED, now, body, 0, all);
    if done is Err {
        assert(midway(w2, p));
        lemma_abort(w2, p, MvsCaptureV2TerminalReason::ArmOutputFailure, all);
    } else {
        let e = capture_writer_model::next_event(w1, EVENT_ARMED, now, body);
        let q = capture_reader::stepped(p, e)->Ok_0;
        assert(q.kinds =~= seq![EVENT_CREATED, EVENT_ARMED]);
        assert(midway(w2, q));
        lemma_abort(w2, q, MvsCaptureV2TerminalReason::ArmOutputFailure, all);
        let (w3, flushed) = capture_writer_model::asked(w2, Action::Flush, all);
        lemma_sent_other(w2.calls, Call { action: Action::Flush, answer: flushed });
        assert(midway(w3, q));
        lemma_abort(w3, q, MvsCaptureV2TerminalReason::ArmOutputFailure, all);
        let (w4, synced) = capture_writer_model::asked(w3, Action::Sync, all);
        lemma_sent_other(w3.calls, Call { action: Action::Sync, answer: synced });
        assert(midway(w4, q));
        lemma_abort(w4, q, MvsCaptureV2TerminalReason::ArmOutputFailure, all);
        lemma_clock(w4, all);
        let (w5, time) = capture_writer_model::clock_read(w4, all);
        match time {
            Err(e) => {},
            Ok(last) => {
                assert(midway(w5, q));
                lemma_abort(w5, q, MvsCaptureV2TerminalReason::PreTriggerDeadline, all);
            },
        }
    }
}

/// Beginning to send the trigger keeps a writer faithful.
proof fn lemma_trigger_begun(w: WriterView, all: Seq<Call>)
    requires
        faithful(w),
    ensures
        faithful(capture_writer_model::trigger_begun(w, all).0),
{
    if w.open && w.state == CaptureState::Armed {
        lemma_clock(w, all);
        lemma_sound_clock(w, all);
        let (v, time) = capture_writer_model::clock_read(w, all);
        lemma_midway(v);
        lemma_abort(
            v,
            read_so_far(v)->Ok_0,
            MvsCaptureV2TerminalReason::PreTriggerDeadline,
            all,
        );
        let x = WriterView { state: CaptureState::Triggering, ..v };
        assert(holds(x, read_so_far(v)->Ok_0));
    }
}

/// Noting a part of the trigger keeps a writer faithful.
proof fn lemma_trigger_written(w: WriterView, bit: u32, all: Seq<Call>)
    requires
        faithful(w),
    ensures
        faithful(capture_writer_model::trigger_written(w, bit, all).0),
{
    if w.open && w.state == CaptureState::Triggering && Some(bit)
        == capture_writer_model::next_trigger_bit(w.trigger_mask) {
        let u = WriterView { trigger_mask: (w.trigger_mask + bit) as u32, ..w };
        assert(holds(u, read_so_far(w)->Ok_0));
        lemma_clock(u, all);
        lemma_sound_clock(u, all);
        let (v, time) = capture_writer_model::clock_read(u, all);
        lemma_midway(v);
        lemma_abort(v, read_so_far(v)->Ok_0, MvsCaptureV2TerminalReason::TriggerFailure, all);
    }
}

/// A trigger that cannot be sent keeps a writer faithful.
proof fn lemma_trigger_refused(w: WriterView, all: Seq<Call>)
    requires
        faithful(w),
    ensures
        faithful(capture_writer_model::trigger_refused(w, all).0),
{
    if w.open && w.state == CaptureState::Triggering {
        lemma_midway(w);
        lemma_abort(w, read_so_far(w)->Ok_0, MvsCaptureV2TerminalReason::TriggerFailure, all);
    }
}

/// Beginning the recording keeps a writer faithful.
proof fn lemma_gate_written(w: WriterView, all: Seq<Call>)
    requires
        faithful(w),
    ensures
        faithful(capture_writer_model::gate_written(w, all).0),
{
    if w.open && w.state == CaptureState::Triggering && w.trigger_mask == 7 && w.armed is Some {
        let p = read_so_far(w)->Ok_0;
        lemma_clock(w, all);
        lemma_sound_clock(w, all);
        let (w1, time) = capture_writer_model::clock_read(w, all);
        lemma_midway(w1);
        lemma_abort(w1, p, MvsCaptureV2TerminalReason::TriggerFailure, all);
        if time is Ok && w1.last_timestamp < capture_writer_model::deadline_us(w1) {
            let requested = (w.armed->0).requested;
            let body = capture_writer_model::triggered_body(requested);
            let now = w1.last_timestamp;
            lemma_triggered_body(requested);
            if capture_writer_model::room_refusal(w1, 0) is None {
                lemma_triggered_step(w1, p, requested, now);
            }
            lemma_written(w1, p, EVENT_TRIGGERED, now, body, 0, all);
            let (w2, done) = capture_writer_model::written(w1, EVENT_TRIGGERED, now, body, 0, all);
            if done is Err {
                assert(midway(w2, p));
                lemma_abort(w2, p, MvsCaptureV2TerminalReason::TriggerFailure, all);
            } else {
                let e = capture_writer_model::next_event(w1, EVENT_TRIGGERED, now, body);
                let q = capture_reader::stepped(p, e)->Ok_0;
                assert(q.kinds =~= seq![EVENT_CREATED, EVENT_ARMED, EVENT_TRIGGERED]);
                assert(midway(w2, q));
                lemma_clock(w2, all);
                let (w3, after) = capture_writer_model::clock_read(w2, all);
                if after is Ok {
                    assert(midway(w3, q));
                    lemma_abort(w3, q, MvsCaptureV2TerminalReason::TriggerFailure, all);
                    lemma_recording_opened(w3, q, all);
                }
            }
        }
    }
}

/// Opening the recording.
proof fn lemma_recording_opened(w: WriterView, p: Progress, all: Seq<Call>)
    requires
        midway(w, p),
        p.phase == StructuralPhase::Triggered,
        p.kinds =~= seq![EVENT_CREATED, EVENT_ARMED, EVENT_TRIGGERED],
        surfaces_sound(w, p),
        w.state == CaptureState::Triggering,
        w.pending is None,
        w.assembling is None,
        w.sources == 0,
        w.records == 0,
        w.gap_count == 0,
    ensures
        faithful(capture_writer_model::recording_opened(w, all).0),
{
    lemma_clock(w, all);
    let (w1, time) = capture_writer_model::clock_read(w, all);
    if time is Ok {
        let now = w1.last_timestamp;
        let body = wire::be64_bytes(0);
        assert(midway(w1, p));
        if capture_writer_model::room_refusal(w1, 0) is None {
            lemma_recording_step(w1, p, now);
        }
        assert(body.len() == 8);
        lemma_written(w1, p, EVENT_RECORDING, now, body, 0, all);
        let (w2, done) = capture_writer_model::written(w1, EVENT_RECORDING, now, body, 0, all);
        if done is Err {
            assert(midway(w2, p));
            lemma_abort(w2, p, MvsCaptureV2TerminalReason::TriggerFailure, all);
        } else {
            let e = capture_writer_model::next_event(w1, EVENT_RECORDING, now, body);
            let q = capture_reader::stepped(p, e)->Ok_0;
            assert(midway(w2, q));
            let (w3, flushed) = capture_writer_model::asked(w2, Action::Flush, all);
            lemma_sent_other(w2.calls, Call { action: Action::Flush, answer: flushed });
            assert(midway(w3, q));
            lemma_abort(w3, q, MvsCaptureV2TerminalReason::TriggerFailure, all);
            lemma_clock(w3, all);
            let (w4, last) = capture_writer_model::clock_read(w3, all);
            if last is Ok {
                assert(midway(w4, q));
                lemma_abort(w4, q, MvsCaptureV2TerminalReason::TriggerFailure, all);
                let x = WriterView { state: CaptureState::Recording, ..w4 };
                assert(holds(x, q));
                assert(recording_kinds(q.kinds));
            }
        }
    }
}

/// The body of a gap is read back.
proof fn lemma_gap_body(g: MvsCaptureV2Gap)
    ensures
        ({
            let b = capture_writer_model::gap_body(g);
            &&& b.len() == 40
            &&& wire::be16(b, 0) == g.reason
            &&& wire::be16(b, 2) == g.stage
            &&& wire::be32(b, 4) == 1
            &&& wire::be64(b, 8) == g.first_source_frame_ordinal
            &&& wire::be64(b, 16) == g.last_source_frame_ordinal
            &&& wire::be32(b, 24) == g.declared_total
            &&& wire::be32(b, 28) == g.accumulated_bytes
            &&& mvs_capture_v2::rect_at(b, 32) == g.rect
        }),
{
    reveal(capture_writer_model::gap_body);
    let b = capture_writer_model::gap_body(g);
    assert(b.subrange(0, 2) =~= wire::be16_bytes(g.reason));
    wire::lemma_be16(b, 0, g.reason);
    assert(b.subrange(2, 4) =~= wire::be16_bytes(g.stage));
    wire::lemma_be16(b, 2, g.stage);
    assert(b.subrange(4, 8) =~= wire::be32_bytes(1));
    wire::lemma_be32(b, 4, 1);
    assert(b.subrange(8, 16) =~= wire::be64_bytes(g.first_source_frame_ordinal));
    wire::lemma_be64(b, 8, g.first_source_frame_ordinal);
    assert(b.subrange(16, 24) =~= wire::be64_bytes(g.last_source_frame_ordinal));
    wire::lemma_be64(b, 16, g.last_source_frame_ordinal);
    assert(b.subrange(24, 28) =~= wire::be32_bytes(g.declared_total));
    wire::lemma_be32(b, 24, g.declared_total);
    assert(b.subrange(28, 32) =~= wire::be32_bytes(g.accumulated_bytes));
    wire::lemma_be32(b, 28, g.accumulated_bytes);
    assert(b.subrange(32, 40) =~= capture_writer_model::rect_bytes(g.rect));
    lemma_rect_at(b, 32, g.rect);
}

/// A rectangle that was written is read back.
proof fn lemma_rect_at(b: Seq<u8>, at: int, rect: MvsRect)
    requires
        0 <= at,
        at + 8 <= b.len(),
        b.subrange(at, at + 8) == capture_writer_model::rect_bytes(rect),
    ensures
        mvs_capture_v2::rect_at(b, at) == rect,
{
    let r = capture_writer_model::rect_bytes(rect);
    assert(b.subrange(at, at + 2) =~= r.subrange(0, 2));
    assert(b.subrange(at + 2, at + 4) =~= r.subrange(2, 4));
    assert(b.subrange(at + 4, at + 6) =~= r.subrange(4, 6));
    assert(b.subrange(at + 6, at + 8) =~= r.subrange(6, 8));
    assert(r.subrange(0, 2) =~= wire::be16_bytes(rect.x));
    assert(r.subrange(2, 4) =~= wire::be16_bytes(rect.y));
    assert(r.subrange(4, 6) =~= wire::be16_bytes(rect.width));
    assert(r.subrange(6, 8) =~= wire::be16_bytes(rect.height));
    wire::lemma_be16(b, at, rect.x);
    wire::lemma_be16(b, at + 2, rect.y);
    wire::lemma_be16(b, at + 4, rect.width);
    wire::lemma_be16(b, at + 6, rect.height);
}

/// Whether a gap is one that a reader takes behind `p`.
pub open spec fn gap_fits(p: Progress, g: MvsCaptureV2Gap) -> bool {
    &&& mvs_capture_v2::gap_stage_of(g.reason) == Ok::<u16, VncError>(g.stage)
    &&& g.first_source_frame_ordinal <= g.last_source_frame_ordinal < u64::MAX
    &&& mvs_capture_v2::gap_numbers_refusal(
        g.reason,
        g.first_source_frame_ordinal,
        g.last_source_frame_ordinal,
        g.declared_total,
        g.accumulated_bytes,
        p.payload,
    ) is None
    &&& g.reason == 9 ==> g.rect == mvs_capture_v2::empty_rect()
}

/// A reader takes a gap that fits.
proof fn lemma_gap_step(w: WriterView, p: Progress, g: MvsCaptureV2Gap, timestamp_us: u64)
    requires
        agrees(w, p),
        p.phase == StructuralPhase::Recording,
        p.gaps.len() == 0,
        gap_fits(p, g),
        w.event_count + 2 <= MVS_CAPTURE_V2_MAX_EVENTS,
        p.last_timestamp->0 <= timestamp_us,
    ensures
        ({
            let e = capture_writer_model::next_event(
                w,
                EVENT_GAP,
                timestamp_us,
                capture_writer_model::gap_body(g),
            );
            let r = capture_reader::stepped(p, e);
            &&& r is Ok
            &&& one_more(p, r->Ok_0, EVENT_GAP, timestamp_us)
            &&& (r->Ok_0).phase == p.phase
            &&& (r->Ok_0).committed == p.committed
            &&& (r->Ok_0).requested == p.requested
            &&& (r->Ok_0).records == p.records
            &&& (r->Ok_0).payload == p.payload
            &&& (r->Ok_0).gaps == seq![g]
        }),
{
    reveal(capture_reader::taken);
    lemma_gap_body(g);
    let body = capture_writer_model::gap_body(g);
    assert(mvs_capture_v2::gap_of(body, p.payload) == Ok::<MvsCaptureV2Gap, VncError>(g));
    assert(p.gaps.push(g) =~= seq![g]);
}

/// A gap that fits, and the end that belongs to it, leave a file that a reader accepts.
proof fn lemma_gap_emitted(
    w: WriterView,
    p: Progress,
    g: MvsCaptureV2Gap,
    reason: MvsCaptureV2TerminalReason,
    all: Seq<Call>,
)
    requires
        w.open,
        holds(w, p),
        agrees(w, p),
        p.phase == StructuralPhase::Recording,
        p.gaps.len() == 0,
        gap_fits(p, g),
        tallied(w, p, g.first_source_frame_ordinal as int),
        g.last_source_frame_ordinal + 1 == w.sources,
        mvs_capture_v2::gap_terminal_of(g.reason) == Ok::<u16, VncError>(
            mvs_capture_v2::reason_code(reason),
        ),
    ensures
        faithful(
            capture_writer_model::gap_emitted(
                w,
                g,
                mvs_capture_v2::reason_code(reason),
                all,
            ).0,
        ),
{
    reveal(capture_writer_model::gap_emitted);
    let code = mvs_capture_v2::reason_code(reason);
    if capture_writer_model::preflight_refusal(w, 2) is None {
        lemma_clock(w, all);
        let (w1, time) = capture_writer_model::clock_read(w, all);
        if time is Ok {
            let now = w1.last_timestamp;
            let body = capture_writer_model::gap_body(g);
            lemma_gap_body(g);
            lemma_gap_step(w1, p, g, now);
            lemma_written(w1, p, EVENT_GAP, now, body, 0, all);
            let (w2, done) = capture_writer_model::written(w1, EVENT_GAP, now, body, 0, all);
            if done is Ok {
                let e = capture_writer_model::next_event(w1, EVENT_GAP, now, body);
                let q = capture_reader::stepped(p, e)->Ok_0;
                let w3 = WriterView {
                    gap_count: 1,
                    last_gap: Some(g),
                    pending: None,
                    assembling: None,
                    ..w2
                };
                let w4 = capture_writer_model::selected(w3, false, code);
                lemma_clock(w4, all);
                let (w5, last) = capture_writer_model::clock_read(w4, all);
                if last is Ok {
                    assert(holds(w5, q));
                    assert(agrees(w5, q));
                    lemma_finalized(
                        w5,
                        q,
                        false,
                        reason,
                        last->Ok_0,
                        g.first_source_frame_ordinal as int,
                        all,
                    );
                }
            }
        }
    }
}

/// A recording that goes on, or has just got its last record.
pub open spec fn running(w: WriterView, p: Progress) -> bool {
    &&& w.open
    &&& w.state == CaptureState::Recording
    &&& holds(w, p)
    &&& agrees(w, p)
    &&& tallied(w, p, records_end(w))
    &&& w.gap_count == 0
    &&& pending_sound(w)
    &&& p.phase == StructuralPhase::Recording
    &&& surfaces_sound(w, p)
    &&& recording_kinds(p.kinds)
    &&& w.pending is Some ==> w.records < w.config.record_limit
}

/// Giving up the unfinished record leaves a file that a reader accepts.
proof fn lemma_pending_given_up(
    w: WriterView,
    p: Progress,
    gap_reason: u16,
    reason: MvsCaptureV2TerminalReason,
    all: Seq<Call>,
)
    requires
        running(w, p),
        w.pending is Some,
        gap_reason == 5 || gap_reason == 6 || gap_reason == 7 || gap_reason == 8 || gap_reason
            == 12,
        mvs_capture_v2::gap_terminal_of(gap_reason) == Ok::<u16, VncError>(
            mvs_capture_v2::reason_code(reason),
        ),
    ensures
        faithful(
            capture_writer_model::pending_given_up(
                w,
                gap_reason,
                mvs_capture_v2::reason_code(reason),
                all,
            ).0,
        ),
{
    let g = capture_writer_model::pending_gap_view(w.pending->0, gap_reason, (w.pending->0).last);
    lemma_gap_emitted(w, p, g, reason, all);
}

/// Going on behind a frame, or ending there.
proof fn lemma_after_frame(w: WriterView, p: Progress, all: Seq<Call>)
    requires
        running(w, p),
    ensures
        faithful(capture_writer_model::after_frame(w, w.last_timestamp, all).0),
        w.last_timestamp >= capture_writer_model::deadline_us(w) ==> faithful(
            capture_writer_model::over_at(w, w.last_timestamp, all).0,
        ),
{
    let now = w.last_timestamp;
    if now >= capture_writer_model::deadline_us(w) {
        if w.pending is Some {
            lemma_pending_given_up(w, p, 6, MvsCaptureV2TerminalReason::PendingAtDeadline, all);
        } else {
            let v = capture_writer_model::selected(w, true, 1);
            lemma_finalized(
                v,
                p,
                true,
                MvsCaptureV2TerminalReason::Deadline,
                now,
                w.sources as int,
                all,
            );
        }
    } else if w.records == w.config.record_limit {
        let v = capture_writer_model::selected(w, true, 2);
        lemma_finalized(
            v,
            p,
            true,
            MvsCaptureV2TerminalReason::RecordLimit,
            now,
            w.sources as int,
            all,
        );
    }
}

/// Reading the clock behind a frame.
proof fn lemma_clocked_after_frame(w: WriterView, p: Progress, all: Seq<Call>)
    requires
        running(w, p),
    ensures
        faithful(capture_writer_model::clocked_after_frame(w, all).0),
{
    lemma_clock(w, all);
    let (v, time) = capture_writer_model::clock_read(w, all);
    if time is Ok {
        assert(running(v, p));
        lemma_after_frame(v, p, all);
    }
}

/// The body of a record is read back.
proof fn lemma_record_body(first: u64, last: u64, record: RecordView)
    requires
        1 <= record.payload.len() <= MVS_CAPTURE_V2_MAX_PAYLOAD,
    ensures
        ({
            let b = capture_writer_model::record_body(first, last, record);
            &&& b.len() == 28 + record.payload.len()
            &&& wire::be64(b, 0) == first
            &&& wire::be64(b, 8) == last
            &&& mvs_capture_v2::rect_at(b, 16) == record.rect
            &&& wire::be32(b, 24) == record.payload.len()
            &&& b[28] == record.payload[0]
            &&& b.skip(28) == record.payload
        }),
{
    reveal(capture_writer_model::record_body);
    let b = capture_writer_model::record_body(first, last, record);
    assert(b.subrange(0, 8) =~= wire::be64_bytes(first));
    wire::lemma_be64(b, 0, first);
    assert(b.subrange(8, 16) =~= wire::be64_bytes(last));
    wire::lemma_be64(b, 8, last);
    assert(b.subrange(16, 24) =~= capture_writer_model::rect_bytes(record.rect));
    lemma_rect_at(b, 16, record.rect);
    assert(b.subrange(24, 28) =~= wire::be32_bytes(record.payload.len() as u32));
    wire::lemma_be32(b, 24, record.payload.len() as u32);
    assert(b.skip(28) =~= record.payload);
    assert(b[28] == b.skip(28)[0]);
}

/// Whether a record is one that a reader takes.
pub open spec fn record_fits(armed: Option<ArmedConfig>, record: RecordView) -> bool {
    let tag = record.payload[0];
    if tag == 2 {
        record.rect == mvs_capture_v2::empty_rect()
    } else {
        tag <= 1 && capture_writer_model::paint_refusal(armed, record.rect) is None
    }
}

/// A reader takes a record that fits.
proof fn lemma_record_step(
    w: WriterView,
    p: Progress,
    first: u64,
    last: u64,
    record: RecordView,
    timestamp_us: u64,
)
    requires
        agrees(w, p),
        p.phase == StructuralPhase::Recording,
        p.gaps.len() == 0,
        surfaces_sound(w, p),
        w.records < w.config.record_limit,
        tallied(w, p, first as int),
        first <= last < u64::MAX,
        1 <= record.payload.len() <= MVS_CAPTURE_V2_MAX_PAYLOAD,
        record_fits(w.armed, record),
        capture_writer_model::room_refusal(w, record.payload.len() as int) is None,
        p.last_timestamp->0 <= timestamp_us,
    ensures
        ({
            let e = capture_writer_model::next_event(
                w,
                EVENT_RECORD,
                timestamp_us,
                capture_writer_model::record_body(first, last, record),
            );
            let r = capture_reader::stepped(p, e);
            let added = mvs_capture_v2::CaptureRecordView { generation: 0, first, last, record };
            &&& r is Ok
            &&& one_more(p, r->Ok_0, EVENT_RECORD, timestamp_us)
            &&& (r->Ok_0).phase == p.phase
            &&& (r->Ok_0).committed == p.committed
            &&& (r->Ok_0).requested == p.requested
            &&& (r->Ok_0).records == p.records.push(added)
            &&& (r->Ok_0).payload == p.payload + record.payload.len()
            &&& (r->Ok_0).gaps == p.gaps
            &&& tallied(
                capture_writer_model::counted_record(w, record.payload[0]),
                r->Ok_0,
                last + 1,
            )
        }),
{
    reveal(capture_reader::taken);
    lemma_record_body(first, last, record);
    let added = mvs_capture_v2::CaptureRecordView { generation: 0, first, last, record };
    let body = capture_writer_model::record_body(first, last, record);
    let surface = p.committed->0;
    assert(mvs_capture_v2::tag_refusal(body[28], record.rect, surface) is None);
    assert(mvs_capture_v2::record_of(body, 0, surface, p.payload)->Ok_0.0 =~= added);
    capture_totals::lemma_tally_total(p.records);
    assert(p.records.push(added).drop_last() =~= p.records);
}

/// A recording in which a record has just become complete, but is not in the file.
pub open spec fn ready(w: WriterView, p: Progress, first: u64, last: u64) -> bool {
    &&& w.open
    &&& w.state == CaptureState::Recording
    &&& holds(w, p)
    &&& agrees(w, p)
    &&& tallied(w, p, first as int)
    &&& w.gap_count == 0
    &&& w.pending is None
    &&& w.assembling is None
    &&& p.phase == StructuralPhase::Recording
    &&& surfaces_sound(w, p)
    &&& recording_kinds(p.kinds)
    &&& w.records < w.config.record_limit
    &&& first <= last
    &&& last + 1 == w.sources
}

/// A complete record keeps a writer faithful, unless it is one without an area that has a
/// rectangle.
proof fn lemma_completed(
    w: WriterView,
    p: Progress,
    first: u64,
    last: u64,
    record: RecordView,
    all: Seq<Call>,
)
    requires
        ready(w, p, first, last),
        1 <= record.payload.len() <= MVS_CAPTURE_V2_MAX_PAYLOAD,
        record.payload[0] == 2 ==> record.rect == mvs_capture_v2::empty_rect(),
    ensures
        faithful(capture_writer_model::completed(w, first, last, record, all).0),
{
    reveal(capture_writer_model::completed);
    lemma_clock(w, all);
    let (w1, time) = capture_writer_model::clock_read(w, all);
    if time is Ok && record_fits(w.armed, record) {
        let now = w1.last_timestamp;
        let body = capture_writer_model::record_body(first, last, record);
        let payload = record.payload.len() as usize;
        lemma_record_body(first, last, record);
        if capture_writer_model::room_refusal(w1, payload as int) is None {
            lemma_record_step(w1, p, first, last, record, now);
        }
        lemma_written(w1, p, EVENT_RECORD, now, body, payload, all);
        let (w2, done) = capture_writer_model::written(w1, EVENT_RECORD, now, body, payload, all);
        if done is Ok {
            let e = capture_writer_model::next_event(w1, EVENT_RECORD, now, body);
            let q = capture_reader::stepped(p, e)->Ok_0;
            let added = mvs_capture_v2::CaptureRecordView { generation: 0, first, last, record };
            let w3 = WriterView { kept: w2.kept.push(added), ..w2 };
            let w4 = capture_writer_model::counted_record(w3, record.payload[0]);
            assert(holds(w4, q));
            assert(agrees(w4, q));
            assert(running(w4, q));
            lemma_clocked_after_frame(w4, q, all);
        }
    } else if time is Ok {
        lemma_unfit_record(w1, first, last, record, all);
    }
}

/// A record that a reader would not take ends the capture without an end in its file.
proof fn lemma_unfit_record(
    w: WriterView,
    first: u64,
    last: u64,
    record: RecordView,
    all: Seq<Call>,
)
    requires
        !record_fits(w.armed, record),
        record.payload[0] == 2 ==> record.rect == mvs_capture_v2::empty_rect(),
    ensures
        ({
            let (v, done) = capture_writer_model::written(
                w,
                EVENT_RECORD,
                w.last_timestamp,
                capture_writer_model::record_body(first, last, record),
                record.payload.len() as usize,
                all,
            );
            let added = mvs_capture_v2::CaptureRecordView {
                generation: v.generation,
                first,
                last,
                record,
            };
            &&& done is Ok ==> faithful(
                capture_writer_model::classified(
                    WriterView { kept: v.kept.push(added), ..v },
                    record,
                    all,
                ).0,
            )
            &&& forall|e: VncError| faithful(#[trigger] capture_writer_model::given_up(v, e, all).0)
        }),
{
    reveal(capture_writer_model::written);
}

/// A frame without a record keeps a writer faithful.
proof fn lemma_non_mvs_accepted(w: WriterView, all: Seq<Call>)
    requires
        faithful(w),
    ensures
        faithful(capture_writer_model::non_mvs_accepted(w, all).0),
{
    if w.open && w.state == CaptureState::Recording {
        lemma_clocked_after_frame(w, read_so_far(w)->Ok_0, all);
    }
}

/// A frame that could not be recognised keeps a writer faithful where no record is unfinished.
proof fn lemma_envelope_rejected(w: WriterView, rect: Option<MvsRect>, all: Seq<Call>)
    requires
        faithful(w),
        w.pending is None,
    ensures
        faithful(capture_writer_model::envelope_rejected(w, rect, all).0),
{
    if w.open && w.state == CaptureState::Recording && w.sources < u64::MAX {
        let p = read_so_far(w)->Ok_0;
        let v = capture_writer_model::numbered(w).0;
        let place = match rect {
            Some(rect) => rect,
            None => mvs_capture_v2::empty_rect(),
        };
        assert(holds(v, p));
        lemma_gap_emitted(
            v,
            p,
            capture_writer_model::gap_view(1, w.sources, w.sources, 0, 0, place),
            MvsCaptureV2TerminalReason::AssemblerFailure,
            all,
        );
    }
}

/// The first chunk of a record keeps a writer faithful.
proof fn lemma_begin_accepted(
    w: WriterView,
    rect: MvsRect,
    total: u32,
    first: Seq<u8>,
    all: Seq<Call>,
)
    requires
        faithful(w),
        w.pending is None && first.len() == total && total > 0 && first[0] == 2 ==> rect
            == mvs_capture_v2::empty_rect(),
    ensures
        faithful(capture_writer_model::begin_accepted(w, rect, total, first, all).0),
{
    if w.open && w.state == CaptureState::Recording && w.sources < u64::MAX {
        let p = read_so_far(w)->Ok_0;
        let v = capture_writer_model::numbered(w).0;
        let ordinal = w.sources;
        let failure = MvsCaptureV2TerminalReason::AssemblerFailure;
        assert(holds(v, p));
        if v.pending is Some {
            lemma_gap_emitted(
                v,
                p,
                capture_writer_model::pending_gap_view(v.pending->0, 10, ordinal),
                failure,
                all,
            );
        } else if total == 0 || total > MVS_CAPTURE_V2_MAX_PAYLOAD {
            lemma_gap_emitted(
                v,
                p,
                capture_writer_model::gap_view(2, ordinal, ordinal, total, 0, rect),
                failure,
                all,
            );
        } else if first.len() > total {
            lemma_gap_emitted(
                v,
                p,
                capture_writer_model::gap_view(3, ordinal, ordinal, total, 0, rect),
                failure,
                all,
            );
        } else if v.payload + total > MVS_CAPTURE_V2_MAX_CUMULATIVE_PAYLOAD {
            lemma_gap_emitted(
                v,
                p,
                capture_writer_model::gap_view(11, ordinal, ordinal, total, 0, rect),
                failure,
                all,
            );
        } else {
            lemma_clock(v, all);
            let (x, time) = capture_writer_model::clock_read(v, all);
            if time is Ok {
                assert(holds(x, p));
                let (assembling, answer) = crate::mvs_stream::begun(
                    x.assembling,
                    rect,
                    total,
                    first,
                );
                let y = WriterView { assembling, ..x };
                if first.len() == total {
                    assert(holds(y, p));
                    lemma_completed(y, p, ordinal, ordinal, RecordView { rect, payload: first }, all);
                } else {
                    let z = WriterView {
                        pending: Some(
                            PendingProvenance {
                                first: ordinal,
                                last: ordinal,
                                total,
                                accepted: first.len() as u32,
                                rect,
                                started_at: time->Ok_0,
                            },
                        ),
                        ..y
                    };
                    assert(holds(z, p));
                    assert(running(z, p));
                    lemma_after_frame(z, p, all);
                }
            }
        }
    }
}

/// A further chunk of a record keeps a writer faithful.
proof fn lemma_continuation_accepted(w: WriterView, chunk: Seq<u8>, all: Seq<Call>)
    requires
        faithful(w),
        w.assembling matches Some(a) ==> (a.received.len() + chunk.len() == a.total && (a.received
            + chunk)[0] == 2 ==> a.rect == mvs_capture_v2::empty_rect()),
    ensures
        faithful(capture_writer_model::continuation_accepted(w, chunk, all).0),
{
    if w.open && w.state == CaptureState::Recording && w.sources < u64::MAX {
        let p = read_so_far(w)->Ok_0;
        let v = capture_writer_model::numbered(w).0;
        let ordinal = w.sources;
        let failure = MvsCaptureV2TerminalReason::AssemblerFailure;
        assert(holds(v, p));
        match v.pending {
            None => {
                lemma_gap_emitted(
                    v,
                    p,
                    capture_writer_model::gap_view(
                        9,
                        ordinal,
                        ordinal,
                        0,
                        0,
                        mvs_capture_v2::empty_rect(),
                    ),
                    failure,
                    all,
                );
            },
            Some(pending) => {
                let a = v.assembling->0;
                if chunk.len() > pending.total - pending.accepted {
                    lemma_gap_emitted(
                        v,
                        p,
                        capture_writer_model::pending_gap_view(pending, 4, ordinal),
                        failure,
                        all,
                    );
                } else {
                    let (assembling, answer) = crate::mvs_stream::continued(v.assembling, chunk);
                    let x = WriterView { assembling, ..v };
                    if a.received.len() + chunk.len() == a.total {
                        let y = WriterView { pending: None, ..x };
                        assert(holds(y, p));
                        lemma_completed(
                            y,
                            p,
                            pending.first,
                            ordinal,
                            RecordView { rect: a.rect, payload: a.received + chunk },
                            all,
                        );
                    } else {
                        let y = WriterView {
                            pending: Some(
                                PendingProvenance {
                                    last: ordinal,
                                    accepted: (pending.accepted + chunk.len()) as u32,
                                    ..pending
                                },
                            ),
                            ..x
                        };
                        assert(holds(y, p));
                        assert(running(y, p));
                        lemma_clocked_after_frame(y, p, all);
                    }
                }
            },
        }
    }
}

/// Watching the time of the recording keeps a writer faithful.
proof fn lemma_polled(w: WriterView, all: Seq<Call>)
    requires
        faithful(w),
    ensures
        faithful(capture_writer_model::polled(w, all).0),
{
    if w.open && w.state == CaptureState::Recording {
        let p = read_so_far(w)->Ok_0;
        lemma_clock(w, all);
        lemma_sound_clock(w, all);
        let (v, time) = capture_writer_model::clock_read(w, all);
        if time is Ok {
            assert(running(v, p));
            lemma_after_frame(v, p, all);
            if v.pending is Some {
                lemma_pending_given_up(v, p, 5, MvsCaptureV2TerminalReason::AssemblerFailure, all);
            }
        }
    }
}

/// A failure to read keeps a writer faithful.
proof fn lemma_read_refused(w: WriterView, all: Seq<Call>)
    requires
        faithful(w),
    ensures
        faithful(capture_writer_model::read_refused(w, all).0),
{
    if w.open && w.state == CaptureState::Recording {
        let p = read_so_far(w)->Ok_0;
        lemma_clock(w, all);
        lemma_sound_clock(w, all);
        let (v, time) = capture_writer_model::clock_read(w, all);
        if time is Ok {
            assert(running(v, p));
            lemma_after_frame(v, p, all);
            if v.pending is Some {
                lemma_pending_given_up(v, p, 5, MvsCaptureV2TerminalReason::AssemblerFailure, all);
                lemma_pending_given_up(v, p, 7, MvsCaptureV2TerminalReason::ReadFailure, all);
            } else {
                lemma_midway(v);
                lemma_abort(v, p, MvsCaptureV2TerminalReason::ReadFailure, all);
            }
        }
    }
}

/// A change of the surface keeps a writer faithful.
proof fn lemma_transition_attempted(w: WriterView, all: Seq<Call>)
    requires
        faithful(w),
    ensures
        faithful(capture_writer_model::transition_attempted(w, all).0),
{
    if w.open && w.state == CaptureState::Recording {
        let p = read_so_far(w)->Ok_0;
        if w.pending is Some {
            lemma_pending_given_up(w, p, 8, MvsCaptureV2TerminalReason::InvalidGeometry, all);
        } else {
            lemma_midway(w);
            lemma_abort(w, p, MvsCaptureV2TerminalReason::InvalidGeometry, all);
        }
    }
}

/// A cancellation keeps a writer faithful.
proof fn lemma_cancelled(w: WriterView, all: Seq<Call>)
    requires
        faithful(w),
    ensures
        faithful(capture_writer_model::cancelled(w, all).0),
{
    if w.open && capture_writer_model::ongoing(w.state) {
        let p = read_so_far(w)->Ok_0;
        if w.pending is Some {
            lemma_pending_given_up(w, p, 12, MvsCaptureV2TerminalReason::OperatorCancellation, all);
        } else {
            lemma_midway(w);
            lemma_abort(w, p, MvsCaptureV2TerminalReason::OperatorCancellation, all);
        }
    }
}

/// A failure before the capture keeps a writer faithful.
proof fn lemma_created_failed(w: WriterView, reason: MvsCaptureV2TerminalReason, all: Seq<Call>)
    requires
        faithful(w),
        reason == MvsCaptureV2TerminalReason::ConnectFailure || reason
            == MvsCaptureV2TerminalReason::CredentialOrAuthenticationFailure,
    ensures
        faithful(
            capture_writer_model::created_failed(w, mvs_capture_v2::reason_code(reason), all).0,
        ),
{
    if w.open && w.state == CaptureState::Created {
        let p = read_so_far(w)->Ok_0;
        lemma_clock(w, all);
        lemma_sound_clock(w, all);
        let (v, time) = capture_writer_model::clock_read(w, all);
        if time is Ok {
            lemma_midway(v);
            lemma_abort(v, p, reason, all);
            lemma_abort(v, p, MvsCaptureV2TerminalReason::PreTriggerDeadline, all);
        }
    }
}

/// The end of the time before the trigger keeps a writer faithful.
proof fn lemma_pre_trigger_over(w: WriterView, all: Seq<Call>)
    requires
        faithful(w),
    ensures
        faithful(capture_writer_model::pre_trigger_over(w, all).0),
{
    if w.open && w.state == CaptureState::Created {
        lemma_midway(w);
        lemma_abort(w, read_so_far(w)->Ok_0, MvsCaptureV2TerminalReason::PreTriggerDeadline, all);
    }
}

/// A failure of the output keeps a writer faithful where no record is unfinished.
proof fn lemma_output_refused(w: WriterView, all: Seq<Call>)
    requires
        faithful(w),
        w.pending is None,
    ensures
        faithful(capture_writer_model::output_refused(w, all).0),
{
    if w.open && capture_writer_model::ongoing(w.state) {
        let p = read_so_far(w)->Ok_0;
        lemma_midway(w);
        if w.state == CaptureState::Triggering {
            lemma_abort(w, p, MvsCaptureV2TerminalReason::TriggerFailure, all);
        } else {
            lemma_abort(w, p, MvsCaptureV2TerminalReason::OutputFailure, all);
        }
    }
}

/// An operation of the writer.
pub enum Operation {
    Checkpoint,
    Arm(ArmedConfig),
    BeginTrigger,
    TriggerWritten(u32),
    TriggerFailed,
    RecordingGate,
    NonMvs,
    RejectEnvelope(Option<MvsRect>),
    Begin { rect: MvsRect, total: u32, first: Seq<u8> },
    Continue(Seq<u8>),
    Poll,
    ReadFailed,
    GenerationTransition,
    Cancel,
    ConnectFailed,
    AuthenticationFailed,
    PreTriggerDeadline,
    OutputFailed,
}

/// What an operation does.
pub open spec fn performed(w: WriterView, op: Operation, all: Seq<Call>) -> Outcome {
    match op {
        Operation::Checkpoint => capture_writer_model::checkpointed(w, all),
        Operation::Arm(config) => capture_writer_model::armed(w, config, all),
        Operation::BeginTrigger => capture_writer_model::trigger_begun(w, all),
        Operation::TriggerWritten(bit) => capture_writer_model::trigger_written(w, bit, all),
        Operation::TriggerFailed => capture_writer_model::trigger_refused(w, all),
        Operation::RecordingGate => capture_writer_model::gate_written(w, all),
        Operation::NonMvs => capture_writer_model::non_mvs_accepted(w, all),
        Operation::RejectEnvelope(rect) => capture_writer_model::envelope_rejected(w, rect, all),
        Operation::Begin { rect, total, first } => capture_writer_model::begin_accepted(
            w,
            rect,
            total,
            first,
            all,
        ),
        Operation::Continue(chunk) => capture_writer_model::continuation_accepted(w, chunk, all),
        Operation::Poll => capture_writer_model::polled(w, all),
        Operation::ReadFailed => capture_writer_model::read_refused(w, all),
        Operation::GenerationTransition => capture_writer_model::transition_attempted(w, all),
        Operation::Cancel => capture_writer_model::cancelled(w, all),
        Operation::ConnectFailed => capture_writer_model::created_failed(w, 257, all),
        Operation::AuthenticationFailed => capture_writer_model::created_failed(w, 258, all),
        Operation::PreTriggerDeadline => capture_writer_model::pre_trigger_over(w, all),
        Operation::OutputFailed => capture_writer_model::output_refused(w, all),
    }
}

/// Whether an operation leaves a file that a reader does not take: a frame that could not be
/// recognised or a failed output while a record is unfinished, or a record without an area that
/// has a rectangle.
pub open spec fn spoils(w: WriterView, op: Operation) -> bool {
    match op {
        Operation::RejectEnvelope(_) | Operation::OutputFailed => w.pending is Some,
        Operation::Begin { rect, total, first } => {
            &&& w.pending is None
            &&& total > 0
            &&& first.len() == total
            &&& first[0] == 2
            &&& rect != mvs_capture_v2::empty_rect()
        },
        Operation::Continue(chunk) => {
            &&& w.assembling matches Some(a)
            &&& a.received.len() + chunk.len() == a.total
            &&& (a.received + chunk)[0] == 2
            &&& a.rect != mvs_capture_v2::empty_rect()
        },
        _ => false,
    }
}

/// Every operation that spoils nothing keeps a writer faithful, whatever its sink and its clock
/// answer.
pub proof fn law_operations_keep_faithful(w: WriterView, op: Operation, all: Seq<Call>)
    requires
        faithful(w),
        !spoils(w, op),
    ensures
        faithful(performed(w, op, all).0),
{
    match op {
        Operation::Checkpoint => lemma_checkpointed(w, all),
        Operation::Arm(config) => lemma_armed(w, config, all),
        Operation::BeginTrigger => lemma_trigger_begun(w, all),
        Operation::TriggerWritten(bit) => lemma_trigger_written(w, bit, all),
        Operation::TriggerFailed => lemma_trigger_refused(w, all),
        Operation::RecordingGate => lemma_gate_written(w, all),
        Operation::NonMvs => lemma_non_mvs_accepted(w, all),
        Operation::RejectEnvelope(rect) => lemma_envelope_rejected(w, rect, all),
        Operation::Begin { rect, total, first } => lemma_begin_accepted(w, rect, total, first, all),
        Operation::Continue(chunk) => lemma_continuation_accepted(w, chunk, all),
        Operation::Poll => lemma_polled(w, all),
        Operation::ReadFailed => lemma_read_refused(w, all),
        Operation::GenerationTransition => lemma_transition_attempted(w, all),
        Operation::Cancel => lemma_cancelled(w, all),
        Operation::ConnectFailed => lemma_created_failed(
            w,
            MvsCaptureV2TerminalReason::ConnectFailure,
            all,
        ),
        Operation::AuthenticationFailed => lemma_created_failed(
            w,
            MvsCaptureV2TerminalReason::CredentialOrAuthenticationFailure,
            all,
        ),
        Operation::PreTriggerDeadline => lemma_pre_trigger_over(w, all),
        Operation::OutputFailed => lemma_output_refused(w, all),
    }
}

/// A capture that has just been created is faithful.
pub proof fn law_created_is_faithful(config: CreatedConfig)
    requires
        capture_writer_model::config_refusal(config) is None,
    ensures
        faithful(capture_writer_model::created_writer(config)),
{
    reveal(capture_reader::taken);
    reveal(capture_writer_model::created_body);
    let w = capture_writer_model::created_writer(config);
    let e = capture_writer_model::created_event(config);
    let b = capture_writer_model::created_body(config);
    let bytes = crate::capture_events::event_bytes(e);
    let h = crate::capture_events::header_bytes();
    assert(b.subrange(0, 4) =~= wire::be32_bytes(config.deadline_ms));
    wire::lemma_be32(b, 0, config.deadline_ms);
    assert(b.subrange(4, 8) =~= wire::be32_bytes(config.record_limit));
    wire::lemma_be32(b, 4, config.record_limit);
    assert(b.subrange(8, 10) =~= wire::be16_bytes(1));
    wire::lemma_be16(b, 8, 1);
    assert(b.subrange(10, 12) =~= wire::be16_bytes(1));
    wire::lemma_be16(b, 10, 1);
    assert(b.subrange(12, 16) =~= wire::be32_bytes(0));
    wire::lemma_be32(b, 12, 0);
    let first = Call { action: Action::Write(h + bytes), answer: Ok::<u64, VncError>(0) };
    let second = Call { action: Action::Flush, answer: Ok::<u64, VncError>(0) };
    let none = Seq::<Call>::empty();
    assert(w.calls =~= none.push(first).push(second));
    lemma_sent_other(none.push(first), second);
    lemma_sent_write(none, h + bytes, 0);
    assert(sent(none) + (h + bytes) =~= h + bytes);
    assert(w.events.drop_last() =~= Seq::<Event>::empty());
    assert(capture_reader::events_bytes(w.events.drop_last()) =~= Seq::<u8>::empty());
    assert(capture_reader::events_bytes(w.events) =~= bytes);
    let start = capture_reader::no_progress();
    assert(capture_reader::replayed(start, w.events.drop_last()) == Ok::<Progress, VncError>(start));
    let q = capture_reader::stepped(start, e)->Ok_0;
    assert(capture_reader::stepped(start, e) is Ok);
    assert(holds(w, q));
    assert(q.kinds =~= seq![EVENT_CREATED]);
}

/// What a new writer comes to by operations, one behind the other.
pub open spec fn run(w: WriterView, ops: Seq<Operation>, all: Seq<Call>) -> WriterView
    decreases ops.len(),
{
    if ops.len() == 0 {
        w
    } else {
        performed(run(w, ops.drop_last(), all), ops.last(), all).0
    }
}

/// Whether one of the operations spoils the file.
pub open spec fn run_spoils(w: WriterView, ops: Seq<Operation>, all: Seq<Call>) -> bool
    decreases ops.len(),
{
    ops.len() > 0 && (run_spoils(w, ops.drop_last(), all) || spoils(
        run(w, ops.drop_last(), all),
        ops.last(),
    ))
}

/// Neither writing an event nor ending a capture changes the configuration.
proof fn lemma_writing_keeps_config()
    ensures
        forall|w: WriterView, clean: bool, time: u64, all: Seq<Call>|
            (#[trigger] capture_writer_model::finalized(w, clean, time, all)).0.config == w.config,
        forall|w: WriterView, kind: u16, time: u64, body: Seq<u8>, payload: usize, all: Seq<Call>|
            (#[trigger] capture_writer_model::written(w, kind, time, body, payload, all)).0.config
                == w.config,
{
    reveal(capture_writer_model::finalized);
    reveal(capture_writer_model::written);
}

/// Neither a gap nor a record changes the configuration.
proof fn lemma_recording_keeps_config()
    ensures
        forall|w: WriterView, gap: MvsCaptureV2Gap, reason: u16, all: Seq<Call>|
            (#[trigger] capture_writer_model::gap_emitted(w, gap, reason, all)).0.config
                == w.config,
        forall|w: WriterView, first: u64, last: u64, record: RecordView, all: Seq<Call>|
            (#[trigger] capture_writer_model::completed(w, first, last, record, all)).0.config
                == w.config,
{
    lemma_writing_keeps_config();
    assert forall|w: WriterView, gap: MvsCaptureV2Gap, reason: u16, all: Seq<Call>|
        (#[trigger] capture_writer_model::gap_emitted(w, gap, reason, all)).0.config
            == w.config by {
        reveal(capture_writer_model::gap_emitted);
    }
    assert forall|w: WriterView, first: u64, last: u64, record: RecordView, all: Seq<Call>|
        (#[trigger] capture_writer_model::completed(w, first, last, record, all)).0.config
            == w.config by {
        reveal(capture_writer_model::completed);
    }
}

/// No operation changes the configuration.
#[verifier::rlimit(40)]
pub proof fn law_operations_keep_config(w: WriterView, op: Operation, all: Seq<Call>)
    ensures
        performed(w, op, all).0.config == w.config,
{
    lemma_writing_keeps_config();
    lemma_recording_keeps_config();
}

/// What a reader says of a planned capture that a writer has ended.
pub open spec fn read_as_planned(w: WriterView) -> bool {
    &&& capture_reader::strict_read(sent(w.calls)) is Ok
    &&& {
        let s = capture_reader::strict_read(sent(w.calls))->Ok_0;
        &&& s.records == w.kept
        &&& s.deadline_ms == w.config.deadline_ms
        &&& s.record_limit == w.config.record_limit
        &&& (s.terminal.reason == MvsCaptureV2TerminalReason::Deadline) == (w.terminal_reason
            == Some(1u16))
        &&& (s.terminal.reason == MvsCaptureV2TerminalReason::RecordLimit) == (w.terminal_reason
            == Some(2u16))
    }
}

/// A capture that ended is read back: whatever operations were performed and whatever the sink and
/// the clock answered, the bytes that were written are a capture file that the reader accepts,
/// with the deadline and the record limit of the configuration, the records that were written and
/// the reason that was settled; and a planned end is accepted as a planned capture.
pub proof fn law_ended_capture_is_read_back(
    config: CreatedConfig,
    ops: Seq<Operation>,
    all: Seq<Call>,
)
    requires
        capture_writer_model::config_refusal(config) is None,
        !run_spoils(capture_writer_model::created_writer(config), ops, all),
    ensures
        faithful(run(capture_writer_model::created_writer(config), ops, all)),
        ({
            let w = run(capture_writer_model::created_writer(config), ops, all);
            &&& w.config == config
            &&& (w.state == CaptureState::Clean || w.state == CaptureState::Aborted) ==> readable(w)
            &&& w.state == CaptureState::Clean ==> read_as_planned(w)
        }),
    decreases ops.len(),
{
    let w = capture_writer_model::created_writer(config);
    if ops.len() == 0 {
        law_created_is_faithful(config);
    } else {
        law_ended_capture_is_read_back(config, ops.drop_last(), all);
        law_operations_keep_faithful(run(w, ops.drop_last(), all), ops.last(), all);
        law_operations_keep_config(run(w, ops.drop_last(), all), ops.last(), all);
    }
}

/// Once a capture has ended or was given up, every operation is refused and changes nothing.
pub proof fn law_ended_capture_refuses(w: WriterView, op: Operation, all: Seq<Call>)
    requires
        !capture_writer_model::ongoing(w.state),
    ensures
        performed(w, op, all).0 == w,
        performed(w, op, all).1 is Err,
{
}

} // verus!
