//! How a capture ends: which step of it ends it, for which reason, and with which gap.

use vstd::prelude::*;
use crate::capture_writer_model;
use crate::capture_writer_model::{Action, Call, CaptureState, CreatedConfig, Outcome};
use crate::capture_writer_model::{PendingProvenance, WriterDecision, WriterView};
use crate::mvs_capture_v2::MvsCaptureV2Gap;
use crate::mvs_stream::MvsRect;

verus! {

/// Whether a step ends the capture for this reason, as planned or not, with a gap of this reason or,
/// where that is zero, without one: it does not go on, and where all that it asked for was done, the
/// last event is the end and tells all that.
pub open spec fn ends(before: WriterView, o: Outcome, clean: bool, reason: u16, gap: u16) -> bool {
    &&& o.1 != Ok::<WriterDecision, crate::error::VncError>(WriterDecision::Continue)
    &&& o.1 is Ok ==> {
        let state = if clean {
            CaptureState::Clean
        } else {
            CaptureState::Aborted
        };
        &&& o.1->Ok_0 == WriterDecision::Finalized(state)
        &&& o.0.state == state
        &&& !o.0.open
        &&& o.0.terminal_reason == Some(reason)
        &&& o.0.events.len() == before.events.len() + (if gap > 0 {
            2int
        } else {
            1
        })
        &&& o.0.events.last().kind == (if clean {
            0xfeu16
        } else {
            0xff
        })
        &&& o.0.records == before.records
        &&& gap > 0 ==> {
            &&& o.0.gap_count == 1
            &&& o.0.events[o.0.events.len() - 2].kind == 0x21
            &&& o.0.last_gap matches Some(g) && g.reason == gap
            &&& o.0.pending is None
        }
        &&& gap == 0 ==> o.0.gap_count == before.gap_count && o.0.last_gap == before.last_gap
    }
}

/// Whether the clock answers with this time, which is no earlier than the last.
pub open spec fn time_is(w: WriterView, all: Seq<Call>, now: u64) -> bool {
    &&& all[w.calls.len() as int].answer == Ok::<u64, crate::error::VncError>(now)
    &&& now >= w.last_timestamp
}

/// Whether the capture records.
pub open spec fn records(w: WriterView) -> bool {
    w.state == CaptureState::Recording && w.open
}

proof fn lemma_finalized(w: WriterView, clean: bool, timestamp_us: u64, all: Seq<Call>)
    ensures
        ({
            let o = capture_writer_model::finalized(w, clean, timestamp_us, all);
            w.terminal_reason matches Some(reason) ==> ends(w, o, clean, reason, 0)
        }),
        ({
            let o = capture_writer_model::finalized(w, clean, timestamp_us, all);
            o.1 is Ok ==> o.0.pending == w.pending && o.0.sources == w.sources && o.0.events
                == w.events.push(o.0.events.last()) && o.0.events.last().timestamp_us
                == timestamp_us
        }),
{
    reveal(capture_writer_model::finalized);
}

proof fn lemma_finalized_at(
    w: WriterView,
    clean: bool,
    reason: u16,
    timestamp_us: u64,
    all: Seq<Call>,
)
    ensures
        ends(
            w,
            capture_writer_model::finalized_at(w, clean, reason, timestamp_us, all),
            clean,
            reason,
            0,
        ),
{
    lemma_finalized(capture_writer_model::selected(w, clean, reason), clean, timestamp_us, all);
}

proof fn lemma_finalized_now(w: WriterView, clean: bool, reason: u16, all: Seq<Call>)
    ensures
        ends(w, capture_writer_model::finalized_now(w, clean, reason, all), clean, reason, 0),
        ({
            let o = capture_writer_model::finalized_now(w, clean, reason, all);
            o.1 is Ok ==> o.0.pending == w.pending && o.0.events == w.events.push(
                o.0.events.last(),
            )
        }),
{
    let (v, time) = capture_writer_model::clock_read(
        capture_writer_model::selected(w, clean, reason),
        all,
    );
    if time is Ok {
        lemma_finalized(v, clean, time->Ok_0, all);
    }
}

proof fn lemma_gap_emitted(w: WriterView, gap: MvsCaptureV2Gap, terminal: u16, all: Seq<Call>)
    requires
        gap.reason > 0,
    ensures
        ends(
            w,
            capture_writer_model::gap_emitted(w, gap, terminal, all),
            false,
            terminal,
            gap.reason,
        ),
        ({
            let o = capture_writer_model::gap_emitted(w, gap, terminal, all);
            o.1 is Ok ==> o.0.last_gap == Some(gap)
        }),
{
    reveal(capture_writer_model::gap_emitted);
    reveal(capture_writer_model::written);
    if capture_writer_model::preflight_refusal(w, 2) is None {
        let (w1, time) = capture_writer_model::clock_read(w, all);
        if time is Ok {
            let (w2, done) = capture_writer_model::written(
                w1,
                0x21,
                time->Ok_0,
                capture_writer_model::gap_body(gap),
                0,
                all,
            );
            if done is Ok {
                let next = WriterView {
                    gap_count: 1,
                    last_gap: Some(gap),
                    pending: None,
                    assembling: None,
                    ..w2
                };
                lemma_finalized_now(next, false, terminal, all);
            }
        }
    }
}

/// A recording ends as planned at its deadline, unless a record is unfinished then, which is given up
/// with it; a record that has been unfinished for two seconds ends it before that. Otherwise watching
/// the time changes nothing but the time.
pub proof fn law_watching_the_time(w: WriterView, all: Seq<Call>, now: u64)
    requires
        records(w),
        time_is(w, all, now),
    ensures
        ({
            let o = capture_writer_model::polled(w, all);
            let late = now >= 1000 * w.config.deadline_ms;
            let stuck = w.pending matches Some(p) && now - p.started_at >= 2_000_000;
            &&& late && w.pending is None ==> ends(w, o, true, 1, 0)
            &&& late && w.pending is Some ==> ends(w, o, false, 263, 6)
            &&& !late && stuck ==> ends(w, o, false, 262, 5)
            &&& !late && !stuck ==> o.1 == Ok::<WriterDecision, crate::error::VncError>(
                WriterDecision::Continue,
            ) && o.0.events == w.events && o.0.pending == w.pending && o.0.state == w.state
                && o.0.last_timestamp == now
        }),
{
    let (v, _) = capture_writer_model::clock_read(w, all);
    lemma_finalized_at(v, true, 1, now, all);
    if let Some(p) = w.pending {
        lemma_gap_emitted(v, capture_writer_model::pending_gap_view(p, 6, p.last), 263, all);
        lemma_gap_emitted(v, capture_writer_model::pending_gap_view(p, 5, p.last), 262, all);
    }
}

/// A read that fails ends the recording: as watching the time would, where that would end it, and
/// otherwise because of the read, with the unfinished record given up.
pub proof fn law_failed_read_ends(w: WriterView, all: Seq<Call>, now: u64)
    requires
        records(w),
        time_is(w, all, now),
    ensures
        ({
            let o = capture_writer_model::read_refused(w, all);
            let late = now >= 1000 * w.config.deadline_ms;
            let stuck = w.pending matches Some(p) && now - p.started_at >= 2_000_000;
            &&& late || stuck ==> o == capture_writer_model::polled(w, all)
            &&& !late && !stuck && w.pending is Some ==> ends(w, o, false, 261, 7)
            &&& !late && !stuck && w.pending is None ==> ends(w, o, false, 261, 0)
        }),
{
    let (v, _) = capture_writer_model::clock_read(w, all);
    lemma_finalized_now(v, false, 261, all);
    if let Some(p) = w.pending {
        lemma_gap_emitted(v, capture_writer_model::pending_gap_view(p, 7, p.last), 261, all);
    }
}

/// A change of the surface ends the recording, with the unfinished record given up.
pub proof fn law_changed_surface_ends(w: WriterView, all: Seq<Call>)
    requires
        records(w),
    ensures
        w.pending is Some ==> ends(
            w,
            capture_writer_model::transition_attempted(w, all),
            false,
            266,
            8,
        ),
        w.pending is None ==> ends(
            w,
            capture_writer_model::transition_attempted(w, all),
            false,
            266,
            0,
        ),
{
    lemma_finalized_now(w, false, 266, all);
    if let Some(p) = w.pending {
        lemma_gap_emitted(w, capture_writer_model::pending_gap_view(p, 8, p.last), 266, all);
    }
}

/// A capture ends because of its output, but while it is triggered because of the trigger; an ended
/// one is left as it is.
pub proof fn law_failed_output_ends(w: WriterView, all: Seq<Call>)
    requires
        w.open,
    ensures
        w.state == CaptureState::Triggering ==> ends(
            w,
            capture_writer_model::output_refused(w, all),
            false,
            260,
            0,
        ),
        w.state == CaptureState::Created || w.state == CaptureState::Armed || w.state
            == CaptureState::Recording ==> ends(
            w,
            capture_writer_model::output_refused(w, all),
            false,
            264,
            0,
        ),
        w.state == CaptureState::Clean || w.state == CaptureState::Aborted || w.state
            == CaptureState::Finalizing ==> capture_writer_model::output_refused(w, all).0 == w
            && capture_writer_model::output_refused(w, all).1 is Err,
        w.state == CaptureState::Triggering ==> ends(
            w,
            capture_writer_model::trigger_refused(w, all),
            false,
            260,
            0,
        ),
{
    lemma_finalized_now(w, false, 260, all);
    lemma_finalized_now(w, false, 264, all);
}

/// What fails before the capture is armed ends it for that reason, or because it was late already.
pub proof fn law_failure_before_the_start_ends(w: WriterView, reason: u16, all: Seq<Call>, now: u64)
    requires
        w.open,
        w.state == CaptureState::Created,
        time_is(w, all, now),
    ensures
        now < 1000 * w.config.deadline_ms ==> ends(
            w,
            capture_writer_model::created_failed(w, reason, all),
            false,
            reason,
            0,
        ),
        now >= 1000 * w.config.deadline_ms ==> ends(
            w,
            capture_writer_model::created_failed(w, reason, all),
            false,
            267,
            0,
        ),
        now >= 1000 * w.config.deadline_ms ==> ends(
            w,
            capture_writer_model::checkpointed(w, all),
            false,
            267,
            0,
        ),
        now < 1000 * w.config.deadline_ms ==> capture_writer_model::checkpointed(w, all).1 == Ok::<
            WriterDecision,
            crate::error::VncError,
        >(WriterDecision::Continue),
{
    let (v, _) = capture_writer_model::clock_read(w, all);
    lemma_finalized_at(v, false, reason, now, all);
    lemma_finalized_at(v, false, 267, now, all);
}

/// The trigger is sent in three parts, in their order, and each is taken once; a part out of turn is
/// refused and changes nothing. The recording opens only when all three were sent.
pub proof fn law_trigger_parts_come_in_order(w: WriterView, bit: u32, all: Seq<Call>, now: u64)
    requires
        w.open,
        w.state == CaptureState::Triggering,
        time_is(w, all, now),
        w.trigger_mask == 0 || w.trigger_mask == 1 || w.trigger_mask == 3 || w.trigger_mask == 7,
    ensures
        ({
            let o = capture_writer_model::trigger_written(w, bit, all);
            let right = (w.trigger_mask == 0 && bit == 1) || (w.trigger_mask == 1 && bit == 2) || (
            w.trigger_mask == 3 && bit == 4);
            &&& !right ==> o.0 == w && o.1 is Err
            &&& right && now < 1000 * w.config.deadline_ms ==> o.1 == Ok::<
                WriterDecision,
                crate::error::VncError,
            >(WriterDecision::Continue) && o.0.trigger_mask == w.trigger_mask + bit && o.0.state
                == w.state && o.0.events == w.events
            &&& right && now >= 1000 * w.config.deadline_ms ==> ends(w, o, false, 260, 0)
        }),
        w.trigger_mask != 7 ==> capture_writer_model::gate_written(w, all).0 == w
            && capture_writer_model::gate_written(w, all).1 is Err,
{
    let (v, _) = capture_writer_model::clock_read(
        WriterView { trigger_mask: (w.trigger_mask + bit) as u32, ..w },
        all,
    );
    lemma_finalized_at(v, false, 260, now, all);
}

/// The first frame of a record ends the recording where another is unfinished, where its size is
/// nothing or over the limit, where it brings more than that, or where the whole capture would be over
/// its limit; the gap tells which, and the frame and the size that it was about.
pub proof fn law_refused_beginnings(
    w: WriterView,
    rect: MvsRect,
    total: u32,
    first: Seq<u8>,
    all: Seq<Call>,
)
    requires
        records(w),
        w.sources < u64::MAX,
    ensures
        ({
            let o = capture_writer_model::begin_accepted(w, rect, total, first, all);
            let sized = 1 <= total <= 0x100_0000;
            let kept = sized && first.len() <= total;
            &&& w.pending is Some ==> ends(w, o, false, 262, 10)
            &&& w.pending is None && !sized ==> ends(w, o, false, 262, 2)
            &&& w.pending is None && sized && first.len() > total ==> ends(w, o, false, 262, 3)
            &&& w.pending is None && kept && w.payload + total > 0x2000_0000 ==> ends(
                w,
                o,
                false,
                262,
                11,
            )
            &&& o.1 is Ok && w.pending is None && (!kept || w.payload + total > 0x2000_0000) ==> (
            o.0.last_gap matches Some(g) && g.first_source_frame_ordinal == w.sources
                && g.last_source_frame_ordinal == w.sources && g.declared_total == total
                && g.accumulated_bytes == 0 && g.rect == rect)
            &&& o.1 is Ok && w.pending is Some ==> (o.0.last_gap matches Some(g)
                && g.first_source_frame_ordinal == (w.pending->0).first
                && g.last_source_frame_ordinal == w.sources && g.declared_total == (
            w.pending->0).total && g.accumulated_bytes == (w.pending->0).accepted && g.rect == (
            w.pending->0).rect)
        }),
{
    let (v, _) = capture_writer_model::numbered(w);
    let n = w.sources;
    if let Some(p) = w.pending {
        lemma_gap_emitted(v, capture_writer_model::pending_gap_view(p, 10, n), 262, all);
    }
    lemma_gap_emitted(v, capture_writer_model::gap_view(2, n, n, total, 0, rect), 262, all);
    lemma_gap_emitted(v, capture_writer_model::gap_view(3, n, n, total, 0, rect), 262, all);
    lemma_gap_emitted(v, capture_writer_model::gap_view(11, n, n, total, 0, rect), 262, all);
}

/// A further frame ends the recording where no record is unfinished, or where it brings more than is
/// still to come; so does a frame that could not be recognised.
pub proof fn law_refused_continuations(
    w: WriterView,
    chunk: Seq<u8>,
    rect: Option<MvsRect>,
    all: Seq<Call>,
)
    requires
        records(w),
        w.sources < u64::MAX,
    ensures
        ({
            let o = capture_writer_model::continuation_accepted(w, chunk, all);
            &&& w.pending is None ==> ends(w, o, false, 262, 9)
            &&& w.pending matches Some(p) ==> p.accepted + chunk.len() > p.total ==> ends(
                w,
                o,
                false,
                262,
                4,
            ) && (o.1 is Ok ==> (o.0.last_gap matches Some(g) && g.first_source_frame_ordinal
                == p.first && g.last_source_frame_ordinal == w.sources && g.declared_total
                == p.total && g.accumulated_bytes == p.accepted && g.rect == p.rect))
        }),
        ({
            let o = capture_writer_model::envelope_rejected(w, rect, all);
            &&& ends(w, o, false, 262, 1)
            &&& o.1 is Ok ==> (o.0.last_gap matches Some(g) && g.first_source_frame_ordinal
                == w.sources && g.declared_total == 0 && (rect matches Some(r) ==> g.rect == r))
        }),
{
    let (v, _) = capture_writer_model::numbered(w);
    let n = w.sources;
    let none = crate::mvs_capture_v2::empty_rect();
    lemma_gap_emitted(v, capture_writer_model::gap_view(9, n, n, 0, 0, none), 262, all);
    if let Some(p) = w.pending {
        lemma_gap_emitted(v, capture_writer_model::pending_gap_view(p, 4, n), 262, all);
    }
    let seen = match rect {
        Some(rect) => rect,
        None => none,
    };
    lemma_gap_emitted(v, capture_writer_model::gap_view(1, n, n, 0, 0, seen), 262, all);
}

/// Behind a frame the recording ends as planned with its last record or at its deadline, and goes on
/// otherwise.
pub proof fn law_planned_ends(w: WriterView, all: Seq<Call>, now: u64)
    requires
        records(w),
        time_is(w, all, now),
        w.pending is None,
    ensures
        ({
            let o = capture_writer_model::non_mvs_accepted(w, all);
            let late = now >= 1000 * w.config.deadline_ms;
            &&& late ==> ends(w, o, true, 1, 0)
            &&& !late && w.records == w.config.record_limit ==> ends(w, o, true, 2, 0)
            &&& !late && w.records != w.config.record_limit ==> o.1 == Ok::<
                WriterDecision,
                crate::error::VncError,
            >(WriterDecision::Continue) && o.0.events == w.events && o.0.state == w.state
        }),
{
    let (v, _) = capture_writer_model::clock_read(w, all);
    lemma_finalized_at(v, true, 1, now, all);
    lemma_finalized_at(v, true, 2, now, all);
}

/// A clock that goes back is not believed, and the time that a step was told is the time that the next
/// one may not fall behind.
pub proof fn law_time_never_goes_back(w: WriterView, all: Seq<Call>, now: u64)
    requires
        all[w.calls.len() as int].answer == Ok::<u64, crate::error::VncError>(now),
    ensures
        capture_writer_model::clock_read(w, all).1 is Ok <==> now >= w.last_timestamp,
        capture_writer_model::clock_read(w, all).1 is Ok ==> capture_writer_model::clock_read(
            w,
            all,
        ).0.last_timestamp == now && capture_writer_model::clock_read(w, all).1->Ok_0 == now,
        capture_writer_model::clock_read(w, all).0.calls == w.calls.push(
            Call { action: Action::ReadClock, answer: Ok(now) },
        ),
{
}

/// An unfinished record is carried on: a frame that does not finish it adds its bytes to those that
/// came, and becomes its last; when it began does not change.
pub proof fn law_unfinished_record_grows(w: WriterView, chunk: Seq<u8>, all: Seq<Call>, now: u64)
    requires
        records(w),
        w.sources < u64::MAX,
        time_is(w, all, now),
        now < 1000 * w.config.deadline_ms,
        w.records != w.config.record_limit,
        w.pending is Some,
        (w.pending->0).accepted + chunk.len() <= (w.pending->0).total,
        crate::mvs_stream::continued(w.assembling, chunk).1 == Ok::<
            Option<crate::mvs_stream::RecordView>,
            crate::error::VncError,
        >(None),
    ensures
        ({
            let o = capture_writer_model::continuation_accepted(w, chunk, all);
            let p = w.pending->0;
            &&& o.1 == Ok::<WriterDecision, crate::error::VncError>(WriterDecision::Continue)
            &&& o.0.pending == Some(
                PendingProvenance {
                    first: p.first,
                    last: w.sources,
                    total: p.total,
                    accepted: (p.accepted + chunk.len()) as u32,
                    rect: p.rect,
                    started_at: p.started_at,
                },
            )
            &&& o.0.sources == w.sources + 1
            &&& o.0.events == w.events
        }),
{
}

/// A capture lasts five seconds or a multiple of them up to thirty, though never twenty-five, and has
/// one to 4096 records.
pub proof fn law_limits_of_a_capture(config: CreatedConfig)
    ensures
        capture_writer_model::config_refusal(config) is None <==> config.deadline_ms % 5000 == 0
            && 1 <= config.deadline_ms / 5000 <= 6 && config.deadline_ms != 25_000 && 1
            <= config.record_limit <= 4096,
{
}

} // verus!
