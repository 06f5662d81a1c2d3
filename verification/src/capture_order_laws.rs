//! The order in which the events of a capture are accepted, and what each of them leaves as it was.

use vstd::prelude::*;
use crate::capture_events::Event;
use crate::capture_reader;
use crate::capture_reader::{Progress, StructuralView};
use crate::mvs_capture_v2::{MvsCaptureV2TerminalKind, StructuralPhase};
use crate::wire;

verus! {

/// Accepted events are numbered without a gap, their time never goes back, and each is noted with
/// its kind and its generation.
pub proof fn law_events_are_numbered(p: Progress, e: Event)
    requires
        capture_reader::stepped(p, e) is Ok,
    ensures
        e.ordinal == p.events,
        p.last_timestamp matches Some(before) ==> before <= e.timestamp_us,
        ({
            let q = capture_reader::stepped(p, e)->Ok_0;
            &&& q.events == p.events + 1
            &&& q.last_timestamp == Some(e.timestamp_us)
            &&& q.kinds.drop_last() == p.kinds
            &&& q.kinds.last() == e.kind
            &&& q.generations.drop_last() == p.generations
            &&& q.generations.last() == e.generation
        }),
{
    reveal(capture_reader::taken);
    let q = capture_reader::stepped(p, e)->Ok_0;
    assert(p.kinds.push(e.kind).drop_last() =~= p.kinds);
    assert(p.generations.push(e.generation).drop_last() =~= p.generations);
}

/// The place of a phase in the life of a capture.
pub open spec fn place(phase: StructuralPhase) -> int {
    match phase {
        StructuralPhase::Start => 0,
        StructuralPhase::Created => 1,
        StructuralPhase::Armed => 2,
        StructuralPhase::Triggered => 3,
        StructuralPhase::Recording => 4,
    }
}

/// The four events of the beginning come one by one, each in the phase that the one before it led
/// to; whatever else comes leaves the phase as it was. Records, gaps and changes of the surface come
/// only while recording.
pub proof fn law_phases_follow_one_another(p: Progress, e: Event)
    requires
        capture_reader::stepped(p, e) is Ok,
    ensures
        1 <= e.kind <= 4 ==> place(p.phase) == e.kind - 1 && place(
            capture_reader::stepped(p, e)->Ok_0.phase,
        ) == e.kind,
        e.kind > 4 ==> capture_reader::stepped(p, e)->Ok_0.phase == p.phase,
        e.kind == 0x10 || e.kind == 0x20 || e.kind == 0x21 ==> place(p.phase) == 4,
        e.kind == 0xfe && p.gaps.len() == 0 ==> place(p.phase) == 4,
        e.kind == 0xff && p.gaps.len() == 0 ==> place(p.phase) >= 1,
        1 <= e.kind <= 4 || e.kind == 0x10 || e.kind == 0x20 || e.kind == 0x21 || e.kind == 0xfe
            || e.kind == 0xff,
{
    reveal(capture_reader::taken);
}

/// Only a change of the surface begins a new generation, and it begins the next one. Every other
/// event belongs to the generation that runs.
pub proof fn law_generations_follow_one_another(p: Progress, e: Event)
    requires
        capture_reader::stepped(p, e) is Ok,
    ensures
        ({
            let q = capture_reader::stepped(p, e)->Ok_0;
            &&& q.generation == e.generation || e.kind == 1
            &&& e.kind == 1 ==> e.generation == 0 && e.timestamp_us == 0 && q.generation
                == p.generation
            &&& e.kind == 0x10 ==> e.generation == p.generation + 1
            &&& e.kind != 0x10 ==> q.generation == p.generation
        }),
{
    reveal(capture_reader::taken);
}

/// Each event adds to one list alone: a record to the records, a gap to the gaps, a change of the
/// surface to the surfaces. The payload grows with records alone.
pub proof fn law_events_add_to_one_list(p: Progress, e: Event)
    requires
        capture_reader::stepped(p, e) is Ok,
    ensures
        ({
            let q = capture_reader::stepped(p, e)->Ok_0;
            &&& e.kind == 0x20 ==> q.records.len() == p.records.len() + 1 && q.records.drop_last()
                == p.records
            &&& e.kind != 0x20 ==> q.records == p.records && q.payload == p.payload
            &&& e.kind == 0x21 ==> p.gaps.len() == 0 && q.gaps.len() == 1
            &&& e.kind != 0x21 ==> q.gaps == p.gaps
            &&& e.kind == 0x10 ==> q.surfaces.len() == p.surfaces.len() + 1
                && q.surfaces.drop_last() == p.surfaces && q.surfaces.last().generation
                == e.generation && q.committed == Some(q.surfaces.last().geometry)
            &&& e.kind != 0x10 ==> q.surfaces == p.surfaces
            &&& e.kind != 1 ==> q.deadline_ms == p.deadline_ms && q.record_limit == p.record_limit
            &&& e.kind != 2 ==> q.requested == p.requested
            &&& e.kind != 2 && e.kind != 0x10 ==> q.committed == p.committed
        }),
{
    reveal(capture_reader::taken);
    let q = capture_reader::stepped(p, e)->Ok_0;
    if e.kind == 0x20 {
        assert(q.records.drop_last() =~= p.records);
    }
    if e.kind == 0x10 {
        assert(q.surfaces.drop_last() =~= p.surfaces);
    }
}

/// A capture ends with one of the two ends and with nothing else; behind a gap it is given up at
/// once.
pub proof fn law_only_ends_end(p: Progress, e: Event)
    requires
        p.terminal is None,
        capture_reader::stepped(p, e) is Ok,
    ensures
        capture_reader::stepped(p, e)->Ok_0.terminal is Some <==> (e.kind == 0xfe || e.kind == 0xff),
        p.gaps.len() > 0 ==> e.kind == 0xff,
{
    reveal(capture_reader::taken);
}

/// What the first two events say is kept: how long the capture may last and how many records it may
/// have, and then the surface that is there and the one that was asked for.
pub proof fn law_plan_is_kept(p: Progress, e: Event)
    requires
        p.gaps.len() == 0,
        capture_reader::stepped(p, e) is Ok,
    ensures
        ({
            let q = capture_reader::stepped(p, e)->Ok_0;
            &&& e.kind == 1 ==> {
                &&& e.body.len() == 16
                &&& q.deadline_ms matches Some(d) && d == wire::be32(e.body, 0) && 5000 <= d
                    <= 30000 && d % 5000 == 0 && d != 25000
                &&& q.record_limit matches Some(n) && n == wire::be32(e.body, 4) && n >= 1
            }
            &&& e.kind == 2 ==> {
                &&& e.body.len() == 24
                &&& q.committed matches Some(g) && g.width == wire::be16(e.body, 0) && g.height
                    == wire::be16(e.body, 2) && g.width >= 1 && g.height >= 1
                &&& q.requested matches Some(g) && g.width == wire::be16(e.body, 4) && g.height
                    == wire::be16(e.body, 6) && g.width >= 1 && g.height >= 1
            }
            &&& e.kind == 3 ==> {
                &&& e.body.len() == 16
                &&& p.requested matches Some(g) && g.width == wire::be16(e.body, 0) && g.height
                    == wire::be16(e.body, 2)
            }
            &&& e.kind == 0x10 ==> {
                &&& e.body.len() == 8
                &&& q.committed matches Some(g) && g.width == wire::be16(e.body, 0) && g.height
                    == wire::be16(e.body, 2)
            }
        }),
{
    reveal(capture_reader::taken);
}

/// The kinds of the events of a planned capture with `n` records.
pub open spec fn planned_kinds(n: nat) -> Seq<u16> {
    seq![1u16, 2u16, 3u16, 4u16] + Seq::new(n, |i: int| 0x20u16) + seq![0xfeu16]
}

/// A capture is taken for a planned one exactly where it is the four events of the beginning, then
/// records alone, then the planned end, all on the first surface.
pub proof fn law_planned_captures_are_whole(s: StructuralView)
    ensures
        capture_reader::strict_of(s) is Ok <==> {
            &&& s.kinds.len() >= 5 && s.kinds == planned_kinds((s.kinds.len() - 5) as nat)
            &&& forall|i: int| 0 <= i < s.generations.len() ==> s.generations[i] == 0
            &&& s.surfaces.len() == 0
            &&& s.gaps.len() == 0
            &&& s.terminal.kind == MvsCaptureV2TerminalKind::Clean
            &&& s.committed is Some
            &&& s.requested is Some
            &&& s.deadline_ms is Some
            &&& s.record_limit is Some
        },
{
    if s.kinds.len() >= 5 {
        let n = (s.kinds.len() - 5) as nat;
        let k = planned_kinds(n);
        if capture_reader::strict_of(s) is Ok {
            assert(s.kinds =~= k);
        }
        if s.kinds == k {
            assert(k[0] == 1 && k[1] == 2 && k[2] == 3 && k[3] == 4);
            assert(k.last() == 0xfe);
            assert forall|i: int| 4 <= i < k.len() - 1 implies k[i] == 0x20 by {}
        }
    }
}

} // verus!
