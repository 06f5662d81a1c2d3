//! The totals that the end of a capture has to agree with.

use vstd::prelude::*;
use crate::error::VncError;
use crate::mvs_capture_v2::{gap_terminal_code, CaptureRecordView, MvsCaptureV2Gap};
use crate::mvs_capture_v2::{MvsCaptureV2Record, MvsCaptureV2Terminal, MvsCaptureV2TerminalKind};
use crate::mvs_capture_v2::MvsCaptureV2TerminalReason;

verus! {

/// How many frames the records so far came in, and how many records of each type there are.
#[derive(Clone, Copy, Debug, PartialEq, Eq, Structural)]
pub struct CaptureTally {
    pub source: u64,
    pub type0: u64,
    pub type1: u64,
    pub type2: u64,
}

/// The tally with one more record of this type.
pub open spec fn counted(t: CaptureTally, source: u64, tag: u8) -> CaptureTally {
    CaptureTally {
        source,
        type0: if tag == 0 {
            (t.type0 + 1) as u64
        } else {
            t.type0
        },
        type1: if tag == 1 {
            (t.type1 + 1) as u64
        } else {
            t.type1
        },
        type2: if tag == 2 {
            (t.type2 + 1) as u64
        } else {
            t.type2
        },
    }
}

/// The tally with one more record. The frames of a record follow those of the one before it.
pub open spec fn next_tally(t: CaptureTally, r: CaptureRecordView) -> Result<CaptureTally, VncError> {
    if r.first != t.source {
        Err(VncError::Text("Record source range 不连续"))
    } else if r.last == u64::MAX {
        Err(VncError::Text("Record source range 溢出"))
    } else if r.record.payload.len() == 0 || r.record.payload[0] > 2 {
        Err(VncError::Text("未知 MVS payload tag"))
    } else {
        Ok(counted(t, (r.last + 1) as u64, r.record.payload[0]))
    }
}

/// The tally of no record.
pub open spec fn no_tally() -> CaptureTally {
    CaptureTally { source: 0, type0: 0, type1: 0, type2: 0 }
}

/// The tally of records.
pub open spec fn tally_of(records: Seq<CaptureRecordView>) -> Result<CaptureTally, VncError>
    decreases records.len(),
{
    if records.len() == 0 {
        Ok(no_tally())
    } else {
        match tally_of(records.drop_last()) {
            Err(e) => Err(e),
            Ok(t) => next_tally(t, records.last()),
        }
    }
}

/// A tally counts every record once.
pub proof fn lemma_tally_total(records: Seq<CaptureRecordView>)
    requires
        records.len() <= u64::MAX,
    ensures
        tally_of(records) matches Ok(t) ==> t.type0 + t.type1 + t.type2 == records.len(),
    decreases records.len(),
{
    if records.len() > 0 {
        lemma_tally_total(records.drop_last());
    }
}

/// Where the tally of a part is refused, the tally of the whole is refused likewise.
proof fn lemma_refused_part(records: Seq<CaptureRecordView>, n: int)
    requires
        0 <= n <= records.len(),
        tally_of(records.take(n)) is Err,
    ensures
        tally_of(records) == tally_of(records.take(n)),
    decreases records.len() - n,
{
    if n < records.len() {
        assert(records.take(n + 1).drop_last() =~= records.take(n));
        lemma_refused_part(records, n + 1);
    } else {
        assert(records.take(n) =~= records);
    }
}

/// What the records hold.
pub open spec fn records_view(records: Seq<MvsCaptureV2Record>) -> Seq<CaptureRecordView> {
    Seq::new(records.len(), |i: int| records[i]@)
}

/// Counts records.
pub fn tally_records(records: &[MvsCaptureV2Record]) -> (r: Result<CaptureTally, VncError>)
    ensures
        r == tally_of(records_view(records@)),
{
    let ghost whole = records_view(records@);
    let mut tally = CaptureTally { source: 0, type0: 0, type1: 0, type2: 0 };
    let mut i: usize = 0;
    assert(whole.take(0) =~= Seq::<CaptureRecordView>::empty());
    while i < records.len()
        invariant
            i <= records@.len(),
            whole == records_view(records@),
            tally_of(whole.take(i as int)) == Ok::<CaptureTally, VncError>(tally),
            tally.type0 + tally.type1 + tally.type2 == i,
        decreases records@.len() - i,
    {
        let _total: usize = records.len();
        let record = &records[i];
        proof {
            assert(whole.take(i + 1).drop_last() =~= whole.take(i as int));
            assert(whole.take(i + 1).last() == record@);
            if tally_of(whole.take(i + 1)) is Err {
                lemma_refused_part(whole, i + 1);
            }
        }
        if record.first_source_frame_ordinal != tally.source {
            return Err(VncError::Text("Record source range 不连续"));
        }
        let source: u64 = match record.last_source_frame_ordinal.checked_add(1) {
            Some(source) => source,
            None => {
                return Err(VncError::Text("Record source range 溢出"));
            },
        };
        if record.record.payload.len() == 0 || record.record.payload[0] > 2 {
            return Err(VncError::Text("未知 MVS payload tag"));
        }
        let tag: u8 = record.record.payload[0];
        tally.source = source;
        if tag == 0 {
            tally.type0 = tally.type0 + 1;
        } else if tag == 1 {
            tally.type1 = tally.type1 + 1;
        } else {
            tally.type2 = tally.type2 + 1;
        }
        i = i + 1;
    }
    assert(whole.take(i as int) =~= whole);
    Ok(tally)
}

/// Why an end may not have these gaps, where it may not.
pub open spec fn gap_rule_refusal(t: MvsCaptureV2Terminal, gaps: Seq<MvsCaptureV2Gap>) -> Option<
    VncError,
> {
    if t.gap_count != gaps.len() {
        Some(VncError::Text("terminal gap count 不匹配"))
    } else if t.kind == MvsCaptureV2TerminalKind::Clean && gaps.len() != 0 {
        Some(VncError::Text("Clean 的 gap count 必须为零"))
    } else if t.kind == MvsCaptureV2TerminalKind::Aborted && gaps.len() > 1 {
        Some(VncError::Text("Aborted gap count 无效"))
    } else if t.reason == MvsCaptureV2TerminalReason::AssemblerFailure {
        if gaps.len() == 0 {
            Some(VncError::Text("Aborted 262 必须有 Gap"))
        } else {
            match crate::mvs_capture_v2::gap_terminal_of(gaps[0].reason) {
                Err(e) => Some(e),
                Ok(code) => if code == 262 {
                    None
                } else {
                    Some(VncError::Text("Aborted 262 Gap 映射无效"))
                },
            }
        }
    } else if t.reason == MvsCaptureV2TerminalReason::PendingAtDeadline && !(gaps.len() == 1
        && gaps[0].reason == 6) {
        Some(VncError::Text("Aborted 263 必须有 Gap6"))
    } else {
        None
    }
}

/// The number of frames of records and gaps.
pub open spec fn source_end(
    kind: MvsCaptureV2TerminalKind,
    source: u64,
    gaps: Seq<MvsCaptureV2Gap>,
) -> Result<u64, VncError> {
    if gaps.len() == 0 {
        Ok(source)
    } else if kind != MvsCaptureV2TerminalKind::Aborted {
        Err(VncError::Text("Gap 必须以 Aborted 终止"))
    } else if gaps[0].first_source_frame_ordinal != source {
        Err(VncError::Text("Gap source range 不连续"))
    } else if gaps[0].last_source_frame_ordinal == u64::MAX {
        Err(VncError::Text("Gap source range 溢出"))
    } else {
        Ok((gaps[0].last_source_frame_ordinal + 1) as u64)
    }
}

/// Why a planned end breaks the limits that the capture was created with, where it does.
pub open spec fn clean_refusal(
    t: MvsCaptureV2Terminal,
    deadline_ms: Option<u32>,
    record_limit: Option<u32>,
) -> Option<VncError> {
    if t.kind != MvsCaptureV2TerminalKind::Clean {
        None
    } else if deadline_ms is None {
        Some(VncError::Text("Clean 缺少 Created"))
    } else if record_limit is None {
        Some(VncError::Text("Clean 缺少 Created record limit"))
    } else if t.reason == MvsCaptureV2TerminalReason::Deadline {
        if t.timestamp_us >= deadline_ms->0 * 1000 && t.record_count <= record_limit->0 {
            None
        } else {
            Some(VncError::Text("Clean deadline 规则无效"))
        }
    } else if t.reason == MvsCaptureV2TerminalReason::RecordLimit {
        if t.timestamp_us < deadline_ms->0 * 1000 && t.record_count == record_limit->0 {
            None
        } else {
            Some(VncError::Text("Clean record limit 规则无效"))
        }
    } else {
        Some(VncError::Text("Clean reason 无效"))
    }
}

/// Why the totals of an end do not agree with the capture, where they do not.
pub open spec fn terminal_refusal(
    t: MvsCaptureV2Terminal,
    records: Seq<CaptureRecordView>,
    gaps: Seq<MvsCaptureV2Gap>,
    deadline_ms: Option<u32>,
    record_limit: Option<u32>,
) -> Option<VncError> {
    if gap_rule_refusal(t, gaps) is Some {
        gap_rule_refusal(t, gaps)
    } else {
        match tally_of(records) {
            Err(e) => Some(e),
            Ok(tally) => match source_end(t.kind, tally.source, gaps) {
                Err(e) => Some(e),
                Ok(source) => if t.source_mvs_frame_count != source {
                    Some(VncError::Text("terminal source frame count 不匹配"))
                } else if t.record_count != records.len() {
                    Some(VncError::Text("terminal record count 不匹配"))
                } else if record_limit is Some && t.record_count > record_limit->0 {
                    Some(VncError::Text("terminal record count 超过 Created limit"))
                } else if t.type0_count != tally.type0 || t.type1_count != tally.type1
                    || t.type2_count != tally.type2 {
                    Some(VncError::Text("terminal tag count 不匹配"))
                } else {
                    clean_refusal(t, deadline_ms, record_limit)
                },
            },
        }
    }
}

/// Accepts gaps that go with the end.
fn validate_gap_rule(terminal: &MvsCaptureV2Terminal, gaps: &[MvsCaptureV2Gap]) -> (r: Result<
    (),
    VncError,
>)
    ensures
        r == crate::error::checked(gap_rule_refusal(*terminal, gaps@)),
{
    if terminal.gap_count as usize != gaps.len() {
        return Err(VncError::Text("terminal gap count 不匹配"));
    }
    match terminal.kind {
        MvsCaptureV2TerminalKind::Clean => if gaps.len() != 0 {
            return Err(VncError::Text("Clean 的 gap count 必须为零"));
        },
        MvsCaptureV2TerminalKind::Aborted => if gaps.len() > 1 {
            return Err(VncError::Text("Aborted gap count 无效"));
        },
    }
    match terminal.reason {
        MvsCaptureV2TerminalReason::AssemblerFailure => {
            if gaps.len() == 0 {
                return Err(VncError::Text("Aborted 262 必须有 Gap"));
            }
            let code: u16 = gap_terminal_code(gaps[0].reason)?;
            if code != 262 {
                return Err(VncError::Text("Aborted 262 Gap 映射无效"));
            }
        },
        MvsCaptureV2TerminalReason::PendingAtDeadline => {
            if !(gaps.len() == 1 && gaps[0].reason == 6) {
                return Err(VncError::Text("Aborted 263 必须有 Gap6"));
            }
        },
        _ => {},
    }
    Ok(())
}

/// Accepts a planned end that keeps the limits of the capture.
fn validate_clean(
    terminal: &MvsCaptureV2Terminal,
    deadline_ms: Option<u32>,
    record_limit: Option<u32>,
) -> (r: Result<(), VncError>)
    ensures
        r == crate::error::checked(clean_refusal(*terminal, deadline_ms, record_limit)),
{
    match terminal.kind {
        MvsCaptureV2TerminalKind::Aborted => Ok(()),
        MvsCaptureV2TerminalKind::Clean => {
            let deadline_us: u64 = match deadline_ms {
                Some(deadline) => deadline as u64 * 1000,
                None => {
                    return Err(VncError::Text("Clean 缺少 Created"));
                },
            };
            let limit: u64 = match record_limit {
                Some(limit) => limit as u64,
                None => {
                    return Err(VncError::Text("Clean 缺少 Created record limit"));
                },
            };
            match terminal.reason {
                MvsCaptureV2TerminalReason::Deadline => if terminal.timestamp_us >= deadline_us
                    && terminal.record_count <= limit {
                    Ok(())
                } else {
                    Err(VncError::Text("Clean deadline 规则无效"))
                },
                MvsCaptureV2TerminalReason::RecordLimit => if terminal.timestamp_us < deadline_us
                    && terminal.record_count == limit {
                    Ok(())
                } else {
                    Err(VncError::Text("Clean record limit 规则无效"))
                },
                _ => Err(VncError::Text("Clean reason 无效")),
            }
        },
    }
}

/// Accepts an end whose totals agree with the records and gaps before it.
pub fn validate_terminal(
    terminal: &MvsCaptureV2Terminal,
    records: &[MvsCaptureV2Record],
    gaps: &[MvsCaptureV2Gap],
    deadline_ms: Option<u32>,
    record_limit: Option<u32>,
) -> (r: Result<(), VncError>)
    ensures
        r == crate::error::checked(
            terminal_refusal(
                *terminal,
                records_view(records@),
                gaps@,
                deadline_ms,
                record_limit,
            ),
        ),
{
    validate_gap_rule(terminal, gaps)?;
    let tally = tally_records(records)?;
    let mut source: u64 = tally.source;
    if gaps.len() > 0 {
        if terminal.kind != MvsCaptureV2TerminalKind::Aborted {
            return Err(VncError::Text("Gap 必须以 Aborted 终止"));
        }
        if gaps[0].first_source_frame_ordinal != source {
            return Err(VncError::Text("Gap source range 不连续"));
        }
        source = match gaps[0].last_source_frame_ordinal.checked_add(1) {
            Some(source) => source,
            None => {
                return Err(VncError::Text("Gap source range 溢出"));
            },
        };
    }
    if terminal.source_mvs_frame_count != source {
        return Err(VncError::Text("terminal source frame count 不匹配"));
    }
    if terminal.record_count != records.len() as u64 {
        return Err(VncError::Text("terminal record count 不匹配"));
    }
    if let Some(limit) = record_limit {
        if terminal.record_count > limit as u64 {
            return Err(VncError::Text("terminal record count 超过 Created limit"));
        }
    }
    if terminal.type0_count != tally.type0 || terminal.type1_count != tally.type1
        || terminal.type2_count != tally.type2 {
        return Err(VncError::Text("terminal tag count 不匹配"));
    }
    validate_clean(terminal, deadline_ms, record_limit)
}

} // verus!
