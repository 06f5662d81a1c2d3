//! Exact reassembly of MVS records from transport chunks.

use vstd::prelude::*;
use crate::error::VncError;

verus! {

/// The largest record payload that is accepted, 16 MiB.
pub const MAX_MVS_RECORD_PAYLOAD: usize = 16_777_216;

/// A rectangle on the remote surface.
#[derive(Clone, Copy, Debug, PartialEq, Eq, Structural)]
pub struct MvsRect {
    pub x: u16,
    pub y: u16,
    pub width: u16,
    pub height: u16,
}

/// Why `rect` is no media rectangle of a surface of the given size, where it is none.
pub open spec fn rect_refusal(rect: MvsRect, surface_width: u16, surface_height: u16) -> Option<
    VncError,
> {
    if rect.width == 0 || rect.height == 0 {
        Some(VncError::Text("MVS 媒体矩形尺寸不能为零"))
    } else if rect.x + rect.width > u16::MAX {
        Some(VncError::Text("MVS 矩形水平边界溢出"))
    } else if rect.y + rect.height > u16::MAX {
        Some(VncError::Text("MVS 矩形垂直边界溢出"))
    } else if rect.x + rect.width > surface_width || rect.y + rect.height > surface_height {
        Some(
            VncError::MediaRectOutside {
                media_width: rect.width,
                media_height: rect.height,
                media_x: rect.x,
                media_y: rect.y,
                limit_width: surface_width,
                limit_height: surface_height,
            },
        )
    } else {
        None
    }
}

/// Accepts a rectangle that is not empty and lies inside the surface.
pub fn validate_mvs_rect_against_surface(
    rect: MvsRect,
    surface_width: u16,
    surface_height: u16,
) -> (r: Result<(), VncError>)
    ensures
        r == (match rect_refusal(rect, surface_width, surface_height) {
            None => Ok(()),
            Some(e) => Err(e),
        }),
{
    if rect.width == 0 || rect.height == 0 {
        return Err(VncError::Text("MVS 媒体矩形尺寸不能为零"));
    }
    let right: u16 = match rect.x.checked_add(rect.width) {
        Some(right) => right,
        None => {
            return Err(VncError::Text("MVS 矩形水平边界溢出"));
        },
    };
    let bottom: u16 = match rect.y.checked_add(rect.height) {
        Some(bottom) => bottom,
        None => {
            return Err(VncError::Text("MVS 矩形垂直边界溢出"));
        },
    };
    if right > surface_width || bottom > surface_height {
        return Err(
            VncError::MediaRectOutside {
                media_width: rect.width,
                media_height: rect.height,
                media_x: rect.x,
                media_y: rect.y,
                limit_width: surface_width,
                limit_height: surface_height,
            },
        );
    }
    Ok(())
}

/// A complete MVS record.
#[derive(Clone, Debug, PartialEq, Eq)]
pub struct MvsRecord {
    pub rect: MvsRect,
    pub payload: Vec<u8>,
}

/// What a record holds.
#[verifier::ext_equal]
pub struct RecordView {
    pub rect: MvsRect,
    pub payload: Seq<u8>,
}

impl View for MvsRecord {
    type V = RecordView;

    open spec fn view(&self) -> RecordView {
        RecordView { rect: self.rect, payload: self.payload@ }
    }
}

/// A record of which some bytes are still missing.
pub struct PendingRecord {
    pub rect: MvsRect,
    pub total: usize,
    pub payload: Vec<u8>,
}

/// The bytes of an unfinished record that have come, and how many there will be.
#[verifier::ext_equal]
pub struct PendingView {
    pub rect: MvsRect,
    pub total: int,
    pub received: Seq<u8>,
}

impl View for PendingRecord {
    type V = PendingView;

    open spec fn view(&self) -> PendingView {
        PendingView { rect: self.rect, total: self.total as int, received: self.payload@ }
    }
}

/// Puts the chunks of one record at a time together.
pub struct MvsRecordAssembler {
    pub pending: Option<PendingRecord>,
}

/// The record that `received` makes, or what is still pending after it.
pub open spec fn gathered(rect: MvsRect, total: int, received: Seq<u8>) -> (
    Option<PendingView>,
    Result<Option<RecordView>, VncError>,
) {
    if received.len() == total {
        (None, Ok(Some(RecordView { rect, payload: received })))
    } else {
        (Some(PendingView { rect, total, received }), Ok(None))
    }
}

/// What a first chunk does to an assembler.
pub open spec fn begun(pending: Option<PendingView>, rect: MvsRect, total: u32, first: Seq<u8>) -> (
    Option<PendingView>,
    Result<Option<RecordView>, VncError>,
) {
    if pending is Some {
        (None, Err(VncError::Text("MVS 记录已在重组中")))
    } else if total == 0 || total > MAX_MVS_RECORD_PAYLOAD || first.len() > total {
        (None, Err(VncError::Text("MVS 首片长度无效")))
    } else {
        gathered(rect, total as int, first)
    }
}

/// What a further chunk does to an assembler.
pub open spec fn continued(pending: Option<PendingView>, chunk: Seq<u8>) -> (
    Option<PendingView>,
    Result<Option<RecordView>, VncError>,
) {
    match pending {
        None => (None, Err(VncError::Text("MVS continuation 缺少首片"))),
        Some(p) => if chunk.len() > p.total - p.received.len() {
            (None, Err(VncError::Text("MVS continuation 超出记录长度")))
        } else {
            gathered(p.rect, p.total, p.received + chunk)
        },
    }
}

/// Whether an assembler's answer is the given one.
pub open spec fn answers(
    r: Result<Option<MvsRecord>, VncError>,
    expected: Result<Option<RecordView>, VncError>,
) -> bool {
    match (r, expected) {
        (Ok(Some(record)), Ok(Some(view))) => record@ == view,
        (Ok(None), Ok(None)) => true,
        (Err(e), Err(f)) => e == f,
        _ => false,
    }
}

/// The bytes of a slice in a vector of their own.
pub fn owned_bytes(bytes: &[u8]) -> (r: Vec<u8>)
    ensures
        r@ == bytes@,
{
    let mut out: Vec<u8> = Vec::new();
    out.extend_from_slice(bytes);
    assert(out@ =~= bytes@);
    out
}

impl MvsRecordAssembler {
    /// The unfinished record.
    pub open spec fn view(self) -> Option<PendingView> {
        match self.pending {
            None => None,
            Some(p) => Some(p@),
        }
    }

    /// An unfinished record still misses bytes, and is within the size limit.
    pub open spec fn wf(self) -> bool {
        self.pending matches Some(p) ==> p.payload@.len() < p.total <= MAX_MVS_RECORD_PAYLOAD
    }

    /// Takes the first chunk of a record. Any refusal leaves nothing pending.
    pub fn begin(&mut self, rect: MvsRect, total: u32, first: &[u8]) -> (r: Result<
        Option<MvsRecord>,
        VncError,
    >)
        requires
            old(self).wf(),
        ensures
            final(self).wf(),
            final(self)@ == begun(old(self)@, rect, total, first@).0,
            answers(r, begun(old(self)@, rect, total, first@).1),
    {
        if self.pending.is_some() {
            self.pending = None;
            return Err(VncError::Text("MVS 记录已在重组中"));
        }
        let total: usize = total as usize;
        if total == 0 || total > MAX_MVS_RECORD_PAYLOAD || first.len() > total {
            return Err(VncError::Text("MVS 首片长度无效"));
        }
        if first.len() == total {
            return Ok(Some(MvsRecord { rect, payload: owned_bytes(first) }));
        }
        self.pending = Some(PendingRecord { rect, total, payload: owned_bytes(first) });
        Ok(None)
    }

    /// Takes a further chunk. Any refusal leaves nothing pending.
    pub fn push_continuation(&mut self, chunk: &[u8]) -> (r: Result<Option<MvsRecord>, VncError>)
        requires
            old(self).wf(),
        ensures
            final(self).wf(),
            final(self)@ == continued(old(self)@, chunk@).0,
            answers(r, continued(old(self)@, chunk@).1),
    {
        let mut pending: PendingRecord = match self.pending.take() {
            Some(pending) => pending,
            None => {
                return Err(VncError::Text("MVS continuation 缺少首片"));
            },
        };
        let ghost before = pending.payload@;
        if chunk.len() > pending.total - pending.payload.len() {
            return Err(VncError::Text("MVS continuation 超出记录长度"));
        }
        pending.payload.extend_from_slice(chunk);
        assert(pending.payload@ =~= before + chunk@);
        if pending.payload.len() == pending.total {
            Ok(Some(MvsRecord { rect: pending.rect, payload: pending.payload }))
        } else {
            self.pending = Some(pending);
            Ok(None)
        }
    }

    /// Whether a record is unfinished.
    pub fn is_pending(&self) -> (r: bool)
        ensures
            r == (self@ is Some),
    {
        self.pending.is_some()
    }

    /// Drops the unfinished record.
    pub fn abort(&mut self)
        ensures
            final(self)@ is None,
            final(self).wf(),
    {
        self.pending = None;
    }
}

impl Default for MvsRecordAssembler {
    fn default() -> (r: Self)
        ensures
            r@ is None,
            r.wf(),
    {
        MvsRecordAssembler { pending: None }
    }
}

/// The bytes of all chunks in order.
pub open spec fn joined(chunks: Seq<Seq<u8>>) -> Seq<u8>
    decreases chunks.len(),
{
    if chunks.len() == 0 {
        Seq::empty()
    } else {
        joined(chunks.drop_last()) + chunks.last()
    }
}

/// What a first chunk and then `chunks`, one after the other, leave and answer last.
pub open spec fn fed(rect: MvsRect, total: u32, first: Seq<u8>, chunks: Seq<Seq<u8>>) -> (
    Option<PendingView>,
    Result<Option<RecordView>, VncError>,
)
    decreases chunks.len(),
{
    if chunks.len() == 0 {
        begun(None, rect, total, first)
    } else {
        continued(fed(rect, total, first, chunks.drop_last()).0, chunks.last())
    }
}

/// However a payload is cut into chunks, an idle assembler that is fed all of them hands the whole
/// payload back with the last one, answers nothing before it, and is idle again.
pub proof fn law_chunks_reassemble(rect: MvsRect, total: u32, first: Seq<u8>, chunks: Seq<Seq<u8>>)
    requires
        0 < total <= MAX_MVS_RECORD_PAYLOAD,
        first.len() + joined(chunks).len() == total,
        chunks.len() > 0 ==> first.len() + joined(chunks.drop_last()).len() < total,
    ensures
        fed(rect, total, first, chunks).0 is None,
        fed(rect, total, first, chunks).1 == Ok::<Option<RecordView>, VncError>(
            Some(RecordView { rect, payload: first + joined(chunks) }),
        ),
        chunks.len() > 0 ==> fed(rect, total, first, chunks.drop_last()).1 == Ok::<
            Option<RecordView>,
            VncError,
        >(None),
{
    if chunks.len() == 0 {
        assert(first + joined(chunks) =~= first);
    } else {
        lemma_partly_fed(rect, total, first, chunks.drop_last());
        assert(first + joined(chunks.drop_last()) + chunks.last() =~= first + joined(chunks));
    }
}

proof fn lemma_partly_fed(rect: MvsRect, total: u32, first: Seq<u8>, chunks: Seq<Seq<u8>>)
    requires
        0 < total <= MAX_MVS_RECORD_PAYLOAD,
        first.len() + joined(chunks).len() < total,
    ensures
        fed(rect, total, first, chunks).0 == Some(
            PendingView { rect, total: total as int, received: first + joined(chunks) },
        ),
        fed(rect, total, first, chunks).1 == Ok::<Option<RecordView>, VncError>(None),
    decreases chunks.len(),
{
    if chunks.len() == 0 {
        assert(first + joined(chunks) =~= first);
    } else {
        lemma_partly_fed(rect, total, first, chunks.drop_last());
        assert(first + joined(chunks.drop_last()) + chunks.last() =~= first + joined(chunks));
    }
}

/// After a refusal nothing is pending, so the next chunk must open a record.
pub proof fn law_refusal_leaves_nothing_pending(
    pending: Option<PendingView>,
    rect: MvsRect,
    total: u32,
    chunk: Seq<u8>,
)
    ensures
        begun(pending, rect, total, chunk).1 is Err ==> begun(pending, rect, total, chunk).0 is None,
        continued(pending, chunk).1 is Err ==> continued(pending, chunk).0 is None,
{
}

/// What does not fit is refused: a first chunk while a record is unfinished, a further chunk while
/// none is, a record of no bytes or of too many, and a chunk that is longer than what is missing. The
/// chunk that brings the last missing byte never is.
pub proof fn law_misfits_are_refused(
    pending: Option<PendingView>,
    rect: MvsRect,
    total: u32,
    chunk: Seq<u8>,
)
    ensures
        begun(pending, rect, total, chunk).1 is Err <==> (pending is Some || total == 0 || total
            > MAX_MVS_RECORD_PAYLOAD || chunk.len() > total),
        pending is None ==> continued(pending, chunk).1 is Err,
        pending matches Some(p) ==> (continued(pending, chunk).1 is Err <==> p.received.len()
            + chunk.len() > p.total),
        pending matches Some(p) ==> p.received.len() + chunk.len() == p.total ==> continued(
            pending,
            chunk,
        ).1 == Ok::<Option<RecordView>, VncError>(
            Some(RecordView { rect: p.rect, payload: p.received + chunk }),
        ),
{
}

} // verus!
