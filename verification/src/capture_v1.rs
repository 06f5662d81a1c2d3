//! The older capture file: its magic, then records until the end of the file.

use vstd::prelude::*;
use crate::error::VncError;
use crate::mvs_capture_v2::{read_rect, MvsCaptureV2Provenance};
use crate::mvs_stream::{owned_bytes, MvsRecord, RecordView, MAX_MVS_RECORD_PAYLOAD};
use crate::wire::read_be32;

verus! {

/// The bytes that open an older capture file.
pub const MVS_CAPTURE_V1_MAGIC: [u8; 8] = [0x46, 0x52, 0x44, 0x4d, 0x56, 0x53, 0x30, 0x31];

/// The records of an older capture, of which it is not known how they came about.
#[derive(Clone, Debug, PartialEq, Eq)]
pub struct HistoricalMvsCaptureV1 {
    pub provenance: MvsCaptureV2Provenance,
    pub records: Vec<MvsRecord>,
}

/// What records hold.
pub open spec fn plain_records(records: Seq<MvsRecord>) -> Seq<RecordView> {
    Seq::new(records.len(), |i: int| records[i]@)
}

/// The records in `data`: each a rectangle, the length of its payload and the payload.
pub open spec fn v1_records(data: Seq<u8>) -> Result<Seq<RecordView>, VncError>
    decreases data.len(),
{
    let length = crate::wire::be32(data, 8) as int;
    if data.len() == 0 {
        Ok(Seq::empty())
    } else if data.len() < 12 {
        Err(VncError::Text("FRDMVS01 record header 截断"))
    } else if length < 1 || length > MAX_MVS_RECORD_PAYLOAD {
        Err(VncError::Text("FRDMVS01 record 长度无效"))
    } else if data.len() < 12 + length {
        Err(VncError::Text("FRDMVS01 record payload 截断"))
    } else {
        match v1_records(data.skip(12 + length)) {
            Err(e) => Err(e),
            Ok(others) => Ok(
                seq![
                    RecordView {
                        rect: crate::mvs_capture_v2::rect_at(data, 0),
                        payload: data.subrange(12, 12 + length),
                    },
                ] + others,
            ),
        }
    }
}

/// The records of an older capture file.
pub open spec fn v1_read(data: Seq<u8>) -> Result<Seq<RecordView>, VncError> {
    if data.len() < 8 || data.take(8) != MVS_CAPTURE_V1_MAGIC@ {
        Err(VncError::Text("不是 FRDMVS01 capture"))
    } else {
        v1_records(data.skip(8))
    }
}

/// What is read when the records that follow `done` are read too.
spec fn continued(done: Seq<RecordView>, rest: Result<Seq<RecordView>, VncError>) -> Result<
    Seq<RecordView>,
    VncError,
> {
    match rest {
        Err(e) => Err(e),
        Ok(others) => Ok(done + others),
    }
}

fn begins_like_v1(data: &[u8]) -> (r: bool)
    ensures
        r == (data@.len() >= 8 && data@.take(8) == MVS_CAPTURE_V1_MAGIC@),
{
    if data.len() < 8 {
        return false;
    }
    let magic = MVS_CAPTURE_V1_MAGIC;
    let mut i: usize = 0;
    while i < 8
        invariant
            i <= 8,
            data@.len() >= 8,
            magic == MVS_CAPTURE_V1_MAGIC,
            forall|k: int| 0 <= k < i ==> data@[k] == magic@[k],
        decreases 8 - i,
    {
        if data[i] != magic[i] {
            assert(data@.take(8)[i as int] != magic@[i as int]);
            return false;
        }
        i = i + 1;
    }
    assert(data@.take(8) =~= magic@);
    true
}

/// Reads the records of an older capture file.
pub fn read_mvs_capture(data: &[u8]) -> (r: Result<Vec<MvsRecord>, VncError>)
    ensures
        match v1_read(data@) {
            Err(e) => r == Err::<Vec<MvsRecord>, VncError>(e),
            Ok(records) => r matches Ok(v) && plain_records(v@) == records,
        },
{
    if !begins_like_v1(data) {
        return Err(VncError::Text("不是 FRDMVS01 capture"));
    }
    let total: usize = data.len();
    let mut records: Vec<MvsRecord> = Vec::new();
    let mut at: usize = 8;
    let ghost goal = v1_records(data@.skip(8));
    assert(goal == continued(plain_records(records@), v1_records(data@.skip(8)))) by {
        if goal is Ok {
            assert(plain_records(records@) + goal->Ok_0 =~= goal->Ok_0);
        }
    }
    while at < total
        invariant
            total == data@.len(),
            8 <= at <= total,
            goal == v1_read(data@),
            goal == continued(plain_records(records@), v1_records(data@.skip(at as int))),
        decreases total - at,
    {
        let ghost rest = data@.skip(at as int);
        if total - at < 12 {
            return Err(VncError::Text("FRDMVS01 record header 截断"));
        }
        let head = vstd::slice::slice_subrange(data, at, at + 12);
        assert(forall|k: int| 0 <= k < 12 ==> head@[k] == rest[k]);
        let rect = read_rect(head, 0);
        let length: usize = read_be32(head, 8) as usize;
        if length < 1 || length > MAX_MVS_RECORD_PAYLOAD {
            return Err(VncError::Text("FRDMVS01 record 长度无效"));
        }
        let start: usize = at + 12;
        if total - start < length {
            return Err(VncError::Text("FRDMVS01 record payload 截断"));
        }
        let end: usize = start + length;
        let payload = owned_bytes(vstd::slice::slice_subrange(data, start, end));
        proof {
            assert(payload@ =~= rest.subrange(12, 12 + length as int));
            assert(rest.skip(12 + length as int) =~= data@.skip(end as int));
        }
        let ghost before = plain_records(records@);
        let record = MvsRecord { rect, payload };
        let ghost added = record@;
        records.push(record);
        proof {
            assert(plain_records(records@) =~= before.push(added));
            let others = v1_records(data@.skip(end as int));
            if others is Ok {
                assert(before + (seq![added] + others->Ok_0) =~= before.push(added)
                    + others->Ok_0);
            }
        }
        at = end;
    }
    assert(data@.skip(at as int).len() == 0);
    assert(plain_records(records@) + Seq::<RecordView>::empty() =~= plain_records(records@));
    Ok(records)
}

/// Reads an older capture, marked as one of unknown origin.
pub fn read_mvs_capture_v1_historical(data: &[u8]) -> (r: Result<HistoricalMvsCaptureV1, VncError>)
    ensures
        match v1_read(data@) {
            Err(e) => r == Err::<HistoricalMvsCaptureV1, VncError>(e),
            Ok(records) => r matches Ok(v) && plain_records(v.records@) == records && v.provenance
                == MvsCaptureV2Provenance::HistoricalUnproven,
        },
{
    let records = read_mvs_capture(data)?;
    Ok(HistoricalMvsCaptureV1 { provenance: MvsCaptureV2Provenance::HistoricalUnproven, records })
}

/// What a record is written as: its rectangle, the length of its payload and the payload, each
/// number with its high byte first.
pub open spec fn v1_record_bytes(record: RecordView) -> Seq<u8> {
    let r = record.rect;
    let n = record.payload.len();
    seq![
        (r.x / 256) as u8,
        (r.x % 256) as u8,
        (r.y / 256) as u8,
        (r.y % 256) as u8,
        (r.width / 256) as u8,
        (r.width % 256) as u8,
        (r.height / 256) as u8,
        (r.height % 256) as u8,
        (n / 0x100_0000) as u8,
        (n / 0x1_0000 % 256) as u8,
        (n / 256 % 256) as u8,
        (n % 256) as u8,
    ] + record.payload
}

/// What records are written as, one behind the other.
pub open spec fn v1_bytes(records: Seq<RecordView>) -> Seq<u8>
    decreases records.len(),
{
    if records.len() == 0 {
        Seq::empty()
    } else {
        v1_record_bytes(records[0]) + v1_bytes(records.skip(1))
    }
}

proof fn lemma_v1_records(records: Seq<RecordView>)
    requires
        forall|i: int|
            0 <= i < records.len() ==> 1 <= (#[trigger] records[i]).payload.len()
                <= MAX_MVS_RECORD_PAYLOAD,
    ensures
        v1_records(v1_bytes(records)) == Ok::<Seq<RecordView>, VncError>(records),
    decreases records.len(),
{
    if records.len() == 0 {
        assert(records =~= Seq::empty());
    } else {
        let first = records[0];
        let others = records.skip(1);
        let front = v1_record_bytes(first);
        let data = v1_bytes(records);
        let n = first.payload.len() as int;
        assert forall|i: int| 0 <= i < others.len() implies 1 <= (#[trigger] others[i]).payload.len()
            <= MAX_MVS_RECORD_PAYLOAD by {
            assert(others[i] == records[i + 1]);
        }
        lemma_v1_records(others);
        assert(1 <= records[0].payload.len() <= MAX_MVS_RECORD_PAYLOAD);
        assert(data.len() >= 12 + n);
        assert(data[0] == front[0] && data[1] == front[1] && data[2] == front[2] && data[3]
            == front[3] && data[4] == front[4] && data[5] == front[5] && data[6] == front[6]
            && data[7] == front[7] && data[8] == front[8] && data[9] == front[9] && data[10]
            == front[10] && data[11] == front[11]);
        assert(n == 256 * (256 * (256 * (n / 0x100_0000) + n / 0x1_0000 % 256) + n / 256 % 256) + n
            % 256);
        assert(crate::wire::be32(data, 8) == n);
        assert(crate::mvs_capture_v2::rect_at(data, 0) == first.rect);
        assert(data.subrange(12, 12 + n) =~= first.payload);
        assert(data.skip(12 + n) =~= v1_bytes(others));
        assert(seq![first] + others =~= records);
    }
}

/// An older capture that was written is read back: its eight letters, and then every record in its
/// order. Other letters are refused.
pub proof fn law_older_capture_is_read_back(letters: Seq<u8>, records: Seq<RecordView>)
    requires
        letters.len() == 8,
        forall|i: int|
            0 <= i < records.len() ==> 1 <= (#[trigger] records[i]).payload.len()
                <= MAX_MVS_RECORD_PAYLOAD,
    ensures
        letters == seq![0x46u8, 0x52, 0x44, 0x4d, 0x56, 0x53, 0x30, 0x31] ==> v1_read(
            letters + v1_bytes(records),
        ) == Ok::<Seq<RecordView>, VncError>(records),
        letters != seq![0x46u8, 0x52, 0x44, 0x4d, 0x56, 0x53, 0x30, 0x31] ==> v1_read(
            letters + v1_bytes(records),
        ) is Err,
{
    let data = letters + v1_bytes(records);
    lemma_v1_records(records);
    assert(data.take(8) =~= letters);
    assert(data.skip(8) =~= v1_bytes(records));
    assert(MVS_CAPTURE_V1_MAGIC@ =~= seq![0x46u8, 0x52, 0x44, 0x4d, 0x56, 0x53, 0x30, 0x31]);
}

} // verus!
