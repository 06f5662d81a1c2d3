//! The events of a capture file: a fixed prefix and a body.

use vstd::prelude::*;
use crate::error::VncError;
use crate::wire::{push_be16, push_be32, push_be64, push_bytes, read_be16, read_be32, read_be64};

verus! {

/// The bytes that open a capture file.
pub const MVS_CAPTURE_V2_MAGIC: [u8; 8] = [0x46, 0x52, 0x44, 0x4d, 0x56, 0x53, 0x30, 0x32];

/// The bytes of the file header.
pub const MVS_CAPTURE_V2_HEADER_BYTES: usize = 32;

/// The largest payload of a record.
pub const MVS_CAPTURE_V2_MAX_PAYLOAD: usize = 0x0100_0000;

/// The largest body of an event.
pub const MVS_CAPTURE_V2_MAX_EVENT_BODY: usize = 0x0100_001c;

/// The largest event, its prefix included.
pub const MVS_CAPTURE_V2_MAX_EVENT_BYTES: usize = 0x0100_003c;

/// The most records of a capture.
pub const MVS_CAPTURE_V2_MAX_RECORDS: usize = 4096;

/// The most events of a capture.
pub const MVS_CAPTURE_V2_MAX_EVENTS: usize = 4102;

/// The most payload bytes of all records together.
pub const MVS_CAPTURE_V2_MAX_CUMULATIVE_PAYLOAD: usize = 0x2000_0000;

/// The longest duration of a capture in milliseconds.
pub const MVS_CAPTURE_V2_MAX_DURATION_MS: u32 = 30_000;

/// The bytes of the prefix of an event.
pub const EVENT_PREFIX_BYTES: usize = 32;

/// The capture was created.
pub const EVENT_CREATED: u16 = 0x0001;

/// The capture is ready to be triggered.
pub const EVENT_ARMED: u16 = 0x0002;

/// The trigger was sent.
pub const EVENT_TRIGGERED: u16 = 0x0003;

/// Records follow.
pub const EVENT_RECORDING: u16 = 0x0004;

/// The surface changed its size.
pub const EVENT_SURFACE: u16 = 0x0010;

/// A record.
pub const EVENT_RECORD: u16 = 0x0020;

/// A record that is missing.
pub const EVENT_GAP: u16 = 0x0021;

/// The capture ended as planned.
pub const EVENT_CLEAN: u16 = 0x00fe;

/// The capture was given up.
pub const EVENT_ABORTED: u16 = 0x00ff;

/// An event.
#[verifier::ext_equal]
pub struct Event {
    pub kind: u16,
    pub ordinal: u64,
    pub generation: u64,
    pub timestamp_us: u64,
    pub body: Seq<u8>,
}

/// The bytes of an event.
#[verifier::opaque]
pub open spec fn event_bytes(e: Event) -> Seq<u8> {
    crate::wire::be32_bytes((32 + e.body.len()) as u32) + crate::wire::be16_bytes(e.kind)
        + crate::wire::be16_bytes(0) + crate::wire::be64_bytes(e.ordinal) + crate::wire::be64_bytes(
        e.generation,
    ) + crate::wire::be64_bytes(e.timestamp_us) + e.body
}

/// The bytes of the file header.
#[verifier::opaque]
pub open spec fn header_bytes() -> Seq<u8> {
    MVS_CAPTURE_V2_MAGIC@ + crate::wire::be16_bytes(32) + seq![2u8, 0u8, 1u8, 0u8]
        + crate::wire::be16_bytes(1) + crate::wire::be32_bytes(0x0100_0000)
        + crate::wire::be32_bytes(0x0100_001c) + crate::wire::be32_bytes(4096)
        + crate::wire::be32_bytes(30_000)
}

/// Why an event of this length is refused, where it is.
pub open spec fn event_length_refusal(length: int) -> Option<VncError> {
    if length < EVENT_PREFIX_BYTES || length > MVS_CAPTURE_V2_MAX_EVENT_BYTES {
        Some(VncError::Text("V2 event 长度无效"))
    } else {
        None
    }
}

/// The fields of a prefix: the length of the event, its kind, ordinal, generation and time.
pub open spec fn prefix_of(data: Seq<u8>) -> Result<(usize, u16, u64, u64, u64), VncError> {
    if data.len() != EVENT_PREFIX_BYTES {
        Err(VncError::Text("V2 event prefix 长度无效"))
    } else {
        match event_length_refusal(crate::wire::be32(data, 0) as int) {
            Some(e) => Err(e),
            None => if crate::wire::be16(data, 6) != 0 {
                Err(VncError::Text("V2 event flags 非零"))
            } else {
                Ok(
                    (
                        crate::wire::be32(data, 0) as usize,
                        crate::wire::be16(data, 4),
                        crate::wire::be64(data, 8),
                        crate::wire::be64(data, 16),
                        crate::wire::be64(data, 24),
                    ),
                )
            },
        }
    }
}

/// Accepts a length that leaves room for the prefix and a body within the limit.
pub fn validate_event_length(length: usize) -> (r: Result<(), VncError>)
    ensures
        r == (match event_length_refusal(length as int) {
            None => Ok(()),
            Some(e) => Err(e),
        }),
{
    if length < EVENT_PREFIX_BYTES || length > MVS_CAPTURE_V2_MAX_EVENT_BYTES {
        return Err(VncError::Text("V2 event 长度无效"));
    }
    Ok(())
}

/// Reads a prefix.
pub fn read_prefix(data: &[u8]) -> (r: Result<(usize, u16, u64, u64, u64), VncError>)
    ensures
        r == prefix_of(data@),
{
    if data.len() != EVENT_PREFIX_BYTES {
        return Err(VncError::Text("V2 event prefix 长度无效"));
    }
    let length: usize = read_be32(data, 0) as usize;
    validate_event_length(length)?;
    let kind: u16 = read_be16(data, 4);
    if read_be16(data, 6) != 0 {
        return Err(VncError::Text("V2 event flags 非零"));
    }
    Ok((length, kind, read_be64(data, 8), read_be64(data, 16), read_be64(data, 24)))
}

/// Writes an event.
pub fn encode_event(
    kind: u16,
    ordinal: u64,
    generation: u64,
    timestamp_us: u64,
    body: &[u8],
) -> (r: Result<Vec<u8>, VncError>)
    ensures
        body@.len() <= MVS_CAPTURE_V2_MAX_EVENT_BODY ==> (r matches Ok(v) && v@ == event_bytes(
            Event { kind, ordinal, generation, timestamp_us, body: body@ },
        )),
        body@.len() > MVS_CAPTURE_V2_MAX_EVENT_BODY ==> r == Err::<Vec<u8>, VncError>(
            if 32 + body@.len() > usize::MAX {
                VncError::Text("V2 event 长度溢出")
            } else {
                VncError::Text("V2 event 长度无效")
            },
        ),
{
    let length: usize = match body.len().checked_add(EVENT_PREFIX_BYTES) {
        Some(length) => length,
        None => {
            return Err(VncError::Text("V2 event 长度溢出"));
        },
    };
    validate_event_length(length)?;
    let mut event: Vec<u8> = Vec::with_capacity(length);
    push_be32(&mut event, length as u32);
    push_be16(&mut event, kind);
    push_be16(&mut event, 0);
    push_be64(&mut event, ordinal);
    push_be64(&mut event, generation);
    push_be64(&mut event, timestamp_us);
    push_bytes(&mut event, body);
    reveal(event_bytes);
    assert(event@ =~= event_bytes(
        Event { kind, ordinal, generation, timestamp_us, body: body@ },
    ));
    Ok(event)
}

/// The bytes of the file header.
pub fn capture_header() -> (r: Vec<u8>)
    ensures
        r@ == header_bytes(),
        r@.len() == 32,
{
    reveal(header_bytes);
    let mut header: Vec<u8> = Vec::with_capacity(MVS_CAPTURE_V2_HEADER_BYTES);
    push_bytes(&mut header, MVS_CAPTURE_V2_MAGIC.as_slice());
    push_be16(&mut header, 32);
    push_bytes(&mut header, [2u8, 0, 1, 0].as_slice());
    push_be16(&mut header, 1);
    push_be32(&mut header, 0x0100_0000);
    push_be32(&mut header, 0x0100_001c);
    push_be32(&mut header, 4096);
    push_be32(&mut header, 30_000);
    assert([2u8, 0, 1, 0]@ =~= seq![2u8, 0u8, 1u8, 0u8]);
    assert(header@ =~= header_bytes());
    header
}

/// The prefix of a written event gives back the fields that were written, and the bytes behind it
/// are the body.
pub proof fn law_event_is_read_back(e: Event, rest: Seq<u8>)
    requires
        e.body.len() <= MVS_CAPTURE_V2_MAX_EVENT_BODY,
    ensures
        event_bytes(e).len() == 32 + e.body.len(),
        prefix_of((event_bytes(e) + rest).take(32)) == Ok::<(usize, u16, u64, u64, u64), VncError>(
            ((32 + e.body.len()) as usize, e.kind, e.ordinal, e.generation, e.timestamp_us),
        ),
        (event_bytes(e) + rest).subrange(32, 32 + e.body.len() as int) == e.body,
        (event_bytes(e) + rest).skip((32 + e.body.len()) as int) == rest,
{
    reveal(event_bytes);
    let all = event_bytes(e) + rest;
    let p = all.take(32);
    assert(p.subrange(0, 4) =~= crate::wire::be32_bytes((32 + e.body.len()) as u32));
    assert(p.subrange(4, 6) =~= crate::wire::be16_bytes(e.kind));
    assert(p.subrange(6, 8) =~= crate::wire::be16_bytes(0));
    assert(p.subrange(8, 16) =~= crate::wire::be64_bytes(e.ordinal));
    assert(p.subrange(16, 24) =~= crate::wire::be64_bytes(e.generation));
    assert(p.subrange(24, 32) =~= crate::wire::be64_bytes(e.timestamp_us));
    crate::wire::lemma_be32(p, 0, (32 + e.body.len()) as u32);
    crate::wire::lemma_be16(p, 4, e.kind);
    crate::wire::lemma_be16(p, 6, 0);
    crate::wire::lemma_be64(p, 8, e.ordinal);
    crate::wire::lemma_be64(p, 16, e.generation);
    crate::wire::lemma_be64(p, 24, e.timestamp_us);
    assert(all.subrange(32, 32 + e.body.len() as int) =~= e.body);
    assert(all.skip((32 + e.body.len()) as int) =~= rest);
}

/// How many events and payload bytes a capture holds.
#[derive(Clone, Copy, Debug, PartialEq, Eq, Structural)]
pub struct CaptureCounters {
    pub events: usize,
    pub payload: usize,
}

impl Default for CaptureCounters {
    fn default() -> (r: Self)
        ensures
            r == (CaptureCounters { events: 0, payload: 0 }),
    {
        CaptureCounters { events: 0, payload: 0 }
    }
}

/// Why there is no room for another event, where there is none.
pub open spec fn event_count_refusal(events: int) -> Option<VncError> {
    if events + 1 > usize::MAX {
        Some(VncError::Text("V2 event 计数溢出"))
    } else if events + 1 > MVS_CAPTURE_V2_MAX_EVENTS {
        Some(VncError::Text("V2 event 数量超过上限"))
    } else {
        None
    }
}

/// Why there is no room for another payload, where there is none.
pub open spec fn payload_refusal(payload: int, bytes: int) -> Option<VncError> {
    if payload + bytes > usize::MAX {
        Some(VncError::Text("V2 payload 累计溢出"))
    } else if payload + bytes > MVS_CAPTURE_V2_MAX_CUMULATIVE_PAYLOAD {
        Some(VncError::Text("V2 payload 累计超过上限"))
    } else {
        None
    }
}

impl CaptureCounters {
    /// Counts an event. A refusal counts nothing.
    pub fn reserve_event(&mut self) -> (r: Result<(), VncError>)
        ensures
            match event_count_refusal(old(self).events as int) {
                Some(e) => r == Err::<(), VncError>(e) && *final(self) == *old(self),
                None => r is Ok && final(self).events == old(self).events + 1
                    && final(self).payload == old(self).payload,
            },
    {
        let next: usize = match self.events.checked_add(1) {
            Some(next) => next,
            None => {
                return Err(VncError::Text("V2 event 计数溢出"));
            },
        };
        if next > MVS_CAPTURE_V2_MAX_EVENTS {
            return Err(VncError::Text("V2 event 数量超过上限"));
        }
        self.events = next;
        Ok(())
    }

    /// Counts payload bytes. A refusal counts nothing.
    pub fn reserve_payload(&mut self, bytes: usize) -> (r: Result<(), VncError>)
        ensures
            match payload_refusal(old(self).payload as int, bytes as int) {
                Some(e) => r == Err::<(), VncError>(e) && *final(self) == *old(self),
                None => r is Ok && final(self).payload == old(self).payload + bytes
                    && final(self).events == old(self).events,
            },
    {
        let next: usize = match self.payload.checked_add(bytes) {
            Some(next) => next,
            None => {
                return Err(VncError::Text("V2 payload 累计溢出"));
            },
        };
        if next > MVS_CAPTURE_V2_MAX_CUMULATIVE_PAYLOAD {
            return Err(VncError::Text("V2 payload 累计超过上限"));
        }
        self.payload = next;
        Ok(())
    }
}

} // verus!
