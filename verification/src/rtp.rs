//! The packets of the real-time transport protocol.

use vstd::prelude::*;
use crate::error::VncError;
use crate::wire::{read_be16, read_be32};

verus! {

/// The bytes of a header without anything that it may leave out.
pub const RTP_FIXED_HEADER_BYTES: usize = 12;

/// The header of a packet.
#[derive(Clone, Copy, Debug, PartialEq, Eq, Structural)]
pub struct RtpHeader {
    pub marker: bool,
    pub payload_type: u8,
    pub sequence: u16,
    pub timestamp: u32,
    pub ssrc: u32,
}

/// A packet.
#[derive(Debug, PartialEq, Eq)]
pub struct RtpPacket<'a> {
    pub header: RtpHeader,
    pub payload: &'a [u8],
}

/// The header of a packet that is long enough for one.
pub open spec fn header_of(packet: Seq<u8>) -> RtpHeader {
    RtpHeader {
        marker: packet[1] >= 128,
        payload_type: packet[1] % 128,
        sequence: crate::wire::be16(packet, 2),
        timestamp: crate::wire::be32(packet, 4),
        ssrc: crate::wire::be32(packet, 8),
    }
}

/// Where the list of contributing sources ends.
pub open spec fn sources_end(packet: Seq<u8>) -> int {
    12 + 4 * (packet[0] % 16)
}

/// Where the payload begins, where the packet is long enough for it.
pub open spec fn payload_start(packet: Seq<u8>) -> Result<int, VncError> {
    let start = sources_end(packet);
    if start > packet.len() {
        Err(VncError::Text("RTP CSRC 列表截断"))
    } else if packet[0] / 16 % 2 == 0 {
        Ok(start)
    } else if start + 4 > packet.len() {
        Err(VncError::Text("RTP 扩展头截断"))
    } else if start + 4 + 4 * crate::wire::be16(packet, start + 2) > packet.len() {
        Err(VncError::Text("RTP 扩展头截断"))
    } else {
        Ok(start + 4 + 4 * crate::wire::be16(packet, start + 2))
    }
}

/// The payload of a packet.
pub open spec fn payload_of(packet: Seq<u8>) -> Result<Seq<u8>, VncError> {
    if packet.len() < RTP_FIXED_HEADER_BYTES {
        Err(VncError::Text("RTP 数据报过短"))
    } else if packet[0] / 64 != 2 {
        Err(VncError::Text("RTP 版本非法"))
    } else {
        match payload_start(packet) {
            Err(e) => Err(e),
            Ok(start) => if packet[0] / 32 % 2 == 0 {
                Ok(packet.skip(start))
            } else if start == packet.len() || packet.last() == 0 || packet.last() > packet.len()
                - start {
                Err(VncError::Text("RTP padding 非法"))
            } else {
                Ok(packet.subrange(start, packet.len() - packet.last()))
            },
        }
    }
}

fn find_payload(packet: &[u8]) -> (r: Result<usize, VncError>)
    requires
        packet@.len() >= 12,
    ensures
        match (payload_start(packet@), r) {
            (Ok(start), Ok(found)) => found == start && 12 <= found <= packet@.len(),
            (Err(e), Err(f)) => e == f,
            _ => false,
        },
{
    let start: usize = 12 + 4 * (packet[0] % 16) as usize;
    if start > packet.len() {
        return Err(VncError::Text("RTP CSRC 列表截断"));
    }
    if packet[0] / 16 % 2 == 0 {
        return Ok(start);
    }
    if packet.len() - start < 4 {
        return Err(VncError::Text("RTP 扩展头截断"));
    }
    let words: usize = read_be16(packet, start + 2) as usize;
    if packet.len() - start - 4 < 4 * words {
        return Err(VncError::Text("RTP 扩展头截断"));
    }
    Ok(start + 4 + 4 * words)
}

/// Reads a packet.
pub fn parse_rtp_packet(packet: &[u8]) -> (r: Result<RtpPacket<'_>, VncError>)
    ensures
        match (payload_of(packet@), r) {
            (Ok(payload), Ok(read)) => read.payload@ == payload && read.header == header_of(
                packet@,
            ),
            (Err(e), Err(f)) => e == f,
            _ => false,
        },
{
    if packet.len() < RTP_FIXED_HEADER_BYTES {
        return Err(VncError::Text("RTP 数据报过短"));
    }
    if packet[0] / 64 != 2 {
        return Err(VncError::Text("RTP 版本非法"));
    }
    let start: usize = find_payload(packet)?;
    let header = RtpHeader {
        marker: packet[1] >= 128,
        payload_type: packet[1] % 128,
        sequence: read_be16(packet, 2),
        timestamp: read_be32(packet, 4),
        ssrc: read_be32(packet, 8),
    };
    let mut end: usize = packet.len();
    if packet[0] / 32 % 2 == 1 {
        let padding: usize = packet[packet.len() - 1] as usize;
        if start == packet.len() || padding == 0 || padding > packet.len() - start {
            return Err(VncError::Text("RTP padding 非法"));
        }
        end = end - padding;
    }
    let payload = vstd::slice::slice_subrange(packet, start, end);
    assert(packet@.skip(start as int) =~= packet@.subrange(start as int, packet@.len() as int));
    Ok(RtpPacket { header, payload })
}

/// What a packet is written as: the version 2 and what it has of padding, of an extension and of
/// contributing sources, the marker and the payload type, the three numbers, the sources, the
/// extension with its size in words, the payload, and padding whose last byte tells its size.
pub open spec fn packet_bytes(
    header: RtpHeader,
    sources: Seq<u8>,
    extension: Option<(u16, Seq<u8>)>,
    payload: Seq<u8>,
    padding: Seq<u8>,
) -> Seq<u8> {
    let first = 128 + (if padding.len() > 0 {
        32int
    } else {
        0
    }) + (if extension is Some {
        16int
    } else {
        0
    }) + sources.len() / 4;
    let second = header.payload_type + (if header.marker {
        128int
    } else {
        0
    });
    let fixed = seq![
        first as u8,
        second as u8,
        (header.sequence / 256) as u8,
        (header.sequence % 256) as u8,
        (header.timestamp / 0x100_0000) as u8,
        (header.timestamp / 0x1_0000 % 256) as u8,
        (header.timestamp / 256 % 256) as u8,
        (header.timestamp % 256) as u8,
        (header.ssrc / 0x100_0000) as u8,
        (header.ssrc / 0x1_0000 % 256) as u8,
        (header.ssrc / 256 % 256) as u8,
        (header.ssrc % 256) as u8,
    ];
    fixed + sources + extension_bytes(extension) + payload + padding
}

/// What an extension is written as: what it is for, its size in words, and its words.
pub open spec fn extension_bytes(extension: Option<(u16, Seq<u8>)>) -> Seq<u8> {
    match extension {
        None => Seq::empty(),
        Some((profile, words)) => seq![
            (profile / 256) as u8,
            (profile % 256) as u8,
            (words.len() / 4 / 256) as u8,
            (words.len() / 4 % 256) as u8,
        ] + words,
    }
}

/// A packet that was written is read back: its header, and its payload without the sources, the
/// extension and the padding.
pub proof fn law_packet_is_read_back(
    header: RtpHeader,
    sources: Seq<u8>,
    extension: Option<(u16, Seq<u8>)>,
    payload: Seq<u8>,
    padding: Seq<u8>,
)
    requires
        header.payload_type < 128,
        sources.len() % 4 == 0,
        sources.len() < 64,
        extension matches Some((_, words)) ==> words.len() % 4 == 0 && words.len() < 0x4_0000,
        padding.len() < 256,
        padding.len() > 0 ==> padding.last() == padding.len(),
    ensures
        payload_of(packet_bytes(header, sources, extension, payload, padding)) == Ok::<
            Seq<u8>,
            VncError,
        >(payload),
        header_of(packet_bytes(header, sources, extension, payload, padding)) == header,
{
    let packet = packet_bytes(header, sources, extension, payload, padding);
    let ext = extension_bytes(extension);
    let start = 12 + sources.len() + ext.len();
    assert(packet.len() == start + payload.len() + padding.len());
    lemma_word(header.timestamp);
    lemma_word(header.ssrc);
    let count = sources.len() / 4;
    assert(packet[0] % 16 == count);
    assert(sources_end(packet) == 12 + sources.len());
    if extension is Some {
        let words = extension->Some_0.1;
        let n = words.len() / 4;
        assert(packet[14int + sources.len()] == ext[2] && packet[15int + sources.len()] == ext[3]);
        assert(0 <= n < 65536);
        assert(ext[2] == n / 256 && ext[3] == n % 256);
        assert(crate::wire::be16(packet, sources_end(packet) + 2) == n);
    }
    assert(payload_start(packet) == Ok::<int, VncError>(start as int));
    if padding.len() > 0 {
        assert(packet.last() == padding.last());
        assert(packet.subrange(start as int, packet.len() - padding.len()) =~= payload);
    } else {
        assert(packet.skip(start as int) =~= payload);
    }
}

proof fn lemma_word(x: u32)
    ensures
        x == 256 * (256 * (256 * (x / 0x100_0000) + x / 0x1_0000 % 256) + x / 256 % 256) + x % 256,
        x / 0x100_0000 < 256,
{
}

} // verus!
