//! Negotiating media streams: random material, offers, the client's configuration and the server's
//! answer.

use vstd::prelude::*;
use vstd::string::*;
use crate::binary_plist;
use crate::binary_plist::{BinaryPlistReader, PlistEntry};
use crate::error::{role_context, VncError};
use crate::media_offer::{build_remote_endpoint_info, build_viceroy_offer_blob, MediaNegotiatorMode};
use crate::media_offer::{MEDIA_NEGOTIATOR_MEDIA_BLOB_KEY, MEDIA_STREAM_REMOTE_ENDPOINT_INFO_KEY};
use crate::media_protocol::{MEDIA_STREAM_ANSWER_KIND, MEDIA_STREAM_ANSWER_VERSION};
use crate::media_protocol::{MEDIA_STREAM_CONTROL_ENCODING, PRIMARY_MEDIA_STREAM_ID};
use crate::mvs_stream::owned_bytes;
use crate::offer_list;
use crate::offer_list::{binary_plist_offer, uuid_text};
use crate::protobuf::{same_bytes, validate_protobuf};
use crate::wire::{push_be16, push_be32, push_bytes, read_be16, read_be32};
use crate::wire_cursor::is_all_zero;

verus! {

/// The bytes of a master key.
pub const SRTP_AES_256_MASTER_KEY_LEN: usize = 32;

/// The bytes of a master salt.
pub const SRTP_MASTER_SALT_LEN: usize = 14;

/// The bytes of a master key and its salt.
pub const SRTP_MASTER_MATERIAL_LEN: usize = 46;

/// The largest compressed message of an answer.
pub const MAX_COMPRESSED_NEGOTIATION_BLOB_LEN: usize = 65535;

/// The largest message of an answer.
pub const MAX_DECOMPRESSED_NEGOTIATION_BLOB_LEN: usize = 1_048_576;

/// The seconds between the epoch of network time and that of the system.
pub const NTP_UNIX_EPOCH_OFFSET_SECONDS: u64 = 2_208_988_800;

/// Why no random bytes came.
#[verifier::external_type_specification]
#[verifier::external_body]
pub struct ExRandomError(getrandom::Error);

/// Why bytes were not decompressed.
#[verifier::external_type_specification]
#[verifier::external_body]
pub struct ExDecompressError(flate2::DecompressError);

/// Why bytes were not compressed.
#[verifier::external_type_specification]
#[verifier::external_body]
pub struct ExIoError(std::io::Error);

/// Why the system's time is before its epoch.
#[verifier::external_type_specification]
#[verifier::external_body]
pub struct ExSystemTimeError(std::time::SystemTimeError);

/// `std::time::Duration::as_secs`: the whole seconds. Nothing is claimed of them.
pub assume_specification[ std::time::Duration::as_secs ](duration: &std::time::Duration) -> (r: u64);

/// `std::time::Duration::subsec_nanos`: the nanoseconds beyond the whole seconds, fewer than a
/// second has.
pub assume_specification[ std::time::Duration::subsec_nanos ](duration: &std::time::Duration) -> (r:
    u32)
    ensures
        r < 1_000_000_000,
;

/// `std::time::SystemTime::elapsed` of the epoch: the time that the system tells. Nothing is
/// claimed of it.
#[verifier::external_body]
fn system_time() -> (r: Result<std::time::Duration, std::time::SystemTimeError>) {
    std::time::UNIX_EPOCH.elapsed()
}

/// `getrandom::getrandom`: bytes of chance. Nothing is claimed of them.
#[verifier::external_body]
fn chance<const LENGTH: usize>() -> (r: Result<[u8; LENGTH], getrandom::Error>) {
    let mut bytes = [0u8; LENGTH];
    getrandom::getrandom(&mut bytes)?;
    Ok(bytes)
}

/// What came of decompressing bytes: whether the stream ended, how many bytes were read and
/// written, and the buffer they were written to.
pub struct Inflated {
    pub finished: bool,
    pub total_in: u64,
    pub total_out: u64,
    pub output: Vec<u8>,
}

impl View for Inflated {
    type V = (bool, u64, u64, Seq<u8>);

    open spec fn view(&self) -> (bool, u64, u64, Seq<u8>) {
        (self.finished, self.total_in, self.total_out, self.output@)
    }
}

/// What `flate2::Decompress` makes of these bytes in one call with a zeroed buffer of `capacity`
/// bytes, where it succeeds: whether the stream ended, how many bytes were read and written, and
/// the buffer.
pub uninterp spec fn zlib_inflated(data: Seq<u8>, capacity: nat) -> Option<
    (bool, u64, u64, Seq<u8>),
>;

/// What `flate2::write::ZlibEncoder` makes of these bytes at its default level: the compressed
/// bytes, where it succeeds.
pub uninterp spec fn zlib_deflated(data: Seq<u8>) -> Option<Seq<u8>>;

/// Whether decompressing gave back all of the bytes and took all of the compressed ones.
pub open spec fn restored(
    inflated: Option<(bool, u64, u64, Seq<u8>)>,
    compressed: Seq<u8>,
    data: Seq<u8>,
) -> bool {
    inflated matches Some((finished, total_in, total_out, output)) && {
        &&& finished
        &&& 0 < compressed.len() == total_in
        &&& total_out == data.len()
        &&& output.len() > data.len()
        &&& output.take(data.len() as int) == data
    }
}

/// `flate2::write::ZlibEncoder`, given all the bytes and then finished. The outcome depends on the
/// bytes alone, and `flate2::Decompress` gives the bytes back where its buffer has room for more
/// than them.
#[verifier::external_body]
fn deflate(data: &[u8]) -> (r: Result<Vec<u8>, std::io::Error>)
    ensures
        match r {
            Ok(compressed) => {
                &&& zlib_deflated(data@) == Some(compressed@)
                &&& forall|capacity: nat|
                    data@.len() < capacity <= 0x10_0001 ==> restored(
                        #[trigger] zlib_inflated(compressed@, capacity),
                        compressed@,
                        data@,
                    )
            },
            Err(_) => zlib_deflated(data@) is None,
        },
{
    let mut encoder = flate2::write::ZlibEncoder::new(Vec::new(), flate2::Compression::default());
    std::io::Write::write_all(&mut encoder, data)?;
    encoder.finish()
}

/// `flate2::Decompress::decompress`, called once for a whole zlib stream. The outcome depends on
/// the bytes and on the size of the buffer alone, and the buffer keeps its size.
#[verifier::external_body]
fn inflate(data: &[u8], capacity: usize) -> (r: Result<Inflated, flate2::DecompressError>)
    requires
        capacity <= 0x10_0001,
    ensures
        match r {
            Ok(inflated) => zlib_inflated(data@, capacity as nat) == Some(inflated@)
                && inflated.output@.len() == capacity,
            Err(_) => zlib_inflated(data@, capacity as nat) is None,
        },
{
    let mut inflater = flate2::Decompress::new(true);
    let mut output = vec![0u8; capacity];
    let status = inflater.decompress(data, &mut output, flate2::FlushDecompress::Finish)?;
    let finished = match status {
        flate2::Status::StreamEnd => true,
        flate2::Status::Ok => false,
        flate2::Status::BufError => false,
    };
    Ok(Inflated { finished, total_in: inflater.total_in(), total_out: inflater.total_out(), output })
}

/// Whether this is the failure to draw random bytes.
pub open spec fn chance_failed(e: VncError) -> bool {
    e == VncError::Text("生成媒体协商随机材料失败")
}

/// The record of what chance gave, draw by draw: the bytes, where it gave any.
pub struct Draws {
    pub drawn: Ghost<Seq<Option<Seq<u8>>>>,
}

impl Draws {
    /// Nothing has been drawn.
    pub fn new() -> (r: Self)
        ensures
            r.drawn@ == Seq::<Option<Seq<u8>>>::empty(),
    {
        Draws { drawn: Ghost(Seq::empty()) }
    }
}

/// Whether draws were added behind others.
pub open spec fn draws_extend(after: Seq<Option<Seq<u8>>>, before: Seq<Option<Seq<u8>>>) -> bool {
    before.len() <= after.len() && after.take(before.len() as int) == before
}

/// Draws random bytes: all that chance gave, or a failure where it gave none.
pub fn random_bytes<const LENGTH: usize>(draws: &mut Draws) -> (r: Result<[u8; LENGTH], VncError>)
    ensures
        match r {
            Ok(bytes) => final(draws).drawn@ == old(draws).drawn@.push(Some(bytes@)),
            Err(e) => final(draws).drawn@ == old(draws).drawn@.push(None) && chance_failed(e),
        },
{
    match chance::<LENGTH>() {
        Ok(bytes) => {
            proof {
                draws.drawn@ = draws.drawn@.push(Some(bytes@));
            }
            Ok(bytes)
        },
        Err(_) => {
            proof {
                draws.drawn@ = draws.drawn@.push(None);
            }
            Err(VncError::Text("生成媒体协商随机材料失败"))
        },
    }
}

/// The draw of a stream number.
pub open spec fn is_ssrc_draw(draw: Option<Seq<u8>>, ssrc: u32) -> bool {
    draw matches Some(bytes) && bytes.len() == 4 && crate::wire::be32(bytes, 0) == ssrc
}

/// Whether all draws from `start` on gave zero.
pub open spec fn only_zero_from(drawn: Seq<Option<Seq<u8>>>, start: int) -> bool {
    forall|i: int| start <= i < drawn.len() ==> is_ssrc_draw(#[trigger] drawn[i], 0)
}

/// Whether this is the stream number of these draws: the first one that is not zero.
pub open spec fn ssrc_drawn(
    before: Seq<Option<Seq<u8>>>,
    ssrc: u32,
    after: Seq<Option<Seq<u8>>>,
) -> bool {
    &&& ssrc != 0
    &&& after.len() > before.len()
    &&& draws_extend(after, before)
    &&& only_zero_from(after.drop_last(), before.len() as int)
    &&& is_ssrc_draw(after.last(), ssrc)
}

/// Whether no stream number came of these draws: chance gave nothing behind draws of zero, or
/// nothing but zero for longer than can be counted.
pub open spec fn no_ssrc_drawn(before: Seq<Option<Seq<u8>>>, after: Seq<Option<Seq<u8>>>) -> bool {
    &&& draws_extend(after, before)
    &&& {
        ||| {
            &&& after.len() > before.len()
            &&& only_zero_from(after.drop_last(), before.len() as int)
            &&& after.last() is None
        }
        ||| after.len() - before.len() == u64::MAX && only_zero_from(after, before.len() as int)
    }
}

/// Draws a stream number that is not zero.
pub fn random_nonzero_ssrc(draws: &mut Draws) -> (r: Result<u32, VncError>)
    ensures
        match r {
            Ok(ssrc) => ssrc_drawn(old(draws).drawn@, ssrc, final(draws).drawn@),
            Err(e) => chance_failed(e) && no_ssrc_drawn(old(draws).drawn@, final(draws).drawn@),
        },
{
    let ghost before = draws.drawn@;
    let mut left: u64 = u64::MAX;
    assert(draws.drawn@.take(before.len() as int) =~= before);
    while left > 0
        invariant
            before == old(draws).drawn@,
            draws_extend(draws.drawn@, before),
            only_zero_from(draws.drawn@, before.len() as int),
            draws.drawn@.len() - before.len() == u64::MAX - left,
        decreases left,
    {
        let ghost drawn = draws.drawn@;
        let attempt = random_bytes::<4>(draws);
        assert(draws.drawn@.drop_last() =~= drawn);
        assert(draws.drawn@.take(before.len() as int) =~= drawn.take(before.len() as int));
        let bytes: [u8; 4] = attempt?;
        let ssrc: u32 = read_be32(bytes.as_slice(), 0);
        if ssrc != 0 {
            return Ok(ssrc);
        }
        left = left - 1;
    }
    Err(VncError::Text("生成媒体协商随机材料失败"))
}

/// Whether bytes are an identifier of the random kind.
pub open spec fn is_random_uuid(uuid: Seq<u8>) -> bool {
    &&& uuid.len() == 16
    &&& uuid[6] / 16 == 4
    &&& uuid[8] / 64 == 2
}

/// Random bytes, marked as an identifier of the random kind.
pub open spec fn marked(random: Seq<u8>) -> Seq<u8> {
    random.update(6, (random[6] % 16 + 0x40) as u8).update(8, (random[8] % 64 + 0x80) as u8)
}

/// Marks random bytes as an identifier of the random kind and keeps all other bits.
pub fn marked_uuid(random: [u8; 16]) -> (r: [u8; 16])
    ensures
        is_random_uuid(r@),
        r@ == marked(random@),
{
    let mut uuid = random;
    uuid[6] = uuid[6] % 16 + 0x40;
    uuid[8] = uuid[8] % 64 + 0x80;
    uuid
}

/// Whether this is the identifier of a single draw.
pub open spec fn uuid_drawn(
    before: Seq<Option<Seq<u8>>>,
    uuid: Seq<u8>,
    after: Seq<Option<Seq<u8>>>,
) -> bool {
    &&& after.len() == before.len() + 1
    &&& after.drop_last() == before
    &&& after.last() matches Some(random) && random.len() == 16 && uuid == marked(random)
}

/// Draws an identifier.
pub fn random_uuid_v4_bytes(draws: &mut Draws) -> (r: Result<[u8; 16], VncError>)
    ensures
        match r {
            Ok(uuid) => is_random_uuid(uuid@) && uuid_drawn(
                old(draws).drawn@,
                uuid@,
                final(draws).drawn@,
            ),
            Err(e) => chance_failed(e) && final(draws).drawn@ == old(draws).drawn@.push(None),
        },
{
    let random: [u8; 16] = random_bytes::<16>(draws)?;
    assert(draws.drawn@.drop_last() =~= old(draws).drawn@);
    Ok(marked_uuid(random))
}

/// The network time of this time of the system.
pub open spec fn ntp_time_of(seconds: u64, nanos: u32) -> Result<u64, VncError> {
    let since = seconds + NTP_UNIX_EPOCH_OFFSET_SECONDS;
    if since > u64::MAX {
        Err(VncError::Text("NTP 秒数溢出"))
    } else if since > u32::MAX {
        Err(VncError::Text("NTP era 0 秒数已耗尽"))
    } else {
        Ok((since * 0x1_0000_0000 + nanos as int * 0x1_0000_0000 / 1_000_000_000) as u64)
    }
}

/// The network time of this time of the system.
pub fn ntp_time(seconds: u64, nanos: u32) -> (r: Result<u64, VncError>)
    requires
        nanos < 1_000_000_000,
    ensures
        r == ntp_time_of(seconds, nanos),
{
    let since: u64 = match seconds.checked_add(NTP_UNIX_EPOCH_OFFSET_SECONDS) {
        Some(since) => since,
        None => {
            return Err(VncError::Text("NTP 秒数溢出"));
        },
    };
    if since > 0xffff_ffff {
        return Err(VncError::Text("NTP era 0 秒数已耗尽"));
    }
    let fraction: u64 = nanos as u64 * 0x1_0000_0000 / 1_000_000_000;
    Ok(since * 0x1_0000_0000 + fraction)
}

/// Whether this is the failure to tell the network time.
pub open spec fn time_failed(e: VncError) -> bool {
    ||| e == VncError::Text("系统时间早于 Unix epoch")
    ||| e == VncError::Text("NTP 秒数溢出")
    ||| e == VncError::Text("NTP era 0 秒数已耗尽")
}

/// Tells the network time.
pub fn current_ntp_time() -> (r: Result<u64, VncError>)
    ensures
        match r {
            Ok(time) => exists|seconds: u64, nanos: u32|
                nanos < 1_000_000_000 && #[trigger] ntp_time_of(seconds, nanos) == Ok::<
                    u64,
                    VncError,
                >(time),
            Err(e) => time_failed(e),
        },
{
    let elapsed = match system_time() {
        Ok(elapsed) => elapsed,
        Err(_) => {
            return Err(VncError::Text("系统时间早于 Unix epoch"));
        },
    };
    ntp_time(elapsed.as_secs(), elapsed.subsec_nanos())
}

/// An offer.
#[derive(Clone, Debug, PartialEq, Eq)]
pub struct MediaNegotiatorOffer {
    pub mode: MediaNegotiatorMode,
    pub local_ssrc: u32,
    pub bytes: Vec<u8>,
    pub compressed_media_blob: Vec<u8>,
}

/// The list that carries an offer.
pub open spec fn offer_bytes(mode: MediaNegotiatorMode, compressed: Seq<u8>, uuid: Seq<u8>) -> Seq<u8> {
    offer_list::list_bytes(
        offer_list::offer_objects(
            mode,
            compressed,
            crate::protobuf::message(crate::media_offer::endpoint_fields()),
            vstd::utf8::encode_utf8(offer_list::uuid_chars(uuid, 16)),
        ),
    )
}

/// Puts a compressed message into an offer for the call with this identifier.
pub fn assemble_offer(
    mode: MediaNegotiatorMode,
    local_ssrc: u32,
    compressed: Vec<u8>,
    uuid: &[u8; 16],
) -> (r: Result<MediaNegotiatorOffer, VncError>)
    ensures
        match r {
            Ok(offer) => {
                &&& offer.mode == mode
                &&& offer.local_ssrc == local_ssrc
                &&& offer.compressed_media_blob == compressed
                &&& offer.bytes@ == offer_bytes(mode, compressed@, uuid@)
                &&& offer.bytes@.len() <= u16::MAX
            },
            Err(e) => {
                &&& e == VncError::Text("AVConference offer 超过 u16 长度")
                &&& offer_bytes(mode, compressed@, uuid@).len() > u16::MAX
            },
        },
{
    let call_id = uuid_text(uuid);
    proof {
        offer_list::lemma_uuid_ascii(uuid@, 16);
    }
    let endpoint = build_remote_endpoint_info();
    let bytes = binary_plist_offer(
        mode,
        compressed.as_slice(),
        endpoint.as_slice(),
        call_id.as_str(),
    )?;
    if bytes.len() > 0xffff {
        return Err(VncError::Text("AVConference offer 超过 u16 长度"));
    }
    Ok(MediaNegotiatorOffer { mode, local_ssrc, bytes, compressed_media_blob: compressed })
}

/// The message of an offer that is made at this time.
pub open spec fn offered_message(mode: MediaNegotiatorMode, local_ssrc: u32, time: u64) -> Seq<u8> {
    crate::protobuf::message(crate::media_offer::offer_fields(mode, local_ssrc, time))
}

/// The compressed message of an offer that is made at this time, where it can be compressed.
pub open spec fn deflated_message(mode: MediaNegotiatorMode, local_ssrc: u32, time: u64) -> Option<
    Seq<u8>,
> {
    zlib_deflated(offered_message(mode, local_ssrc, time))
}

/// Whether an offer that is made at this time for the call with this identifier is too long.
pub open spec fn is_too_long(
    mode: MediaNegotiatorMode,
    local_ssrc: u32,
    time: u64,
    uuid: Seq<u8>,
) -> bool {
    deflated_message(mode, local_ssrc, time) matches Some(compressed) && offer_bytes(
        mode,
        compressed,
        uuid,
    ).len() > u16::MAX
}

/// Whether this is the failure to make an offer: that of the time, that of chance, or that of an
/// offer that cannot be compressed or is too long.
pub open spec fn offer_failed(e: VncError, mode: MediaNegotiatorMode, local_ssrc: u32) -> bool {
    ||| time_failed(e)
    ||| chance_failed(e)
    ||| e == VncError::Text("压缩 AVConference offer protobuf 失败") && exists|time: u64|
        #[trigger] deflated_message(mode, local_ssrc, time) is None
    ||| e == VncError::Text("AVConference offer 超过 u16 长度") && exists|time: u64, uuid: Seq<u8>|
        #[trigger] is_too_long(mode, local_ssrc, time, uuid)
}

/// Whether this is an offer of the mode for the stream, made at this time for the call with this
/// identifier.
pub open spec fn offers(
    offer: MediaNegotiatorOffer,
    mode: MediaNegotiatorMode,
    local_ssrc: u32,
    time: u64,
    uuid: Seq<u8>,
) -> bool {
    &&& offer.mode == mode
    &&& offer.local_ssrc == local_ssrc
    &&& deflated_message(mode, local_ssrc, time) == Some(offer.compressed_media_blob@)
    &&& offered_message(mode, local_ssrc, time).len() <= MAX_DECOMPRESSED_NEGOTIATION_BLOB_LEN
        ==> restored(
        zlib_inflated(offer.compressed_media_blob@, 0x10_0001),
        offer.compressed_media_blob@,
        offered_message(mode, local_ssrc, time),
    )
    &&& is_random_uuid(uuid)
    &&& offer.bytes@ == offer_bytes(mode, offer.compressed_media_blob@, uuid)
    &&& offer.bytes@.len() <= u16::MAX
}

/// Whether this is an offer of the mode for the stream, made at some time for the call whose
/// identifier was drawn.
pub open spec fn offer_drawn(
    before: Seq<Option<Seq<u8>>>,
    offer: MediaNegotiatorOffer,
    mode: MediaNegotiatorMode,
    local_ssrc: u32,
    after: Seq<Option<Seq<u8>>>,
) -> bool {
    exists|time: u64, uuid: Seq<u8>|
        uuid_drawn(before, uuid, after) && #[trigger] offers(offer, mode, local_ssrc, time, uuid)
}

/// Makes an offer for a new call, whose identifier it draws.
pub fn draw_offer(mode: MediaNegotiatorMode, local_ssrc: u32, draws: &mut Draws) -> (r: Result<
    MediaNegotiatorOffer,
    VncError,
>)
    ensures
        local_ssrc == 0 ==> r == Err::<MediaNegotiatorOffer, VncError>(
            VncError::Text("媒体 offer 的本地 SSRC 不能为零"),
        ),
        local_ssrc != 0 ==> match r {
            Ok(offer) => offer_drawn(
                old(draws).drawn@,
                offer,
                mode,
                local_ssrc,
                final(draws).drawn@,
            ),
            Err(e) => offer_failed(e, mode, local_ssrc),
        },
        draws_extend(final(draws).drawn@, old(draws).drawn@),
{
    let ghost before = draws.drawn@;
    assert(before.take(before.len() as int) =~= before);
    if local_ssrc == 0 {
        return Err(VncError::Text("媒体 offer 的本地 SSRC 不能为零"));
    }
    let time: u64 = current_ntp_time()?;
    let protobuf = build_viceroy_offer_blob(mode, local_ssrc, time);
    let compressed = match deflate(protobuf.as_slice()) {
        Ok(compressed) => compressed,
        Err(_) => {
            assert(deflated_message(mode, local_ssrc, time) is None);
            return Err(VncError::Text("压缩 AVConference offer protobuf 失败"));
        },
    };
    let drawn = random_uuid_v4_bytes(draws);
    assert(draws.drawn@.take(before.len() as int) =~= before);
    let uuid = drawn?;
    let ghost whole = compressed@;
    assert(deflated_message(mode, local_ssrc, time) == Some(whole));
    assert(is_too_long(mode, local_ssrc, time, uuid@) == (offer_bytes(mode, whole, uuid@).len()
        > u16::MAX));
    let offer = assemble_offer(mode, local_ssrc, compressed, &uuid)?;
    assert(offers(offer, mode, local_ssrc, time, uuid@));
    Ok(offer)
}

/// Makes an offer for a new call.
pub fn build_media_negotiator_offer(mode: MediaNegotiatorMode, local_ssrc: u32) -> (r: Result<
    MediaNegotiatorOffer,
    VncError,
>)
    ensures
        local_ssrc == 0 ==> r == Err::<MediaNegotiatorOffer, VncError>(
            VncError::Text("媒体 offer 的本地 SSRC 不能为零"),
        ),
        local_ssrc != 0 ==> match r {
            Ok(offer) => exists|time: u64, uuid: Seq<u8>|
                #[trigger] offers(offer, mode, local_ssrc, time, uuid),
            Err(e) => offer_failed(e, mode, local_ssrc),
        },
{
    let mut draws = Draws::new();
    draw_offer(mode, local_ssrc, &mut draws)
}

/// The key material of one direction.
#[derive(Clone, Debug, PartialEq, Eq)]
pub struct SrtpMasterMaterial {
    pub master_key: [u8; 32],
    pub master_salt: [u8; 14],
}

/// Whether no key material came of these draws: chance gave no key, or no salt behind a key.
pub open spec fn no_material_drawn(
    before: Seq<Option<Seq<u8>>>,
    after: Seq<Option<Seq<u8>>>,
) -> bool {
    ||| after == before.push(None)
    ||| exists|key: Seq<u8>| key.len() == 32 && after == #[trigger] before.push(Some(key)).push(None)
}

impl SrtpMasterMaterial {
    /// The draws that it comes of: one for the key, and then one for the salt.
    pub open spec fn draws(self) -> Seq<Option<Seq<u8>>> {
        seq![Some(self.master_key@), Some(self.master_salt@)]
    }

    /// Draws key material.
    pub fn generate(draws: &mut Draws) -> (r: Result<Self, VncError>)
        ensures
            match r {
                Ok(material) => final(draws).drawn@ == old(draws).drawn@ + material.draws(),
                Err(e) => chance_failed(e) && no_material_drawn(
                    old(draws).drawn@,
                    final(draws).drawn@,
                ),
            },
    {
        let ghost before = draws.drawn@;
        let master_key: [u8; 32] = random_bytes::<32>(draws)?;
        assert(draws.drawn@ == before.push(Some(master_key@)));
        let master_salt: [u8; 14] = random_bytes::<14>(draws)?;
        let material = SrtpMasterMaterial { master_key, master_salt };
        assert(draws.drawn@ =~= before + material.draws());
        Ok(material)
    }
}

/// Where audio flows.
#[derive(Clone, Copy, Debug, PartialEq, Eq, Structural)]
pub enum AudioMediaFlow {
    MacToPc,
    PcToMac,
}

/// The mode of an audio flow.
pub open spec fn flow_mode(flow: AudioMediaFlow) -> MediaNegotiatorMode {
    match flow {
        AudioMediaFlow::MacToPc => MediaNegotiatorMode::Audio,
        AudioMediaFlow::PcToMac => MediaNegotiatorMode::RemoteMicrophone,
    }
}

/// Whether this is the failure to make an entry for this mode.
pub open spec fn entry_failed(e: VncError, mode: MediaNegotiatorMode) -> bool {
    chance_failed(e) || exists|ssrc: u32| ssrc != 0 && #[trigger] offer_failed(e, mode, ssrc)
}

/// The key material and the offer of a stream.
#[derive(Clone, Debug, PartialEq, Eq)]
pub struct MediaStreamConfigurationEntry {
    pub viewer_to_server: SrtpMasterMaterial,
    pub server_to_viewer: SrtpMasterMaterial,
    pub offer: MediaNegotiatorOffer,
}

impl MediaStreamConfigurationEntry {
    /// Whether the entry is for this mode.
    pub open spec fn is_for(self, mode: MediaNegotiatorMode) -> bool {
        &&& self.offer.local_ssrc != 0
        &&& exists|time: u64, uuid: Seq<u8>|
            #[trigger] offers(self.offer, mode, self.offer.local_ssrc, time, uuid)
    }

    /// Whether the entry is for this mode and comes of these draws. Each direction has draws of
    /// its own for its key material, and behind them come those of the stream number and of the
    /// identifier of the call.
    pub open spec fn is_drawn(
        self,
        before: Seq<Option<Seq<u8>>>,
        mode: MediaNegotiatorMode,
        after: Seq<Option<Seq<u8>>>,
    ) -> bool {
        exists|numbered: Seq<Option<Seq<u8>>>|
            {
                &&& #[trigger] ssrc_drawn(
                    before + self.viewer_to_server.draws() + self.server_to_viewer.draws(),
                    self.offer.local_ssrc,
                    numbered,
                )
                &&& offer_drawn(numbered, self.offer, mode, self.offer.local_ssrc, after)
            }
    }

    /// Draws key material and a stream number, and makes an offer.
    pub fn generate(mode: MediaNegotiatorMode, draws: &mut Draws) -> (r: Result<Self, VncError>)
        ensures
            match r {
                Ok(entry) => entry.is_for(mode) && entry.is_drawn(
                    old(draws).drawn@,
                    mode,
                    final(draws).drawn@,
                ),
                Err(e) => entry_failed(e, mode),
            },
    {
        let ghost before = draws.drawn@;
        let viewer_to_server = SrtpMasterMaterial::generate(draws)?;
        let server_to_viewer = SrtpMasterMaterial::generate(draws)?;
        assert(draws.drawn@ == before + viewer_to_server.draws() + server_to_viewer.draws());
        let ssrc: u32 = random_nonzero_ssrc(draws)?;
        let ghost numbered = draws.drawn@;
        let offer = draw_offer(mode, ssrc, draws)?;
        let entry = MediaStreamConfigurationEntry { viewer_to_server, server_to_viewer, offer };
        assert(ssrc_drawn(
            before + entry.viewer_to_server.draws() + entry.server_to_viewer.draws(),
            entry.offer.local_ssrc,
            numbered,
        ));
        assert(entry.is_drawn(before, mode, draws.drawn@));
        Ok(entry)
    }

    /// The same for an audio flow.
    pub fn generate_audio(flow: AudioMediaFlow, draws: &mut Draws) -> (r: Result<Self, VncError>)
        ensures
            match r {
                Ok(entry) => entry.is_for(flow_mode(flow)) && entry.is_drawn(
                    old(draws).drawn@,
                    flow_mode(flow),
                    final(draws).drawn@,
                ),
                Err(e) => entry_failed(e, flow_mode(flow)),
            },
    {
        let mode = match flow {
            AudioMediaFlow::MacToPc => MediaNegotiatorMode::Audio,
            AudioMediaFlow::PcToMac => MediaNegotiatorMode::RemoteMicrophone,
        };
        MediaStreamConfigurationEntry::generate(mode, draws)
    }
}

/// Each direction of a stream has key material of its own: no draw serves two of its keys and salts.
pub proof fn law_directions_have_draws_of_their_own(
    entry: MediaStreamConfigurationEntry,
    before: Seq<Option<Seq<u8>>>,
    mode: MediaNegotiatorMode,
    after: Seq<Option<Seq<u8>>>,
)
    requires
        entry.is_drawn(before, mode, after),
    ensures
        after.len() >= before.len() + 6,
        after.subrange(before.len() as int, before.len() as int + 4) == seq![
            Some(entry.viewer_to_server.master_key@),
            Some(entry.viewer_to_server.master_salt@),
            Some(entry.server_to_viewer.master_key@),
            Some(entry.server_to_viewer.master_salt@),
        ],
{
    let keyed = before + entry.viewer_to_server.draws() + entry.server_to_viewer.draws();
    let numbered = choose|numbered: Seq<Option<Seq<u8>>>|
        #[trigger] ssrc_drawn(keyed, entry.offer.local_ssrc, numbered) && offer_drawn(
            numbered,
            entry.offer,
            mode,
            entry.offer.local_ssrc,
            after,
        );
    assert(after.drop_last() == numbered);
    assert(numbered.take(keyed.len() as int) == keyed);
    let n = before.len() as int;
    assert(after.subrange(n, n + 4) =~= after.drop_last().take(keyed.len() as int).subrange(n, n + 4));
    assert(keyed.subrange(n, n + 4) =~= seq![
        Some(entry.viewer_to_server.master_key@),
        Some(entry.viewer_to_server.master_salt@),
        Some(entry.server_to_viewer.master_key@),
        Some(entry.server_to_viewer.master_salt@),
    ]);
}

/// The streams that a client wants.
#[derive(Clone, Debug, PartialEq, Eq)]
pub struct ClientMediaStreamConfiguration {
    pub session_id: [u8; 16],
    pub audio: MediaStreamConfigurationEntry,
    pub video_stream_1: MediaStreamConfigurationEntry,
    pub video_stream_2: Option<MediaStreamConfigurationEntry>,
}

impl ClientMediaStreamConfiguration {
    /// Whether this is a session with one video stream and this audio flow.
    pub open spec fn is_one_video(self, flow: AudioMediaFlow) -> bool {
        &&& is_random_uuid(self.session_id@)
        &&& self.audio.is_for(flow_mode(flow))
        &&& self.video_stream_1.is_for(MediaNegotiatorMode::Video)
        &&& self.video_stream_2 is None
        &&& exists|named: Seq<Option<Seq<u8>>>, heard: Seq<Option<Seq<u8>>>, seen: Seq<Option<Seq<u8>>>|
            #[trigger] self.is_drawn(flow, named, heard, seen)
    }

    /// Whether the session comes of these draws: one for its identifier, and behind it those of its
    /// audio and then those of its video, so that no draw serves twice.
    pub open spec fn is_drawn(
        self,
        flow: AudioMediaFlow,
        named: Seq<Option<Seq<u8>>>,
        heard: Seq<Option<Seq<u8>>>,
        seen: Seq<Option<Seq<u8>>>,
    ) -> bool {
        &&& uuid_drawn(Seq::empty(), self.session_id@, named)
        &&& self.audio.is_drawn(named, flow_mode(flow), heard)
        &&& self.video_stream_1.is_drawn(heard, MediaNegotiatorMode::Video, seen)
    }

    /// Draws a session with system audio and one video stream.
    pub fn generate_one_video() -> (r: Result<Self, VncError>)
        ensures
            match r {
                Ok(c) => c.is_one_video(AudioMediaFlow::MacToPc),
                Err(e) => entry_failed(e, MediaNegotiatorMode::Audio) || entry_failed(
                    e,
                    MediaNegotiatorMode::Video,
                ),
            },
    {
        ClientMediaStreamConfiguration::generate_one_video_with_audio_flow(AudioMediaFlow::MacToPc)
    }

    /// Draws a session with one video stream.
    pub fn generate_one_video_with_audio_flow(audio_flow: AudioMediaFlow) -> (r: Result<
        Self,
        VncError,
    >)
        ensures
            match r {
                Ok(c) => c.is_one_video(audio_flow),
                Err(e) => entry_failed(e, flow_mode(audio_flow)) || entry_failed(
                    e,
                    MediaNegotiatorMode::Video,
                ),
            },
    {
        let mut draws = Draws::new();
        let session_id = random_uuid_v4_bytes(&mut draws)?;
        let ghost named = draws.drawn@;
        let audio = MediaStreamConfigurationEntry::generate_audio(audio_flow, &mut draws)?;
        let ghost heard = draws.drawn@;
        let video_stream_1 = MediaStreamConfigurationEntry::generate(
            MediaNegotiatorMode::Video,
            &mut draws,
        )?;
        let configuration = ClientMediaStreamConfiguration {
            session_id,
            audio,
            video_stream_1,
            video_stream_2: None,
        };
        assert(configuration.is_drawn(audio_flow, named, heard, draws.drawn@));
        Ok(configuration)
    }
}

/// The bytes of key material.
pub open spec fn material_bytes(m: SrtpMasterMaterial) -> Seq<u8> {
    m.master_key@ + m.master_salt@
}

/// The bytes of an entry.
pub open spec fn entry_bytes(e: MediaStreamConfigurationEntry) -> Seq<u8> {
    material_bytes(e.viewer_to_server) + material_bytes(e.server_to_viewer) + e.offer.bytes@
}

/// The length of the offer of a stream that may be missing.
pub open spec fn optional_offer_len(e: Option<MediaStreamConfigurationEntry>) -> nat {
    match e {
        Some(entry) => entry.offer.bytes@.len(),
        None => 0,
    }
}

/// The message behind its length.
pub open spec fn configuration_body(c: ClientMediaStreamConfiguration) -> Seq<u8> {
    let head = crate::wire::be16_bytes(3) + crate::wire::be32_bytes(13) + crate::wire::be16_bytes(
        c.audio.offer.bytes@.len() as u16,
    ) + crate::wire::be16_bytes(c.video_stream_1.offer.bytes@.len() as u16)
        + crate::wire::be16_bytes(optional_offer_len(c.video_stream_2) as u16)
        + crate::wire::be16_bytes(0) + crate::wire::be16_bytes(0) + c.session_id@ + entry_bytes(
        c.audio,
    ) + entry_bytes(c.video_stream_1);
    match c.video_stream_2 {
        Some(entry) => head + entry_bytes(entry),
        None => head,
    }
}

/// Why a configuration cannot be sent, where it cannot.
pub open spec fn configuration_refusal(c: ClientMediaStreamConfiguration) -> Option<VncError> {
    if c.audio.offer.mode == MediaNegotiatorMode::Video {
        Some(VncError::Text("音频角色必须携带 audio negotiator offer"))
    } else if c.video_stream_1.offer.mode != MediaNegotiatorMode::Video {
        Some(VncError::Text("视频流 1 必须携带 video negotiator offer"))
    } else if c.video_stream_2 is Some && (c.video_stream_2->0).offer.mode
        != MediaNegotiatorMode::Video {
        Some(VncError::Text("视频流 2 必须携带 video negotiator offer"))
    } else if c.audio.offer.bytes@.len() > u16::MAX || c.video_stream_1.offer.bytes@.len()
        > u16::MAX || optional_offer_len(c.video_stream_2) > u16::MAX {
        Some(VncError::Text("媒体 offer 超过 u16 长度"))
    } else if configuration_body(c).len() > u16::MAX {
        Some(VncError::Text("媒体配置超过 u16 长度"))
    } else {
        None
    }
}

/// The message that tells a configuration.
pub open spec fn configuration_frame(c: ClientMediaStreamConfiguration) -> Seq<u8> {
    seq![0x1cu8, 0u8] + crate::wire::be16_bytes(configuration_body(c).len() as u16)
        + configuration_body(c)
}

fn append_master_material(material: &SrtpMasterMaterial, destination: &mut Vec<u8>)
    ensures
        final(destination)@ == old(destination)@ + material_bytes(*material),
{
    push_bytes(destination, material.master_key.as_slice());
    push_bytes(destination, material.master_salt.as_slice());
    assert(destination@ =~= old(destination)@ + material_bytes(*material));
}

fn append_configuration_entry(entry: &MediaStreamConfigurationEntry, destination: &mut Vec<u8>)
    ensures
        final(destination)@ == old(destination)@ + entry_bytes(*entry),
{
    append_master_material(&entry.viewer_to_server, destination);
    append_master_material(&entry.server_to_viewer, destination);
    push_bytes(destination, entry.offer.bytes.as_slice());
    assert(destination@ =~= old(destination)@ + entry_bytes(*entry));
}

/// Writes the message that tells a configuration.
pub fn encode_client_media_stream_configuration(
    configuration: &ClientMediaStreamConfiguration,
) -> (r: Result<Vec<u8>, VncError>)
    ensures
        match configuration_refusal(*configuration) {
            Some(e) => r == Err::<Vec<u8>, VncError>(e),
            None => r matches Ok(frame) && frame@ == configuration_frame(*configuration),
        },
{
    if configuration.audio.offer.mode == MediaNegotiatorMode::Video {
        return Err(VncError::Text("音频角色必须携带 audio negotiator offer"));
    }
    if configuration.video_stream_1.offer.mode != MediaNegotiatorMode::Video {
        return Err(VncError::Text("视频流 1 必须携带 video negotiator offer"));
    }
    let second: usize = match &configuration.video_stream_2 {
        Some(entry) => {
            if entry.offer.mode != MediaNegotiatorMode::Video {
                return Err(VncError::Text("视频流 2 必须携带 video negotiator offer"));
            }
            entry.offer.bytes.len()
        },
        None => 0,
    };
    let audio: usize = configuration.audio.offer.bytes.len();
    let first: usize = configuration.video_stream_1.offer.bytes.len();
    if audio > 0xffff || first > 0xffff || second > 0xffff {
        return Err(VncError::Text("媒体 offer 超过 u16 长度"));
    }
    let mut body: Vec<u8> = Vec::new();
    push_be16(&mut body, 3);
    push_be32(&mut body, 13);
    push_be16(&mut body, audio as u16);
    push_be16(&mut body, first as u16);
    push_be16(&mut body, second as u16);
    push_be16(&mut body, 0);
    push_be16(&mut body, 0);
    push_bytes(&mut body, configuration.session_id.as_slice());
    append_configuration_entry(&configuration.audio, &mut body);
    append_configuration_entry(&configuration.video_stream_1, &mut body);
    if let Some(entry) = &configuration.video_stream_2 {
        append_configuration_entry(entry, &mut body);
    }
    assert(body@ =~= configuration_body(*configuration));
    if body.len() > 0xffff {
        return Err(VncError::Text("媒体配置超过 u16 长度"));
    }
    let mut frame: Vec<u8> = Vec::new();
    frame.push(0x1c);
    frame.push(0);
    push_be16(&mut frame, body.len() as u16);
    push_bytes(&mut frame, body.as_slice());
    assert(frame@ =~= configuration_frame(*configuration));
    Ok(frame)
}

/// A message of an answer, as it came and decompressed.
#[derive(Clone, Debug, PartialEq, Eq)]
pub struct CompressedProtobufAnswer {
    pub compressed: Vec<u8>,
    pub decompressed: Vec<u8>,
}

impl View for CompressedProtobufAnswer {
    type V = (Seq<u8>, Seq<u8>);

    open spec fn view(&self) -> (Seq<u8>, Seq<u8>) {
        (self.compressed@, self.decompressed@)
    }
}

/// The message of an answer, where this came of decompressing it.
pub open spec fn inflated_answer(
    compressed: Seq<u8>,
    inflated: Option<(bool, u64, u64, Seq<u8>)>,
    role: &'static str,
) -> Result<(Seq<u8>, Seq<u8>), VncError> {
    match inflated {
        None => Err(VncError::Role { role, after: " answer zlib 解压失败" }),
        Some((finished, total_in, total_out, output)) => if !finished {
            Err(VncError::Role { role, after: " answer zlib 流不完整或超限" })
        } else if total_in != compressed.len() {
            Err(VncError::Role { role, after: " answer zlib 存在尾随成员或字节" })
        } else if total_out > usize::MAX {
            Err(VncError::Text("answer 解压长度超过 usize"))
        } else if total_out > MAX_DECOMPRESSED_NEGOTIATION_BLOB_LEN {
            Err(VncError::Role { role, after: " answer 解压后超过资源预算" })
        } else {
            match crate::protobuf::message_refusal(output.take(total_out as int)) {
                Some(e) => Err(
                    VncError::RoleContext {
                        role,
                        after: " answer protobuf 非法",
                        cause: Box::new(e),
                    },
                ),
                None => Ok((compressed, output.take(total_out as int))),
            }
        },
    }
}

/// Takes the message of an answer from what came of decompressing it.
pub fn accept_inflated(compressed: &[u8], inflated: Option<Inflated>, role: &'static str) -> (r:
    Result<CompressedProtobufAnswer, VncError>)
    requires
        inflated matches Some(i) ==> i.output@.len() > MAX_DECOMPRESSED_NEGOTIATION_BLOB_LEN
            || i.total_out <= i.output@.len(),
    ensures
        crate::error::viewed(r) == inflated_answer(
            compressed@,
            match inflated {
                Some(i) => Some(i@),
                None => None,
            },
            role,
        ),
{
    let inflated = match inflated {
        Some(inflated) => inflated,
        None => {
            return Err(VncError::Role { role, after: " answer zlib 解压失败" });
        },
    };
    if !inflated.finished {
        return Err(VncError::Role { role, after: " answer zlib 流不完整或超限" });
    }
    if inflated.total_in != compressed.len() as u64 {
        return Err(VncError::Role { role, after: " answer zlib 存在尾随成员或字节" });
    }
    if inflated.total_out > usize::MAX as u64 {
        return Err(VncError::Text("answer 解压长度超过 usize"));
    }
    let length: usize = inflated.total_out as usize;
    if length > MAX_DECOMPRESSED_NEGOTIATION_BLOB_LEN {
        return Err(VncError::Role { role, after: " answer 解压后超过资源预算" });
    }
    let decompressed = owned_bytes(
        vstd::slice::slice_subrange(inflated.output.as_slice(), 0, length),
    );
    assert(decompressed@ =~= inflated.output@.take(length as int));
    role_context(
        validate_protobuf(decompressed.as_slice()),
        role,
        " answer protobuf 非法",
    )?;
    Ok(CompressedProtobufAnswer { compressed: owned_bytes(compressed), decompressed })
}

/// The message of an answer.
pub open spec fn compressed_answer(compressed: Seq<u8>, role: &'static str) -> Result<
    (Seq<u8>, Seq<u8>),
    VncError,
> {
    if compressed.len() == 0 {
        Err(VncError::Role { role, after: " answer 为空" })
    } else if compressed.len() > MAX_COMPRESSED_NEGOTIATION_BLOB_LEN {
        Err(VncError::Role { role, after: " answer 压缩数据超过资源预算" })
    } else {
        inflated_answer(compressed, zlib_inflated(compressed, 0x10_0001), role)
    }
}

/// Decompresses the message of an answer.
pub fn parse_compressed_answer(compressed: &[u8], role: &'static str) -> (r: Result<
    CompressedProtobufAnswer,
    VncError,
>)
    ensures
        crate::error::viewed(r) == compressed_answer(compressed@, role),
{
    if compressed.len() == 0 {
        return Err(VncError::Role { role, after: " answer 为空" });
    }
    if compressed.len() > MAX_COMPRESSED_NEGOTIATION_BLOB_LEN {
        return Err(VncError::Role { role, after: " answer 压缩数据超过资源预算" });
    }
    let inflated = match inflate(compressed, 0x10_0001) {
        Ok(inflated) => Some(inflated),
        Err(_) => None,
    };
    accept_inflated(compressed, inflated, role)
}

/// The message of an offer is read back by whoever reads the messages of answers.
pub proof fn law_offered_message_is_read_back(
    offer: MediaNegotiatorOffer,
    mode: MediaNegotiatorMode,
    local_ssrc: u32,
    time: u64,
    uuid: Seq<u8>,
    role: &'static str,
)
    requires
        offers(offer, mode, local_ssrc, time, uuid),
        offer.compressed_media_blob@.len() <= MAX_COMPRESSED_NEGOTIATION_BLOB_LEN,
        offered_message(mode, local_ssrc, time).len() <= MAX_DECOMPRESSED_NEGOTIATION_BLOB_LEN,
    ensures
        compressed_answer(offer.compressed_media_blob@, role) == Ok::<
            (Seq<u8>, Seq<u8>),
            VncError,
        >((offer.compressed_media_blob@, offered_message(mode, local_ssrc, time))),
{
    crate::media_offer::law_offer_is_a_message(mode, local_ssrc, time);
}

/// The value of the first entry from the `i`-th on that has this key.
pub open spec fn value_from(entries: Seq<(Seq<u8>, Seq<u8>)>, key: Seq<u8>, i: int) -> Option<
    Seq<u8>,
>
    decreases entries.len() - i,
{
    if i >= entries.len() {
        None
    } else if entries[i].0 == key {
        Some(entries[i].1)
    } else {
        value_from(entries, key, i + 1)
    }
}

/// Whether every entry has one of the keys that an answer may have.
pub open spec fn only_known_keys(entries: Seq<(Seq<u8>, Seq<u8>)>) -> bool {
    forall|i: int|
        0 <= i < entries.len() ==> (#[trigger] entries[i]).0
            == MEDIA_STREAM_REMOTE_ENDPOINT_INFO_KEY.spec_bytes() || entries[i].0
            == MEDIA_NEGOTIATOR_MEDIA_BLOB_KEY.spec_bytes()
}

fn find_value<'b>(entries: &'b Vec<PlistEntry>, key: &[u8]) -> (r: Option<&'b [u8]>)
    ensures
        match value_from(binary_plist::entries_view(entries@), key@, 0) {
            Some(value) => r matches Some(v) && v@ == value,
            None => r is None,
        },
{
    let ghost all = binary_plist::entries_view(entries@);
    let mut i: usize = 0;
    while i < entries.len()
        invariant
            i <= entries@.len(),
            all == binary_plist::entries_view(entries@),
            value_from(all, key@, 0) == value_from(all, key@, i as int),
        decreases entries@.len() - i,
    {
        if same_bytes(entries[i].key.as_slice(), key) {
            return Some(entries[i].value.as_slice());
        }
        i = i + 1;
    }
    None
}

fn holds_only_known_keys(entries: &Vec<PlistEntry>) -> (r: bool)
    ensures
        r == only_known_keys(binary_plist::entries_view(entries@)),
{
    let ghost all = binary_plist::entries_view(entries@);
    let endpoint = MEDIA_STREAM_REMOTE_ENDPOINT_INFO_KEY.as_bytes();
    let blob = MEDIA_NEGOTIATOR_MEDIA_BLOB_KEY.as_bytes();
    let mut i: usize = 0;
    while i < entries.len()
        invariant
            i <= entries@.len(),
            all == binary_plist::entries_view(entries@),
            endpoint@ == MEDIA_STREAM_REMOTE_ENDPOINT_INFO_KEY.spec_bytes(),
            blob@ == MEDIA_NEGOTIATOR_MEDIA_BLOB_KEY.spec_bytes(),
            forall|k: int|
                0 <= k < i ==> (#[trigger] all[k]).0 == endpoint@ || all[k].0 == blob@,
        decreases entries@.len() - i,
    {
        let key = entries[i].key.as_slice();
        if !same_bytes(key, endpoint) && !same_bytes(key, blob) {
            assert(all[i as int].0 != endpoint@ && all[i as int].0 != blob@);
            return false;
        }
        i = i + 1;
    }
    true
}

/// The dictionary that a list holds.
pub open spec fn container_entries(container: Seq<u8>, role: &'static str) -> Result<
    Seq<(Seq<u8>, Seq<u8>)>,
    VncError,
> {
    match crate::error::in_role(
        binary_plist::plist_of(container),
        role,
        " answer plist 非法",
    ) {
        Err(e) => Err(e),
        Ok(list) => crate::error::in_role(
            binary_plist::dictionary_of(container, list),
            role,
            " answer plist 根对象非法",
        ),
    }
}

/// The answer for a stream.
pub open spec fn container_answer(container: Seq<u8>, role: &'static str) -> Result<
    (Seq<u8>, Seq<u8>),
    VncError,
> {
    if container.len() > MAX_COMPRESSED_NEGOTIATION_BLOB_LEN {
        Err(VncError::Role { role, after: " answer plist 超过资源预算" })
    } else {
        match container_entries(container, role) {
            Err(e) => Err(e),
            Ok(entries) => {
                let endpoint = value_from(
                    entries,
                    MEDIA_STREAM_REMOTE_ENDPOINT_INFO_KEY.spec_bytes(),
                    0,
                );
                match value_from(entries, MEDIA_NEGOTIATOR_MEDIA_BLOB_KEY.spec_bytes(), 0) {
                    None => Err(VncError::Role { role, after: " answer 缺少 media blob" }),
                    Some(blob) => if !only_known_keys(entries) {
                        Err(VncError::Role { role, after: " answer plist 包含未知键" })
                    } else if endpoint is Some && crate::protobuf::message_refusal(endpoint->0) is Some {
                        Err(
                            VncError::RoleContext {
                                role,
                                after: " answer remote endpoint protobuf 非法",
                                cause: Box::new(crate::protobuf::message_refusal(endpoint->0)->0),
                            },
                        )
                    } else {
                        compressed_answer(blob, role)
                    },
                }
            },
        }
    }
}

/// Reads the answer for a stream.
pub fn parse_avconference_answer_container(container: &[u8], role: &'static str) -> (r: Result<
    CompressedProtobufAnswer,
    VncError,
>)
    ensures
        crate::error::viewed(r) == container_answer(container@, role),
{
    if container.len() > MAX_COMPRESSED_NEGOTIATION_BLOB_LEN {
        return Err(VncError::Role { role, after: " answer plist 超过资源预算" });
    }
    let reader = role_context(BinaryPlistReader::new(container), role, " answer plist 非法")?;
    let entries = role_context(
        reader.root_data_dictionary(),
        role,
        " answer plist 根对象非法",
    )?;
    let endpoint = find_value(&entries, MEDIA_STREAM_REMOTE_ENDPOINT_INFO_KEY.as_bytes());
    let compressed = match find_value(&entries, MEDIA_NEGOTIATOR_MEDIA_BLOB_KEY.as_bytes()) {
        Some(compressed) => compressed,
        None => {
            return Err(VncError::Role { role, after: " answer 缺少 media blob" });
        },
    };
    if !holds_only_known_keys(&entries) {
        return Err(VncError::Role { role, after: " answer plist 包含未知键" });
    }
    if let Some(endpoint) = endpoint {
        role_context(
            validate_protobuf(endpoint),
            role,
            " answer remote endpoint protobuf 非法",
        )?;
    }
    parse_compressed_answer(compressed, role)
}

/// What the server answers.
#[derive(Clone, Debug, PartialEq, Eq)]
pub struct MediaStreamAnswer {
    pub stream_1_supports_60_fps: bool,
    pub stream_2_supports_60_fps: bool,
    pub audio: CompressedProtobufAnswer,
    pub video_stream_1: CompressedProtobufAnswer,
    pub video_stream_2: Option<CompressedProtobufAnswer>,
}

/// What an answer holds.
#[verifier::ext_equal]
pub struct AnswerView {
    pub stream_1_supports_60_fps: bool,
    pub stream_2_supports_60_fps: bool,
    pub audio: (Seq<u8>, Seq<u8>),
    pub video_stream_1: (Seq<u8>, Seq<u8>),
    pub video_stream_2: Option<(Seq<u8>, Seq<u8>)>,
}

impl View for MediaStreamAnswer {
    type V = AnswerView;

    open spec fn view(&self) -> AnswerView {
        AnswerView {
            stream_1_supports_60_fps: self.stream_1_supports_60_fps,
            stream_2_supports_60_fps: self.stream_2_supports_60_fps,
            audio: self.audio@,
            video_stream_1: self.video_stream_1@,
            video_stream_2: match self.video_stream_2 {
                Some(answer) => Some(answer@),
                None => None,
            },
        }
    }
}

/// Why the head of an answer is refused, where it is.
pub open spec fn answer_head_refusal(frame: Seq<u8>) -> Option<VncError> {
    if frame.len() < 36 {
        Some(VncError::Text("MediaStream Message 2 头截断"))
    } else if crate::wire::be32(frame, 0) != PRIMARY_MEDIA_STREAM_ID {
        Some(VncError::Text("MediaStream Message 2 的媒体流 ID 非法"))
    } else if !crate::wire_cursor::all_zero(frame.subrange(4, 12)) {
        Some(VncError::Text("MediaStream Message 2 必须使用零矩形"))
    } else if crate::wire::be32(frame, 12) != MEDIA_STREAM_CONTROL_ENCODING {
        Some(VncError::Text("不是 MediaStream Message 2 编码"))
    } else if frame.len() - 18 != crate::wire::be16(frame, 16) {
        Some(VncError::Text("MediaStream Message 2 实际长度与声明不一致"))
    } else if crate::wire::be16(frame, 18) != MEDIA_STREAM_ANSWER_VERSION {
        Some(VncError::Text("MediaStream Message 2 版本不支持"))
    } else if crate::wire::be16(frame, 20) != MEDIA_STREAM_ANSWER_KIND {
        Some(VncError::Text("媒体流控制消息不是 Message 2 answer"))
    } else if crate::wire::be32(frame, 22) > 3 {
        Some(VncError::Text("MediaStream Message 2 包含未知标志"))
    } else if crate::wire::be16(frame, 26) == 0 || crate::wire::be16(frame, 28) == 0 {
        Some(VncError::Text("audio 和 video stream 1 answer 不能为空"))
    } else if !crate::wire_cursor::all_zero(frame.subrange(32, 36)) {
        Some(VncError::Text("MediaStream Message 2 保留区必须为零"))
    } else if frame.len() - 36 != crate::wire::be16(frame, 26) + crate::wire::be16(frame, 28)
        + crate::wire::be16(frame, 30) {
        Some(VncError::Text("MediaStream Message 2 answer 长度与剩余载荷不一致"))
    } else {
        None
    }
}

/// What the server answers.
pub open spec fn answer_of(frame: Seq<u8>) -> Result<AnswerView, VncError> {
    let flags = crate::wire::be32(frame, 22);
    let first = 36 + crate::wire::be16(frame, 26);
    let second = first + crate::wire::be16(frame, 28);
    let third = second + crate::wire::be16(frame, 30);
    if answer_head_refusal(frame) is Some {
        Err(answer_head_refusal(frame)->0)
    } else {
        match container_answer(frame.subrange(36, first), "audio") {
            Err(e) => Err(e),
            Ok(audio) => match container_answer(frame.subrange(first, second), "video stream 1") {
                Err(e) => Err(e),
                Ok(video_stream_1) => {
                    let rest = container_answer(frame.subrange(second, third), "video stream 2");
                    if third > second && rest is Err {
                        Err(rest->Err_0)
                    } else {
                        Ok(
                            AnswerView {
                                stream_1_supports_60_fps: flags % 2 == 1,
                                stream_2_supports_60_fps: flags / 2 == 1,
                                audio,
                                video_stream_1,
                                video_stream_2: if third > second {
                                    Some(rest->Ok_0)
                                } else {
                                    None
                                },
                            },
                        )
                    }
                },
            },
        }
    }
}

fn validate_answer_head(frame: &[u8]) -> (r: Result<(), VncError>)
    ensures
        r == crate::error::checked(answer_head_refusal(frame@)),
{
    if frame.len() < 36 {
        return Err(VncError::Text("MediaStream Message 2 头截断"));
    }
    if read_be32(frame, 0) != PRIMARY_MEDIA_STREAM_ID {
        return Err(VncError::Text("MediaStream Message 2 的媒体流 ID 非法"));
    }
    if !is_all_zero(vstd::slice::slice_subrange(frame, 4, 12)) {
        return Err(VncError::Text("MediaStream Message 2 必须使用零矩形"));
    }
    if read_be32(frame, 12) != MEDIA_STREAM_CONTROL_ENCODING as u32 {
        return Err(VncError::Text("不是 MediaStream Message 2 编码"));
    }
    if frame.len() - 18 != read_be16(frame, 16) as usize {
        return Err(VncError::Text("MediaStream Message 2 实际长度与声明不一致"));
    }
    if read_be16(frame, 18) != MEDIA_STREAM_ANSWER_VERSION {
        return Err(VncError::Text("MediaStream Message 2 版本不支持"));
    }
    if read_be16(frame, 20) != MEDIA_STREAM_ANSWER_KIND {
        return Err(VncError::Text("媒体流控制消息不是 Message 2 answer"));
    }
    if read_be32(frame, 22) > 3 {
        return Err(VncError::Text("MediaStream Message 2 包含未知标志"));
    }
    if read_be16(frame, 26) == 0 || read_be16(frame, 28) == 0 {
        return Err(VncError::Text("audio 和 video stream 1 answer 不能为空"));
    }
    if !is_all_zero(vstd::slice::slice_subrange(frame, 32, 36)) {
        return Err(VncError::Text("MediaStream Message 2 保留区必须为零"));
    }
    let total: usize = read_be16(frame, 26) as usize + read_be16(frame, 28) as usize + read_be16(
        frame,
        30,
    ) as usize;
    if frame.len() - 36 != total {
        return Err(VncError::Text("MediaStream Message 2 answer 长度与剩余载荷不一致"));
    }
    Ok(())
}

/// Reads what the server answers.
pub fn parse_media_stream_answer(frame: &[u8]) -> (r: Result<MediaStreamAnswer, VncError>)
    ensures
        crate::error::viewed(r) == answer_of(frame@),
{
    validate_answer_head(frame)?;
    let flags: u32 = read_be32(frame, 22);
    let first: usize = 36 + read_be16(frame, 26) as usize;
    let second: usize = first + read_be16(frame, 28) as usize;
    let third: usize = second + read_be16(frame, 30) as usize;
    let audio = parse_avconference_answer_container(
        vstd::slice::slice_subrange(frame, 36, first),
        "audio",
    )?;
    let video_stream_1 = parse_avconference_answer_container(
        vstd::slice::slice_subrange(frame, first, second),
        "video stream 1",
    )?;
    let video_stream_2 = if third == second {
        None
    } else {
        Some(
            parse_avconference_answer_container(
                vstd::slice::slice_subrange(frame, second, third),
                "video stream 2",
            )?,
        )
    };
    Ok(
        MediaStreamAnswer {
            stream_1_supports_60_fps: flags % 2 == 1,
            stream_2_supports_60_fps: flags / 2 == 1,
            audio,
            video_stream_1,
            video_stream_2,
        },
    )
}

/// The key material and the offer that a reader cuts out of a message at a place: 32 bytes of key and
/// 14 of salt for each direction, the client's first, and so many bytes of offer.
pub open spec fn entry_read(frame: Seq<u8>, at: int, offer: int) -> (
    Seq<u8>,
    Seq<u8>,
    Seq<u8>,
    Seq<u8>,
    Seq<u8>,
) {
    (
        frame.subrange(at, at + 32),
        frame.subrange(at + 32, at + 46),
        frame.subrange(at + 46, at + 78),
        frame.subrange(at + 78, at + 92),
        frame.subrange(at + 92, at + 92 + offer),
    )
}

/// What an entry tells.
pub open spec fn entry_told(e: MediaStreamConfigurationEntry) -> (
    Seq<u8>,
    Seq<u8>,
    Seq<u8>,
    Seq<u8>,
    Seq<u8>,
) {
    (
        e.viewer_to_server.master_key@,
        e.viewer_to_server.master_salt@,
        e.server_to_viewer.master_key@,
        e.server_to_viewer.master_salt@,
        e.offer.bytes@,
    )
}

proof fn lemma_entry_read(
    frame: Seq<u8>,
    front: Seq<u8>,
    e: MediaStreamConfigurationEntry,
    back: Seq<u8>,
)
    requires
        frame == front + entry_bytes(e) + back,
    ensures
        entry_read(frame, front.len() as int, e.offer.bytes@.len() as int) == entry_told(e),
        entry_bytes(e).len() == 92 + e.offer.bytes@.len(),
{
    let at = front.len() as int;
    let n = e.offer.bytes@.len() as int;
    assert(frame.subrange(at, at + 32) =~= e.viewer_to_server.master_key@);
    assert(frame.subrange(at + 32, at + 46) =~= e.viewer_to_server.master_salt@);
    assert(frame.subrange(at + 46, at + 78) =~= e.server_to_viewer.master_key@);
    assert(frame.subrange(at + 78, at + 92) =~= e.server_to_viewer.master_salt@);
    assert(frame.subrange(at + 92, at + 92 + n) =~= e.offer.bytes@);
}

spec fn configuration_head(length: u16, audio: u16, first: u16, second: u16, id: Seq<u8>) -> Seq<u8> {
    seq![0x1cu8, 0u8] + crate::wire::be16_bytes(length) + crate::wire::be16_bytes(3)
        + crate::wire::be32_bytes(13) + crate::wire::be16_bytes(audio) + crate::wire::be16_bytes(
        first,
    ) + crate::wire::be16_bytes(second) + crate::wire::be16_bytes(0) + crate::wire::be16_bytes(0)
        + id
}

proof fn lemma_configuration_head(
    frame: Seq<u8>,
    length: u16,
    audio: u16,
    first: u16,
    second: u16,
    id: Seq<u8>,
    rest: Seq<u8>,
)
    requires
        id.len() == 16,
        frame == configuration_head(length, audio, first, second, id) + rest,
    ensures
        frame[0] == 0x1c,
        frame[1] == 0,
        crate::wire::be16(frame, 2) == length,
        crate::wire::be16(frame, 4) == 3,
        crate::wire::be32(frame, 6) == 13,
        crate::wire::be16(frame, 10) == audio,
        crate::wire::be16(frame, 12) == first,
        crate::wire::be16(frame, 14) == second,
        crate::wire::be32(frame, 16) == 0,
        frame.subrange(20, 36) == id,
        configuration_head(length, audio, first, second, id).len() == 36,
{
    assert(frame.subrange(2, 4) =~= crate::wire::be16_bytes(length));
    crate::wire::lemma_be16(frame, 2, length);
    assert(frame.subrange(4, 6) =~= crate::wire::be16_bytes(3));
    crate::wire::lemma_be16(frame, 4, 3);
    assert(frame.subrange(6, 10) =~= crate::wire::be32_bytes(13));
    crate::wire::lemma_be32(frame, 6, 13);
    assert(frame.subrange(10, 12) =~= crate::wire::be16_bytes(audio));
    crate::wire::lemma_be16(frame, 10, audio);
    assert(frame.subrange(12, 14) =~= crate::wire::be16_bytes(first));
    crate::wire::lemma_be16(frame, 12, first);
    assert(frame.subrange(14, 16) =~= crate::wire::be16_bytes(second));
    crate::wire::lemma_be16(frame, 14, second);
    assert(frame.subrange(16, 18) =~= crate::wire::be16_bytes(0));
    crate::wire::lemma_be16(frame, 16, 0);
    assert(frame.subrange(18, 20) =~= crate::wire::be16_bytes(0));
    crate::wire::lemma_be16(frame, 18, 0);
    assert(frame.subrange(20, 36) =~= id);
}

spec fn last_entry(c: ClientMediaStreamConfiguration) -> Seq<u8> {
    match c.video_stream_2 {
        Some(entry) => entry_bytes(entry),
        None => Seq::empty(),
    }
}

proof fn lemma_configuration_parts(c: ClientMediaStreamConfiguration)
    requires
        configuration_refusal(c) is None,
    ensures
        configuration_frame(c) == configuration_head(
            configuration_body(c).len() as u16,
            c.audio.offer.bytes@.len() as u16,
            c.video_stream_1.offer.bytes@.len() as u16,
            optional_offer_len(c.video_stream_2) as u16,
            c.session_id@,
        ) + (entry_bytes(c.audio) + (entry_bytes(c.video_stream_1) + last_entry(c))),
        configuration_frame(c).len() == configuration_body(c).len() + 4,
{
    let head = configuration_head(
        configuration_body(c).len() as u16,
        c.audio.offer.bytes@.len() as u16,
        c.video_stream_1.offer.bytes@.len() as u16,
        optional_offer_len(c.video_stream_2) as u16,
        c.session_id@,
    );
    assert(configuration_frame(c) =~= head + (entry_bytes(c.audio) + (entry_bytes(c.video_stream_1)
        + last_entry(c))));
}

/// A configuration is read back: a reader that takes the length of the message, its version and its
/// kind, the three lengths of offers in their order and the identifier of the session, and cuts the
/// entries behind it by those lengths, gets the key material and the offer of the audio, of the
/// first video and, where there is one, of the second, and nothing is left.
pub proof fn law_configuration_is_read_back(c: ClientMediaStreamConfiguration)
    requires
        configuration_refusal(c) is None,
    ensures
        ({
            let frame = configuration_frame(c);
            let audio = crate::wire::be16(frame, 10) as int;
            let first = crate::wire::be16(frame, 12) as int;
            let second = crate::wire::be16(frame, 14) as int;
            let at = 36 + 92 + audio;
            &&& frame[0] == 0x1c
            &&& frame[1] == 0
            &&& crate::wire::be16(frame, 2) == frame.len() - 4
            &&& crate::wire::be16(frame, 4) == 3
            &&& crate::wire::be32(frame, 6) == 13
            &&& crate::wire::be32(frame, 16) == 0
            &&& frame.subrange(20, 36) == c.session_id@
            &&& entry_read(frame, 36, audio) == entry_told(c.audio)
            &&& entry_read(frame, at, first) == entry_told(c.video_stream_1)
            &&& match c.video_stream_2 {
                Some(entry) => {
                    &&& entry_read(frame, at + 92 + first, second) == entry_told(entry)
                    &&& frame.len() == at + 92 + first + 92 + second
                },
                None => second == 0 && frame.len() == at + 92 + first,
            }
        }),
{
    let frame = configuration_frame(c);
    let audio = c.audio.offer.bytes@.len() as u16;
    let first = c.video_stream_1.offer.bytes@.len() as u16;
    let second = optional_offer_len(c.video_stream_2) as u16;
    let length = configuration_body(c).len() as u16;
    let head = configuration_head(length, audio, first, second, c.session_id@);
    let tail = last_entry(c);
    let rest = entry_bytes(c.audio) + (entry_bytes(c.video_stream_1) + tail);
    lemma_configuration_parts(c);
    lemma_configuration_head(frame, length, audio, first, second, c.session_id@, rest);
    assert(frame =~= head + entry_bytes(c.audio) + (entry_bytes(c.video_stream_1) + tail));
    lemma_entry_read(frame, head, c.audio, entry_bytes(c.video_stream_1) + tail);
    let front = head + entry_bytes(c.audio);
    assert(frame =~= front + entry_bytes(c.video_stream_1) + tail);
    lemma_entry_read(frame, front, c.video_stream_1, tail);
    if let Some(entry) = c.video_stream_2 {
        let before = front + entry_bytes(c.video_stream_1);
        assert(frame =~= before + entry_bytes(entry) + Seq::<u8>::empty());
        lemma_entry_read(frame, before, entry, Seq::empty());
    }
}

/// A configuration is refused only where a stream carries the offer of another kind or where it is
/// too long for its lengths.
pub proof fn law_configurations_are_told(c: ClientMediaStreamConfiguration)
    ensures
        (configuration_refusal(c) is None) == ({
            &&& c.audio.offer.mode != MediaNegotiatorMode::Video
            &&& c.video_stream_1.offer.mode == MediaNegotiatorMode::Video
            &&& c.video_stream_2 matches Some(entry) ==> entry.offer.mode
                == MediaNegotiatorMode::Video
            &&& 32 + 92 + c.audio.offer.bytes@.len() + 92 + c.video_stream_1.offer.bytes@.len()
                + (match c.video_stream_2 {
                Some(entry) => 92 + entry.offer.bytes@.len(),
                None => 0,
            }) <= 0xffff
        }),
{
}

} // verus!
