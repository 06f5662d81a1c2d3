//! The audio of a session: what an access unit is, and which packets are decoded.
//!
//! The stream is raw AAC-ELD at 48 kHz with 480 samples in an access unit and without spectral band
//! replication. What comes from the Mac has two channels, what goes to it has one.

use vstd::prelude::*;
use vstd::string::*;
use crate::error::VncError;
use crate::rtp;
use crate::rtp::{parse_rtp_packet, RtpHeader};
use crate::wire::{push_be16, push_bytes};

verus! {

/// The payload type of audio.
pub const ARD_AUDIO_RTP_PAYLOAD_TYPE: u8 = 101;

pub const ARD_AUDIO_SAMPLE_RATE_HZ: u32 = 48_000;

/// The channels of what comes from the Mac.
pub const ARD_AUDIO_CHANNEL_COUNT: usize = 2;

/// The channels of what goes to the Mac.
pub const ARD_AUDIO_PC_TO_MAC_CHANNEL_COUNT: usize = 1;

/// The samples of a channel in an access unit.
pub const ARD_AUDIO_SAMPLES_PER_ACCESS_UNIT: usize = 480;

/// The samples of an access unit that comes from the Mac.
pub const ARD_AUDIO_PCM_SAMPLES_PER_ACCESS_UNIT: usize = 960;

/// The samples of an access unit that goes to the Mac.
pub const ARD_AUDIO_PC_TO_MAC_PCM_SAMPLES_PER_ACCESS_UNIT: usize = 480;

pub const ARD_AUDIO_MAC_TO_PC_BIT_RATE: u32 = 320_000;

pub const ARD_AUDIO_PC_TO_MAC_BIT_RATE: u32 = 80_000;

/// The samples that a decoder may give at once.
pub const AAC_ELD_DECODER_OUTPUT_CAPACITY_SAMPLES: usize = 8_192;

/// The most access units that are made up for those that were lost.
pub const MAX_CONCEALED_AUDIO_GAP_ACCESS_UNITS: usize = 100;

/// The largest access unit that a bundle can hold.
pub const RFC3640_MAX_ACCESS_UNIT_BYTES: usize = 8_191;

/// How a decoder of what comes from the Mac is set up.
pub const ARD_AAC_ELD_AUDIO_SPECIFIC_CONFIG: [u8; 4] = [0xf8, 0xe6, 0x50, 0x00];

/// How a decoder of what goes to the Mac is set up.
pub const ARD_AAC_ELD_PC_TO_MAC_AUDIO_SPECIFIC_CONFIG: [u8; 4] = [0xf8, 0xe6, 0x30, 0x00];

/// An access unit of silence.
pub const ARD_AAC_ELD_DTX_ACCESS_UNIT: [u8; 4] = [0x00, 0x68, 0x34, 0x00];

/// The bundle of a single access unit: the bits of its header, its size before three bits of zero,
/// and the unit.
pub open spec fn bundle_bytes(unit: Seq<u8>) -> Seq<u8> {
    crate::wire::be16_bytes(16) + crate::wire::be16_bytes((unit.len() * 8) as u16) + unit
}

/// Bundles a single access unit.
pub fn bundle_rfc3640_single_access_unit(access_unit: &[u8]) -> (r: Result<Vec<u8>, VncError>)
    ensures
        crate::error::viewed(r) == (if access_unit@.len() == 0 {
            Err::<Seq<u8>, VncError>(VncError::Text("RFC 3640 AAC access unit 不能为空"))
        } else if access_unit@.len() > RFC3640_MAX_ACCESS_UNIT_BYTES {
            Err(
                VncError::Number {
                    before: "RFC 3640 AAC access unit 超过 13-bit AU-size: ",
                    value: access_unit@.len() as u64,
                    after: "",
                },
            )
        } else {
            Ok(bundle_bytes(access_unit@))
        }),
{
    if access_unit.len() == 0 {
        return Err(VncError::Text("RFC 3640 AAC access unit 不能为空"));
    }
    if access_unit.len() > RFC3640_MAX_ACCESS_UNIT_BYTES {
        return Err(
            VncError::Number {
                before: "RFC 3640 AAC access unit 超过 13-bit AU-size: ",
                value: access_unit.len() as u64,
                after: "",
            },
        );
    }
    let mut payload: Vec<u8> = Vec::new();
    push_be16(&mut payload, 16);
    push_be16(&mut payload, (access_unit.len() * 8) as u16);
    push_bytes(&mut payload, access_unit);
    assert(payload@ =~= bundle_bytes(access_unit@));
    Ok(payload)
}

/// A decoder of AAC.
#[verifier::external_type_specification]
#[verifier::external_body]
pub struct ExDecoder(fdk_aac::dec::Decoder);

/// Why a decoder refused something.
#[verifier::external_type_specification]
#[verifier::external_body]
pub struct ExDecoderError(fdk_aac::dec::DecoderError);

/// A request to a decoder and what came of it.
pub enum DecoderCall {
    /// It was set up with these bytes; whether that succeeded.
    Configured(Seq<u8>, bool),
    /// It was told to give so many channels at least; whether that succeeded.
    AtLeast(usize, bool),
    /// It was told to give so many channels at most; whether that succeeded.
    AtMost(usize, bool),
    /// It was given bytes; how many of them it took, where it took them.
    Filled(Seq<u8>, Option<usize>),
    /// It was told to decode into a buffer of so many samples; the buffer, where it did.
    Decoded(usize, Option<Seq<i16>>),
    /// It was asked for the samples of the last unit.
    FrameSize(usize),
    /// It was asked for the rate and the channels of the last unit.
    Shape(i32, i32),
}

/// A decoder, and all the requests that it was asked.
pub struct RecordedDecoder {
    pub decoder: fdk_aac::dec::Decoder,
    pub asked: Ghost<Seq<DecoderCall>>,
}

/// Whether a decoder has been set up. It takes bytes and tells of units only once it has.
pub open spec fn is_set_up(asked: Seq<DecoderCall>) -> bool {
    asked.len() > 0 && asked[0] matches DecoderCall::Configured(_, true)
}

/// `fdk_aac::dec::Decoder::new` for a raw stream. Nothing is claimed of the decoder.
#[verifier::external_body]
fn raw_decoder() -> (r: fdk_aac::dec::Decoder) {
    fdk_aac::dec::Decoder::new(fdk_aac::dec::Transport::Raw)
}

/// `fdk_aac::dec::Decoder::config_raw`, recorded with its argument. Whether it succeeds is the
/// decoder's to say.
#[verifier::external_body]
fn config_raw(recorded: &mut RecordedDecoder, config: &[u8]) -> (r: Result<
    (),
    fdk_aac::dec::DecoderError,
>)
    ensures
        final(recorded).asked@ == old(recorded).asked@.push(
            DecoderCall::Configured(config@, r is Ok),
        ),
{
    recorded.decoder.config_raw(config)
}

/// `fdk_aac::dec::Decoder::set_min_output_channels`, recorded with its argument. Whether it
/// succeeds is the decoder's to say.
#[verifier::external_body]
fn set_min_output_channels(recorded: &mut RecordedDecoder, channels: usize) -> (r: Result<
    (),
    fdk_aac::dec::DecoderError,
>)
    ensures
        final(recorded).asked@ == old(recorded).asked@.push(
            DecoderCall::AtLeast(channels, r is Ok),
        ),
{
    recorded.decoder.set_min_output_channels(channels)
}

/// `fdk_aac::dec::Decoder::set_max_output_channels`, recorded with its argument. Whether it
/// succeeds is the decoder's to say.
#[verifier::external_body]
fn set_max_output_channels(recorded: &mut RecordedDecoder, channels: usize) -> (r: Result<
    (),
    fdk_aac::dec::DecoderError,
>)
    ensures
        final(recorded).asked@ == old(recorded).asked@.push(DecoderCall::AtMost(channels, r is Ok)),
{
    recorded.decoder.set_max_output_channels(channels)
}

/// `fdk_aac::dec::Decoder::fill`, recorded with its argument and with how many bytes the decoder
/// took, no more than it was given. How many those are rests on what the decoder holds.
#[verifier::external_body]
fn fill(recorded: &mut RecordedDecoder, data: &[u8]) -> (r: Result<
    usize,
    fdk_aac::dec::DecoderError,
>)
    requires
        is_set_up(old(recorded).asked@),
    ensures
        final(recorded).asked@ == old(recorded).asked@.push(
            DecoderCall::Filled(
                data@,
                match r {
                    Ok(took) => Some(took),
                    Err(_) => None,
                },
            ),
        ),
        r matches Ok(took) ==> took <= data@.len(),
{
    recorded.decoder.fill(data)
}

/// `fdk_aac::dec::Decoder::decode_frame` into a buffer of so many samples, recorded with the
/// buffer. The buffer keeps its size; the samples in it rest on what the decoder holds.
#[verifier::external_body]
fn decode_frame(recorded: &mut RecordedDecoder, capacity: usize) -> (r: Result<
    Vec<i16>,
    fdk_aac::dec::DecoderError,
>)
    requires
        is_set_up(old(recorded).asked@),
        capacity <= 8_192,
    ensures
        final(recorded).asked@ == old(recorded).asked@.push(
            DecoderCall::Decoded(
                capacity,
                match r {
                    Ok(pcm) => Some(pcm@),
                    Err(_) => None,
                },
            ),
        ),
        r matches Ok(pcm) ==> pcm@.len() == capacity,
{
    let mut pcm = vec![0i16; capacity];
    recorded.decoder.decode_frame(&mut pcm)?;
    Ok(pcm)
}

/// `fdk_aac::dec::Decoder::decoded_frame_size`: the samples of the last unit, recorded. How many
/// they are rests on what the decoder holds.
#[verifier::external_body]
fn decoded_frame_size(recorded: &mut RecordedDecoder) -> (r: usize)
    requires
        is_set_up(old(recorded).asked@),
    ensures
        final(recorded).asked@ == old(recorded).asked@.push(DecoderCall::FrameSize(r)),
{
    recorded.decoder.decoded_frame_size()
}

/// `fdk_aac::dec::Decoder::stream_info`: the rate and the channels of the last unit, recorded. What
/// they are rests on what the decoder holds.
#[verifier::external_body]
fn stream_shape(recorded: &mut RecordedDecoder) -> (r: (i32, i32))
    requires
        is_set_up(old(recorded).asked@),
    ensures
        final(recorded).asked@ == old(recorded).asked@.push(DecoderCall::Shape(r.0, r.1)),
{
    let info = recorded.decoder.stream_info();
    (info.sampleRate, info.numChannels)
}

/// `fdk_aac::dec::DecoderError::message`: what is said of a failure. Nothing is claimed of it.
pub assume_specification[ fdk_aac::dec::DecoderError::message ](
    error: &fdk_aac::dec::DecoderError,
) -> (r: &'static str);

/// Whether this is the failure that begins with the text and goes on with what the decoder said.
pub open spec fn decoder_said(e: VncError, front: &'static str) -> bool {
    e matches VncError::Said { before, said, after } && before == front && after@ == ""@
}

fn said(front: &'static str, error: fdk_aac::dec::DecoderError) -> (r: VncError)
    ensures
        decoder_said(r, front),
{
    VncError::Said { before: front, said: String::from_str(error.message()), after: "" }
}

/// What an access unit comes to, once a decoder has given samples, so many of them, of this rate
/// and in so many channels.
pub open spec fn decoded_unit(
    pcm: Seq<i16>,
    samples: usize,
    sample_rate: i32,
    channels: i32,
    expected_channels: int,
) -> Result<Seq<i16>, VncError> {
    let expected = 480 * expected_channels;
    if samples != expected {
        Err(
            VncError::Numbers {
                before: "AAC-ELD 输出样本数不符合 ARD 协议: ",
                first: samples as u64,
                between: " != ",
                second: expected as u64,
                after: "",
            },
        )
    } else if sample_rate != 48_000 {
        Err(
            VncError::Signed {
                before: "AAC-ELD 输出采样率不符合 ARD 协议: ",
                number: sample_rate,
                after: "",
            },
        )
    } else if channels != expected_channels {
        Err(
            VncError::Signed {
                before: "AAC-ELD 输出声道数不符合 ARD 协议: ",
                number: channels,
                after: "",
            },
        )
    } else {
        Ok(pcm.take(expected))
    }
}

/// Accepts what a decoder has given for an access unit.
pub fn accept_decoded(
    pcm: Vec<i16>,
    samples: usize,
    sample_rate: i32,
    channels: i32,
    expected_channels: usize,
) -> (r: Result<Vec<i16>, VncError>)
    requires
        expected_channels <= 2,
        pcm@.len() >= 480 * expected_channels,
    ensures
        crate::error::viewed(r) == decoded_unit(
            pcm@,
            samples,
            sample_rate,
            channels,
            expected_channels as int,
        ),
{
    let expected: usize = ARD_AUDIO_SAMPLES_PER_ACCESS_UNIT * expected_channels;
    if samples != expected {
        return Err(
            VncError::Numbers {
                before: "AAC-ELD 输出样本数不符合 ARD 协议: ",
                first: samples as u64,
                between: " != ",
                second: expected as u64,
                after: "",
            },
        );
    }
    let mut unit = pcm;
    unit.truncate(samples);
    if sample_rate != 48_000 {
        return Err(
            VncError::Signed {
                before: "AAC-ELD 输出采样率不符合 ARD 协议: ",
                number: sample_rate,
                after: "",
            },
        );
    }
    if channels != expected_channels as i32 {
        return Err(
            VncError::Signed {
                before: "AAC-ELD 输出声道数不符合 ARD 协议: ",
                number: channels,
                after: "",
            },
        );
    }
    assert(unit@ =~= pcm@.take(expected as int));
    Ok(unit)
}

/// The bytes that a decoder of so many channels is set up with.
pub open spec fn config_of(channels: usize) -> Seq<u8> {
    if channels == ARD_AUDIO_CHANNEL_COUNT {
        ARD_AAC_ELD_AUDIO_SPECIFIC_CONFIG@
    } else {
        ARD_AAC_ELD_PC_TO_MAC_AUDIO_SPECIFIC_CONFIG@
    }
}

/// The requests by which a decoder of so many channels is set up.
pub open spec fn set_up(channels: usize) -> Seq<DecoderCall> {
    seq![
        DecoderCall::Configured(config_of(channels), true),
        DecoderCall::AtLeast(channels, true),
        DecoderCall::AtMost(channels, true),
    ]
}

/// Whether this is the failure to set a decoder up.
pub open spec fn is_set_up_failure(e: VncError) -> bool {
    ||| decoder_said(e, "配置 ARD AAC-ELD 解码器失败: ")
    ||| decoder_said(e, "设置 AAC-ELD 最小输出声道数失败: ")
    ||| decoder_said(e, "设置 AAC-ELD 最大输出声道数失败: ")
}

/// Whether this is what becomes of an access unit: what is asked of the decoder, and what its
/// answers come to.
pub open spec fn decodes(
    before: Seq<DecoderCall>,
    unit: Seq<u8>,
    channels: int,
    r: Result<Seq<i16>, VncError>,
    after: Seq<DecoderCall>,
) -> bool {
    let n = before.len() as int;
    if unit.len() == 0 {
        &&& r == Err::<Seq<i16>, VncError>(VncError::Text("拒绝空 AAC-ELD access unit"))
        &&& after == before
    } else {
        &&& after.len() > n
        &&& after.take(n) == before
        &&& match after[n] {
            DecoderCall::Filled(given, took) => given == unit && match took {
                None => after.len() == n + 1 && (r matches Err(e) && decoder_said(
                    e,
                    "提交 AAC-ELD access unit 失败: ",
                )),
                Some(took) => if took != unit.len() {
                    after.len() == n + 1 && r == Err::<Seq<i16>, VncError>(
                        VncError::Numbers {
                            before: "AAC-ELD access unit 未完整提交: ",
                            first: took as u64,
                            between: "/",
                            second: unit.len() as u64,
                            after: "",
                        },
                    )
                } else {
                    after.len() > n + 1 && decodes_frame(after.skip(n + 1), channels, r)
                },
            },
            _ => false,
        }
    }
}

/// Whether this is what becomes of an access unit that a decoder took: it is told to decode it, and
/// then asked what it decoded.
pub open spec fn decodes_frame(
    asked: Seq<DecoderCall>,
    channels: int,
    r: Result<Seq<i16>, VncError>,
) -> bool {
    match asked[0] {
        DecoderCall::Decoded(capacity, pcm) => capacity == AAC_ELD_DECODER_OUTPUT_CAPACITY_SAMPLES
            && match pcm {
            None => asked.len() == 1 && (r matches Err(e) && decoder_said(
                e,
                "解码 AAC-ELD access unit 失败: ",
            )),
            Some(pcm) => asked.len() == 3 && match (asked[1], asked[2]) {
                (
                    DecoderCall::FrameSize(samples),
                    DecoderCall::Shape(sample_rate, decoded_channels),
                ) => r == decoded_unit(pcm, samples, sample_rate, decoded_channels, channels),
                _ => false,
            },
        },
        _ => false,
    }
}

/// A decoder of access units.
pub struct AacEldDecoder {
    pub decoder: RecordedDecoder,
    pub expected_output_channels: usize,
}

impl AacEldDecoder {
    /// The decoder has been set up, and gives one channel or two.
    pub open spec fn wf(self) -> bool {
        &&& self.expected_output_channels <= 2
        &&& is_set_up(self.asked())
    }

    /// What the decoder was asked.
    pub open spec fn asked(self) -> Seq<DecoderCall> {
        self.decoder.asked@
    }

    /// A decoder of what comes from the Mac.
    pub fn new() -> (r: Result<Self, VncError>)
        ensures
            match r {
                Ok(decoder) => decoder.wf() && decoder.expected_output_channels
                    == ARD_AUDIO_CHANNEL_COUNT && decoder.asked() == set_up(
                    ARD_AUDIO_CHANNEL_COUNT,
                ),
                Err(e) => is_set_up_failure(e),
            },
    {
        let config: [u8; 4] = ARD_AAC_ELD_AUDIO_SPECIFIC_CONFIG;
        Self::new_with_contract(config.as_slice(), ARD_AUDIO_CHANNEL_COUNT)
    }

    /// A decoder of what goes to the Mac.
    pub fn new_for_pc_to_mac() -> (r: Result<Self, VncError>)
        ensures
            match r {
                Ok(decoder) => decoder.wf() && decoder.expected_output_channels
                    == ARD_AUDIO_PC_TO_MAC_CHANNEL_COUNT && decoder.asked() == set_up(
                    ARD_AUDIO_PC_TO_MAC_CHANNEL_COUNT,
                ),
                Err(e) => is_set_up_failure(e),
            },
    {
        let config: [u8; 4] = ARD_AAC_ELD_PC_TO_MAC_AUDIO_SPECIFIC_CONFIG;
        Self::new_with_contract(config.as_slice(), ARD_AUDIO_PC_TO_MAC_CHANNEL_COUNT)
    }

    fn new_with_contract(audio_specific_config: &[u8], output_channels: usize) -> (r: Result<
        Self,
        VncError,
    >)
        requires
            output_channels <= 2,
            audio_specific_config@ == config_of(output_channels),
        ensures
            match r {
                Ok(decoder) => decoder.wf() && decoder.expected_output_channels == output_channels
                    && decoder.asked() == set_up(output_channels),
                Err(e) => is_set_up_failure(e),
            },
    {
        let mut decoder = RecordedDecoder { decoder: raw_decoder(), asked: Ghost(Seq::empty()) };
        if let Err(error) = config_raw(&mut decoder, audio_specific_config) {
            return Err(said("配置 ARD AAC-ELD 解码器失败: ", error));
        }
        if let Err(error) = set_min_output_channels(&mut decoder, output_channels) {
            return Err(said("设置 AAC-ELD 最小输出声道数失败: ", error));
        }
        if let Err(error) = set_max_output_channels(&mut decoder, output_channels) {
            return Err(said("设置 AAC-ELD 最大输出声道数失败: ", error));
        }
        assert(decoder.asked@ =~= set_up(output_channels));
        Ok(AacEldDecoder { decoder, expected_output_channels: output_channels })
    }

    /// Decodes an access unit.
    pub fn decode_access_unit(&mut self, access_unit: &[u8]) -> (r: Result<Vec<i16>, VncError>)
        requires
            old(self).wf(),
        ensures
            final(self).wf(),
            final(self).expected_output_channels == old(self).expected_output_channels,
            decodes(
                old(self).asked(),
                access_unit@,
                old(self).expected_output_channels as int,
                crate::error::viewed(r),
                final(self).asked(),
            ),
    {
        if access_unit.len() == 0 {
            return Err(VncError::Text("拒绝空 AAC-ELD access unit"));
        }
        let ghost before = self.asked();
        let ghost n = before.len() as int;
        let filled = fill(&mut self.decoder, access_unit);
        assert(self.asked().take(n) =~= before);
        let consumed: usize = match filled {
            Ok(consumed) => consumed,
            Err(error) => {
                return Err(said("提交 AAC-ELD access unit 失败: ", error));
            },
        };
        if consumed != access_unit.len() {
            return Err(
                VncError::Numbers {
                    before: "AAC-ELD access unit 未完整提交: ",
                    first: consumed as u64,
                    between: "/",
                    second: access_unit.len() as u64,
                    after: "",
                },
            );
        }
        let decoded = decode_frame(&mut self.decoder, AAC_ELD_DECODER_OUTPUT_CAPACITY_SAMPLES);
        assert(self.asked().take(n) =~= before);
        let pcm = match decoded {
            Ok(pcm) => pcm,
            Err(error) => {
                return Err(said("解码 AAC-ELD access unit 失败: ", error));
            },
        };
        let samples: usize = decoded_frame_size(&mut self.decoder);
        let (sample_rate, channels): (i32, i32) = stream_shape(&mut self.decoder);
        assert(self.asked().take(n) =~= before);
        accept_decoded(pcm, samples, sample_rate, channels, self.expected_output_channels)
    }
}

/// How far a number of 16 bits is ahead of another, going round.
pub open spec fn ahead_16(last: u16, candidate: u16) -> int {
    if candidate >= last {
        candidate - last
    } else {
        candidate - last + 0x1_0000
    }
}

/// How far a number of 32 bits is ahead of another, going round.
pub open spec fn ahead_32(last: u32, candidate: u32) -> int {
    if candidate >= last {
        candidate - last
    } else {
        candidate - last + 0x1_0000_0000
    }
}

/// How far a packet is ahead of the last one, where it is: by less than half of all numbers.
pub open spec fn forward_advance(last: u16, candidate: u16) -> Option<u16> {
    if 0 < ahead_16(last, candidate) < 0x8000 {
        Some(ahead_16(last, candidate) as u16)
    } else {
        None
    }
}

/// Tells how far a packet is ahead of the last one, where it is.
pub fn forward_sequence_advance(last: u16, candidate: u16) -> (r: Option<u16>)
    ensures
        r == forward_advance(last, candidate),
{
    let advance: u16 = candidate.wrapping_sub(last);
    if advance != 0 && advance < 0x8000 {
        Some(advance)
    } else {
        None
    }
}

/// Of two packets at most one is ahead of the other, so that none is decoded twice.
pub proof fn law_forward_is_one_way(first: u16, second: u16)
    requires
        forward_advance(first, second) is Some,
    ensures
        forward_advance(second, first) is None,
{
}

/// A packet that was decoded.
#[derive(Debug, PartialEq, Eq)]
pub struct DecodedAudioPacket {
    /// The samples, those that were made up for lost units first.
    pub pcm: Vec<i16>,
    pub concealed_access_units: usize,
    pub sequence: u16,
    pub timestamp: u32,
    pub ssrc: u32,
}

/// What became of a packet.
#[derive(Debug, PartialEq, Eq)]
pub enum AudioReceiveOutcome {
    Decoded(DecodedAudioPacket),
    /// Too many units were lost to make them up: the stream goes on from here.
    Resynchronized { decoded: DecodedAudioPacket, skipped_access_units: usize },
    /// The packet came too late.
    DiscardedLate { sequence: u16, last_forward_sequence: u16 },
}

/// Where the last packet stood.
#[derive(Clone, Copy, Debug, PartialEq, Eq, Structural)]
pub struct ForwardPoint {
    pub sequence: u16,
    pub timestamp: u32,
}

/// The stream that is received, and where its last packet stood.
#[derive(Clone, Copy, Debug, PartialEq, Eq)]
pub struct AudioAnchor {
    pub ssrc: Option<u32>,
    pub last: Option<ForwardPoint>,
}

/// What is to be done with a packet.
#[derive(Clone, Copy, Debug, PartialEq, Eq, Structural)]
pub enum PacketPlan {
    /// Decode it, behind so many units that are made up.
    Decode { concealed: usize },
    /// Decode it with a new decoder, after so many units that are lost.
    Resynchronize { skipped: usize },
    /// Discard it.
    Discard { last: u16 },
}

/// The anchor behind a packet that was decoded.
pub open spec fn advanced(header: RtpHeader) -> AudioAnchor {
    AudioAnchor {
        ssrc: Some(header.ssrc),
        last: Some(ForwardPoint { sequence: header.sequence, timestamp: header.timestamp }),
    }
}

/// What is to be done with a packet behind this point.
pub open spec fn planned(last: Option<ForwardPoint>, header: RtpHeader) -> Result<
    PacketPlan,
    VncError,
> {
    match last {
        None => Ok(PacketPlan::Decode { concealed: 0 }),
        Some(point) => match forward_advance(point.sequence, header.sequence) {
            None => Ok(PacketPlan::Discard { last: point.sequence }),
            Some(advance) => if advance > MAX_CONCEALED_AUDIO_GAP_ACCESS_UNITS + 1 {
                Ok(PacketPlan::Resynchronize { skipped: (advance - 1) as usize })
            } else if ahead_32(point.timestamp, header.timestamp) != advance * 480 {
                Err(
                    VncError::Numbers {
                        before: "ARD audio RTP timestamp 跳变不符合帧长: ",
                        first: ahead_32(point.timestamp, header.timestamp) as u64,
                        between: " != ",
                        second: (advance * 480) as u64,
                        after: "",
                    },
                )
            } else {
                Ok(PacketPlan::Decode { concealed: (advance - 1) as usize })
            },
        },
    }
}

/// Plans what is to be done with a packet.
pub fn plan_packet(last: Option<ForwardPoint>, header: RtpHeader) -> (r: Result<
    PacketPlan,
    VncError,
>)
    ensures
        r == planned(last, header),
        r matches Ok(PacketPlan::Decode { concealed }) ==> concealed
            <= MAX_CONCEALED_AUDIO_GAP_ACCESS_UNITS,
{
    let point: ForwardPoint = match last {
        Some(point) => point,
        None => {
            return Ok(PacketPlan::Decode { concealed: 0 });
        },
    };
    let advance: u16 = match forward_sequence_advance(point.sequence, header.sequence) {
        Some(advance) => advance,
        None => {
            return Ok(PacketPlan::Discard { last: point.sequence });
        },
    };
    if advance as usize > MAX_CONCEALED_AUDIO_GAP_ACCESS_UNITS + 1 {
        return Ok(PacketPlan::Resynchronize { skipped: advance as usize - 1 });
    }
    let moved: u32 = header.timestamp.wrapping_sub(point.timestamp);
    let expected: u32 = advance as u32 * 480;
    if moved != expected {
        return Err(
            VncError::Numbers {
                before: "ARD audio RTP timestamp 跳变不符合帧长: ",
                first: moved as u64,
                between: " != ",
                second: expected as u64,
                after: "",
            },
        );
    }
    Ok(PacketPlan::Decode { concealed: advance as usize - 1 })
}

/// Whether this is the decoded packet of these samples, behind so many units of silence.
pub open spec fn is_assembled(
    packet: DecodedAudioPacket,
    header: RtpHeader,
    concealed: int,
    decoded: Seq<i16>,
) -> bool {
    &&& packet.concealed_access_units == concealed
    &&& packet.sequence == header.sequence
    &&& packet.timestamp == header.timestamp
    &&& packet.ssrc == header.ssrc
    &&& packet.pcm@ == Seq::new((concealed * 960) as nat, |i: int| 0i16) + decoded
}

/// Puts silence for the lost units in front of the samples of a packet.
pub fn assemble_packet(header: RtpHeader, concealed: usize, decoded: &[i16]) -> (r:
    DecodedAudioPacket)
    requires
        concealed <= MAX_CONCEALED_AUDIO_GAP_ACCESS_UNITS,
    ensures
        is_assembled(r, header, concealed as int, decoded@),
{
    let silent: usize = concealed * ARD_AUDIO_PCM_SAMPLES_PER_ACCESS_UNIT;
    let mut pcm: Vec<i16> = Vec::new();
    let mut i: usize = 0;
    while i < silent
        invariant
            i <= silent,
            pcm@ == Seq::new(i as nat, |k: int| 0i16),
        decreases silent - i,
    {
        pcm.push(0);
        i = i + 1;
        assert(pcm@ =~= Seq::new(i as nat, |k: int| 0i16));
    }
    pcm.extend_from_slice(decoded);
    assert(pcm@ =~= Seq::new((concealed * 960) as nat, |k: int| 0i16) + decoded@);
    DecodedAudioPacket {
        pcm,
        concealed_access_units: concealed,
        sequence: header.sequence,
        timestamp: header.timestamp,
        ssrc: header.ssrc,
    }
}

/// Why a packet is refused before it is planned, where it is.
pub open spec fn packet_refusal(packet: Seq<u8>) -> Option<VncError> {
    match rtp::payload_of(packet) {
        Err(e) => Some(crate::error::within("解析 ARD audio RTP 数据报失败", e)),
        Ok(payload) => if rtp::header_of(packet).payload_type != ARD_AUDIO_RTP_PAYLOAD_TYPE {
            Some(
                VncError::Number {
                    before: "ARD audio RTP payload type 非法: ",
                    value: rtp::header_of(packet).payload_type as u64,
                    after: "",
                },
            )
        } else if payload.len() == 0 {
            Some(VncError::Text("ARD audio RTP payload 为空"))
        } else {
            None
        },
    }
}

/// What a receiver holds: what its decoder was asked, and its anchor.
pub struct ReceiverView {
    pub asked: Seq<DecoderCall>,
    pub anchor: AudioAnchor,
}

/// A receiver with a new decoder, at the start of a stream.
pub open spec fn renewed(header: RtpHeader) -> ReceiverView {
    ReceiverView {
        asked: set_up(ARD_AUDIO_CHANNEL_COUNT),
        anchor: AudioAnchor { ssrc: Some(header.ssrc), last: None },
    }
}

/// Whether this is what becomes of a packet that is decoded behind so many units that are made up.
/// A unit that the decoder refuses leaves the anchor where it was.
pub open spec fn receives_unit(
    start: ReceiverView,
    header: RtpHeader,
    payload: Seq<u8>,
    concealed: int,
    unit: Result<Seq<i16>, VncError>,
    r: Result<AudioReceiveOutcome, VncError>,
    after: ReceiverView,
) -> bool {
    &&& decodes(start.asked, payload, 2, unit, after.asked)
    &&& match (unit, r) {
        (Ok(pcm), Ok(AudioReceiveOutcome::Decoded(packet))) => is_assembled(
            packet,
            header,
            concealed,
            pcm,
        ) && after.anchor == advanced(header),
        (Err(e), Err(f)) => e == f && after.anchor == start.anchor,
        _ => false,
    }
}

/// Whether this is what becomes of a packet behind too many that are lost: a new decoder decodes
/// it, and takes the place of the old one where it does.
pub open spec fn receives_anew(
    start: ReceiverView,
    header: RtpHeader,
    payload: Seq<u8>,
    skipped: usize,
    unit: Result<Seq<i16>, VncError>,
    asked: Seq<DecoderCall>,
    r: Result<AudioReceiveOutcome, VncError>,
    after: ReceiverView,
) -> bool {
    &&& decodes(set_up(ARD_AUDIO_CHANNEL_COUNT), payload, 2, unit, asked)
    &&& match (unit, r) {
        (
            Ok(pcm),
            Ok(AudioReceiveOutcome::Resynchronized { decoded, skipped_access_units }),
        ) => is_assembled(decoded, header, 0, pcm) && skipped_access_units == skipped && after == (
        ReceiverView { asked, anchor: advanced(header) }),
        (Err(e), Err(f)) => e == f && after == start,
        _ => false,
    }
}

/// Whether this is the failure to set a new decoder up behind packets that are lost.
pub open spec fn is_renewal_failure(e: VncError) -> bool {
    e matches VncError::Context { text, cause } && text
        == "为 ARD audio RTP 大间隔重建 AAC-ELD 解码器失败" && is_set_up_failure(*cause)
}

/// Whether this is what becomes of a packet of the stream that is received.
pub open spec fn received_in_stream(
    start: ReceiverView,
    header: RtpHeader,
    payload: Seq<u8>,
    r: Result<AudioReceiveOutcome, VncError>,
    after: ReceiverView,
) -> bool {
    match planned(start.anchor.last, header) {
        Err(e) => r == Err::<AudioReceiveOutcome, VncError>(e) && after == start,
        Ok(PacketPlan::Discard { last }) => r == Ok::<AudioReceiveOutcome, VncError>(
            AudioReceiveOutcome::DiscardedLate {
                sequence: header.sequence,
                last_forward_sequence: last,
            },
        ) && after == start,
        Ok(PacketPlan::Resynchronize { skipped }) => {
            ||| (r matches Err(e) && is_renewal_failure(e) && after == start)
            ||| exists|unit: Result<Seq<i16>, VncError>, asked: Seq<DecoderCall>|
                #[trigger] receives_anew(start, header, payload, skipped, unit, asked, r, after)
        },
        Ok(PacketPlan::Decode { concealed }) => exists|unit: Result<Seq<i16>, VncError>|
            #[trigger] receives_unit(start, header, payload, concealed as int, unit, r, after),
    }
}

/// Whether this is what becomes of a packet. One of another stream is received by a new decoder,
/// where that can be set up.
pub open spec fn received(
    before: ReceiverView,
    header: RtpHeader,
    payload: Seq<u8>,
    r: Result<AudioReceiveOutcome, VncError>,
    after: ReceiverView,
) -> bool {
    if before.anchor.ssrc == Some(header.ssrc) {
        received_in_stream(before, header, payload, r, after)
    } else {
        ||| (r matches Err(e) && is_set_up_failure(e) && after == before)
        ||| received_in_stream(renewed(header), header, payload, r, after)
    }
}

/// Receives the audio of a session.
pub struct ArdAudioReceiver {
    pub decoder: AacEldDecoder,
    pub anchor: AudioAnchor,
}

impl View for ArdAudioReceiver {
    type V = ReceiverView;

    open spec fn view(&self) -> ReceiverView {
        ReceiverView { asked: self.decoder.asked(), anchor: self.anchor }
    }
}

impl ArdAudioReceiver {
    /// The decoder has been set up and gives two channels.
    pub open spec fn wf(self) -> bool {
        self.decoder.wf() && self.decoder.expected_output_channels == ARD_AUDIO_CHANNEL_COUNT
    }

    /// Nothing has been received.
    pub fn new() -> (r: Result<Self, VncError>)
        ensures
            match r {
                Ok(receiver) => receiver.wf() && receiver@ == (ReceiverView {
                    asked: set_up(ARD_AUDIO_CHANNEL_COUNT),
                    anchor: AudioAnchor { ssrc: None, last: None },
                }),
                Err(e) => is_set_up_failure(e),
            },
    {
        let decoder = AacEldDecoder::new()?;
        Ok(ArdAudioReceiver { decoder, anchor: AudioAnchor { ssrc: None, last: None } })
    }

    fn resynchronize(&mut self, header: RtpHeader, payload: &[u8], skipped: usize) -> (r: Result<
        AudioReceiveOutcome,
        VncError,
    >)
        requires
            old(self).wf(),
        ensures
            final(self).wf(),
            (r matches Err(e) && is_renewal_failure(e) && final(self)@ == old(self)@) || exists|
                unit: Result<Seq<i16>, VncError>,
                asked: Seq<DecoderCall>,
            | #[trigger]
                receives_anew(
                    old(self)@,
                    header,
                    payload@,
                    skipped,
                    unit,
                    asked,
                    r,
                    final(self)@,
                ),
    {
        let mut decoder = match AacEldDecoder::new() {
            Ok(decoder) => decoder,
            Err(e) => {
                return Err(
                    VncError::Context {
                        text: "为 ARD audio RTP 大间隔重建 AAC-ELD 解码器失败",
                        cause: Box::new(e),
                    },
                );
            },
        };
        let unit = decoder.decode_access_unit(payload);
        let ghost asked = decoder.asked();
        let pcm = match unit {
            Ok(pcm) => pcm,
            Err(e) => {
                let r = Err(e);
                assert(receives_anew(
                    old(self)@,
                    header,
                    payload@,
                    skipped,
                    Err(e),
                    asked,
                    r,
                    self@,
                ));
                return r;
            },
        };
        let decoded = assemble_packet(header, 0, pcm.as_slice());
        self.decoder = decoder;
        self.anchor = AudioAnchor {
            ssrc: Some(header.ssrc),
            last: Some(ForwardPoint { sequence: header.sequence, timestamp: header.timestamp }),
        };
        let r = Ok(AudioReceiveOutcome::Resynchronized { decoded, skipped_access_units: skipped });
        assert(receives_anew(old(self)@, header, payload@, skipped, Ok(pcm@), asked, r, self@));
        r
    }

    /// Takes a packet.
    pub fn decode_rtp_packet(&mut self, packet: &[u8]) -> (r: Result<AudioReceiveOutcome, VncError>)
        requires
            old(self).wf(),
        ensures
            final(self).wf(),
            match packet_refusal(packet@) {
                Some(e) => r == Err::<AudioReceiveOutcome, VncError>(e) && final(self)@ == old(
                    self,
                )@,
                None => received(
                    old(self)@,
                    rtp::header_of(packet@),
                    rtp::payload_of(packet@)->Ok_0,
                    r,
                    final(self)@,
                ),
            },
    {
        let packet = match parse_rtp_packet(packet) {
            Ok(packet) => packet,
            Err(e) => {
                return Err(
                    VncError::Context { text: "解析 ARD audio RTP 数据报失败", cause: Box::new(e) },
                );
            },
        };
        let header = packet.header;
        if header.payload_type != ARD_AUDIO_RTP_PAYLOAD_TYPE {
            return Err(
                VncError::Number {
                    before: "ARD audio RTP payload type 非法: ",
                    value: header.payload_type as u64,
                    after: "",
                },
            );
        }
        if packet.payload.len() == 0 {
            return Err(VncError::Text("ARD audio RTP payload 为空"));
        }
        let same: bool = match self.anchor.ssrc {
            Some(ssrc) => ssrc == header.ssrc,
            None => false,
        };
        if !same {
            self.decoder = AacEldDecoder::new()?;
            self.anchor = AudioAnchor { ssrc: Some(header.ssrc), last: None };
        }
        let concealed: usize = match plan_packet(self.anchor.last, header)? {
            PacketPlan::Discard { last } => {
                return Ok(
                    AudioReceiveOutcome::DiscardedLate {
                        sequence: header.sequence,
                        last_forward_sequence: last,
                    },
                );
            },
            PacketPlan::Resynchronize { skipped } => {
                return self.resynchronize(header, packet.payload, skipped);
            },
            PacketPlan::Decode { concealed } => concealed,
        };
        let ghost start = self@;
        let ghost payload = packet.payload@;
        let pcm = match self.decoder.decode_access_unit(packet.payload) {
            Ok(pcm) => pcm,
            Err(e) => {
                let r = Err(e);
                assert(receives_unit(start, header, payload, concealed as int, Err(e), r, self@));
                return r;
            },
        };
        let decoded = assemble_packet(header, concealed, pcm.as_slice());
        self.anchor = AudioAnchor {
            ssrc: Some(header.ssrc),
            last: Some(ForwardPoint { sequence: header.sequence, timestamp: header.timestamp }),
        };
        let r = Ok(AudioReceiveOutcome::Decoded(decoded));
        assert(receives_unit(start, header, payload, concealed as int, Ok(pcm@), r, self@));
        r
    }
}

/// A packet that is not ahead of the last one of its stream is discarded, and what comes after it
/// is received as if it had not come.
pub proof fn law_late_packet_changes_nothing(
    before: ReceiverView,
    header: RtpHeader,
    payload: Seq<u8>,
    r: Result<AudioReceiveOutcome, VncError>,
    after: ReceiverView,
)
    requires
        before.anchor.ssrc == Some(header.ssrc),
        before.anchor.last is Some,
        forward_advance((before.anchor.last->0).sequence, header.sequence) is None,
        received(before, header, payload, r, after),
    ensures
        after == before,
        r matches Ok(AudioReceiveOutcome::DiscardedLate { .. }),
{
}

/// A packet of a stream that is refused leaves the stream where it was.
pub proof fn law_refused_packet_keeps_the_anchor(
    before: ReceiverView,
    header: RtpHeader,
    payload: Seq<u8>,
    r: Result<AudioReceiveOutcome, VncError>,
    after: ReceiverView,
)
    requires
        before.anchor.ssrc == Some(header.ssrc),
        received(before, header, payload, r, after),
        r is Err,
    ensures
        after.anchor == before.anchor,
{
}

/// A bundle holds its unit, untouched, behind two numbers: that its header has sixteen bits, and the
/// size of the unit, with three zeros of the header behind it.
pub proof fn law_bundle_holds_the_unit(unit: Seq<u8>)
    requires
        unit.len() <= RFC3640_MAX_ACCESS_UNIT_BYTES,
    ensures
        bundle_bytes(unit).len() == unit.len() + 4,
        bundle_bytes(unit).skip(4) == unit,
        256 * bundle_bytes(unit)[0] + bundle_bytes(unit)[1] == 16,
        256 * bundle_bytes(unit)[2] + bundle_bytes(unit)[3] == 8 * unit.len(),
        RFC3640_MAX_ACCESS_UNIT_BYTES == 8191,
{
    let bundle = bundle_bytes(unit);
    assert(bundle.skip(4) =~= unit);
    assert(bundle[0] == crate::wire::be16_bytes(16)[0] && bundle[1] == crate::wire::be16_bytes(
        16,
    )[1]);
    let size = crate::wire::be16_bytes((unit.len() * 8) as u16);
    assert(bundle[2] == size[0] && bundle[3] == size[1]);
}

/// A decoder is set up for the object type 39, told as 31 and 7 more than 32, the rate of number 3,
/// so many channels, and units of 480 samples, and for nothing else.
pub proof fn law_decoders_are_set_up(channels: usize)
    requires
        1 <= channels <= 2,
    ensures
        crate::mvs_code_laws::holds(
            config_of(channels),
            0,
            crate::mvs_code_laws::digits(31, 5) + (crate::mvs_code_laws::digits(7, 6) + (
            crate::mvs_code_laws::digits(3, 4) + (crate::mvs_code_laws::digits(
                channels as int,
                4,
            ) + (seq![true] + crate::mvs_code_laws::digits(0, 12))))),
        ),
        config_of(channels).len() == 4,
        set_up(channels).len() == 3,
        set_up(channels)[1] == DecoderCall::AtLeast(channels, true),
        set_up(channels)[2] == DecoderCall::AtMost(channels, true),
{
    let config = config_of(channels);
    let bits = crate::mvs_code_laws::digits(31, 5) + (crate::mvs_code_laws::digits(7, 6) + (
    crate::mvs_code_laws::digits(3, 4) + (crate::mvs_code_laws::digits(channels as int, 4) + (
    seq![true] + crate::mvs_code_laws::digits(0, 12)))));
    reveal_with_fuel(crate::mvs_code_laws::digits, 13);
    reveal_with_fuel(crate::mvs_bitstream::two_to, 9);
    assert(crate::mvs_code_laws::digits(31, 5) =~= seq![true, true, true, true, true]);
    assert(crate::mvs_code_laws::digits(7, 6) =~= seq![false, false, false, true, true, true]);
    assert(crate::mvs_code_laws::digits(3, 4) =~= seq![false, false, true, true]);
    assert(crate::mvs_code_laws::digits(channels as int, 4) =~= seq![
        false,
        false,
        channels == 2,
        channels == 1,
    ]);
    assert(crate::mvs_code_laws::digits(0, 12) =~= seq![
        false,
        false,
        false,
        false,
        false,
        false,
        false,
        false,
        false,
        false,
        false,
        false,
    ]);
    assert(bits.len() == 32);
    assert(config[0] == 0xf8 && config[1] == 0xe6 && config[3] == 0);
    assert(config[2] == (if channels == 2 {
        0x50u8
    } else {
        0x30
    }));
    assert(crate::mvs_bitstream::two_to(7) == 128 && crate::mvs_bitstream::two_to(6) == 64
        && crate::mvs_bitstream::two_to(5) == 32 && crate::mvs_bitstream::two_to(4) == 16
        && crate::mvs_bitstream::two_to(3) == 8 && crate::mvs_bitstream::two_to(2) == 4
        && crate::mvs_bitstream::two_to(1) == 2 && crate::mvs_bitstream::two_to(0) == 1);
    let byte0 = config[0] as int;
    assert(bits[0] == ((byte0 / 128) % 2 == 1) && bits[1] == ((byte0 / 64) % 2 == 1) && bits[2] == ((byte0 / 32) % 2 == 1) && bits[3] == ((byte0 / 16) % 2 == 1) && bits[4] == ((byte0 / 8) % 2 == 1) && bits[5] == ((byte0 / 4) % 2 == 1) && bits[6] == ((byte0 / 2) % 2 == 1) && bits[7] == ((byte0 / 1) % 2 == 1));
    let byte1 = config[1] as int;
    assert(bits[8] == ((byte1 / 128) % 2 == 1) && bits[9] == ((byte1 / 64) % 2 == 1) && bits[10] == ((byte1 / 32) % 2 == 1) && bits[11] == ((byte1 / 16) % 2 == 1) && bits[12] == ((byte1 / 8) % 2 == 1) && bits[13] == ((byte1 / 4) % 2 == 1) && bits[14] == ((byte1 / 2) % 2 == 1) && bits[15] == ((byte1 / 1) % 2 == 1));
    let byte2 = config[2] as int;
    assert(bits[16] == ((byte2 / 128) % 2 == 1) && bits[17] == ((byte2 / 64) % 2 == 1) && bits[18] == ((byte2 / 32) % 2 == 1) && bits[19] == ((byte2 / 16) % 2 == 1) && bits[20] == ((byte2 / 8) % 2 == 1) && bits[21] == ((byte2 / 4) % 2 == 1) && bits[22] == ((byte2 / 2) % 2 == 1) && bits[23] == ((byte2 / 1) % 2 == 1));
    let byte3 = config[3] as int;
    assert(bits[24] == ((byte3 / 128) % 2 == 1) && bits[25] == ((byte3 / 64) % 2 == 1) && bits[26] == ((byte3 / 32) % 2 == 1) && bits[27] == ((byte3 / 16) % 2 == 1) && bits[28] == ((byte3 / 8) % 2 == 1) && bits[29] == ((byte3 / 4) % 2 == 1) && bits[30] == ((byte3 / 2) % 2 == 1) && bits[31] == ((byte3 / 1) % 2 == 1));
    assert forall|i: int| 0 <= i < 32 implies #[trigger] bits[i] == crate::mvs_code_laws::is_one(
        config,
        0 + i,
    ) by {}
}

/// What a decoder gave is accepted where it is one unit of 480 samples for every channel at 48 kHz in
/// as many channels as expected, and is then what it gave, from its first sample on.
pub proof fn law_units_have_one_shape(
    pcm: Seq<i16>,
    samples: usize,
    sample_rate: i32,
    channels: i32,
    expected: int,
)
    requires
        0 <= expected <= 2,
        480 * expected <= pcm.len(),
    ensures
        decoded_unit(pcm, samples, sample_rate, channels, expected) is Ok <==> samples == 480
            * channels && channels == expected && sample_rate == 48_000,
        decoded_unit(pcm, samples, sample_rate, channels, expected) matches Ok(unit) ==> unit.len()
            == samples && unit =~= pcm.subrange(0, samples as int),
{
}

/// A packet that is `n` numbers ahead, going round, is decoded behind silence for the units between,
/// where its time is 480 for every number ahead; behind more than a hundred lost ones the stream
/// begins anew, whatever the time; and one that is not ahead by less than half of all numbers is
/// late. The first packet is decoded whatever it says.
pub proof fn law_packets_follow_each_other(point: ForwardPoint, header: RtpHeader, n: int)
    requires
        0 <= n < 0x1_0000,
        header.sequence == (point.sequence + n) % 0x1_0000,
    ensures
        1 <= n <= 101 && header.timestamp == (point.timestamp + 480 * n) % 0x1_0000_0000 ==> planned(
            Some(point),
            header,
        ) == Ok::<PacketPlan, VncError>(PacketPlan::Decode { concealed: (n - 1) as usize }),
        1 <= n <= 101 && header.timestamp != (point.timestamp + 480 * n) % 0x1_0000_0000 ==> planned(
            Some(point),
            header,
        ) is Err,
        102 <= n < 0x8000 ==> planned(Some(point), header) == Ok::<PacketPlan, VncError>(
            PacketPlan::Resynchronize { skipped: (n - 1) as usize },
        ),
        n == 0 || n >= 0x8000 ==> planned(Some(point), header) == Ok::<PacketPlan, VncError>(
            PacketPlan::Discard { last: point.sequence },
        ),
        planned(None, header) == Ok::<PacketPlan, VncError>(PacketPlan::Decode { concealed: 0 }),
{
    assert(ahead_16(point.sequence, header.sequence) == n);
}

/// A decoded packet has silence of 960 samples for every unit that was lost, and then its own
/// samples, and it tells the numbers of its header.
pub proof fn law_silence_comes_first(
    packet: DecodedAudioPacket,
    header: RtpHeader,
    concealed: int,
    decoded: Seq<i16>,
    i: int,
)
    requires
        is_assembled(packet, header, concealed, decoded),
        0 <= concealed,
        0 <= i < packet.pcm@.len(),
    ensures
        packet.pcm@.len() == 960 * concealed + decoded.len(),
        packet.pcm@[i] == (if i < 960 * concealed {
            0
        } else {
            decoded[i - 960 * concealed]
        }),
        packet.sequence == header.sequence,
        packet.timestamp == header.timestamp,
        packet.ssrc == header.ssrc,
        packet.concealed_access_units == concealed,
{
}

/// A packet is taken up only where it is audio, of payload type 101, and not empty.
pub proof fn law_audio_is_taken_up(packet: Seq<u8>)
    ensures
        packet_refusal(packet) is None <==> (rtp::payload_of(packet) matches Ok(payload)
            && payload.len() > 0 && rtp::header_of(packet).payload_type == 101),
{
}

} // verus!
