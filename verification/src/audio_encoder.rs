//! What an encoder of access units has to be set up with, and what it has to give.

use vstd::prelude::*;
use crate::audio_codec::{ARD_AAC_ELD_AUDIO_SPECIFIC_CONFIG, ARD_AUDIO_CHANNEL_COUNT};
use crate::audio_codec::{ARD_AAC_ELD_PC_TO_MAC_AUDIO_SPECIFIC_CONFIG, ARD_AUDIO_SAMPLE_RATE_HZ};
use crate::audio_codec::{ARD_AUDIO_MAC_TO_PC_BIT_RATE, ARD_AUDIO_PC_TO_MAC_BIT_RATE};
use crate::audio_codec::{ARD_AUDIO_PC_TO_MAC_CHANNEL_COUNT, ARD_AUDIO_SAMPLES_PER_ACCESS_UNIT};
use crate::error::VncError;
use crate::protobuf::same_bytes;

verus! {

/// What an encoder is made for.
#[derive(Clone, Copy, Debug, PartialEq, Eq)]
pub struct EncoderContract {
    pub channel_count: usize,
    pub bit_rate: u32,
    /// How a decoder of what it gives is set up.
    pub audio_specific_config: [u8; 4],
}

impl EncoderContract {
    /// An encoder of what comes from the Mac.
    pub fn mac_to_pc() -> (r: EncoderContract)
        ensures
            r.channel_count == ARD_AUDIO_CHANNEL_COUNT,
            r.bit_rate == ARD_AUDIO_MAC_TO_PC_BIT_RATE,
            r.audio_specific_config == ARD_AAC_ELD_AUDIO_SPECIFIC_CONFIG,
    {
        EncoderContract {
            channel_count: ARD_AUDIO_CHANNEL_COUNT,
            bit_rate: ARD_AUDIO_MAC_TO_PC_BIT_RATE,
            audio_specific_config: ARD_AAC_ELD_AUDIO_SPECIFIC_CONFIG,
        }
    }

    /// An encoder of what goes to the Mac.
    pub fn pc_to_mac() -> (r: EncoderContract)
        ensures
            r.channel_count == ARD_AUDIO_PC_TO_MAC_CHANNEL_COUNT,
            r.bit_rate == ARD_AUDIO_PC_TO_MAC_BIT_RATE,
            r.audio_specific_config == ARD_AAC_ELD_PC_TO_MAC_AUDIO_SPECIFIC_CONFIG,
    {
        EncoderContract {
            channel_count: ARD_AUDIO_PC_TO_MAC_CHANNEL_COUNT,
            bit_rate: ARD_AUDIO_PC_TO_MAC_BIT_RATE,
            audio_specific_config: ARD_AAC_ELD_PC_TO_MAC_AUDIO_SPECIFIC_CONFIG,
        }
    }
}

/// Something that an encoder is set up with.
#[derive(Clone, Copy, Debug, PartialEq, Eq, Structural)]
pub enum EncoderParameter {
    AudioObjectType,
    BitRate,
    BitRateMode,
    SampleRate,
    SbrMode,
    GranuleLength,
    ChannelMode,
    Transmux,
}

/// A step of setting an encoder up, and what it is called where it fails.
#[derive(Clone, Copy, Debug, PartialEq, Eq)]
pub struct EncoderSetting {
    pub parameter: EncoderParameter,
    pub value: u32,
    pub operation: &'static str,
}

/// The steps of setting an encoder up, in their order: enhanced low delay, a constant rate, no
/// spectral band replication, and a raw stream.
pub open spec fn settings_of(contract: EncoderContract) -> Seq<EncoderSetting> {
    seq![
        EncoderSetting {
            parameter: EncoderParameter::AudioObjectType,
            value: 39,
            operation: "设置 AAC-ELD object type",
        },
        EncoderSetting {
            parameter: EncoderParameter::BitRate,
            value: contract.bit_rate,
            operation: "设置 AAC-ELD 比特率",
        },
        EncoderSetting {
            parameter: EncoderParameter::BitRateMode,
            value: 0,
            operation: "设置 AAC-ELD CBR 模式",
        },
        EncoderSetting {
            parameter: EncoderParameter::SampleRate,
            value: ARD_AUDIO_SAMPLE_RATE_HZ,
            operation: "设置 AAC-ELD 采样率",
        },
        EncoderSetting {
            parameter: EncoderParameter::SbrMode,
            value: 0,
            operation: "关闭 AAC-ELD SBR",
        },
        EncoderSetting {
            parameter: EncoderParameter::GranuleLength,
            value: 480,
            operation: "设置 AAC-ELD 480 样本帧长",
        },
        EncoderSetting {
            parameter: EncoderParameter::ChannelMode,
            value: contract.channel_count as u32,
            operation: "设置 AAC-ELD 声道模式",
        },
        EncoderSetting {
            parameter: EncoderParameter::Transmux,
            value: 0,
            operation: "设置 AAC-ELD raw transport",
        },
    ]
}

/// The steps of setting an encoder up.
pub fn encoder_settings(contract: &EncoderContract) -> (r: [EncoderSetting; 8])
    requires
        contract.channel_count <= 2,
    ensures
        r@ == settings_of(*contract),
{
    let settings: [EncoderSetting; 8] = [
        EncoderSetting {
            parameter: EncoderParameter::AudioObjectType,
            value: 39,
            operation: "设置 AAC-ELD object type",
        },
        EncoderSetting {
            parameter: EncoderParameter::BitRate,
            value: contract.bit_rate,
            operation: "设置 AAC-ELD 比特率",
        },
        EncoderSetting {
            parameter: EncoderParameter::BitRateMode,
            value: 0,
            operation: "设置 AAC-ELD CBR 模式",
        },
        EncoderSetting {
            parameter: EncoderParameter::SampleRate,
            value: ARD_AUDIO_SAMPLE_RATE_HZ,
            operation: "设置 AAC-ELD 采样率",
        },
        EncoderSetting {
            parameter: EncoderParameter::SbrMode,
            value: 0,
            operation: "关闭 AAC-ELD SBR",
        },
        EncoderSetting {
            parameter: EncoderParameter::GranuleLength,
            value: 480,
            operation: "设置 AAC-ELD 480 样本帧长",
        },
        EncoderSetting {
            parameter: EncoderParameter::ChannelMode,
            value: contract.channel_count as u32,
            operation: "设置 AAC-ELD 声道模式",
        },
        EncoderSetting {
            parameter: EncoderParameter::Transmux,
            value: 0,
            operation: "设置 AAC-ELD raw transport",
        },
    ];
    assert(settings@ =~= settings_of(*contract));
    settings
}

/// Accepts the status of a step where it is zero.
pub fn check_encoder_status(status: u32, operation: &'static str) -> (r: Result<(), VncError>)
    ensures
        r == (if status == 0 {
            Ok::<(), VncError>(())
        } else {
            Err(
                VncError::RoleNumber {
                    role: operation,
                    after: " 失败: FDK AAC 错误码 ",
                    count: status as u64,
                },
            )
        }),
{
    if status != 0 {
        return Err(
            VncError::RoleNumber {
                role: operation,
                after: " 失败: FDK AAC 错误码 ",
                count: status as u64,
            },
        );
    }
    Ok(())
}

/// What an encoder tells of itself.
#[derive(Clone, Debug, PartialEq, Eq)]
pub struct EncoderInfo {
    pub input_channels: u32,
    pub frame_length: u32,
    /// How many bytes of the buffer tell how a decoder is set up.
    pub config_size: u32,
    pub config_buffer: Vec<u8>,
    pub max_output_bytes: u32,
}

/// The sizes of what an encoder takes and gives.
#[derive(Clone, Copy, Debug, PartialEq, Eq, Structural)]
pub struct EncoderShape {
    pub max_output_bytes: usize,
    pub input_sample_count: usize,
}

/// Why an encoder does not suit, where it does not.
pub open spec fn info_refusal(info: EncoderInfo, contract: EncoderContract) -> Option<VncError> {
    if info.input_channels != contract.channel_count {
        Some(
            VncError::Number {
                before: "AAC-ELD 编码器输入声道数不符合 ARD 协议: ",
                value: info.input_channels as u64,
                after: "",
            },
        )
    } else if info.frame_length != 480 {
        Some(
            VncError::Number {
                before: "AAC-ELD 编码器帧长不符合 ARD 协议: ",
                value: info.frame_length as u64,
                after: "",
            },
        )
    } else if info.config_size > info.config_buffer@.len() {
        Some(
            VncError::Number {
                before: "AAC-ELD AudioSpecificConfig 长度越界: ",
                value: info.config_size as u64,
                after: "",
            },
        )
    } else if info.config_buffer@.take(info.config_size as int)
        != contract.audio_specific_config@ {
        Some(VncError::Text("AAC-ELD AudioSpecificConfig 与 ARD 协议不一致"))
    } else if info.max_output_bytes == 0 {
        Some(VncError::Text("AAC-ELD 编码器报告空输出缓冲区"))
    } else {
        None
    }
}

/// Accepts an encoder that was made for the contract.
pub fn accept_encoder_info(info: &EncoderInfo, contract: &EncoderContract) -> (r: Result<
    EncoderShape,
    VncError,
>)
    requires
        contract.channel_count <= 2,
    ensures
        r == (match info_refusal(*info, *contract) {
            Some(e) => Err::<EncoderShape, VncError>(e),
            None => Ok(
                EncoderShape {
                    max_output_bytes: info.max_output_bytes as usize,
                    input_sample_count: (480 * contract.channel_count) as usize,
                },
            ),
        }),
{
    if info.input_channels as usize != contract.channel_count {
        return Err(
            VncError::Number {
                before: "AAC-ELD 编码器输入声道数不符合 ARD 协议: ",
                value: info.input_channels as u64,
                after: "",
            },
        );
    }
    if info.frame_length != 480 {
        return Err(
            VncError::Number {
                before: "AAC-ELD 编码器帧长不符合 ARD 协议: ",
                value: info.frame_length as u64,
                after: "",
            },
        );
    }
    let size: usize = info.config_size as usize;
    if size > info.config_buffer.len() {
        return Err(
            VncError::Number {
                before: "AAC-ELD AudioSpecificConfig 长度越界: ",
                value: info.config_size as u64,
                after: "",
            },
        );
    }
    let config = vstd::slice::slice_subrange(info.config_buffer.as_slice(), 0, size);
    assert(config@ =~= info.config_buffer@.take(size as int));
    if !same_bytes(config, contract.audio_specific_config.as_slice()) {
        return Err(VncError::Text("AAC-ELD AudioSpecificConfig 与 ARD 协议不一致"));
    }
    if info.max_output_bytes == 0 {
        return Err(VncError::Text("AAC-ELD 编码器报告空输出缓冲区"));
    }
    Ok(
        EncoderShape {
            max_output_bytes: info.max_output_bytes as usize,
            input_sample_count: ARD_AUDIO_SAMPLES_PER_ACCESS_UNIT * contract.channel_count,
        },
    )
}

/// Accepts samples that are one access unit.
pub fn check_pcm_frame(samples: usize, shape: &EncoderShape) -> (r: Result<(), VncError>)
    ensures
        r == (if samples == shape.input_sample_count {
            Ok::<(), VncError>(())
        } else {
            Err(
                VncError::Numbers {
                    before: "AAC-ELD 编码输入必须恰好为一帧: ",
                    first: samples as u64,
                    between: " != ",
                    second: shape.input_sample_count as u64,
                    after: "",
                },
            )
        }),
{
    if samples != shape.input_sample_count {
        return Err(
            VncError::Numbers {
                before: "AAC-ELD 编码输入必须恰好为一帧: ",
                first: samples as u64,
                between: " != ",
                second: shape.input_sample_count as u64,
                after: "",
            },
        );
    }
    Ok(())
}

/// The access unit that an encoder gave: it has to have taken all samples and given something.
pub open spec fn encoded_unit(output: Seq<u8>, consumed: i32, produced: i32, samples: int) -> Result<
    Seq<u8>,
    VncError,
> {
    if consumed < 0 || consumed != samples {
        Err(
            VncError::SignedOf {
                before: "AAC-ELD 编码器未完整消费 PCM 帧: ",
                number: consumed,
                between: "/",
                whole: samples as u64,
            },
        )
    } else if produced <= 0 {
        Err(VncError::Text("AAC-ELD 编码器没有产生 access unit"))
    } else if produced > output.len() {
        Err(
            VncError::Numbers {
                before: "AAC-ELD 编码器输出越界: ",
                first: produced as u64,
                between: " > ",
                second: output.len() as u64,
                after: "",
            },
        )
    } else {
        Ok(output.take(produced as int))
    }
}

/// Accepts the access unit that an encoder gave.
pub fn accept_encoded(output: Vec<u8>, consumed: i32, produced: i32, samples: usize) -> (r: Result<
    Vec<u8>,
    VncError,
>)
    ensures
        crate::error::viewed(r) == encoded_unit(output@, consumed, produced, samples as int),
{
    if consumed < 0 || consumed as usize != samples {
        return Err(
            VncError::SignedOf {
                before: "AAC-ELD 编码器未完整消费 PCM 帧: ",
                number: consumed,
                between: "/",
                whole: samples as u64,
            },
        );
    }
    if produced <= 0 {
        return Err(VncError::Text("AAC-ELD 编码器没有产生 access unit"));
    }
    let size: usize = produced as usize;
    if size > output.len() {
        return Err(
            VncError::Numbers {
                before: "AAC-ELD 编码器输出越界: ",
                first: size as u64,
                between: " > ",
                second: output.len() as u64,
                after: "",
            },
        );
    }
    let mut unit = output;
    unit.truncate(size);
    assert(unit@ =~= output@.take(size as int));
    Ok(unit)
}

/// An encoder is set up with every parameter once, the rate and the channels as the contract says,
/// and the rest the same for both: low delay without band replication, a constant rate, 48 kHz, 480
/// samples and a raw stream.
pub proof fn law_every_parameter_is_set(contract: EncoderContract, i: int, j: int)
    requires
        contract.channel_count <= 2,
        0 <= i < settings_of(contract).len(),
        0 <= j < settings_of(contract).len(),
    ensures
        settings_of(contract).len() == 8,
        i != j ==> settings_of(contract)[i].parameter != settings_of(contract)[j].parameter,
        settings_of(contract)[i].value == (match settings_of(contract)[i].parameter {
            EncoderParameter::AudioObjectType => 39,
            EncoderParameter::BitRate => contract.bit_rate as int,
            EncoderParameter::BitRateMode => 0,
            EncoderParameter::SampleRate => 48_000,
            EncoderParameter::SbrMode => 0,
            EncoderParameter::GranuleLength => 480,
            EncoderParameter::ChannelMode => contract.channel_count as int,
            EncoderParameter::Transmux => 0,
        }),
{
}

/// An encoder suits just where it takes so many channels and 480 samples of each, says what a decoder
/// of its units is to be set up with as the contract does, and has room for something.
pub proof fn law_suitable_encoders(info: EncoderInfo, contract: EncoderContract)
    ensures
        info_refusal(info, contract) is None <==> info.input_channels == contract.channel_count
            && info.frame_length == 480 && info.config_size <= info.config_buffer@.len()
            && info.max_output_bytes > 0 && info.config_buffer@.take(info.config_size as int)
            == contract.audio_specific_config@,
{
}

/// A unit that an encoder gave is what it wrote first, so many bytes as it told, none of them made
/// up; it is accepted just where all samples were taken and something within the buffer was given.
pub proof fn law_encoded_unit_is_what_was_written(
    output: Seq<u8>,
    consumed: i32,
    produced: i32,
    samples: int,
)
    requires
        0 <= samples,
    ensures
        encoded_unit(output, consumed, produced, samples) is Ok <==> consumed == samples && 1
            <= produced <= output.len(),
        encoded_unit(output, consumed, produced, samples) matches Ok(unit) ==> unit.len() == produced
            && unit =~= output.subrange(0, produced as int),
{
}

} // verus!
