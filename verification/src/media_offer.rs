//! The media offer: a message of numbered fields, compressed and put into a property list.

use vstd::prelude::*;
use crate::protobuf::{Field, MessageWriter};

verus! {

/// The field of the audio or video settings that tells a stream apart.
pub const SETTINGS_RTP_SSRC_FIELD: u32 = 1;

/// The field that holds the settings of an audio stream.
pub const VICEROY_AUDIO_SETTINGS_FIELD: u32 = 3;

/// The field that holds the settings of a video stream.
pub const VICEROY_VIDEO_SETTINGS_FIELD: u32 = 5;

/// The field that holds the user agent.
pub const VICEROY_USER_AGENT_FIELD: u32 = 6;

/// The field that tells the kind of network.
pub const VICEROY_ACCESS_NETWORK_TYPE_FIELD: u32 = 8;

/// The field that holds a bandwidth setting.
pub const VICEROY_BANDWIDTH_SETTINGS_FIELD: u32 = 9;

/// The field that holds the time.
pub const VICEROY_NTP_TIME_FIELD: u32 = 13;

/// The field that tells the version of the message.
pub const VICEROY_BLOB_VERSION_FIELD: u32 = 14;

/// The field that tells the version of the media control information.
pub const VICEROY_MEDIA_CONTROL_INFO_VERSION_FIELD: u32 = 16;

/// The mode of system audio.
pub const SCREEN_SHARING_AUDIO_NEGOTIATOR_MODE: u8 = 8;

/// The mode of the remote microphone.
pub const SCREEN_SHARING_REMOTE_MICROPHONE_NEGOTIATOR_MODE: u8 = 4;

/// The mode of video.
pub const SCREEN_SHARING_VIDEO_NEGOTIATOR_MODE: u8 = 5;

/// The key of the mode.
pub const MEDIA_NEGOTIATOR_MODE_KEY: &'static str = "avcMediaStreamNegotiatorMode";

/// The key of the compressed message.
pub const MEDIA_NEGOTIATOR_MEDIA_BLOB_KEY: &'static str = "avcMediaStreamNegotiatorMediaBlob";

/// The key of what is told of the endpoint.
pub const MEDIA_STREAM_REMOTE_ENDPOINT_INFO_KEY: &'static str =
    "avcMediaStreamOptionRemoteEndpointInfo";

/// The key of the call.
pub const MEDIA_STREAM_CALL_ID_KEY: &'static str = "avcMediaStreamOptionCallID";

/// `Viceroy 1.7.0`.
pub const VICEROY_USER_AGENT: [u8; 13] = [0x56, 0x69, 0x63, 0x65, 0x72, 0x6f, 0x79, 0x20, 0x31, 0x2e, 0x37, 0x2e, 0x30];

/// `Mac16,10`.
pub const SCREEN_SHARING_COMPATIBILITY_MODEL: [u8; 8] = [0x4d, 0x61, 0x63, 0x31, 0x36, 0x2c, 0x31, 0x30];

/// `2215.5.1`.
pub const SCREEN_SHARING_COMPATIBILITY_PRODUCT_VERSION: [u8; 8] = [0x32, 0x32, 0x31, 0x35, 0x2e, 0x35, 0x2e, 0x31];

/// `25G83`.
pub const SCREEN_SHARING_COMPATIBILITY_BUILD_VERSION: [u8; 5] = [0x32, 0x35, 0x47, 0x38, 0x33];

/// `FLS;SW:1;`.
pub const SCREEN_SHARING_PRIMARY_VIDEO_FEATURES: [u8; 9] = [0x46, 0x4c, 0x53, 0x3b, 0x53, 0x57, 0x3a, 0x31, 0x3b];

/// `FLS;VRAE:0;SW:1;`.
pub const SCREEN_SHARING_FALLBACK_VIDEO_FEATURES: [u8; 16] = [0x46, 0x4c, 0x53, 0x3b, 0x56, 0x52, 0x41, 0x45, 0x3a, 0x30, 0x3b, 0x53, 0x57, 0x3a, 0x31, 0x3b];

/// What is offered.
#[derive(Clone, Copy, Debug, PartialEq, Eq, Structural)]
pub enum MediaNegotiatorMode {
    Audio,
    RemoteMicrophone,
    Video,
}

impl MediaNegotiatorMode {
    /// The number of the mode.
    pub open spec fn number(self) -> u8 {
        match self {
            MediaNegotiatorMode::Audio => SCREEN_SHARING_AUDIO_NEGOTIATOR_MODE,
            MediaNegotiatorMode::RemoteMicrophone => SCREEN_SHARING_REMOTE_MICROPHONE_NEGOTIATOR_MODE,
            MediaNegotiatorMode::Video => SCREEN_SHARING_VIDEO_NEGOTIATOR_MODE,
        }
    }

    /// The number of the mode.
    pub fn wire_value(self) -> (r: u8)
        ensures
            r == self.number(),
    {
        match self {
            MediaNegotiatorMode::Audio => SCREEN_SHARING_AUDIO_NEGOTIATOR_MODE,
            MediaNegotiatorMode::RemoteMicrophone => SCREEN_SHARING_REMOTE_MICROPHONE_NEGOTIATOR_MODE,
            MediaNegotiatorMode::Video => SCREEN_SHARING_VIDEO_NEGOTIATOR_MODE,
        }
    }
}

/// A bandwidth that is offered.
#[derive(Clone, Copy, Debug, PartialEq, Eq, Structural)]
pub struct BandwidthSetting {
    pub configuration: u64,
    pub maximum: u64,
    pub configuration_extension: Option<u64>,
}

/// How many bandwidths are offered.
pub const SCREEN_SHARING_BANDWIDTH_SETTING_COUNT: usize = 10;

/// The bandwidths that are offered.
pub open spec fn bandwidths() -> Seq<BandwidthSetting> {
    seq![
        BandwidthSetting { configuration: 0, maximum: 40000000, configuration_extension: Some(12288) },
        BandwidthSetting { configuration: 4, maximum: 6500, configuration_extension: None },
        BandwidthSetting { configuration: 4074, maximum: 0, configuration_extension: Some(16384) },
        BandwidthSetting { configuration: 0, maximum: 6000000, configuration_extension: Some(131072) },
        BandwidthSetting { configuration: 1, maximum: 299, configuration_extension: None },
        BandwidthSetting { configuration: 0, maximum: 75000000, configuration_extension: Some(524288) },
        BandwidthSetting { configuration: 0, maximum: 20000000, configuration_extension: Some(98304) },
        BandwidthSetting { configuration: 0, maximum: 60000000, configuration_extension: Some(262144) },
        BandwidthSetting { configuration: 16, maximum: 4100, configuration_extension: None },
        BandwidthSetting { configuration: 0, maximum: 100000000, configuration_extension: Some(1048576) },
    ]
}

/// The bandwidths that are offered.
pub fn screen_sharing_bandwidth_settings() -> (r: [BandwidthSetting; 10])
    ensures
        r@ == bandwidths(),
{
    let settings = [
        BandwidthSetting { configuration: 0, maximum: 40000000, configuration_extension: Some(12288) },
        BandwidthSetting { configuration: 4, maximum: 6500, configuration_extension: None },
        BandwidthSetting { configuration: 4074, maximum: 0, configuration_extension: Some(16384) },
        BandwidthSetting { configuration: 0, maximum: 6000000, configuration_extension: Some(131072) },
        BandwidthSetting { configuration: 1, maximum: 299, configuration_extension: None },
        BandwidthSetting { configuration: 0, maximum: 75000000, configuration_extension: Some(524288) },
        BandwidthSetting { configuration: 0, maximum: 20000000, configuration_extension: Some(98304) },
        BandwidthSetting { configuration: 0, maximum: 60000000, configuration_extension: Some(262144) },
        BandwidthSetting { configuration: 16, maximum: 4100, configuration_extension: None },
        BandwidthSetting { configuration: 0, maximum: 100000000, configuration_extension: Some(1048576) },
    ];
    assert(settings@ =~= bandwidths());
    settings
}

/// The fields of audio settings.
pub open spec fn audio_settings(local_ssrc: u32) -> Seq<Field> {
    seq![
        Field::Number(SETTINGS_RTP_SSRC_FIELD, local_ssrc as u64),
        Field::Number(2, 0),
        Field::Number(3, 0),
        Field::Number(4, 24_191),
        Field::Number(5, 0),
        Field::Number(6, 0),
    ]
}

/// Writes audio settings.
pub fn build_audio_settings(local_ssrc: u32) -> (r: Vec<u8>)
    ensures
        r@ == crate::protobuf::message(audio_settings(local_ssrc)),
{
    let mut settings = MessageWriter::new();
    settings.number(SETTINGS_RTP_SSRC_FIELD, local_ssrc as u64);
    settings.number(2, 0);
    settings.number(3, 0);
    settings.number(4, 24_191);
    settings.number(5, 0);
    settings.number(6, 0);
    assert(settings.fields@ =~= audio_settings(local_ssrc));
    settings.bytes
}

/// The fields of a bandwidth.
pub open spec fn bandwidth_fields(setting: BandwidthSetting) -> Seq<Field> {
    let fixed = seq![
        Field::Number(1, setting.configuration),
        Field::Number(2, setting.maximum),
    ];
    match setting.configuration_extension {
        Some(extension) => fixed.push(Field::Number(3, extension)),
        None => fixed,
    }
}

/// Writes a bandwidth.
pub fn build_bandwidth_setting(setting: BandwidthSetting) -> (r: Vec<u8>)
    ensures
        r@ == crate::protobuf::message(bandwidth_fields(setting)),
{
    let mut wire = MessageWriter::new();
    wire.number(1, setting.configuration);
    wire.number(2, setting.maximum);
    if let Some(extension) = setting.configuration_extension {
        wire.number(3, extension);
    }
    assert(wire.fields@ =~= bandwidth_fields(setting));
    wire.bytes
}

/// What is told of the endpoint.
pub open spec fn endpoint_fields() -> Seq<Field> {
    seq![
        Field::Number(1, 0),
        Field::Number(2, 1),
        Field::Bytes(3, SCREEN_SHARING_COMPATIBILITY_MODEL@),
        Field::Bytes(4, SCREEN_SHARING_COMPATIBILITY_PRODUCT_VERSION@),
        Field::Bytes(5, SCREEN_SHARING_COMPATIBILITY_BUILD_VERSION@),
    ]
}

/// Writes what is told of the endpoint.
pub fn build_remote_endpoint_info() -> (r: Vec<u8>)
    ensures
        r@ == crate::protobuf::message(endpoint_fields()),
{
    let mut info = MessageWriter::new();
    info.number(1, 0);
    info.number(2, 1);
    info.bytes(3, SCREEN_SHARING_COMPATIBILITY_MODEL.as_slice());
    info.bytes(4, SCREEN_SHARING_COMPATIBILITY_PRODUCT_VERSION.as_slice());
    info.bytes(5, SCREEN_SHARING_COMPATIBILITY_BUILD_VERSION.as_slice());
    assert(info.fields@ =~= endpoint_fields());
    info.bytes
}

/// The fields of a rule: one for offers, one for answers.
pub open spec fn rule_fields(operation: u64) -> Seq<Field> {
    seq![
        Field::Number(1, 1),
        Field::Number(2, operation),
        Field::Number(3, 50_115),
        Field::Number(4, 0),
    ]
}

/// Writes a rule.
pub fn build_video_rule(operation: u64) -> (r: Vec<u8>)
    ensures
        r@ == crate::protobuf::message(rule_fields(operation)),
{
    let mut rule = MessageWriter::new();
    rule.number(1, 1);
    rule.number(2, operation);
    rule.number(3, 50_115);
    rule.number(4, 0);
    assert(rule.fields@ =~= rule_fields(operation));
    rule.bytes
}

/// The fields that hold rules.
pub open spec fn rules(operations: Seq<u64>) -> Seq<Field> {
    Seq::new(
        operations.len(),
        |i: int| Field::Bytes(2, crate::protobuf::message(rule_fields(operations[i]))),
    )
}

/// The fields of a payload.
pub open spec fn payload_fields(
    payload_type: u64,
    operations: Seq<u64>,
    features: Seq<u8>,
    parameter_set: u64,
) -> Seq<Field> {
    seq![Field::Number(1, payload_type)] + rules(operations) + seq![
        Field::Bytes(3, features),
        Field::Number(4, parameter_set),
    ]
}

/// Writes a payload.
pub fn build_video_payload(
    payload_type: u64,
    rule_operations: &[u64],
    feature_string: &[u8],
    parameter_set: u64,
) -> (r: Vec<u8>)
    ensures
        r@ == crate::protobuf::message(
            payload_fields(payload_type, rule_operations@, feature_string@, parameter_set),
        ),
{
    let mut payload = MessageWriter::new();
    payload.number(1, payload_type);
    let ghost first = seq![Field::Number(1, payload_type)];
    let mut i: usize = 0;
    assert(payload.fields@ =~= first + rules(rule_operations@).take(0));
    while i < rule_operations.len()
        invariant
            i <= rule_operations@.len(),
            payload.wf(),
            payload.fields@ == first + rules(rule_operations@).take(i as int),
        decreases rule_operations@.len() - i,
    {
        let rule = build_video_rule(rule_operations[i]);
        payload.bytes(2, rule.as_slice());
        assert(payload.fields@ =~= first + rules(rule_operations@).take(i + 1));
        i = i + 1;
    }
    payload.bytes(3, feature_string);
    payload.number(4, parameter_set);
    assert(payload.fields@ =~= payload_fields(
        payload_type,
        rule_operations@,
        feature_string@,
        parameter_set,
    ));
    payload.bytes
}

/// The rules of the first payload.
pub open spec fn primary_operations() -> Seq<u64> {
    seq![1, 2, 1, 2]
}

/// The rules of the second payload.
pub open spec fn fallback_operations() -> Seq<u64> {
    seq![1, 2]
}

/// The first payload.
pub open spec fn primary_payload() -> Seq<u8> {
    crate::protobuf::message(
        payload_fields(123, primary_operations(), SCREEN_SHARING_PRIMARY_VIDEO_FEATURES@, 1),
    )
}

/// The second payload.
pub open spec fn fallback_payload() -> Seq<u8> {
    crate::protobuf::message(
        payload_fields(100, fallback_operations(), SCREEN_SHARING_FALLBACK_VIDEO_FEATURES@, 14),
    )
}

/// The fields of video settings.
pub open spec fn video_settings(local_ssrc: u32) -> Seq<Field> {
    seq![
        Field::Number(SETTINGS_RTP_SSRC_FIELD, local_ssrc as u64),
        Field::Number(2, 0),
        Field::Bytes(3, primary_payload()),
        Field::Bytes(3, fallback_payload()),
        Field::Number(7, 1),
        Field::Number(8, 63),
        Field::Number(12, 1),
    ]
}

/// Writes video settings.
pub fn build_video_settings(local_ssrc: u32) -> (r: Vec<u8>)
    ensures
        r@ == crate::protobuf::message(video_settings(local_ssrc)),
{
    let primary_rules: [u64; 4] = [1, 2, 1, 2];
    let fallback_rules: [u64; 2] = [1, 2];
    assert(primary_rules@ =~= primary_operations());
    assert(fallback_rules@ =~= fallback_operations());
    let primary = build_video_payload(
        123,
        primary_rules.as_slice(),
        SCREEN_SHARING_PRIMARY_VIDEO_FEATURES.as_slice(),
        1,
    );
    let fallback = build_video_payload(
        100,
        fallback_rules.as_slice(),
        SCREEN_SHARING_FALLBACK_VIDEO_FEATURES.as_slice(),
        14,
    );
    let mut settings = MessageWriter::new();
    settings.number(SETTINGS_RTP_SSRC_FIELD, local_ssrc as u64);
    settings.number(2, 0);
    settings.bytes(3, primary.as_slice());
    settings.bytes(3, fallback.as_slice());
    settings.number(7, 1);
    settings.number(8, 63);
    settings.number(12, 1);
    assert(settings.fields@ =~= video_settings(local_ssrc));
    settings.bytes
}

/// The field that holds the settings of a mode.
pub open spec fn role_field(mode: MediaNegotiatorMode, local_ssrc: u32) -> Field {
    match mode {
        MediaNegotiatorMode::Audio | MediaNegotiatorMode::RemoteMicrophone => Field::Bytes(
            VICEROY_AUDIO_SETTINGS_FIELD,
            crate::protobuf::message(audio_settings(local_ssrc)),
        ),
        MediaNegotiatorMode::Video => Field::Bytes(
            VICEROY_VIDEO_SETTINGS_FIELD,
            crate::protobuf::message(video_settings(local_ssrc)),
        ),
    }
}

/// The fields that hold the bandwidths.
pub open spec fn bandwidth_list() -> Seq<Field> {
    Seq::new(
        bandwidths().len(),
        |i: int|
            Field::Bytes(
                VICEROY_BANDWIDTH_SETTINGS_FIELD,
                crate::protobuf::message(bandwidth_fields(bandwidths()[i])),
            ),
    )
}

/// The fields before the bandwidths.
pub open spec fn offer_head(mode: MediaNegotiatorMode, local_ssrc: u32) -> Seq<Field> {
    seq![
        Field::Number(1, 1),
        Field::Number(2, 1),
        role_field(mode, local_ssrc),
        Field::Bytes(VICEROY_USER_AGENT_FIELD, VICEROY_USER_AGENT@),
        Field::Number(VICEROY_ACCESS_NETWORK_TYPE_FIELD, 0),
    ]
}

/// The fields behind the bandwidths.
pub open spec fn offer_tail(ntp_time: u64) -> Seq<Field> {
    seq![
        Field::Number(VICEROY_NTP_TIME_FIELD, ntp_time),
        Field::Number(VICEROY_BLOB_VERSION_FIELD, 2),
        Field::Number(VICEROY_MEDIA_CONTROL_INFO_VERSION_FIELD, 0),
    ]
}

/// The fields of an offer.
pub open spec fn offer_fields(mode: MediaNegotiatorMode, local_ssrc: u32, ntp_time: u64) -> Seq<
    Field,
> {
    offer_head(mode, local_ssrc) + bandwidth_list() + offer_tail(ntp_time)
}

/// Writes an offer.
pub fn build_viceroy_offer_blob(mode: MediaNegotiatorMode, local_ssrc: u32, ntp_time: u64) -> (r: Vec<
    u8,
>)
    ensures
        r@ == crate::protobuf::message(offer_fields(mode, local_ssrc, ntp_time)),
{
    let mut blob = MessageWriter::new();
    blob.number(1, 1);
    blob.number(2, 1);
    match mode {
        MediaNegotiatorMode::Audio | MediaNegotiatorMode::RemoteMicrophone => {
            let settings = build_audio_settings(local_ssrc);
            blob.bytes(VICEROY_AUDIO_SETTINGS_FIELD, settings.as_slice());
        },
        MediaNegotiatorMode::Video => {
            let settings = build_video_settings(local_ssrc);
            blob.bytes(VICEROY_VIDEO_SETTINGS_FIELD, settings.as_slice());
        },
    }
    blob.bytes(VICEROY_USER_AGENT_FIELD, VICEROY_USER_AGENT.as_slice());
    blob.number(VICEROY_ACCESS_NETWORK_TYPE_FIELD, 0);
    let ghost head = offer_head(mode, local_ssrc);
    assert(blob.fields@ =~= head);
    let settings = screen_sharing_bandwidth_settings();
    let mut i: usize = 0;
    assert(blob.fields@ =~= head + bandwidth_list().take(0));
    while i < SCREEN_SHARING_BANDWIDTH_SETTING_COUNT
        invariant
            i <= 10,
            blob.wf(),
            settings@ == bandwidths(),
            blob.fields@ == head + bandwidth_list().take(i as int),
        decreases 10 - i,
    {
        let setting = build_bandwidth_setting(settings[i]);
        blob.bytes(VICEROY_BANDWIDTH_SETTINGS_FIELD, setting.as_slice());
        assert(blob.fields@ =~= head + bandwidth_list().take(i + 1));
        i = i + 1;
    }
    blob.number(VICEROY_NTP_TIME_FIELD, ntp_time);
    blob.number(VICEROY_BLOB_VERSION_FIELD, 2);
    blob.number(VICEROY_MEDIA_CONTROL_INFO_VERSION_FIELD, 0);
    assert(blob.fields@ =~= offer_fields(mode, local_ssrc, ntp_time));
    blob.bytes
}

/// Every offer is a message that the validation of answers accepts too.
pub proof fn law_offer_is_a_message(mode: MediaNegotiatorMode, local_ssrc: u32, ntp_time: u64)
    requires
        crate::protobuf::message(offer_fields(mode, local_ssrc, ntp_time)).len() <= usize::MAX,
    ensures
        crate::protobuf::message_refusal(
            crate::protobuf::message(offer_fields(mode, local_ssrc, ntp_time)),
        ) is None,
{
    let fields = offer_fields(mode, local_ssrc, ntp_time);
    assert(crate::protobuf::numbers_allowed(fields));
    crate::protobuf::law_message_is_accepted(fields);
}

} // verus!
