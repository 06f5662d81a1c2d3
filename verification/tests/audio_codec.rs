use frd_vnc::audio_codec::{
    accept_decoded, assemble_packet, bundle_rfc3640_single_access_unit, forward_sequence_advance,
    plan_packet, AacEldDecoder, ArdAudioReceiver, AudioReceiveOutcome, ForwardPoint, PacketPlan,
    ARD_AAC_ELD_DTX_ACCESS_UNIT, ARD_AUDIO_PCM_SAMPLES_PER_ACCESS_UNIT, ARD_AUDIO_RTP_PAYLOAD_TYPE,
    ARD_AUDIO_SAMPLES_PER_ACCESS_UNIT,
};
use frd_vnc::audio_encoder::{
    accept_encoded, accept_encoder_info, check_encoder_status, check_pcm_frame, encoder_settings,
    EncoderContract, EncoderInfo, EncoderParameter,
};
use frd_vnc::rtp::{parse_rtp_packet, RtpHeader};

#[test]
fn apple_aac_eld_dtx_access_unit_decodes_to_one_pcm_frame() {
    let mut decoder = AacEldDecoder::new().unwrap();
    let pcm = decoder
        .decode_access_unit(&ARD_AAC_ELD_DTX_ACCESS_UNIT)
        .unwrap();

    assert_eq!(pcm.len(), ARD_AUDIO_PCM_SAMPLES_PER_ACCESS_UNIT);
    assert!(pcm.iter().all(|sample| *sample == 0));
}


#[test]
fn scheme2_rfc3640_test_helper_writes_single_au_header() {
    const SCHEME2_FIXTURE_ACCESS_UNIT_BYTES: usize = 190;
    const SCHEME2_FIXTURE_RFC3640_HEADER: [u8; 4] = [0x00, 0x10, 0x05, 0xf0];
    let access_unit = vec![0xa5; SCHEME2_FIXTURE_ACCESS_UNIT_BYTES];

    let payload = bundle_rfc3640_single_access_unit(&access_unit).unwrap();

    assert_eq!(
        &payload[..SCHEME2_FIXTURE_RFC3640_HEADER.len()],
        &SCHEME2_FIXTURE_RFC3640_HEADER
    );
    assert_eq!(
        &payload[SCHEME2_FIXTURE_RFC3640_HEADER.len()..],
        access_unit
    );
}

fn audio_rtp_with_access_unit(
    sequence: u16,
    timestamp: u32,
    payload_type: u8,
    access_unit: &[u8],
) -> Vec<u8> {
    const RTP_VERSION_AND_FLAGS: u8 = 2 << 6;
    const TEST_SSRC: u32 = 0x1020_3040;
    let mut packet = vec![RTP_VERSION_AND_FLAGS, payload_type];
    packet.extend_from_slice(&sequence.to_be_bytes());
    packet.extend_from_slice(&timestamp.to_be_bytes());
    packet.extend_from_slice(&TEST_SSRC.to_be_bytes());
    packet.extend_from_slice(access_unit);
    packet
}

fn audio_rtp(sequence: u16, timestamp: u32, payload_type: u8) -> Vec<u8> {
    audio_rtp_with_access_unit(
        sequence,
        timestamp,
        payload_type,
        &ARD_AAC_ELD_DTX_ACCESS_UNIT,
    )
}

#[test]
fn audio_receiver_conceals_a_timestamp_aligned_sequence_gap() {
    const FIRST_SEQUENCE: u16 = 100;
    const FIRST_TIMESTAMP: u32 = 48_000;
    let mut receiver = ArdAudioReceiver::new().unwrap();
    receiver
        .decode_rtp_packet(&audio_rtp(
            FIRST_SEQUENCE,
            FIRST_TIMESTAMP,
            ARD_AUDIO_RTP_PAYLOAD_TYPE,
        ))
        .unwrap();

    let AudioReceiveOutcome::Decoded(decoded) = receiver
        .decode_rtp_packet(&audio_rtp(
            FIRST_SEQUENCE + 2,
            FIRST_TIMESTAMP + (ARD_AUDIO_SAMPLES_PER_ACCESS_UNIT as u32 * 2),
            ARD_AUDIO_RTP_PAYLOAD_TYPE,
        ))
        .unwrap()
    else {
        panic!("forward packet must decode")
    };

    assert_eq!(decoded.concealed_access_units, 1);
    assert_eq!(decoded.pcm.len(), ARD_AUDIO_PCM_SAMPLES_PER_ACCESS_UNIT * 2);
}

#[test]
fn audio_receiver_discards_late_packet_without_advancing_forward_state() {
    const FIRST_SEQUENCE: u16 = 100;
    const FIRST_TIMESTAMP: u32 = 48_000;
    let timestamp =
        |advance: u32| FIRST_TIMESTAMP + advance * ARD_AUDIO_SAMPLES_PER_ACCESS_UNIT as u32;
    let mut receiver = ArdAudioReceiver::new().unwrap();

    assert!(matches!(
        receiver
            .decode_rtp_packet(&audio_rtp(
                FIRST_SEQUENCE,
                timestamp(0),
                ARD_AUDIO_RTP_PAYLOAD_TYPE,
            ))
            .unwrap(),
        AudioReceiveOutcome::Decoded(_)
    ));

    let AudioReceiveOutcome::Decoded(gapped) = receiver
        .decode_rtp_packet(&audio_rtp(
            FIRST_SEQUENCE + 2,
            timestamp(2),
            ARD_AUDIO_RTP_PAYLOAD_TYPE,
        ))
        .unwrap()
    else {
        panic!("forward packet must decode")
    };
    assert_eq!(gapped.concealed_access_units, 1);

    assert_eq!(
        receiver
            .decode_rtp_packet(&audio_rtp(
                FIRST_SEQUENCE + 1,
                timestamp(1),
                ARD_AUDIO_RTP_PAYLOAD_TYPE,
            ))
            .unwrap(),
        AudioReceiveOutcome::DiscardedLate {
            sequence: FIRST_SEQUENCE + 1,
            last_forward_sequence: FIRST_SEQUENCE + 2,
        }
    );

    let AudioReceiveOutcome::Decoded(next) = receiver
        .decode_rtp_packet(&audio_rtp(
            FIRST_SEQUENCE + 3,
            timestamp(3),
            ARD_AUDIO_RTP_PAYLOAD_TYPE,
        ))
        .unwrap()
    else {
        panic!("next forward packet must decode")
    };
    assert_eq!(next.concealed_access_units, 0);
}


#[test]
fn audio_receiver_failed_large_gap_decode_preserves_forward_anchor() {
    const FIRST_SEQUENCE: u16 = 100;
    const FIRST_TIMESTAMP: u32 = 48_000;
    let mut receiver = ArdAudioReceiver::new().unwrap();
    receiver
        .decode_rtp_packet(&audio_rtp(
            FIRST_SEQUENCE,
            FIRST_TIMESTAMP,
            ARD_AUDIO_RTP_PAYLOAD_TYPE,
        ))
        .unwrap();

    let error = receiver
        .decode_rtp_packet(&audio_rtp_with_access_unit(
            FIRST_SEQUENCE + 118,
            9_000_000,
            ARD_AUDIO_RTP_PAYLOAD_TYPE,
            &[0],
        ))
        .unwrap_err();
    assert!(
        error.chain().contains("AAC-ELD"),
        "large-gap packet must reach the fresh decoder"
    );

    let AudioReceiveOutcome::Decoded(next) = receiver
        .decode_rtp_packet(&audio_rtp(
            FIRST_SEQUENCE + 1,
            FIRST_TIMESTAMP + ARD_AUDIO_SAMPLES_PER_ACCESS_UNIT as u32,
            ARD_AUDIO_RTP_PAYLOAD_TYPE,
        ))
        .unwrap()
    else {
        panic!("failed resynchronization must preserve the prior anchor")
    };
    assert_eq!(next.concealed_access_units, 0);
}

#[test]
fn audio_receiver_rejects_an_unnegotiated_payload_type() {
    let mut receiver = ArdAudioReceiver::new().unwrap();
    let error = receiver
        .decode_rtp_packet(&audio_rtp(1, 0, ARD_AUDIO_RTP_PAYLOAD_TYPE - 1))
        .unwrap_err();

    assert!(error.message().contains("payload type"));
}

fn header(sequence: u16, timestamp: u32) -> RtpHeader {
    RtpHeader {
        marker: false,
        payload_type: ARD_AUDIO_RTP_PAYLOAD_TYPE,
        sequence,
        timestamp,
        ssrc: 7,
    }
}

#[test]
fn a_sequence_is_ahead_by_less_than_half_of_all_numbers() {
    assert_eq!(forward_sequence_advance(65_535, 0), Some(1));
    assert_eq!(forward_sequence_advance(0, 0x7fff), Some(0x7fff));
    assert_eq!(forward_sequence_advance(0, 0x8000), None);
    assert_eq!(forward_sequence_advance(5, 5), None);
    assert_eq!(forward_sequence_advance(5, 4), None);
    for other in [1u16, 100, 0x7fff, 0x8000, 0xffff] {
        if forward_sequence_advance(0, other).is_some() {
            assert_eq!(forward_sequence_advance(other, 0), None);
        }
    }
}

#[test]
fn packets_are_planned_by_sequence_and_timestamp() {
    let last = Some(ForwardPoint { sequence: 65_535, timestamp: u32::MAX - 479 });
    assert_eq!(plan_packet(None, header(9, 9)).unwrap(), PacketPlan::Decode { concealed: 0 });
    assert_eq!(plan_packet(last, header(0, 0)).unwrap(), PacketPlan::Decode { concealed: 0 });
    assert_eq!(
        plan_packet(last, header(100, 48_000)).unwrap(),
        PacketPlan::Decode { concealed: 100 }
    );
    assert_eq!(
        plan_packet(last, header(101, 5)).unwrap(),
        PacketPlan::Resynchronize { skipped: 101 }
    );
    assert_eq!(
        plan_packet(last, header(65_534, 0)).unwrap(),
        PacketPlan::Discard { last: 65_535 }
    );
    assert_eq!(
        plan_packet(last, header(0, 1)).unwrap_err().message(),
        "ARD audio RTP timestamp 跳变不符合帧长: 481 != 480"
    );
}

#[test]
fn silence_stands_for_what_was_lost() {
    let packet = assemble_packet(header(3, 4), 2, &[5; 960]);
    assert_eq!(packet.pcm.len(), 3 * 960);
    assert!(packet.pcm[..1920].iter().all(|sample| *sample == 0));
    assert!(packet.pcm[1920..].iter().all(|sample| *sample == 5));
    assert_eq!((packet.sequence, packet.timestamp, packet.ssrc), (3, 4, 7));
}

#[test]
fn a_decoder_has_to_give_one_access_unit() {
    assert_eq!(accept_decoded(vec![1; 1000], 960, 48_000, 2, 2).unwrap(), [1; 960]);
    assert_eq!(
        accept_decoded(vec![1; 1000], 959, 48_000, 2, 2).unwrap_err().message(),
        "AAC-ELD 输出样本数不符合 ARD 协议: 959 != 960"
    );
    assert_eq!(
        accept_decoded(vec![1; 1000], 960, 44_100, 2, 2).unwrap_err().message(),
        "AAC-ELD 输出采样率不符合 ARD 协议: 44100"
    );
    assert_eq!(
        accept_decoded(vec![1; 1000], 480, 48_000, -1, 1).unwrap_err().message(),
        "AAC-ELD 输出声道数不符合 ARD 协议: -1"
    );
    let mut decoder = AacEldDecoder::new_for_pc_to_mac().unwrap();
    assert_eq!(
        decoder.decode_access_unit(&[]).unwrap_err().message(),
        "拒绝空 AAC-ELD access unit"
    );
}

#[test]
fn a_bundle_holds_a_unit_of_at_most_thirteen_bits() {
    assert!(bundle_rfc3640_single_access_unit(&[]).is_err());
    assert_eq!(
        bundle_rfc3640_single_access_unit(&vec![1; 8_191]).unwrap()[..4],
        [0x00, 0x10, 0xff, 0xf8]
    );
    assert_eq!(
        bundle_rfc3640_single_access_unit(&vec![1; 8_192]).unwrap_err().message(),
        "RFC 3640 AAC access unit 超过 13-bit AU-size: 8192"
    );
}

#[test]
fn a_stream_of_another_source_begins_anew() {
    let mut receiver = ArdAudioReceiver::new().unwrap();
    let mut packet = audio_rtp(100, 48_000, ARD_AUDIO_RTP_PAYLOAD_TYPE);
    receiver.decode_rtp_packet(&packet).unwrap();
    packet[11] ^= 1;
    packet[3] = 1;
    assert!(matches!(
        receiver.decode_rtp_packet(&packet).unwrap(),
        AudioReceiveOutcome::Decoded(_)
    ));
    let empty = audio_rtp_with_access_unit(1, 0, ARD_AUDIO_RTP_PAYLOAD_TYPE, &[]);
    assert_eq!(
        receiver.decode_rtp_packet(&empty).unwrap_err().message(),
        "ARD audio RTP payload 为空"
    );
    assert_eq!(
        receiver.decode_rtp_packet(&[0x80]).unwrap_err().chain(),
        "解析 ARD audio RTP 数据报失败: RTP 数据报过短"
    );
}

#[test]
fn packets_leave_out_sources_extensions_and_padding() {
    let mut packet = vec![0xb1, 0xe5, 0, 1, 0, 0, 0, 2, 0, 0, 0, 3];
    packet.extend_from_slice(&[9, 9, 9, 9]);
    packet.extend_from_slice(&[0xbe, 0xde, 0, 1, 8, 8, 8, 8]);
    packet.extend_from_slice(&[1, 2, 3, 0, 2]);
    let read = parse_rtp_packet(&packet).unwrap();
    assert_eq!(read.payload, [1, 2, 3]);
    assert!(read.header.marker);
    assert_eq!(read.header.payload_type, 101);
    assert_eq!((read.header.sequence, read.header.timestamp, read.header.ssrc), (1, 2, 3));
    assert!(parse_rtp_packet(&packet[..15]).is_err());
    assert!(parse_rtp_packet(&packet[..23]).is_err());
    let mut version = packet.clone();
    version[0] = 0x71;
    assert!(parse_rtp_packet(&version).is_err());
    let last = packet.len() - 1;
    packet[last] = 6;
    assert!(parse_rtp_packet(&packet).is_err());
}

#[test]
fn an_encoder_is_set_up_for_its_contract() {
    let contract = EncoderContract::pc_to_mac();
    let settings = encoder_settings(&contract);
    assert_eq!(settings[0].parameter, EncoderParameter::AudioObjectType);
    assert_eq!(settings[0].value, 39);
    assert_eq!(settings[1].value, 80_000);
    assert_eq!(settings[5].value, 480);
    assert_eq!(settings[6].value, 1);
    assert_eq!(encoder_settings(&EncoderContract::mac_to_pc())[1].value, 320_000);
    assert!(check_encoder_status(0, "x").is_ok());
    assert_eq!(
        check_encoder_status(33, "设置 AAC-ELD 比特率").unwrap_err().message(),
        "设置 AAC-ELD 比特率 失败: FDK AAC 错误码 33"
    );

    let info = EncoderInfo {
        input_channels: 1,
        frame_length: 480,
        config_size: 4,
        config_buffer: vec![0xf8, 0xe6, 0x30, 0x00, 0, 0],
        max_output_bytes: 768,
    };
    let shape = accept_encoder_info(&info, &contract).unwrap();
    assert_eq!((shape.max_output_bytes, shape.input_sample_count), (768, 480));
    let mut wrong = info.clone();
    wrong.frame_length = 512;
    assert!(accept_encoder_info(&wrong, &contract).is_err());
    wrong = info.clone();
    wrong.config_buffer[2] = 0x50;
    assert!(accept_encoder_info(&wrong, &contract).is_err());
    wrong = info.clone();
    wrong.config_size = 7;
    assert!(accept_encoder_info(&wrong, &contract).is_err());
    wrong = info.clone();
    wrong.max_output_bytes = 0;
    assert!(accept_encoder_info(&wrong, &contract).is_err());
    assert!(accept_encoder_info(&info, &EncoderContract::mac_to_pc()).is_err());

    assert!(check_pcm_frame(480, &shape).is_ok());
    assert!(check_pcm_frame(479, &shape).is_err());
    assert_eq!(accept_encoded(vec![1, 2, 3], 480, 2, 480).unwrap(), [1, 2]);
    assert_eq!(
        accept_encoded(vec![1, 2, 3], 479, 2, 480).unwrap_err().message(),
        "AAC-ELD 编码器未完整消费 PCM 帧: 479/480"
    );
    assert!(accept_encoded(vec![1, 2, 3], 480, 0, 480).is_err());
    assert!(accept_encoded(vec![1, 2, 3], 480, 4, 480).is_err());
}
