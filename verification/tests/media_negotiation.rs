use flate2::write::ZlibEncoder;
use flate2::Compression;
use frd_vnc::binary_plist::{
    append_binary_plist_count, binary_plist_ascii_string, binary_plist_data, BinaryPlistReader,
    BINARY_PLIST_DICTIONARY_MARKER,
};
use frd_vnc::media_negotiation::{
    accept_inflated, assemble_offer, build_media_negotiator_offer,
    encode_client_media_stream_configuration, marked_uuid, ntp_time,
    parse_avconference_answer_container, parse_compressed_answer, parse_media_stream_answer,
    random_nonzero_ssrc, random_uuid_v4_bytes, AudioMediaFlow, ClientMediaStreamConfiguration,
    Draws, Inflated, MediaStreamConfigurationEntry, SrtpMasterMaterial, SRTP_AES_256_MASTER_KEY_LEN,
    SRTP_MASTER_SALT_LEN,
};
use frd_vnc::media_offer::{
    build_bandwidth_setting, build_remote_endpoint_info, build_viceroy_offer_blob,
    screen_sharing_bandwidth_settings, BandwidthSetting, MediaNegotiatorMode,
    MEDIA_NEGOTIATOR_MEDIA_BLOB_KEY, MEDIA_NEGOTIATOR_MODE_KEY, MEDIA_STREAM_CALL_ID_KEY,
    MEDIA_STREAM_REMOTE_ENDPOINT_INFO_KEY, SCREEN_SHARING_AUDIO_NEGOTIATOR_MODE,
    SCREEN_SHARING_REMOTE_MICROPHONE_NEGOTIATOR_MODE, VICEROY_ACCESS_NETWORK_TYPE_FIELD,
    VICEROY_BANDWIDTH_SETTINGS_FIELD, VICEROY_NTP_TIME_FIELD, VICEROY_USER_AGENT,
};
use frd_vnc::offer_list::{binary_plist_offer, uuid_text};
use frd_vnc::protobuf::{
    append_protobuf_bytes_field, append_protobuf_varint, append_protobuf_varint_field,
    parse_protobuf_varint, validate_protobuf, PROTOBUF_LENGTH_DELIMITED_WIRE_TYPE,
    PROTOBUF_VARINT_WIRE_TYPE,
};
use flate2::read::ZlibDecoder;
use std::io::{Read, Write};

const TEST_AUDIO_SSRC: u32 = 0x1020_3040;
const TEST_VIDEO_SSRC: u32 = 0x5060_7080;

fn material(key_byte: u8, salt_byte: u8) -> SrtpMasterMaterial {
    SrtpMasterMaterial {
        master_key: [key_byte; SRTP_AES_256_MASTER_KEY_LEN],
        master_salt: [salt_byte; SRTP_MASTER_SALT_LEN],
    }
}

fn entry(
    mode: MediaNegotiatorMode,
    ssrc: u32,
    send_byte: u8,
    receive_byte: u8,
) -> MediaStreamConfigurationEntry {
    MediaStreamConfigurationEntry {
        viewer_to_server: material(send_byte, send_byte),
        server_to_viewer: material(receive_byte, receive_byte),
        offer: build_media_negotiator_offer(mode, ssrc).unwrap(),
    }
}


#[test]
fn builds_current_binary_plist_offers_with_mode_specific_protobuf() {
    let audio =
        build_media_negotiator_offer(MediaNegotiatorMode::Audio, TEST_AUDIO_SSRC).unwrap();
    let remote_microphone =
        build_media_negotiator_offer(MediaNegotiatorMode::RemoteMicrophone, TEST_AUDIO_SSRC)
            .unwrap();
    let video =
        build_media_negotiator_offer(MediaNegotiatorMode::Video, TEST_VIDEO_SSRC).unwrap();

    assert!(audio.bytes.starts_with(b"bplist00"));
    assert!(video.bytes.starts_with(b"bplist00"));
    assert_ne!(audio.bytes, video.bytes);
    for offer in [audio, remote_microphone, video] {
        let mut protobuf = Vec::new();
        ZlibDecoder::new(offer.compressed_media_blob.as_slice())
            .read_to_end(&mut protobuf)
            .unwrap();
        assert!(protobuf
            .windows(VICEROY_USER_AGENT.len())
            .any(|part| part == VICEROY_USER_AGENT));
    }
}

#[test]
fn binary_plist_trailer_serialization_and_parse_boundaries_are_exact() {
    let bytes = binary_plist_offer(
        MediaNegotiatorMode::Audio,
        &[0x78, 0xda, 0x01],
        &[0x11, 0x22],
        "00112233-4455-6677-8899-aabbccddeeff",
    )
    .unwrap();
    let trailer_start = bytes.len() - 32;
    let trailer = &bytes[trailer_start..];

    assert_eq!(trailer.len(), 32);
    assert_eq!(&trailer[..6], &[0, 0, 0, 0, 0, 0]);
    assert_eq!(trailer[6], 1);
    assert_eq!(trailer[7], 1);
    assert_eq!(&trailer[8..16], &9u64.to_be_bytes());
    assert_eq!(&trailer[16..24], &0u64.to_be_bytes());
    let offset_table_offset =
        usize::try_from(u64::from_be_bytes(trailer[24..32].try_into().unwrap())).unwrap();
    assert_eq!(offset_table_offset + 9, trailer_start);

    let parsed = BinaryPlistReader::new(&bytes).unwrap();
    assert_eq!(parsed.offsets.len(), 9);
    assert_eq!(parsed.reference_size, 1);
    assert_eq!(parsed.root_object, 0);
    assert_eq!(parsed.offset_table_offset, offset_table_offset);

    let mut nonzero_reserved = bytes.clone();
    nonzero_reserved[trailer_start] = 1;
    assert!(BinaryPlistReader::new(&nonzero_reserved).is_err());

    let mut truncated = bytes;
    truncated.pop();
    assert!(BinaryPlistReader::new(&truncated).is_err());
}

#[test]
fn remote_microphone_offer_carries_complete_apple_negotiation_profile() {
    let offer =
        build_media_negotiator_offer(MediaNegotiatorMode::RemoteMicrophone, TEST_AUDIO_SSRC)
            .unwrap();
    let mut protobuf = Vec::new();
    ZlibDecoder::new(offer.compressed_media_blob.as_slice())
        .read_to_end(&mut protobuf)
        .unwrap();

    let mut position = 0usize;
    let mut field_numbers = Vec::new();
    while position < protobuf.len() {
        let tag = parse_protobuf_varint(&protobuf, &mut position).unwrap();
        let field_number = tag >> 3;
        let wire_type = tag & 0x07;
        field_numbers.push(field_number);
        match wire_type {
            PROTOBUF_VARINT_WIRE_TYPE => {
                parse_protobuf_varint(&protobuf, &mut position).unwrap();
            }
            PROTOBUF_LENGTH_DELIMITED_WIRE_TYPE => {
                let length = parse_protobuf_varint(&protobuf, &mut position).unwrap() as usize;
                position += length;
            }
            _ => panic!("测试 offer 包含意外 wire type {wire_type}"),
        }
    }

    assert!(field_numbers.contains(&u64::from(VICEROY_ACCESS_NETWORK_TYPE_FIELD)));
    assert_eq!(
        field_numbers
            .iter()
            .filter(|field| **field == u64::from(VICEROY_BANDWIDTH_SETTINGS_FIELD))
            .count(),
        screen_sharing_bandwidth_settings().len()
    );
    assert!(field_numbers.contains(&u64::from(VICEROY_NTP_TIME_FIELD)));
    for key in [
        MEDIA_NEGOTIATOR_MODE_KEY,
        MEDIA_NEGOTIATOR_MEDIA_BLOB_KEY,
        MEDIA_STREAM_REMOTE_ENDPOINT_INFO_KEY,
        MEDIA_STREAM_CALL_ID_KEY,
    ] {
        assert!(offer
            .bytes
            .windows(key.len())
            .any(|window| window == key.as_bytes()));
    }
    assert_eq!(
        build_remote_endpoint_info(),
        b"\x08\x00\x10\x01\x1a\x08Mac16,10\x22\x08"
            .iter()
            .chain(b"2215.5.1\x2a\x0525G83")
            .copied()
            .collect::<Vec<_>>()
    );
}

#[test]
fn generated_configuration_uses_uuid_and_independent_directional_material() {
    let configuration = ClientMediaStreamConfiguration::generate_one_video().unwrap();

    assert_eq!(configuration.session_id[6] >> 4, 4);
    assert_eq!(configuration.session_id[8] >> 6, 2);
    assert_ne!(configuration.audio.offer.local_ssrc, 0);
    assert_ne!(configuration.video_stream_1.offer.local_ssrc, 0);
    assert_ne!(
        configuration.audio.viewer_to_server,
        configuration.audio.server_to_viewer
    );
    assert_ne!(
        configuration.audio.viewer_to_server,
        configuration.video_stream_1.viewer_to_server
    );
}

#[test]
fn audio_flow_selects_the_named_system_audio_or_remote_microphone_mode() {
    let mac_to_pc = ClientMediaStreamConfiguration::generate_one_video_with_audio_flow(
        AudioMediaFlow::MacToPc,
    )
    .unwrap();
    let pc_to_mac = ClientMediaStreamConfiguration::generate_one_video_with_audio_flow(
        AudioMediaFlow::PcToMac,
    )
    .unwrap();

    assert_eq!(mac_to_pc.audio.offer.mode, MediaNegotiatorMode::Audio);
    assert_eq!(
        mac_to_pc.audio.offer.mode.wire_value(),
        SCREEN_SHARING_AUDIO_NEGOTIATOR_MODE
    );
    assert_eq!(
        pc_to_mac.audio.offer.mode,
        MediaNegotiatorMode::RemoteMicrophone
    );
    assert_eq!(
        pc_to_mac.audio.offer.mode.wire_value(),
        SCREEN_SHARING_REMOTE_MICROPHONE_NEGOTIATOR_MODE
    );
}

#[test]
fn encodes_version_three_configuration_and_splits_directional_material() {
    let configuration = ClientMediaStreamConfiguration {
        session_id: [0x77; 16],
        audio: entry(MediaNegotiatorMode::Audio, TEST_AUDIO_SSRC, 0x11, 0x22),
        video_stream_1: entry(MediaNegotiatorMode::Video, TEST_VIDEO_SSRC, 0x33, 0x44),
        video_stream_2: None,
    };

    let frame = encode_client_media_stream_configuration(&configuration).unwrap();

    assert_eq!(frame[0], 0x1c);
    assert_eq!(
        u16::from_be_bytes(frame[2..4].try_into().unwrap()) as usize + 4,
        frame.len()
    );
    assert_eq!(&frame[4..6], &3u16.to_be_bytes());
    let audio_material_offset = 20 + 16;
    assert_eq!(
        &frame[audio_material_offset..audio_material_offset + 32],
        &[0x11; 32]
    );
    assert_eq!(
        &frame[audio_material_offset + 32..audio_material_offset + 46],
        &[0x11; 14]
    );
    assert_eq!(
        &frame[audio_material_offset + 46..audio_material_offset + 78],
        &[0x22; 32]
    );
}




fn compressed(bytes: &[u8]) -> Vec<u8> {
    let mut encoder = ZlibEncoder::new(Vec::new(), Compression::default());
    encoder.write_all(bytes).unwrap();
    encoder.finish().unwrap()
}

/// A list whose root is a dictionary of texts and data.
fn data_list(entries: &[(&str, &[u8])]) -> Vec<u8> {
    let mut objects = Vec::new();
    let mut root = Vec::new();
    append_binary_plist_count(BINARY_PLIST_DICTIONARY_MARKER, entries.len(), &mut root);
    for index in 0..entries.len() {
        root.push(1 + index as u8);
    }
    for index in 0..entries.len() {
        root.push(1 + (entries.len() + index) as u8);
    }
    objects.push(root);
    for (key, _) in entries {
        objects.push(binary_plist_ascii_string(key).unwrap());
    }
    for (_, value) in entries {
        objects.push(binary_plist_data(value));
    }
    let mut bytes = b"bplist00".to_vec();
    let mut offsets = Vec::new();
    for object in &objects {
        offsets.push(bytes.len() as u16);
        bytes.extend_from_slice(object);
    }
    let table = bytes.len() as u64;
    for offset in &offsets {
        bytes.extend_from_slice(&offset.to_be_bytes());
    }
    bytes.extend_from_slice(&[0, 0, 0, 0, 0, 0, 2, 1]);
    bytes.extend_from_slice(&(objects.len() as u64).to_be_bytes());
    bytes.extend_from_slice(&0u64.to_be_bytes());
    bytes.extend_from_slice(&table.to_be_bytes());
    bytes
}

fn answer_message() -> Vec<u8> {
    let mut message = Vec::new();
    append_protobuf_varint_field(1, 300, &mut message);
    append_protobuf_bytes_field(2, b"answer", &mut message);
    message
}

fn answer_container() -> Vec<u8> {
    data_list(&[(MEDIA_NEGOTIATOR_MEDIA_BLOB_KEY, &compressed(&answer_message()))])
}

fn answer_frame(include_video_2: bool) -> Vec<u8> {
    let audio = answer_container();
    let video_1 = answer_container();
    let video_2 = if include_video_2 {
        answer_container()
    } else {
        Vec::new()
    };
    let mut body = Vec::new();
    body.extend_from_slice(&2u16.to_be_bytes());
    body.extend_from_slice(&2u16.to_be_bytes());
    let flags = if include_video_2 { 0b11u32 } else { 0b01u32 };
    body.extend_from_slice(&flags.to_be_bytes());
    body.extend_from_slice(&(audio.len() as u16).to_be_bytes());
    body.extend_from_slice(&(video_1.len() as u16).to_be_bytes());
    body.extend_from_slice(&(video_2.len() as u16).to_be_bytes());
    body.extend_from_slice(&[0; 4]);
    body.extend_from_slice(&audio);
    body.extend_from_slice(&video_1);
    body.extend_from_slice(&video_2);
    let mut frame = Vec::new();
    frame.extend_from_slice(&1u32.to_be_bytes());
    frame.extend_from_slice(&[0; 8]);
    frame.extend_from_slice(&0x03f2i32.to_be_bytes());
    frame.extend_from_slice(&(body.len() as u16).to_be_bytes());
    frame.extend_from_slice(&body);
    frame
}

#[test]
fn an_answer_of_two_videos_is_read() {
    let frame = answer_frame(true);
    let answer = parse_media_stream_answer(&frame).unwrap();
    assert!(answer.stream_1_supports_60_fps);
    assert!(answer.stream_2_supports_60_fps);
    assert_eq!(answer.audio.decompressed, answer_message());
    assert_eq!(answer.audio.compressed, compressed(&answer_message()));
    assert!(answer.video_stream_2.is_some());

    let mut reserved = frame.clone();
    reserved[32] = 1;
    assert!(parse_media_stream_answer(&reserved).is_err());

    let mut trailing = frame;
    trailing.push(0);
    assert!(parse_media_stream_answer(&trailing).is_err());
}

#[test]
fn an_answer_of_one_video_is_read() {
    let answer = parse_media_stream_answer(&answer_frame(false)).unwrap();
    assert!(answer.stream_1_supports_60_fps);
    assert!(!answer.stream_2_supports_60_fps);
    assert!(answer.video_stream_2.is_none());
}

#[test]
fn the_container_of_an_answer_holds_a_media_blob_and_known_keys() {
    let endpoint = data_list(&[
        (MEDIA_STREAM_REMOTE_ENDPOINT_INFO_KEY, &build_remote_endpoint_info()),
        (MEDIA_NEGOTIATOR_MEDIA_BLOB_KEY, &compressed(&answer_message())),
    ]);
    let answer = parse_avconference_answer_container(&endpoint, "audio").unwrap();
    assert_eq!(answer.decompressed, answer_message());

    let missing = data_list(&[(MEDIA_STREAM_REMOTE_ENDPOINT_INFO_KEY, &[])]);
    let error = parse_avconference_answer_container(&missing, "audio").unwrap_err();
    assert_eq!(error.message(), "audio answer 缺少 media blob");

    let unknown = data_list(&[
        (MEDIA_NEGOTIATOR_MEDIA_BLOB_KEY, &compressed(&answer_message())),
        ("somethingElse", &[1]),
    ]);
    let error = parse_avconference_answer_container(&unknown, "video").unwrap_err();
    assert_eq!(error.message(), "video answer plist 包含未知键");
}

#[test]
fn a_compressed_answer_has_to_be_whole_and_a_message() {
    let good = compressed(&answer_message());
    assert_eq!(parse_compressed_answer(&good, "audio").unwrap().decompressed, answer_message());
    assert!(parse_compressed_answer(&good[..good.len() - 1], "audio").is_err());
    assert!(parse_compressed_answer(&[], "audio").is_err());
    assert!(parse_compressed_answer(&[1, 2, 3], "audio").is_err());
    assert!(parse_compressed_answer(&compressed(&[0xff]), "audio").is_err());
    let mut trailing = good;
    trailing.push(0);
    assert!(parse_compressed_answer(&trailing, "audio").is_err());
}

#[test]
fn an_inflated_answer_is_accepted_only_where_all_of_it_was_read() {
    let message = answer_message();
    let inflated = |finished: bool, total_in: u64| Inflated {
        finished,
        total_in,
        total_out: message.len() as u64,
        output: message.clone(),
    };
    let source = [1u8, 2, 3];
    assert_eq!(
        accept_inflated(&source, Some(inflated(true, 3)), "audio").unwrap().decompressed,
        message
    );
    assert!(accept_inflated(&source, Some(inflated(false, 3)), "audio").is_err());
    assert!(accept_inflated(&source, Some(inflated(true, 2)), "audio").is_err());
    assert!(accept_inflated(&source, None, "audio").is_err());
}

#[test]
fn network_time_counts_from_1900_with_a_binary_fraction() {
    assert_eq!(ntp_time(0, 0).unwrap(), 2_208_988_800 << 32);
    assert_eq!(ntp_time(1, 500_000_000).unwrap(), (2_208_988_801 << 32) + (1 << 31));
    assert_eq!(
        ntp_time(u64::from(u32::MAX), 0).unwrap_err().message(),
        "NTP era 0 秒数已耗尽"
    );
    assert_eq!(ntp_time(u64::MAX, 0).unwrap_err().message(), "NTP 秒数溢出");
}

#[test]
fn an_identifier_is_marked_and_written_in_groups() {
    let uuid = marked_uuid([0xff; 16]);
    assert_eq!(uuid[6], 0x4f);
    assert_eq!(uuid[8], 0xbf);
    assert_eq!(uuid_text(&uuid), "FFFFFFFF-FFFF-4FFF-BFFF-FFFFFFFFFFFF");
    let mut draws = Draws::new();
    let drawn = random_uuid_v4_bytes(&mut draws).unwrap();
    assert_eq!(drawn[6] >> 4, 4);
    assert_ne!(drawn, random_uuid_v4_bytes(&mut draws).unwrap());
    assert_ne!(random_nonzero_ssrc(&mut draws).unwrap(), 0);
}

#[test]
fn an_assembled_offer_is_a_list_that_opens() {
    let offer = assemble_offer(MediaNegotiatorMode::Video, 7, vec![1, 2, 3], &[0x11; 16]).unwrap();
    assert_eq!(offer.local_ssrc, 7);
    assert_eq!(offer.compressed_media_blob, [1, 2, 3]);
    let list = BinaryPlistReader::new(&offer.bytes).unwrap();
    assert_eq!(list.offsets.len(), 9);
    assert!(assemble_offer(MediaNegotiatorMode::Video, 7, vec![0; 66_000], &[0x11; 16]).is_err());
}

#[test]
fn numbers_of_a_message_are_read_back() {
    for value in [0u64, 1, 127, 128, 300, u64::from(u32::MAX), u64::MAX] {
        let mut bytes = Vec::new();
        append_protobuf_varint(value, &mut bytes);
        let mut position = 0;
        assert_eq!(parse_protobuf_varint(&bytes, &mut position).unwrap(), value);
        assert_eq!(position, bytes.len());
    }
    let mut bytes = Vec::new();
    append_protobuf_varint(300, &mut bytes);
    assert_eq!(bytes, [0xac, 0x02]);
    assert!(validate_protobuf(&answer_message()).is_ok());
    assert!(validate_protobuf(&[0x12, 0x05, 0x00]).is_err());
}

#[test]
fn an_offer_blob_is_a_message() {
    for mode in [
        MediaNegotiatorMode::Audio,
        MediaNegotiatorMode::RemoteMicrophone,
        MediaNegotiatorMode::Video,
    ] {
        assert!(validate_protobuf(&build_viceroy_offer_blob(mode, 1, 2)).is_ok());
    }
    let setting = BandwidthSetting {
        configuration: 1,
        maximum: 300,
        configuration_extension: None,
    };
    assert_eq!(build_bandwidth_setting(setting), [0x08, 0x01, 0x10, 0xac, 0x02]);
}

#[test]
fn the_message_of_an_offer_is_read_back() {
    let offer = build_media_negotiator_offer(MediaNegotiatorMode::Audio, TEST_AUDIO_SSRC).unwrap();
    let answer = parse_compressed_answer(&offer.compressed_media_blob, "audio").unwrap();
    assert_eq!(answer.compressed, offer.compressed_media_blob);
    let mut protobuf = Vec::new();
    ZlibDecoder::new(offer.compressed_media_blob.as_slice())
        .read_to_end(&mut protobuf)
        .unwrap();
    assert_eq!(answer.decompressed, protobuf);
    assert_ne!(answer.decompressed, answer.compressed);
}

#[test]
fn each_direction_draws_key_material_of_its_own() {
    let mut draws = Draws::new();
    let entry =
        MediaStreamConfigurationEntry::generate(MediaNegotiatorMode::Video, &mut draws).unwrap();
    assert_ne!(entry.viewer_to_server.master_key, entry.server_to_viewer.master_key);
    assert_ne!(entry.viewer_to_server.master_salt, entry.server_to_viewer.master_salt);
    assert_ne!(entry.viewer_to_server, SrtpMasterMaterial::generate(&mut draws).unwrap());
    assert_ne!(entry.offer.local_ssrc, 0);
}
