use frd_vnc::media_protocol::{
    parse_media_stream_control_discriminator, parse_media_stream_control_kind,
    parse_media_stream_port_announcement, MediaStreamControlKind,
};

const TEST_BASE_UDP_PORT: u16 = 0x4567;

/// `EncodeRFBMediaStreamMessage1` x86 指令序列的逐字节对应物：
/// primary stream、零矩形、encoding 0x3f2、Message 1、一个视频流。
const STATIC_ENCODER_ONE_VIDEO_FIXTURE: [u8; 54] = [
    0x00, 0x00, 0x00, 0x01, 0x00, 0x00, 0x00, 0x00, 0x00, 0x00, 0x00, 0x00, 0x00, 0x00, 0x03,
    0xf2, 0x00, 0x24, 0x00, 0x01, 0x00, 0x01, 0x00, 0x00, 0x00, 0x00, 0x45, 0x67, 0x00, 0x00,
    0x00, 0x01, 0x45, 0x68, 0x00, 0x00, 0x00, 0x01, 0x00, 0x00, 0x00, 0x00, 0x00, 0x00, 0x00,
    0x00, 0x00, 0x00, 0x00, 0x00, 0x00, 0x00, 0x00, 0x00,
];

#[test]
fn media_stream_control_discriminator_classifies_verified_pairs() {
    let port_announcement = [0x00, 0x04, 0x00, 0x01, 0x00, 0x01];
    let answer = [0x00, 0x04, 0x00, 0x02, 0x00, 0x02];

    assert_eq!(
        parse_media_stream_control_kind(&port_announcement).unwrap(),
        MediaStreamControlKind::PortAnnouncement
    );
    assert_eq!(
        parse_media_stream_control_kind(&answer).unwrap(),
        MediaStreamControlKind::Answer
    );
}

#[test]
fn parses_static_server_port_announcement_exactly() {
    let announcement =
        parse_media_stream_port_announcement(&STATIC_ENCODER_ONE_VIDEO_FIXTURE).unwrap();

    assert_eq!(announcement.audio.port, TEST_BASE_UDP_PORT);
    assert!(announcement.audio.is_announced());
    assert!(announcement.audio.flags.encoder_emitted_marker());
    assert!(!announcement.audio.flags.hdr());
    assert_eq!(announcement.video_stream_1.port, TEST_BASE_UDP_PORT + 1);
    assert!(announcement.video_stream_1.is_announced());
    assert!(announcement.video_stream_1.flags.encoder_emitted_marker());
    assert!(!announcement.video_stream_1.flags.hdr());
    assert_eq!(announcement.video_stream_2.port, 0);
    assert!(!announcement.video_stream_2.is_announced());
}

#[test]
fn rejects_truncated_port_announcement() {
    assert!(parse_media_stream_port_announcement(
        &STATIC_ENCODER_ONE_VIDEO_FIXTURE[..STATIC_ENCODER_ONE_VIDEO_FIXTURE.len() - 1]
    )
    .is_err());
}

#[test]
fn rejects_nonzero_reserved_tail() {
    let mut malformed = STATIC_ENCODER_ONE_VIDEO_FIXTURE;
    let last = malformed.len() - 1;
    malformed[last] = 1;

    assert!(parse_media_stream_port_announcement(&malformed).is_err());
}

#[test]
fn rejects_nonzero_port_without_encoder_emitted_marker() {
    let mut malformed = STATIC_ENCODER_ONE_VIDEO_FIXTURE;
    malformed[28..32].copy_from_slice(&0u32.to_be_bytes());

    assert!(parse_media_stream_port_announcement(&malformed).is_err());
}

#[test]
fn rejects_flags_on_an_absent_descriptor() {
    let mut malformed = STATIC_ENCODER_ONE_VIDEO_FIXTURE;
    malformed[40..44].copy_from_slice(&1u32.to_be_bytes());

    assert!(parse_media_stream_port_announcement(&malformed).is_err());
}

#[test]
fn the_discriminator_tells_the_length_of_the_body() {
    let found = parse_media_stream_control_discriminator(&[0x00, 0x24, 0x00, 0x01, 0x00, 0x01]).unwrap();
    assert_eq!(found.declared_body_len, 36);
    assert_eq!(found.kind, MediaStreamControlKind::PortAnnouncement);
    assert!(parse_media_stream_control_kind(&[0x00, 0x04, 0x00, 0x03, 0x00, 0x03]).is_err());
    assert!(parse_media_stream_control_kind(&[0x00, 0x04, 0x00, 0x01]).is_err());
}
