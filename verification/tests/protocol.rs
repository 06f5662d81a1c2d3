use frd_vnc::protocol::{
    encode_rfb_banner, msg_fb_update_request, msg_key_event, msg_pointer_event, msg_set_encodings,
    msg_set_pixel_format, parse_rfb_banner, pointer, security, security_type_name, PixelFormat,
    RfbClientMessageType, RfbServerMessageType, SUPPORTED_ENCODINGS,
};

#[test]
fn pointer_mask_owners_match_independent_boundary_and_combined_fixtures() {
    assert_eq!(
        [
            pointer::PRIMARY,
            pointer::MIDDLE,
            pointer::SECONDARY,
            pointer::WHEEL_UP,
            pointer::WHEEL_DOWN,
            pointer::WHEEL_RIGHT,
            pointer::WHEEL_LEFT,
        ],
        [1, 2, 4, 8, 16, 32, 64]
    );
    assert_eq!(
        msg_pointer_event(pointer::PRIMARY | pointer::WHEEL_LEFT, u16::MAX, 0),
        [5, 65, 0xff, 0xff, 0, 0]
    );
}

#[test]
fn a_banner_is_read_back() {
    for (major, minor) in [(3, 3), (3, 8), (3, 889), (0, 0), (999, 999)] {
        let bytes = encode_rfb_banner(major, minor).unwrap();
        let banner = parse_rfb_banner(&bytes).unwrap();
        assert_eq!((banner.major, banner.minor), (major, minor));
        assert_eq!(banner.wire, bytes);
    }
    assert_eq!(parse_rfb_banner(b"RFB 003.889\n").unwrap().display, "RFB 003.889");
    assert_eq!(&encode_rfb_banner(3, 8).unwrap(), b"RFB 003.008\n");
}

#[test]
fn what_is_no_banner_is_refused() {
    let long: &[u8] = b"RFB 003.008\n ";
    let wrong: [&[u8]; 7] = [
        b"",
        b"RFB 003.008",
        long,
        b"RFC 003.008\n",
        b"RFB 003,008\n",
        b"RFB 00a.008\n",
        b"RFB 003.008\r",
    ];
    for bytes in wrong {
        assert!(parse_rfb_banner(bytes).is_err());
    }
    assert!(encode_rfb_banner(1000, 0).is_err());
    assert!(encode_rfb_banner(0, 1000).is_err());
}

#[test]
fn the_pixel_format_of_the_client_is_written_and_read_back() {
    let message = msg_set_pixel_format(&PixelFormat::ours());
    assert_eq!(
        message,
        [0, 0, 0, 0, 32, 24, 0, 1, 0, 255, 0, 255, 0, 255, 16, 8, 0, 0, 0, 0]
    );
    assert_eq!(PixelFormat::read(&message, 4), PixelFormat::ours());
}

#[test]
fn encodings_are_listed_the_best_first() {
    assert_eq!(
        msg_set_encodings(&SUPPORTED_ENCODINGS).unwrap(),
        [2, 0, 0, 2, 0, 0, 0, 1, 0, 0, 0, 0]
    );
    assert_eq!(
        msg_set_encodings(&[-239]).unwrap(),
        [2, 0, 0, 1, 0xff, 0xff, 0xff, 0x11]
    );
    assert!(msg_set_encodings(&vec![0; 65_536]).is_err());
}

#[test]
fn requests_and_events_are_written() {
    assert_eq!(
        msg_fb_update_request(true, 1, 2, 640, 480),
        [3, 1, 0, 1, 0, 2, 2, 0x80, 1, 0xe0]
    );
    assert_eq!(msg_key_event(true, 0xff0d), [4, 1, 0, 0, 0, 0, 0xff, 0x0d]);
    assert_eq!(msg_key_event(false, 0x0102_0304), [4, 0, 0, 0, 1, 2, 3, 4]);
    assert_eq!(RfbClientMessageType::SetEncodings.wire_value(), 2);
}

#[test]
fn message_types_and_kinds_of_authentication_are_told_apart() {
    assert_eq!(
        RfbServerMessageType::try_from(3).unwrap(),
        RfbServerMessageType::ServerCutText
    );
    assert_eq!(
        RfbServerMessageType::try_from(9).unwrap_err().message(),
        "未知标准 RFB 服务器消息类型 9"
    );
    assert_eq!(security_type_name(security::VENCRYPT), "VeNCrypt");
    assert_eq!(security_type_name(99), "未知");
    for value in 0u8..=255 {
        assert_eq!(
            security::requires_apple_account_credentials(value),
            [30, 33, 35, 36].contains(&value)
        );
    }
}
