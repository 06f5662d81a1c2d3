use frd_vnc::auth::{vnc_des_challenge_response, VNC_AUTH_CHALLENGE_BYTES};
use frd_vnc::client::{
    checked_rectangle_pixel_count, checked_update_raw_bytes, decode_raw_pixels,
    is_cold_deadline_error, is_peer_closed, is_timeout, pick_standard_security,
    sanitize_cold_authentication_error, sanitize_cold_connect_error, security_result_is_ok,
    stable_apple_security_type_error, validate_update_rectangle_count,
    APPLE_SECURITY_TYPE_UNAVAILABLE,
};
use frd_vnc::error::VncError;
use frd_vnc::handshake::{
    from_apple_session, AppleSessionMetadata, AuthenticatedSecurity, Authentication, Negotiated,
    Negotiation, NegotiationStep, SessionOpening, VncClient,
};
use frd_vnc::protocol;
use frd_vnc::server_message::{read_server_message, RectOp, ServerEvent, ServerMessageReader};

/// Feeds what a server sends, piece by piece, until the negotiation ends.
fn negotiate(sent: &[u8]) -> (Vec<u8>, Result<Option<Negotiated>, VncError>) {
    let mut negotiation = Negotiation::new(None);
    let mut replies = Vec::new();
    let mut at = 0;
    loop {
        let needed = negotiation.needed();
        if at + needed > sent.len() {
            return (replies, Ok(None));
        }
        let piece = &sent[at..at + needed];
        at += needed;
        match negotiation.feed(piece) {
            Ok(NegotiationStep::Continue) => {}
            Ok(NegotiationStep::Reply(reply)) => replies.extend_from_slice(&reply),
            Ok(NegotiationStep::Done(negotiated)) => return (replies, Ok(Some(negotiated))),
            Err(error) => return (replies, Err(error)),
        }
    }
}

fn negotiated(sent: &[u8]) -> Negotiated {
    negotiate(sent).1.unwrap().unwrap()
}

fn server_init(width: u16, height: u16, name: &[u8]) -> Vec<u8> {
    let mut message = Vec::new();
    message.extend_from_slice(&width.to_be_bytes());
    message.extend_from_slice(&height.to_be_bytes());
    message.extend_from_slice(&[32, 24, 1, 1, 0, 255, 0, 255, 0, 255, 16, 8, 0, 0, 0, 0]);
    message.extend_from_slice(&(name.len() as u32).to_be_bytes());
    message.extend_from_slice(name);
    message
}

fn open_session(authenticated: AuthenticatedSecurity, sent: &[u8]) -> Result<VncClient, VncError> {
    let (mut opening, client_init) = SessionOpening::begin(authenticated);
    assert_eq!(client_init, [1]);
    let mut at = 0;
    loop {
        let needed = opening.needed();
        let piece = &sent[at..at + needed];
        at += needed;
        if let Some(client) = opening.feed(piece)? {
            assert_eq!(at, sent.len());
            return Ok(client);
        }
    }
}

#[test]
fn raw_pixel_decoder_preserves_exact_little_endian_bgrx_and_rejects_remainder() {
    assert_eq!(
        decode_raw_pixels(&[0x56, 0x34, 0x12, 0x00, 0xc0, 0xb0, 0xa0, 0x00]).unwrap(),
        [0x0012_3456, 0x00a0_b0c0]
    );
    assert!(decode_raw_pixels(&[0x56, 0x34, 0x12]).is_err());
}

#[test]
fn security_result_owner_accepts_only_literal_success_fixture() {
    assert!(security_result_is_ok(u32::from_be_bytes([0, 0, 0, 0])));
    assert!(!security_result_is_ok(u32::from_be_bytes([0, 0, 0, 1])));
}

#[test]
fn authentication_source_exposes_a_credential_free_owned_phase_boundary() {
    let first_phase: fn(&Authentication) -> Option<AuthenticatedSecurity> = Authentication::finished;
    let second_phase: fn(AuthenticatedSecurity) -> (SessionOpening, [u8; 1]) = SessionOpening::begin;

    let (authentication, _) =
        Authentication::begin(&negotiated(b"RFB 003.008\n\x01\x01"), None, None).unwrap();
    let AuthenticatedSecurity { choice } = first_phase(&authentication).unwrap();
    assert_eq!(choice, protocol::security::NONE);
    assert_eq!(second_phase(AuthenticatedSecurity { choice }).1, [1]);
}

#[test]
fn security_phase_returns_before_client_init_and_does_not_borrow_password() {
    let challenge: [u8; VNC_AUTH_CHALLENGE_BYTES] =
        core::array::from_fn(|index| (index as u8).wrapping_mul(11).wrapping_add(5));
    let (replies, outcome) = negotiate(b"RFB 003.008\n\x01\x02");
    assert_eq!(replies, b"RFB 003.008\n");
    let negotiated = outcome.unwrap().unwrap();

    let mut password = String::from("phase-password");
    let (mut authentication, sent) =
        Authentication::begin(&negotiated, None, Some(&password)).unwrap();
    assert_eq!(sent, [protocol::security::VNC_AUTH]);
    assert_eq!(authentication.finished(), None);
    let response = authentication.feed(&challenge, Some(&password)).unwrap();
    assert_eq!(response, vnc_des_challenge_response(&challenge, "phase-password"));
    assert_eq!(
        authentication.feed(&0_u32.to_be_bytes(), Some(&password)).unwrap(),
        Vec::<u8>::new()
    );
    password.clear();

    let client = open_session(authentication.finished().unwrap(), &server_init(8, 4, b"")).unwrap();
    assert_eq!((client.width, client.height), (8, 4));
}

#[test]
fn rfb_33_rejects_security_type_that_does_not_fit_u8() {
    let mut sent = b"RFB 003.003\n".to_vec();
    sent.extend_from_slice(&257u32.to_be_bytes());

    let error = negotiate(&sent).1.unwrap_err();
    assert!(error.message().contains("超出 u8"), "{}", error.chain());
}

#[test]
fn rfb_negotiation_replies_use_literal_standard_fallback_and_apple_echo_fixtures() {
    for (server_banner, expected_reply) in [
        (*b"RFB 003.003\n", *b"RFB 003.003\n"),
        (*b"RFB 003.007\n", *b"RFB 003.007\n"),
        (*b"RFB 003.006\n", *b"RFB 003.008\n"),
        (*b"RFB 003.889\n", *b"RFB 003.889\n"),
        (*b"RFB 003.999\n", *b"RFB 003.999\n"),
    ] {
        let (reply, outcome) = negotiate(&server_banner);
        assert_eq!(reply, expected_reply);
        assert!(matches!(outcome, Ok(None)));
    }
}

#[test]
fn standard_selector_directs_apple_only_offers_to_apple_adapter() {
    for security_type in [30u8, 33, 35, 36] {
        let error =
            pick_standard_security(&[security_type], Some("user"), Some("password")).unwrap_err();
        assert!(error.message().contains("Apple 协议适配器"), "{}", error.chain());
    }
}

#[test]
fn framebuffer_update_limits_reject_excessive_counts_and_bytes() {
    assert!(validate_update_rectangle_count(protocol::limits::MAX_RECTS_PER_UPDATE + 1).is_err());
    assert!(checked_update_raw_bytes(
        protocol::limits::MAX_UPDATE_RAW_BYTES,
        1,
        protocol::limits::RFB_BYTES_PER_PIXEL,
    )
    .is_err());
}

#[test]
fn server_keepalive_is_consumed_without_requesting_a_reply() {
    let heartbeat = [
        protocol::apple_session::SERVER_KEEPALIVE_MESSAGE_TYPE,
        1,
        2,
        3,
        4,
        5,
        6,
        7,
    ];
    assert_eq!(
        read_server_message(&heartbeat).unwrap(),
        Some((ServerEvent::Ignored, 8))
    );
    assert_eq!(read_server_message(&heartbeat[..7]).unwrap(), None);
}

/// Paints a rectangle on a surface of this width.
fn paint(surface: &mut [u32], width: usize, op: &RectOp) {
    match op {
        RectOp::Raw { x, y, w, h, pixels } => {
            for row in 0..*h {
                let at = (y + row) * width + x;
                surface[at..at + w].copy_from_slice(&pixels[row * w..(row + 1) * w]);
            }
        }
        RectOp::Copy { x, y, w, h, sx, sy } => {
            let before = surface.to_vec();
            for row in 0..*h {
                let from = (sy + row) * width + sx;
                let at = (y + row) * width + x;
                surface[at..at + w].copy_from_slice(&before[from..from + w]);
            }
        }
    }
}

#[test]
fn end_to_end_with_mock_server() {
    let (replies, outcome) = negotiate(b"RFB 003.008\n\x03\x1e\x02\x23");
    assert_eq!(replies, b"RFB 003.008\n");
    let negotiated = outcome.unwrap().unwrap();
    assert_eq!(negotiated.security_types, [30, 2, 35]);
    assert_eq!(negotiated.version, (3, 8));

    let challenge: [u8; 16] = core::array::from_fn(|i| (i as u8).wrapping_mul(7).wrapping_add(3));
    let (mut authentication, choice) =
        Authentication::begin(&negotiated, None, Some("test1234")).unwrap();
    assert_eq!(choice[0], 2);
    assert_eq!(
        authentication.feed(&challenge, Some("test1234")).unwrap(),
        vnc_des_challenge_response(&challenge, "test1234")
    );
    authentication.feed(&0u32.to_be_bytes(), Some("test1234")).unwrap();
    let client =
        open_session(authentication.finished().unwrap(), &server_init(8, 4, b"Mock Mac")).unwrap();
    assert_eq!((client.width, client.height, client.name.as_str()), (8, 4, "Mock Mac"));
    assert_eq!(client.used_security, 2);

    let settings = client.init_session(false).unwrap();
    assert_eq!(settings[0], 0);
    assert_eq!(settings[4], 32);
    assert_eq!(settings[6], 0);
    assert_eq!(settings[20], 2);
    let n = u16::from_be_bytes([settings[22], settings[23]]) as usize;
    assert_eq!(settings.len(), 24 + 4 * n);
    assert!(settings[24..]
        .chunks(4)
        .any(|c| i32::from_be_bytes(c.try_into().unwrap()) == protocol::RAW));
    assert_eq!(client.request_update(false), [3, 0, 0, 0, 0, 0, 0, 8, 0, 4]);
    assert_eq!(client.request_update(true)[1], 1);

    let mut update: Vec<u8> = vec![0, 0, 0, 2];
    update.extend_from_slice(&[0, 0, 0, 0, 0, 4, 0, 2]);
    update.extend_from_slice(&protocol::RAW.to_be_bytes());
    for i in 0..8u32 {
        let px: u32 = if i < 4 { 0x00FF_0000 } else { 0x0000_FF00 };
        update.extend_from_slice(&px.to_le_bytes());
    }
    update.extend_from_slice(&[0, 4, 0, 0, 0, 4, 0, 2]);
    update.extend_from_slice(&protocol::COPYRECT.to_be_bytes());
    update.extend_from_slice(&[0, 0, 0, 0]);
    let whole = update.len();
    update.extend_from_slice(&[2]);
    let mut pixels = vec![0x00FF_0000; 4];
    pixels.extend_from_slice(&[0x0000_FF00; 4]);
    assert_eq!(
        read_server_message(&update).unwrap(),
        Some((
            ServerEvent::Update(vec![
                RectOp::Raw { x: 0, y: 0, w: 4, h: 2, pixels },
                RectOp::Copy { x: 4, y: 0, w: 4, h: 2, sx: 0, sy: 0 },
            ]),
            whole
        ))
    );
    assert_eq!(read_server_message(&update[whole..]).unwrap(), Some((ServerEvent::Bell, 1)));

    let mut second: Vec<u8> = vec![0, 0, 0, 1];
    second.extend_from_slice(&[0, 0, 0, 0, 0, 1, 0, 1]);
    second.extend_from_slice(&protocol::RAW.to_be_bytes());
    second.extend_from_slice(&0x0000_00FFu32.to_le_bytes());
    assert_eq!(
        read_server_message(&second).unwrap(),
        Some((
            ServerEvent::Update(vec![RectOp::Raw {
                x: 0,
                y: 0,
                w: 1,
                h: 1,
                pixels: vec![0x0000_00FF],
            }]),
            second.len()
        ))
    );

    let mut px = vec![0u32; 8 * 4];
    let mut rounds = 0;
    for message in [&update[..whole], &second[..]] {
        if let Some((ServerEvent::Update(ops), _)) = read_server_message(message).unwrap() {
            for op in &ops {
                paint(&mut px, 8, op);
            }
            rounds += 1;
        }
    }
    assert_eq!(rounds, 2);
    assert_eq!(px[0], 0x0000_00FF);
    assert_eq!(px[3], 0x00FF_0000);
    assert_eq!(px[7], 0x00FF_0000);
    assert_eq!(px[8], 0x0000_FF00);
    assert_eq!(px[15], 0x0000_FF00);
}

#[test]
fn cold_connection_errors_discard_inner_target_and_credential_detail() {
    let canary = "fake-target-canary fake-username-canary fake-password-canary";
    let connect = sanitize_cold_connect_error(VncError::Text(canary));
    let authentication = sanitize_cold_authentication_error(VncError::Outside(canary.to_string()));

    assert_eq!(connect.message(), "cold connect");
    assert_eq!(authentication.message(), "cold authentication");
    for error in [connect, authentication] {
        let output = error.chain();
        assert!(!output.contains("fake-target-canary"));
        assert!(!output.contains("fake-username-canary"));
        assert!(!output.contains("fake-password-canary"));
    }
}

#[test]
fn cold_deadline_owned_timeout_kinds_survive_sanitization_as_typed_errors() {
    type Sanitizer = fn(VncError) -> VncError;
    for sanitizer in [
        sanitize_cold_connect_error as Sanitizer,
        sanitize_cold_authentication_error as Sanitizer,
    ] {
        for kind in ["timed out", "would block"] {
            let error = sanitizer(VncError::TimedOut(kind.to_string()));
            assert_eq!(error.message(), "cold deadline");
            assert!(is_cold_deadline_error(&error));
            assert_eq!(error.cause(), None);
        }
    }
}

#[test]
fn failures_are_told_apart_by_what_lies_at_their_root() {
    let late = VncError::Context {
        text: "reading",
        cause: Box::new(VncError::TimedOut("late".to_string())),
    };
    assert!(is_timeout(&late));
    assert!(!is_peer_closed(&late));
    let closed = VncError::Context {
        text: "reading",
        cause: Box::new(VncError::PeerClosed("gone".to_string())),
    };
    assert!(is_peer_closed(&closed));
    assert!(!is_timeout(&closed));
    let deadline = VncError::Context { text: "reading", cause: Box::new(VncError::ColdDeadline) };
    assert!(is_cold_deadline_error(&deadline));
    assert_eq!(sanitize_cold_connect_error(deadline).message(), "cold deadline");

    let unavailable = VncError::Text(APPLE_SECURITY_TYPE_UNAVAILABLE);
    assert!(stable_apple_security_type_error(&unavailable).is_some());
    assert!(stable_apple_security_type_error(&closed).is_none());
    assert_eq!(
        sanitize_cold_authentication_error(unavailable).message(),
        APPLE_SECURITY_TYPE_UNAVAILABLE
    );
    let hidden = VncError::Context {
        text: "connecting",
        cause: Box::new(VncError::Text(APPLE_SECURITY_TYPE_UNAVAILABLE)),
    };
    assert!(stable_apple_security_type_error(&hidden).is_none());
}

#[test]
fn a_password_prefers_the_challenge() {
    assert_eq!(pick_standard_security(&[1, 2], None, Some("p")).unwrap(), 2);
    assert_eq!(pick_standard_security(&[2, 1], None, None).unwrap(), 1);
    assert_eq!(
        pick_standard_security(&[2], None, None).unwrap_err().message(),
        "服务器需要标准 VNC 密码，请通过 FRD_PASSWORD 环境变量提供"
    );
    assert!(pick_standard_security(&[], None, Some("p")).is_err());
}

#[test]
fn rectangles_are_counted_and_measured() {
    assert!(validate_update_rectangle_count(protocol::limits::MAX_RECTS_PER_UPDATE).is_ok());
    assert_eq!(checked_rectangle_pixel_count(3, 4).unwrap(), 12);
    assert!(checked_rectangle_pixel_count(usize::MAX, 2).is_err());
    assert_eq!(checked_update_raw_bytes(16, 3, 4).unwrap(), 28);
    assert!(checked_update_raw_bytes(0, usize::MAX, 4).is_err());
}

#[test]
fn older_servers_name_one_kind_and_get_no_choice() {
    let outcome = negotiated(b"RFB 003.003\n\0\0\0\x02");
    assert_eq!(outcome.version, (3, 3));
    assert_eq!(outcome.security_types, [2]);
    let (mut authentication, sent) = Authentication::begin(&outcome, None, Some("p")).unwrap();
    assert!(sent.is_empty());
    authentication.feed(&[7; 16], Some("p")).unwrap();
    assert_eq!(
        authentication.feed(&1u32.to_be_bytes(), Some("p")).unwrap_err().message(),
        "VNC 认证失败: 密码错误（注意：标准 VNC 认证只使用密码的前 8 个字符）"
    );
    assert_eq!(negotiated(b"RFB 003.007\n\0\x02\x01\x02").security_types, [1, 2]);
}

#[test]
fn refusals_give_the_reason_of_the_server() {
    assert_eq!(
        negotiate(b"RFB 003.008\n\0\0\0\0\x03n\xffo").1.unwrap_err().message(),
        "服务器拒绝连接: n\u{fffd}o"
    );
    let mut long = b"RFB 003.008\n\0".to_vec();
    long.extend_from_slice(&u32::MAX.to_be_bytes());
    assert!(negotiate(&long).1.unwrap_err().message().contains("资源预算"));
    assert_eq!(
        negotiate(b"RFB 003.08\n\n").1.unwrap_err().chain(),
        "服务器返回了非法 RFB banner: RFB banner 格式非法"
    );
    let mut from = Negotiation::new(Some("host:5900".to_string()));
    assert_eq!(
        from.feed(b"HTTP/1.1 200").err().unwrap().message(),
        "host:5900 返回了非法 RFB banner"
    );

    let (mut authentication, _) =
        Authentication::begin(&negotiated(b"RFB 003.008\n\x01\x02"), None, Some("p")).unwrap();
    authentication.feed(&[0; 16], Some("p")).unwrap();
    authentication.feed(&1u32.to_be_bytes(), Some("p")).unwrap();
    authentication.feed(&2u32.to_be_bytes(), Some("p")).unwrap();
    assert_eq!(authentication.finished(), None);
    assert_eq!(
        authentication.feed(b"no", Some("p")).unwrap_err().message(),
        "VNC 认证失败: no（注意：标准 VNC 认证只使用密码的前 8 个字符）"
    );
}

#[test]
fn a_surface_has_to_be_within_its_budget() {
    let authenticated = AuthenticatedSecurity { choice: 1 };
    assert!(open_session(authenticated, &server_init(0, 4, b"")).is_err());
    let metadata = |width: u32, height: u32| AppleSessionMetadata {
        width,
        height,
        security_type: 36,
        pixel_format: protocol::PixelFormat::ours(),
        name: "Mac".to_string(),
    };
    let client = from_apple_session(metadata(8, 4)).unwrap();
    assert_eq!((client.used_security, client.name.as_str()), (36, "Mac"));
    assert!(client.init_session(true).unwrap().is_empty());
    assert!(from_apple_session(metadata(0, 4)).is_err());
    assert!(from_apple_session(metadata(70_000, 1)).is_err());
    assert!(from_apple_session(metadata(1, 70_000)).is_err());
}

#[test]
fn messages_are_read_in_any_pieces_they_need() {
    let mut reader = ServerMessageReader::new();
    assert_eq!(reader.needed(), 1);
    assert_eq!(reader.feed(&[3]).unwrap(), None);
    assert_eq!(reader.needed(), 7);
    assert_eq!(reader.feed(&[0, 0, 0, 0, 0, 0, 3]).unwrap(), None);
    assert_eq!(reader.needed(), 3);
    assert_eq!(
        reader.feed(b"a\xffb").unwrap(),
        Some(ServerEvent::ServerCutText("a\u{fffd}b".to_string()))
    );
    assert_eq!(reader.needed(), 1);

    let mut colours = vec![1, 0, 0, 0, 0, 2];
    colours.extend_from_slice(&[9; 12]);
    assert_eq!(read_server_message(&colours).unwrap(), Some((ServerEvent::Ignored, 18)));
    assert_eq!(
        read_server_message(&[0, 0, 0, 0]).unwrap(),
        Some((ServerEvent::Update(vec![]), 4))
    );
    let mut cursor = vec![0, 0, 0, 1, 0, 0, 0, 0, 0, 1, 0, 1, 0, 0, 4, 0x50];
    cursor.extend_from_slice(&0x3e8u32.to_be_bytes());
    cursor.extend_from_slice(&2u32.to_be_bytes());
    cursor.extend_from_slice(&[5, 5]);
    assert_eq!(
        read_server_message(&cursor).unwrap(),
        Some((ServerEvent::Update(vec![]), 26))
    );
    cursor[16] = 1;
    assert_eq!(
        read_server_message(&cursor).unwrap_err().message(),
        "光标 payload magic 非法: 0x010003e8"
    );
}

#[test]
fn messages_that_were_not_asked_for_are_refused() {
    let rectangle = |encoding: i32| {
        let mut message = vec![0, 0, 0, 1, 0, 0, 0, 0, 0, 1, 0, 1];
        message.extend_from_slice(&encoding.to_be_bytes());
        read_server_message(&message).unwrap_err().message()
    };
    assert_eq!(rectangle(-239), "收到未请求过的帧编码 -239（本客户端仅请求 Raw/CopyRect）");
    assert_eq!(
        rectangle(frd_vnc::hpss::encoding::MVS),
        "流式 RFB 解析器收到 MVS；HPSS 必须使用加密应用帧模式"
    );
    assert_eq!(
        rectangle(0x451),
        "流式 RFB 解析器收到 Apple 私有状态编码 0x451，无法安全确定边界"
    );
    assert!(read_server_message(&[4]).is_err());
    assert!(read_server_message(&[0, 0, 0xff, 0xff]).is_err());
    assert!(read_server_message(&[3, 0, 0, 0, 0xff, 0, 0, 0]).is_err());
}

#[test]
fn a_refused_piece_leaves_an_authentication_where_it_was() {
    let (mut authentication, _) =
        Authentication::begin(&negotiated(b"RFB 003.007\n\0\x01\x02"), None, Some("p")).unwrap();
    authentication.feed(&[0; 16], Some("p")).unwrap();
    let before = authentication;
    assert!(authentication.feed(&1u32.to_be_bytes(), Some("p")).is_err());
    assert_eq!(authentication, before);
    assert_eq!(authentication.finished(), None);
    authentication.feed(&0u32.to_be_bytes(), Some("p")).unwrap();
    assert_eq!(authentication.finished(), Some(AuthenticatedSecurity { choice: 2 }));
}
