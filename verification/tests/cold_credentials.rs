use frd_vnc::cold_credentials::{
    take_read, wipe, CredentialSlices, GuardedCredentialFrame, ReadNext, ReadOutcome, READ_LIMIT,
};
use frd_vnc::error::VncError;

const MAGIC: &[u8; 8] = b"FRDSTD01";
const FROZEN_MIN_FRAME: &[u8; 23] =
    b"FRDSTD01\x00\x00\x00\x0b\x00\x01\x00\x01\x00\x01\x17\x0cHUP";

fn valid_frame() -> Vec<u8> {
    frame(b"canary-host", b"canary-user", b"canary-pass", 5900)
}

fn frame(host: &[u8], username: &[u8], password: &[u8], port: u16) -> Vec<u8> {
    let payload = 8usize + host.len() + username.len() + password.len();
    let mut bytes = Vec::with_capacity(20 + host.len() + username.len() + password.len());
    bytes.extend_from_slice(MAGIC);
    bytes.extend_from_slice(&(payload as u32).to_be_bytes());
    bytes.extend_from_slice(&(host.len() as u16).to_be_bytes());
    bytes.extend_from_slice(&(username.len() as u16).to_be_bytes());
    bytes.extend_from_slice(&(password.len() as u16).to_be_bytes());
    bytes.extend_from_slice(&port.to_be_bytes());
    bytes.extend_from_slice(host);
    bytes.extend_from_slice(username);
    bytes.extend_from_slice(password);
    bytes
}

fn parse(bytes: &[u8]) -> Result<GuardedCredentialFrame, VncError> {
    GuardedCredentialFrame::read_stdin_v1(bytes)
}

fn error_category(bytes: &[u8], canary: &str) -> String {
    let error = match parse(bytes) {
        Ok(mut guarded) => {
            guarded.clear();
            panic!("frame must be rejected");
        }
        Err(error) => error,
    };
    let message = error.message();
    assert!(!message.contains(canary), "error leaked fake input");
    assert!(!message.chars().any(|character| character.is_ascii_digit()));
    message
}

fn refused_read() -> Result<GuardedCredentialFrame, VncError> {
    match take_read(0, ReadOutcome::Failed) {
        Err(error) => Err(error),
        Ok(_) => panic!("a failed read must be rejected"),
    }
}

fn expect_rejected(bytes: &[u8]) {
    assert!(parse(bytes).is_err(), "malformed frame must be rejected");
}

#[test]
fn parses_exact_fake_frame_as_borrowed_slices() {
    let mut guarded = parse(&valid_frame()).expect("valid fake frame");
    guarded.with_slices(|slices| {
        assert_eq!(slices.host, "canary-host");
        assert_eq!(slices.username, "canary-user");
        assert_eq!(slices.password, "canary-pass");
        assert_eq!(slices.port, 5900);
    });
    guarded.clear();
}

#[test]
fn accepts_literal_minimum_frame_with_payload_11_and_total_23() {
    let mut guarded = parse(FROZEN_MIN_FRAME).expect("frozen minimum frame");
    guarded.with_slices(|slices| {
        assert_eq!(slices.host, "H");
        assert_eq!(slices.username, "U");
        assert_eq!(slices.password, "P");
        assert_eq!(slices.port, 5900);
    });
    guarded.clear();
}

#[test]
fn accepts_all_exact_maxima_and_port_65535() {
    let host = vec![b'h'; 255];
    let username = vec![b'u'; 255];
    let password = vec![b'p'; 1024];
    let mut guarded = parse(&frame(&host, &username, &password, 65535)).expect("maxima");
    guarded.with_slices(|slices| {
        assert_eq!(slices.host.len(), 255);
        assert_eq!(slices.username.len(), 255);
        assert_eq!(slices.password.len(), 1024);
        assert_eq!(slices.port, 65535);
    });
    guarded.clear();
}

#[test]
fn rejects_zero_and_maximum_plus_one_lengths() {
    expect_rejected(&frame(b"", b"user", b"password", 1));
    expect_rejected(&frame(b"host", b"", b"password", 1));
    expect_rejected(&frame(b"host", b"user", b"", 1));
    expect_rejected(&frame(&vec![b'h'; 256], b"user", b"password", 1));
    expect_rejected(&frame(b"host", &vec![b'u'; 256], b"password", 1));
    expect_rejected(&frame(b"host", b"user", &vec![b'p'; 1025], 1));
}

#[test]
fn rejects_port_zero() {
    expect_rejected(&frame(b"host", b"user", b"password", 0));
}

#[test]
fn rejects_every_fixed_header_truncation_boundary() {
    let full = valid_frame();
    for boundary in [0usize, 7, 8, 11, 12, 13, 14, 15, 16, 17, 18, 19] {
        expect_rejected(&full[..boundary]);
    }
}

#[test]
fn rejects_truncated_variable_fields() {
    let full = valid_frame();
    expect_rejected(&full[..20]);
    expect_rejected(&full[..21]);
    expect_rejected(&full[..31]);
    expect_rejected(&full[..35]);
    expect_rejected(&FROZEN_MIN_FRAME[..21]);
    expect_rejected(&FROZEN_MIN_FRAME[..22]);
}

#[test]
fn rejects_payload_length_mismatch_and_one_extra_byte() {
    let mut mismatch = valid_frame();
    mismatch[8..12].copy_from_slice(&11u32.to_be_bytes());
    expect_rejected(&mismatch);
    let mut extra = valid_frame();
    extra.push(0x5a);
    expect_rejected(&extra);
}

#[test]
fn rejects_invalid_utf8_in_every_text_field() {
    expect_rejected(&frame(&[0xff], b"user", b"password", 1));
    expect_rejected(&frame(b"host", &[0xff], b"password", 1));
    expect_rejected(&frame(b"host", b"user", &[0xff], 1));
}

#[test]
fn rejects_host_and_username_nul_controls_and_unicode_edge_whitespace() {
    for bad in [
        b"a\0b".as_slice(),
        b"a\x1fb".as_slice(),
        "\u{2003}host".as_bytes(),
        "user\u{2003}".as_bytes(),
    ] {
        expect_rejected(&frame(bad, b"user", b"password", 1));
        expect_rejected(&frame(b"host", bad, b"password", 1));
    }
}

#[test]
fn rejects_non_ascii_control_inside_local_username() {
    expect_rejected(&frame(
        b"host",
        "local\u{85}user".as_bytes(),
        b"password",
        1,
    ));
}

#[test]
fn rejects_password_nul_but_preserves_other_password_bytes() {
    expect_rejected(&frame(b"host", b"user", b"pass\0word", 1));
    let password = "  canary\t\n\u{2003} ";
    let mut guarded =
        parse(&frame(b"host", b"user", password.as_bytes(), 1)).expect("password bytes");
    guarded.with_slices(|slices| assert_eq!(slices.password, password));
    guarded.clear();
}

#[test]
fn errors_are_stable_categories_without_fake_values_or_lengths() {
    let mut magic = valid_frame();
    magic[0] = b'X';
    assert_eq!(error_category(&magic, "canary-host"), "stdin frame magic");
    assert_eq!(
        error_category(
            &frame(b"\xff", b"canary-user", b"canary-pass", 1),
            "canary-user"
        ),
        "stdin frame host"
    );
}

#[test]
fn every_error_category_redacts_its_fake_canary() {
    let mut magic = valid_frame();
    magic[0] = b'X';
    let mut payload = frame(b"canary-payload", b"user", b"password", 1);
    payload[8..12].copy_from_slice(&11u32.to_be_bytes());
    let mut extra_host = b"canary-extra".to_vec();
    extra_host.extend_from_slice(&[b'h'; 255 - b"canary-extra".len()]);
    let mut extra = frame(&extra_host, &vec![b'u'; 255], &vec![b'p'; 1024], 1);
    extra.push(0x5a);
    let cases = vec![
        (parse(&magic), "canary-host", "stdin frame magic"),
        (
            parse(b"canary-header"),
            "canary-header",
            "stdin frame header",
        ),
        (parse(&payload), "canary-payload", "stdin frame payload"),
        (
            parse(&frame(b"canary-host\x1f", b"user", b"password", 1)),
            "canary-host",
            "stdin frame host",
        ),
        (
            parse(&frame(b" canary-host", b"user", b"password", 1)),
            "canary-host",
            "stdin frame host",
        ),
        (
            parse(&frame(b"host", b"canary-user\x1f", b"password", 1)),
            "canary-user",
            "stdin frame username",
        ),
        (
            parse(&frame(b"host", b"canary-user ", b"password", 1)),
            "canary-user",
            "stdin frame username",
        ),
        (
            parse(&frame(b"host", b"user", b"canary-password\0", 1)),
            "canary-password",
            "stdin frame password",
        ),
        (
            parse(&frame(b"canary-port", b"user", b"password", 0)),
            "canary-port",
            "stdin frame port",
        ),
        (parse(&extra), "canary-extra", "stdin frame extra"),
        (
            refused_read(),
            "canary-reader-error",
            "stdin frame input",
        ),
    ];
    for (result, canary, category) in cases {
        let error = match result {
            Ok(mut guarded) => {
                guarded.clear();
                panic!("frame must be rejected");
            }
            Err(error) => error,
        };
        let message = error.message();
        assert_eq!(message, category);
        assert!(!message.contains(canary), "error leaked fake input");
        assert!(!message.chars().any(|character| character.is_ascii_digit()));
    }
}

#[test]
fn checked_boundaries_reject_declared_ranges_past_available_bytes() {
    let mut bytes = valid_frame();
    bytes[12..14].copy_from_slice(&255u16.to_be_bytes());
    bytes[14..16].copy_from_slice(&255u16.to_be_bytes());
    bytes[16..18].copy_from_slice(&1024u16.to_be_bytes());
    bytes[8..12].copy_from_slice(&1542u32.to_be_bytes());
    expect_rejected(&bytes);
}

fn assert_zero(guarded: &GuardedCredentialFrame, expected_length: usize) {
    assert_eq!(guarded.len(), expected_length);
    assert!(guarded.is_zeroed());
}

#[test]
fn explicit_clear_overwrites_after_parse_success() {
    let length = valid_frame().len();
    let mut guarded = parse(&valid_frame()).expect("valid fake frame");
    assert!(!guarded.is_zeroed());
    guarded.clear();
    assert_zero(&guarded, length);
}

#[test]
fn explicit_clear_overwrites_after_callback_error() {
    let length = valid_frame().len();
    let mut guarded = parse(&valid_frame()).expect("valid fake frame");
    let result: Result<(), &str> = guarded.with_slices(|_| Err("fake callback error"));
    assert_eq!(result, Err("fake callback error"));
    assert!(!guarded.is_zeroed());
    guarded.clear();
    assert_zero(&guarded, length);
}

#[test]
fn explicit_clear_overwrites_after_authentication_style_callback_success() {
    let length = valid_frame().len();
    let mut guarded = parse(&valid_frame()).expect("valid fake frame");
    let accepted = guarded.with_slices(
        |CredentialSlices {
             host,
             username,
             password,
             port,
         }| {
            !host.is_empty() && !username.is_empty() && !password.is_empty() && port == 5900
        },
    );
    assert!(accepted);
    assert!(!guarded.is_zeroed());
    guarded.clear();
    assert_zero(&guarded, length);
}

#[test]
fn authentication_callback_success_clears_before_returning_owned_state() {
    let length = valid_frame().len();
    let mut guarded = parse(&valid_frame()).expect("valid fake frame");

    let authenticated = guarded.with_slices_then_clear(|slices| {
        assert_eq!(slices.password, "canary-pass");
        "owned-authenticated-state"
    });

    assert_eq!(authenticated, "owned-authenticated-state");
    assert_zero(&guarded, length);
}

#[test]
fn authentication_callback_error_clears_before_returning_error() {
    let length = valid_frame().len();
    let mut guarded = parse(&valid_frame()).expect("valid fake frame");

    let result: Result<(), &str> =
        guarded.with_slices_then_clear(|_| Err("stable-authentication-error"));

    assert_eq!(result, Err("stable-authentication-error"));
    assert_zero(&guarded, length);
}



#[test]
fn reading_goes_on_until_the_end_or_one_byte_too_many() {
    assert_eq!(take_read(0, ReadOutcome::Count(20)).unwrap(), ReadNext::More(20));
    assert_eq!(take_read(20, ReadOutcome::Interrupted).unwrap(), ReadNext::More(20));
    assert_eq!(take_read(20, ReadOutcome::Count(0)).unwrap(), ReadNext::Finished(20));
    assert_eq!(
        take_read(20, ReadOutcome::Count(READ_LIMIT - 20)).unwrap(),
        ReadNext::Finished(READ_LIMIT)
    );
    assert_eq!(
        take_read(1, ReadOutcome::Count(usize::MAX)).unwrap_err().message(),
        "stdin frame input"
    );
}

#[test]
fn a_frame_that_was_wiped_stays_wiped() {
    let mut guarded = parse(&valid_frame()).unwrap();
    assert!(!guarded.is_zeroed());
    guarded.clear();
    guarded.clear();
    assert_zero(&guarded, valid_frame().len());
    let mut bytes = vec![1, 2, 3];
    wipe(&mut bytes);
    assert_eq!(bytes, [0, 0, 0]);
}
