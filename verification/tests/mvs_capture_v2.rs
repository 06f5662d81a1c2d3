use frd_vnc::capture_events::{
    encode_event, validate_event_length, CaptureCounters, EVENT_ABORTED, EVENT_ARMED, EVENT_CLEAN,
    EVENT_CREATED, EVENT_GAP, EVENT_PREFIX_BYTES, EVENT_RECORD, EVENT_RECORDING, EVENT_SURFACE,
    EVENT_TRIGGERED, MVS_CAPTURE_V2_HEADER_BYTES, MVS_CAPTURE_V2_MAGIC,
    MVS_CAPTURE_V2_MAX_CUMULATIVE_PAYLOAD, MVS_CAPTURE_V2_MAX_DURATION_MS,
    MVS_CAPTURE_V2_MAX_EVENTS, MVS_CAPTURE_V2_MAX_EVENT_BODY, MVS_CAPTURE_V2_MAX_EVENT_BYTES,
    MVS_CAPTURE_V2_MAX_PAYLOAD, MVS_CAPTURE_V2_MAX_RECORDS,
};
use frd_vnc::capture_reader::{
    read_mvs_capture_v2_strict_cold, read_mvs_capture_v2_structural, CaptureParser,
    StrictColdMvsCaptureV2, StructuralMvsCaptureV2,
};
use frd_vnc::capture_v1::read_mvs_capture_v1_historical;
use frd_vnc::error::VncError;
use frd_vnc::mvs_capture_v2::{
    gap_terminal_code, parse_gap, validate_record_payload_length, MvsCaptureV2Provenance,
    MvsCaptureV2TerminalReason,
};
use std::io::{Cursor, Read};

/// Reads a capture from a stream, never more than the next piece.
fn read_stream<R: Read>(reader: &mut R) -> Result<StructuralMvsCaptureV2, VncError> {
    let mut header = [0u8; MVS_CAPTURE_V2_HEADER_BYTES];
    fill(reader, &mut header)?;
    let mut parser = CaptureParser::open(&header)?;
    loop {
        let mut prefix = [0u8; EVENT_PREFIX_BYTES];
        fill(reader, &mut prefix)?;
        let event = parser.accept_prefix(&prefix)?;
        let mut body = vec![0u8; event.body_length];
        fill(reader, &mut body)?;
        if parser.accept_body(event, &body)? {
            break;
        }
    }
    let mut probe = [0u8; 1];
    assert_eq!(reader.read(&mut probe).unwrap(), 0);
    parser.finish()
}

fn fill<R: Read>(reader: &mut R, bytes: &mut [u8]) -> Result<(), VncError> {
    reader
        .read_exact(bytes)
        .map_err(|_| VncError::Text("truncated"))
}

fn read_structural(data: &[u8]) -> Result<StructuralMvsCaptureV2, VncError> {
    read_mvs_capture_v2_structural(data)
}

fn read_strict(data: &[u8]) -> Result<StrictColdMvsCaptureV2, VncError> {
    read_mvs_capture_v2_strict_cold(data)
}

#[test]
fn structural_reader_accepts_early_aborted_after_created_and_reads_chunks() {
    let bytes = capture_with_abort();
    let mut reader = ShortReader::new(bytes, 3);
    assert!(read_stream(&mut reader).is_ok());
}

#[test]
fn structural_reader_accepts_early_aborted_at_each_pre_recording_phase() {
    for phase in 0..=3u64 {
        let mut bytes = header();
        bytes.extend(event(1, 0, 0, 0, &created_body()));
        if phase >= 1 {
            bytes.extend(event(2, 1, 0, 1, &armed_body((640, 480), (640, 480))));
        }
        if phase >= 2 {
            bytes.extend(event(
                3,
                2,
                0,
                2,
                &join(&[
                    &640u16.to_be_bytes(),
                    &480u16.to_be_bytes(),
                    &7u32.to_be_bytes(),
                    &0u64.to_be_bytes(),
                ]),
            ));
        }
        if phase >= 3 {
            bytes.extend(event(4, 3, 0, 3, &0u64.to_be_bytes()));
        }
        let ordinal = phase + 1;
        let reason = [257, 267, 260, 260][phase as usize];
        bytes.extend(event(
            0xff,
            ordinal,
            0,
            ordinal,
            &terminal_body(reason, 0, 0, 0, 0, 0),
        ));
        assert!(read_structural(&bytes).is_ok(), "phase {phase}");
    }
}

#[test]
fn terminal_reason_must_match_type_and_persisted_phase() {
    let mut created_trigger_failure = header();
    created_trigger_failure.extend(event(1, 0, 0, 0, &created_body()));
    created_trigger_failure.extend(event(0xff, 1, 0, 1, &terminal_body(260, 0, 0, 0, 0, 0)));
    assert!(read_structural(&created_trigger_failure).is_err());

    let mut created_clean = header();
    created_clean.extend(event(1, 0, 0, 0, &created_body()));
    created_clean.extend(event(
        0xfe,
        1,
        0,
        30_000_000,
        &terminal_body(257, 0, 0, 0, 0, 0),
    ));
    assert!(read_structural(&created_clean).is_err());

    let mut created_deadline_abort = header();
    created_deadline_abort.extend(event(1, 0, 0, 0, &created_body()));
    created_deadline_abort.extend(event(0xff, 1, 0, 1, &terminal_body(1, 0, 0, 0, 0, 0)));
    assert!(read_structural(&created_deadline_abort).is_err());
}

#[test]
fn cancellation_is_valid_at_every_persisted_phase_but_262_263_need_their_gap() {
    for phase in 0..=3u64 {
        let bytes = abort_at_phase(phase, 265);
        assert!(read_structural(&bytes).is_ok(), "cancel phase {phase}");
    }
    assert!(read_structural(&abort_at_phase(3, 262)).is_err());
    assert!(read_structural(&abort_at_phase(3, 263)).is_err());
}

#[test]
fn structural_phase_rejects_record_before_recording() {
    let mut bytes = header();
    bytes.extend(event(1, 0, 0, 0, &created_body()));
    bytes.extend(event(2, 1, 0, 1, &armed_body((640, 480), (640, 480))));
    bytes.extend(event(
        0x20,
        2,
        0,
        2,
        &record_body(0, 0, rect(0, 0, 1, 1), &[0]),
    ));
    bytes.extend(event(0xff, 3, 0, 3, &terminal_body(260, 0, 1, 1, 1, 0)));
    let mut reader = Cursor::new(bytes);
    assert!(read_stream(&mut reader).is_err());
}

#[test]
fn counters_do_not_commit_failed_reservations() {
    let mut counters = CaptureCounters {
        events: MVS_CAPTURE_V2_MAX_EVENTS - 1,
        payload: MVS_CAPTURE_V2_MAX_CUMULATIVE_PAYLOAD - 1,
    };
    assert!(counters.reserve_event().is_ok());
    assert!(counters.reserve_event().is_err());
    assert_eq!(counters.events, MVS_CAPTURE_V2_MAX_EVENTS);
    assert!(counters.reserve_payload(1).is_ok());
    assert!(counters.reserve_payload(1).is_err());
    assert_eq!(counters.payload, MVS_CAPTURE_V2_MAX_CUMULATIVE_PAYLOAD);
}

#[test]
fn structural_reader_accepts_4102_events_and_rejects_4103rd_before_terminal() {
    assert!(read_structural(&event_cap_fixture(false)).is_ok());
    assert!(read_structural(&event_cap_fixture(true)).is_err());
}

#[test]
fn stream_rejects_oversized_event_before_reading_its_body() {
    let mut bytes = header();
    bytes.extend_from_slice(&((MVS_CAPTURE_V2_MAX_EVENT_BYTES + 1) as u32).to_be_bytes());
    bytes.extend_from_slice(&[0; EVENT_PREFIX_BYTES - 4]);
    let mut reader = ShortReader::new(bytes, 1);
    assert!(read_stream(&mut reader).is_err());
    assert_eq!(
        reader.consumed(),
        MVS_CAPTURE_V2_HEADER_BYTES + EVENT_PREFIX_BYTES
    );
}

#[test]
fn literal_header_and_event_sizes_are_frozen() {
    assert_eq!(MVS_CAPTURE_V2_MAGIC, *b"FRDMVS02");
    assert_eq!(MVS_CAPTURE_V2_HEADER_BYTES, 32);
    assert_eq!(MVS_CAPTURE_V2_MAX_PAYLOAD, 0x0100_0000);
    assert_eq!(MVS_CAPTURE_V2_MAX_EVENT_BODY, 0x0100_001c);
    assert_eq!(MVS_CAPTURE_V2_MAX_EVENT_BYTES, 0x0100_003c);
    assert_eq!(MVS_CAPTURE_V2_MAX_RECORDS, 4096);
    assert_eq!(MVS_CAPTURE_V2_MAX_EVENTS, 4102);
    assert_eq!(MVS_CAPTURE_V2_MAX_CUMULATIVE_PAYLOAD, 0x2000_0000);
    assert_eq!(MVS_CAPTURE_V2_MAX_DURATION_MS, 30_000);
}

#[test]
fn literal_event_bodies_prefixes_and_reserved_fields_are_exact() {
    let created = created_body();
    assert_eq!(
        created,
        [
            0x00, 0x00, 0x75, 0x30, 0x00, 0x00, 0x00, 0x03, 0x00, 0x01, 0x00, 0x01, 0x00, 0x00,
            0x00, 0x00,
        ]
    );
    let armed = armed_body((0x0123, 0x0456), (0x0789, 0x0abc));
    assert_eq!(
        armed,
        [
            0x01, 0x23, 0x04, 0x56, 0x07, 0x89, 0x0a, 0xbc, 0x00, 0x01, 0x00, 0x01, 0x00, 0x00,
            0x00, 0x03, 0x00, 0x00, 0x00, 0x00, 0x00, 0x00, 0x00, 0x00,
        ]
    );
    let triggered = join(&[
        &0x0789u16.to_be_bytes(),
        &0x0abcu16.to_be_bytes(),
        &7u32.to_be_bytes(),
        &0u64.to_be_bytes(),
    ]);
    assert_eq!(
        triggered,
        [
            0x07, 0x89, 0x0a, 0xbc, 0x00, 0x00, 0x00, 0x07, 0x00, 0x00, 0x00, 0x00, 0x00, 0x00,
            0x00, 0x00,
        ]
    );
    let recording = 0u64.to_be_bytes();
    assert_eq!(recording, [0; 8]);
    let surface = surface_body(0x0280, 0x01e0);
    assert_eq!(surface, [0x02, 0x80, 0x01, 0xe0, 0x00, 0x01, 0x00, 0x00]);
    let record = record_body(
        0x0102_0304_0506_0708,
        0x1112_1314_1516_1718,
        rect(0x2122, 0x3132, 0x4142, 0x5152),
        &[0x00, 0xaa, 0x55],
    );
    assert_eq!(
        record,
        [
            0x01, 0x02, 0x03, 0x04, 0x05, 0x06, 0x07, 0x08, 0x11, 0x12, 0x13, 0x14, 0x15, 0x16,
            0x17, 0x18, 0x21, 0x22, 0x31, 0x32, 0x41, 0x42, 0x51, 0x52, 0x00, 0x00, 0x00, 0x03,
            0x00, 0xaa, 0x55,
        ]
    );
    let gap = gap_body(
        7,
        5,
        1,
        0x0102_0304_0506_0708,
        0x1112_1314_1516_1718,
        0x0012_3456,
        0x0001_0203,
        rect(0x2122, 0x3132, 0x4142, 0x5152),
    );
    assert_eq!(
        gap,
        [
            0x00, 0x07, 0x00, 0x05, 0x00, 0x00, 0x00, 0x01, 0x01, 0x02, 0x03, 0x04, 0x05, 0x06,
            0x07, 0x08, 0x11, 0x12, 0x13, 0x14, 0x15, 0x16, 0x17, 0x18, 0x00, 0x12, 0x34, 0x56,
            0x00, 0x01, 0x02, 0x03, 0x21, 0x22, 0x31, 0x32, 0x41, 0x42, 0x51, 0x52,
        ]
    );
    let clean = terminal_body_full(1, 0, 3, 3, 1, 1, 1);
    assert_eq!(
        clean,
        [
            0x00, 0x01, 0x00, 0x00, 0x00, 0x00, 0x00, 0x00, 0x00, 0x00, 0x00, 0x00, 0x00, 0x00,
            0x00, 0x03, 0x00, 0x00, 0x00, 0x00, 0x00, 0x00, 0x00, 0x03, 0x00, 0x00, 0x00, 0x00,
            0x00, 0x00, 0x00, 0x01, 0x00, 0x00, 0x00, 0x00, 0x00, 0x00, 0x00, 0x01, 0x00, 0x00,
            0x00, 0x00, 0x00, 0x00, 0x00, 0x01,
        ]
    );
    let aborted = terminal_body_full(257, 0, 0, 0, 0, 0, 0);
    assert_eq!(
        aborted,
        [
            0x01, 0x01, 0x00, 0x00, 0x00, 0x00, 0x00, 0x00, 0x00, 0x00, 0x00, 0x00, 0x00, 0x00,
            0x00, 0x00, 0x00, 0x00, 0x00, 0x00, 0x00, 0x00, 0x00, 0x00, 0x00, 0x00, 0x00, 0x00,
            0x00, 0x00, 0x00, 0x00, 0x00, 0x00, 0x00, 0x00, 0x00, 0x00, 0x00, 0x00, 0x00, 0x00,
            0x00, 0x00, 0x00, 0x00, 0x00, 0x00,
        ]
    );

    for (kind, body, total) in [
        (EVENT_CREATED, created.as_slice(), 48),
        (EVENT_ARMED, armed.as_slice(), 56),
        (EVENT_TRIGGERED, triggered.as_slice(), 48),
        (EVENT_RECORDING, recording.as_slice(), 40),
        (EVENT_SURFACE, surface.as_slice(), 40),
        (EVENT_RECORD, record.as_slice(), 63),
        (EVENT_GAP, gap.as_slice(), 72),
        (EVENT_CLEAN, clean.as_slice(), 80),
        (EVENT_ABORTED, aborted.as_slice(), 80),
    ] {
        assert_eq!(encode_event(kind, 1, 2, 3, body).unwrap().len(), total);
    }
    let encoded_record = encode_event(
        EVENT_RECORD,
        0x0102_0304_0506_0708,
        0x1112_1314_1516_1718,
        0x2122_2324_2526_2728,
        &record,
    )
    .unwrap();
    assert_eq!(
        &encoded_record[..32],
        &[
            0x00, 0x00, 0x00, 0x3f, 0x00, 0x20, 0x00, 0x00, 0x01, 0x02, 0x03, 0x04, 0x05, 0x06,
            0x07, 0x08, 0x11, 0x12, 0x13, 0x14, 0x15, 0x16, 0x17, 0x18, 0x21, 0x22, 0x23, 0x24,
            0x25, 0x26, 0x27, 0x28,
        ]
    );
    assert_eq!(&encoded_record[32..], record.as_slice());

    let clean_capture = clean_fixture();
    let reserved_mutations = [
        rewrite_byte(&clean_capture, 32 + 32 + 12, 1),
        rewrite_byte(&clean_capture, 80 + 32 + 16, 1),
        rewrite_byte(&clean_capture, clean_capture.len() - 48 + 2, 1),
    ];
    for mutation in reserved_mutations {
        assert!(read_structural(&mutation).is_err());
    }
    let surface_capture = surface_transition_fixture(1, (1, 2), None);
    assert!(read_structural(&rewrite_byte(&surface_capture, 224 + 32 + 6, 1,)).is_err());
    let aborted_capture = capture_with_abort();
    assert!(read_structural(&rewrite_byte(
        &aborted_capture,
        aborted_capture.len() - 48 + 2,
        1,
    ))
    .is_err());
}

#[test]
fn structural_reader_rejects_nonzero_triggered_trailing_u64_in_complete_lifecycle() {
    let mut capture = clean_fixture();
    let triggered_body_offset = MVS_CAPTURE_V2_HEADER_BYTES + 48 + 56 + EVENT_PREFIX_BYTES;
    capture[triggered_body_offset + 8..triggered_body_offset + 16]
        .copy_from_slice(&1u64.to_be_bytes());

    assert!(read_structural(&capture).is_err());
}

#[test]
fn structural_reader_rejects_nonzero_recording_u64_in_complete_lifecycle() {
    let mut capture = clean_fixture();
    let recording_body_offset = MVS_CAPTURE_V2_HEADER_BYTES + 48 + 56 + 48 + EVENT_PREFIX_BYTES;
    capture[recording_body_offset..recording_body_offset + 8]
        .copy_from_slice(&1u64.to_be_bytes());

    assert!(read_structural(&capture).is_err());
}

#[test]
fn record_payload_length_boundaries_are_allocation_safe() {
    assert!(validate_record_payload_length(0, 28).is_err());
    assert!(validate_record_payload_length(
        MVS_CAPTURE_V2_MAX_PAYLOAD,
        28 + MVS_CAPTURE_V2_MAX_PAYLOAD,
    )
    .is_ok());
    assert!(validate_record_payload_length(
        MVS_CAPTURE_V2_MAX_PAYLOAD + 1,
        29 + MVS_CAPTURE_V2_MAX_PAYLOAD,
    )
    .is_err());
    assert!(validate_record_payload_length(usize::MAX, usize::MAX).is_err());
    assert!(validate_record_payload_length(1, 28).is_err());
    assert!(validate_record_payload_length(1, 30).is_err());
}

#[test]
fn surface_generation_budget_and_committed_geometry_matrix_is_enforced() {
    assert!(read_structural(&surface_transition_fixture(1, (1, 2), None)).is_ok());
    assert!(read_structural(&surface_transition_fixture(2, (1, 2), None)).is_err());
    assert!(read_structural(&surface_transition_fixture(0, (1, 2), None)).is_err());
    assert!(
        read_structural(&surface_transition_fixture(1, (u16::MAX, u16::MAX), None,)).is_err()
    );
    assert!(read_structural(&surface_transition_fixture(
        1,
        (1, 2),
        Some(rect(1, 0, 1, 1)),
    ))
    .is_err());
    assert!(read_structural(&surface_transition_fixture(
        1,
        (1, 2),
        Some(rect(0, 1, 1, 1)),
    ))
    .is_ok());
}

#[test]
fn strict_reader_accepts_hand_derived_clean_capture() {
    let capture = clean_fixture();
    let parsed = read_strict(&capture).unwrap();
    assert_eq!(parsed.records.len(), 3);
    assert_eq!(parsed.committed_surface.width, 640);
    assert_eq!(parsed.requested_surface.width, 1920);
    assert_eq!(parsed.terminal.reason, MvsCaptureV2TerminalReason::Deadline);
}

#[test]
fn structural_reader_labels_valid_diagnostic_capture_only() {
    let mut capture = clean_fixture();
    insert_before_terminal(
        &mut capture,
        event(0x0010, 7, 1, 10, &surface_body(800, 600)),
    );
    replace_terminal_ordinal(&mut capture, 8);
    replace_terminal_generation(&mut capture, 1);
    let parsed = read_structural(&capture).unwrap();
    assert_eq!(parsed.provenance, MvsCaptureV2Provenance::DiagnosticOnly);
    assert_eq!(parsed.surfaces.len(), 1);
    assert!(read_strict(&capture).is_err());
}

#[test]
fn strict_rejects_diagnostic_events_and_v1() {
    assert!(read_strict(&capture_with_surface()).is_err());
    assert!(read_strict(&capture_with_gap_then_abort()).is_err());
    assert!(read_strict(&capture_with_abort()).is_err());
    assert!(read_strict(b"FRDMVS01").is_err());
}

#[test]
fn strict_rejects_duplicate_lifecycle_event_after_recording() {
    let mut bytes = clean_fixture();
    insert_before_terminal(&mut bytes, event(4, 7, 0, 7, &0u64.to_be_bytes()));
    replace_terminal_ordinal(&mut bytes, 8);
    assert!(read_strict(&bytes).is_err());
}

#[test]
fn requested_geometry_never_expands_active_surface() {
    let bytes = clean_capture_with_geometry((640, 480), (1920, 1080), rect(0, 0, 641, 1));
    assert!(read_structural(&bytes).is_err());
}

#[test]
fn format_two_gap_always_has_present_non_sentinel_range() {
    assert!(parse_gap_fixture(1, 0, 0).is_ok());
    for (flags, first, last) in [(0, 0, 0), (2, 0, 0), (1, u64::MAX, 0), (1, 0, u64::MAX)] {
        assert!(parse_gap_fixture(flags, first, last).is_err());
    }
}

#[test]
fn all_gap_rows_reach_parser_and_reject_each_fixed_field_mutation() {
    for case in gap_cases() {
        let valid = gap_body_for_case(case);
        let parsed = parse_gap(&valid, case.cumulative_before).unwrap();
        assert_eq!(parsed.reason, case.reason);
        assert_eq!(parsed.stage, case.stage);
        assert_eq!(parsed.first_source_frame_ordinal, case.first);
        assert_eq!(parsed.last_source_frame_ordinal, case.last);
        assert_eq!(parsed.declared_total, case.declared);
        assert_eq!(parsed.accumulated_bytes, case.accumulated);
        assert_eq!(parsed.rect, rect_from_tuple(case.rectangle));
        assert_eq!(gap_terminal_code(case.reason).unwrap(), case.terminal);

        let mut wrong_stage = case;
        wrong_stage.stage = case.stage + 1;
        assert!(parse_gap(&gap_body_for_case(wrong_stage), case.cumulative_before).is_err());
        let mut wrong_flags = valid.clone();
        wrong_flags[4..8].copy_from_slice(&0u32.to_be_bytes());
        assert!(parse_gap(&wrong_flags, case.cumulative_before).is_err());
        let mut wrong_first = case;
        wrong_first.first = u64::MAX;
        assert!(parse_gap(&gap_body_for_case(wrong_first), case.cumulative_before).is_err());
        let mut wrong_last = case;
        wrong_last.last = u64::MAX;
        assert!(parse_gap(&gap_body_for_case(wrong_last), case.cumulative_before).is_err());
        let mut wrong_declared = case;
        wrong_declared.declared = invalid_declared_for(case);
        assert!(parse_gap(&gap_body_for_case(wrong_declared), case.cumulative_before).is_err());
        let mut wrong_accumulated = case;
        wrong_accumulated.accumulated = invalid_accumulated_for(case);
        assert!(parse_gap(
            &gap_body_for_case(wrong_accumulated),
            case.cumulative_before
        )
        .is_err());
        if case.reason == 9 {
            let mut wrong_rectangle = case;
            wrong_rectangle.rectangle = (0, 0, 1, 1);
            assert!(
                parse_gap(&gap_body_for_case(wrong_rectangle), case.cumulative_before,)
                    .is_err()
            );
        }
    }
}

#[test]
fn every_structurally_representable_gap_row_requires_immediate_mapped_abort() {
    for case in gap_cases() {
        if case.reason == 11 {
            assert!(parse_gap(&gap_body_for_case(case), case.cumulative_before).is_ok());
            assert_eq!(gap_terminal_code(case.reason).unwrap(), case.terminal);
            continue;
        }
        let valid = gap_fixture_for_case(case, case.terminal);
        assert!(read_structural(&valid).is_ok(), "reason {}", case.reason);

        let wrong_terminal = if case.terminal == 262 { 261 } else { 262 };
        assert!(read_structural(&gap_fixture_for_case(case, wrong_terminal)).is_err());

        let missing_terminal = &valid[..valid.len() - 80];
        assert!(read_structural(missing_terminal).is_err());

        let mut intervening = valid.clone();
        let terminal = intervening.split_off(intervening.len() - 80);
        intervening.extend(event(
            EVENT_RECORD,
            5,
            0,
            5,
            &record_body(1, 1, rect(0, 0, 1, 1), &[0]),
        ));
        intervening.extend(terminal);
        assert!(read_structural(&intervening).is_err());
    }
}

#[test]
fn every_aborted_reason_has_exact_positive_and_negative_phase_gap_compatibility() {
    let cases: [(u16, &[u64], Option<u16>); 11] = [
        (257, &[0], None),
        (258, &[0], None),
        (259, &[0, 1], None),
        (260, &[1, 2, 3], None),
        (261, &[3], Some(7)),
        (262, &[], Some(9)),
        (263, &[], Some(6)),
        (264, &[0, 1, 2, 3], None),
        (265, &[0, 1, 2, 3], Some(12)),
        (266, &[0, 3], Some(8)),
        (267, &[0, 1], None),
    ];
    for (reason, zero_gap_phases, mapped_gap) in cases {
        for phase in 0..=3 {
            assert_eq!(
                read_structural(&abort_at_phase(phase, reason)).is_ok(),
                zero_gap_phases.contains(&phase),
                "Aborted {reason} zero-gap phase {phase}"
            );
        }
        if let Some(gap_reason) = mapped_gap {
            let case = gap_case(gap_reason);
            assert!(read_structural(&gap_fixture_for_case(case, reason)).is_ok());
        }
        let wrong_gap_reason = match mapped_gap {
            Some(9) => 7,
            _ => 9,
        };
        let wrong_gap = gap_case(wrong_gap_reason);
        assert!(
            read_structural(&gap_fixture_for_case(wrong_gap, reason)).is_err(),
            "Aborted {reason} accepted wrong Gap"
        );
    }

    let mut before_created = header();
    before_created.extend(event(
        EVENT_ABORTED,
        0,
        0,
        0,
        &terminal_body(264, 0, 0, 0, 0, 0),
    ));
    assert!(read_structural(&before_created).is_err());
}

#[test]
fn reader_rejects_header_prefix_and_body_mutations() {
    let clean = clean_fixture();
    for mutation in [
        mutate(&clean, 0, 0),
        mutate(&clean, 10, 3),
        mutate(&clean, 12, 2),
        mutate(&clean, 13, 1),
        mutate(&clean, 15, 2),
        mutate(&clean, 35, 0),
        mutate(&clean, 36, 0xff),
        mutate(&clean, 38, 1),
    ] {
        assert!(read_structural(&mutation).is_err());
    }
}

#[test]
fn reader_rejects_truncation_at_every_header_and_event_boundary() {
    let clean = clean_fixture();
    for cut in 0..clean.len() {
        assert!(read_structural(&clean[..cut]).is_err(), "cut {cut}");
    }
}

#[test]
fn reader_rejects_ordinal_timestamp_generation_and_terminal_violations() {
    let clean = clean_fixture();
    for mutation in [
        rewrite_prefix_u64(&clean, 80, 0, 7),
        rewrite_prefix_u64(&clean, 80, 16, 1),
        rewrite_prefix_u64(&clean, 136, 24, 0),
        append_byte(&clean, 0),
    ] {
        assert!(read_structural(&mutation).is_err());
    }
}

#[test]
fn record_and_counter_rules_are_recomputed() {
    let clean = clean_fixture();
    for mutation in [
        rewrite_u64_from_end(&clean, 8, 4),
        rewrite_u64_from_end(&clean, 16, 2),
        rewrite_u64_from_end(&clean, 24, 2),
        rewrite_u64_from_end(&clean, 32, 2),
        rewrite_u64_from_end(&clean, 40, 2),
    ] {
        assert!(read_structural(&mutation).is_err());
    }
}

#[test]
fn limits_are_checked_without_large_allocations() {
    assert!(validate_event_length(MVS_CAPTURE_V2_MAX_EVENT_BYTES).is_ok());
    assert!(validate_event_length(MVS_CAPTURE_V2_MAX_EVENT_BYTES + 1).is_err());
    let mut counters = CaptureCounters::default();
    counters.reserve_event().unwrap();
    counters
        .reserve_payload(MVS_CAPTURE_V2_MAX_CUMULATIVE_PAYLOAD)
        .unwrap();
    assert!(counters.reserve_payload(1).is_err());
}

#[test]
fn v1_wrapper_is_historical_unproven_and_strict_has_no_fallback() {
    let v1 = b"FRDMVS01\0\0\0\0\0\0\0\0\0\0\0\x01\x02";
    let wrapped = read_mvs_capture_v1_historical(v1).unwrap();
    assert_eq!(
        wrapped.provenance,
        MvsCaptureV2Provenance::HistoricalUnproven
    );
    assert!(read_strict(v1).is_err());
}

fn header() -> Vec<u8> {
    let mut bytes = Vec::new();
    bytes.extend_from_slice(b"FRDMVS02");
    bytes.extend_from_slice(&32u16.to_be_bytes());
    bytes.extend_from_slice(&[2, 0, 1, 0]);
    bytes.extend_from_slice(&1u16.to_be_bytes());
    bytes.extend_from_slice(&0x0100_0000u32.to_be_bytes());
    bytes.extend_from_slice(&0x0100_001cu32.to_be_bytes());
    bytes.extend_from_slice(&4096u32.to_be_bytes());
    bytes.extend_from_slice(&30_000u32.to_be_bytes());
    bytes
}

fn event(kind: u16, ordinal: u64, generation: u64, timestamp: u64, body: &[u8]) -> Vec<u8> {
    let mut bytes = Vec::new();
    bytes.extend_from_slice(&((32 + body.len()) as u32).to_be_bytes());
    bytes.extend_from_slice(&kind.to_be_bytes());
    bytes.extend_from_slice(&0u16.to_be_bytes());
    bytes.extend_from_slice(&ordinal.to_be_bytes());
    bytes.extend_from_slice(&generation.to_be_bytes());
    bytes.extend_from_slice(&timestamp.to_be_bytes());
    bytes.extend_from_slice(body);
    bytes
}

fn created_body() -> Vec<u8> {
    join(&[
        &30_000u32.to_be_bytes(),
        &3u32.to_be_bytes(),
        &1u16.to_be_bytes(),
        &1u16.to_be_bytes(),
        &0u32.to_be_bytes(),
    ])
}

fn created_body_with_limit(limit: u32) -> Vec<u8> {
    join(&[
        &30_000u32.to_be_bytes(),
        &limit.to_be_bytes(),
        &1u16.to_be_bytes(),
        &1u16.to_be_bytes(),
        &0u32.to_be_bytes(),
    ])
}

fn armed_body(committed: (u16, u16), requested: (u16, u16)) -> Vec<u8> {
    join(&[
        &committed.0.to_be_bytes(),
        &committed.1.to_be_bytes(),
        &requested.0.to_be_bytes(),
        &requested.1.to_be_bytes(),
        &1u16.to_be_bytes(),
        &1u16.to_be_bytes(),
        &3u32.to_be_bytes(),
        &0u64.to_be_bytes(),
    ])
}

fn record_body(
    first: u64,
    last: u64,
    rect: frd_vnc::mvs_stream::MvsRect,
    payload: &[u8],
) -> Vec<u8> {
    join(&[
        &first.to_be_bytes(),
        &last.to_be_bytes(),
        &rect.x.to_be_bytes(),
        &rect.y.to_be_bytes(),
        &rect.width.to_be_bytes(),
        &rect.height.to_be_bytes(),
        &(payload.len() as u32).to_be_bytes(),
        payload,
    ])
}

fn terminal(
    kind: u16,
    ordinal: u64,
    timestamp: u64,
    reason: u16,
    source: u64,
    records: u64,
    type0: u64,
    type1: u64,
    type2: u64,
) -> Vec<u8> {
    event(
        kind,
        ordinal,
        0,
        timestamp,
        &join(&[
            &reason.to_be_bytes(),
            &0u16.to_be_bytes(),
            &0u32.to_be_bytes(),
            &source.to_be_bytes(),
            &records.to_be_bytes(),
            &type0.to_be_bytes(),
            &type1.to_be_bytes(),
            &type2.to_be_bytes(),
        ]),
    )
}

fn clean_fixture() -> Vec<u8> {
    let mut bytes = header();
    bytes.extend(event(1, 0, 0, 0, &created_body()));
    bytes.extend(event(2, 1, 0, 1, &armed_body((640, 480), (1920, 1080))));
    bytes.extend(event(
        3,
        2,
        0,
        2,
        &join(&[
            &1920u16.to_be_bytes(),
            &1080u16.to_be_bytes(),
            &7u32.to_be_bytes(),
            &0u64.to_be_bytes(),
        ]),
    ));
    bytes.extend(event(4, 3, 0, 3, &0u64.to_be_bytes()));
    bytes.extend(event(
        0x20,
        4,
        0,
        4,
        &record_body(0, 0, rect(0, 0, 0, 0), &[2]),
    ));
    bytes.extend(event(
        0x20,
        5,
        0,
        5,
        &record_body(1, 1, rect(0, 0, 1, 1), &[0]),
    ));
    bytes.extend(event(
        0x20,
        6,
        0,
        6,
        &record_body(2, 2, rect(1, 1, 1, 1), &[1]),
    ));
    bytes.extend(terminal(0xfe, 7, 30_000_000, 1, 3, 3, 1, 1, 1));
    bytes
}

fn capture_with_surface() -> Vec<u8> {
    let mut bytes = clean_fixture();
    insert_before_terminal(&mut bytes, event(0x10, 7, 1, 7, &surface_body(640, 480)));
    replace_terminal_ordinal(&mut bytes, 8);
    replace_terminal_generation(&mut bytes, 1);
    bytes
}

fn surface_transition_fixture(
    surface_generation: u64,
    surface: (u16, u16),
    record_rect: Option<frd_vnc::mvs_stream::MvsRect>,
) -> Vec<u8> {
    let mut bytes = header();
    bytes.extend(event(1, 0, 0, 0, &created_body()));
    bytes.extend(event(2, 1, 0, 1, &armed_body((2, 1), (2, 1))));
    bytes.extend(event(
        3,
        2,
        0,
        2,
        &join(&[
            &2u16.to_be_bytes(),
            &1u16.to_be_bytes(),
            &7u32.to_be_bytes(),
            &0u64.to_be_bytes(),
        ]),
    ));
    bytes.extend(event(4, 3, 0, 3, &0u64.to_be_bytes()));
    bytes.extend(event(
        0x10,
        4,
        surface_generation,
        4,
        &surface_body(surface.0, surface.1),
    ));
    let (terminal_ordinal, source, records, type0) = if let Some(rectangle) = record_rect {
        bytes.extend(event(
            0x20,
            5,
            surface_generation,
            5,
            &record_body(0, 0, rectangle, &[0]),
        ));
        (6, 1, 1, 1)
    } else {
        (5, 0, 0, 0)
    };
    bytes.extend(event(
        0xfe,
        terminal_ordinal,
        surface_generation,
        30_000_000,
        &terminal_body_full(1, 0, source, records, type0, 0, 0),
    ));
    bytes
}

fn capture_with_abort() -> Vec<u8> {
    let mut bytes = header();
    bytes.extend(event(1, 0, 0, 0, &created_body()));
    bytes.extend(event(0xff, 1, 0, 1, &terminal_body(257, 0, 0, 0, 0, 0)));
    bytes
}

fn abort_at_phase(phase: u64, reason: u16) -> Vec<u8> {
    let mut bytes = header();
    bytes.extend(event(1, 0, 0, 0, &created_body()));
    if phase >= 1 {
        bytes.extend(event(2, 1, 0, 1, &armed_body((640, 480), (640, 480))));
    }
    if phase >= 2 {
        bytes.extend(event(
            3,
            2,
            0,
            2,
            &join(&[
                &640u16.to_be_bytes(),
                &480u16.to_be_bytes(),
                &7u32.to_be_bytes(),
                &0u64.to_be_bytes(),
            ]),
        ));
    }
    if phase >= 3 {
        bytes.extend(event(4, 3, 0, 3, &0u64.to_be_bytes()));
    }
    let ordinal = phase + 1;
    bytes.extend(event(
        0xff,
        ordinal,
        0,
        ordinal,
        &terminal_body(reason, 0, 0, 0, 0, 0),
    ));
    bytes
}

fn event_cap_fixture(extra_surface: bool) -> Vec<u8> {
    let mut bytes = header();
    bytes.extend(event(1, 0, 0, 0, &created_body_with_limit(4096)));
    bytes.extend(event(2, 1, 0, 1, &armed_body((640, 480), (640, 480))));
    bytes.extend(event(
        3,
        2,
        0,
        2,
        &join(&[
            &640u16.to_be_bytes(),
            &480u16.to_be_bytes(),
            &7u32.to_be_bytes(),
            &0u64.to_be_bytes(),
        ]),
    ));
    bytes.extend(event(4, 3, 0, 3, &0u64.to_be_bytes()));
    bytes.extend(event(0x10, 4, 1, 4, &surface_body(640, 480)));
    for index in 0..4096u64 {
        bytes.extend(event(
            0x20,
            5 + index,
            1,
            5 + index,
            &record_body(index, index, rect(0, 0, 1, 1), &[0]),
        ));
    }
    let (ordinal, generation) = if extra_surface {
        bytes.extend(event(0x10, 4101, 2, 4101, &surface_body(640, 480)));
        (4102, 2)
    } else {
        (4101, 1)
    };
    bytes.extend(event(
        0xfe,
        ordinal,
        generation,
        ordinal,
        &terminal_body(2, 0, 4096, 4096, 4096, 0),
    ));
    bytes
}

fn capture_with_gap_then_abort() -> Vec<u8> {
    gap_fixture(9, 2, 262)
}

fn clean_capture_with_geometry(
    committed: (u16, u16),
    requested: (u16, u16),
    record_rect: frd_vnc::mvs_stream::MvsRect,
) -> Vec<u8> {
    let mut bytes = header();
    bytes.extend(event(1, 0, 0, 0, &created_body()));
    bytes.extend(event(2, 1, 0, 1, &armed_body(committed, requested)));
    bytes.extend(event(
        3,
        2,
        0,
        2,
        &join(&[
            &requested.0.to_be_bytes(),
            &requested.1.to_be_bytes(),
            &7u32.to_be_bytes(),
            &0u64.to_be_bytes(),
        ]),
    ));
    bytes.extend(event(4, 3, 0, 3, &0u64.to_be_bytes()));
    bytes.extend(event(0x20, 4, 0, 4, &record_body(0, 0, record_rect, &[0])));
    bytes.extend(terminal(0xfe, 5, 30_000_000, 1, 1, 1, 1, 0, 0));
    bytes
}

fn gap_fixture(reason: u16, stage: u16, terminal_reason: u16) -> Vec<u8> {
    let mut case = gap_case(reason);
    case.stage = stage;
    gap_fixture_for_case(case, terminal_reason)
}

#[derive(Clone, Copy)]
struct GapCase {
    reason: u16,
    stage: u16,
    first: u64,
    last: u64,
    declared: u32,
    accumulated: u32,
    rectangle: (u16, u16, u16, u16),
    terminal: u16,
    cumulative_before: usize,
}

fn gap_cases() -> [GapCase; 12] {
    [
        GapCase {
            reason: 1,
            stage: 1,
            first: 7,
            last: 7,
            declared: 0,
            accumulated: 0,
            rectangle: (0, 0, 0, 0),
            terminal: 262,
            cumulative_before: 0,
        },
        GapCase {
            reason: 2,
            stage: 1,
            first: 7,
            last: 7,
            declared: (MVS_CAPTURE_V2_MAX_PAYLOAD + 1) as u32,
            accumulated: 0,
            rectangle: (0, 0, 1, 1),
            terminal: 262,
            cumulative_before: 0,
        },
        GapCase {
            reason: 3,
            stage: 1,
            first: 7,
            last: 7,
            declared: 5,
            accumulated: 0,
            rectangle: (0, 0, 1, 1),
            terminal: 262,
            cumulative_before: 0,
        },
        GapCase {
            reason: 4,
            stage: 2,
            first: 7,
            last: 8,
            declared: 5,
            accumulated: 3,
            rectangle: (0, 0, 1, 1),
            terminal: 262,
            cumulative_before: 0,
        },
        GapCase {
            reason: 5,
            stage: 3,
            first: 7,
            last: 8,
            declared: 5,
            accumulated: 3,
            rectangle: (0, 0, 1, 1),
            terminal: 262,
            cumulative_before: 0,
        },
        GapCase {
            reason: 6,
            stage: 4,
            first: 7,
            last: 8,
            declared: 5,
            accumulated: 3,
            rectangle: (0, 0, 1, 1),
            terminal: 263,
            cumulative_before: 0,
        },
        GapCase {
            reason: 7,
            stage: 5,
            first: 7,
            last: 8,
            declared: 5,
            accumulated: 3,
            rectangle: (0, 0, 1, 1),
            terminal: 261,
            cumulative_before: 0,
        },
        GapCase {
            reason: 8,
            stage: 6,
            first: 7,
            last: 8,
            declared: 5,
            accumulated: 3,
            rectangle: (0, 0, 1, 1),
            terminal: 266,
            cumulative_before: 0,
        },
        GapCase {
            reason: 9,
            stage: 2,
            first: 7,
            last: 7,
            declared: 0,
            accumulated: 0,
            rectangle: (0, 0, 0, 0),
            terminal: 262,
            cumulative_before: 0,
        },
        GapCase {
            reason: 10,
            stage: 1,
            first: 7,
            last: 8,
            declared: 5,
            accumulated: 3,
            rectangle: (0, 0, 1, 1),
            terminal: 262,
            cumulative_before: 0,
        },
        GapCase {
            reason: 11,
            stage: 8,
            first: 7,
            last: 7,
            declared: 4,
            accumulated: 0,
            rectangle: (0, 0, 1, 1),
            terminal: 262,
            cumulative_before: MVS_CAPTURE_V2_MAX_CUMULATIVE_PAYLOAD - 3,
        },
        GapCase {
            reason: 12,
            stage: 7,
            first: 7,
            last: 8,
            declared: 5,
            accumulated: 3,
            rectangle: (0, 0, 1, 1),
            terminal: 265,
            cumulative_before: 0,
        },
    ]
}

fn gap_case(reason: u16) -> GapCase {
    gap_cases()
        .into_iter()
        .find(|case| case.reason == reason)
        .unwrap()
}

fn gap_body_for_case(case: GapCase) -> Vec<u8> {
    gap_body(
        case.reason,
        case.stage,
        1,
        case.first,
        case.last,
        case.declared,
        case.accumulated,
        rect_from_tuple(case.rectangle),
    )
}

fn invalid_declared_for(case: GapCase) -> u32 {
    match case.reason {
        1 | 9 => 1,
        2 => 1,
        11 => 3,
        _ => 0,
    }
}

fn invalid_accumulated_for(case: GapCase) -> u32 {
    match case.reason {
        1 | 2 | 3 | 9 | 11 => 1,
        _ => case.declared,
    }
}

fn gap_fixture_for_case(mut case: GapCase, terminal_reason: u16) -> Vec<u8> {
    let mut bytes = header();
    bytes.extend(event(1, 0, 0, 0, &created_body()));
    bytes.extend(event(2, 1, 0, 1, &armed_body((640, 480), (640, 480))));
    bytes.extend(event(
        3,
        2,
        0,
        2,
        &join(&[
            &640u16.to_be_bytes(),
            &480u16.to_be_bytes(),
            &7u32.to_be_bytes(),
            &0u64.to_be_bytes(),
        ]),
    ));
    bytes.extend(event(4, 3, 0, 3, &0u64.to_be_bytes()));
    let had_span = case.last > case.first;
    case.first = 0;
    case.last = if had_span { 1 } else { 0 };
    let source_count = case.last + 1;
    bytes.extend(event(0x21, 4, 0, 4, &gap_body_for_case(case)));
    bytes.extend(event(
        0xff,
        5,
        0,
        5,
        &terminal_body(terminal_reason, 1, source_count, 0, 0, 0),
    ));
    bytes
}

fn parse_gap_fixture(
    flags: u32,
    first: u64,
    last: u64,
) -> Result<StructuralMvsCaptureV2, VncError> {
    let mut bytes = header();
    bytes.extend(event(1, 0, 0, 0, &created_body()));
    bytes.extend(event(2, 1, 0, 1, &armed_body((640, 480), (640, 480))));
    bytes.extend(event(
        3,
        2,
        0,
        2,
        &join(&[
            &640u16.to_be_bytes(),
            &480u16.to_be_bytes(),
            &7u32.to_be_bytes(),
            &0u64.to_be_bytes(),
        ]),
    ));
    bytes.extend(event(4, 3, 0, 3, &0u64.to_be_bytes()));
    bytes.extend(event(
        0x21,
        4,
        0,
        4,
        &gap_body(9, 2, flags, first, last, 0, 0, rect(0, 0, 0, 0)),
    ));
    bytes.extend(event(
        0xff,
        5,
        0,
        5,
        &terminal_body(262, 1, last.saturating_add(1), 0, 0, 0),
    ));
    read_structural(&bytes)
}

fn gap_body(
    reason: u16,
    stage: u16,
    flags: u32,
    first: u64,
    last: u64,
    declared: u32,
    accumulated: u32,
    rectangle: frd_vnc::mvs_stream::MvsRect,
) -> Vec<u8> {
    join(&[
        &reason.to_be_bytes(),
        &stage.to_be_bytes(),
        &flags.to_be_bytes(),
        &first.to_be_bytes(),
        &last.to_be_bytes(),
        &declared.to_be_bytes(),
        &accumulated.to_be_bytes(),
        &rectangle.x.to_be_bytes(),
        &rectangle.y.to_be_bytes(),
        &rectangle.width.to_be_bytes(),
        &rectangle.height.to_be_bytes(),
    ])
}

fn surface_body(width: u16, height: u16) -> Vec<u8> {
    join(&[
        &width.to_be_bytes(),
        &height.to_be_bytes(),
        &1u16.to_be_bytes(),
        &0u16.to_be_bytes(),
    ])
}
fn terminal_body(
    reason: u16,
    gaps: u32,
    source: u64,
    records: u64,
    type0: u64,
    type1: u64,
) -> Vec<u8> {
    terminal_body_full(reason, gaps, source, records, type0, type1, 0)
}
fn terminal_body_full(
    reason: u16,
    gaps: u32,
    source: u64,
    records: u64,
    type0: u64,
    type1: u64,
    type2: u64,
) -> Vec<u8> {
    join(&[
        &reason.to_be_bytes(),
        &0u16.to_be_bytes(),
        &gaps.to_be_bytes(),
        &source.to_be_bytes(),
        &records.to_be_bytes(),
        &type0.to_be_bytes(),
        &type1.to_be_bytes(),
        &type2.to_be_bytes(),
    ])
}
fn rect(x: u16, y: u16, width: u16, height: u16) -> frd_vnc::mvs_stream::MvsRect {
    frd_vnc::mvs_stream::MvsRect {
        x,
        y,
        width,
        height,
    }
}
fn rect_from_tuple(rectangle: (u16, u16, u16, u16)) -> frd_vnc::mvs_stream::MvsRect {
    rect(rectangle.0, rectangle.1, rectangle.2, rectangle.3)
}
fn insert_before_terminal(bytes: &mut Vec<u8>, event: Vec<u8>) {
    let terminal = bytes.split_off(bytes.len() - 80);
    bytes.extend(event);
    bytes.extend(terminal);
}
fn replace_terminal_ordinal(bytes: &mut [u8], ordinal: u64) {
    let offset = bytes.len() - 80 + 8;
    bytes[offset..offset + 8].copy_from_slice(&ordinal.to_be_bytes());
}
fn replace_terminal_generation(bytes: &mut [u8], generation: u64) {
    let offset = bytes.len() - 80 + 16;
    bytes[offset..offset + 8].copy_from_slice(&generation.to_be_bytes());
}
fn mutate(bytes: &[u8], index: usize, value: u8) -> Vec<u8> {
    let mut copy = bytes.to_vec();
    copy[index] = value;
    copy
}
fn rewrite_byte(bytes: &[u8], index: usize, value: u8) -> Vec<u8> {
    mutate(bytes, index, value)
}
fn append_byte(bytes: &[u8], value: u8) -> Vec<u8> {
    let mut copy = bytes.to_vec();
    copy.push(value);
    copy
}
fn rewrite_prefix_u64(
    bytes: &[u8],
    event_offset: usize,
    field_offset: usize,
    value: u64,
) -> Vec<u8> {
    let mut copy = bytes.to_vec();
    copy[event_offset + field_offset..event_offset + field_offset + 8]
        .copy_from_slice(&value.to_be_bytes());
    copy
}
fn rewrite_u64_from_end(bytes: &[u8], footer_body_offset: usize, value: u64) -> Vec<u8> {
    let mut copy = bytes.to_vec();
    let index = bytes.len() - 48 + footer_body_offset;
    copy[index..index + 8].copy_from_slice(&value.to_be_bytes());
    copy
}
fn join(parts: &[&[u8]]) -> Vec<u8> {
    let mut bytes = Vec::new();
    for part in parts {
        bytes.extend_from_slice(part);
    }
    bytes
}

struct ShortReader {
    inner: Cursor<Vec<u8>>,
    chunk: usize,
}

impl ShortReader {
    fn new(bytes: Vec<u8>, chunk: usize) -> Self {
        Self {
            inner: Cursor::new(bytes),
            chunk,
        }
    }
    fn consumed(&self) -> usize {
        self.inner.position() as usize
    }
}

impl Read for ShortReader {
    fn read(&mut self, out: &mut [u8]) -> std::io::Result<usize> {
        let length = out.len().min(self.chunk);
        self.inner.read(&mut out[..length])
    }
}