use frd_vnc::mvs_stream::{
    validate_mvs_rect_against_surface, MvsRecordAssembler, MvsRect, MAX_MVS_RECORD_PAYLOAD,
};

#[test]
fn mvs_rectangle_must_fit_the_current_surface() {
    let surface = (1920u16, 1080u16);
    assert!(validate_mvs_rect_against_surface(
        MvsRect {
            x: 100,
            y: 100,
            width: 200,
            height: 300,
        },
        surface.0,
        surface.1,
    )
    .is_ok());
    assert!(validate_mvs_rect_against_surface(
        MvsRect {
            x: 1900,
            y: 0,
            width: 100,
            height: 100,
        },
        surface.0,
        surface.1,
    )
    .is_err());
}

#[test]
fn reassembles_captured_fragment_lengths_without_dropping_bytes() {
    let rect = MvsRect {
        x: 0,
        y: 1256,
        width: 1358,
        height: 1112,
    };
    let first = vec![0x11; 32_748];
    let continuation = vec![0x22; 26_572];
    let mut assembler = MvsRecordAssembler::default();

    assert!(assembler.begin(rect, 59_320, &first).unwrap().is_none());
    let record = assembler.push_continuation(&continuation).unwrap().unwrap();

    assert_eq!(record.rect, rect);
    assert_eq!(record.payload.len(), 59_320);
    assert_eq!(&record.payload[..32_748], &first);
    assert_eq!(&record.payload[32_748..], &continuation);
}

#[test]
fn rejects_first_chunk_overflow_and_clears_pending_state() {
    let mut assembler = MvsRecordAssembler::default();
    let result = assembler.begin(
        MvsRect {
            x: 1,
            y: 2,
            width: 3,
            height: 4,
        },
        2,
        &[1, 2, 3],
    );
    assert!(result.is_err());
    assert!(!assembler.is_pending());
}

#[test]
fn rejects_continuation_overflow_and_clears_pending_state() {
    let mut assembler = MvsRecordAssembler::default();
    assert!(assembler
        .begin(
            MvsRect {
                x: 1,
                y: 2,
                width: 3,
                height: 4
            },
            3,
            &[1, 2]
        )
        .unwrap()
        .is_none());
    assert!(assembler.push_continuation(&[3, 4]).is_err());
    assert!(!assembler.is_pending());
}

#[test]
fn rejects_continuation_without_a_start() {
    let mut assembler = MvsRecordAssembler::default();
    assert!(assembler.push_continuation(&[1]).is_err());
    assert!(!assembler.is_pending());
}

#[test]
fn rejects_second_start_while_pending_and_clears_pending_state() {
    let mut assembler = MvsRecordAssembler::default();
    let rect = MvsRect {
        x: 1,
        y: 2,
        width: 3,
        height: 4,
    };
    assert!(assembler.begin(rect, 2, &[1]).unwrap().is_none());
    assert!(assembler.begin(rect, 2, &[2]).is_err());
    assert!(!assembler.is_pending());
}

#[test]
fn accepts_protocol_maximum_without_preallocating_the_declared_total() {
    let mut assembler = MvsRecordAssembler::default();
    let rect = MvsRect {
        x: 1,
        y: 2,
        width: 3,
        height: 4,
    };

    assert!(assembler
        .begin(rect, MAX_MVS_RECORD_PAYLOAD as u32, &[1])
        .unwrap()
        .is_none());
    assert!(assembler.is_pending());
    assembler.abort();
}

#[test]
fn rejects_over_protocol_maximum_and_clears_pending_state() {
    let mut assembler = MvsRecordAssembler::default();
    let result = assembler.begin(
        MvsRect {
            x: 1,
            y: 2,
            width: 3,
            height: 4,
        },
        (MAX_MVS_RECORD_PAYLOAD + 1) as u32,
        &[1],
    );

    assert!(result.is_err());
    assert!(!assembler.is_pending());
}