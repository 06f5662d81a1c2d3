use frd_vnc::capture_reader::{read_mvs_capture_v2_strict_cold, read_mvs_capture_v2_structural};
use frd_vnc::capture_writer_model::CreatedConfig;
use frd_vnc::cold_hpss::{
    classify_cold_frame, connect_deadline_opts, run_authenticated_cold_session,
    run_authenticated_cold_session_io, CaptureGeometry, ColdFrameClass, ColdSessionIo, ObservedIo,
};
use frd_vnc::error::VncError;
use frd_vnc::hpss;
use frd_vnc::mvs_capture_v2::{MvsCaptureV2TerminalKind, MvsCaptureV2TerminalReason};
use frd_vnc::mvs_capture_v2_writer::{
    CaptureClock, CaptureFinalFile, CaptureIntoInnerResult, CaptureSink, MvsCaptureV2Writer,
};
use frd_vnc::mvs_stream::MvsRect;
use std::cell::RefCell;
use std::collections::VecDeque;
use std::rc::Rc;

#[test]
fn cold_hpss_public_integration_entry_points_exist() {
    let _ = connect_deadline_opts;
    let _ = run_authenticated_cold_session::<FakeSessionIo, MemorySink, ZeroClock>;
}

#[test]
fn pending_input_owns_every_next_application_frame_as_continuation() {
    let port_announcement = port_announcement_fixture();
    assert_eq!(
        classify_cold_frame(&port_announcement, true, geometry(640, 480)),
        ColdFrameClass::Continuation
    );
}

#[test]
fn idle_classification_distinguishes_mvs_geometry_and_non_mvs_without_udp_side_effects() {
    let mvs = mvs_frame(4, &[2, 1]);
    assert!(matches!(
        classify_cold_frame(&mvs, false, geometry(640, 480)),
        ColdFrameClass::MvsBegin { total: 4, ref body, .. } if body == &[2, 1]
    ));
    assert_eq!(
        classify_cold_frame(&port_announcement_fixture(), false, geometry(640, 480)),
        ColdFrameClass::NonMvs
    );
    assert_eq!(
        classify_cold_frame(&server_state(640, 480), false, geometry(640, 480)),
        ColdFrameClass::NonMvs
    );
    assert_eq!(
        classify_cold_frame(&server_state(800, 600), false, geometry(640, 480)),
        ColdFrameClass::GeometryTransition
    );
}

#[test]
fn lifecycle_trigger_order_pending_ownership_and_mvs_only_ordinals_are_frozen() {
    let trace = Rc::new(RefCell::new(Vec::new()));
    let bytes = Rc::new(RefCell::new(Vec::new()));
    let sink = MemorySink {
        bytes: Rc::clone(&bytes),
        trace: Rc::clone(&trace),
        fail_write_label_once: None,
        fail_flush_after_label_once: None,
    };
    let mut writer = MvsCaptureV2Writer::new(
        sink,
        ZeroClock,
        CreatedConfig {
            deadline_ms: 5_000,
            record_limit: 1,
        },
    )
    .unwrap();
    let mut io = ObservedIo::new(FakeSessionIo {
        trace: Rc::clone(&trace),
        frames: VecDeque::from([
            vec![0],
            port_announcement_fixture().to_vec(),
            mvs_frame_with_rect(3, &[2], 0, 0),
            vec![0xaa, 0xbb],
        ]),
        writes: Vec::new(),
        encrypted: true,
        fail_set_timeout: false,
        fail_write_at: None,
        cancel_after_reads: None,
        reads: 0,
    });

    run_authenticated_cold_session_io(&mut io, &mut writer, geometry(640, 480)).unwrap();

    assert_eq!(io.io.writes.len(), 3);
    assert_eq!(io.io.writes[0][0], 0x1d);
    assert_eq!(io.io.writes[1][0], 0x09);
    assert_eq!(io.io.writes[2][0], 0x03);
    let trace = trace.borrow();
    assert_eq!(
        &trace[..11],
        &[
            "created",
            "flush",
            "armed",
            "flush",
            "sync",
            "trigger-1d",
            "trigger-09",
            "trigger-03",
            "triggered",
            "recording",
            "flush",
        ]
    );
    drop(trace);
    let captured = bytes.borrow().clone();
    let strict = read_mvs_capture_v2_strict_cold(&captured).unwrap();
    assert_eq!(strict.records.len(), 1);
    assert_eq!(strict.records[0].first_source_frame_ordinal, 0);
    assert_eq!(strict.records[0].last_source_frame_ordinal, 1);
    assert_eq!(strict.records[0].record.payload, [2, 0xaa, 0xbb]);
    assert_eq!(strict.terminal.source_mvs_frame_count, 2);
}

#[test]
fn committed_geometry_transition_aborts_without_starting_another_transport() {
    let trace = Rc::new(RefCell::new(Vec::new()));
    let bytes = Rc::new(RefCell::new(Vec::new()));
    let mut writer = MvsCaptureV2Writer::new(
        MemorySink {
            bytes: Rc::clone(&bytes),
            trace: Rc::clone(&trace),
            fail_write_label_once: None,
            fail_flush_after_label_once: None,
        },
        ZeroClock,
        CreatedConfig {
            deadline_ms: 5_000,
            record_limit: 1,
        },
    )
    .unwrap();
    let mut io = ObservedIo::new(FakeSessionIo {
        trace,
        frames: VecDeque::from([server_state(800, 600)]),
        writes: Vec::new(),
        encrypted: true,
        fail_set_timeout: false,
        fail_write_at: None,
        cancel_after_reads: None,
        reads: 0,
    });

    assert!(
        run_authenticated_cold_session_io(&mut io, &mut writer, geometry(640, 480)).is_err()
    );

    let captured = bytes.borrow().clone();
    let structural = read_mvs_capture_v2_structural(&captured).unwrap();
    assert_eq!(
        structural.terminal.reason,
        MvsCaptureV2TerminalReason::InvalidGeometry
    );
    assert!(structural.records.is_empty());
    assert!(structural.gaps.is_empty());
}

#[test]
fn unencrypted_session_finalizes_as_authentication_failure() {
    let trace = Rc::new(RefCell::new(Vec::new()));
    let bytes = Rc::new(RefCell::new(Vec::new()));
    let mut writer = MvsCaptureV2Writer::new(
        MemorySink {
            bytes: Rc::clone(&bytes),
            trace: Rc::clone(&trace),
            fail_write_label_once: None,
            fail_flush_after_label_once: None,
        },
        ZeroClock,
        CreatedConfig {
            deadline_ms: 5_000,
            record_limit: 1,
        },
    )
    .unwrap();
    let mut io = ObservedIo::new(FakeSessionIo {
        trace,
        frames: VecDeque::new(),
        writes: Vec::new(),
        encrypted: false,
        fail_set_timeout: false,
        fail_write_at: None,
        cancel_after_reads: None,
        reads: 0,
    });

    assert!(
        run_authenticated_cold_session_io(&mut io, &mut writer, geometry(640, 480)).is_err()
    );

    let captured = bytes.borrow().clone();
    let structural = read_mvs_capture_v2_structural(&captured).unwrap();
    assert_eq!(
        structural.terminal.reason,
        MvsCaptureV2TerminalReason::CredentialOrAuthenticationFailure
    );
}

#[test]
fn recording_timeout_configuration_failure_finalizes_as_read_failure() {
    let trace = Rc::new(RefCell::new(Vec::new()));
    let bytes = Rc::new(RefCell::new(Vec::new()));
    let mut writer = MvsCaptureV2Writer::new(
        MemorySink {
            bytes: Rc::clone(&bytes),
            trace: Rc::clone(&trace),
            fail_write_label_once: None,
            fail_flush_after_label_once: None,
        },
        ZeroClock,
        CreatedConfig {
            deadline_ms: 5_000,
            record_limit: 1,
        },
    )
    .unwrap();
    let mut io = ObservedIo::new(FakeSessionIo {
        trace,
        frames: VecDeque::new(),
        writes: Vec::new(),
        encrypted: true,
        fail_set_timeout: true,
        fail_write_at: None,
        cancel_after_reads: None,
        reads: 0,
    });

    assert!(
        run_authenticated_cold_session_io(&mut io, &mut writer, geometry(640, 480)).is_err()
    );

    let captured = bytes.borrow().clone();
    let structural = read_mvs_capture_v2_structural(&captured).unwrap();
    assert_eq!(
        structural.terminal.reason,
        MvsCaptureV2TerminalReason::ReadFailure
    );
}

#[test]
fn cancellation_is_checked_after_deadline_and_lifetime_but_before_next_read() {
    let trace = Rc::new(RefCell::new(Vec::new()));
    let bytes = Rc::new(RefCell::new(Vec::new()));
    let mut writer = MvsCaptureV2Writer::new(
        MemorySink {
            bytes: Rc::clone(&bytes),
            trace: Rc::clone(&trace),
            fail_write_label_once: None,
            fail_flush_after_label_once: None,
        },
        ZeroClock,
        CreatedConfig {
            deadline_ms: 5_000,
            record_limit: 1,
        },
    )
    .unwrap();
    let mut io = ObservedIo::new(FakeSessionIo {
        trace,
        frames: VecDeque::from([mvs_frame_with_rect(3, &[0], 1, 1)]),
        writes: Vec::new(),
        encrypted: true,
        fail_set_timeout: false,
        fail_write_at: None,
        cancel_after_reads: Some(1),
        reads: 0,
    });

    assert!(
        run_authenticated_cold_session_io(&mut io, &mut writer, geometry(640, 480)).is_err()
    );

    let captured = bytes.borrow().clone();
    let structural = read_mvs_capture_v2_structural(&captured).unwrap();
    assert_eq!(
        structural.terminal.reason,
        MvsCaptureV2TerminalReason::OperatorCancellation
    );
    assert_eq!(structural.gaps.len(), 1);
    assert_eq!(structural.gaps[0].reason, 12);
    assert_eq!(structural.terminal.source_mvs_frame_count, 1);
}

#[test]
fn malformed_mvs_envelope_emits_exact_assembler_gap_and_aborts() {
    let trace = Rc::new(RefCell::new(Vec::new()));
    let bytes = Rc::new(RefCell::new(Vec::new()));
    let mut writer = MvsCaptureV2Writer::new(
        MemorySink {
            bytes: Rc::clone(&bytes),
            trace: Rc::clone(&trace),
            fail_write_label_once: None,
            fail_flush_after_label_once: None,
        },
        ZeroClock,
        CreatedConfig {
            deadline_ms: 5_000,
            record_limit: 1,
        },
    )
    .unwrap();
    let mut malformed = vec![0_u8; 16];
    malformed[0..4].copy_from_slice(&1_u32.to_be_bytes());
    malformed[4..6].copy_from_slice(&7_u16.to_be_bytes());
    malformed[6..8].copy_from_slice(&8_u16.to_be_bytes());
    malformed[8..10].copy_from_slice(&9_u16.to_be_bytes());
    malformed[10..12].copy_from_slice(&10_u16.to_be_bytes());
    malformed[12..16].copy_from_slice(&hpss::encoding::MVS.to_be_bytes());
    let mut io = ObservedIo::new(FakeSessionIo {
        trace,
        frames: VecDeque::from([malformed]),
        writes: Vec::new(),
        encrypted: true,
        fail_set_timeout: false,
        fail_write_at: None,
        cancel_after_reads: None,
        reads: 0,
    });

    assert!(
        run_authenticated_cold_session_io(&mut io, &mut writer, geometry(640, 480)).is_err()
    );

    let structural =
        read_mvs_capture_v2_structural(&bytes.borrow()).unwrap();
    assert_eq!(
        structural.terminal.reason,
        MvsCaptureV2TerminalReason::AssemblerFailure
    );
    assert_eq!(structural.terminal.source_mvs_frame_count, 1);
    assert_eq!(structural.gaps.len(), 1);
    let gap = &structural.gaps[0];
    assert_eq!((gap.reason, gap.stage), (1, 1));
    assert_eq!(
        (
            gap.first_source_frame_ordinal,
            gap.last_source_frame_ordinal
        ),
        (0, 0)
    );
    assert_eq!((gap.declared_total, gap.accumulated_bytes), (0, 0));
    assert_eq!(
        gap.rect,
        MvsRect {
            x: 7,
            y: 8,
            width: 9,
            height: 10,
        }
    );
}

#[test]
fn each_trigger_write_failure_selects_260_before_any_read() {
    for fail_write_at in 0..3 {
        let trace = Rc::new(RefCell::new(Vec::new()));
        let bytes = Rc::new(RefCell::new(Vec::new()));
        let mut writer = MvsCaptureV2Writer::new(
            MemorySink {
                bytes: Rc::clone(&bytes),
                trace: Rc::clone(&trace),
                fail_write_label_once: None,
                fail_flush_after_label_once: None,
            },
            ZeroClock,
            CreatedConfig {
                deadline_ms: 5_000,
                record_limit: 1,
            },
        )
        .unwrap();
        let mut io = ObservedIo::new(FakeSessionIo {
            trace,
            frames: VecDeque::new(),
            writes: Vec::new(),
            encrypted: true,
            fail_set_timeout: false,
            fail_write_at: Some(fail_write_at),
            cancel_after_reads: None,
            reads: 0,
        });

        assert!(
            run_authenticated_cold_session_io(&mut io, &mut writer, geometry(640, 480))
                .is_err()
        );
        assert_eq!(io.io.reads, 0);
        assert_eq!(io.io.writes.len(), fail_write_at + 1);
        let structural =
            read_mvs_capture_v2_structural(&bytes.borrow()).unwrap();
        assert_eq!(
            structural.terminal.reason,
            MvsCaptureV2TerminalReason::TriggerFailure
        );
        assert!(structural.gaps.is_empty());
    }
}

#[test]
fn recording_write_and_flush_failures_select_260_before_any_read() {
    for (fail_write_label_once, fail_flush_after_label_once) in
        [(Some("recording"), None), (None, Some("recording"))]
    {
        let trace = Rc::new(RefCell::new(Vec::new()));
        let bytes = Rc::new(RefCell::new(Vec::new()));
        let mut writer = MvsCaptureV2Writer::new(
            MemorySink {
                bytes: Rc::clone(&bytes),
                trace: Rc::clone(&trace),
                fail_write_label_once,
                fail_flush_after_label_once,
            },
            ZeroClock,
            CreatedConfig {
                deadline_ms: 5_000,
                record_limit: 1,
            },
        )
        .unwrap();
        let mut io = ObservedIo::new(FakeSessionIo {
            trace,
            frames: VecDeque::new(),
            writes: Vec::new(),
            encrypted: true,
            fail_set_timeout: false,
            fail_write_at: None,
            cancel_after_reads: None,
            reads: 0,
        });

        assert!(
            run_authenticated_cold_session_io(&mut io, &mut writer, geometry(640, 480))
                .is_err()
        );
        assert_eq!(io.io.reads, 0);
        let structural =
            read_mvs_capture_v2_structural(&bytes.borrow()).unwrap();
        assert_eq!(
            structural.terminal.reason,
            MvsCaptureV2TerminalReason::TriggerFailure
        );
        assert!(structural.gaps.is_empty());
    }
}

fn geometry(width: u16, height: u16) -> CaptureGeometry {
    CaptureGeometry { width, height }
}

fn mvs_frame(total: u32, body: &[u8]) -> Vec<u8> {
    mvs_frame_with_rect(total, body, 1, 1)
}

fn mvs_frame_with_rect(total: u32, body: &[u8], width: u16, height: u16) -> Vec<u8> {
    let mut frame = vec![0u8; 16];
    frame[0..4].copy_from_slice(&1u32.to_be_bytes());
    frame[8..10].copy_from_slice(&width.to_be_bytes());
    frame[10..12].copy_from_slice(&height.to_be_bytes());
    frame[12..16].copy_from_slice(&hpss::encoding::MVS.to_be_bytes());
    frame.extend_from_slice(&total.to_be_bytes());
    frame.extend_from_slice(body);
    frame
}

fn server_state(width: u16, height: u16) -> Vec<u8> {
    let mut frame = vec![0u8; 94];
    frame[0..4].copy_from_slice(&1u32.to_be_bytes());
    frame[12..16].copy_from_slice(&hpss::encoding::SERVER_STATE.to_be_bytes());
    frame[16..18].copy_from_slice(&76u16.to_be_bytes());
    frame[18..20].copy_from_slice(&1u16.to_be_bytes());
    frame[20..22].copy_from_slice(&width.to_be_bytes());
    frame[22..24].copy_from_slice(&height.to_be_bytes());
    frame
}

fn port_announcement_fixture() -> [u8; 54] {
    let mut frame = [0u8; 54];
    frame[0..4].copy_from_slice(&1u32.to_be_bytes());
    frame[12..16].copy_from_slice(&0x03f2i32.to_be_bytes());
    frame[16..18].copy_from_slice(&36u16.to_be_bytes());
    frame[18..20].copy_from_slice(&1u16.to_be_bytes());
    frame[20..22].copy_from_slice(&1u16.to_be_bytes());
    frame[26..28].copy_from_slice(&5900u16.to_be_bytes());
    frame[28..32].copy_from_slice(&1u32.to_be_bytes());
    frame
}

struct ZeroClock;

impl CaptureClock for ZeroClock {
    fn elapsed_micros(&self) -> Result<u64, VncError> {
        Ok(0)
    }
}

struct MemorySink {
    bytes: Rc<RefCell<Vec<u8>>>,
    trace: Rc<RefCell<Vec<&'static str>>>,
    fail_write_label_once: Option<&'static str>,
    fail_flush_after_label_once: Option<&'static str>,
}

impl CaptureSink for MemorySink {
    type File = MemoryFinalFile;

    fn write_all(&mut self, bytes: &[u8]) -> Result<(), VncError> {
        let label = if bytes.starts_with(b"FRDMVS02") {
            "created"
        } else {
            match u16::from_be_bytes(bytes[4..6].try_into().unwrap()) {
                0x0002 => "armed",
                0x0003 => "triggered",
                0x0004 => "recording",
                0x0020 => "record",
                0x00fe | 0x00ff => "terminal",
                _ => "event",
            }
        };
        self.trace.borrow_mut().push(label);
        if self.fail_write_label_once == Some(label) {
            self.fail_write_label_once = None;
            return Err(VncError::Text("injected event write failure"));
        }
        self.bytes.borrow_mut().extend_from_slice(bytes);
        Ok(())
    }

    fn flush(&mut self) -> Result<(), VncError> {
        let last = self.trace.borrow().last().copied();
        self.trace.borrow_mut().push("flush");
        if self.fail_flush_after_label_once == last {
            self.fail_flush_after_label_once = None;
            return Err(VncError::Text("injected event flush failure"));
        }
        Ok(())
    }

    fn sync_data(&mut self) -> Result<(), VncError> {
        self.trace.borrow_mut().push("sync");
        Ok(())
    }

    fn into_final_file(self) -> CaptureIntoInnerResult<MemoryFinalFile> {
        CaptureIntoInnerResult::Ready(MemoryFinalFile)
    }
}

struct MemoryFinalFile;

impl CaptureFinalFile for MemoryFinalFile {
    fn sync_data(&mut self) -> Result<(), VncError> {
        Ok(())
    }

    fn relinquish(self) -> Result<(), VncError> {
        Ok(())
    }
}

struct FakeSessionIo {
    trace: Rc<RefCell<Vec<&'static str>>>,
    frames: VecDeque<Vec<u8>>,
    writes: Vec<Vec<u8>>,
    encrypted: bool,
    fail_set_timeout: bool,
    fail_write_at: Option<usize>,
    cancel_after_reads: Option<usize>,
    reads: usize,
}

impl ColdSessionIo for FakeSessionIo {
    fn is_encrypted(&self) -> bool {
        self.encrypted
    }

    fn set_read_timeout(&mut self, _millis: u64) -> Result<(), VncError> {
        self.trace.borrow_mut().push("poll-timeout");
        if self.fail_set_timeout {
            return Err(VncError::Text("injected timeout configuration failure"));
        }
        Ok(())
    }

    fn write_all(&mut self, bytes: &[u8]) -> Result<(), VncError> {
        self.trace.borrow_mut().push(match bytes[0] {
            0x1d => "trigger-1d",
            0x09 => "trigger-09",
            0x03 => "trigger-03",
            _ => "trigger-other",
        });
        self.writes.push(bytes.to_vec());
        if self.fail_write_at == Some(self.writes.len() - 1) {
            return Err(VncError::Text("injected trigger write failure"));
        }
        Ok(())
    }

    fn is_cancelled(&mut self) -> bool {
        self.cancel_after_reads
            .is_some_and(|limit| self.reads >= limit)
    }

    fn read_frame_step(&mut self) -> Result<Option<Vec<u8>>, VncError> {
        self.trace.borrow_mut().push("read");
        self.reads += 1;
        Ok(self.frames.pop_front())
    }
}


struct ScriptedIo {
    frames: VecDeque<Result<Option<Vec<u8>>, VncError>>,
    writes: Vec<Vec<u8>>,
}

impl ColdSessionIo for ScriptedIo {
    fn is_encrypted(&self) -> bool {
        true
    }

    fn set_read_timeout(&mut self, millis: u64) -> Result<(), VncError> {
        assert_eq!(millis, 100);
        Ok(())
    }

    fn write_all(&mut self, bytes: &[u8]) -> Result<(), VncError> {
        self.writes.push(bytes.to_vec());
        Ok(())
    }

    fn read_frame_step(&mut self) -> Result<Option<Vec<u8>>, VncError> {
        self.frames
            .pop_front()
            .unwrap_or(Err(VncError::Text("no more frames")))
    }
}

fn memory_writer(
    bytes: &Rc<RefCell<Vec<u8>>>,
    record_limit: u32,
) -> MvsCaptureV2Writer<MemorySink, ZeroClock> {
    MvsCaptureV2Writer::new(
        MemorySink {
            bytes: Rc::clone(bytes),
            trace: Rc::new(RefCell::new(Vec::new())),
            fail_write_label_once: None,
            fail_flush_after_label_once: None,
        },
        ZeroClock,
        CreatedConfig {
            deadline_ms: 15_000,
            record_limit,
        },
    )
    .unwrap()
}

#[test]
fn a_whole_session_is_captured_and_read_back() {
    let mut tables = vec![2];
    tables.extend(std::iter::repeat_n(1, 128));
    let full = vec![0, 5, 0, 0, 0, 8, 0xd3, 0x68, 0x00, 0x13, 0x68];
    let partial = vec![1, 1, 1, 0x40, 0x01, 0xb5, 0xd9, 0xcc];
    let fragmented = vec![0, 0, 0, 0, 0, 8, 0x83, 0x68, 0x6d];
    let keepalive = vec![0x14, 0, 0, 0, 0, 0, 0, 0];
    let bytes = Rc::new(RefCell::new(Vec::new()));
    let mut writer = memory_writer(&bytes, 4);
    let mut io = ObservedIo::new(ScriptedIo {
        frames: VecDeque::from([
            Ok(Some(keepalive.clone())),
            Ok(None),
            Err(VncError::TimedOut("timed out".to_string())),
            Ok(Some(server_state(640, 480))),
            Ok(Some(mvs_frame_with_rect(tables.len() as u32, &tables, 0, 0))),
            Ok(Some(port_announcement_fixture().to_vec())),
            Ok(Some(mvs_frame_with_rect(full.len() as u32, &full, 8, 8))),
            Ok(Some(mvs_frame_with_rect(partial.len() as u32, &partial, 8, 8))),
            Ok(Some(mvs_frame_with_rect(fragmented.len() as u32, &fragmented[..4], 8, 8))),
            Ok(Some(fragmented[4..].to_vec())),
        ]),
        writes: Vec::new(),
    });

    run_authenticated_cold_session(&mut io, &mut writer, geometry(640, 480)).unwrap();

    let mut expected_config = vec![0u8; 308];
    expected_config[..14].copy_from_slice(&[
        0x1d, 0x00, 0x01, 0x30, 0x00, 0x01, 0x00, 0x01, 0x00, 0x00, 0x00, 0x00, 0x01, 0x28,
    ]);
    expected_config[14..41].copy_from_slice(b"FreeRemoteDesk Cold Capture");
    assert_eq!(io.io.writes[0], expected_config);
    assert_eq!(
        io.io.writes[1],
        [9, 0, 0, 1, 0, 0, 0, 0, 0, 0, 0, 0, 2, 0x80, 1, 0xe0]
    );
    assert_eq!(io.io.writes[2], [3, 0, 0, 0, 0, 0, 2, 0x80, 1, 0xe0]);
    let captured = bytes.borrow().clone();
    let structural = read_mvs_capture_v2_structural(&captured).unwrap();
    assert_eq!(structural.terminal.kind, MvsCaptureV2TerminalKind::Clean);
    let strict = read_mvs_capture_v2_strict_cold(&captured).unwrap();
    assert_eq!(strict.records.len(), 4);
    assert_eq!(strict.records[0].record.payload, tables);
    assert_eq!(strict.records[3].record.payload, fragmented);
    assert_eq!(
        strict
            .records
            .iter()
            .map(|record| (record.first_source_frame_ordinal, record.last_source_frame_ordinal))
            .collect::<Vec<_>>(),
        [(0, 0), (1, 1), (2, 2), (3, 4)]
    );
}

#[test]
fn a_failed_read_ends_the_session_with_a_failure() {
    let bytes = Rc::new(RefCell::new(Vec::new()));
    let mut writer = memory_writer(&bytes, 1);
    let mut io = ObservedIo::new(ScriptedIo {
        frames: VecDeque::new(),
        writes: Vec::new(),
    });
    let error = run_authenticated_cold_session_io(&mut io, &mut writer, geometry(640, 480)).unwrap_err();
    assert_eq!(error.message(), "cold session read");
    let structural = read_mvs_capture_v2_structural(&bytes.borrow()).unwrap();
    assert_eq!(structural.terminal.reason, MvsCaptureV2TerminalReason::ReadFailure);
}

#[test]
fn only_an_encrypted_session_is_taken_for_a_cold_capture() {
    let client = || frd_vnc::handshake::VncClient {
        used_security: 30,
        width: 640,
        height: 480,
        server_pf: frd_vnc::protocol::PixelFormat::ours(),
        name: String::new(),
    };
    assert_eq!(connect_deadline_opts(client(), true).unwrap().width, 640);
    assert_eq!(
        connect_deadline_opts(client(), false).unwrap_err().message(),
        "cold authentication"
    );
}

#[test]
fn frames_of_a_mac_are_told_apart() {
    let frame = mvs_frame_with_rect(5, &[1, 2], 3, 4);
    assert_eq!(
        hpss::parse_media(&frame).unwrap(),
        hpss::Media::Mvs { x: 0, y: 0, w: 3, h: 4, total: 5, body: vec![1, 2] }
    );
    assert!(hpss::parse_media(&frame[..19]).is_err());
    assert_eq!(hpss::mvs_envelope_candidate_rect(&frame[..16]).unwrap().width, 3);
    assert_eq!(hpss::mvs_envelope_candidate_rect(&frame[..15]), None);
    assert_eq!(
        hpss::parse_media(&server_state(8, 9)).unwrap(),
        hpss::Media::State(hpss::encoding::SERVER_STATE)
    );
    let size = hpss::parse_server_state_geometry(&server_state(8, 9)).unwrap();
    assert_eq!((size.width, size.height), (8, 9));
    assert!(hpss::parse_server_state_geometry(&server_state(0, 9)).is_err());
    assert!(hpss::DisplaySize::new(0, 1).is_none());
}
