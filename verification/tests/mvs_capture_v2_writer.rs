use frd_vnc::capture_events::{MVS_CAPTURE_V2_MAX_CUMULATIVE_PAYLOAD, MVS_CAPTURE_V2_MAX_EVENTS};
use frd_vnc::capture_reader::{read_mvs_capture_v2_strict_cold, read_mvs_capture_v2_structural};
use frd_vnc::capture_writer_model::{
    ArmedConfig, CaptureState, CreatedConfig, WriterDecision, DEADLINE_MICROS,
    INCOMPLETE_RECORD_MICROS,
};
use frd_vnc::error::VncError;
use frd_vnc::mvs_capture_v2::MvsCaptureV2Geometry;
use frd_vnc::mvs_capture_v2_writer::{
    CaptureClock, CaptureFinalFile, CaptureIntoInnerResult, CaptureSink, MvsCaptureV2Writer,
};
use frd_vnc::mvs_stream::MvsRect;
use std::cell::RefCell;
use std::collections::VecDeque;
use std::rc::Rc;

#[derive(Default)]
struct ManualClock {
    micros: Rc<RefCell<u64>>,
}

impl CaptureClock for ManualClock {
    fn elapsed_micros(&self) -> Result<u64, VncError> {
        Ok(*self.micros.borrow())
    }
}

impl ManualClock {
    fn handle(&self) -> Rc<RefCell<u64>> {
        Rc::clone(&self.micros)
    }
}

#[derive(Default)]
struct ScriptClock {
    samples: Rc<RefCell<VecDeque<u64>>>,
}

impl CaptureClock for ScriptClock {
    fn elapsed_micros(&self) -> Result<u64, VncError> {
        Ok(self.samples.borrow_mut().pop_front().unwrap_or(0))
    }
}

#[derive(Clone, Copy)]
enum ClockStep {
    Micros(u64),
    Error,
}

#[derive(Default)]
struct FaultClock {
    steps: Rc<RefCell<VecDeque<ClockStep>>>,
}

impl CaptureClock for FaultClock {
    fn elapsed_micros(&self) -> Result<u64, VncError> {
        match self
            .steps
            .borrow_mut()
            .pop_front()
            .unwrap_or(ClockStep::Micros(0))
        {
            ClockStep::Micros(value) => Ok(value),
            ClockStep::Error => Err(VncError::Text("injected clock failure")),
        }
    }
}

#[derive(Clone, Debug, Eq, PartialEq)]
enum SinkEvent {
    Write(Vec<u8>),
    Flush,
    IntoInner,
    Sync,
    Relinquish,
}

#[derive(Default)]
struct RecordingSink {
    events: Rc<RefCell<Vec<SinkEvent>>>,
}

impl CaptureSink for RecordingSink {
    type File = RecordingFinalFile;

    fn write_all(&mut self, bytes: &[u8]) -> Result<(), VncError> {
        self.events
            .borrow_mut()
            .push(SinkEvent::Write(bytes.to_vec()));
        Ok(())
    }

    fn flush(&mut self) -> Result<(), VncError> {
        self.events.borrow_mut().push(SinkEvent::Flush);
        Ok(())
    }

    fn sync_data(&mut self) -> Result<(), VncError> {
        self.events.borrow_mut().push(SinkEvent::Sync);
        Ok(())
    }

    fn into_final_file(self) -> CaptureIntoInnerResult<RecordingFinalFile> {
        self.events.borrow_mut().push(SinkEvent::IntoInner);
        CaptureIntoInnerResult::Ready(RecordingFinalFile {
            events: Rc::clone(&self.events),
            point: None,
        })
    }
}

struct RecordingFinalFile {
    events: Rc<RefCell<Vec<SinkEvent>>>,
    point: Option<FailurePoint>,
}

impl CaptureFinalFile for RecordingFinalFile {
    fn sync_data(&mut self) -> Result<(), VncError> {
        self.events.borrow_mut().push(SinkEvent::Sync);
        if matches!(self.point, Some(FailurePoint::FinalSync)) {
            Err(VncError::Text("final sync failure"))
        } else {
            Ok(())
        }
    }

    fn relinquish(self) -> Result<(), VncError> {
        self.events.borrow_mut().push(SinkEvent::Relinquish);
        if matches!(self.point, Some(FailurePoint::Relinquish)) {
            Err(VncError::Text("relinquish failure"))
        } else {
            Ok(())
        }
    }
}

#[derive(Clone, Copy)]
enum FailurePoint {
    TerminalWrite,
    ArmedWrite,
    TriggeredWrite,
    RecordingWrite,
    RecordOrGapWrite,
    IntoInnerFlush,
    FinalSync,
    Relinquish,
}

struct FailingSink {
    events: Rc<RefCell<Vec<SinkEvent>>>,
    point: FailurePoint,
    writes: usize,
    flushes: usize,
    syncs: usize,
}

impl CaptureSink for FailingSink {
    type File = RecordingFinalFile;

    fn write_all(&mut self, bytes: &[u8]) -> Result<(), VncError> {
        self.writes += 1;
        self.events
            .borrow_mut()
            .push(SinkEvent::Write(bytes.to_vec()));
        let fail = match self.point {
            FailurePoint::TerminalWrite => self.writes == 5,
            FailurePoint::ArmedWrite => self.writes == 2,
            FailurePoint::TriggeredWrite => self.writes == 3,
            FailurePoint::RecordingWrite => self.writes == 4,
            FailurePoint::RecordOrGapWrite => self.writes == 5,
            _ => false,
        };
        if fail {
            Err(VncError::Text("terminal write failure"))
        } else {
            Ok(())
        }
    }

    fn flush(&mut self) -> Result<(), VncError> {
        self.flushes += 1;
        self.events.borrow_mut().push(SinkEvent::Flush);
        Ok(())
    }

    fn sync_data(&mut self) -> Result<(), VncError> {
        self.syncs += 1;
        self.events.borrow_mut().push(SinkEvent::Sync);
        Ok(())
    }

    fn into_final_file(self) -> CaptureIntoInnerResult<RecordingFinalFile> {
        self.events.borrow_mut().push(SinkEvent::IntoInner);
        let file = RecordingFinalFile {
            events: Rc::clone(&self.events),
            point: Some(self.point),
        };
        if matches!(self.point, FailurePoint::IntoInnerFlush) {
            CaptureIntoInnerResult::FlushFailed {
                error: VncError::Text("into_inner flush failure"),
                file,
            }
        } else {
            CaptureIntoInnerResult::Ready(file)
        }
    }
}

fn rect(x: u16, y: u16, width: u16, height: u16) -> MvsRect {
    MvsRect {
        x,
        y,
        width,
        height,
    }
}

fn created_writer() -> (
    MvsCaptureV2Writer<RecordingSink, ManualClock>,
    Rc<RefCell<Vec<SinkEvent>>>,
    Rc<RefCell<u64>>,
) {
    let sink = RecordingSink::default();
    let events = Rc::clone(&sink.events);
    let clock = ManualClock::default();
    let micros = clock.handle();
    let writer = MvsCaptureV2Writer::new(
        sink,
        clock,
        CreatedConfig {
            deadline_ms: 5_000,
            record_limit: 3,
        },
    )
    .unwrap();
    (writer, events, micros)
}

fn fault_clock_writer() -> (
    MvsCaptureV2Writer<RecordingSink, FaultClock>,
    Rc<RefCell<Vec<SinkEvent>>>,
    Rc<RefCell<VecDeque<ClockStep>>>,
) {
    let sink = RecordingSink::default();
    let events = Rc::clone(&sink.events);
    let clock = FaultClock::default();
    let steps = Rc::clone(&clock.steps);
    let writer = MvsCaptureV2Writer::new(
        sink,
        clock,
        CreatedConfig {
            deadline_ms: 5_000,
            record_limit: 3,
        },
    )
    .unwrap();
    (writer, events, steps)
}

fn failing_writer(point: FailurePoint) -> (MvsCaptureV2Writer<FailingSink, ManualClock>, Rc<RefCell<Vec<SinkEvent>>>) {
    let events = Rc::new(RefCell::new(Vec::new()));
    let sink = FailingSink {
        events: Rc::clone(&events),
        point,
        writes: 0,
        flushes: 0,
        syncs: 0,
    };
    let writer = MvsCaptureV2Writer::new(
        sink,
        ManualClock::default(),
        CreatedConfig {
            deadline_ms: 5_000,
            record_limit: 3,
        },
    )
    .unwrap();
    (writer, events)
}

fn arm_config() -> ArmedConfig {
    ArmedConfig {
        committed: MvsCaptureV2Geometry {
            width: 640,
            height: 480,
        },
        requested: MvsCaptureV2Geometry {
            width: 800,
            height: 600,
        },
    }
}

fn armed_writer() -> (
    MvsCaptureV2Writer<RecordingSink, ManualClock>,
    Rc<RefCell<Vec<SinkEvent>>>,
    Rc<RefCell<u64>>,
) {
    let (mut writer, events, clock) = created_writer();
    assert_eq!(writer.arm(arm_config()).unwrap(), WriterDecision::Continue);
    (writer, events, clock)
}

fn recording_writer() -> (
    MvsCaptureV2Writer<RecordingSink, ManualClock>,
    Rc<RefCell<Vec<SinkEvent>>>,
    Rc<RefCell<u64>>,
) {
    let (mut writer, events, clock) = armed_writer();
    assert_eq!(writer.begin_trigger().unwrap(), WriterDecision::Continue);
    for bit in [1, 2, 4] {
        assert_eq!(
            writer.trigger_write_succeeded(bit).unwrap(),
            WriterDecision::Continue
        );
    }
    assert_eq!(
        writer.write_recording_gate().unwrap(),
        WriterDecision::Continue
    );
    (writer, events, clock)
}

fn drive_to_recording<S: CaptureSink, C: CaptureClock>(writer: &mut MvsCaptureV2Writer<S, C>) {
    drive_to_trigger_mask(writer);
    writer.write_recording_gate().unwrap();
}

fn drive_to_trigger_mask<S: CaptureSink, C: CaptureClock>(writer: &mut MvsCaptureV2Writer<S, C>) {
    writer.arm(arm_config()).unwrap();
    writer.begin_trigger().unwrap();
    for bit in [1, 2, 4] {
        writer.trigger_write_succeeded(bit).unwrap();
    }
}

fn capture_bytes(events: &[SinkEvent]) -> Vec<u8> {
    let mut bytes = Vec::new();
    for event in events {
        if let SinkEvent::Write(part) = event {
            bytes.extend_from_slice(part);
        }
    }
    bytes
}

#[test]
fn construction_writes_created_and_flushes_before_returning() {
    let sink = RecordingSink::default();
    let events = Rc::clone(&sink.events);
    let writer = MvsCaptureV2Writer::new(
        sink,
        ManualClock::default(),
        CreatedConfig {
            deadline_ms: 5_000,
            record_limit: 1,
        },
    )
    .unwrap();

    assert_eq!(writer.state(), CaptureState::Created);
    let events = events.borrow();
    assert_eq!(events.len(), 2);
    let SinkEvent::Write(bytes) = &events[0] else {
        panic!("first sink operation must write Header + Created")
    };
    assert_eq!(&bytes[..8], b"FRDMVS02");
    assert_eq!(bytes.len(), 80);
    assert_eq!(events[1], SinkEvent::Flush);
}

#[test]
fn arm_is_flushed_and_synced_before_triggering_is_available() {
    let (mut writer, events, _) = created_writer();
    assert_eq!(writer.arm(arm_config()).unwrap(), WriterDecision::Continue);
    assert_eq!(writer.state(), CaptureState::Armed);
    let events = events.borrow();
    assert!(matches!(events[2], SinkEvent::Write(_)));
    assert_eq!(events[3], SinkEvent::Flush);
    assert_eq!(events[4], SinkEvent::Sync);
    drop(events);
    assert_eq!(writer.begin_trigger().unwrap(), WriterDecision::Continue);
    assert_eq!(writer.state(), CaptureState::Triggering);
}

#[test]
fn deadline_after_first_trigger_attempt_is_reason_260_not_267() {
    let (mut writer, _, clock) = armed_writer();
    writer.begin_trigger().unwrap();
    *clock.borrow_mut() = DEADLINE_MICROS;
    assert_eq!(
        writer.trigger_write_succeeded(1).unwrap(),
        WriterDecision::Finalized(CaptureState::Aborted)
    );
    assert_eq!(writer.selected_abort_reason(), Some(260));
}

#[test]
fn armed_post_sync_deadline_is_pre_trigger_reason_267() {
    let sink = RecordingSink::default();
    let events = Rc::clone(&sink.events);
    let clock = ScriptClock::default();
    clock.samples.borrow_mut().extend([0, DEADLINE_MICROS]);
    let mut writer = MvsCaptureV2Writer::new(
        sink,
        clock,
        CreatedConfig {
            deadline_ms: 5_000,
            record_limit: 3,
        },
    )
    .unwrap();
    writer.arm(arm_config()).unwrap();
    assert_eq!(writer.selected_abort_reason(), Some(267));
    let events = events.borrow();
    assert!(matches!(events[2], SinkEvent::Write(_)));
    assert_eq!(events[3], SinkEvent::Flush);
    assert_eq!(events[4], SinkEvent::Sync);
}

#[test]
fn armed_uses_the_single_immediate_prewrite_sample_as_its_timestamp() {
    let sink = RecordingSink::default();
    let events = Rc::clone(&sink.events);
    let clock = ScriptClock::default();
    clock.samples.borrow_mut().extend([
        DEADLINE_MICROS - 2,
        DEADLINE_MICROS - 1,
        DEADLINE_MICROS,
        DEADLINE_MICROS,
    ]);
    let mut writer = MvsCaptureV2Writer::new(
        sink,
        clock,
        CreatedConfig {
            deadline_ms: 5_000,
            record_limit: 3,
        },
    )
    .unwrap();
    writer.pre_trigger_checkpoint().unwrap();
    writer.arm(arm_config()).unwrap();
    let events = events.borrow();
    let armed = events
        .iter()
        .find_map(|event| match event {
            SinkEvent::Write(bytes) if bytes[4..6] == [0, 2] => Some(bytes),
            _ => None,
        })
        .unwrap();
    assert_eq!(
        u64::from_be_bytes(armed[24..32].try_into().unwrap()),
        DEADLINE_MICROS - 1
    );
}

#[test]
fn armed_immediate_sample_equal_to_deadline_writes_no_armed_and_selects_267() {
    let sink = RecordingSink::default();
    let events = Rc::clone(&sink.events);
    let clock = ScriptClock::default();
    clock
        .samples
        .borrow_mut()
        .extend([DEADLINE_MICROS - 1, DEADLINE_MICROS]);
    let mut writer = MvsCaptureV2Writer::new(
        sink,
        clock,
        CreatedConfig {
            deadline_ms: 5_000,
            record_limit: 3,
        },
    )
    .unwrap();
    writer.pre_trigger_checkpoint().unwrap();
    writer.arm(arm_config()).unwrap();
    assert_eq!(writer.selected_abort_reason(), Some(267));
    assert!(!events
        .borrow()
        .iter()
        .any(|event| matches!(event, SinkEvent::Write(bytes) if bytes[4..6] == [0, 2])));
}

#[test]
fn clock_regression_after_armed_write_consumes_the_sink() {
    let sink = RecordingSink::default();
    let events = Rc::clone(&sink.events);
    let clock = ScriptClock::default();
    clock.samples.borrow_mut().extend([10, 9]);
    let mut writer = MvsCaptureV2Writer::new(
        sink,
        clock,
        CreatedConfig {
            deadline_ms: 5_000,
            record_limit: 3,
        },
    )
    .unwrap();
    assert!(writer.arm(arm_config()).is_err());
    assert_eq!(writer.state(), CaptureState::Finalizing);
    assert_cleanup_tail(&events.borrow());
}

#[test]
fn post_triggered_deadline_keeps_triggered_but_never_writes_recording() {
    let sink = RecordingSink::default();
    let events = Rc::clone(&sink.events);
    let clock = ScriptClock::default();
    let samples = Rc::clone(&clock.samples);
    let mut writer = MvsCaptureV2Writer::new(
        sink,
        clock,
        CreatedConfig {
            deadline_ms: 5_000,
            record_limit: 3,
        },
    )
    .unwrap();
    drive_to_trigger_mask(&mut writer);
    samples
        .borrow_mut()
        .extend([DEADLINE_MICROS - 1, DEADLINE_MICROS]);
    writer.write_recording_gate().unwrap();
    assert_eq!(writer.selected_abort_reason(), Some(260));
    let events = events.borrow();
    assert!(events
        .iter()
        .any(|event| { matches!(event, SinkEvent::Write(bytes) if bytes[4..6] == [0, 3]) }));
    assert!(!events
        .iter()
        .any(|event| { matches!(event, SinkEvent::Write(bytes) if bytes[4..6] == [0, 4]) }));
}

#[test]
fn triggered_uses_the_single_immediate_prewrite_sample_as_its_timestamp() {
    let sink = RecordingSink::default();
    let events = Rc::clone(&sink.events);
    let clock = ScriptClock::default();
    let samples = Rc::clone(&clock.samples);
    let mut writer = MvsCaptureV2Writer::new(
        sink,
        clock,
        CreatedConfig {
            deadline_ms: 5_000,
            record_limit: 3,
        },
    )
    .unwrap();
    drive_to_trigger_mask(&mut writer);
    samples
        .borrow_mut()
        .extend([DEADLINE_MICROS - 1, DEADLINE_MICROS, DEADLINE_MICROS]);
    writer.write_recording_gate().unwrap();
    let events = events.borrow();
    let triggered = events
        .iter()
        .find_map(|event| match event {
            SinkEvent::Write(bytes) if bytes[4..6] == [0, 3] => Some(bytes),
            _ => None,
        })
        .unwrap();
    assert_eq!(
        u64::from_be_bytes(triggered[24..32].try_into().unwrap()),
        DEADLINE_MICROS - 1
    );
    assert_eq!(writer.selected_abort_reason(), Some(260));
}

#[test]
fn triggered_immediate_sample_equal_to_deadline_writes_no_triggered_and_selects_260() {
    let sink = RecordingSink::default();
    let events = Rc::clone(&sink.events);
    let clock = ScriptClock::default();
    let samples = Rc::clone(&clock.samples);
    let mut writer = MvsCaptureV2Writer::new(
        sink,
        clock,
        CreatedConfig {
            deadline_ms: 5_000,
            record_limit: 3,
        },
    )
    .unwrap();
    drive_to_trigger_mask(&mut writer);
    samples.borrow_mut().push_back(DEADLINE_MICROS);
    writer.write_recording_gate().unwrap();
    assert_eq!(writer.selected_abort_reason(), Some(260));
    assert!(!events
        .borrow()
        .iter()
        .any(|event| matches!(event, SinkEvent::Write(bytes) if bytes[4..6] == [0, 3])));
}

#[test]
fn recording_event_does_not_publish_state_before_post_flush_sample() {
    let sink = RecordingSink::default();
    let events = Rc::clone(&sink.events);
    let clock = ScriptClock::default();
    let samples = Rc::clone(&clock.samples);
    let mut writer = MvsCaptureV2Writer::new(
        sink,
        clock,
        CreatedConfig {
            deadline_ms: 5_000,
            record_limit: 3,
        },
    )
    .unwrap();
    writer.arm(arm_config()).unwrap();
    writer.begin_trigger().unwrap();
    for bit in [1, 2, 4] {
        writer.trigger_write_succeeded(bit).unwrap();
    }
    samples.borrow_mut().extend([
        DEADLINE_MICROS - 1,
        DEADLINE_MICROS - 1,
        DEADLINE_MICROS - 1,
        DEADLINE_MICROS,
    ]);
    writer.write_recording_gate().unwrap();
    assert_ne!(writer.state(), CaptureState::Recording);
    assert_eq!(writer.selected_abort_reason(), Some(260));
    let events = events.borrow();
    let recording_write = events.iter().rposition(|event| {
        matches!(event, SinkEvent::Write(bytes) if bytes.len() == 40 && bytes[4..6] == [0, 4])
    });
    assert!(recording_write.is_some());
    assert!(matches!(
        events[recording_write.unwrap() + 1],
        SinkEvent::Flush
    ));
}

#[test]
fn trigger_mask_must_be_reported_in_wire_order() {
    let (mut writer, events, _) = armed_writer();
    writer.begin_trigger().unwrap();
    let before = events.borrow().len();
    assert!(writer.trigger_write_succeeded(2).is_err());
    assert_eq!(writer.state(), CaptureState::Triggering);
    assert_eq!(events.borrow().len(), before);
}

#[test]
fn only_mvs_inputs_consume_source_ordinals_and_records_are_exact() {
    let (mut writer, events, clock) = recording_writer();
    writer.accept_non_mvs().unwrap();
    writer
        .accept_mvs_begin(rect(1, 2, 3, 4), 3, &[0, 10, 11])
        .unwrap();
    writer.accept_non_mvs().unwrap();
    writer
        .accept_mvs_begin(rect(5, 6, 7, 8), 4, &[1, 20])
        .unwrap();
    writer.accept_mvs_continuation(&[21, 22]).unwrap();
    *clock.borrow_mut() = DEADLINE_MICROS;
    writer.poll_recording().unwrap();

    let bytes = capture_bytes(&events.borrow());
    let parsed = read_mvs_capture_v2_structural(&bytes).unwrap();
    assert_eq!(parsed.records.len(), 2);
    assert_eq!(
        (
            parsed.records[0].first_source_frame_ordinal,
            parsed.records[0].last_source_frame_ordinal,
            parsed.records[0].record.payload.as_slice()
        ),
        (0, 0, &[0, 10, 11][..])
    );
    assert_eq!(
        (
            parsed.records[1].first_source_frame_ordinal,
            parsed.records[1].last_source_frame_ordinal,
            parsed.records[1].record.payload.as_slice()
        ),
        (1, 2, &[1, 20, 21, 22][..])
    );
}

#[test]
fn all_three_payload_tags_are_counted_from_complete_records() {
    let (mut writer, events, _) = recording_writer();
    writer.accept_mvs_begin(rect(1, 2, 3, 4), 1, &[0]).unwrap();
    writer.accept_mvs_begin(rect(5, 6, 7, 8), 1, &[1]).unwrap();
    writer.accept_mvs_begin(rect(0, 0, 0, 0), 1, &[2]).unwrap();
    let bytes = capture_bytes(&events.borrow());
    let parsed = read_mvs_capture_v2_structural(&bytes).unwrap();
    assert_eq!(
        (
            parsed.terminal.type0_count,
            parsed.terminal.type1_count,
            parsed.terminal.type2_count,
            parsed.terminal.record_count
        ),
        (1, 1, 1, 3)
    );
}

#[test]
fn all_gap_reasons_preserve_exact_provenance() {
    let zero = rect(0, 0, 0, 0);

    let (mut w1, _, _) = recording_writer();
    w1.reject_mvs_envelope(Some(rect(1, 2, 3, 4))).unwrap();
    assert_eq!(w1.last_gap().unwrap().reason, 1);

    let (mut w2, _, _) = recording_writer();
    w2.accept_mvs_begin(rect(1, 2, 3, 4), 0, &[]).unwrap();
    assert_eq!(
        (
            w2.last_gap().unwrap().reason,
            w2.last_gap().unwrap().declared_total
        ),
        (2, 0)
    );

    let (mut w3, _, _) = recording_writer();
    w3.accept_mvs_begin(rect(1, 2, 3, 4), 1, &[0, 1]).unwrap();
    assert_eq!(w3.last_gap().unwrap().reason, 3);

    let (mut w4, _, _) = recording_writer();
    w4.accept_mvs_begin(rect(1, 2, 3, 4), 4, &[0, 1]).unwrap();
    w4.accept_mvs_continuation(&[2, 3, 4]).unwrap();
    assert_eq!(
        (
            w4.last_gap().unwrap().reason,
            w4.last_gap().unwrap().accumulated_bytes
        ),
        (4, 2)
    );

    let (mut w5, _, c5) = recording_writer();
    w5.accept_mvs_begin(rect(1, 2, 3, 4), 4, &[0]).unwrap();
    *c5.borrow_mut() = INCOMPLETE_RECORD_MICROS;
    w5.poll_recording().unwrap();
    assert_eq!(w5.last_gap().unwrap().reason, 5);

    let (mut w6, _, c6) = recording_writer();
    w6.accept_mvs_begin(rect(1, 2, 3, 4), 4, &[0]).unwrap();
    *c6.borrow_mut() = DEADLINE_MICROS;
    w6.poll_recording().unwrap();
    assert_eq!(w6.last_gap().unwrap().reason, 6);

    let (mut w7, _, _) = recording_writer();
    w7.accept_mvs_begin(rect(1, 2, 3, 4), 4, &[0]).unwrap();
    w7.read_failed().unwrap();
    assert_eq!(w7.last_gap().unwrap().reason, 7);

    let (mut w8, _, _) = recording_writer();
    w8.accept_mvs_begin(rect(1, 2, 3, 4), 4, &[0]).unwrap();
    w8.generation_transition_attempted().unwrap();
    assert_eq!(w8.last_gap().unwrap().reason, 8);

    let (mut w9, _, _) = recording_writer();
    w9.accept_mvs_continuation(&[0]).unwrap();
    assert_eq!(
        (w9.last_gap().unwrap().reason, w9.last_gap().unwrap().rect),
        (9, zero)
    );

    let (mut w10, _, _) = recording_writer();
    w10.accept_mvs_begin(rect(1, 2, 3, 4), 4, &[0]).unwrap();
    w10.accept_mvs_begin(rect(9, 9, 1, 1), 2, &[0]).unwrap();
    assert_eq!(
        (
            w10.last_gap().unwrap().reason,
            w10.last_gap().unwrap().first_source_frame_ordinal,
            w10.last_gap().unwrap().last_source_frame_ordinal
        ),
        (10, 0, 1)
    );

    let (mut w11, _, _) = recording_writer();
    w11.cumulative_payload = MVS_CAPTURE_V2_MAX_CUMULATIVE_PAYLOAD - 3;
    w11.accept_mvs_begin(rect(1, 2, 3, 4), 4, &[0]).unwrap();
    assert_eq!(
        (
            w11.last_gap().unwrap().reason,
            w11.last_gap().unwrap().accumulated_bytes
        ),
        (11, 0)
    );

    let (mut w12, _, _) = recording_writer();
    w12.accept_mvs_begin(rect(1, 2, 3, 4), 4, &[0]).unwrap();
    w12.cancel().unwrap();
    assert_eq!(
        (w12.last_gap().unwrap().reason, w12.selected_abort_reason()),
        (12, Some(265))
    );
}

#[test]
fn gap_table_freezes_all_fields_and_terminal_mappings() {
    let mut observed = Vec::new();
    let pending_rect = rect(1, 2, 3, 4);

    let (mut writer, _, _) = recording_writer();
    writer.reject_mvs_envelope(Some(pending_rect)).unwrap();
    observed.push((
        writer.last_gap().unwrap().clone(),
        writer.selected_abort_reason().unwrap(),
    ));

    for (total, first) in [(0, vec![]), (1, vec![0, 1])] {
        let (mut writer, _, _) = recording_writer();
        writer
            .accept_mvs_begin(pending_rect, total, &first)
            .unwrap();
        observed.push((
            writer.last_gap().unwrap().clone(),
            writer.selected_abort_reason().unwrap(),
        ));
    }

    let (mut writer, _, _) = recording_writer();
    writer.accept_mvs_begin(pending_rect, 4, &[0, 1]).unwrap();
    writer.accept_mvs_continuation(&[2, 3, 4]).unwrap();
    observed.push((
        writer.last_gap().unwrap().clone(),
        writer.selected_abort_reason().unwrap(),
    ));

    for reason in [5u16, 6, 7, 8] {
        let (mut writer, _, clock) = recording_writer();
        writer.accept_mvs_begin(pending_rect, 4, &[0]).unwrap();
        match reason {
            5 => {
                *clock.borrow_mut() = INCOMPLETE_RECORD_MICROS;
                writer.poll_recording().unwrap();
            }
            6 => {
                *clock.borrow_mut() = DEADLINE_MICROS;
                writer.poll_recording().unwrap();
            }
            7 => {
                writer.read_failed().unwrap();
            }
            8 => {
                writer.generation_transition_attempted().unwrap();
            }
            _ => unreachable!(),
        }
        observed.push((
            writer.last_gap().unwrap().clone(),
            writer.selected_abort_reason().unwrap(),
        ));
    }

    let (mut writer, _, _) = recording_writer();
    writer.accept_mvs_continuation(&[0]).unwrap();
    observed.push((
        writer.last_gap().unwrap().clone(),
        writer.selected_abort_reason().unwrap(),
    ));

    let (mut writer, _, _) = recording_writer();
    writer.accept_mvs_begin(pending_rect, 4, &[0]).unwrap();
    writer.accept_mvs_begin(rect(9, 9, 1, 1), 2, &[0]).unwrap();
    observed.push((
        writer.last_gap().unwrap().clone(),
        writer.selected_abort_reason().unwrap(),
    ));

    let (mut writer, _, _) = recording_writer();
    writer.cumulative_payload = MVS_CAPTURE_V2_MAX_CUMULATIVE_PAYLOAD - 3;
    writer.accept_mvs_begin(pending_rect, 4, &[0]).unwrap();
    observed.push((
        writer.last_gap().unwrap().clone(),
        writer.selected_abort_reason().unwrap(),
    ));

    let (mut writer, _, _) = recording_writer();
    writer.accept_mvs_begin(pending_rect, 4, &[0]).unwrap();
    writer.cancel().unwrap();
    observed.push((
        writer.last_gap().unwrap().clone(),
        writer.selected_abort_reason().unwrap(),
    ));

    let expected = [
        (1, 1, 0, 0, 0, 0, pending_rect, 262),
        (2, 1, 0, 0, 0, 0, pending_rect, 262),
        (3, 1, 0, 0, 1, 0, pending_rect, 262),
        (4, 2, 0, 1, 4, 2, pending_rect, 262),
        (5, 3, 0, 0, 4, 1, pending_rect, 262),
        (6, 4, 0, 0, 4, 1, pending_rect, 263),
        (7, 5, 0, 0, 4, 1, pending_rect, 261),
        (8, 6, 0, 0, 4, 1, pending_rect, 266),
        (9, 2, 0, 0, 0, 0, rect(0, 0, 0, 0), 262),
        (10, 1, 0, 1, 4, 1, pending_rect, 262),
        (11, 8, 0, 0, 4, 0, pending_rect, 262),
        (12, 7, 0, 0, 4, 1, pending_rect, 265),
    ];
    for ((gap, terminal), want) in observed.iter().zip(expected) {
        assert_eq!(
            (
                gap.reason,
                gap.stage,
                gap.first_source_frame_ordinal,
                gap.last_source_frame_ordinal,
                gap.declared_total,
                gap.accumulated_bytes,
                gap.rect,
                *terminal
            ),
            want
        );
    }
}

#[test]
fn fifty_millisecond_continuations_do_not_refresh_pending_age() {
    let (mut writer, _, clock) = recording_writer();
    writer.accept_mvs_begin(rect(1, 2, 3, 4), 42, &[0]).unwrap();
    for step in 1..40 {
        *clock.borrow_mut() = step * 50_000;
        assert_eq!(
            writer.accept_mvs_continuation(&[1]).unwrap(),
            WriterDecision::Continue
        );
    }
    *clock.borrow_mut() = INCOMPLETE_RECORD_MICROS;
    writer.poll_recording().unwrap();
    assert_eq!(writer.last_gap().unwrap().reason, 5);
    assert_eq!(writer.last_gap().unwrap().accumulated_bytes, 40);
}

#[test]
fn cancellation_uses_gap_only_when_pending() {
    let (mut pending, _, _) = recording_writer();
    pending
        .accept_mvs_begin(rect(1, 2, 3, 4), 8, &[0, 1])
        .unwrap();
    pending.cancel().unwrap();
    let gap = pending.last_gap().unwrap();
    assert_eq!(
        (
            gap.reason,
            gap.stage,
            gap.declared_total,
            gap.accumulated_bytes
        ),
        (12, 7, 8, 2)
    );
    assert_eq!(pending.selected_abort_reason(), Some(265));

    let (mut idle, _, _) = recording_writer();
    idle.cancel().unwrap();
    assert_eq!(idle.gap_count(), 0);
    assert_eq!(idle.selected_abort_reason(), Some(265));
}

#[test]
fn post_frame_deadline_precedes_record_limit_after_complete_record_write() {
    let (mut writer, events, clock) = recording_writer();
    writer.config.record_limit = 1;
    *clock.borrow_mut() = DEADLINE_MICROS;
    writer.accept_mvs_begin(rect(1, 2, 3, 4), 1, &[0]).unwrap();
    assert_eq!(writer.state(), CaptureState::Clean);
    assert_eq!(writer.selected_terminal_reason(), Some(1));
    let bytes = capture_bytes(&events.borrow());
    let parsed = read_mvs_capture_v2_structural(&bytes).unwrap();
    assert_eq!(parsed.records.len(), 1);
}

#[test]
fn record_limit_wins_only_strictly_before_deadline() {
    let (mut writer, _, clock) = recording_writer();
    writer.config.record_limit = 1;
    *clock.borrow_mut() = DEADLINE_MICROS - 1;
    writer.accept_mvs_begin(rect(1, 2, 3, 4), 1, &[0]).unwrap();
    assert_eq!(writer.selected_terminal_reason(), Some(2));
}

#[test]
fn clean_two_reuses_the_post_frame_selection_timestamp() {
    let sink = RecordingSink::default();
    let events = Rc::clone(&sink.events);
    let clock = ScriptClock::default();
    let samples = Rc::clone(&clock.samples);
    let mut writer = MvsCaptureV2Writer::new(
        sink,
        clock,
        CreatedConfig {
            deadline_ms: 5_000,
            record_limit: 1,
        },
    )
    .unwrap();
    drive_to_recording(&mut writer);
    samples
        .borrow_mut()
        .extend([0, 0, DEADLINE_MICROS - 1, DEADLINE_MICROS]);
    writer.accept_mvs_begin(rect(1, 2, 3, 4), 1, &[0]).unwrap();
    let bytes = capture_bytes(&events.borrow());
    let parsed = read_mvs_capture_v2_strict_cold(&bytes).unwrap();
    assert_eq!(parsed.terminal.timestamp_us, DEADLINE_MICROS - 1);
    assert_eq!(
        parsed.terminal.reason,
        frd_vnc::mvs_capture_v2::MvsCaptureV2TerminalReason::RecordLimit
    );
}

#[test]
fn read_generation_and_cancellation_keep_their_priority_contracts() {
    let (mut read, _, clock) = recording_writer();
    read.accept_mvs_begin(rect(1, 2, 3, 4), 4, &[0]).unwrap();
    *clock.borrow_mut() = DEADLINE_MICROS;
    read.read_failed().unwrap();
    assert_eq!(
        (
            read.last_gap().unwrap().reason,
            read.selected_abort_reason()
        ),
        (6, Some(263))
    );

    let (mut generation, _, clock) = recording_writer();
    generation
        .accept_mvs_begin(rect(1, 2, 3, 4), 4, &[0])
        .unwrap();
    *clock.borrow_mut() = DEADLINE_MICROS;
    generation.generation_transition_attempted().unwrap();
    assert_eq!(
        (
            generation.last_gap().unwrap().reason,
            generation.selected_abort_reason()
        ),
        (8, Some(266))
    );

    let (mut cancellation, _, clock) = recording_writer();
    cancellation
        .accept_mvs_begin(rect(1, 2, 3, 4), 4, &[0])
        .unwrap();
    *clock.borrow_mut() = DEADLINE_MICROS;
    cancellation.cancel().unwrap();
    assert_eq!(
        (
            cancellation.last_gap().unwrap().reason,
            cancellation.selected_abort_reason()
        ),
        (12, Some(265))
    );
}

#[test]
fn complete_record_is_written_before_payload_classification() {
    let (mut writer, events, _) = recording_writer();
    assert!(writer.accept_mvs_begin(rect(1, 2, 3, 4), 1, &[9]).is_err());
    let events = events.borrow();
    assert!(events.iter().any(|event| {
        matches!(event, SinkEvent::Write(bytes) if bytes.len() == 61 && bytes[4..6] == [0, 0x20] && bytes[60] == 9)
    }));
}

#[test]
fn invalid_record_geometry_is_detected_after_the_complete_record_write() {
    let (mut writer, events, _) = recording_writer();
    assert!(writer
        .accept_mvs_begin(rect(639, 479, 2, 2), 1, &[0])
        .is_err());
    assert!(events.borrow().iter().any(|event| {
        matches!(event, SinkEvent::Write(bytes) if bytes.len() == 61 && bytes[4..6] == [0, 0x20])
    }));
}

#[test]
fn offending_continuation_emits_gap_without_a_partial_record() {
    let (mut writer, events, _) = recording_writer();
    writer
        .accept_mvs_begin(rect(1, 2, 3, 4), 4, &[0, 1])
        .unwrap();
    writer.accept_mvs_continuation(&[2, 3, 4]).unwrap();
    let bytes = capture_bytes(&events.borrow());
    let parsed = read_mvs_capture_v2_structural(&bytes).unwrap();
    assert!(parsed.records.is_empty());
    assert_eq!(parsed.gaps[0].reason, 4);
}

#[test]
fn event_reservation_keeps_gap_and_terminal_transactional() {
    let (mut writer, events, _) = recording_writer();
    writer.event_count = MVS_CAPTURE_V2_MAX_EVENTS - 1;
    writer.accept_mvs_begin(rect(1, 2, 3, 4), 4, &[0]).unwrap();
    let before = events.borrow().len();
    assert!(writer.cancel().is_err());
    assert_eq!(events.borrow().len(), before + 3);
    assert_eq!(writer.state(), CaptureState::Finalizing);
    assert_cleanup_tail(&events.borrow());
    assert_eq!(writer.gap_count(), 0);
}

fn assert_cleanup_tail(events: &[SinkEvent]) {
    let tail = &events[events.len() - 3..];
    assert_eq!(tail[0], SinkEvent::IntoInner);
    assert_eq!(tail[1], SinkEvent::Sync);
    assert_eq!(tail[2], SinkEvent::Relinquish);
}

fn assert_cleanup_exactly_once(events: &[SinkEvent]) {
    assert_cleanup_tail(events);
    assert_eq!(
        events
            .iter()
            .filter(|event| matches!(event, SinkEvent::IntoInner))
            .count(),
        1
    );
    assert_eq!(
        events
            .iter()
            .filter(|event| matches!(event, SinkEvent::Relinquish))
            .count(),
        1
    );
}

fn assert_future_input_rejected<S: CaptureSink, C: CaptureClock>(
    writer: &mut MvsCaptureV2Writer<S, C>,
    events: &Rc<RefCell<Vec<SinkEvent>>>,
) {
    let before = events.borrow().len();
    assert!(writer.accept_non_mvs().is_err());
    assert_eq!(events.borrow().len(), before);
}

#[test]
fn clock_failures_after_each_irreversible_lifecycle_boundary_consume_the_sink() {
    let (mut armed, events, steps) = fault_clock_writer();
    steps
        .borrow_mut()
        .extend([ClockStep::Micros(0), ClockStep::Error]);
    assert!(armed.arm(arm_config()).is_err());
    assert_eq!(armed.state(), CaptureState::Finalizing);
    assert_cleanup_tail(&events.borrow());
    assert_future_input_rejected(&mut armed, &events);

    let (mut trigger, events, steps) = fault_clock_writer();
    trigger.arm(arm_config()).unwrap();
    trigger.begin_trigger().unwrap();
    steps.borrow_mut().push_back(ClockStep::Error);
    assert!(trigger.trigger_write_succeeded(1).is_err());
    assert_eq!(trigger.state(), CaptureState::Finalizing);
    assert_cleanup_tail(&events.borrow());
    assert_future_input_rejected(&mut trigger, &events);

    let (mut triggered, events, steps) = fault_clock_writer();
    drive_to_trigger_mask(&mut triggered);
    steps
        .borrow_mut()
        .extend([ClockStep::Micros(0), ClockStep::Error]);
    assert!(triggered.write_recording_gate().is_err());
    assert_eq!(triggered.state(), CaptureState::Finalizing);
    assert_cleanup_tail(&events.borrow());
    assert_future_input_rejected(&mut triggered, &events);

    let (mut recording, events, steps) = fault_clock_writer();
    drive_to_trigger_mask(&mut recording);
    steps.borrow_mut().extend([
        ClockStep::Micros(0),
        ClockStep::Micros(0),
        ClockStep::Micros(0),
        ClockStep::Error,
    ]);
    assert!(recording.write_recording_gate().is_err());
    assert_eq!(recording.state(), CaptureState::Finalizing);
    assert_cleanup_tail(&events.borrow());
    assert_future_input_rejected(&mut recording, &events);
}

#[test]
fn created_clock_error_and_regression_consume_once_and_prohibit_retry() {
    let (mut checkpoint, events, steps) = fault_clock_writer();
    steps.borrow_mut().push_back(ClockStep::Error);
    assert!(checkpoint.pre_trigger_checkpoint().is_err());
    assert_eq!(checkpoint.state(), CaptureState::Finalizing);
    assert_eq!(checkpoint.selected_abort_reason(), Some(264));
    assert_cleanup_exactly_once(&events.borrow());
    assert_future_input_rejected(&mut checkpoint, &events);

    let (mut regression, events, steps) = fault_clock_writer();
    steps
        .borrow_mut()
        .extend([ClockStep::Micros(10), ClockStep::Micros(9)]);
    assert_eq!(
        regression.pre_trigger_checkpoint().unwrap(),
        WriterDecision::Continue
    );
    assert!(regression.pre_trigger_checkpoint().is_err());
    assert_eq!(regression.state(), CaptureState::Finalizing);
    assert_eq!(regression.selected_abort_reason(), Some(264));
    assert_cleanup_exactly_once(&events.borrow());
    assert_future_input_rejected(&mut regression, &events);

    let (mut arm, events, steps) = fault_clock_writer();
    steps.borrow_mut().push_back(ClockStep::Error);
    assert!(arm.arm(arm_config()).is_err());
    assert_eq!(arm.state(), CaptureState::Finalizing);
    assert_eq!(arm.selected_abort_reason(), Some(264));
    assert_eq!(
        events
            .borrow()
            .iter()
            .filter(|event| matches!(event, SinkEvent::Write(_)))
            .count(),
        1
    );
    assert_cleanup_exactly_once(&events.borrow());
    assert_future_input_rejected(&mut arm, &events);

    let (mut arm_regression, events, steps) = fault_clock_writer();
    steps
        .borrow_mut()
        .extend([ClockStep::Micros(10), ClockStep::Micros(9)]);
    arm_regression.pre_trigger_checkpoint().unwrap();
    assert!(arm_regression.arm(arm_config()).is_err());
    assert_eq!(arm_regression.state(), CaptureState::Finalizing);
    assert_eq!(arm_regression.selected_abort_reason(), Some(264));
    assert_eq!(
        events
            .borrow()
            .iter()
            .filter(|event| matches!(event, SinkEvent::Write(_)))
            .count(),
        1
    );
    assert_cleanup_exactly_once(&events.borrow());
    assert_future_input_rejected(&mut arm_regression, &events);
}

#[test]
fn connect_and_auth_failures_sample_once_and_classify_deadline_equality_as_267() {
    type FailureOperation = fn(&mut MvsCaptureV2Writer<RecordingSink, ScriptClock>) -> Result<WriterDecision, VncError>;
    for (operation, ordinary_reason) in [
        (MvsCaptureV2Writer::connect_failed as FailureOperation, 257),
        (
            MvsCaptureV2Writer::authentication_failed as FailureOperation,
            258,
        ),
    ] {
        for (sample, expected_reason) in [
            (DEADLINE_MICROS - 1, ordinary_reason),
            (DEADLINE_MICROS, 267),
        ] {
            let sink = RecordingSink::default();
            let events = Rc::clone(&sink.events);
            let clock = ScriptClock::default();
            clock.samples.borrow_mut().push_back(sample);
            let mut writer = MvsCaptureV2Writer::new(
                sink,
                clock,
                CreatedConfig {
                    deadline_ms: 5_000,
                    record_limit: 3,
                },
            )
            .unwrap();

            assert_eq!(
                operation(&mut writer).unwrap(),
                WriterDecision::Finalized(CaptureState::Aborted)
            );
            assert_eq!(writer.selected_abort_reason(), Some(expected_reason));
            let parsed = read_mvs_capture_v2_structural(&capture_bytes(
                &events.borrow(),
            ))
            .unwrap();
            assert_eq!(parsed.terminal.timestamp_us, sample);
        }
    }
}

#[test]
fn explicit_pre_trigger_deadline_failure_forces_267_before_clock_equality() {
    let sink = RecordingSink::default();
    let events = Rc::clone(&sink.events);
    let clock = ScriptClock::default();
    clock.samples.borrow_mut().push_back(DEADLINE_MICROS - 1);
    let mut writer = MvsCaptureV2Writer::new(
        sink,
        clock,
        CreatedConfig {
            deadline_ms: 5_000,
            record_limit: 3,
        },
    )
    .unwrap();

    assert_eq!(
        writer.pre_trigger_deadline_failed().unwrap(),
        WriterDecision::Finalized(CaptureState::Aborted)
    );
    assert_eq!(writer.selected_abort_reason(), Some(267));
    let parsed =
        read_mvs_capture_v2_structural(&capture_bytes(&events.borrow()))
            .unwrap();
    assert_eq!(parsed.terminal.timestamp_us, DEADLINE_MICROS - 1);
    assert_cleanup_exactly_once(&events.borrow());
    assert_future_input_rejected(&mut writer, &events);
}

#[test]
fn connect_and_auth_clock_errors_fail_closed_as_264() {
    type FailureOperation = fn(&mut MvsCaptureV2Writer<RecordingSink, FaultClock>) -> Result<WriterDecision, VncError>;
    for operation in [
        MvsCaptureV2Writer::connect_failed as FailureOperation,
        MvsCaptureV2Writer::authentication_failed as FailureOperation,
    ] {
        let (mut writer, events, steps) = fault_clock_writer();
        steps.borrow_mut().push_back(ClockStep::Error);
        assert!(operation(&mut writer).is_err());
        assert_eq!(writer.selected_abort_reason(), Some(264));
        assert_eq!(writer.state(), CaptureState::Finalizing);
        assert_eq!(
            events
                .borrow()
                .iter()
                .filter(|event| matches!(event, SinkEvent::Write(_)))
                .count(),
            1
        );
        assert_cleanup_exactly_once(&events.borrow());
        assert_future_input_rejected(&mut writer, &events);

        let (mut regression, events, steps) = fault_clock_writer();
        steps
            .borrow_mut()
            .extend([ClockStep::Micros(10), ClockStep::Micros(9)]);
        regression.pre_trigger_checkpoint().unwrap();
        assert!(operation(&mut regression).is_err());
        assert_eq!(regression.selected_abort_reason(), Some(264));
        assert_eq!(regression.state(), CaptureState::Finalizing);
        assert_cleanup_exactly_once(&events.borrow());
        assert_future_input_rejected(&mut regression, &events);
    }
}

#[test]
fn clock_regression_after_armed_sync_is_irreversible() {
    let (mut writer, events, steps) = fault_clock_writer();
    steps
        .borrow_mut()
        .extend([ClockStep::Micros(10), ClockStep::Micros(9)]);
    assert!(writer.arm(arm_config()).is_err());
    assert_eq!(writer.state(), CaptureState::Finalizing);
    assert_cleanup_tail(&events.borrow());
}

#[test]
fn record_gap_and_post_mutation_failures_are_fail_closed() {
    let (mut record, events) = failing_writer(FailurePoint::RecordOrGapWrite);
    drive_to_recording(&mut record);
    assert!(record.accept_mvs_begin(rect(1, 2, 3, 4), 1, &[0]).is_err());
    assert_eq!((record.source_frame_count, record.record_count), (1, 0));
    assert_eq!(record.state(), CaptureState::Finalizing);
    assert_cleanup_tail(&events.borrow());
    assert_future_input_rejected(&mut record, &events);

    let (mut gap, events) = failing_writer(FailurePoint::RecordOrGapWrite);
    drive_to_recording(&mut gap);
    assert!(gap.reject_mvs_envelope(None).is_err());
    assert_eq!((gap.source_frame_count, gap.gap_count()), (1, 0));
    assert_eq!(gap.state(), CaptureState::Finalizing);
    assert_cleanup_tail(&events.borrow());
    assert_future_input_rejected(&mut gap, &events);

    let (mut clock, events, steps) = fault_clock_writer();
    drive_to_recording(&mut clock);
    steps
        .borrow_mut()
        .extend([ClockStep::Micros(0), ClockStep::Micros(0), ClockStep::Error]);
    assert!(clock.accept_mvs_begin(rect(1, 2, 3, 4), 1, &[0]).is_err());
    assert_eq!((clock.source_frame_count, clock.record_count), (1, 1));
    assert_eq!(clock.state(), CaptureState::Finalizing);
    assert_cleanup_tail(&events.borrow());
    assert_future_input_rejected(&mut clock, &events);

    let (mut continuation, events, steps) = fault_clock_writer();
    drive_to_recording(&mut continuation);
    continuation
        .accept_mvs_begin(rect(1, 2, 3, 4), 3, &[0])
        .unwrap();
    steps.borrow_mut().push_back(ClockStep::Error);
    assert!(continuation.accept_mvs_continuation(&[1]).is_err());
    assert_eq!(continuation.source_frame_count, 2);
    assert_eq!(continuation.pending.unwrap().accepted, 2);
    assert_eq!(continuation.state(), CaptureState::Finalizing);
    assert_cleanup_tail(&events.borrow());
    assert_future_input_rejected(&mut continuation, &events);
}

#[test]
fn post_write_classification_updates_derivable_footer_counters_then_closes() {
    let (mut unknown, events, _) = recording_writer();
    assert!(unknown.accept_mvs_begin(rect(1, 2, 3, 4), 1, &[9]).is_err());
    assert_eq!((unknown.record_count, unknown.type_counts), (1, [0, 0, 0]));
    assert_eq!(unknown.state(), CaptureState::Finalizing);
    assert_cleanup_tail(&events.borrow());

    let (mut geometry, events, _) = recording_writer();
    assert!(geometry
        .accept_mvs_begin(rect(639, 479, 2, 2), 1, &[0])
        .is_err());
    assert_eq!(
        (geometry.record_count, geometry.type_counts),
        (1, [1, 0, 0])
    );
    assert_eq!(geometry.state(), CaptureState::Finalizing);
    assert_cleanup_tail(&events.borrow());
}

#[test]
fn gap_timestamp_and_event_reservation_failures_consume_after_ordinal_assignment() {
    let (mut clock, events, steps) = fault_clock_writer();
    drive_to_recording(&mut clock);
    steps.borrow_mut().push_back(ClockStep::Error);
    assert!(clock.reject_mvs_envelope(None).is_err());
    assert_eq!((clock.source_frame_count, clock.gap_count()), (1, 0));
    assert_eq!(clock.state(), CaptureState::Finalizing);
    assert_cleanup_tail(&events.borrow());

    let (mut reservation, events, _) = recording_writer();
    reservation.event_count = MVS_CAPTURE_V2_MAX_EVENTS - 1;
    assert!(reservation.accept_mvs_continuation(&[0]).is_err());
    assert_eq!(
        (reservation.source_frame_count, reservation.gap_count()),
        (1, 0)
    );
    assert_eq!(reservation.state(), CaptureState::Finalizing);
    assert_cleanup_tail(&events.borrow());
}

#[test]
fn lifecycle_nonterminal_write_failures_map_and_consume_exactly() {
    let (mut armed, events) = failing_writer(FailurePoint::ArmedWrite);
    armed.arm(arm_config()).unwrap();
    assert_eq!(armed.selected_abort_reason(), Some(259));
    assert_cleanup_tail(&events.borrow());

    let (mut triggered, events) = failing_writer(FailurePoint::TriggeredWrite);
    drive_to_trigger_mask(&mut triggered);
    triggered.write_recording_gate().unwrap();
    assert_eq!(triggered.selected_abort_reason(), Some(260));
    assert_cleanup_tail(&events.borrow());

    let (mut recording, events) = failing_writer(FailurePoint::RecordingWrite);
    drive_to_trigger_mask(&mut recording);
    recording.write_recording_gate().unwrap();
    assert_eq!(recording.selected_abort_reason(), Some(260));
    assert_cleanup_tail(&events.borrow());
}

#[test]
fn terminal_preflight_failure_selects_then_cleans_up_preserving_first_error() {
    let (mut writer, events) = failing_writer(FailurePoint::IntoInnerFlush);
    writer.event_count = MVS_CAPTURE_V2_MAX_EVENTS;
    let error = writer.cancel().unwrap_err();
    assert!(error.chain().contains("V2 event 数量超过上限"));
    assert_eq!(writer.selected_abort_reason(), Some(265));
    assert_eq!(writer.state(), CaptureState::Finalizing);
    assert_cleanup_tail(&events.borrow());
}

#[test]
fn output_failed_uses_the_persisted_phase_mapping() {
    let (mut triggering, _, _) = armed_writer();
    triggering.begin_trigger().unwrap();
    triggering.output_failed().unwrap();
    assert_eq!(triggering.selected_abort_reason(), Some(260));

    let (mut recording, _, _) = recording_writer();
    recording.output_failed().unwrap();
    assert_eq!(recording.selected_abort_reason(), Some(264));

    let (mut created, _, _) = created_writer();
    created.output_failed().unwrap();
    assert_eq!(created.selected_abort_reason(), Some(264));
}

#[test]
fn every_public_mutation_rejects_every_illegal_state_without_writing() {
    type Operation = (
        &'static str,
        &'static [CaptureState],
        fn(&mut MvsCaptureV2Writer<RecordingSink, ManualClock>) -> Result<WriterDecision, VncError>,
    );
    let operations: &[Operation] = &[
        (
            "pre_trigger_checkpoint",
            &[CaptureState::Created, CaptureState::Armed],
            MvsCaptureV2Writer::pre_trigger_checkpoint,
        ),
        ("arm", &[CaptureState::Created], |writer| {
            writer.arm(arm_config())
        }),
        (
            "begin_trigger",
            &[CaptureState::Armed],
            MvsCaptureV2Writer::begin_trigger,
        ),
        (
            "trigger_write_succeeded",
            &[CaptureState::Triggering],
            |writer| writer.trigger_write_succeeded(1),
        ),
        (
            "trigger_failed",
            &[CaptureState::Triggering],
            MvsCaptureV2Writer::trigger_failed,
        ),
        (
            "write_recording_gate",
            &[CaptureState::Triggering],
            MvsCaptureV2Writer::write_recording_gate,
        ),
        (
            "accept_non_mvs",
            &[CaptureState::Recording],
            MvsCaptureV2Writer::accept_non_mvs,
        ),
        (
            "reject_mvs_envelope",
            &[CaptureState::Recording],
            |writer| writer.reject_mvs_envelope(None),
        ),
        ("accept_mvs_begin", &[CaptureState::Recording], |writer| {
            writer.accept_mvs_begin(rect(0, 0, 1, 1), 1, &[0])
        }),
        (
            "accept_mvs_continuation",
            &[CaptureState::Recording],
            |writer| writer.accept_mvs_continuation(&[0]),
        ),
        (
            "poll_recording",
            &[CaptureState::Recording],
            MvsCaptureV2Writer::poll_recording,
        ),
        (
            "read_failed",
            &[CaptureState::Recording],
            MvsCaptureV2Writer::read_failed,
        ),
        (
            "generation_transition_attempted",
            &[CaptureState::Recording],
            MvsCaptureV2Writer::generation_transition_attempted,
        ),
        (
            "cancel",
            &[
                CaptureState::Created,
                CaptureState::Armed,
                CaptureState::Triggering,
                CaptureState::Recording,
            ],
            MvsCaptureV2Writer::cancel,
        ),
        (
            "connect_failed",
            &[CaptureState::Created],
            MvsCaptureV2Writer::connect_failed,
        ),
        (
            "authentication_failed",
            &[CaptureState::Created],
            MvsCaptureV2Writer::authentication_failed,
        ),
        (
            "pre_trigger_deadline_failed",
            &[CaptureState::Created],
            MvsCaptureV2Writer::pre_trigger_deadline_failed,
        ),
        (
            "output_failed",
            &[
                CaptureState::Created,
                CaptureState::Armed,
                CaptureState::Triggering,
                CaptureState::Recording,
            ],
            MvsCaptureV2Writer::output_failed,
        ),
    ];
    let states = [
        CaptureState::Created,
        CaptureState::Armed,
        CaptureState::Triggering,
        CaptureState::Recording,
        CaptureState::Finalizing,
        CaptureState::Clean,
        CaptureState::Aborted,
    ];

    for &(name, allowed, operation) in operations {
        for &state in &states {
            if allowed.contains(&state) {
                continue;
            }
            let (mut writer, events, _) = created_writer();
            writer.state = state;
            let before = events.borrow().len();
            assert!(operation(&mut writer).is_err(), "{name} accepted {state:?}");
            assert_eq!(
                events.borrow().len(),
                before,
                "{name} wrote in illegal state {state:?}"
            );
        }
    }
}

#[test]
fn finalization_orders_terminal_flush_sync_and_relinquish() {
    let (mut writer, events, _) = recording_writer();
    writer.cancel().unwrap();
    let events = events.borrow();
    let tail = &events[events.len() - 4..];
    assert!(matches!(tail[0], SinkEvent::Write(_)));
    assert_eq!(tail[1], SinkEvent::IntoInner);
    assert_eq!(tail[2], SinkEvent::Sync);
    assert_eq!(tail[3], SinkEvent::Relinquish);
}

#[test]
fn every_observable_finalization_failure_is_non_success_and_consumes_sink() {
    for (point, expected_error) in [
        (FailurePoint::TerminalWrite, "写入 terminal event"),
        (FailurePoint::IntoInnerFlush, "final implicit flush"),
        (FailurePoint::FinalSync, "final file sync_data"),
        (FailurePoint::Relinquish, "final file relinquish"),
    ] {
        let events = Rc::new(RefCell::new(Vec::new()));
        let sink = FailingSink {
            events: Rc::clone(&events),
            point,
            writes: 0,
            flushes: 0,
            syncs: 0,
        };
        let mut writer = MvsCaptureV2Writer::new(
            sink,
            ManualClock::default(),
            CreatedConfig {
                deadline_ms: 5_000,
                record_limit: 3,
            },
        )
        .unwrap();
        drive_to_recording(&mut writer);
        let error = writer.cancel().unwrap_err();
        assert!(error.chain().contains(expected_error));
        assert_eq!(writer.state(), CaptureState::Finalizing);
        assert_cleanup_tail(&events.borrow());
        let count = events.borrow().len();
        assert!(writer.cancel().is_err());
        assert_eq!(events.borrow().len(), count);
    }
}

#[test]
fn explicit_output_failure_uses_reason_264() {
    let (mut writer, _, _) = recording_writer();
    writer.output_failed().unwrap();
    assert_eq!(writer.selected_abort_reason(), Some(264));
}

#[test]
fn injected_constructor_without_absolute_origin_reports_a_deterministic_error() {
    let (writer, _, _) = created_writer();
    assert!(writer.absolute_deadline().unwrap_err().chain()
        .contains("absolute deadline 不可用"));
}

#[test]
fn checked_absolute_deadline_failure_happens_before_any_sink_write() {
    let sink = RecordingSink::default();
    let events = Rc::clone(&sink.events);
    let result = MvsCaptureV2Writer::new_with_deadline(
        sink,
        ManualClock::default(),
        CreatedConfig {
            deadline_ms: 5_000,
            record_limit: 1,
        },
        None,
    );
    assert!(result.err().unwrap().chain().contains("absolute deadline 溢出"));
    assert!(events.borrow().is_empty());
}
#[test]
fn a_planned_capture_tells_its_deadline_and_its_limit() {
    for (config, micros, reason) in [
        (CreatedConfig { deadline_ms: 5_000, record_limit: 2 }, 0, 2),
        (CreatedConfig { deadline_ms: 10_000, record_limit: 7 }, 10_000_000, 1),
    ] {
        let sink = RecordingSink::default();
        let events = Rc::clone(&sink.events);
        let clock = ManualClock::default();
        let now = clock.handle();
        let mut writer = MvsCaptureV2Writer::new(sink, clock, config).unwrap();
        drive_to_recording(&mut writer);
        writer.accept_mvs_begin(rect(1, 2, 3, 4), 1, &[0]).unwrap();
        *now.borrow_mut() = micros;
        writer.accept_mvs_begin(rect(1, 2, 3, 4), 1, &[1]).unwrap();
        assert_eq!(writer.state(), CaptureState::Clean);
        assert_eq!(writer.selected_terminal_reason(), Some(reason));
        let parsed = read_mvs_capture_v2_strict_cold(&capture_bytes(&events.borrow())).unwrap();
        assert_eq!(parsed.deadline_ms, config.deadline_ms);
        assert_eq!(parsed.record_limit, config.record_limit);
        assert_eq!(parsed.records.len(), 2);
        let expected = if reason == 1 {
            frd_vnc::mvs_capture_v2::MvsCaptureV2TerminalReason::Deadline
        } else {
            frd_vnc::mvs_capture_v2::MvsCaptureV2TerminalReason::RecordLimit
        };
        assert_eq!(parsed.terminal.reason, expected);
    }
}

#[test]
fn frames_without_a_record_leave_no_trace() {
    let mut files = Vec::new();
    for between in [0, 3] {
        let (mut writer, events, _) = recording_writer();
        for tag in [0u8, 1, 0] {
            for _ in 0..between {
                let asked = events.borrow().len();
                assert_eq!(writer.accept_non_mvs().unwrap(), WriterDecision::Continue);
                assert_eq!(events.borrow().len(), asked);
            }
            writer.accept_mvs_begin(rect(1, 2, 3, 4), 2, &[tag]).unwrap();
            for _ in 0..between {
                assert_eq!(writer.accept_non_mvs().unwrap(), WriterDecision::Continue);
            }
            writer.accept_mvs_continuation(&[9]).unwrap();
        }
        assert_eq!(writer.state(), CaptureState::Clean);
        files.push(capture_bytes(&events.borrow()));
    }
    assert_eq!(files[0], files[1]);
}

#[test]
fn cancelling_closes_synchronises_and_releases_last() {
    let (mut idle, events, _) = recording_writer();
    let asked = events.borrow().len();
    assert_eq!(
        idle.cancel().unwrap(),
        WriterDecision::Finalized(CaptureState::Aborted)
    );
    assert!(matches!(
        &events.borrow()[asked..],
        [SinkEvent::Write(_), SinkEvent::IntoInner, SinkEvent::Sync, SinkEvent::Relinquish]
    ));
    let asked = events.borrow().len();
    assert!(idle.cancel().is_err());
    assert_eq!(events.borrow().len(), asked);
    assert_eq!(idle.state(), CaptureState::Aborted);

    let (mut pending, events, _) = recording_writer();
    pending.accept_mvs_begin(rect(1, 2, 3, 4), 8, &[0, 1]).unwrap();
    let asked = events.borrow().len();
    pending.cancel().unwrap();
    assert!(matches!(
        &events.borrow()[asked..],
        [
            SinkEvent::Write(_),
            SinkEvent::Write(_),
            SinkEvent::IntoInner,
            SinkEvent::Sync,
            SinkEvent::Relinquish
        ]
    ));
}

#[test]
fn cancelling_without_room_for_a_gap_gives_the_capture_up() {
    for refused in [false, true] {
        let sink = RecordingSink::default();
        let events = Rc::clone(&sink.events);
        let config = CreatedConfig { deadline_ms: 5_000, record_limit: 4_096 };
        let mut writer = MvsCaptureV2Writer::new(sink, ManualClock::default(), config).unwrap();
        drive_to_recording(&mut writer);
        for _ in 0..4_095 {
            writer.accept_mvs_begin(rect(1, 2, 3, 4), 1, &[0]).unwrap();
        }
        if refused {
            assert!(writer.accept_mvs_begin(rect(1, 2, 3, 4), 1, &[2]).is_err());
            assert_eq!(writer.state(), CaptureState::Recording);
            writer.accept_mvs_begin(rect(1, 2, 3, 4), 1, &[0]).unwrap();
        }
        writer.accept_mvs_begin(rect(1, 2, 3, 4), 8, &[0, 1]).unwrap();
        let asked = events.borrow().len();
        if refused {
            assert_eq!(writer.cancel().unwrap_err().message(), "V2 event 数量超过上限");
            assert_eq!(writer.state(), CaptureState::Finalizing);
            assert_eq!(
                events.borrow()[asked..],
                [SinkEvent::IntoInner, SinkEvent::Sync, SinkEvent::Relinquish]
            );
        } else {
            assert_eq!(
                writer.cancel().unwrap(),
                WriterDecision::Finalized(CaptureState::Aborted)
            );
            assert_eq!(writer.last_gap().unwrap().reason, 12);
        }
    }
}
