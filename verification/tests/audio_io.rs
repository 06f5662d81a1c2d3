use frd_vnc::audio_codec::ARD_AUDIO_PCM_SAMPLES_PER_ACCESS_UNIT;
use frd_vnc::audio_io::{
    select_protocol_input_config, InputFormat, PcmCaptureBuffer, SampleKind,
    CAPTURE_QUEUE_CAPACITY_FRAMES,
};

fn enqueue_interleaved_f32(buffer: &mut PcmCaptureBuffer, input: &[f32], channels: usize) {
    let samples = input
        .iter()
        .map(|sample| (sample.clamp(-1.0, 1.0) * 32_768.0) as i16)
        .collect::<Vec<_>>();
    buffer.enqueue(&samples, channels);
}

#[test]
fn capture_buffer_converts_mono_to_exact_protocol_stereo_access_units() {
    let mut buffer = PcmCaptureBuffer::new();
    let mono = (0..ARD_AUDIO_PCM_SAMPLES_PER_ACCESS_UNIT / 2)
        .map(|sample| sample as f32 / 1_000.0)
        .collect::<Vec<_>>();

    enqueue_interleaved_f32(&mut buffer, &mono, 1);
    let frame = buffer
        .take_protocol_frame()
        .expect("完整的 480 帧输入应产生一个协议帧");

    assert_eq!(frame.len(), ARD_AUDIO_PCM_SAMPLES_PER_ACCESS_UNIT);
    assert_eq!(frame[0], frame[1]);
    assert_eq!(frame[958], frame[959]);
    assert!(buffer.take_protocol_frame().is_none());
}

#[test]
fn capture_buffer_waits_for_a_complete_access_unit() {
    let mut buffer = PcmCaptureBuffer::new();
    enqueue_interleaved_f32(&mut buffer, &[0.25; 478 * 2], 2);

    assert!(buffer.take_protocol_frame().is_none());

    enqueue_interleaved_f32(&mut buffer, &[0.5; 2 * 2], 2);
    assert_eq!(
        buffer.take_protocol_frame().unwrap().len(),
        ARD_AUDIO_PCM_SAMPLES_PER_ACCESS_UNIT
    );
}

#[test]
fn capture_buffer_downmixes_stereo_for_pc_to_mac_mono_contract() {
    let mut buffer = PcmCaptureBuffer::new();
    enqueue_interleaved_f32(&mut buffer, &[0.5, -0.5].repeat(480), 2);

    let frame = buffer.take_pc_to_mac_protocol_frame().unwrap();

    assert_eq!(frame.len(), 480);
    assert!(frame.iter().all(|sample| *sample == 0));
}



#[test]
fn the_oldest_frames_are_dropped_where_there_is_no_room() {
    let mut buffer = PcmCaptureBuffer::new();
    let samples = (0..CAPTURE_QUEUE_CAPACITY_FRAMES + 3)
        .map(|sample| (sample % 1000) as i16)
        .collect::<Vec<_>>();
    buffer.enqueue(&samples, 1);
    assert_eq!(buffer.dropped_frames, 3);
    assert_eq!(buffer.frames.len(), CAPTURE_QUEUE_CAPACITY_FRAMES);
    let frame = buffer.take_protocol_frame().unwrap();
    assert_eq!(&frame[..4], &[3, 3, 4, 4]);
    assert_eq!(buffer.frames.len(), CAPTURE_QUEUE_CAPACITY_FRAMES - 480);
}

#[test]
fn further_channels_and_unfinished_frames_are_left_out() {
    let mut buffer = PcmCaptureBuffer::new();
    buffer.enqueue(&[1, 2, 3, 4, 5, 6, 7], 3);
    buffer.enqueue(&[8, 9], 0);
    assert_eq!(buffer.frames.len(), 2);
    assert_eq!(buffer.frames[1], [4, 5]);
}

#[test]
fn mixing_down_rounds_towards_zero() {
    let mut buffer = PcmCaptureBuffer::new();
    buffer.enqueue(&[-1, -2].repeat(240), 2);
    buffer.enqueue(&[2, 1].repeat(240), 2);
    let frame = buffer.take_pc_to_mac_protocol_frame().unwrap();
    assert_eq!(frame[0], -1);
    assert_eq!(frame[479], 1);
    assert!(buffer.take_pc_to_mac_protocol_frame().is_none());
}

#[test]
fn two_channels_of_floats_are_preferred() {
    let format = |channels, samples| InputFormat {
        channels,
        min_sample_rate: 8_000,
        max_sample_rate: 48_000,
        samples,
    };
    assert_eq!(
        select_protocol_input_config(&[
            format(1, SampleKind::Float32),
            format(2, SampleKind::Other),
            format(2, SampleKind::Signed16),
            format(2, SampleKind::Signed16),
            format(6, SampleKind::Float32),
        ])
        .unwrap(),
        2
    );
    let low = InputFormat { max_sample_rate: 44_100, ..format(2, SampleKind::Float32) };
    assert_eq!(
        select_protocol_input_config(&[low, format(0, SampleKind::Float32), format(6, SampleKind::Other)])
            .unwrap(),
        2
    );
    assert_eq!(
        select_protocol_input_config(&[low]).unwrap_err().message(),
        "默认输入设备不支持 ARD 所需的 48 kHz 格式"
    );
}
