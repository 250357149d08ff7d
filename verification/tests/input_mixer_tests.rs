use meeting_minutes_automator::input_mixer::{
    InputMixer, MixerMetrics, BYTES_PER_FRAME, FRAME_DURATION_MS, SAMPLES_PER_FRAME,
};
use meeting_minutes_automator::multi_input_manager::InputBuffer;

#[test]
fn test_frame_constants() {
    assert_eq!(SAMPLES_PER_FRAME, 160);
    assert_eq!(BYTES_PER_FRAME, 320);
    assert_eq!(FRAME_DURATION_MS, 10);
}

#[test]
fn test_mixer_metrics() {
    let mut metrics = MixerMetrics::new();

    assert_eq!(metrics.get_drift_correction_count(), 0);
    assert_eq!(metrics.get_clip_count(), 0);
    assert_eq!(metrics.get_silence_insertion_count(), 0);
    assert_eq!(metrics.get_frames_mixed(), 0);

    metrics.increment_drift_correction();
    metrics.increment_clip();
    metrics.increment_silence_insertion();
    metrics.increment_frames_mixed();

    assert_eq!(metrics.get_drift_correction_count(), 1);
    assert_eq!(metrics.get_clip_count(), 1);
    assert_eq!(metrics.get_silence_insertion_count(), 1);
    assert_eq!(metrics.get_frames_mixed(), 1);
}

#[test]
fn test_latency_metrics() {
    let mut metrics = MixerMetrics::new();
    metrics.record_latency_us(1000);
    metrics.record_latency_us(3000);
    assert_eq!(metrics.max_mix_latency_us, 3000);
    assert_eq!(metrics.total_mix_latency_us, 4000);
    assert_eq!(metrics.latency_sample_count, 2);
}

#[test]
fn test_mixer_new() {
    let mixer = InputMixer::new();
    assert_eq!(mixer.metrics().get_frames_mixed(), 0);
}

#[test]
fn test_drift_tracking() {
    let mut mixer = InputMixer::new();
    mixer.register_input("mic-1");

    assert!(mixer.is_registered("mic-1"));

    mixer.unregister_input("mic-1");
    assert!(!mixer.is_registered("mic-1"));
}

#[test]
fn test_mixer_reset() {
    let mut mixer = InputMixer::new();
    mixer.register_input("mic-1");
    mixer.set_reference_samples(1000);

    mixer.reset();

    assert_eq!(mixer.registered_input_count(), 0);
    assert_eq!(mixer.reference_samples(), 0);
}

#[test]
fn registering_twice_keeps_one_entry() {
    let mut mixer = InputMixer::new();
    mixer.register_input("mic-1");
    mixer.register_input("mic-1");
    mixer.register_input("loop-1");
    assert_eq!(mixer.registered_input_count(), 2);
    let st = mixer.drift_state("mic-1").unwrap();
    assert_eq!(st.samples_received, 0);
}

#[test]
fn extract_frame_pads_an_underrun_with_silence() {
    let mut mixer = InputMixer::new();
    mixer.register_input("mic-1");
    let mut buffer = InputBuffer::new(10_000);
    // 100 samples of value 7 (little endian)
    let mut bytes = Vec::new();
    for _ in 0..100 {
        bytes.extend_from_slice(&7i16.to_le_bytes());
    }
    buffer.push(&bytes);
    // Once this frame is mixed the reference clock stands at 100, as many
    // samples as were delivered: no drift.
    mixer.set_reference_samples(100 - SAMPLES_PER_FRAME as i64);
    let frame = mixer.extract_frame("mic-1", &mut buffer, 0);
    assert_eq!(frame.len(), SAMPLES_PER_FRAME);
    assert!(frame[..100].iter().all(|&s| s == 7));
    assert!(frame[100..].iter().all(|&s| s == 0));
    assert_eq!(buffer.level(), 0);
    assert_eq!(mixer.metrics().get_silence_insertion_count(), 1);
    assert_eq!(mixer.metrics().get_drift_correction_count(), 0);
}

#[test]
fn drift_correction_removes_the_middle_sample() {
    let mut mixer = InputMixer::new();
    mixer.register_input("mic-1");
    let mut buffer = InputBuffer::new(10_000);
    let mut bytes = Vec::new();
    for i in 0..SAMPLES_PER_FRAME {
        bytes.extend_from_slice(&(i as i16).to_le_bytes());
    }
    buffer.push(&bytes);
    buffer.push(&bytes);
    // The first frame is in sync with the reference clock.
    let first = mixer.extract_frame("mic-1", &mut buffer, 400);
    assert_eq!(first.len(), SAMPLES_PER_FRAME);
    assert_eq!(mixer.metrics().get_drift_correction_count(), 0);
    // A second frame without the clock advancing runs 160 samples ahead:
    // sample 80 is dropped, the frame is padded back to full length.
    let frame = mixer.extract_frame("mic-1", &mut buffer, 500);
    assert_eq!(frame.len(), SAMPLES_PER_FRAME);
    assert_eq!(frame[79], 79);
    assert_eq!(frame[80], 81);
    assert_eq!(frame[158], 159);
    assert_eq!(frame[159], 0);
    assert_eq!(mixer.drift_state("mic-1").unwrap().samples_received, 319);
    assert_eq!(mixer.metrics().get_drift_correction_count(), 1);
}

#[test]
fn finish_frame_advances_reference_and_counts() {
    let mut mixer = InputMixer::new();
    mixer.finish_frame(250);
    mixer.finish_frame(100);
    assert_eq!(mixer.reference_samples(), 2 * SAMPLES_PER_FRAME as i64);
    let m = mixer.metrics();
    assert_eq!(m.get_frames_mixed(), 2);
    assert_eq!(m.max_mix_latency_us, 250);
    mixer.record_clip();
    assert_eq!(mixer.metrics().get_clip_count(), 1);
}

#[test]
fn drift_correction_drops_a_sample_when_input_runs_ahead() {
    let mut mixer = InputMixer::new();
    mixer.register_input("mic-1");
    let mut buffer = InputBuffer::new(100_000);
    // Deliver 20 frames of input while the reference clock stays at zero.
    for _ in 0..20 {
        let mut bytes = Vec::new();
        for i in 0..SAMPLES_PER_FRAME {
            bytes.extend_from_slice(&(i as i16).to_le_bytes());
        }
        buffer.push(&bytes);
    }
    let first = mixer.extract_frame("mic-1", &mut buffer, 1_000);
    assert_eq!(first.len(), SAMPLES_PER_FRAME);
    assert_eq!(mixer.metrics().get_drift_correction_count(), 0);
    let second = mixer.extract_frame("mic-1", &mut buffer, 1_200);
    assert_eq!(second.len(), SAMPLES_PER_FRAME);
    // The input ran 160 samples ahead of the reference: one sample dropped
    // and the frame refilled to full length.
    assert_eq!(mixer.metrics().get_drift_correction_count(), 1);
}

#[test]
fn an_input_in_sync_with_the_reference_is_never_corrected() {
    let mut mixer = InputMixer::new();
    let mut buffer = InputBuffer::new(32_000);
    let mut bytes = Vec::new();
    for i in 0..SAMPLES_PER_FRAME {
        bytes.extend_from_slice(&(i as i16).to_le_bytes());
    }
    for round in 0..50u64 {
        buffer.push(&bytes);
        let frame = mixer.extract_frame("mic-1", &mut buffer, round * 10);
        let expected: Vec<i16> = (0..SAMPLES_PER_FRAME as i16).collect();
        assert_eq!(frame, expected);
        mixer.finish_frame(10);
    }
    assert_eq!(mixer.metrics().get_drift_correction_count(), 0);
    assert_eq!(mixer.drift_state("mic-1").unwrap().samples_received, mixer.reference_samples());
}
