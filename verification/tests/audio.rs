use h_opentypeless::capture::{buffer_samples, drain_chunks, samples_per_chunk, MAX_BUFFER_SAMPLES};
use h_opentypeless::audio_ducking::{
    completed_value, mac_prefers_volume_for_mute, PropertyValue, Visited,
};
use h_opentypeless::capture::{
    audio_channel_capacity, initial_capture_state, AudioConfig, CaptureFault, CaptureLease,
    CaptureState,
};
use h_opentypeless::lifecycle::{confirmation_step, enter_step, ConfirmStep, SlotDecision, TransitionGate};

#[test]
fn capture_does_not_report_recording_before_the_backend_is_ready() {
    assert_eq!(initial_capture_state(), CaptureState::Starting);
}

#[test]
fn audio_queue_preserves_a_minute_while_the_provider_connects() {
    assert_eq!(audio_channel_capacity(&AudioConfig::default()), 3_000);
}

#[test]
fn overlapping_capture_is_rejected_until_owner_releases() {
    let mut state = false;
    let owner = CaptureLease::acquire(&mut state).unwrap();
    assert!(CaptureLease::acquire(&mut state).is_err());
    owner.release(&mut state);
    let owner = CaptureLease::acquire(&mut state).unwrap();
    assert!(CaptureLease::acquire(&mut state).is_err());
    owner.release(&mut state);
    assert!(CaptureLease::acquire(&mut state).is_ok());
}

#[test]
fn channel_capacity_rounds_up_and_guards_zero_duration() {
    let mut config = AudioConfig::default();
    config.chunk_duration_ms = 7;
    assert_eq!(audio_channel_capacity(&config), 8572);
    config.chunk_duration_ms = 0;
    assert_eq!(audio_channel_capacity(&config), 60000);
}

#[test]
fn first_capture_fault_is_kept() {
    let mut fault = CaptureFault::new();
    assert!(!fault.failed());
    assert!(fault.report(1, 640));
    assert!(!fault.report(3, 100));
    assert!(fault.failed());
    assert_eq!(fault.code(), 1);
    assert_eq!(fault.dropped_bytes(), 740);
    assert_eq!(
        fault.message(),
        "Audio processing could not keep up with the microphone. Recording was cancelled to avoid inserting incomplete text. Please try again."
    );
}

#[test]
fn transition_gate_failure_is_permanent() {
    let mut gate = TransitionGate::new();
    assert!(gate.check().is_ok());
    assert!(matches!(enter_step(&mut gate, true, false, true), SlotDecision::Proceed));
    assert!(matches!(enter_step(&mut gate, false, false, true), SlotDecision::Retry));
    match enter_step(&mut gate, false, false, false) {
        SlotDecision::Refuse(m) => assert_eq!(m, "Audio device transition timed out"),
        _ => panic!("expected refusal"),
    }
    assert_eq!(
        gate.check(),
        Err("Audio device completion is uncertain. Restart H after checking the audio device.".to_string())
    );
    assert!(matches!(enter_step(&mut gate, true, false, true), SlotDecision::Refuse(_)));
}

#[test]
fn poisoned_transition_lock_disables_the_gate() {
    let mut gate = TransitionGate::new();
    match enter_step(&mut gate, false, true, true) {
        SlotDecision::Refuse(m) => assert_eq!(m, "Audio transition lock poisoned"),
        _ => panic!("expected refusal"),
    }
    assert!(gate.check().is_err());
}

#[test]
fn confirmation_waits_for_readback_and_propagates_errors() {
    assert!(matches!(confirmation_step(Ok(false), false), ConfirmStep::Wait));
    assert!(matches!(confirmation_step(Ok(true), true), ConfirmStep::Done));
    match confirmation_step(Ok(false), true) {
        ConfirmStep::Fail(m) => assert_eq!(m, "Audio property completion timed out"),
        _ => panic!("expected timeout"),
    }
    match confirmation_step(Err("disconnected".into()), false) {
        ConfirmStep::Fail(m) => assert_eq!(m, "disconnected"),
        _ => panic!("expected error"),
    }
}

fn volume(v: f32) -> PropertyValue {
    PropertyValue::Volume(v.to_bits())
}

#[test]
fn new_mac_mute_sessions_use_volume_instead_of_hardware_mute() {
    assert!(mac_prefers_volume_for_mute());
}

#[test]
fn usb_quantized_value_completes_after_notification() {
    assert_eq!(
        completed_value(volume(0.12543403f32), volume(0.4), true),
        Some(volume(0.12543403))
    );
    assert_eq!(completed_value(volume(0.34f32), volume(0.8), false), None);
}

#[test]
fn notification_with_old_mute_or_volume_is_not_completion() {
    assert_eq!(
        completed_value(PropertyValue::Mute(0), PropertyValue::Mute(0), true),
        None
    );
    assert_eq!(
        completed_value(PropertyValue::Mute(1), PropertyValue::Mute(0), true),
        Some(PropertyValue::Mute(1))
    );
    assert_eq!(completed_value(volume(0.8f32), volume(0.8), true), None);
}

#[test]
fn cached_readback_alone_does_not_confirm_a_write() {
    assert_eq!(completed_value(volume(0.125f32), volume(0.8), false), None);
    assert_eq!(completed_value(volume(f32::NAN), volume(0.8), true), None);
    assert_eq!(
        completed_value(PropertyValue::Mute(0), PropertyValue::Mute(1), false),
        None
    );
}

#[test]
fn small_confirmed_change_is_not_a_noop_and_signed_zero_is_unchanged() {
    assert_eq!(
        completed_value(volume(0.000157f32), volume(0.001), true),
        Some(volume(0.000157))
    );
    assert_eq!(completed_value(volume(-0.0f32), volume(0.0), true), None);
    assert_eq!(completed_value(volume(1.5f32), volume(0.0), true), None);
    assert_eq!(completed_value(PropertyValue::Mute(2), PropertyValue::Mute(0), true), None);
}

#[test]
fn capture_buffer_is_bounded_and_chunks_are_little_endian() {
    let mut buffer = vec![0i16; MAX_BUFFER_SAMPLES - 2];
    assert!(!buffer_samples(&mut buffer, &[1, 2, 3]));
    assert_eq!(buffer.len(), MAX_BUFFER_SAMPLES);
    assert_eq!(&buffer[MAX_BUFFER_SAMPLES - 2..], &[1, 2]);
    let mut small = vec![1i16, -2];
    assert!(buffer_samples(&mut small, &[3]));
    let chunks = drain_chunks(&mut small, 2);
    assert_eq!(chunks, vec![vec![1, 0, 0xfe, 0xff]]);
    assert_eq!(small, vec![3]);
    assert_eq!(samples_per_chunk(&AudioConfig::default()), 320);
}

#[test]
fn each_device_is_changed_once_per_recording() {
    let mut seen = Visited::new();
    assert!(seen.first_visit("speakers"));
    assert!(seen.first_visit("headset"));
    assert!(!seen.first_visit("speakers"));
    assert!(!seen.first_visit("headset"));
    seen.clear();
    assert!(seen.first_visit("headset"));
}
