use h_opentypeless::auto_start::login_item_state;
use h_opentypeless::shell::{activation_policy, enabled, ActivationPolicy};
use h_opentypeless::auto_start::{needs_change, registered};
use h_opentypeless::escape_cancel::{cancellable, refresh_change, CancelTarget, PipelineState, Service, ShortcutChange};
use h_opentypeless::fn_event::is_synthetic_fn;
use h_opentypeless::product_scope::{apply, require_ask, AppConfig};
use h_opentypeless::tutorial::{check_practice_audio, practice_chunk_fits, require_main, Practice};
use h_opentypeless::voice_feedback::{edge_hidden, Feedback};

#[test]
fn unchanged_registration_does_not_register_twice() {
    assert!(!needs_change(1, true).unwrap());
    assert!(!needs_change(0, false).unwrap());
    assert!(!needs_change(3, false).unwrap());
    assert!(needs_change(0, true).unwrap());
    assert!(needs_change(1, false).unwrap());
}

#[test]
fn approval_required_is_not_reported_as_enabled_or_overridden() {
    assert!(registered(2).is_err());
    assert!(needs_change(2, true).is_err());
    assert!(needs_change(2, false).unwrap());
    assert!(registered(99).is_err());
}

#[test]
fn every_processing_phase_can_cancel_but_idle_and_completed_output_cannot() {
    for state in [
        PipelineState::Preparing,
        PipelineState::Recording,
        PipelineState::Transcribing,
        PipelineState::Polishing,
        PipelineState::AskRecording,
        PipelineState::AskThinking,
    ] {
        assert!(cancellable(state));
    }
    assert!(!cancellable(PipelineState::Idle));
    assert!(!cancellable(PipelineState::Outputting));
}

#[test]
fn stale_escape_press_does_not_cancel_a_new_operation() {
    let mut s = Service::new();
    s.transition(PipelineState::Recording);
    let stamped = s.generation();
    assert_eq!(
        s.handle(true, stamped, false, Some(PipelineState::Recording)),
        CancelTarget::Pipeline
    );
    s.transition(PipelineState::Idle);
    s.transition(PipelineState::Preparing);
    assert_ne!(s.generation(), stamped);
    assert_eq!(
        s.handle(true, stamped, false, Some(PipelineState::Preparing)),
        CancelTarget::Nothing
    );
    let current = s.generation();
    assert_eq!(s.handle(true, current, true, None), CancelTarget::Ask);
    assert_eq!(s.handle(false, current, true, None), CancelTarget::Nothing);
    assert_eq!(
        s.handle(true, current, false, Some(PipelineState::Outputting)),
        CancelTarget::Nothing
    );
    s.transition(PipelineState::Transcribing);
    assert_eq!(s.generation(), current);
}

#[test]
fn escape_is_registered_only_while_reserved() {
    assert_eq!(refresh_change(true, false), ShortcutChange::Register);
    assert_eq!(refresh_change(false, true), ShortcutChange::Unregister);
    assert_eq!(refresh_change(true, true), ShortcutChange::Keep);
    assert_eq!(refresh_change(false, false), ShortcutChange::Keep);
}

#[test]
fn remapped_arrows_cannot_generate_a_recording_fn_edge() {
    for arrow in [123, 124, 125, 126] {
        assert!(!is_synthetic_fn(arrow, 66467));
        assert!(is_synthetic_fn(63, 66467));
    }
    assert!(!is_synthetic_fn(63, 0));
    assert!(!is_synthetic_fn(49, 66467));
}

#[test]
fn removes_legacy_and_multiple_ask_bindings_only() {
    let mut config = AppConfig::default();
    let dictation = config.hotkeys.dictation.clone();
    apply(&mut config);
    assert!(config.ask_hotkey.is_empty());
    assert!(config.hotkeys.ask.is_none());
    assert!(config.hotkeys.ask_bindings.is_empty());
    assert_eq!(config.hotkeys.dictation, dictation);
    assert!(require_ask().is_err());
}

#[test]
fn configured_ask_bindings_are_cleared_and_dictation_kept() {
    let mut config = AppConfig::default();
    config.ask_hotkey = "Alt+Space".into();
    config.hotkeys.dictation = "Fn".into();
    config.hotkeys.ask = Some("Ctrl+Space".into());
    config.hotkeys.ask_bindings = vec!["Ctrl+A".into(), "Ctrl+B".into()];
    apply(&mut config);
    assert!(config.ask_hotkey.is_empty());
    assert!(config.hotkeys.ask.is_none());
    assert!(config.hotkeys.ask_bindings.is_empty());
    assert_eq!(config.hotkeys.dictation, "Fn");
    assert_eq!(
        require_ask(),
        Err("H-OpenTypeless에서는 Ask Anything을 제공하지 않습니다.".to_string())
    );
}

#[test]
fn stale_cancel_cannot_interrupt_another_session() {
    let mut practice = Practice::new();
    practice.start("current").unwrap();
    practice.signal("old", true);
    assert_eq!(practice.received(), Some(0));
    practice.signal("current", false);
    assert_eq!(practice.received(), Some(1));
    practice.signal("current", true);
    assert_eq!(practice.received(), Some(2));
}

#[test]
fn practice_sessions_are_single_bounded_and_main_window_only() {
    let mut practice = Practice::new();
    assert!(practice.start("").is_err());
    assert!(practice.start(&"x".repeat(65)).is_err());
    assert!(practice.start(&"가".repeat(22)).is_err());
    assert!(practice.start(&"가".repeat(21)).is_ok());
    assert_eq!(
        practice.start("other"),
        Err("A practice session is already running".to_string())
    );
    practice.finish();
    assert!(practice.received().is_none());
    assert!(require_main("main").is_ok());
    assert!(require_main("capsule").is_err());
    assert!(practice_chunk_fits(479_000, 1_000));
    assert!(!practice_chunk_fits(479_000, 1_001));
    assert!(check_practice_audio(3199).is_err());
    assert!(check_practice_audio(3200).is_ok());
}

#[test]
fn old_caret_result_cannot_survive_cancel_and_restart() {
    let mut feedback = Feedback::new();
    let (start, old) = feedback.advance("preparing");
    assert!(start);
    assert!(!feedback.advance("recording").0);
    feedback.advance("idle");
    let (_, new) = feedback.advance("preparing");
    assert_ne!(old, new);
    assert!(feedback.current(new));
    assert!(!feedback.current(old));
}

#[test]
fn preview_timeout_cannot_hide_real_recording() {
    let mut feedback = Feedback::new();
    let old = feedback.begin_preview().unwrap();
    assert!(feedback.advance("preparing").0);
    assert!(!feedback.finish_preview(old));
    assert_eq!(feedback.phase(), "preparing");
}

#[test]
fn preview_expires_without_changing_real_pipeline() {
    let mut feedback = Feedback::new();
    let generation = feedback.begin_preview().unwrap();
    assert!(feedback.previewing());
    assert!(feedback.finish_preview(generation));
    assert_eq!(feedback.phase(), "idle");
    assert!(!feedback.finish_preview(generation));
}

#[test]
fn preview_is_refused_while_recording_and_errors_clear_on_restart() {
    let mut feedback = Feedback::new();
    feedback.advance("recording");
    assert_eq!(
        feedback.begin_preview(),
        Err("Finish recording before previewing".to_string())
    );
    feedback.pipeline_error();
    assert!(feedback.failed());
    feedback.advance("idle");
    assert!(!feedback.failed());
    assert!(edge_hidden(false, false, "idle", true));
    assert!(!edge_hidden(false, false, "recording", true));
    assert!(edge_hidden(false, false, "recording", false));
}

#[test]
fn login_item_status_defers_to_the_legacy_agent_unless_registered() {
    assert_eq!(login_item_state(None), Ok(None));
    assert_eq!(login_item_state(Some(Ok(1))), Ok(Some(true)));
    assert_eq!(login_item_state(Some(Ok(2))), Ok(None));
    assert_eq!(login_item_state(Some(Ok(0))), Ok(None));
    assert_eq!(
        login_item_state(Some(Ok(7))),
        Err("Unknown macOS login item status".to_string())
    );
    assert_eq!(login_item_state(Some(Err("x".into()))), Err("x".to_string()));
}

#[test]
fn feature_flags_default_on_and_dock_follows_window() {
    assert!(enabled(None));
    assert!(!enabled(Some(false)));
    assert_eq!(activation_policy(false, true), None);
    assert_eq!(activation_policy(true, true), Some(ActivationPolicy::Regular));
    assert_eq!(activation_policy(true, false), Some(ActivationPolicy::Accessory));
}
