use h_opentypeless::digest::StreamDigest;
use h_opentypeless::audio_ducking::{
    initial_status, settings_change, update_status, BeginStep, Config as DuckingConfig, Mode,
    Owners, Schedule, TickPlan,
};
use h_opentypeless::credential::{
    check_helper, check_reply, check_request, credential_input, reply_from_output, reply_outcome, ReplyError,
};
use h_opentypeless::local_llm::{
    blob_chunk, blob_file_name, blob_response, blob_start, blobs_to_delete, capped_ms, hashed_blob,
    local_endpoint, model_index, ready_selection, runtime_version_ok, selected_installed, settled,
    startup_step, test_reply, Blob, BlobStart, Model, StartupProbe, StartupStep,
};
use h_opentypeless::mobile::{
    parse_ipv4, polish_outcome, private_addresses, processed_reply, raw_result, screen_request,
    socket, supported, Config as MobileConfig, Processed, WhisperProviders,
};

#[test]
fn default_config_is_off_at_twenty_percent() {
    let config = DuckingConfig::default();
    assert_eq!(config.volume_percent, 20);
    assert_eq!(config.mode, Mode::Off);
    assert_eq!(Mode::default(), Mode::Off);
}

#[test]
fn confirmed_success_clears_previous_warning() {
    let mut status = initial_status(DuckingConfig { mode: Mode::Reduce, volume_percent: 20 });
    update_status(&mut status, false, Err("device disconnected".into()));
    assert!(status.warning.is_some());
    update_status(&mut status, false, Ok(()));
    assert!(status.warning.is_none());
}

#[test]
fn stored_volume_is_capped_and_settings_are_validated() {
    let status = initial_status(DuckingConfig { mode: Mode::Mute, volume_percent: 180 });
    assert_eq!(status.volume_percent, 100);
    assert_eq!(
        settings_change(&status, Mode::Reduce, Some(101)),
        Err("Volume percentage must be between 0 and 100".to_string())
    );
    assert_eq!(
        settings_change(&status, Mode::Reduce, None),
        Ok(DuckingConfig { mode: Mode::Reduce, volume_percent: 100 })
    );
}

#[test]
fn first_owner_starts_and_last_owner_ends_attenuation() {
    let mut owners = Owners::new();
    assert!(owners.begin("dictation"));
    assert!(!owners.begin("ask"));
    assert!(!owners.begin("dictation"));
    assert!(!owners.end("dictation"));
    assert!(owners.end("ask"));
    assert!(owners.end("tutorial"));
}

#[test]
fn invalid_percentage_is_rejected_before_any_device_work() {
    let schedule = Schedule::new();
    assert_eq!(schedule.begin(Mode::Reduce, 101), BeginStep::Reject);
}

#[test]
fn disabled_begin_never_touches_the_device() {
    let schedule = Schedule::new();
    assert_eq!(schedule.begin(Mode::Off, 20), BeginStep::Disabled);
}

#[test]
fn duplicate_start_does_not_begin_again() {
    let mut schedule = Schedule::new();
    assert_eq!(schedule.begin(Mode::Reduce, 20), BeginStep::Recover);
    schedule.recovering();
    schedule.started(Mode::Reduce, 20);
    assert_eq!(schedule.begin(Mode::Reduce, 20), BeginStep::AlreadyActive);
    assert_eq!(schedule.tick(), TickPlan::Follow);
}

#[test]
fn restore_retries_end_after_four_failed_ticks() {
    let mut schedule = Schedule::new();
    schedule.started(Mode::Reduce, 20);
    schedule.journaled();
    schedule.end();
    for _ in 0..4 {
        assert!(schedule.has_tick_work());
        assert_eq!(schedule.tick(), TickPlan::RetryRestore);
    }
    assert!(!schedule.has_tick_work());
    assert_eq!(schedule.tick(), TickPlan::Idle);
    assert!(schedule.recovery_pending());
    schedule.recovering();
    schedule.restored();
    assert!(!schedule.recovery_pending());
    assert!(!schedule.has_tick_work());
}

#[test]
fn only_explicit_private_bindings() {
    for address in ["127.0.0.1", "192.168.0.123", "10.1.2.3", "172.16.0.1"] {
        assert!(socket(&MobileConfig { address: address.into(), ..Default::default() }).is_ok());
    }
    for address in ["0.0.0.0", "8.8.8.8", "::", "localhost", "169.254.1.1", "172.32.0.1"] {
        assert!(socket(&MobileConfig { address: address.into(), ..Default::default() }).is_err());
    }
}

#[test]
fn ipv4_text_is_parsed_strictly() {
    assert_eq!(parse_ipv4("192.168.0.1"), Some((192, 168, 0, 1)));
    assert_eq!(parse_ipv4("010.0.0.1"), None);
    assert_eq!(parse_ipv4("1.2.3"), None);
    assert_eq!(parse_ipv4("1.2.3.4."), None);
    assert_eq!(parse_ipv4("256.1.1.1"), None);
    assert_eq!(parse_ipv4("+1.2.3.4"), None);
    let zero_port = MobileConfig { address: "127.0.0.1".into(), port: 0, enabled: true };
    assert!(socket(&zero_port).is_err());
}

#[test]
fn offered_addresses_are_private_sorted_and_unique() {
    let listed = private_addresses(&vec![
        (192, 168, 0, 9),
        (8, 8, 8, 8),
        (10, 0, 0, 2),
        (192, 168, 0, 9),
        (127, 0, 0, 1),
    ]);
    assert_eq!(listed, vec!["10.0.0.2", "127.0.0.1", "192.168.0.9"]);
}

#[test]
fn upload_requests_are_screened_in_order() {
    assert_eq!(screen_request(true, Some("android-v1"), true, false).err().unwrap().status, 403);
    assert_eq!(screen_request(false, None, true, false).err().unwrap().status, 403);
    assert_eq!(screen_request(false, Some("android-v1"), false, false).err().unwrap().status, 429);
    assert_eq!(screen_request(false, Some("android-v1"), true, true).err().unwrap().status, 503);
    assert!(screen_request(false, Some("android-v1"), true, false).is_ok());
    assert_eq!(processed_reply(Processed::Failed("x".into())).err().unwrap().status, 502);
    assert_eq!(processed_reply(Processed::TimedOut).err().unwrap().status, 504);
    assert_eq!(processed_reply(Processed::Stopped).err().unwrap().status, 503);
}

#[test]
fn mobile_polish_falls_back_to_the_transcript() {
    let mut result = raw_result("원문");
    polish_outcome(&mut result, Some("   ".into()));
    assert_eq!(result.polished_text, "원문");
    assert_eq!(
        result.warning.as_deref(),
        Some("AI 다듬기에 실패하여 음성 인식 원문을 표시합니다.")
    );
    let mut result = raw_result("원문");
    polish_outcome(&mut result, Some("교정문".into()));
    assert_eq!(result.polished_text, "교정문");
    assert!(result.warning.is_none());
    let providers = WhisperProviders { custom: "custom-whisper".into(), compatible: vec!["groq".into()] };
    assert!(supported("custom-whisper", &providers));
    assert!(supported("groq", &providers));
    assert!(!supported("deepgram", &providers));
}

fn blob(digest: &str, size: u64) -> Blob {
    Blob { digest: digest.into(), size }
}

fn model(id: &str, files: Vec<Blob>) -> Model {
    Model {
        id: id.into(),
        name: id.into(),
        tag: format!("gemma4:{id}"),
        manifest: "{}".into(),
        sha256: String::new(),
        files,
    }
}

#[test]
fn unknown_models_and_shared_blobs() {
    let catalog = vec![
        model("e2b", vec![blob("sha256:aa", 1), blob("sha256:lic", 2)]),
        model("12b", vec![blob("sha256:bb", 3), blob("sha256:lic", 2)]),
    ];
    for id in ["../12b", "gemma4:12b", "31b-cloud", "http://example.com", "qwen3"] {
        assert!(model_index(&catalog, id).is_err());
    }
    assert_eq!(model_index(&catalog, "12b"), Ok(1));
    assert_eq!(blobs_to_delete(&catalog, &catalog[1]), vec![0]);
    assert_eq!(blob_file_name("sha256:aa"), "sha256-aa");
}

#[test]
fn blob_digest_must_match_its_pin() {
    let hello = blob(
        "sha256:2cf24dba5fb0a30e26e83b2ac5b9e29e1b161e5c1fa7425e73043362938b9824",
        5,
    );
    let fed = |parts: &[&[u8]]| {
        let mut d = StreamDigest::new();
        for p in parts {
            d.update(p);
        }
        d
    };
    assert!(hashed_blob(fed(&[b"he", b"llo"]), &hello, (5, 1), (5, 1)).is_ok());
    assert!(hashed_blob(fed(&[b"hello"]), &hello, (5, 1), (5, 1)).is_ok());
    assert_eq!(
        hashed_blob(fed(&[b"hello"]), &hello, (5, 1), (5, 2)),
        Err("Model changed during verification".to_string())
    );
    assert_eq!(
        hashed_blob(fed(&[b"jel", b"lo"]), &hello, (5, 1), (5, 1)),
        Err("Model checksum mismatch; delete and download again".to_string())
    );
}

#[test]
fn blob_downloads_resume_exactly() {
    assert!(matches!(blob_start(Some(9), 5), BlobStart::Discard));
    assert!(matches!(blob_start(Some(5), 5), BlobStart::Complete));
    match blob_start(None, 5) {
        BlobStart::Fetch(offset, header) => {
            assert_eq!(offset, 0);
            assert_eq!(header, "bytes=0-");
        }
        _ => panic!("expected fetch"),
    }
    assert_eq!(blob_response(true, Some("bytes 2-4/5"), 2, 5), Ok(2));
    assert!(blob_response(true, None, 2, 5).is_err());
    assert_eq!(blob_response(false, None, 2, 5), Ok(0));
    assert_eq!(
        blob_chunk(4, 2, 5),
        Err("Download exceeds catalog size".to_string())
    );
    assert_eq!(local_endpoint("http://127.0.0.1:4000"), "http://127.0.0.1:4000/v1");
    assert!(runtime_version_ok(Some("0.34.0")));
    assert!(!runtime_version_ok(Some("0.35.0")));
    assert_eq!(capped_ms(u128::MAX), u32::MAX);
}

#[test]
fn credential_helper_is_pinned_and_bounded() {
    assert!(check_helper(b"hello", "2cf24dba5fb0a30e26e83b2ac5b9e29e1b161e5c1fa7425e73043362938b9824").is_ok());
    assert!(check_helper(b"jello", "2cf24dba5fb0a30e26e83b2ac5b9e29e1b161e5c1fa7425e73043362938b9824").is_err());
    assert!(check_request(65536).is_ok());
    assert!(check_request(65537).is_err());
    assert!(check_reply(65537).is_err());
    assert_eq!(reply_outcome(true, ReplyError::Absent, Some("v".into())), Ok(Some("v".to_string())));
    assert_eq!(
        reply_outcome(true, ReplyError::Text("denied".into()), None),
        Err("denied".to_string())
    );
    assert_eq!(
        reply_outcome(false, ReplyError::Absent, None),
        Err("Keychain operation failed".to_string())
    );
}

#[test]
fn runtime_startup_follows_the_probe() {
    assert!(matches!(startup_step(StartupProbe::NoAnswer, 0), StartupStep::Poll));
    assert!(matches!(
        startup_step(StartupProbe::Answered(Some("0.34.0".to_string())), 500),
        StartupStep::Settle
    ));
    let fail = |s: StartupStep| match s {
        StartupStep::Fail(m) => m,
        _ => panic!("startup should fail"),
    };
    assert_eq!(fail(startup_step(StartupProbe::Exited, 10)), "Ollama failed to start");
    assert_eq!(
        fail(startup_step(StartupProbe::Answered(Some("0.33.0".to_string())), 10)),
        "Unexpected Ollama runtime version"
    );
    assert_eq!(
        fail(startup_step(StartupProbe::Answered(None), 10)),
        "Unexpected Ollama runtime version"
    );
    assert_eq!(fail(startup_step(StartupProbe::NoAnswer, 60000)), "Ollama startup timed out");
    assert_eq!(settled(true).unwrap_err(), "Ollama failed to bind its private port");
    assert!(settled(false).is_ok());
}

#[test]
fn runtime_requests_need_a_selected_complete_model() {
    assert_eq!(ready_selection(true, Some("m".to_string())).unwrap_err(), "App is shutting down");
    assert_eq!(ready_selection(false, None).unwrap_err(), "Select a downloaded LLM model first");
    assert_eq!(ready_selection(false, Some("m".to_string())).unwrap(), "m");
    assert_eq!(selected_installed(false).unwrap_err(), "Selected LLM is missing or incomplete");
    assert!(selected_installed(true).is_ok());
    assert!(test_reply(Some("안녕")).is_ok());
    assert_eq!(test_reply(Some("")).unwrap_err(), "Model returned no text");
    assert_eq!(test_reply(None).unwrap_err(), "Model returned no text");
}

#[test]
fn helper_request_is_json_within_bounds() {
    let input = credential_input("get", "openai", None).unwrap();
    assert_eq!(input, br#"{"account":"openai","op":"get","value":null}"#.to_vec());
    let input = credential_input("set", "a\"b", Some("k")).unwrap();
    assert_eq!(input, br#"{"account":"a\"b","op":"set","value":"k"}"#.to_vec());
    let big = "x".repeat(70000);
    assert_eq!(credential_input("set", "openai", Some(&big)), Err("Credential request too large".to_string()));
}

#[test]
fn helper_reply_is_read_from_its_bytes() {
    assert_eq!(reply_from_output(true, br#"{"value":"secret"}"#), Ok(Some("secret".to_string())));
    assert_eq!(reply_from_output(true, br#"{"value":null}"#), Ok(None));
    assert_eq!(reply_from_output(true, br#"{"error":"denied"}"#), Err("denied".to_string()));
    assert_eq!(reply_from_output(true, br#"{"error":7}"#), Err("Keychain operation failed".to_string()));
    assert_eq!(reply_from_output(false, br#"{}"#), Err("Keychain operation failed".to_string()));
    assert_eq!(reply_from_output(true, b"not json"), Err("Invalid keychain helper response".to_string()));
    assert_eq!(
        reply_from_output(true, &vec![b' '; 65537]),
        Err("Keychain response too large".to_string())
    );
}
