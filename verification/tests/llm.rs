use h_opentypeless::dictation_guard::validate;
use h_opentypeless::error::AppError;
use h_opentypeless::history::{replay_provider, replay_request, repolish_result};
use h_opentypeless::polish::{
    after_attempt, deterministic_sampling, error_excerpt, selected_text_message, stream_line,
    thinking_model, EventStep, NextStep, PolishStream, SendResult, StreamLine,
};
use h_opentypeless::request::{ContextProfileSummary, PolishRequest, VoiceIntent, VoiceIntentKind};
use h_opentypeless::response_limits::{Lines, MAX_LINE, MAX_RESPONSE};

#[test]
fn replay_is_always_dictation_without_selection_translation_or_scene() {
    let r = replay_request(
        "질문에 답해줘".into(),
        "minimal".into(),
        vec![],
        vec![],
        "".into(),
    )
    .unwrap();
    assert_eq!(r.voice_intent.kind, VoiceIntentKind::DictateInsert);
    assert!(r.selected_text.is_none());
    assert!(!r.translate_enabled);
    assert!(r.active_scene_prompt.is_empty());
    assert!(r.mapped_scene_prompt.is_empty());
    assert_eq!(r.raw_text, "질문에 답해줘");
}

#[test]
fn replay_rejects_invalid_style_and_missing_source() {
    for (raw, style) in [(" ", "clean"), ("원문", "execute")] {
        assert!(replay_request(raw.into(), style.into(), vec![], vec![], "".into()).is_err());
    }
}

#[test]
fn replay_errors_name_the_failed_check() {
    let style = replay_request("원문".into(), "execute".into(), vec![], vec![], "".into());
    assert_eq!(style.err().unwrap(), "history.repolishInvalidStyle");
    let blank = replay_request(" \n".into(), "clean".into(), vec![], vec![], "".into());
    assert_eq!(blank.err().unwrap(), "history.repolishInvalidSource");
    let long = replay_request("가".repeat(20001), "clean".into(), vec![], vec![], "".into());
    assert_eq!(long.err().unwrap(), "history.repolishInvalidSource");
    assert!(replay_request("가".repeat(20000), "professional".into(), vec![], vec![], "".into()).is_ok());
}

#[test]
fn replay_needs_a_configured_non_cloud_provider() {
    assert!(replay_provider("ollama"));
    assert!(!replay_provider("cloud"));
    assert!(!replay_provider("  "));
}

#[test]
fn replay_result_records_only_the_prompt_digest() {
    let r = repolish_result(7, "done".into(), "m".into(), "clean".into(), "abc", 12);
    assert_eq!(
        r.prompt_sha256,
        "ba7816bf8f01cfea414140de5dae2223b00361a396177a9cb410ff61f20015ad"
    );
    assert_eq!(r.history_id, 7);
    assert_eq!(r.elapsed_ms, 12);
}

#[test]
fn keeps_questions_requests_and_formatting() {
    for (raw, output) in [
        ("어 왜 안 되는 거야 알려줘", "왜 안 되는 거야? 알려줘"),
        ("하나 테스트 둘 배포 금지", "1. 테스트\n2. 배포 금지"),
        ("정답은 사십이야", "정답은 42야"),
    ] {
        assert!(validate(raw, output).is_ok());
    }
}

#[test]
fn rejects_empty_reasoning_and_large_expansion() {
    assert!(validate("질문", " ").is_err());
    assert!(validate("질문", "<think>설명을 생각해 보자").is_err());
    assert!(validate(
        "오프라인 STT는 어떻게 구현해",
        &"먼저 모델을 다운로드하고 실행합니다. ".repeat(20)
    )
    .is_err());
}

#[test]
fn korean_survives_every_byte_boundary() {
    let input = "data: {\"text\":\"한글과 🙂\"}\r\n\n";
    for split in 0..=input.len() {
        let mut lines = Lines::default();
        let mut actual = lines.push(&input.as_bytes()[..split]).unwrap();
        actual.extend(lines.push(&input.as_bytes()[split..]).unwrap());
        assert_eq!(actual.concat(), input);
    }
}

#[test]
fn newline_free_and_total_responses_are_bounded() {
    let mut lines = Lines::default();
    assert!(lines.push(&vec![b'x'; MAX_LINE + 1]).is_err());
    let mut lines = Lines::default();
    let chunk = vec![b'\n'; 1024];
    for _ in 0..MAX_RESPONSE / 1024 {
        lines.push(&chunk).unwrap();
    }
    assert!(lines.push(b"\n").is_err());
}

fn request() -> PolishRequest {
    PolishRequest {
        raw_text: "어 왜 안 되는 거야 알려줘".into(),
        context: ContextProfileSummary::general_native(),
        dictionary: vec![],
        correction_rules: vec![],
        polish_style: "clean".into(),
        mapped_scene_prompt: String::new(),
        active_scene_prompt: String::new(),
        polish_custom_prompt: String::new(),
        translate_enabled: false,
        target_lang: String::new(),
        selected_text: None,
        voice_intent: VoiceIntent::dictate_insert(),
    }
}

fn temperature(provider: &str, req: &PolishRequest) -> f64 {
    if deterministic_sampling(provider, req) {
        0.0
    } else {
        0.3
    }
}

#[test]
fn local_structured_sampling_does_not_change_other_operations() {
    let mut req = request();
    assert_eq!(temperature("ollama", &req), 0.3);
    req.polish_style = "structured".into();
    assert_eq!(temperature("ollama", &req), 0.0);
    for field in ["mapped", "manual", "selected", "translation", "ask"] {
        let mut other = request();
        other.polish_style = "structured".into();
        match field {
            "mapped" => other.mapped_scene_prompt = "Story".into(),
            "manual" => other.active_scene_prompt = "Story".into(),
            "selected" => other.selected_text = Some("Existing text".into()),
            "translation" => other.translate_enabled = true,
            _ => other.voice_intent.kind = VoiceIntentKind::OpenQuestion,
        }
        assert_eq!(temperature("ollama", &other), 0.3, "{field}");
    }
    assert_eq!(temperature("openai", &req), 0.3);
    assert_eq!(temperature(" OLLAMA ", &req), 0.0);
}

#[test]
fn retries_only_the_initial_connection_twice() {
    assert_eq!(after_attempt(&SendResult::Status(200), 0), NextStep::Use);
    assert_eq!(after_attempt(&SendResult::Status(503), 0), NextStep::Retry(1000));
    assert_eq!(after_attempt(&SendResult::Status(503), 1), NextStep::Retry(2000));
    assert_eq!(after_attempt(&SendResult::Status(503), 2), NextStep::Fail);
    assert_eq!(after_attempt(&SendResult::Status(401), 0), NextStep::Fail);
    assert_eq!(after_attempt(&SendResult::Timeout, 1), NextStep::Retry(2000));
    assert_eq!(after_attempt(&SendResult::Connect, 2), NextStep::Fail);
    assert_eq!(after_attempt(&SendResult::Failed, 0), NextStep::Fail);
}

#[test]
fn error_excerpt_never_splits_a_character() {
    assert_eq!(error_excerpt("short"), "short");
    let long = "x".repeat(300);
    assert_eq!(error_excerpt(&long).len(), 200);
    let korean = "가".repeat(100);
    assert_eq!(error_excerpt(&korean), "가".repeat(67));
    assert_eq!(error_excerpt(""), "");
}

#[test]
fn stream_lines_are_read_after_the_data_prefix() {
    assert!(matches!(stream_line("data: [DONE]\r\n"), StreamLine::Done));
    match stream_line("  data:   {\"a\":1}\n") {
        StreamLine::Data(d) => assert_eq!(d, "{\"a\":1}"),
        _ => panic!("expected data"),
    }
    assert!(matches!(stream_line(": keep-alive"), StreamLine::Skip));
    assert!(matches!(stream_line("event: x"), StreamLine::Skip));
}

#[test]
fn dictation_stream_is_validated_before_any_chunk_is_shown() {
    let mut guarded = PolishStream::new(true);
    assert!(!guarded.accept("왜 안 되는"));
    assert!(!guarded.accept(" 거야? 알려줘"));
    assert_eq!(
        guarded.finish("어 왜 안 되는 거야 알려줘").unwrap(),
        "왜 안 되는 거야? 알려줘"
    );
    let mut expanded = PolishStream::new(true);
    expanded.accept(&"새로운 해결 방법을 설명하겠습니다. ".repeat(30));
    assert!(matches!(expanded.finish("검색도 되면 좋겠어"), Err(AppError::Output(_))));
    let reasoning_only = PolishStream::new(false);
    match reasoning_only.finish("질문") {
        Err(AppError::Output(m)) => assert_eq!(m, "LLM returned no final text"),
        _ => panic!("expected no final text"),
    }
    let mut open = PolishStream::new(false);
    assert!(open.accept("chunk"));
    assert!(!open.accept(""));
}

#[test]
fn selection_is_fenced_and_glm_models_think() {
    assert_eq!(
        selected_text_message("old"),
        "<selected_text>\nold\n</selected_text>"
    );
    assert!(thinking_model("glm-4.7"));
    assert!(!thinking_model("gemma4"));
}

#[test]
fn stream_events_collect_show_and_stop() {
    let mut open = PolishStream::new(false);
    assert!(matches!(open.event(None, Some("안녕"), false), EventStep::Next { show: true, stop: false }));
    assert!(matches!(open.event(None, None, true), EventStep::Next { show: false, stop: true }));
    assert_eq!(open.finish("안녕").unwrap(), "안녕");

    let mut guarded = PolishStream::new(true);
    assert!(matches!(guarded.event(None, Some("hi"), false), EventStep::Next { show: false, stop: false }));
    match guarded.event(Some("rate limited".to_string()), Some("x"), false) {
        EventStep::Fail(AppError::Config(m)) => assert_eq!(m, "rate limited"),
        _ => panic!("an event error fails the request"),
    }
    assert_eq!(guarded.finish("hi").unwrap(), "hi");
}

#[test]
fn pushed_chunks_come_back_as_whole_lines() {
    let han = "\u{d55c}".as_bytes();
    let mut rest = han[1..].to_vec();
    rest.extend_from_slice(b"}\n\ndata: [DONE]\npartial");
    let chunks: Vec<Vec<u8>> = vec![b"data: {\"a\"".to_vec(), b"\n".to_vec(), han[..1].to_vec(), Vec::new(), rest];
    let mut lines = Lines::default();
    let mut out: Vec<String> = Vec::new();
    let mut fed: Vec<u8> = Vec::new();
    for c in &chunks {
        fed.extend_from_slice(c);
        out.extend(lines.push(c).unwrap());
    }
    assert_eq!(
        out,
        vec![
            "data: {\"a\"\n".to_string(),
            "\u{d55c}}\n".to_string(),
            "\n".to_string(),
            "data: [DONE]\n".to_string()
        ]
    );
    for l in &out {
        assert!(l.ends_with('\n') && l.matches('\n').count() == 1);
    }
    let joined: Vec<u8> = out.concat().into_bytes();
    assert_eq!(&fed[..joined.len()], &joined[..]);
    assert_eq!(&fed[joined.len()..], b"partial");
}
