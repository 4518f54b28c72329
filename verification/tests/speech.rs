use h_opentypeless::digest::StreamDigest;
use h_opentypeless::local_stt::Stamp;
use h_opentypeless::local_stt::{
    accept_chunk, check_audio, check_digest, check_download, check_size, download_gate, select_gate, selected_model, Model, download_response, engine_output, expected_content_range,
    final_audio, qwen_language, range_request, requested_language, resume_from, verify_contents,
    ModelFile, MAX_AUDIO,
};
use h_opentypeless::preview::{append, keeps_pace, Segmenter, FRAME, MAX_SEGMENT, MIN_VOICE};
use h_opentypeless::stt_engine::{
    active_engine, check_tokenizer, engine_flags, linux_memory_gb, macos_memory_gb, mlx_frame_len,
    mlx_platform_reason, mlx_reply, model_argument, probe_failure, qwen_supported_macos, weight_files,
    worker_reusable,
};
use h_opentypeless::wav::{pcm, wav_file};

fn wave() -> Vec<u8> {
    let mut b = Vec::from(&b"RIFF"[..]);
    b.extend(40u32.to_le_bytes());
    b.extend(b"WAVEfmt ");
    b.extend(16u32.to_le_bytes());
    b.extend([1, 0, 1, 0]);
    b.extend(16000u32.to_le_bytes());
    b.extend(32000u32.to_le_bytes());
    b.extend([2, 0, 16, 0]);
    b.extend(b"data");
    b.extend(4u32.to_le_bytes());
    b.extend([1, 0, 2, 0]);
    b
}

#[test]
fn valid_audio_and_malformed_layouts() {
    let b = wave();
    assert_eq!(pcm(&b).unwrap(), [1, 0, 2, 0]);
    for index in [0, 4, 8, 20, 22, 24, 28, 32, 34, 40] {
        let mut broken = b.clone();
        broken[index] ^= 128;
        assert!(pcm(&broken).is_err(), "index {index}");
    }
    assert!(pcm(&b[..43]).is_err());
}

#[test]
fn only_forced_boundaries_remove_overlap() {
    let mut t = "취소 버튼".to_string();
    append(&mut t, "버튼을 추가해 주세요", true);
    assert_eq!(t, "취소 버튼을 추가해 주세요");
    append(&mut t, "추가해 주세요", false);
    assert!(t.ends_with("주세요 추가해 주세요"));
}

#[test]
fn blank_and_repeated_parts_leave_preview_unchanged() {
    let mut t = String::new();
    append(&mut t, "  ", false);
    assert_eq!(t, "");
    append(&mut t, " 설정 버튼 ", false);
    assert_eq!(t, "설정 버튼");
    append(&mut t, "설정 버튼", false);
    assert_eq!(t, "설정 버튼 설정 버튼");
    append(&mut t, "버튼", true);
    assert_eq!(t, "설정 버튼 설정 버튼");
}

#[test]
fn silence_and_short_noise_do_not_create_segments() {
    let mut s = Segmenter::new();
    assert!(s.next(&vec![0; 32000]).is_none());
    for i in 0..60 {
        assert!(s.step(i < 3).is_none());
    }
}

#[test]
fn silence_closes_utterance_with_preroll() {
    let mut s = Segmenter::new();
    for _ in 0..20 {
        s.step(false);
    }
    for _ in 0..10 {
        assert!(s.step(true).is_none());
    }
    for _ in 0..43 {
        assert!(s.step(false).is_none());
    }
    let (start, end, overlap) = s.step(false).unwrap();
    assert_eq!((start, end), (FRAME, 74 * FRAME));
    assert!(!overlap);
}

#[test]
fn long_speech_is_bounded_and_overlap_is_explicit() {
    let mut s = Segmenter::new();
    let mut results = Vec::new();
    for _ in 0..1600 {
        if let Some(r) = s.step(true) {
            results.push(r);
        }
    }
    assert_eq!(results.len(), 2);
    assert_eq!(results[0].1 - results[0].0, MAX_SEGMENT);
    assert!(!results[0].2);
    assert!(results[1].2);
}

#[test]
fn arbitrary_byte_chunks_and_silence_are_bounded() {
    let mut s = Segmenter::new();
    let mut pcm = Vec::new();
    for _ in 0..1000 {
        pcm.extend_from_slice(&[0; 73]);
        assert!(s.next(&pcm).is_none());
    }
    assert!(pcm.len() - s.cursor() < FRAME);
}

#[test]
fn voiced_frames_below_the_minimum_are_dropped() {
    let mut s = Segmenter::new();
    for _ in 0..(MIN_VOICE - 1) {
        assert!(s.step(true).is_none());
    }
    for _ in 0..60 {
        assert!(s.step(false).is_none());
    }
}

#[test]
fn preview_keeps_pace_with_audio_or_stops() {
    assert!(keeps_pace(2000, 0));
    assert!(!keeps_pace(2001, 32000));
    assert!(keeps_pace(3000, 96000));
    assert!(!keeps_pace(3001, 96000));
}

fn file(body: &[u8], digest: &str) -> ModelFile {
    ModelFile {
        name: "model.bin".into(),
        url: String::new(),
        size: body.len() as u64,
        sha256: digest.into(),
    }
}

#[test]
fn verifies_content_not_only_size() {
    let f = file(
        b"hello",
        "2cf24dba5fb0a30e26e83b2ac5b9e29e1b161e5c1fa7425e73043362938b9824",
    );
    assert!(verify_contents(b"hello", &f).is_ok());
    assert_eq!(
        verify_contents(b"jello", &f),
        Err("Model checksum mismatch; download again".to_string())
    );
    assert_eq!(
        verify_contents(b"hell", &f),
        Err("Download incomplete; resume to continue".to_string())
    );
    assert!(check_download(5, &f, "2cf24dba5fb0a30e26e83b2ac5b9e29e1b161e5c1fa7425e73043362938b9824").is_ok());
}

#[test]
fn download_resumes_only_an_exact_range() {
    assert_eq!(resume_from(Some(2), 5), (2, false));
    assert_eq!(resume_from(Some(6), 5), (0, true));
    assert_eq!(resume_from(None, 5), (0, false));
    assert_eq!(range_request(2).unwrap(), "bytes=2-");
    assert!(range_request(0).is_none());
    assert_eq!(expected_content_range(2, 5), "bytes 2-4/5");
    assert_eq!(download_response(206, Some("bytes 2-4/5"), 2, 5), Ok((true, 2)));
    assert_eq!(
        download_response(206, Some("bytes 1-3/5"), 2, 5),
        Err("Invalid download range".to_string())
    );
    assert_eq!(download_response(200, None, 2, 5), Ok((false, 0)));
    assert_eq!(
        download_response(204, None, 2, 5),
        Err("Unexpected download response".to_string())
    );
    assert_eq!(accept_chunk(2, 3, 5), Ok(5));
    assert_eq!(
        accept_chunk(2, 4, 5),
        Err("Model exceeds expected size".to_string())
    );
}

#[test]
fn pcm_requires_connection_and_is_bounded() {
    assert!(check_audio(false, 0, 2).is_err());
    assert!(check_audio(true, MAX_AUDIO, 2).is_err());
    assert!(check_audio(true, MAX_AUDIO - 2, 2).is_ok());
    assert_eq!(final_audio(&[]).unwrap(), false);
    assert!(final_audio(&[1, 0, 2]).is_err());
    assert_eq!(final_audio(&[0, 0, 0, 0]).unwrap(), false);
    assert_eq!(final_audio(&[0, 0, 1, 0]).unwrap(), true);
}

#[test]
fn output_is_bounded() {
    assert!(engine_output(vec![b'x'; 70000]).is_err());
    assert_eq!(engine_output(b"  hello \n".to_vec()).unwrap(), "hello");
    assert_eq!(engine_output(vec![0xff]), Err("Invalid STT output".to_string()));
}

#[test]
fn qwen_languages_follow_the_bundled_table() {
    assert_eq!(qwen_language("ko").unwrap(), "Korean");
    assert_eq!(qwen_language("zh-TW").unwrap(), "Chinese");
    assert_eq!(qwen_language("fil").unwrap(), "Filipino");
    assert!(qwen_language("xx").is_err());
    assert_eq!(requested_language(Some("auto")), None);
    assert_eq!(requested_language(Some("multi")), None);
    assert_eq!(requested_language(Some("ko")), Some("ko".to_string()));
}

#[test]
fn mlx_frames_over_the_limit_are_refused() {
    assert!(mlx_frame_len(65537).is_err());
    assert_eq!(mlx_frame_len(10), Ok(10));
}

#[test]
fn engine_choice_and_platform_text() {
    assert_eq!(active_engine(false, "auto", false, false, false), "cpu");
    assert_eq!(active_engine(true, "auto", true, true, false), "cpu");
    assert_eq!(active_engine(true, "mlx", true, true, false), "unavailable");
    assert_eq!(active_engine(true, "auto", false, false, true), "mlx");
    assert_eq!(active_engine(true, "auto", false, false, false), "checking");
    assert!(worker_reusable(true, 115_000, false));
    assert!(!worker_reusable(true, 115_001, false));
    assert!(qwen_supported_macos("13.3\n"));
    assert!(qwen_supported_macos("14.0"));
    assert!(!qwen_supported_macos("13.2.1"));
    assert!(qwen_supported_macos("13.x.3"));
    assert!(!qwen_supported_macos(""));
    assert_eq!(
        mlx_platform_reason(true, true, Some("13.6")),
        Some("MLX requires macOS 14 or later".to_string())
    );
    assert_eq!(mlx_platform_reason(true, true, Some("15.1")), None);
    assert!(mlx_platform_reason(false, true, None).is_some());
    assert_eq!(
        linux_memory_gb("MemFree: 10 kB\nMemTotal:       16318360 kB\n"),
        Some(16)
    );
    assert_eq!(linux_memory_gb("MemFree: 10 kB\n"), None);
    assert_eq!(macos_memory_gb("17179869184\n"), Some(16));
}

#[test]
fn file_stamps_compare_every_part() {
    let a = Stamp::new(5, 10, "abc", Some((1, 2, 3, 4)));
    assert!(a.same(&Stamp::new(5, 10, "abc", Some((1, 2, 3, 4)))));
    assert!(!a.same(&Stamp::new(5, 11, "abc", Some((1, 2, 3, 4)))));
    assert!(!a.same(&Stamp::new(5, 10, "abd", Some((1, 2, 3, 4)))));
    assert!(!a.same(&Stamp::new(5, 10, "abc", None)));
}

#[test]
fn segmenter_cursor_moves_by_whole_frames() {
    let mut s = Segmenter::new();
    assert!(s.next(&vec![0; FRAME * 3 + 100]).is_none());
    assert_eq!(s.cursor(), FRAME * 3);
    assert!(s.step(false).is_none());
    assert_eq!(s.cursor(), FRAME * 4);
}

#[test]
fn whisper_flags_default_to_automatic_language() {
    let flags = engine_flags("whisper", Some("auto")).unwrap();
    assert_eq!(
        flags,
        vec!["-f", "-", "-of", "transcript", "-nt", "-np", "-t", "4", "-l", "auto"]
    );
    let flags = engine_flags("whisper", Some("ko")).unwrap();
    assert_eq!(flags.last().unwrap(), "ko");
}

#[test]
fn qwen_flags_name_the_language() {
    assert_eq!(
        engine_flags("qwen", None).unwrap(),
        vec!["--stdin", "--silent", "-t", "4", "-S", "20"]
    );
    assert_eq!(
        engine_flags("qwen", Some("multi")).unwrap(),
        vec!["--stdin", "--silent", "-t", "4", "-S", "20"]
    );
    let flags = engine_flags("qwen", Some("en")).unwrap();
    assert_eq!(&flags[6..], &["--language".to_string(), "English".to_string()]);
    assert!(engine_flags("qwen", Some("xx")).is_err());
}

#[test]
fn worker_replies_are_checked_and_trimmed() {
    assert_eq!(mlx_reply(true, true, Some("  hello \n")).unwrap(), "hello");
    assert_eq!(
        mlx_reply(false, true, Some("x")).unwrap_err(),
        "MLX transcription failed. Retry or select CPU in built-in STT settings."
    );
    assert_eq!(
        mlx_reply(true, false, Some("x")).unwrap_err(),
        "MLX transcription failed. Retry or select CPU in built-in STT settings."
    );
    assert_eq!(mlx_reply(true, true, None).unwrap_err(), "Invalid MLX text response");
}

#[test]
fn probe_failures_offer_cpu() {
    assert_eq!(
        probe_failure("GPU probe timed out"),
        "GPU probe timed out. Retry or select CPU in built-in STT settings."
    );
}

#[test]
fn only_safetensors_are_weights() {
    let named = |n: &str| ModelFile {
        name: n.to_string(),
        url: String::new(),
        size: 0,
        sha256: String::new(),
    };
    let files = vec![
        named("config.json"),
        named("model-00001.safetensors"),
        named("safetensors"),
        named("model-00002.safetensors"),
    ];
    assert_eq!(
        weight_files(&files),
        vec!["model-00001.safetensors", "model-00002.safetensors"]
    );
}

fn stt_catalog() -> Vec<Model> {
    ["whisper-small", "qwen3-asr"]
        .iter()
        .map(|id| Model {
            id: id.to_string(),
            name: id.to_string(),
            engine: "whisper".to_string(),
            recommended_ram_gb: 8,
            license: "MIT".to_string(),
            files: Vec::new(),
        })
        .collect()
}

#[test]
fn model_operations_are_gated() {
    assert_eq!(
        download_gate(false, false).unwrap_err(),
        "This build does not include this platform's engine"
    );
    assert_eq!(download_gate(true, true).unwrap_err(), "STT is busy");
    assert!(download_gate(true, false).is_ok());
    let catalog = stt_catalog();
    assert_eq!(select_gate(true, &catalog, "qwen3-asr", true, true).unwrap_err(), "STT is busy");
    assert_eq!(select_gate(false, &catalog, "nope", true, true).unwrap_err(), "Unknown model");
    assert_eq!(
        select_gate(false, &catalog, "qwen3-asr", true, false).unwrap_err(),
        "Download a supported model first"
    );
    assert_eq!(select_gate(false, &catalog, "qwen3-asr", true, true).unwrap(), 1);
}

#[test]
fn stale_selection_is_ignored() {
    let catalog = stt_catalog();
    assert_eq!(
        selected_model(&catalog, Some("whisper-small".to_string())),
        Some("whisper-small".to_string())
    );
    assert_eq!(selected_model(&catalog, Some("retired".to_string())), None);
    assert_eq!(selected_model(&catalog, None), None);
}

#[test]
fn tokenizers_are_pinned_by_digest() {
    let abc = "ba7816bf8f01cfea414140de5dae2223b00361a396177a9cb410ff61f20015ad";
    assert!(check_tokenizer(Some(abc), b"abc").is_ok());
    assert_eq!(check_tokenizer(Some(abc), b"abd").unwrap_err(), "Tokenizer checksum mismatch");
    assert_eq!(check_tokenizer(Some(""), b"abc").unwrap_err(), "Tokenizer checksum mismatch");
    assert_eq!(check_tokenizer(None, b"abc").unwrap_err(), "Missing tokenizer manifest");
}

#[test]
fn files_are_checked_in_chunks() {
    let f = file(
        b"hello",
        "2cf24dba5fb0a30e26e83b2ac5b9e29e1b161e5c1fa7425e73043362938b9824",
    );
    assert!(check_size(5, &f).is_ok());
    assert_eq!(check_size(4, &f), Err("Download incomplete; resume to continue".to_string()));
    let mut d = StreamDigest::new();
    d.update(b"h");
    d.update(b"");
    d.update(b"ello");
    assert!(check_digest(d, &f).is_ok());
    let mut d = StreamDigest::new();
    d.update(b"hellp");
    assert_eq!(check_digest(d, &f), Err("Model checksum mismatch; download again".to_string()));
    let mut d = StreamDigest::new();
    d.update(b"ab");
    d.update(b"c");
    assert_eq!(
        d.finish_hex(),
        "ba7816bf8f01cfea414140de5dae2223b00361a396177a9cb410ff61f20015ad"
    );
}

#[test]
fn written_wav_reads_back() {
    let samples: Vec<u8> = (0..64u8).collect();
    let file = wav_file(&samples);
    assert_eq!(file.len(), 44 + samples.len());
    assert_eq!(&file[..4], b"RIFF");
    assert_eq!(&file[4..8], &(36 + samples.len() as u32).to_le_bytes());
    assert_eq!(pcm(&file).unwrap(), &samples[..]);
}

#[test]
fn engines_find_their_model() {
    let mut m = stt_catalog().remove(0);
    m.files.push(ModelFile { name: "ggml-small.bin".into(), url: String::new(), size: 1, sha256: String::new() });
    assert_eq!(model_argument(&m), ("-m", Some("ggml-small.bin".to_string())));
    m.engine = "qwen".into();
    assert_eq!(model_argument(&m), ("-d", None));
}

#[test]
fn segmenter_judges_the_frames_at_its_cursor() {
    let mut samples: Vec<i16> = Vec::new();
    for i in 0..16000 * 3 {
        let t = i as f32 / 16000.0;
        let voiced = i < 16000 * 2 || i >= 16000 * 5 / 2;
        let v = if voiced { (t * 220.0 * 6.2831).sin() * 9000.0 + (t * 660.0 * 6.2831).sin() * 3000.0 } else { 0.0 };
        samples.push(v as i16);
    }
    let pcm: Vec<u8> = samples.iter().flat_map(|s| s.to_le_bytes()).collect();
    let mut a = Segmenter::new();
    let mut from_next = Vec::new();
    while let Some(seg) = a.next(&pcm) {
        from_next.push(seg);
    }
    let mut detector = earshot::Detector::default();
    let mut b = Segmenter::new();
    let mut by_hand = Vec::new();
    let mut at = 0;
    while at + FRAME <= pcm.len() {
        let frame: Vec<i16> = samples[at / 2..at / 2 + 256].to_vec();
        let speech = detector.predict_i16(&frame) >= 0.5;
        if let Some(seg) = b.step(speech) {
            by_hand.push(seg);
        }
        at += FRAME;
    }
    assert_eq!(from_next, by_hand);
    assert_eq!(a.cursor(), b.cursor());
}
