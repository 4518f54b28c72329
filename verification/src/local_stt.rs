//! Built-in speech recognition: pinned model catalog, resumable verified
//! downloads, and the checks around one recording.
use crate::digest::{hex_lower, sha256, sha256_hex, StreamDigest};
use crate::error::AppError;
use crate::numeric::{decimal, push_decimal};
use crate::text::{chars_of, eq_lit, push_chars, string_from_utf8, string_of, trim, trim_chars};
use vstd::prelude::*;

verus! {

/// The provider id of the built-in engine.
pub const ID: &'static str = "builtin-stt";
/// Seconds allowed for a final transcription.
pub const FINALIZE_SECONDS: u64 = 90;
/// The longest recording accepted: 120 seconds of 16 kHz mono PCM16.
pub const MAX_AUDIO: usize = 120 * 16000 * 2;
/// The most engine output read back.
pub const MAX_ENGINE_OUTPUT: usize = 65536;

/// One pinned file of a model.
pub struct ModelFile {
    pub name: String,
    pub url: String,
    pub size: u64,
    pub sha256: String,
}

/// A downloadable speech model.
pub struct Model {
    pub id: String,
    pub name: String,
    pub engine: String,
    pub recommended_ram_gb: u32,
    pub license: String,
    pub files: Vec<ModelFile>,
}

/// Download progress shown while a model is fetched.
pub struct Progress {
    pub model: String,
    pub downloaded: u64,
    pub total: u64,
    pub phase: String,
    pub error: Option<String>,
}

/// A catalog entry with its state on this machine.
pub struct ModelStatus {
    pub model: Model,
    pub installed: bool,
    pub available: bool,
    pub partial_bytes: u64,
}

/// The whole built-in STT state shown in settings.
pub struct Status {
    pub memory_gb: Option<u64>,
    pub models: Vec<ModelStatus>,
    pub selected: Option<String>,
    pub progress: Progress,
    pub busy: bool,
}

/// The index of the catalog model with `id`, the first if several.
pub fn model_index(catalog: &Vec<Model>, id: &str) -> (r: Result<usize, String>)
    ensures
        r matches Ok(i) ==> i < catalog@.len() && catalog@[i as int].id@ == id@ && forall|k: int|
            0 <= k < i ==> #[trigger] catalog@[k].id@ != id@,
        r matches Err(m) ==> m@ == "Unknown model"@ && forall|k: int|
            0 <= k < catalog@.len() ==> #[trigger] catalog@[k].id@ != id@,
{
    let mut i: usize = 0;
    while i < catalog.len()
        invariant
            i <= catalog@.len(),
            forall|k: int| 0 <= k < i ==> #[trigger] catalog@[k].id@ != id@,
        decreases catalog@.len() - i,
    {
        let c = chars_of(catalog[i].id.as_str());
        if eq_lit(&c, id) {
            return Ok(i);
        }
        i = i + 1;
    }
    Err(String::from_str("Unknown model"))
}

/// The language name the bundled Qwen engine expects for a language code.
pub open spec fn qwen_name(lang: Seq<char>) -> Option<Seq<char>> {
    if lang == "ko"@ {
        Some("Korean"@)
    } else if lang == "en"@ {
        Some("English"@)
    } else if lang == "zh"@ || lang == "zh-CN"@ || lang == "zh-TW"@ {
        Some("Chinese"@)
    } else if lang == "ja"@ {
        Some("Japanese"@)
    } else if lang == "de"@ {
        Some("German"@)
    } else if lang == "fr"@ {
        Some("French"@)
    } else if lang == "es"@ {
        Some("Spanish"@)
    } else if lang == "it"@ {
        Some("Italian"@)
    } else if lang == "pt"@ {
        Some("Portuguese"@)
    } else if lang == "ru"@ {
        Some("Russian"@)
    } else if lang == "ar"@ {
        Some("Arabic"@)
    } else if lang == "hi"@ {
        Some("Hindi"@)
    } else if lang == "id"@ {
        Some("Indonesian"@)
    } else if lang == "tr"@ {
        Some("Turkish"@)
    } else if lang == "vi"@ {
        Some("Vietnamese"@)
    } else if lang == "th"@ {
        Some("Thai"@)
    } else if lang == "nl"@ {
        Some("Dutch"@)
    } else if lang == "pl"@ {
        Some("Polish"@)
    } else if lang == "sv"@ {
        Some("Swedish"@)
    } else if lang == "da"@ {
        Some("Danish"@)
    } else if lang == "fi"@ {
        Some("Finnish"@)
    } else if lang == "el"@ {
        Some("Greek"@)
    } else if lang == "hu"@ {
        Some("Hungarian"@)
    } else if lang == "cs"@ {
        Some("Czech"@)
    } else if lang == "ro"@ {
        Some("Romanian"@)
    } else if lang == "fa"@ {
        Some("Persian"@)
    } else if lang == "ms"@ {
        Some("Malay"@)
    } else if lang == "fil"@ {
        Some("Filipino"@)
    } else if lang == "mk"@ {
        Some("Macedonian"@)
    } else {
        None
    }
}

pub open spec fn unsupported_language_message() -> Seq<char> {
    "This language is not supported by the bundled Qwen engine. Choose automatic detection or Whisper."@
}

/// Maps a language code to the bundled Qwen engine's language name.
pub fn qwen_language(lang: &str) -> (r: Result<String, String>)
    ensures
        qwen_name(lang@) matches Some(n) ==> (r matches Ok(s) && s@ == n),
        qwen_name(lang@) is None ==> (r matches Err(m) && m@ == unsupported_language_message()),
{
    let l = chars_of(lang);
    let name = if eq_lit(&l, "ko") {
        "Korean"
    } else if eq_lit(&l, "en") {
        "English"
    } else if eq_lit(&l, "zh") || eq_lit(&l, "zh-CN") || eq_lit(&l, "zh-TW") {
        "Chinese"
    } else if eq_lit(&l, "ja") {
        "Japanese"
    } else if eq_lit(&l, "de") {
        "German"
    } else if eq_lit(&l, "fr") {
        "French"
    } else if eq_lit(&l, "es") {
        "Spanish"
    } else if eq_lit(&l, "it") {
        "Italian"
    } else if eq_lit(&l, "pt") {
        "Portuguese"
    } else if eq_lit(&l, "ru") {
        "Russian"
    } else if eq_lit(&l, "ar") {
        "Arabic"
    } else if eq_lit(&l, "hi") {
        "Hindi"
    } else if eq_lit(&l, "id") {
        "Indonesian"
    } else if eq_lit(&l, "tr") {
        "Turkish"
    } else if eq_lit(&l, "vi") {
        "Vietnamese"
    } else if eq_lit(&l, "th") {
        "Thai"
    } else if eq_lit(&l, "nl") {
        "Dutch"
    } else if eq_lit(&l, "pl") {
        "Polish"
    } else if eq_lit(&l, "sv") {
        "Swedish"
    } else if eq_lit(&l, "da") {
        "Danish"
    } else if eq_lit(&l, "fi") {
        "Finnish"
    } else if eq_lit(&l, "el") {
        "Greek"
    } else if eq_lit(&l, "hu") {
        "Hungarian"
    } else if eq_lit(&l, "cs") {
        "Czech"
    } else if eq_lit(&l, "ro") {
        "Romanian"
    } else if eq_lit(&l, "fa") {
        "Persian"
    } else if eq_lit(&l, "ms") {
        "Malay"
    } else if eq_lit(&l, "fil") {
        "Filipino"
    } else if eq_lit(&l, "mk") {
        "Macedonian"
    } else {
        return Err(
            String::from_str(
                "This language is not supported by the bundled Qwen engine. Choose automatic detection or Whisper.",
            ),
        );
    };
    Ok(String::from_str(name))
}

/// A language code is passed to an engine unless it asks for detection.
pub open spec fn explicit_language(language: Option<Seq<char>>) -> Option<Seq<char>> {
    match language {
        Some(l) => if l == "auto"@ || l == "multi"@ {
            None
        } else {
            Some(l)
        },
        None => None,
    }
}

pub fn requested_language(language: Option<&str>) -> (r: Option<String>)
    ensures
        explicit_language(
            match language {
                Some(l) => Some(l@),
                None => None,
            },
        ) == match r {
            Some(s) => Some(s@),
            None => None::<Seq<char>>,
        },
{
    match language {
        Some(l) => {
            let c = chars_of(l);
            if eq_lit(&c, "auto") || eq_lit(&c, "multi") {
                None
            } else {
                Some(String::from_str(l))
            }
        },
        None => None,
    }
}

/// The engine executable's base name for a model engine.
pub fn engine_binary(engine: &str) -> (r: &'static str)
    ensures
        engine@ == "whisper"@ ==> r@ == "whisper-cli"@,
        engine@ != "whisper"@ ==> r@ == "qwen_asr"@,
{
    let e = chars_of(engine);
    if eq_lit(&e, "whisper") {
        "whisper-cli"
    } else {
        "qwen_asr"
    }
}

/// A model can run when its engine binary is present, and a Qwen model
/// only where the platform supports Qwen.
pub fn engine_available(engine: &str, binary_present: bool, qwen_platform: bool) -> (r: bool)
    ensures
        r == (binary_present && (engine@ == "whisper"@ || qwen_platform)),
{
    let e = chars_of(engine);
    binary_present && (eq_lit(&e, "whisper") || qwen_platform)
}

pub open spec fn sizes_sum(files: Seq<ModelFile>) -> nat
    decreases files.len(),
{
    if files.len() == 0 {
        0
    } else {
        sizes_sum(files.drop_last()) + files.last().size as nat
    }
}

/// The bytes to download for a model.
pub fn total_size(files: &Vec<ModelFile>) -> (r: u64)
    requires
        sizes_sum(files@) <= u64::MAX,
    ensures
        r == sizes_sum(files@),
{
    let mut total: u64 = 0;
    let mut i: usize = 0;
    while i < files.len()
        invariant
            i <= files@.len(),
            sizes_sum(files@) <= u64::MAX,
            total == sizes_sum(files@.take(i as int)),
        decreases files@.len() - i,
    {
        proof {
            assert(files@.take(i + 1).drop_last() =~= files@.take(i as int));
            lemma_sizes_prefix(files@, i + 1);
        }
        total = total + files[i].size;
        i = i + 1;
    }
    assert(files@.take(files@.len() as int) =~= files@);
    total
}

proof fn lemma_sizes_prefix(files: Seq<ModelFile>, k: int)
    requires
        0 <= k <= files.len(),
    ensures
        sizes_sum(files.take(k)) <= sizes_sum(files),
    decreases files.len(),
{
    if k < files.len() {
        assert(files.drop_last().take(k) =~= files.take(k));
        lemma_sizes_prefix(files.drop_last(), k);
    } else {
        assert(files.take(k) =~= files);
    }
}

/// A model is installed when its verification marker matches the model's
/// fingerprint and every file is on disk with its pinned size.
pub open spec fn installed_spec(
    files: Seq<ModelFile>,
    marker: Option<Seq<char>>,
    fingerprint: Seq<char>,
    sizes: Seq<Option<u64>>,
) -> bool {
    &&& marker == Some(fingerprint)
    &&& forall|i: int| 0 <= i < files.len() ==> #[trigger] sizes[i] == Some(files[i].size)
}

/// `sizes[i]` is the size found on disk for the model's `i`-th file.
pub fn is_installed(
    model: &Model,
    marker: Option<&str>,
    fingerprint: &str,
    sizes: &Vec<Option<u64>>,
) -> (r: bool)
    requires
        sizes@.len() == model.files@.len(),
    ensures
        r == installed_spec(
            model.files@,
            match marker {
                Some(m) => Some(m@),
                None => None,
            },
            fingerprint@,
            sizes@,
        ),
{
    match marker {
        Some(m) => {
            let c = chars_of(m);
            if !eq_lit(&c, fingerprint) {
                return false;
            }
        },
        None => {
            return false;
        },
    }
    let mut i: usize = 0;
    while i < model.files.len()
        invariant
            sizes@.len() == model.files@.len(),
            i <= model.files@.len(),
            forall|k: int| 0 <= k < i ==> #[trigger] sizes@[k] == Some(model.files@[k].size),
        decreases model.files@.len() - i,
    {
        match sizes[i] {
            Some(n) => {
                if n != model.files[i].size {
                    return false;
                }
            },
            None => {
                return false;
            },
        }
        i = i + 1;
    }
    true
}

/// The fingerprint recorded once a model is verified: the SHA-256 of its
/// catalog entry in JSON.
pub fn fingerprint(model_json: &[u8]) -> (r: String)
    ensures
        r@ == hex_lower(sha256(model_json@)),
{
    sha256_hex(model_json)
}

/// Where a download resumes: the partial file's length, or the start when
/// there is none or it is longer than the file (then it is discarded).
pub fn resume_from(part_len: Option<u64>, size: u64) -> (r: (u64, bool))
    ensures
        r == match part_len {
            Some(n) => if n > size {
                (0u64, true)
            } else {
                (n, false)
            },
            None => (0u64, false),
        },
{
    match part_len {
        Some(n) => if n > size {
            (0, true)
        } else {
            (n, false)
        },
        None => (0, false),
    }
}

/// The Range header value for resuming at `offset`; none from the start.
pub fn range_request(offset: u64) -> (r: Option<String>)
    ensures
        offset == 0 ==> r is None,
        offset > 0 ==> (r matches Some(h) && h@ == "bytes="@ + decimal(offset as nat) + "-"@),
{
    if offset == 0 {
        return None;
    }
    let mut h = String::from_str("bytes=");
    push_decimal(&mut h, offset);
    push_chars(&mut h, &chars_of("-"));
    Some(h)
}

/// The Content-Range a server must send when it resumes at `offset`.
pub open spec fn expected_range(offset: u64, size: u64) -> Seq<char> {
    "bytes "@ + decimal(offset as nat) + "-"@ + decimal((size - 1) as nat) + "/"@ + decimal(
        size as nat,
    )
}

pub fn expected_content_range(offset: u64, size: u64) -> (r: String)
    requires
        size > 0,
    ensures
        r@ == expected_range(offset, size),
{
    let mut h = String::from_str("bytes ");
    push_decimal(&mut h, offset);
    push_chars(&mut h, &chars_of("-"));
    push_decimal(&mut h, size - 1);
    push_chars(&mut h, &chars_of("/"));
    push_decimal(&mut h, size);
    h
}

/// How the response to a download request is written: a partial answer
/// must cover exactly the rest of the file and is appended; a full answer
/// restarts the file; anything else is refused.
pub fn download_response(status: u16, content_range: Option<&str>, offset: u64, size: u64) -> (r:
    Result<(bool, u64), String>)
    requires
        offset < size,
    ensures
        status == 206 ==> match content_range {
            Some(c) if c@ == expected_range(offset, size) => r == Ok::<(bool, u64), String>(
                (true, offset),
            ),
            _ => r matches Err(m) && m@ == "Invalid download range"@,
        },
        status == 200 ==> r == Ok::<(bool, u64), String>((false, 0u64)),
        status != 206 && status != 200 ==> (r matches Err(m) && m@
            == "Unexpected download response"@),
{
    if status == 206 {
        let expected = expected_content_range(offset, size);
        let e = chars_of(expected.as_str());
        let ok = match content_range {
            Some(c) => eq_lit(&e, c),
            None => false,
        };
        if ok {
            Ok((true, offset))
        } else {
            Err(String::from_str("Invalid download range"))
        }
    } else if status == 200 {
        Ok((false, 0))
    } else {
        Err(String::from_str("Unexpected download response"))
    }
}

/// Accepts a received chunk unless it would grow the file past its pinned
/// size; the result is the new offset.
pub fn accept_chunk(offset: u64, len: usize, size: u64) -> (r: Result<u64, String>)
    requires
        offset <= size,
    ensures
        offset + len > size ==> (r matches Err(m) && m@ == "Model exceeds expected size"@),
        offset + len <= size ==> r == Ok::<u64, String>((offset + len) as u64),
{
    if len as u64 > size - offset || len as u128 > u64::MAX as u128 {
        return Err(String::from_str("Model exceeds expected size"));
    }
    Ok(offset + len as u64)
}

/// Checks a downloaded file: it must have its pinned size, and then its
/// SHA-256 (lowercase hexadecimal) must be the pinned one.
pub fn check_download(len: u64, file: &ModelFile, digest_hex: &str) -> (r: Result<(), String>)
    ensures
        len != file.size ==> (r matches Err(m) && m@ == "Download incomplete; resume to continue"@),
        len == file.size && digest_hex@ != file.sha256@ ==> (r matches Err(m) && m@
            == "Model checksum mismatch; download again"@),
        len == file.size && digest_hex@ == file.sha256@ ==> r is Ok,
{
    if len != file.size {
        return Err(String::from_str("Download incomplete; resume to continue"));
    }
    let d = chars_of(digest_hex);
    if !eq_lit(&d, file.sha256.as_str()) {
        return Err(String::from_str("Model checksum mismatch; download again"));
    }
    Ok(())
}

/// Before a downloaded file is hashed, its length on disk must be the
/// pinned size.
pub fn check_size(len: u64, file: &ModelFile) -> (r: Result<(), String>)
    ensures
        len == file.size <==> r is Ok,
        r matches Err(m) ==> m@ == "Download incomplete; resume to continue"@,
{
    if len != file.size {
        return Err(String::from_str("Download incomplete; resume to continue"));
    }
    Ok(())
}

/// After the whole file has been fed to `digest`, its SHA-256 must be the
/// pinned one.
pub fn check_digest(digest: StreamDigest, file: &ModelFile) -> (r: Result<(), String>)
    ensures
        hex_lower(sha256(digest@)) == file.sha256@ <==> r is Ok,
        r matches Err(m) ==> m@ == "Model checksum mismatch; download again"@,
{
    let hex = digest.finish_hex();
    if !eq_lit(&chars_of(hex.as_str()), file.sha256.as_str()) {
        return Err(String::from_str("Model checksum mismatch; download again"));
    }
    Ok(())
}

/// Checks file contents held in memory against the pinned size and digest.
pub fn verify_contents(data: &[u8], file: &ModelFile) -> (r: Result<(), String>)
    ensures
        data@.len() != file.size ==> (r matches Err(m) && m@
            == "Download incomplete; resume to continue"@),
        data@.len() == file.size && hex_lower(sha256(data@)) != file.sha256@ ==> (r matches Err(m)
            && m@ == "Model checksum mismatch; download again"@),
        data@.len() == file.size && hex_lower(sha256(data@)) == file.sha256@ ==> r is Ok,
{
    if data.len() as u128 != file.size as u128 {
        return Err(String::from_str("Download incomplete; resume to continue"));
    }
    let digest = sha256_hex(data);
    check_download(file.size, file, digest.as_str())
}

/// A download starts only for an engine this build carries, and only when
/// no other model operation holds the service.
pub fn download_gate(available: bool, busy: bool) -> (r: Result<(), String>)
    ensures
        !available ==> (r matches Err(m) && m@
            == "This build does not include this platform's engine"@),
        available && busy ==> (r matches Err(m) && m@ == "STT is busy"@),
        available && !busy <==> r is Ok,
{
    if !available {
        Err(String::from_str("This build does not include this platform's engine"))
    } else if busy {
        Err(String::from_str("STT is busy"))
    } else {
        Ok(())
    }
}

/// A model can be selected when the service is free and the model is in
/// the catalog, runnable here and fully downloaded.
pub fn select_gate(busy: bool, catalog: &Vec<Model>, id: &str, available: bool, installed: bool) -> (r:
    Result<usize, String>)
    ensures
        busy ==> (r matches Err(m) && m@ == "STT is busy"@),
        !busy && (forall|k: int| 0 <= k < catalog@.len() ==> #[trigger] catalog@[k].id@ != id@)
            ==> (r matches Err(m) && m@ == "Unknown model"@),
        !busy && (exists|k: int| 0 <= k < catalog@.len() && #[trigger] catalog@[k].id@ == id@) && !(
        available && installed) ==> (r matches Err(m) && m@ == "Download a supported model first"@),
        !busy && (exists|k: int| 0 <= k < catalog@.len() && #[trigger] catalog@[k].id@ == id@)
            && available && installed ==> (r matches Ok(i) && i < catalog@.len() && catalog@[i as int].id@
            == id@),
{
    if busy {
        return Err(String::from_str("STT is busy"));
    }
    let i = match model_index(catalog, id) {
        Ok(i) => i,
        Err(e) => {
            return Err(e);
        },
    };
    if !available || !installed {
        return Err(String::from_str("Download a supported model first"));
    }
    Ok(i)
}

/// The selection file names a model only while that id is in the catalog.
pub fn selected_model(catalog: &Vec<Model>, contents: Option<String>) -> (r: Option<String>)
    ensures
        r matches Some(s) ==> contents matches Some(c) && s@ == c@ && exists|k: int|
            0 <= k < catalog@.len() && #[trigger] catalog@[k].id@ == c@,
        r is None ==> contents is None || forall|k: int|
            0 <= k < catalog@.len() ==> #[trigger] catalog@[k].id@ != contents->Some_0@,
{
    match contents {
        Some(c) => match model_index(catalog, c.as_str()) {
            Ok(_) => Some(c),
            Err(_) => None,
        },
        None => None,
    }
}

/// Progress at the start of a download.
pub fn download_started(model: String, total: u64) -> (r: Progress)
    ensures
        r.model@ == model@,
        r.downloaded == 0,
        r.total == total,
        r.phase@ == "downloading"@,
        r.error is None,
{
    Progress { model, downloaded: 0, total, phase: String::from_str("downloading"), error: None }
}

/// Progress when the download task ends: complete, or paused with its error.
pub fn download_finished(progress: &mut Progress, result: Result<(), String>)
    ensures
        final(progress).model@ == old(progress).model@,
        final(progress).downloaded == old(progress).downloaded,
        final(progress).total == old(progress).total,
        result is Ok ==> final(progress).phase@ == "complete"@ && final(progress).error is None,
        result matches Err(e) ==> final(progress).phase@ == "paused"@ && final(progress).error
            == Some(e),
{
    match result {
        Ok(()) => {
            progress.phase = String::from_str("complete");
            progress.error = None;
        },
        Err(e) => {
            progress.phase = String::from_str("paused");
            progress.error = Some(e);
        },
    }
}

/// The built-in engine takes 16 kHz audio only.
pub fn check_sample_rate(sample_rate: u32) -> (r: Result<(), AppError>)
    ensures
        sample_rate == 16000 <==> r is Ok,
        r matches Err(e) ==> e matches AppError::Config(m) && m@
            == "Built-in STT requires 16 kHz mono PCM16"@,
{
    if sample_rate != 16000 {
        return Err(AppError::Config(String::from_str("Built-in STT requires 16 kHz mono PCM16")));
    }
    Ok(())
}

pub open spec fn recording_limit_message() -> Seq<char> {
    "Built-in STT recording is limited to 120 seconds"@
}

/// Audio is accepted only while connected and up to the recording limit.
pub fn check_audio(connected: bool, buffered: usize, chunk: usize) -> (r: Result<(), AppError>)
    ensures
        (connected && buffered + chunk <= MAX_AUDIO) <==> r is Ok,
        r matches Err(e) ==> e matches AppError::Config(m) && m@ == recording_limit_message(),
{
    if !connected || buffered > MAX_AUDIO || chunk > MAX_AUDIO - buffered {
        return Err(AppError::Config(String::from_str("Built-in STT recording is limited to 120 seconds")));
    }
    Ok(())
}

/// Whether recorded PCM needs transcribing: nothing or only silence gives
/// no transcript; an odd byte count is not PCM16.
pub fn final_audio(pcm: &[u8]) -> (r: Result<bool, AppError>)
    ensures
        pcm@.len() == 0 ==> r == Ok::<bool, AppError>(false),
        pcm@.len() > 0 && pcm@.len() % 2 == 1 ==> (r matches Err(AppError::Config(m)) && m@
            == "Invalid PCM16 input"@),
        pcm@.len() > 0 && pcm@.len() % 2 == 0 ==> r == Ok::<bool, AppError>(
            exists|i: int| 0 <= i < pcm@.len() && #[trigger] pcm@[i] != 0,
        ),
{
    if pcm.len() == 0 {
        return Ok(false);
    }
    if pcm.len() % 2 == 1 {
        return Err(AppError::Config(String::from_str("Invalid PCM16 input")));
    }
    let mut i: usize = 0;
    while i < pcm.len()
        invariant
            i <= pcm@.len(),
            pcm@.len() % 2 == 0,
            forall|k: int| 0 <= k < i ==> #[trigger] pcm@[k] == 0,
        decreases pcm@.len() - i,
    {
        if pcm[i] != 0 {
            return Ok(true);
        }
        i = i + 1;
    }
    Ok(false)
}

/// An empty transcription is no transcript.
pub fn final_text(text: String) -> (r: Option<String>)
    ensures
        text@.len() == 0 ==> r is None,
        text@.len() > 0 ==> (r matches Some(t) && t@ == text@),
{
    if chars_of(text.as_str()).len() == 0 {
        None
    } else {
        Some(text)
    }
}

/// The engine's standard output as a transcript: bounded, UTF-8, trimmed.
pub fn engine_output(bytes: Vec<u8>) -> (r: Result<String, String>)
    ensures
        bytes@.len() > MAX_ENGINE_OUTPUT ==> (r matches Err(m) && m@
            == "STT engine output exceeded limit"@),
        bytes@.len() <= MAX_ENGINE_OUTPUT && !vstd::utf8::valid_utf8(bytes@) ==> (r matches Err(m)
            && m@ == "Invalid STT output"@),
        bytes@.len() <= MAX_ENGINE_OUTPUT && vstd::utf8::valid_utf8(bytes@) ==> (r matches Ok(s)
            && s@ == trim(vstd::utf8::decode_utf8(bytes@))),
{
    if bytes.len() > MAX_ENGINE_OUTPUT {
        return Err(String::from_str("STT engine output exceeded limit"));
    }
    match string_from_utf8(bytes) {
        Some(s) => {
            let t = trim_chars(&chars_of(s.as_str()));
            Ok(string_of(&t))
        },
        None => Err(String::from_str("Invalid STT output")),
    }
}

/// A file's identity for this session, so a file verified once is not
/// hashed again: its length, modification time (nanoseconds since the
/// epoch), digest, and on Unix its device, inode and change time.
pub struct Stamp {
    length: u64,
    modified: u128,
    hash: String,
    identity: Option<(u64, u64, i64, i64)>,
}

impl Stamp {
    pub fn new(length: u64, modified: u128, hash: &str, identity: Option<(u64, u64, i64, i64)>) -> (r:
        Stamp)
        ensures
            r.spec_length() == length,
            r.spec_modified() == modified,
            r.spec_hash() == hash@,
            r.spec_identity() == identity,
    {
        Stamp { length, modified, hash: String::from_str(hash), identity }
    }

    pub closed spec fn spec_length(&self) -> u64 {
        self.length
    }

    pub closed spec fn spec_modified(&self) -> u128 {
        self.modified
    }

    pub closed spec fn spec_hash(&self) -> Seq<char> {
        self.hash@
    }

    pub closed spec fn spec_identity(&self) -> Option<(u64, u64, i64, i64)> {
        self.identity
    }

    /// Two stamps describe the same unchanged file when every part agrees.
    pub fn same(&self, other: &Stamp) -> (r: bool)
        ensures
            r == (self.spec_length() == other.spec_length() && self.spec_modified()
                == other.spec_modified() && self.spec_hash() == other.spec_hash()
                && self.spec_identity() == other.spec_identity()),
    {
        let ids = match (self.identity, other.identity) {
            (Some(a), Some(b)) => a.0 == b.0 && a.1 == b.1 && a.2 == b.2 && a.3 == b.3,
            (None, None) => true,
            _ => false,
        };
        self.length == other.length && self.modified == other.modified && eq_lit(
            &chars_of(self.hash.as_str()),
            other.hash.as_str(),
        ) && ids
    }
}

} // verus!
