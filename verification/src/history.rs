//! Replaying a stored transcript through the polisher as a preview.
use crate::digest::{hex_lower, sha256, text_sha256_hex};
use crate::request::{ContextFamily, ContextProfileSummary, CorrectionRule, PolishRequest, VoiceIntent, VoiceIntentKind};
use crate::text::{chars_of, eq_lit, trim, trim_chars};
use vstd::prelude::*;

verus! {

/// The outcome of a replay, as shown beside the stored entry.
pub struct RepolishResult {
    pub history_id: i64,
    pub polished_text: String,
    pub model: String,
    pub style: String,
    pub prompt_sha256: String,
    pub elapsed_ms: u64,
}

/// The built-in styles a transcript can be replayed with.
pub open spec fn is_replay_style(style: Seq<char>) -> bool {
    ||| style == "minimal"@
    ||| style == "clean"@
    ||| style == "structured"@
    ||| style == "professional"@
}

/// The longest transcript, in characters, that may be replayed.
pub const MAX_REPLAY_CHARS: usize = 20000;

/// A usable source: not blank and at most the replay limit.
pub open spec fn is_replay_source(raw: Seq<char>) -> bool {
    trim(raw).len() > 0 && raw.len() <= MAX_REPLAY_CHARS
}

/// Builds the request for replaying `raw_text` with `style`. A replay is
/// always plain dictation in the neutral context, with no selection,
/// translation or scene.
pub fn replay_request(
    raw_text: String,
    style: String,
    dictionary: Vec<String>,
    correction_rules: Vec<CorrectionRule>,
    custom_prompt: String,
) -> (r: Result<PolishRequest, String>)
    ensures
        !is_replay_style(style@) ==> (r matches Err(m) && m@ == "history.repolishInvalidStyle"@),
        is_replay_style(style@) && !is_replay_source(raw_text@) ==> (r matches Err(m) && m@
            == "history.repolishInvalidSource"@),
        is_replay_style(style@) && is_replay_source(raw_text@) ==> (r matches Ok(q) && {
            &&& q.raw_text@ == raw_text@
            &&& q.polish_style@ == style@
            &&& q.dictionary@ == dictionary@
            &&& q.correction_rules@ == correction_rules@
            &&& q.polish_custom_prompt@ == custom_prompt@
            &&& q.mapped_scene_prompt@.len() == 0
            &&& q.active_scene_prompt@.len() == 0
            &&& !q.translate_enabled
            &&& q.target_lang@.len() == 0
            &&& q.selected_text is None
            &&& q.voice_intent.kind == VoiceIntentKind::DictateInsert
            &&& q.voice_intent.placement@ == "insert_at_cursor"@
            &&& q.context.profile_id@ == "general.native"@
            &&& q.context.family == ContextFamily::General
            &&& q.context.override_id is None
        }),
{
    let s = chars_of(style.as_str());
    if !(eq_lit(&s, "minimal") || eq_lit(&s, "clean") || eq_lit(&s, "structured") || eq_lit(
        &s,
        "professional",
    )) {
        return Err(String::from_str("history.repolishInvalidStyle"));
    }
    let raw = chars_of(raw_text.as_str());
    let trimmed = trim_chars(&raw);
    if trimmed.len() == 0 || raw.len() > MAX_REPLAY_CHARS {
        return Err(String::from_str("history.repolishInvalidSource"));
    }
    Ok(
        PolishRequest {
            raw_text,
            context: ContextProfileSummary::general_native(),
            dictionary,
            correction_rules,
            polish_style: style,
            polish_custom_prompt: custom_prompt,
            mapped_scene_prompt: String::new(),
            active_scene_prompt: String::new(),
            translate_enabled: false,
            target_lang: String::new(),
            selected_text: None,
            voice_intent: VoiceIntent::dictate_insert(),
        },
    )
}

/// A replay needs a configured provider other than the hosted "cloud" one.
pub open spec fn is_replay_provider(provider: Seq<char>) -> bool {
    trim(provider).len() > 0 && provider != "cloud"@
}

pub fn replay_provider(provider: &str) -> (r: bool)
    ensures
        r == is_replay_provider(provider@),
{
    let p = chars_of(provider);
    let t = trim_chars(&p);
    t.len() != 0 && !eq_lit(&p, "cloud")
}

/// The result of a finished replay; the prompt is recorded only by its
/// SHA-256 digest.
pub fn repolish_result(
    history_id: i64,
    polished_text: String,
    model: String,
    style: String,
    prompt: &str,
    elapsed_ms: u64,
) -> (r: RepolishResult)
    ensures
        r.history_id == history_id,
        r.polished_text@ == polished_text@,
        r.model@ == model@,
        r.style@ == style@,
        r.prompt_sha256@ == hex_lower(sha256(vstd::utf8::encode_utf8(prompt@))),
        r.elapsed_ms == elapsed_ms,
{
    RepolishResult {
        history_id,
        polished_text,
        model,
        style,
        prompt_sha256: text_sha256_hex(prompt),
        elapsed_ms,
    }
}

} // verus!
