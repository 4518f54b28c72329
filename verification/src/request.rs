//! The polishing request and the pieces that describe it: correction rules,
//! the recognized voice intent, and the application context.
use vstd::prelude::*;

verus! {

/// A user correction: when the transcript likely contains `pattern`, write
/// `replacement`.
pub struct CorrectionRule {
    pub id: i64,
    pub pattern: String,
    pub replacement: String,
    pub enabled: bool,
}

/// What the user asked the voice operation to do.
#[derive(Clone, Copy, Debug, PartialEq, Eq, Structural)]
pub enum VoiceIntentKind {
    DictateInsert,
    DraftInsert,
    RewriteSelection,
    TranslateSelection,
    AskSelection,
    TranslateInsert,
    OpenQuestion,
    Search,
}

/// The name of an operation as the prompt shows it.
pub open spec fn kind_label(kind: VoiceIntentKind) -> Seq<char> {
    match kind {
        VoiceIntentKind::DictateInsert => "dictate_insert"@,
        VoiceIntentKind::DraftInsert => "draft_insert"@,
        VoiceIntentKind::RewriteSelection => "rewrite_selection"@,
        VoiceIntentKind::TranslateSelection => "translate_selection"@,
        VoiceIntentKind::AskSelection => "ask_selection"@,
        VoiceIntentKind::TranslateInsert => "translate_insert"@,
        VoiceIntentKind::OpenQuestion => "open_question"@,
        VoiceIntentKind::Search => "search"@,
    }
}

impl VoiceIntentKind {
    /// The operation's name.
    pub fn as_str(&self) -> (r: &'static str)
        ensures
            r@ == kind_label(*self),
    {
        proof {
            reveal_strlit("dictate_insert");
            reveal_strlit("draft_insert");
            reveal_strlit("rewrite_selection");
            reveal_strlit("translate_selection");
            reveal_strlit("ask_selection");
            reveal_strlit("translate_insert");
            reveal_strlit("open_question");
            reveal_strlit("search");
        }
        match self {
            VoiceIntentKind::DictateInsert => "dictate_insert",
            VoiceIntentKind::DraftInsert => "draft_insert",
            VoiceIntentKind::RewriteSelection => "rewrite_selection",
            VoiceIntentKind::TranslateSelection => "translate_selection",
            VoiceIntentKind::AskSelection => "ask_selection",
            VoiceIntentKind::TranslateInsert => "translate_insert",
            VoiceIntentKind::OpenQuestion => "open_question",
            VoiceIntentKind::Search => "search",
        }
    }
}

/// A recognized voice intent: the operation and the placement label that
/// the prompt shows as trusted.
pub struct VoiceIntent {
    pub kind: VoiceIntentKind,
    pub placement: String,
}

impl VoiceIntent {
    /// Plain dictation inserted at the cursor, the intent of every replayed
    /// transcript.
    pub fn dictate_insert() -> (r: Self)
        ensures
            r.kind == VoiceIntentKind::DictateInsert,
            r.placement@ == "insert_at_cursor"@,
    {
        VoiceIntent {
            kind: VoiceIntentKind::DictateInsert,
            placement: String::from_str("insert_at_cursor"),
        }
    }
}

/// Semantic family of the focused application.
#[derive(Clone, Copy, Debug, PartialEq, Eq, Structural)]
pub enum ContextFamily {
    Email,
    WorkChat,
    PromptOrCode,
    Document,
    General,
}

/// What the prompt knows of the focused application.
pub struct ContextProfileSummary {
    pub profile_id: String,
    pub family: ContextFamily,
    pub app_label: String,
    pub icon_key: String,
    pub override_id: Option<String>,
}

impl ContextProfileSummary {
    /// The neutral context used when no application profile applies.
    pub fn general_native() -> (r: Self)
        ensures
            r.profile_id@ == "general.native"@,
            r.family == ContextFamily::General,
            r.app_label@ == "General"@,
            r.icon_key@ == "general"@,
            r.override_id is None,
    {
        ContextProfileSummary {
            profile_id: String::from_str("general.native"),
            family: ContextFamily::General,
            app_label: String::from_str("General"),
            icon_key: String::from_str("general"),
            override_id: None,
        }
    }
}

/// The kind of the focused application, as the older detector reports it.
#[derive(Clone, Copy, Debug, PartialEq, Eq, Structural)]
pub enum AppType {
    Email,
    Chat,
    Code,
    Document,
    General,
}

/// The family of each older application kind.
pub open spec fn legacy_family(app_type: AppType) -> ContextFamily {
    match app_type {
        AppType::Email => ContextFamily::Email,
        AppType::Chat => ContextFamily::WorkChat,
        AppType::Code => ContextFamily::PromptOrCode,
        AppType::Document => ContextFamily::Document,
        AppType::General => ContextFamily::General,
    }
}

/// The context of an older application kind: the neutral profile with the
/// kind's family.
pub fn legacy_context_summary(app_type: AppType) -> (r: ContextProfileSummary)
    ensures
        r.profile_id@ == "general.native"@,
        r.family == legacy_family(app_type),
        r.app_label@ == "General"@,
        r.icon_key@ == "general"@,
        r.override_id is None,
{
    let family = match app_type {
        AppType::Email => ContextFamily::Email,
        AppType::Chat => ContextFamily::WorkChat,
        AppType::Code => ContextFamily::PromptOrCode,
        AppType::Document => ContextFamily::Document,
        AppType::General => ContextFamily::General,
    };
    ContextProfileSummary {
        profile_id: String::from_str("general.native"),
        family,
        app_label: String::from_str("General"),
        icon_key: String::from_str("general"),
        override_id: None,
    }
}

/// Everything the polishing model is asked to do with one transcript.
pub struct PolishRequest {
    pub raw_text: String,
    pub context: ContextProfileSummary,
    pub dictionary: Vec<String>,
    pub correction_rules: Vec<CorrectionRule>,
    pub polish_style: String,
    pub polish_custom_prompt: String,
    pub mapped_scene_prompt: String,
    pub active_scene_prompt: String,
    pub translate_enabled: bool,
    pub target_lang: String,
    pub selected_text: Option<String>,
    pub voice_intent: VoiceIntent,
}

} // verus!
