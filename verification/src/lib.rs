//! Verified core of the H dictation desktop app: prompt assembly, output
//! guards, wire-format parsing, and the small state machines that decide
//! when audio, shortcuts and feedback may act.
pub mod fn_event;
pub mod wav;
pub mod error;
pub mod text;
pub mod response_limits;
pub mod request;
pub mod prompt;
pub mod dictation_guard;
pub mod capture;
pub mod lifecycle;
pub mod auto_start;
pub mod escape_cancel;
pub mod product_scope;
pub mod digest;
pub mod history;
pub mod preview;
pub mod polish;
pub mod audio_ducking;
pub mod numeric;
pub mod local_stt;
pub mod stt_engine;
pub mod voice_feedback;
pub mod tutorial;
pub mod mobile;
pub mod local_llm;
pub mod credential;
pub mod shell;
