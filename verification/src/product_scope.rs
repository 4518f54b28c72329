//! Product scope: the Ask Anything feature stays implemented but is never
//! exposed, so its hotkeys are cleared from every loaded configuration.
use vstd::prelude::*;

verus! {

/// The hotkey bindings of the configuration.
pub struct HotkeyConfig {
    pub dictation: String,
    pub ask: Option<String>,
    pub ask_bindings: Vec<String>,
}

/// The part of the application configuration that product scope governs.
pub struct AppConfig {
    pub ask_hotkey: String,
    pub hotkeys: HotkeyConfig,
}

impl Default for AppConfig {
    fn default() -> (r: Self)
        ensures
            r.ask_hotkey@.len() == 0,
            r.hotkeys.dictation@.len() == 0,
            r.hotkeys.ask is None,
            r.hotkeys.ask_bindings@.len() == 0,
    {
        AppConfig {
            ask_hotkey: String::new(),
            hotkeys: HotkeyConfig { dictation: String::new(), ask: None, ask_bindings: Vec::new() },
        }
    }
}

/// Removes the legacy Ask hotkey and every Ask binding; the dictation
/// hotkey is kept as it was.
pub fn apply(config: &mut AppConfig)
    ensures
        final(config).ask_hotkey@.len() == 0,
        final(config).hotkeys.ask is None,
        final(config).hotkeys.ask_bindings@.len() == 0,
        final(config).hotkeys.dictation@ == old(config).hotkeys.dictation@,
{
    config.ask_hotkey = String::new();
    config.hotkeys.ask = None;
    config.hotkeys.ask_bindings = Vec::new();
}

pub open spec fn ask_unavailable_message() -> Seq<char> {
    "H-OpenTypeless에서는 Ask Anything을 제공하지 않습니다."@
}

/// Ask Anything is refused on every call.
pub fn require_ask() -> (r: Result<(), String>)
    ensures
        r matches Err(m) && m@ == ask_unavailable_message(),
{
    Err(String::from_str("H-OpenTypeless에서는 Ask Anything을 제공하지 않습니다."))
}

} // verus!
