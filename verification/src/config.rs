//! User settings and their defaults.

use vstd::prelude::*;

use crate::dashscope::DashScopeConfig;
use crate::dictionary::DictionaryEntry;
use crate::llm::LlmConfig;
use crate::text::owned;

verus! {

/// All user settings.
#[derive(Debug)]
pub struct Config {
    /// Recording shortcut, e.g. "Command+Period".
    pub shortcut: String,
    pub sound_feedback: bool,
    pub dashscope: DashScopeConfig,
    pub llm: LlmConfig,
    /// "polish" or "verbatim".
    pub output_mode: String,
    pub auto_enter: bool,
    /// "push_to_talk" or "continuous".
    pub recording_mode: String,
    /// Paste through the clipboard for long texts or when typing fails.
    pub use_clipboard_fallback: bool,
    /// Character count above which the clipboard is used.
    pub clipboard_fallback_threshold: usize,
    /// Voice-editing shortcut.
    pub edit_shortcut: String,
    pub dictionary: Vec<DictionaryEntry>,
    pub config_version: u32,
}

/// The voice-editing shortcut of settings that do not name one.
pub fn default_edit_shortcut() -> (r: String)
    ensures
        r@ == "Command+Option+Period"@,
{
    owned("Command+Option+Period")
}

/// The settings version of settings that do not name one.
pub fn default_config_version() -> (r: u32)
    ensures
        r == 1,
{
    1
}

impl Default for Config {
    fn default() -> (r: Self)
        ensures
            r.shortcut@ == "Command+Period"@,
            r.sound_feedback,
            r.dashscope.base_url@ == "https://dashscope.aliyuncs.com"@,
            r.dashscope.api_key@ == Seq::<char>::empty(),
            r.dashscope.model@ == "paraformer-v2"@,
            r.llm.base_url@ == "https://api.deepseek.com"@,
            r.llm.api_key@ == Seq::<char>::empty(),
            r.llm.model@ == "deepseek-chat"@,
            r.output_mode@ == "polish"@,
            !r.auto_enter,
            r.recording_mode@ == "push_to_talk"@,
            r.use_clipboard_fallback,
            r.clipboard_fallback_threshold == 100,
            r.edit_shortcut@ == "Command+Option+Period"@,
            r.dictionary@.len() == 0,
            r.config_version == 1,
    {
        Config {
            shortcut: owned("Command+Period"),
            sound_feedback: true,
            dashscope: DashScopeConfig::default(),
            llm: LlmConfig::default(),
            output_mode: owned("polish"),
            auto_enter: false,
            recording_mode: owned("push_to_talk"),
            use_clipboard_fallback: true,
            clipboard_fallback_threshold: 100,
            edit_shortcut: owned("Command+Option+Period"),
            dictionary: Vec::new(),
            config_version: 1,
        }
    }
}

} // verus!
