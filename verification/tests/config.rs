use notype_mini::{default_config_version, default_edit_shortcut, Config, LlmConfig, POLISH_PROMPT};

#[test]
fn test_config_default_values() {
    let config = Config::default();
    assert_eq!(config.shortcut, "Command+Period");
    assert!(config.sound_feedback);
    assert_eq!(config.output_mode, "polish");
    assert!(!config.auto_enter);
    assert_eq!(config.recording_mode, "push_to_talk");
    assert!(config.use_clipboard_fallback);
    assert_eq!(config.clipboard_fallback_threshold, 100);
    assert_eq!(config.edit_shortcut, "Command+Option+Period");
    assert!(config.dictionary.is_empty());
    assert_eq!(config.config_version, 1);
    assert_eq!(config.dashscope.model, "paraformer-v2");
    assert_eq!(config.llm.model, "deepseek-chat");
}

#[test]
fn defaults_for_missing_fields() {
    assert_eq!(default_edit_shortcut(), "Command+Option+Period");
    assert_eq!(default_config_version(), 1);
}

#[test]
fn test_llm_config_default() {
    let config = LlmConfig::default();
    assert_eq!(config.base_url, "https://api.deepseek.com");
    assert_eq!(config.model, "deepseek-chat");
}

#[test]
fn test_polish_prompt_has_required_rules() {
    assert!(POLISH_PROMPT.contains("填充词"));
    assert!(POLISH_PROMPT.contains("修正改口"));
    assert!(POLISH_PROMPT.contains("只输出整理后的文字"));
}
