//! Verified core of a push-to-talk dictation tool: text cleanup with a
//! personal dictionary, correction candidates, shortcut parsing, session
//! decisions, the processing of a recording, history bookkeeping and
//! request building.

mod audio;
mod candidates;
mod config;
pub mod dashscope;
mod dictionary;
mod history;
pub mod llm;
mod pipeline;
mod session;
mod shortcut;
mod text;

pub use audio::{recording_outcome, samples_to_wav, RecorderHandle, Recording};
pub use candidates::{
    accept_candidate, add_candidates, extract_correction_pairs, from_eq, get_candidates, normalize_pair,
    pairs_from_ops, reject_candidate, CandidateEntry, CandidateStore, CharDiffOp, DiffKind, RejectedPair,
    MAX_CANDIDATES,
};
pub use config::{default_config_version, default_edit_shortcut, Config};
pub use dashscope::{
    audio_data_url, file_url_retry, names_qwen_asr, next_poll_attempt, paraformer_task, qwen_asr_request,
    qwen_asr_text, task_state, transcription_backend, uploaded_file_id, AsrBackend, DashScopeConfig,
    ParaformerTask, QwenAsrRequest, TaskState, MAX_FILE_URL_RETRIES, MAX_POLL_ATTEMPTS,
};
pub use dictionary::{
    apply_dictionary, check_dictionary_keys, slice_equal_case_insensitive, validate_dictionary, DictionaryEntry,
};
pub use history::{
    add_entry, clear_history, delete_entry, export_to_markdown, get_entries, get_stats, update_polished_text,
    CalendarDate, EntryType, HistoryEntry, HistoryStats, HistoryStore, LocalDateTime, MAX_HISTORY_ENTRIES,
};
pub use llm::{
    connection_check_url, edit_request, polish_request, reply_text, ChatMessage, ChatRequest, LlmConfig,
    EDIT_PROMPT, POLISH_PROMPT,
};
pub use pipeline::{advance, recording_finished, Effect, RecordingFinish, Stage, StageEvent};
pub use session::{
    after_keyboard_failure, after_start, edit_history_text, input_route, on_shortcut, plan_settings_update,
    settings_begin, settings_step, shortcut_role, should_polish, ActiveMode, InputRoute, RecordingMode,
    SessionAction, SessionStep, SettingsAction, SettingsPlan, SettingsStage, ShortcutRole, EDIT_RAW_TEXT_LIMIT,
};
pub use shortcut::{
    is_bare_escape, normalize_key, normalize_modifier, parse_shortcut, KeyCode, ModifierKey, Modifiers, Shortcut,
};
pub use text::chars_of;
