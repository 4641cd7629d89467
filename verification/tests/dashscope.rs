use notype_mini::{
    audio_data_url, file_url_retry, names_qwen_asr, paraformer_task, qwen_asr_request, qwen_asr_text, uploaded_file_id, next_poll_attempt, task_state, transcription_backend, AsrBackend,
    DashScopeConfig, TaskState,
};

#[test]
fn test_url_base_normalizes_trailing_slash() {
    let config = DashScopeConfig {
        base_url: "https://dashscope.aliyuncs.com/".to_string(),
        api_key: "test".to_string(),
        model: "paraformer-v2".to_string(),
    };
    assert_eq!(config.base(), "https://dashscope.aliyuncs.com");
    assert_eq!(config.files_url(), "https://dashscope.aliyuncs.com/api/v1/files");
}

#[test]
fn test_url_base_strips_compatible_mode_suffix() {
    let config = DashScopeConfig {
        base_url: "https://dashscope.aliyuncs.com/compatible-mode/v1/".to_string(),
        api_key: "test".to_string(),
        model: "paraformer-v2".to_string(),
    };
    assert_eq!(config.base(), "https://dashscope.aliyuncs.com");
    assert_eq!(config.models_url(), "https://dashscope.aliyuncs.com/compatible-mode/v1/models");
}

#[test]
fn test_is_qwen_asr_detection() {
    let mut config = DashScopeConfig {
        base_url: "https://dashscope.aliyuncs.com".to_string(),
        api_key: "test".to_string(),
        model: "qwen3-asr-flash".to_string(),
    };
    assert!(config.is_qwen_asr());

    config.model = "paraformer-v2".to_string();
    assert!(!config.is_qwen_asr());
}

#[test]
fn endpoint_urls() {
    let config = DashScopeConfig {
        base_url: "https://ws.example.com//".to_string(),
        api_key: "k".to_string(),
        model: "QWEN-ASR".to_string(),
    };
    assert_eq!(config.file_detail_url("f1"), "https://ws.example.com/api/v1/files/f1");
    assert_eq!(config.task_url("t9"), "https://ws.example.com/api/v1/tasks/t9");
    assert_eq!(
        config.paraformer_transcription_url(),
        "https://ws.example.com/api/v1/services/audio/asr/transcription"
    );
    assert_eq!(
        config.qwen_asr_url(),
        "https://ws.example.com/api/v1/services/aigc/multimodal-generation/generation"
    );
    assert!(config.is_qwen_asr());
}

#[test]
fn backend_needs_key_and_follows_model() {
    let mut config = DashScopeConfig::default();
    assert_eq!(transcription_backend(&config), Err("DashScope API Key 未配置".to_string()));
    config.api_key = "k".to_string();
    assert_eq!(transcription_backend(&config), Ok(AsrBackend::Paraformer));
    config.model = "qwen3-asr-flash".to_string();
    assert_eq!(transcription_backend(&config), Ok(AsrBackend::QwenAsr));
}

#[test]
fn audio_is_inlined_as_base64() {
    assert_eq!(audio_data_url(b"hello"), "data:audio/wav;base64,aGVsbG8=");
    assert_eq!(audio_data_url(b""), "data:audio/wav;base64,");
    assert_eq!(audio_data_url(&[0xff, 0xfe, 0xfd, 0x00]), "data:audio/wav;base64,//79AA==");
}

#[test]
fn polling_gives_up_after_sixty_polls() {
    assert_eq!(next_poll_attempt(0), Some(1));
    assert_eq!(next_poll_attempt(59), Some(60));
    assert_eq!(next_poll_attempt(60), None);
}

#[test]
fn task_answers() {
    let results = vec![
        vec!["你好".to_string(), "".to_string()],
        vec!["世界".to_string()],
    ];
    match task_state("SUCCEEDED", &results, None) {
        TaskState::Succeeded(t) => assert_eq!(t, "你好世界"),
        other => panic!("unexpected {:?}", other),
    }
    match task_state("FAILED", &results, None) {
        TaskState::Failed(m) => assert_eq!(m, "转写任务失败"),
        other => panic!("unexpected {:?}", other),
    }
    match task_state("FAILED", &results, Some("bad audio".to_string())) {
        TaskState::Failed(m) => assert_eq!(m, "bad audio"),
        other => panic!("unexpected {:?}", other),
    }
    assert!(matches!(task_state("RUNNING", &results, None), TaskState::Running));
}

#[test]
fn file_url_retries_only_rate_limits() {
    assert_eq!(file_url_retry(0, "获取文件 URL 失败 (429 Too Many Requests)"), Some((1, 500)));
    assert_eq!(file_url_retry(4, "429"), Some((5, 2500)));
    assert_eq!(file_url_retry(5, "429"), None);
    assert_eq!(file_url_retry(0, "500 Internal Server Error"), None);
}

#[test]
fn lowered_model_names() {
    assert!(names_qwen_asr("qwen3-asr-flash"));
    assert!(names_qwen_asr("asr-by-qwen"));
    assert!(!names_qwen_asr("qwen-plus"));
    assert!(!names_qwen_asr("QWEN3-ASR"));
    assert!(!names_qwen_asr("paraformer-v2"));
}

fn workspace_config(model: &str) -> DashScopeConfig {
    DashScopeConfig {
        base_url: "https://ws.example.com/compatible-mode/v1/".to_string(),
        api_key: "k".to_string(),
        model: model.to_string(),
    }
}

#[test]
fn qwen_request_carries_the_audio_inline() {
    let req = qwen_asr_request(&workspace_config("qwen3-asr-flash"), b"RIFF");
    assert_eq!(req.url, "https://ws.example.com/api/v1/services/aigc/multimodal-generation/generation");
    assert_eq!(req.model, "qwen3-asr-flash");
    assert_eq!(req.system_text, "");
    assert_eq!(req.audio, "data:audio/wav;base64,UklGRg==");
    assert!(!req.enable_itn);
    assert_eq!(req.language, "zh");
}

#[test]
fn qwen_reply_text_is_the_first_content() {
    let s = |x: &str| x.to_string();
    assert_eq!(qwen_asr_text(&vec![vec![s("你好"), s("x")], vec![s("y")]]), "你好");
    assert_eq!(qwen_asr_text(&vec![vec![], vec![s("y")]]), "");
    assert_eq!(qwen_asr_text(&vec![]), "");
}

#[test]
fn upload_reply_gives_the_first_file_id() {
    assert_eq!(uploaded_file_id(&vec!["f1".to_string(), "f2".to_string()]), Ok("f1".to_string()));
    assert_eq!(uploaded_file_id(&vec![]), Err("文件上传响应中未找到 file_id".to_string()));
}

#[test]
fn paraformer_task_names_the_file() {
    let task = paraformer_task(&workspace_config("paraformer-v2"), "https://oss/a.wav");
    assert_eq!(task.url, "https://ws.example.com/api/v1/services/audio/asr/transcription");
    assert_eq!(task.model, "paraformer-v2");
    assert_eq!(task.file_urls, vec!["https://oss/a.wav".to_string()]);
    assert_eq!(task.language_hints, vec!["zh".to_string()]);
}
