use notype_mini::{
    advance, recording_finished, ActiveMode, Config, DictionaryEntry, Effect, EntryType, RecordingFinish, Stage,
    StageEvent,
};

fn s(x: &str) -> String {
    x.to_string()
}

fn verbatim() -> Config {
    let mut c = Config::default();
    c.output_mode = s("verbatim");
    c.auto_enter = true;
    c
}

fn report(code: &str, message: &str) -> Effect {
    Effect::Report { code: s(code), message: s(message) }
}

#[test]
fn dictation_types_the_corrected_transcript() {
    let mut config = verbatim();
    config.dictionary = vec![DictionaryEntry { from: s("git hub actions"), to: s("GitHub Actions") }];
    let (stage, fx) = advance(&config, Stage::Recognizing(EntryType::Transcribe), StageEvent::Transcript(Ok(s("use git hub actions"))));
    assert_eq!(stage, Stage::Typing { raw: s("use GitHub Actions"), text: s("use GitHub Actions") });
    assert_eq!(fx, vec![Effect::TypeText { text: s("use GitHub Actions"), auto_enter: true }]);

    let (stage, fx) = advance(&config, stage, StageEvent::Typed(Ok(())));
    assert_eq!(stage, Stage::Finished);
    assert_eq!(
        fx,
        vec![
            Effect::Record { raw: s("use GitHub Actions"), text: s("use GitHub Actions"), kind: EntryType::Transcribe, word_count: 18 },
            Effect::Deliver { text: s("use GitHub Actions"), kind: EntryType::Transcribe },
            Effect::Idle,
        ]
    );
}

#[test]
fn polishing_falls_back_to_the_raw_text() {
    let config = Config::default();
    let (stage, fx) = advance(&config, Stage::Recognizing(EntryType::Transcribe), StageEvent::Transcript(Ok(s("嗯 你好"))));
    assert_eq!(stage, Stage::Polishing { raw: s("嗯 你好") });
    assert_eq!(fx, vec![Effect::Polish(s("嗯 你好"))]);

    let (stage, fx) = advance(&config, stage, StageEvent::Polished(Err(s("timeout"))));
    assert_eq!(stage, Stage::Typing { raw: s("嗯 你好"), text: s("嗯 你好") });
    assert_eq!(fx, vec![Effect::TypeText { text: s("嗯 你好"), auto_enter: false }]);

    let (stage, _) = advance(&config, Stage::Polishing { raw: s("嗯 你好") }, StageEvent::Polished(Ok(s("你好。"))));
    assert_eq!(stage, Stage::Typing { raw: s("嗯 你好"), text: s("你好。") });
}

#[test]
fn typing_failure_is_reported_and_still_recorded() {
    let (stage, fx) = advance(
        &verbatim(),
        Stage::Typing { raw: s("a"), text: s("b") },
        StageEvent::Typed(Err(s("no keyboard"))),
    );
    assert_eq!(stage, Stage::Finished);
    assert_eq!(
        fx,
        vec![
            report("input_failed", "无法输入文字: no keyboard"),
            Effect::Record { raw: s("a"), text: s("b"), kind: EntryType::Transcribe, word_count: 1 },
            Effect::Deliver { text: s("b"), kind: EntryType::Transcribe },
            Effect::Idle,
        ]
    );
}

#[test]
fn failed_transcripts_use_the_code_of_the_session() {
    let config = verbatim();
    let (stage, fx) = advance(&config, Stage::Recognizing(EntryType::Transcribe), StageEvent::Transcript(Err(s("401"))));
    assert_eq!(stage, Stage::Finished);
    assert_eq!(fx, vec![report("transcription_failed", "401"), Effect::Idle]);
    let (_, fx) = advance(&config, Stage::Recognizing(EntryType::Edit), StageEvent::Transcript(Err(s("401"))));
    assert_eq!(fx, vec![report("instruction_recognition_failed", "401"), Effect::Idle]);
}

#[test]
fn blank_instruction_ends_the_edit() {
    let (stage, fx) = advance(&verbatim(), Stage::Recognizing(EntryType::Edit), StageEvent::Transcript(Ok(s("  \n "))));
    assert_eq!(stage, Stage::Finished);
    assert_eq!(fx, vec![Effect::Idle]);
}

#[test]
fn edit_with_selection_runs_to_the_end() {
    let config = verbatim();
    let (stage, fx) = advance(&config, Stage::Recognizing(EntryType::Edit), StageEvent::Transcript(Ok(s("翻译成英文"))));
    assert_eq!(stage, Stage::Capturing { instruction: s("翻译成英文") });
    assert_eq!(fx, vec![Effect::CaptureSelection]);

    let (stage, fx) = advance(&config, stage, StageEvent::Selection(Ok(Some(s("你好")))));
    assert_eq!(fx, vec![Effect::RequestEdit { instruction: s("翻译成英文"), selected: Some(s("你好")) }]);

    let (stage, fx) = advance(&config, stage, StageEvent::Edited(Ok(s("Hello"))));
    assert_eq!(fx, vec![Effect::OpenKeyboard]);

    let (stage, fx) = advance(&config, stage, StageEvent::KeyboardOpened(Ok(())));
    assert_eq!(fx, vec![Effect::DeleteSelection, Effect::TypeText { text: s("Hello"), auto_enter: false }]);

    let (stage, fx) = advance(&config, stage, StageEvent::Typed(Ok(())));
    assert_eq!(stage, Stage::Finished);
    assert_eq!(
        fx,
        vec![
            Effect::RestoreClipboard,
            Effect::RestoreClipboard,
            Effect::Record {
                raw: s("instruction: 翻译成英文 | selected: 你好"),
                text: s("Hello"),
                kind: EntryType::Edit,
                word_count: 5
            },
            Effect::Deliver { text: s("Hello"), kind: EntryType::Edit },
            Effect::Idle,
        ]
    );
}

#[test]
fn edit_without_selection_types_without_deleting() {
    let stage = Stage::Opening { instruction: s("写一句问候"), selected: None, result: s("你好！") };
    let (stage, fx) = advance(&verbatim(), stage, StageEvent::KeyboardOpened(Ok(())));
    assert_eq!(fx, vec![Effect::TypeText { text: s("你好！"), auto_enter: false }]);
    let (_, fx) = advance(&verbatim(), stage, StageEvent::Typed(Ok(())));
    assert_eq!(
        fx[2],
        Effect::Record { raw: s("instruction: 写一句问候 | selected: <无>"), text: s("你好！"), kind: EntryType::Edit, word_count: 3 }
    );
}

#[test]
fn edit_failures_restore_the_clipboard() {
    let config = verbatim();
    let editing = Stage::Editing { instruction: s("x"), selected: None };
    let (stage, fx) = advance(&config, editing, StageEvent::Edited(Err(s("boom"))));
    assert_eq!(stage, Stage::Finished);
    assert_eq!(fx, vec![report("edit_failed", "boom"), Effect::Idle, Effect::RestoreClipboard]);

    let opening = Stage::Opening { instruction: s("x"), selected: None, result: s("y") };
    let (_, fx) = advance(&config, opening, StageEvent::KeyboardOpened(Err(s("NoPermission"))));
    assert_eq!(fx, vec![report("input_failed", "无法创建键盘输入: NoPermission"), Effect::Idle, Effect::RestoreClipboard]);

    let inserting = Stage::Inserting { instruction: s("x"), selected: Some(s("z")), result: s("y") };
    let (_, fx) = advance(&config, inserting, StageEvent::Typed(Err(s("lost"))));
    assert_eq!(fx, vec![report("input_failed", "无法输入编辑结果: lost"), Effect::Idle, Effect::RestoreClipboard]);

    let capturing = Stage::Capturing { instruction: s("x") };
    let (_, fx) = advance(&config, capturing, StageEvent::Selection(Err(s("no clipboard"))));
    assert_eq!(fx, vec![report("clipboard_capture_failed", "no clipboard"), Effect::Idle]);
}

#[test]
fn unrelated_event_changes_nothing() {
    let stage = Stage::Capturing { instruction: s("x") };
    let (stage, fx) = advance(&verbatim(), stage, StageEvent::Typed(Ok(())));
    assert_eq!(stage, Stage::Capturing { instruction: s("x") });
    assert!(fx.is_empty());
}

#[test]
fn stopped_recordings_are_sorted() {
    assert_eq!(
        recording_finished(ActiveMode::Transcribe, Err(s("录音线程异常退出"))),
        RecordingFinish::Failed { code: s("recording_stop_failed"), message: s("录音线程异常退出") }
    );
    assert_eq!(
        recording_finished(ActiveMode::Edit, Ok((vec![], 16000))),
        RecordingFinish::Failed { code: s("no_audio"), message: s("未录制到音频") }
    );
    assert_eq!(recording_finished(ActiveMode::Idle, Ok((vec![1, 2], 16000))), RecordingFinish::Dropped);
    match recording_finished(ActiveMode::Edit, Ok((vec![1, -1, 3], 16000))) {
        RecordingFinish::Process { kind, wav, samples, sample_rate } => {
            assert_eq!(kind, EntryType::Edit);
            assert_eq!(samples, 3);
            assert_eq!(sample_rate, 16000);
            assert_eq!(wav.len(), 44 + 6);
            assert_eq!(&wav[0..4], b"RIFF");
            assert_eq!(&wav[44..], &[1, 0, 255, 255, 3, 0]);
        }
        other => panic!("unexpected {:?}", other),
    }
}
