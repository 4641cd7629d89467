use notype_mini::{
    after_keyboard_failure, after_start, edit_history_text, input_route, on_shortcut, parse_shortcut, plan_settings_update, shortcut_role,
    settings_begin, settings_step, should_polish, ActiveMode, Config, DictionaryEntry, InputRoute, RecordingMode,
    SessionAction, SettingsAction, SettingsStage, ShortcutRole,
};

#[test]
fn recording_mode_from_setting() {
    assert_eq!(RecordingMode::from("continuous"), RecordingMode::Continuous);
    assert_eq!(RecordingMode::from("push_to_talk"), RecordingMode::PushToTalk);
    assert_eq!(RecordingMode::from("other"), RecordingMode::PushToTalk);
}

#[test]
fn roles_of_fired_shortcuts() {
    let rec = parse_shortcut("Command+Period").unwrap();
    let edit = parse_shortcut("Command+Option+Period").unwrap();
    let esc = parse_shortcut("Shift+Escape").unwrap();
    assert_eq!(shortcut_role(&rec, true, Some(rec), Some(edit)), ShortcutRole::Record);
    assert_eq!(shortcut_role(&edit, false, Some(rec), Some(edit)), ShortcutRole::Edit);
    assert_eq!(shortcut_role(&esc, true, Some(rec), Some(edit)), ShortcutRole::Cancel);
    assert_eq!(shortcut_role(&esc, false, Some(rec), Some(edit)), ShortcutRole::Unknown);
    assert_eq!(shortcut_role(&esc, false, Some(esc), Some(edit)), ShortcutRole::Record);
    assert_eq!(shortcut_role(&rec, true, None, Some(edit)), ShortcutRole::Unknown);
}

#[test]
fn push_to_talk_session() {
    let s = on_shortcut(ActiveMode::Idle, ShortcutRole::Record, true, RecordingMode::PushToTalk);
    assert_eq!(s.mode, ActiveMode::Transcribe);
    assert_eq!(s.action, SessionAction::Start(ActiveMode::Transcribe));
    let s = on_shortcut(ActiveMode::Transcribe, ShortcutRole::Record, false, RecordingMode::PushToTalk);
    assert_eq!(s.mode, ActiveMode::Idle);
    assert_eq!(s.action, SessionAction::Stop);
    let s = on_shortcut(ActiveMode::Edit, ShortcutRole::Record, true, RecordingMode::PushToTalk);
    assert_eq!(s.action, SessionAction::Nothing);
    assert_eq!(s.mode, ActiveMode::Edit);
}

#[test]
fn continuous_session() {
    let s = on_shortcut(ActiveMode::Idle, ShortcutRole::Record, true, RecordingMode::Continuous);
    assert_eq!(s.mode, ActiveMode::Idle);
    assert_eq!(s.action, SessionAction::Start(ActiveMode::Transcribe));
    assert_eq!(after_start(s.mode, ActiveMode::Transcribe, true), ActiveMode::Transcribe);
    assert_eq!(after_start(s.mode, ActiveMode::Transcribe, false), ActiveMode::Idle);
    let s = on_shortcut(ActiveMode::Transcribe, ShortcutRole::Record, false, RecordingMode::Continuous);
    assert_eq!(s.action, SessionAction::Nothing);
    let s = on_shortcut(ActiveMode::Transcribe, ShortcutRole::Record, true, RecordingMode::Continuous);
    assert_eq!(s.action, SessionAction::Stop);
    assert_eq!(s.mode, ActiveMode::Idle);
}

#[test]
fn edit_session_and_escape() {
    let s = on_shortcut(ActiveMode::Idle, ShortcutRole::Edit, true, RecordingMode::Continuous);
    assert_eq!(s.action, SessionAction::Start(ActiveMode::Edit));
    assert_eq!(s.mode, ActiveMode::Edit);
    let s = on_shortcut(ActiveMode::Edit, ShortcutRole::Cancel, true, RecordingMode::Continuous);
    assert_eq!(s.action, SessionAction::Cancel);
    assert_eq!(s.mode, ActiveMode::Idle);
    let s = on_shortcut(ActiveMode::Idle, ShortcutRole::Cancel, true, RecordingMode::Continuous);
    assert_eq!(s.action, SessionAction::Nothing);
}

#[test]
fn settings_update_checks_in_order() {
    let mut c = Config::default();
    assert_eq!(
        plan_settings_update(ActiveMode::Transcribe, &c, None, None),
        Err("请先结束当前录音或编辑再修改设置".to_string())
    );
    c.edit_shortcut = "Command+Period".to_string();
    assert_eq!(plan_settings_update(ActiveMode::Idle, &c, None, None), Err("录音快捷键和编辑快捷键不能相同".to_string()));
    c.shortcut = "Esc".to_string();
    assert_eq!(plan_settings_update(ActiveMode::Idle, &c, None, None), Err("录音快捷键不能是 Esc".to_string()));
    c.shortcut = "Command+Period".to_string();
    c.edit_shortcut = "escape".to_string();
    assert_eq!(plan_settings_update(ActiveMode::Idle, &c, None, None), Err("编辑快捷键不能是 Esc".to_string()));
    c.edit_shortcut = "Command+Nope".to_string();
    assert_eq!(plan_settings_update(ActiveMode::Idle, &c, None, None), Err("不支持的按键: nope".to_string()));
    c.dictionary = vec![
        DictionaryEntry { from: "a".to_string(), to: "b".to_string() },
        DictionaryEntry { from: "A".to_string(), to: "c".to_string() },
    ];
    assert_eq!(
        plan_settings_update(ActiveMode::Idle, &c, None, None),
        Err("词典中存在重复的 'from' 条目: A".to_string())
    );
}

#[test]
fn settings_update_registers_only_changes() {
    let c = Config::default();
    let rec = parse_shortcut("Command+Period").unwrap();
    let edit = parse_shortcut("Command+Option+Period").unwrap();
    let p = plan_settings_update(ActiveMode::Idle, &c, Some(rec), Some(edit)).unwrap();
    assert!(!p.register_record && !p.register_edit);
    assert_eq!(p.release_record, None);
    let old = parse_shortcut("Ctrl+K").unwrap();
    let p = plan_settings_update(ActiveMode::Idle, &c, Some(old), Some(edit)).unwrap();
    assert!(p.register_record && !p.register_edit);
    assert_eq!(p.release_record, Some(old));
    assert_eq!(p.record, rec);
    assert_eq!(p.release_edit, None);
}

#[test]
fn long_text_goes_through_clipboard() {
    assert_eq!(input_route("一二三", true, 2), InputRoute::Clipboard);
    assert_eq!(input_route("一二", true, 2), InputRoute::Keyboard);
    assert_eq!(input_route("一二三", false, 2), InputRoute::Keyboard);
}

#[test]
fn polish_only_in_polish_mode() {
    assert!(should_polish("polish"));
    assert!(!should_polish("verbatim"));
}

#[test]
fn edit_history_text_is_capped() {
    assert_eq!(edit_history_text("改短", Some("原文")), "instruction: 改短 | selected: 原文");
    assert_eq!(edit_history_text("写诗", None), "instruction: 写诗 | selected: <无>");
    let long = "字".repeat(300);
    let t = edit_history_text("x", Some(&long));
    assert_eq!(t.chars().count(), 253);
    assert!(t.ends_with("字..."));
    assert!(t.starts_with("instruction: x | selected: 字"));
}

#[test]
fn keyboard_failure_falls_back_to_the_clipboard() {
    assert_eq!(after_keyboard_failure(true, "NoPermission"), Ok(InputRoute::Clipboard));
    assert_eq!(after_keyboard_failure(false, "NoPermission"), Err("键盘输入失败: NoPermission".to_string()));
}

#[test]
fn push_to_talk_and_continuous_cycles() {
    let press = on_shortcut(ActiveMode::Idle, ShortcutRole::Record, true, RecordingMode::PushToTalk);
    assert_eq!(press.action, SessionAction::Start(ActiveMode::Transcribe));
    let running = after_start(press.mode, ActiveMode::Transcribe, true);
    let release = on_shortcut(running, ShortcutRole::Record, false, RecordingMode::PushToTalk);
    assert_eq!(release.action, SessionAction::Stop);
    assert_eq!(release.mode, ActiveMode::Idle);

    let press = on_shortcut(ActiveMode::Idle, ShortcutRole::Record, true, RecordingMode::Continuous);
    let running = after_start(press.mode, ActiveMode::Transcribe, true);
    assert_eq!(on_shortcut(running, ShortcutRole::Record, false, RecordingMode::Continuous).action, SessionAction::Nothing);
    assert_eq!(on_shortcut(running, ShortcutRole::Record, true, RecordingMode::Continuous).action, SessionAction::Stop);
    assert_eq!(on_shortcut(running, ShortcutRole::Cancel, true, RecordingMode::Continuous).action, SessionAction::Cancel);
}

fn plan_for_change(record: &str, edit: &str, old_record: &str, old_edit: &str) -> notype_mini::SettingsPlan {
    let mut config = Config::default();
    config.shortcut = record.to_string();
    config.edit_shortcut = edit.to_string();
    let old_r = parse_shortcut(old_record).unwrap();
    let old_e = parse_shortcut(old_edit).unwrap();
    plan_settings_update(ActiveMode::Idle, &config, Some(old_r), Some(old_e)).unwrap()
}

#[test]
fn failed_edit_registration_rolls_back_the_record_shortcut() {
    let plan = plan_for_change("Command+Comma", "Command+Slash", "Command+Period", "Command+Option+Period");
    let (stage, acts) = settings_begin(&plan);
    assert_eq!(stage, SettingsStage::RegisteringRecord);
    assert_eq!(acts, vec![SettingsAction::Register(plan.record)]);
    let (stage, acts) = settings_step(&plan, stage, Ok(()));
    assert_eq!(stage, SettingsStage::RegisteringEdit);
    assert_eq!(acts, vec![SettingsAction::Register(plan.edit)]);
    let (stage, acts) = settings_step(&plan, stage, Err("taken".to_string()));
    assert_eq!(stage, SettingsStage::Done);
    assert_eq!(
        acts,
        vec![SettingsAction::Unregister(plan.record), SettingsAction::Fail("注册编辑快捷键失败: taken".to_string())]
    );
}

#[test]
fn successful_change_adopts_releases_saves_then_applies() {
    let plan = plan_for_change("Command+Comma", "Command+Option+Period", "Command+Period", "Command+Option+Period");
    let (stage, acts) = settings_begin(&plan);
    assert_eq!(acts, vec![SettingsAction::Register(plan.record)]);
    let (stage, acts) = settings_step(&plan, stage, Ok(()));
    assert_eq!(stage, SettingsStage::Saving);
    assert_eq!(
        acts,
        vec![
            SettingsAction::Adopt,
            SettingsAction::Unregister(parse_shortcut("Command+Period").unwrap()),
            SettingsAction::Save
        ]
    );
    let (stage, acts) = settings_step(&plan, stage, Err("disk full".to_string()));
    assert_eq!(stage, SettingsStage::Done);
    assert_eq!(acts, vec![SettingsAction::Fail("disk full".to_string())]);
    let (_, acts) = settings_step(&plan, SettingsStage::Saving, Ok(()));
    assert_eq!(acts, vec![SettingsAction::Apply]);
}

#[test]
fn unchanged_shortcuts_only_save() {
    let plan = plan_for_change("Command+Period", "Command+Option+Period", "Command+Period", "Command+Option+Period");
    assert_eq!(settings_begin(&plan), (SettingsStage::Saving, vec![SettingsAction::Save]));
    let failed_record = plan_for_change("Command+Comma", "Command+Option+Period", "Command+Period", "Command+Option+Period");
    let (_, acts) = settings_step(&failed_record, SettingsStage::RegisteringRecord, Err("busy".to_string()));
    assert_eq!(acts, vec![SettingsAction::Fail("注册录音快捷键失败: busy".to_string())]);
}
