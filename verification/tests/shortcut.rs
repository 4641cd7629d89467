use notype_mini::{is_bare_escape, normalize_key, normalize_modifier, parse_shortcut, KeyCode, ModifierKey};

#[test]
fn test_parse_shortcut_command_period() {
    let shortcut = parse_shortcut("Command+Period").unwrap();
    assert_eq!(shortcut.key, KeyCode::Period);
    assert!(shortcut.mods.contains(ModifierKey::Super));
}

#[test]
fn test_parse_shortcut_command_option_period() {
    let shortcut = parse_shortcut("Command+Option+Period").unwrap();
    assert_eq!(shortcut.key, KeyCode::Period);
    assert!(shortcut.mods.contains(ModifierKey::Super));
    assert!(shortcut.mods.contains(ModifierKey::Alt));
}

#[test]
fn test_parse_shortcut_aliases() {
    let a = parse_shortcut("Cmd+Alt+.").unwrap();
    let b = parse_shortcut("Command+Option+Period").unwrap();
    assert_eq!(a.key, b.key);
    assert_eq!(a.mods, b.mods);
}

#[test]
fn test_parse_shortcut_bare_escape() {
    let shortcut = parse_shortcut("Escape").unwrap();
    assert!(is_bare_escape(&shortcut));
}

#[test]
fn test_parse_shortcut_empty_rejected() {
    assert!(parse_shortcut("").is_err());
    assert!(parse_shortcut("   ").is_err());
}

#[test]
fn test_parse_shortcut_invalid_modifier() {
    assert!(parse_shortcut("Foo+Period").is_err());
}

#[test]
fn test_parse_shortcut_invalid_key() {
    assert!(parse_shortcut("Command+Foo").is_err());
}

#[test]
fn parse_errors_name_the_culprit() {
    assert_eq!(parse_shortcut("  "), Err("快捷键不能为空".to_string()));
    assert_eq!(parse_shortcut("Command+Foo"), Err("不支持的按键: foo".to_string()));
    assert_eq!(parse_shortcut(" Foo + Period"), Err("不支持的修饰键: Foo".to_string()));
    assert_eq!(parse_shortcut("Foo+Bar"), Err("不支持的按键: bar".to_string()));
}

#[test]
fn parse_shortcut_with_spaces_and_case() {
    let s = parse_shortcut("  ctrl + SHIFT + k ").unwrap();
    assert_eq!(s.key, KeyCode::KeyK);
    assert!(s.mods.contains(ModifierKey::Control));
    assert!(s.mods.contains(ModifierKey::Shift));
    assert!(!s.mods.contains(ModifierKey::Super));
    assert!(!is_bare_escape(&parse_shortcut("Shift+Esc").unwrap()));
}

#[test]
fn key_names() {
    assert_eq!(normalize_key("."), Some(KeyCode::Period));
    assert_eq!(normalize_key("return"), Some(KeyCode::Enter));
    assert_eq!(normalize_key("left"), Some(KeyCode::ArrowLeft));
    assert_eq!(normalize_key("\\"), Some(KeyCode::Backslash));
    assert_eq!(normalize_key("\""), Some(KeyCode::Quote));
    assert_eq!(normalize_key("7"), Some(KeyCode::Digit7));
    assert_eq!(normalize_key("z"), Some(KeyCode::KeyZ));
    assert_eq!(normalize_key("Z"), None);
    assert_eq!(normalize_key("f1"), None);
}

#[test]
fn modifier_names() {
    assert_eq!(normalize_modifier("cmd"), Some(ModifierKey::Super));
    assert_eq!(normalize_modifier("win"), Some(ModifierKey::Super));
    assert_eq!(normalize_modifier("ctrl"), Some(ModifierKey::Control));
    assert_eq!(normalize_modifier("option"), Some(ModifierKey::Alt));
    assert_eq!(normalize_modifier("shift"), Some(ModifierKey::Shift));
    assert_eq!(normalize_modifier("Shift"), None);
    assert_eq!(normalize_modifier("hyper"), None);
}
