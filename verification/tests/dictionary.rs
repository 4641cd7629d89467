use notype_mini::{apply_dictionary, check_dictionary_keys, slice_equal_case_insensitive, validate_dictionary, DictionaryEntry};

fn entries(list: &[(&str, &str)]) -> Vec<DictionaryEntry> {
    list.iter()
        .map(|(from, to)| DictionaryEntry { from: from.to_string(), to: to.to_string() })
        .collect()
}

#[test]
fn test_basic_replacement() {
    let entries = entries(&[("拉斯特", "Rust"), ("嗯", "")]);
    assert_eq!(apply_dictionary("拉斯特很好用", &entries), "Rust很好用");
}

#[test]
fn test_longest_match() {
    let entries = entries(&[("拉斯特", "Rust"), ("拉斯特级", "RustLevel")]);
    assert_eq!(apply_dictionary("拉斯特级战舰", &entries), "RustLevel战舰");
}

#[test]
fn test_no_cascade() {
    let entries = entries(&[("a", "b"), ("b", "c")]);
    assert_eq!(apply_dictionary("a", &entries), "b");
    assert_eq!(apply_dictionary("b", &entries), "c");
}

#[test]
fn test_case_insensitive_ascii() {
    let entries = entries(&[("rust", "Rust")]);
    assert_eq!(apply_dictionary("RUST is great", &entries), "Rust is great");
    assert_eq!(apply_dictionary("Rust is great", &entries), "Rust is great");
}

#[test]
fn test_trim_and_empty() {
    let entries = vec![
        DictionaryEntry { from: "  拉斯特  ".to_string(), to: "  Rust  ".to_string() },
        DictionaryEntry { from: "   ".to_string(), to: "x".to_string() },
    ];
    assert_eq!(apply_dictionary("拉斯特很好用", &entries), "Rust很好用");
}

#[test]
fn test_validation_rejects_duplicates() {
    let entries = vec![
        DictionaryEntry { from: "拉斯特".to_string(), to: "Rust".to_string() },
        DictionaryEntry { from: "拉斯特".to_string(), to: "Rust2".to_string() },
    ];
    assert!(validate_dictionary(&entries).is_err());
}

#[test]
fn test_validation_skips_empty() {
    let entries = vec![
        DictionaryEntry { from: "".to_string(), to: "x".to_string() },
        DictionaryEntry { from: "拉斯特".to_string(), to: "Rust".to_string() },
    ];
    assert!(validate_dictionary(&entries).is_ok());
}

#[test]
fn validation_names_the_later_duplicate_ignoring_case() {
    let entries = vec![
        DictionaryEntry { from: "Rust".to_string(), to: "a".to_string() },
        DictionaryEntry { from: "  rust ".to_string(), to: "b".to_string() },
    ];
    assert_eq!(validate_dictionary(&entries), Err("词典中存在重复的 'from' 条目: rust".to_string()));
}

#[test]
fn empty_dictionary_leaves_text_unchanged() {
    assert_eq!(apply_dictionary("嗯，好的 OK", &[]), "嗯，好的 OK");
    let blank = entries(&[("  ", "x"), ("", "y")]);
    assert_eq!(apply_dictionary("abc", &blank), "abc");
}

#[test]
fn deletion_rule_removes_filler() {
    let entries = entries(&[("嗯", "")]);
    assert_eq!(apply_dictionary("嗯嗯好的嗯", &entries), "好的");
}

#[test]
fn earlier_rule_wins_on_equal_length() {
    let entries = entries(&[("ab", "X"), ("AB", "Y")]);
    assert_eq!(apply_dictionary("zabz", &entries), "zXz");
}

#[test]
fn matches_do_not_overlap() {
    let entries = entries(&[("aa", "b")]);
    assert_eq!(apply_dictionary("aaa", &entries), "ba");
}

#[test]
fn non_ascii_is_matched_exactly() {
    let entries = entries(&[("é", "e")]);
    assert_eq!(apply_dictionary("É é", &entries), "É e");
}

#[test]
fn slice_comparison_ignores_only_ascii_case() {
    let a: Vec<char> = "RuSt1".chars().collect();
    let b: Vec<char> = "rUsT1".chars().collect();
    assert!(slice_equal_case_insensitive(&a, &b));
    let c: Vec<char> = "rust".chars().collect();
    assert!(!slice_equal_case_insensitive(&a, &c));
}

#[test]
fn duplicate_keys_name_the_later_entry() {
    let list = entries(&[(" Rust ", "a"), ("", "b"), ("go", "c"), ("rust", "d")]);
    let keys = vec![Some("rust".to_string()), None, Some("go".to_string()), Some("rust".to_string())];
    assert_eq!(check_dictionary_keys(&list, &keys), Err("词典中存在重复的 'from' 条目: rust".to_string()));
    let keys = vec![Some("rust".to_string()), None, Some("go".to_string()), Some("rust2".to_string())];
    assert_eq!(check_dictionary_keys(&list, &keys), Ok(()));
    let keys = vec![None, None, None, None];
    assert_eq!(check_dictionary_keys(&list, &keys), Ok(()));
}

#[test]
fn duplicates_are_found_after_lowercasing() {
    let list = entries(&[(" Rust ", "a"), ("", "b"), ("  ", "c"), ("RUST", "d")]);
    assert_eq!(validate_dictionary(&list), Err("词典中存在重复的 'from' 条目: RUST".to_string()));
    let list = entries(&[("", "b"), ("  ", "c")]);
    assert_eq!(validate_dictionary(&list), Ok(()));
}

#[test]
fn entry_order_does_not_matter_for_a_valid_dictionary() {
    let a = entries(&[("拉斯特", "Rust"), ("拉斯特级", "RustLevel"), ("go", "Go"), ("嗯", "")]);
    let b = entries(&[("嗯", ""), ("go", "Go"), ("拉斯特级", "RustLevel"), ("拉斯特", "Rust")]);
    assert!(validate_dictionary(&a).is_ok());
    let text = "嗯拉斯特级和拉斯特还有GO";
    assert_eq!(apply_dictionary(text, &a), apply_dictionary(text, &b));
    assert_eq!(apply_dictionary(text, &a), "RustLevel和Rust还有Go");
}

#[test]
fn froms_differing_in_ascii_case_are_duplicates() {
    let list = entries(&[("拉斯特Go", "a"), ("拉斯特gO", "b")]);
    assert_eq!(validate_dictionary(&list), Err("词典中存在重复的 'from' 条目: 拉斯特gO".to_string()));
}
