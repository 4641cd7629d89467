use notype_mini::{
    add_entry, clear_history, delete_entry, export_to_markdown, get_entries, get_stats, update_polished_text,
    CalendarDate, EntryType, HistoryEntry, HistoryStore, LocalDateTime, MAX_HISTORY_ENTRIES,
};

fn at(y: i32, mo: u32, d: u32, h: u32, mi: u32, s: u32) -> LocalDateTime {
    LocalDateTime::new(y, mo, d, h, mi, s, 0, 8 * 3600).unwrap()
}

fn entry(id: &str, text: &str, words: usize, kind: EntryType, ts: LocalDateTime) -> HistoryEntry {
    HistoryEntry {
        id: id.to_string(),
        timestamp: ts,
        raw_text: "raw".to_string(),
        polished_text: text.to_string(),
        word_count: words,
        duration_ms: 1000,
        entry_type: kind,
    }
}

#[test]
fn test_stats_split_by_type() {
    let now = at(2024, 5, 1, 10, 0, 0);
    let mut store = HistoryStore::new();
    store.entries = vec![
        entry("1", "hello world", 2, EntryType::Transcribe, now),
        entry("2", "foo bar baz", 3, EntryType::Edit, now),
    ];
    let stats = get_stats(&store, now.date());
    assert_eq!(stats.transcribe_total_words, 2);
    assert_eq!(stats.edit_total_words, 3);
    assert_eq!(stats.transcribe_total_sessions, 1);
    assert_eq!(stats.edit_total_sessions, 1);
}

#[test]
fn stats_today_counts_only_today() {
    let mut store = HistoryStore::new();
    store.entries = vec![
        entry("1", "a", 5, EntryType::Transcribe, at(2024, 5, 1, 23, 59, 59)),
        entry("2", "b", 7, EntryType::Transcribe, at(2024, 4, 30, 12, 0, 0)),
        entry("3", "c", 4, EntryType::Edit, at(2024, 5, 1, 0, 0, 0)),
    ];
    let stats = get_stats(&store, CalendarDate { year: 2024, month: 5, day: 1 });
    assert_eq!(stats.transcribe_total_words, 12);
    assert_eq!(stats.transcribe_today_words, 5);
    assert_eq!(stats.edit_today_words, 4);
    assert_eq!(stats.transcribe_total_sessions, 2);
}

#[test]
fn newest_first_and_bounded() {
    let mut store = HistoryStore::new();
    for i in 0..MAX_HISTORY_ENTRIES + 5 {
        add_entry(&mut store, entry(&i.to_string(), "t", 1, EntryType::Transcribe, at(2024, 1, 1, 0, 0, 0)));
    }
    assert_eq!(store.entries.len(), MAX_HISTORY_ENTRIES);
    assert_eq!(store.entries[0].id, (MAX_HISTORY_ENTRIES + 4).to_string());
    assert_eq!(get_entries(&store, Some(3)).len(), 3);
    assert_eq!(get_entries(&store, Some(1000)).len(), MAX_HISTORY_ENTRIES);
    assert_eq!(get_entries(&store, None).len(), MAX_HISTORY_ENTRIES);
}

#[test]
fn delete_update_clear() {
    let mut store = HistoryStore::new();
    let t = at(2024, 1, 1, 0, 0, 0);
    add_entry(&mut store, entry("a", "x", 1, EntryType::Transcribe, t));
    add_entry(&mut store, entry("b", "y", 1, EntryType::Transcribe, t));
    add_entry(&mut store, entry("a", "z", 1, EntryType::Edit, t));
    delete_entry(&mut store, "a");
    assert_eq!(store.entries.len(), 1);
    assert_eq!(store.entries[0].id, "b");
    let updated = update_polished_text(&mut store, "b", "新的文字".to_string()).unwrap();
    assert_eq!(updated.word_count, 4);
    assert_eq!(store.entries[0].polished_text, "新的文字");
    assert!(update_polished_text(&mut store, "missing", "q".to_string()).is_none());
    clear_history(&mut store);
    assert!(store.entries.is_empty());
}

#[test]
fn markdown_export() {
    let mut store = HistoryStore::new();
    add_entry(&mut store, entry("1", "第一条", 3, EntryType::Transcribe, at(2024, 3, 5, 7, 8, 9)));
    add_entry(&mut store, entry("2", "改好了", 3, EntryType::Edit, at(2024, 12, 31, 23, 59, 1)));
    assert_eq!(
        export_to_markdown(&store),
        "# NoType Mini 转写历史\n\n## [编辑] 2024-12-31 23:59:01\n\n改好了\n\n## [录音] 2024-03-05 07:08:09\n\n第一条\n\n"
    );
}

#[test]
fn time_text_edge_years_and_leap_second() {
    assert_eq!(at(7, 1, 2, 3, 4, 5).display(), "0007-01-02 03:04:05");
    assert_eq!(at(12345, 1, 1, 0, 0, 0).display(), "+12345-01-01 00:00:00");
    assert_eq!(at(-5, 1, 1, 0, 0, 0).display(), "-0005-01-01 00:00:00");
    let leap = LocalDateTime::new(2016, 12, 31, 23, 59, 59, 1_500_000_000, 0).unwrap();
    assert_eq!(leap.display(), "2016-12-31 23:59:60");
    assert!(LocalDateTime::new(2016, 13, 1, 0, 0, 0, 0, 0).is_none());
}

#[test]
fn default_entry_type() {
    assert_eq!(EntryType::default(), EntryType::Transcribe);
}
