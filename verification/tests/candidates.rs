use notype_mini::{
    accept_candidate, add_candidates, extract_correction_pairs, pairs_from_ops, CharDiffOp, DiffKind, from_eq, get_candidates, normalize_pair,
    reject_candidate, CandidateEntry, CandidateStore, MAX_CANDIDATES,
};

fn empty_store() -> CandidateStore {
    CandidateStore { pending: Vec::new(), rejected: Vec::new() }
}

#[test]
fn test_extract_single_replacement() {
    let pairs = extract_correction_pairs("拉斯特很好用", "Rust很好用");
    assert_eq!(pairs, vec![("拉斯特".to_string(), "Rust".to_string())]);
}

#[test]
fn test_extract_multiple_replacements() {
    let pairs = extract_correction_pairs("拉斯特和一鸣", "Rust和依鸣");
    assert_eq!(
        pairs,
        vec![("拉斯特".to_string(), "Rust".to_string()), ("一".to_string(), "依".to_string()),]
    );
}

#[test]
fn test_extract_pure_delete() {
    let pairs = extract_correction_pairs("嗯好的", "好的");
    assert_eq!(pairs, vec![("嗯".to_string(), "".to_string())]);
}

#[test]
fn test_extract_pure_insert_is_skipped() {
    let pairs = extract_correction_pairs("好的", "嗯好的");
    assert!(pairs.is_empty());
}

#[test]
fn test_extract_no_change() {
    let pairs = extract_correction_pairs("完全一样", "完全一样");
    assert!(pairs.is_empty());
}

#[test]
fn test_add_candidates_filters_existing_and_rejected() {
    let mut store = empty_store();
    let dict = vec![("拉斯特".to_string(), "Rust".to_string())];
    let pairs = vec![
        ("拉斯特".to_string(), "Rust".to_string()),
        ("一鸣".to_string(), "依鸣".to_string()),
        ("  一鸣  ".to_string(), "依鸣".to_string()),
        ("那个".to_string(), "".to_string()),
        ("".to_string(), "x".to_string()),
        ("相同".to_string(), "相同".to_string()),
    ];

    let pending = add_candidates(&mut store, &pairs, &dict);
    assert_eq!(pending.len(), 2);

    let yiming = pending.iter().find(|c| c.from == "一鸣").unwrap();
    assert_eq!(yiming.count, 2);
    assert_eq!(yiming.to, "依鸣");

    let nage = pending.iter().find(|c| c.from == "那个").unwrap();
    assert_eq!(nage.to, "");
    assert_eq!(nage.count, 1);
}

#[test]
fn test_reject_and_re_add_is_ignored() {
    let mut store = empty_store();
    let pairs = vec![("一鸣".to_string(), "依鸣".to_string())];
    let pending = add_candidates(&mut store, &pairs, &[]);
    assert_eq!(pending.len(), 1);
    assert_eq!(pending[0].from, "一鸣");
    assert_eq!(pending[0].to, "依鸣");

    reject_candidate(&mut store, "一鸣", "依鸣").unwrap();

    let pending2 = add_candidates(&mut store, &pairs, &[]);
    assert!(pending2.is_empty());
}

#[test]
fn test_accept_candidate() {
    let mut store = empty_store();
    let pairs = vec![("一鸣".to_string(), "依鸣".to_string())];
    add_candidates(&mut store, &pairs, &[]);

    let (from, to) = accept_candidate(&mut store, "一鸣", "依鸣").unwrap();
    assert_eq!(from, "一鸣");
    assert_eq!(to, "依鸣");

    assert!(get_candidates(&store).is_empty());
}

#[test]
fn missing_candidate_is_reported() {
    let mut store = empty_store();
    assert_eq!(accept_candidate(&mut store, "a", "b"), Err("候选不存在".to_string()));
    assert_eq!(reject_candidate(&mut store, "a", "b"), Err("候选不存在".to_string()));
    assert!(store.rejected.is_empty());
}

#[test]
fn from_matching_ignores_ascii_case_only() {
    assert!(from_eq("Rust", "rUST"));
    assert!(!from_eq("Rust", "Rus"));
    assert!(!from_eq("É", "é"));
    assert_eq!(normalize_pair("  a b ", "\tc\n"), ("a b".to_string(), "c".to_string()));
}

#[test]
fn accepted_pair_keeps_stored_spelling() {
    let mut store = empty_store();
    add_candidates(&mut store, &[("Rust".to_string(), "X".to_string())], &[]);
    let (from, to) = accept_candidate(&mut store, "rust", "X").unwrap();
    assert_eq!((from.as_str(), to.as_str()), ("Rust", "X"));
}

#[test]
fn rejected_pair_is_remembered_once() {
    let mut store = empty_store();
    let p = vec![("a".to_string(), "b".to_string())];
    add_candidates(&mut store, &p, &[]);
    reject_candidate(&mut store, "a", "b").unwrap();
    store.pending.push(CandidateEntry { from: "A".to_string(), to: "b".to_string(), count: 3 });
    reject_candidate(&mut store, "a", "b").unwrap();
    assert_eq!(store.rejected.len(), 1);
}

#[test]
fn queue_is_cut_to_the_most_frequent() {
    let mut store = empty_store();
    for i in 0..MAX_CANDIDATES + 3 {
        store.pending.push(CandidateEntry { from: format!("w{:04}", i), to: "x".to_string(), count: 1 });
    }
    store.pending[700 % (MAX_CANDIDATES + 3)].count = 9;
    let busy = store.pending[700 % (MAX_CANDIDATES + 3)].from.clone();
    let pending = add_candidates(&mut store, &[("zz".to_string(), "y".to_string())], &[]);
    assert_eq!(pending.len(), MAX_CANDIDATES);
    assert_eq!(pending[0].from, busy);
    assert_eq!(pending[1].from, "w0000");
    assert_eq!(pending[2].from, "w0001");
    assert!(pending.iter().all(|c| c.from != "zz"));
}

#[test]
fn count_saturates() {
    let mut store = empty_store();
    store.pending.push(CandidateEntry { from: "a".to_string(), to: "b".to_string(), count: u32::MAX });
    let pending = add_candidates(&mut store, &[("a".to_string(), "b".to_string())], &[]);
    assert_eq!(pending[0].count, u32::MAX);
}

#[test]
fn diff_operations_become_pairs() {
    let op = |kind, old_start, old_end, new_start, new_end| CharDiffOp { kind, old_start, old_end, new_start, new_end };
    let ops = vec![
        op(DiffKind::Equal, 0, 1, 0, 1),
        op(DiffKind::Replace, 1, 3, 1, 2),
        op(DiffKind::Insert, 3, 3, 2, 4),
        op(DiffKind::Delete, 3, 4, 4, 4),
    ];
    assert_eq!(
        pairs_from_ops("我拉斯嗯", "我R加上", &ops),
        vec![("拉斯".to_string(), "R".to_string()), ("嗯".to_string(), String::new())]
    );
    assert!(pairs_from_ops("abc", "abc", &[op(DiffKind::Equal, 0, 3, 0, 3)]).is_empty());
}
