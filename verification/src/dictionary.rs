//! Personal dictionary: validation and left-to-right longest-match replacement.

use vstd::prelude::*;

use crate::text::{
    char_eq_ci, char_eq_ignore_ascii_case, chars_of, concat, owned, push_char, seq_eq_ci,
    to_lowercase, trim, trim_seq, unicode_lowercase, ascii_lower_seq, lemma_seq_eq_ci_ascii_lower,
};

verus! {

/// One dictionary rule: occurrences of `from` are replaced by `to`.
#[derive(Debug)]
pub struct DictionaryEntry {
    pub from: String,
    pub to: String,
}

impl Clone for DictionaryEntry {
    fn clone(&self) -> (r: Self)
        ensures
            r == *self,
    {
        DictionaryEntry { from: self.from.clone(), to: self.to.clone() }
    }
}

/// The rules that take part in replacement, in dictionary order: entries whose
/// trimmed `from` is non-empty, as (trimmed `from`, trimmed `to`).
pub open spec fn cleaned_entries(es: Seq<DictionaryEntry>) -> Seq<(Seq<char>, Seq<char>)>
    decreases es.len(),
{
    if es.len() == 0 {
        seq![]
    } else {
        let rest = cleaned_entries(es.drop_last());
        let f = trim_seq(es.last().from@);
        if f.len() > 0 {
            rest.push((f, trim_seq(es.last().to@)))
        } else {
            rest
        }
    }
}

/// `from` occurs (ignoring ASCII case) in `text` at position `i`.
pub open spec fn matches_at(text: Seq<char>, i: int, from: Seq<char>) -> bool {
    &&& 0 <= i
    &&& i + from.len() <= text.len()
    &&& seq_eq_ci(text.subrange(i, i + from.len()), from)
}

/// Among the first `k` rules, the longest one matching at `i`, as
/// (length, replacement); on equal lengths the earlier rule wins; (0, empty)
/// when none matches.
pub open spec fn best_match(text: Seq<char>, i: int, dict: Seq<(Seq<char>, Seq<char>)>, k: int) -> (
    nat,
    Seq<char>,
)
    decreases k,
{
    if k <= 0 {
        (0, seq![])
    } else {
        let prev = best_match(text, i, dict, k - 1);
        let f = dict[k - 1].0;
        if matches_at(text, i, f) && f.len() > prev.0 {
            (f.len(), dict[k - 1].1)
        } else {
            prev
        }
    }
}

/// Replacement of `text[i..]`: scan left to right; at each position emit the
/// replacement of the longest matching rule and jump past the matched text,
/// or copy one character when no rule matches. Emitted text is never scanned again.
pub open spec fn apply_from(text: Seq<char>, dict: Seq<(Seq<char>, Seq<char>)>, i: int) -> Seq<
    char,
>
    decreases text.len() - i,
{
    if i < 0 || i >= text.len() {
        seq![]
    } else {
        let b = best_match(text, i, dict, dict.len() as int);
        if b.0 > 0 && i + b.0 <= text.len() {
            b.1 + apply_from(text, dict, i + b.0)
        } else {
            seq![text[i]] + apply_from(text, dict, i + 1)
        }
    }
}

/// The text produced by applying the dictionary `entries` to `text`.
pub open spec fn dictionary_result(text: Seq<char>, entries: Seq<DictionaryEntry>) -> Seq<char> {
    apply_from(text, cleaned_entries(entries), 0)
}

/// The key under which each entry is checked for duplicates: its trimmed
/// `from` lower-cased, or nothing when the trimmed `from` is empty.
pub open spec fn dictionary_keys(es: Seq<DictionaryEntry>) -> Seq<Option<Seq<char>>> {
    Seq::new(
        es.len(),
        |i: int|
            if trim_seq(es[i].from@).len() > 0 {
                Some(unicode_lowercase(trim_seq(es[i].from@)))
            } else {
                None
            },
    )
}

/// Key `j` is present and an earlier key equals it.
pub open spec fn repeats_key(keys: Seq<Option<Seq<char>>>, j: int) -> bool {
    &&& 0 <= j < keys.len()
    &&& keys[j] is Some
    &&& exists|i: int| 0 <= i < j && #[trigger] keys[i] == keys[j]
}

/// The first key that repeats an earlier one (meaningful when one exists).
pub open spec fn first_repeat(keys: Seq<Option<Seq<char>>>) -> int {
    choose|j: int| repeats_key(keys, j) && forall|k: int| 0 <= k < j ==> !repeats_key(keys, k)
}

/// The message reported for a duplicated `from`.
pub open spec fn duplicate_message(from: Seq<char>) -> Seq<char> {
    "词典中存在重复的 'from' 条目: "@ + from
}

/// The outcome of checking `es` under the keys `keys`: accepted when no key
/// repeats an earlier one, otherwise rejected naming the trimmed `from` of
/// the first entry whose key does.
pub open spec fn key_check(es: Seq<DictionaryEntry>, keys: Seq<Option<Seq<char>>>) -> Result<(), Seq<char>> {
    if forall|j: int| 0 <= j < keys.len() ==> !repeats_key(keys, j) {
        Ok(())
    } else {
        Err(duplicate_message(trim_seq(es[first_repeat(keys)].from@)))
    }
}

/// The outcome of checking a dictionary.
pub open spec fn dictionary_check(es: Seq<DictionaryEntry>) -> Result<(), Seq<char>> {
    key_check(es, dictionary_keys(es))
}

/// Optional texts as optional character sequences.
pub open spec fn keys_view(keys: Seq<Option<String>>) -> Seq<Option<Seq<char>>> {
    keys.map_values(
        |k: Option<String>|
            match k {
                Some(s) => Some(s@),
                None => None,
            },
    )
}

/// Checks `entries` for duplicates under the given keys (one per entry):
/// the first entry whose key is present and equal to an earlier key is
/// rejected, naming its trimmed `from`.
pub fn check_dictionary_keys(entries: &[DictionaryEntry], keys: &[Option<String>]) -> (r: Result<(), String>)
    requires
        keys@.len() == entries@.len(),
    ensures
        r is Ok <==> key_check(entries@, keys_view(keys@)) is Ok,
        r matches Err(m) ==> key_check(entries@, keys_view(keys@)) == Err::<(), Seq<char>>(m@),
{
    let ghost kv = keys_view(keys@);
    let mut n: usize = 0;
    while n < keys.len()
        invariant
            n <= keys@.len() == entries@.len(),
            kv == keys_view(keys@),
            forall|k: int| 0 <= k < n ==> !repeats_key(kv, k),
        decreases keys@.len() - n,
    {
        match &keys[n] {
            None => {
                assert(!repeats_key(kv, n as int));
            },
            Some(key) => {
                let mut s: usize = 0;
                while s < n
                    invariant
                        s <= n < keys@.len() == entries@.len(),
                        kv == keys_view(keys@),
                        kv[n as int] == Some(key@),
                        forall|k: int| 0 <= k < n ==> !repeats_key(kv, k),
                        forall|t: int| 0 <= t < s ==> kv[t] != kv[n as int],
                    decreases n - s,
                {
                    let same = match &keys[s] {
                        Some(other) => other.eq(key),
                        None => false,
                    };
                    if same {
                        assert(kv[s as int] == kv[n as int]);
                        assert(repeats_key(kv, n as int));
                        let from = trim(entries[n].from.as_str());
                        let msg = concat("词典中存在重复的 'from' 条目: ", from.as_str());
                        proof {
                            let j = first_repeat(kv);
                            assert(repeats_key(kv, j) && forall|k: int| 0 <= k < j ==> !repeats_key(kv, k));
                            if j < n {
                            } else if j > n {
                            }
                            assert(j == n);
                        }
                        return Err(msg);
                    }
                    assert(kv[s as int] != kv[n as int]);
                    s = s + 1;
                }
                assert(!repeats_key(kv, n as int));
            },
        }
        n = n + 1;
    }
    Ok(())
}

/// Checks a dictionary: `from` is trimmed, entries with an empty `from` are
/// skipped, and two entries whose `from` agree after lower-casing are
/// rejected, naming the later one. For an accepted dictionary the order of
/// the entries does not change what `apply_dictionary` produces.
pub fn validate_dictionary(entries: &[DictionaryEntry]) -> (r: Result<(), String>)
    ensures
        r is Ok <==> dictionary_check(entries@) is Ok,
        r matches Err(m) ==> dictionary_check(entries@) == Err::<(), Seq<char>>(m@),
        r is Ok ==> forall|text: Seq<char>, perm: Seq<DictionaryEntry>|
            perm.to_multiset() == entries@.to_multiset() ==> #[trigger] dictionary_result(text, perm)
                == dictionary_result(text, entries@),
{
    let mut keys: Vec<Option<String>> = Vec::new();
    let mut n: usize = 0;
    while n < entries.len()
        invariant
            n <= entries@.len(),
            keys@.len() == n,
            forall|i: int| 0 <= i < n ==> #[trigger] keys_view(keys@)[i] == dictionary_keys(entries@)[i],
            forall|i: int|
                0 <= i < n && takes_part(#[trigger] entries@[i]) ==> unicode_lowercase(trim_seq(entries@[i].from@))
                    == unicode_lowercase(ascii_lower_seq(trim_seq(entries@[i].from@))),
        decreases entries@.len() - n,
    {
        let from = trim(entries[n].from.as_str());
        let ghost before = keys@;
        let key = if from.as_str().is_empty() {
            None
        } else {
            Some(to_lowercase(from.as_str()))
        };
        let ghost kv = keys_view(seq![key])[0];
        assert(kv == dictionary_keys(entries@)[n as int]);
        keys.push(key);
        assert forall|i: int| 0 <= i < n + 1 implies #[trigger] keys_view(keys@)[i] == dictionary_keys(entries@)[i] by {
            if i < n {
                assert(keys@[i] == before[i]);
                assert(keys_view(before)[i] == dictionary_keys(entries@)[i]);
            } else {
                assert(keys_view(keys@)[i] == kv);
            }
        }
        n = n + 1;
    }
    assert(keys_view(keys@) =~= dictionary_keys(entries@));
    let r = check_dictionary_keys(entries, keys.as_slice());
    proof {
        if r is Ok {
            lemma_valid_rules_consistent(entries@);
            assert forall|text: Seq<char>, perm: Seq<DictionaryEntry>|
                perm.to_multiset() == entries@.to_multiset() implies #[trigger] dictionary_result(text, perm)
                == dictionary_result(text, entries@) by {
                law_entry_order_irrelevant(text, entries@, perm);
            }
        }
    }
    r
}

/// In a dictionary that passes the check, and whose keys do not see ASCII
/// case, no two entries have `from`s that agree ignoring ASCII case.
proof fn lemma_valid_rules_consistent(es: Seq<DictionaryEntry>)
    requires
        dictionary_check(es) is Ok,
        forall|i: int|
            0 <= i < es.len() && takes_part(#[trigger] es[i]) ==> unicode_lowercase(trim_seq(es[i].from@))
                == unicode_lowercase(ascii_lower_seq(trim_seq(es[i].from@))),
    ensures
        consistent_rules(es),
{
    let keys = dictionary_keys(es);
    assert forall|a: int, b: int|
        0 <= a < es.len() && 0 <= b < es.len() && takes_part(#[trigger] es[a]) && takes_part(#[trigger] es[b])
            && seq_eq_ci(rule_of(es[a]).0, rule_of(es[b]).0) implies rule_of(es[a]).1 == rule_of(es[b]).1 by {
        if a != b {
            lemma_seq_eq_ci_ascii_lower(trim_seq(es[a].from@), trim_seq(es[b].from@));
            assert(keys[a] == keys[b]);
            if a < b {
                assert(repeats_key(keys, b));
            } else {
                assert(repeats_key(keys, a));
            }
        }
    }
}

/// Whether two character slices are equal, ASCII letters compared without case.
pub fn slice_equal_case_insensitive(a: &[char], b: &[char]) -> (r: bool)
    ensures
        r == seq_eq_ci(a@, b@),
{
    if a.len() != b.len() {
        return false;
    }
    let mut k: usize = 0;
    while k < a.len()
        invariant
            a@.len() == b@.len(),
            k <= a@.len(),
            forall|m: int| 0 <= m < k ==> char_eq_ci(#[trigger] a@[m], b@[m]),
        decreases a@.len() - k,
    {
        if !char_eq_ignore_ascii_case(a[k], b[k]) {
            return false;
        }
        k = k + 1;
    }
    true
}

/// The cleaned rules as (characters of trimmed `from`, trimmed `to`).
fn clean_dictionary(entries: &[DictionaryEntry]) -> (r: Vec<(Vec<char>, String)>)
    ensures
        r@.len() == cleaned_entries(entries@).len(),
        forall|k: int|
            0 <= k < r@.len() ==> (#[trigger] r@[k]).0@ == cleaned_entries(entries@)[k].0 && r@[k].1@
                == cleaned_entries(entries@)[k].1,
{
    let mut r: Vec<(Vec<char>, String)> = Vec::new();
    let mut n: usize = 0;
    while n < entries.len()
        invariant
            n <= entries@.len(),
            r@.len() == cleaned_entries(entries@.take(n as int)).len(),
            forall|k: int|
                0 <= k < r@.len() ==> (#[trigger] r@[k]).0@ == cleaned_entries(entries@.take(n as int))[k].0
                    && r@[k].1@ == cleaned_entries(entries@.take(n as int))[k].1,
        decreases entries@.len() - n,
    {
        let from = trim(entries[n].from.as_str());
        assert(entries@.take(n + 1).drop_last() =~= entries@.take(n as int));
        if !from.as_str().is_empty() {
            let to = trim(entries[n].to.as_str());
            let fc = chars_of(from.as_str());
            r.push((fc, to));
        }
        n = n + 1;
    }
    assert(entries@.take(entries@.len() as int) =~= entries@);
    r
}

/// Applies the dictionary to `text`: scanning left to right, at each position
/// the longest rule whose `from` matches (ASCII letters ignoring case) is
/// replaced by its `to` and the scan continues after the matched text; where
/// nothing matches one character is copied. Matches never overlap and
/// replacements are not re-scanned. `from`/`to` are trimmed; blank `from` is ignored.
pub fn apply_dictionary(text: &str, entries: &[DictionaryEntry]) -> (r: String)
    ensures
        r@ == dictionary_result(text@, entries@),
{
    let cleaned = clean_dictionary(entries);
    let ghost dict = cleaned_entries(entries@);
    if cleaned.len() == 0 {
        proof {
            lemma_apply_without_rules(text@, dict, 0);
            assert(text@.skip(0) =~= text@);
        }
        return owned(text);
    }
    let chars = chars_of(text);
    let mut result = String::new();
    let mut i: usize = 0;
    while i < chars.len()
        invariant
            i <= chars@.len(),
            chars@ == text@,
            cleaned@.len() == dict.len(),
            forall|k: int|
                0 <= k < cleaned@.len() ==> (#[trigger] cleaned@[k]).0@ == dict[k].0 && cleaned@[k].1@
                    == dict[k].1,
            result@ + apply_from(chars@, dict, i as int) == apply_from(chars@, dict, 0),
        decreases chars@.len() - i,
    {
        let mut best_len: usize = 0;
        let mut best_idx: usize = 0;
        let mut k: usize = 0;
        while k < cleaned.len()
            invariant
                i < chars@.len(),
                k <= cleaned@.len(),
                cleaned@.len() == dict.len(),
                forall|k: int|
                    0 <= k < cleaned@.len() ==> (#[trigger] cleaned@[k]).0@ == dict[k].0
                        && cleaned@[k].1@ == dict[k].1,
                best_len == best_match(chars@, i as int, dict, k as int).0,
                best_len > 0 ==> best_idx < cleaned@.len() && cleaned@[best_idx as int].1@ == best_match(
                    chars@,
                    i as int,
                    dict,
                    k as int,
                ).1,
                best_len <= chars@.len() - i,
            decreases cleaned@.len() - k,
        {
            let from_chars = &cleaned[k].0;
            let flen = from_chars.len();
            if flen <= chars.len() - i {
                let window = &chars.as_slice()[i..i + flen];
                if slice_equal_case_insensitive(window, from_chars.as_slice()) && flen > best_len {
                    best_len = flen;
                    best_idx = k;
                }
            }
            k = k + 1;
        }
        let ghost old_i = i as int;
        if best_len > 0 {
            result.append(cleaned[best_idx].1.as_str());
            i = i + best_len;
        } else {
            push_char(&mut result, chars[i]);
            i = i + 1;
        }
        proof {
            assert(apply_from(chars@, dict, old_i) == if best_len > 0 {
                dict[best_idx as int].1 + apply_from(chars@, dict, i as int)
            } else {
                seq![chars@[old_i]] + apply_from(chars@, dict, i as int)
            });
        }
        assert(result@ + apply_from(chars@, dict, i as int) =~= apply_from(chars@, dict, 0));
    }
    result
}

/// With no usable rule, the scan copies the text unchanged.
proof fn lemma_apply_without_rules(text: Seq<char>, dict: Seq<(Seq<char>, Seq<char>)>, i: int)
    requires
        dict.len() == 0,
        0 <= i <= text.len(),
    ensures
        apply_from(text, dict, i) == text.skip(i),
    decreases text.len() - i,
{
    if i < text.len() {
        lemma_apply_without_rules(text, dict, i + 1);
        assert(text.skip(i) =~= seq![text[i]] + text.skip(i + 1));
    } else {
        assert(text.skip(i) =~= seq![]);
    }
}

/// Every rule that takes part has a non-empty `from`.
proof fn lemma_cleaned_nonempty(es: Seq<DictionaryEntry>)
    ensures
        forall|k: int|
            0 <= k < cleaned_entries(es).len() ==> (#[trigger] cleaned_entries(es)[k]).0.len() > 0,
    decreases es.len(),
{
    if es.len() > 0 {
        lemma_cleaned_nonempty(es.drop_last());
        let rest = cleaned_entries(es.drop_last());
        assert forall|k: int|
            0 <= k < cleaned_entries(es).len() implies (#[trigger] cleaned_entries(es)[k]).0.len()
            > 0 by {
            if k < rest.len() {
                assert(cleaned_entries(es)[k] == rest[k]);
            }
        }
    }
}

/// What `best_match` over the first `kk` rules is: the earliest rule of
/// maximal length among those matching at `i`.
proof fn lemma_best_match(text: Seq<char>, i: int, dict: Seq<(Seq<char>, Seq<char>)>, kk: int)
    requires
        0 <= kk <= dict.len(),
        forall|k: int| 0 <= k < dict.len() ==> (#[trigger] dict[k]).0.len() > 0,
    ensures
        best_match(text, i, dict, kk).0 > 0 <==> exists|k: int|
            0 <= k < kk && matches_at(text, i, #[trigger] dict[k].0),
        forall|m: int|
            0 <= m < kk && matches_at(text, i, #[trigger] dict[m].0) ==> dict[m].0.len()
                <= best_match(text, i, dict, kk).0,
        best_match(text, i, dict, kk).0 > 0 ==> exists|k: int|
            {
                &&& 0 <= k < kk
                &&& matches_at(text, i, #[trigger] dict[k].0)
                &&& dict[k].0.len() == best_match(text, i, dict, kk).0
                &&& dict[k].1 == best_match(text, i, dict, kk).1
                &&& forall|m: int|
                    0 <= m < k && matches_at(text, i, #[trigger] dict[m].0) ==> dict[m].0.len()
                        < best_match(text, i, dict, kk).0
            },
    decreases kk,
{
    if kk > 0 {
        lemma_best_match(text, i, dict, kk - 1);
        let prev = best_match(text, i, dict, kk - 1);
        let f = dict[kk - 1].0;
        if matches_at(text, i, f) && f.len() > prev.0 {
            assert(matches_at(text, i, dict[kk - 1].0));
        } else if prev.0 > 0 {
            let k = choose|k: int|
                {
                    &&& 0 <= k < kk - 1
                    &&& matches_at(text, i, #[trigger] dict[k].0)
                    &&& dict[k].0.len() == prev.0
                    &&& dict[k].1 == prev.1
                    &&& forall|m: int|
                        0 <= m < k && matches_at(text, i, #[trigger] dict[m].0) ==> dict[m].0.len()
                            < prev.0
                };
            assert(matches_at(text, i, dict[k].0));
        }
    }
}

/// A dictionary none of whose rules occurs anywhere in `text` leaves it
/// unchanged (in particular an empty or all-blank dictionary).
pub proof fn law_no_match_is_identity(text: Seq<char>, entries: Seq<DictionaryEntry>)
    requires
        forall|i: int, k: int|
            0 <= i < text.len() && 0 <= k < cleaned_entries(entries).len() ==> !#[trigger] matches_at(
                text,
                i,
                cleaned_entries(entries)[k].0,
            ),
    ensures
        dictionary_result(text, entries) == text,
{
    lemma_identity_from(text, entries, 0);
    assert(text.skip(0) =~= text);
}

proof fn lemma_identity_from(text: Seq<char>, entries: Seq<DictionaryEntry>, i: int)
    requires
        0 <= i <= text.len(),
        forall|i: int, k: int|
            0 <= i < text.len() && 0 <= k < cleaned_entries(entries).len() ==> !#[trigger] matches_at(
                text,
                i,
                cleaned_entries(entries)[k].0,
            ),
    ensures
        apply_from(text, cleaned_entries(entries), i) == text.skip(i),
    decreases text.len() - i,
{
    let dict = cleaned_entries(entries);
    if i < text.len() {
        lemma_cleaned_nonempty(entries);
        lemma_best_match(text, i, dict, dict.len() as int);
        lemma_identity_from(text, entries, i + 1);
        assert(text.skip(i) =~= seq![text[i]] + text.skip(i + 1));
    } else {
        assert(text.skip(i) =~= seq![]);
    }
}

/// Longest match: wherever some rule matches at the scan position `i`, the
/// text emitted there is the replacement of a matching rule of greatest
/// length (the earliest of those), and the scan resumes right after it.
pub proof fn law_longest_match(text: Seq<char>, entries: Seq<DictionaryEntry>, i: int, k: int)
    requires
        0 <= i < text.len(),
        0 <= k < cleaned_entries(entries).len(),
        matches_at(text, i, cleaned_entries(entries)[k].0),
    ensures
        ({
            let dict = cleaned_entries(entries);
            let b = best_match(text, i, dict, dict.len() as int);
            &&& b.0 >= dict[k].0.len()
            &&& apply_from(text, dict, i) == b.1 + apply_from(text, dict, i + b.0)
            &&& exists|w: int|
                {
                    &&& 0 <= w < dict.len()
                    &&& matches_at(text, i, #[trigger] dict[w].0)
                    &&& dict[w].0.len() == b.0
                    &&& dict[w].1 == b.1
                    &&& forall|m: int|
                        0 <= m < w && matches_at(text, i, #[trigger] dict[m].0) ==> dict[m].0.len()
                            < b.0
                }
        }),
{
    let dict = cleaned_entries(entries);
    lemma_cleaned_nonempty(entries);
    lemma_best_match(text, i, dict, dict.len() as int);
    assert(matches_at(text, i, dict[k].0));
    let b = best_match(text, i, dict, dict.len() as int);
    let w = choose|w: int|
        {
            &&& 0 <= w < dict.len()
            &&& matches_at(text, i, #[trigger] dict[w].0)
            &&& dict[w].0.len() == b.0
            &&& dict[w].1 == b.1
            &&& forall|m: int|
                0 <= m < w && matches_at(text, i, #[trigger] dict[m].0) ==> dict[m].0.len() < b.0
        };
    assert(matches_at(text, i, dict[w].0));
}

/// No cascading: when the whole text is exactly the `from` of a rule (the
/// earliest such rule), the result is that rule's `to`, even if `to` itself
/// would match other rules.
pub proof fn law_no_cascade(text: Seq<char>, entries: Seq<DictionaryEntry>, k: int)
    requires
        0 <= k < cleaned_entries(entries).len(),
        cleaned_entries(entries)[k].0.len() == text.len(),
        matches_at(text, 0, cleaned_entries(entries)[k].0),
        forall|m: int|
            0 <= m < k && #[trigger] cleaned_entries(entries)[m].0.len() == text.len() ==> !matches_at(
                text,
                0,
                cleaned_entries(entries)[m].0,
            ),
    ensures
        dictionary_result(text, entries) == cleaned_entries(entries)[k].1,
{
    let dict = cleaned_entries(entries);
    lemma_cleaned_nonempty(entries);
    assert(dict[k].0.len() > 0);
    law_longest_match(text, entries, 0, k);
    let b = best_match(text, 0, dict, dict.len() as int);
    let w = choose|w: int|
        {
            &&& 0 <= w < dict.len()
            &&& matches_at(text, 0, #[trigger] dict[w].0)
            &&& dict[w].0.len() == b.0
            &&& dict[w].1 == b.1
            &&& forall|m: int|
                0 <= m < w && matches_at(text, 0, #[trigger] dict[m].0) ==> dict[m].0.len() < b.0
        };
    assert(matches_at(text, 0, dict[w].0));
    if w < k {
        assert(dict[w].0.len() == text.len());
    } else if w > k {
        assert(matches_at(text, 0, dict[k].0));
    }
    assert(apply_from(text, dict, text.len() as int) =~= seq![]);
    assert(b.1 + seq![] =~= b.1);
}


/// The rule an entry contributes: its trimmed `from` and trimmed `to`.
pub open spec fn rule_of(e: DictionaryEntry) -> (Seq<char>, Seq<char>) {
    (trim_seq(e.from@), trim_seq(e.to@))
}

/// The entry takes part in replacement (its trimmed `from` is not empty).
pub open spec fn takes_part(e: DictionaryEntry) -> bool {
    trim_seq(e.from@).len() > 0
}

/// The dictionary never gives two different replacements for `from`s that
/// agree ignoring ASCII case.
pub open spec fn consistent_rules(es: Seq<DictionaryEntry>) -> bool {
    forall|a: int, b: int|
        0 <= a < es.len() && 0 <= b < es.len() && takes_part(#[trigger] es[a]) && takes_part(
            #[trigger] es[b],
        ) && seq_eq_ci(rule_of(es[a]).0, rule_of(es[b]).0) ==> rule_of(es[a]).1 == rule_of(es[b]).1
}

/// Rules whose `from`s agree ignoring ASCII case have the same replacement.
spec fn rules_agree(d: Seq<(Seq<char>, Seq<char>)>) -> bool {
    forall|a: int, b: int|
        0 <= a < d.len() && 0 <= b < d.len() && seq_eq_ci(#[trigger] d[a].0, #[trigger] d[b].0) ==> d[a].1
            == d[b].1
}

proof fn lemma_cleaned_contains(es: Seq<DictionaryEntry>, x: (Seq<char>, Seq<char>))
    ensures
        cleaned_entries(es).contains(x) <==> exists|a: int|
            0 <= a < es.len() && takes_part(#[trigger] es[a]) && rule_of(es[a]) == x,
    decreases es.len(),
{
    if es.len() > 0 {
        let init = es.drop_last();
        lemma_cleaned_contains(init, x);
        let rest = cleaned_entries(init);
        let c = cleaned_entries(es);
        if c.contains(x) {
            let k = choose|k: int| 0 <= k < c.len() && c[k] == x;
            if k < rest.len() {
                assert(c[k] == rest[k]);
                assert(rest.contains(x));
                let a = choose|a: int| 0 <= a < init.len() && takes_part(#[trigger] init[a]) && rule_of(init[a]) == x;
                assert(es[a] == init[a]);
            } else {
                assert(takes_part(es[es.len() - 1]));
            }
        }
        if exists|a: int| 0 <= a < es.len() && takes_part(#[trigger] es[a]) && rule_of(es[a]) == x {
            let a = choose|a: int| 0 <= a < es.len() && takes_part(#[trigger] es[a]) && rule_of(es[a]) == x;
            if a < init.len() {
                assert(init[a] == es[a]);
                assert(rest.contains(x));
                let k = choose|k: int| 0 <= k < rest.len() && rest[k] == x;
                assert(c[k] == rest[k]);
            } else {
                assert(c[c.len() - 1] == x);
            }
        }
    }
}

proof fn lemma_char_eq_ci_through(s: char, x: char, y: char)
    requires
        char_eq_ci(s, x),
        char_eq_ci(s, y),
    ensures
        char_eq_ci(x, y),
{
}

proof fn lemma_seq_eq_ci_through(s: Seq<char>, x: Seq<char>, y: Seq<char>)
    requires
        seq_eq_ci(s, x),
        seq_eq_ci(s, y),
    ensures
        seq_eq_ci(x, y),
{
    assert forall|k: int| 0 <= k < x.len() implies char_eq_ci(#[trigger] x[k], y[k]) by {
        assert(char_eq_ci(s[k], x[k]));
        assert(char_eq_ci(s[k], y[k]));
        lemma_char_eq_ci_through(s[k], x[k], y[k]);
    }
}

proof fn lemma_consistent_rules_agree(es: Seq<DictionaryEntry>)
    requires
        consistent_rules(es),
    ensures
        rules_agree(cleaned_entries(es)),
{
    let d = cleaned_entries(es);
    assert forall|a: int, b: int|
        0 <= a < d.len() && 0 <= b < d.len() && seq_eq_ci(#[trigger] d[a].0, #[trigger] d[b].0) implies d[a].1
        == d[b].1 by {
        assert(d.contains(d[a]));
        assert(d.contains(d[b]));
        lemma_cleaned_contains(es, d[a]);
        lemma_cleaned_contains(es, d[b]);
        let ea = choose|x: int| 0 <= x < es.len() && takes_part(#[trigger] es[x]) && rule_of(es[x]) == d[a];
        let eb = choose|x: int| 0 <= x < es.len() && takes_part(#[trigger] es[x]) && rule_of(es[x]) == d[b];
        assert(takes_part(es[ea]) && takes_part(es[eb]));
    }
}

proof fn lemma_best_match_none(text: Seq<char>, i: int, dict: Seq<(Seq<char>, Seq<char>)>, kk: int)
    requires
        best_match(text, i, dict, kk).0 == 0,
    ensures
        best_match(text, i, dict, kk).1 == Seq::<char>::empty(),
    decreases kk,
{
    if kk > 0 {
        let prev = best_match(text, i, dict, kk - 1);
        let f = dict[kk - 1].0;
        if !(matches_at(text, i, f) && f.len() > prev.0) {
            lemma_best_match_none(text, i, dict, kk - 1);
        }
    }
}

/// Two rule lists with the same rules choose the same match at every position.
proof fn lemma_best_match_same_rules(
    text: Seq<char>,
    i: int,
    d1: Seq<(Seq<char>, Seq<char>)>,
    d2: Seq<(Seq<char>, Seq<char>)>,
)
    requires
        forall|k: int| 0 <= k < d1.len() ==> (#[trigger] d1[k]).0.len() > 0,
        forall|k: int| 0 <= k < d2.len() ==> (#[trigger] d2[k]).0.len() > 0,
        forall|x: (Seq<char>, Seq<char>)| d1.contains(x) <==> d2.contains(x),
        rules_agree(d1),
    ensures
        best_match(text, i, d1, d1.len() as int) == best_match(text, i, d2, d2.len() as int),
{
    let b1 = best_match(text, i, d1, d1.len() as int);
    let b2 = best_match(text, i, d2, d2.len() as int);
    lemma_best_match(text, i, d1, d1.len() as int);
    lemma_best_match(text, i, d2, d2.len() as int);
    if b1.0 > 0 {
        let k1 = choose|k: int|
            {
                &&& 0 <= k < d1.len()
                &&& matches_at(text, i, #[trigger] d1[k].0)
                &&& d1[k].0.len() == b1.0
                &&& d1[k].1 == b1.1
                &&& forall|m: int|
                    0 <= m < k && matches_at(text, i, #[trigger] d1[m].0) ==> d1[m].0.len() < b1.0
            };
        assert(d1.contains(d1[k1]));
        let j1 = choose|j: int| 0 <= j < d2.len() && d2[j] == d1[k1];
        assert(matches_at(text, i, d2[j1].0));
        assert(b2.0 > 0);
        let k2 = choose|k: int|
            {
                &&& 0 <= k < d2.len()
                &&& matches_at(text, i, #[trigger] d2[k].0)
                &&& d2[k].0.len() == b2.0
                &&& d2[k].1 == b2.1
                &&& forall|m: int|
                    0 <= m < k && matches_at(text, i, #[trigger] d2[m].0) ==> d2[m].0.len() < b2.0
            };
        assert(d2.contains(d2[k2]));
        let j2 = choose|j: int| 0 <= j < d1.len() && d1[j] == d2[k2];
        assert(matches_at(text, i, d1[j2].0));
        assert(b1.0 == b2.0);
        let sub = text.subrange(i, i + b1.0);
        lemma_seq_eq_ci_through(sub, d1[k1].0, d1[j2].0);
        assert(d1[k1].1 == d1[j2].1);
    } else {
        if b2.0 > 0 {
            let k2 = choose|k: int| 0 <= k < d2.len() && matches_at(text, i, #[trigger] d2[k].0);
            assert(d2.contains(d2[k2]));
            let j2 = choose|j: int| 0 <= j < d1.len() && d1[j] == d2[k2];
            assert(matches_at(text, i, d1[j2].0));
        }
        lemma_best_match_none(text, i, d1, d1.len() as int);
        lemma_best_match_none(text, i, d2, d2.len() as int);
    }
}

proof fn lemma_apply_same_rules(
    text: Seq<char>,
    d1: Seq<(Seq<char>, Seq<char>)>,
    d2: Seq<(Seq<char>, Seq<char>)>,
    i: int,
)
    requires
        forall|k: int| 0 <= k < d1.len() ==> (#[trigger] d1[k]).0.len() > 0,
        forall|k: int| 0 <= k < d2.len() ==> (#[trigger] d2[k]).0.len() > 0,
        forall|x: (Seq<char>, Seq<char>)| d1.contains(x) <==> d2.contains(x),
        rules_agree(d1),
    ensures
        apply_from(text, d1, i) == apply_from(text, d2, i),
    decreases text.len() - i,
{
    if 0 <= i < text.len() {
        lemma_best_match_same_rules(text, i, d1, d2);
        let b = best_match(text, i, d1, d1.len() as int);
        if b.0 > 0 && i + b.0 <= text.len() {
            lemma_apply_same_rules(text, d1, d2, i + b.0);
        } else {
            lemma_apply_same_rules(text, d1, d2, i + 1);
        }
    }
}

/// The order of the entries does not matter: two dictionaries with the same
/// entries (each as often) give the same result, provided they never give
/// two different replacements for `from`s that agree ignoring ASCII case.
pub proof fn law_entry_order_irrelevant(text: Seq<char>, entries: Seq<DictionaryEntry>, perm: Seq<DictionaryEntry>)
    requires
        perm.to_multiset() == entries.to_multiset(),
        consistent_rules(entries),
    ensures
        dictionary_result(text, perm) == dictionary_result(text, entries),
{
    entries.to_multiset_ensures();
    perm.to_multiset_ensures();
    let d1 = cleaned_entries(entries);
    let d2 = cleaned_entries(perm);
    assert forall|x: (Seq<char>, Seq<char>)| d1.contains(x) <==> d2.contains(x) by {
        lemma_cleaned_contains(entries, x);
        lemma_cleaned_contains(perm, x);
        if exists|a: int| 0 <= a < entries.len() && takes_part(#[trigger] entries[a]) && rule_of(entries[a]) == x {
            let a = choose|a: int| 0 <= a < entries.len() && takes_part(#[trigger] entries[a]) && rule_of(entries[a]) == x;
            assert(entries.contains(entries[a]));
            assert(entries.to_multiset().count(entries[a]) > 0);
            assert(perm.to_multiset().count(entries[a]) > 0);
            assert(perm.contains(entries[a]));
            let b = choose|b: int| 0 <= b < perm.len() && perm[b] == entries[a];
            assert(takes_part(perm[b]));
        }
        if exists|a: int| 0 <= a < perm.len() && takes_part(#[trigger] perm[a]) && rule_of(perm[a]) == x {
            let a = choose|a: int| 0 <= a < perm.len() && takes_part(#[trigger] perm[a]) && rule_of(perm[a]) == x;
            assert(perm.contains(perm[a]));
            assert(perm.to_multiset().count(perm[a]) > 0);
            assert(entries.to_multiset().count(perm[a]) > 0);
            assert(entries.contains(perm[a]));
            let b = choose|b: int| 0 <= b < entries.len() && entries[b] == perm[a];
            assert(takes_part(entries[b]));
        }
    }
    lemma_cleaned_nonempty(entries);
    lemma_cleaned_nonempty(perm);
    lemma_consistent_rules_agree(entries);
    lemma_apply_same_rules(text, d1, d2, 0);
}


} // verus!
