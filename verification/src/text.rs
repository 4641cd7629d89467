//! Character-level text helpers shared by the rest of the library.

use vstd::prelude::*;

verus! {

/// Pushes one character at the end of a `String` (std `String::push`).
#[verifier::external_body]
pub(crate) fn push_char(s: &mut String, c: char)
    ensures
        final(s)@ == old(s)@.push(c),
{
    s.push(c);
}

/// Full Unicode lower-casing of a string, as std's `str::to_lowercase` computes it.
pub uninterp spec fn unicode_lowercase(s: Seq<char>) -> Seq<char>;

/// Calls std `str::to_lowercase`; the result is named by `unicode_lowercase`
/// (the Unicode case tables are not restated here). std defines the result
/// by Unicode's lowercase mapping: ASCII 'A'..='Z' map to 'a'..='z', and an
/// ASCII letter is a cased letter in either case, so lowering the ASCII
/// letters of `s` first gives the same result; that much is stated.
#[verifier::external_body]
pub(crate) fn to_lowercase(s: &str) -> (r: String)
    ensures
        r@ == unicode_lowercase(s@),
        r@ == unicode_lowercase(ascii_lower_seq(s@)),
{
    s.to_lowercase()
}

/// The characters of a string, in order.
pub fn chars_of(s: &str) -> (v: Vec<char>)
    ensures
        v@ == s@,
{
    let mut v: Vec<char> = Vec::new();
    for c in it: s.chars()
        invariant
            v@ == it.seq().take(it.index() as int),
    {
        v.push(c);
    }
    v
}

/// A string holding the characters `v[from..to]`.
pub fn string_of_range(v: &Vec<char>, from: usize, to: usize) -> (s: String)
    requires
        from <= to <= v.len(),
    ensures
        s@ == v@.subrange(from as int, to as int),
{
    let mut s = String::new();
    let mut i = from;
    while i < to
        invariant
            from <= i <= to <= v.len(),
            s@ == v@.subrange(from as int, i as int),
        decreases to - i,
    {
        push_char(&mut s, v[i]);
        i = i + 1;
        assert(s@ =~= v@.subrange(from as int, i as int));
    }
    s
}

/// A string holding exactly the characters of `v`.
pub fn string_of(v: &Vec<char>) -> (s: String)
    ensures
        s@ == v@,
{
    let s = string_of_range(v, 0, v.len());
    assert(v@.subrange(0, v@.len() as int) =~= v@);
    s
}

/// A fresh copy of a string slice.
pub fn owned(s: &str) -> (r: String)
    ensures
        r@ == s@,
{
    s.to_owned()
}

/// `a` followed by `b`.
pub fn concat(a: &str, b: &str) -> (r: String)
    ensures
        r@ == a@ + b@,
{
    let mut r = a.to_owned();
    r.append(b);
    r
}

/// Whether two character sequences are equal.
pub fn chars_equal(a: &Vec<char>, b: &Vec<char>) -> (r: bool)
    ensures
        r == (a@ == b@),
{
    if a.len() != b.len() {
        return false;
    }
    let mut i: usize = 0;
    while i < a.len()
        invariant
            a.len() == b.len(),
            i <= a.len(),
            forall|k: int| 0 <= k < i ==> a@[k] == b@[k],
        decreases a.len() - i,
    {
        if a[i] != b[i] {
            return false;
        }
        i = i + 1;
    }
    assert(a@ =~= b@);
    true
}

/// Whether the characters of `v` spell out the literal `lit`.
pub fn chars_are(v: &Vec<char>, lit: &str) -> (r: bool)
    ensures
        r == (v@ == lit@),
{
    let w = chars_of(lit);
    chars_equal(v, &w)
}

/// Unicode `White_Space` property, which std's `char::is_whitespace` and
/// `str::trim` use: the complete list of code points carrying it.
pub open spec fn is_white_space(c: char) -> bool {
    let u = c as u32;
    ||| 0x09 <= u <= 0x0D
    ||| u == 0x20
    ||| u == 0x85
    ||| u == 0xA0
    ||| u == 0x1680
    ||| 0x2000 <= u <= 0x200A
    ||| u == 0x2028
    ||| u == 0x2029
    ||| u == 0x202F
    ||| u == 0x205F
    ||| u == 0x3000
}

/// Whether `c` is Unicode white space.
pub fn is_whitespace(c: char) -> (r: bool)
    ensures
        r == is_white_space(c),
{
    let u = c as u32;
    (0x09 <= u && u <= 0x0D) || u == 0x20 || u == 0x85 || u == 0xA0 || u == 0x1680 || (0x2000
        <= u && u <= 0x200A) || u == 0x2028 || u == 0x2029 || u == 0x202F || u == 0x205F || u
        == 0x3000
}

/// `s` without its leading white space.
pub open spec fn trim_start_seq(s: Seq<char>) -> Seq<char>
    decreases s.len(),
{
    if s.len() > 0 && is_white_space(s[0]) {
        trim_start_seq(s.drop_first())
    } else {
        s
    }
}

/// `s` without its trailing white space.
pub open spec fn trim_end_seq(s: Seq<char>) -> Seq<char>
    decreases s.len(),
{
    if s.len() > 0 && is_white_space(s.last()) {
        trim_end_seq(s.drop_last())
    } else {
        s
    }
}

/// `s` without leading and trailing white space, as std's `str::trim`.
pub open spec fn trim_seq(s: Seq<char>) -> Seq<char> {
    trim_end_seq(trim_start_seq(s))
}

proof fn lemma_trim_start_skip(s: Seq<char>, i: int)
    requires
        0 <= i <= s.len(),
        forall|k: int| 0 <= k < i ==> is_white_space(#[trigger] s[k]),
    ensures
        trim_start_seq(s) == trim_start_seq(s.skip(i)),
    decreases i,
{
    if i > 0 {
        assert(is_white_space(s[0]));
        assert(s.skip(1) =~= s.drop_first());
        assert forall|k: int| 0 <= k < i - 1 implies is_white_space(#[trigger] s.skip(1)[k]) by {
            assert(s.skip(1)[k] == s[k + 1]);
        }
        lemma_trim_start_skip(s.skip(1), i - 1);
        assert(s.skip(1).skip(i - 1) =~= s.skip(i));
    } else {
        assert(s.skip(0) =~= s);
    }
}

proof fn lemma_trim_end_take(s: Seq<char>, j: int)
    requires
        0 <= j <= s.len(),
        forall|k: int| j <= k < s.len() ==> is_white_space(#[trigger] s[k]),
    ensures
        trim_end_seq(s) == trim_end_seq(s.take(j)),
    decreases s.len() - j,
{
    if j < s.len() {
        assert(is_white_space(s[s.len() - 1]));
        assert(s.take(s.len() - 1) =~= s.drop_last());
        assert forall|k: int| j <= k < s.len() - 1 implies is_white_space(
            #[trigger] s.drop_last()[k],
        ) by {
            assert(s.drop_last()[k] == s[k]);
        }
        lemma_trim_end_take(s.drop_last(), j);
        assert(s.drop_last().take(j) =~= s.take(j));
    } else {
        assert(s.take(j) =~= s);
    }
}

/// Start and end (exclusive) of `v` without surrounding white space.
pub fn trim_bounds(v: &Vec<char>) -> (r: (usize, usize))
    ensures
        r.0 <= r.1 <= v.len(),
        v@.subrange(r.0 as int, r.1 as int) == trim_seq(v@),
{
    let mut i: usize = 0;
    while i < v.len() && is_whitespace(v[i])
        invariant
            i <= v.len(),
            forall|k: int| 0 <= k < i ==> is_white_space(#[trigger] v@[k]),
        decreases v.len() - i,
    {
        i = i + 1;
    }
    proof {
        lemma_trim_start_skip(v@, i as int);
        if i < v.len() {
            assert(!is_white_space(v@.skip(i as int)[0]));
        }
    }
    let ghost rest = v@.skip(i as int);
    assert(trim_start_seq(v@) == rest);
    let mut j: usize = v.len();
    while j > i && is_whitespace(v[j - 1])
        invariant
            i <= j <= v.len(),
            rest == v@.skip(i as int),
            forall|k: int| j <= k < v.len() ==> is_white_space(#[trigger] v@[k]),
        decreases j,
    {
        j = j - 1;
    }
    proof {
        assert forall|k: int| j - i <= k < rest.len() implies is_white_space(#[trigger] rest[k]) by {
            assert(rest[k] == v@[k + i]);
        }
        lemma_trim_end_take(rest, j - i);
        let t = rest.take(j - i);
        assert(t =~= v@.subrange(i as int, j as int));
        if t.len() > 0 {
            assert(t.last() == v@[j - 1]);
        }
    }
    (i, j)
}

/// `s` without leading and trailing white space, as std's `str::trim`.
pub fn trim(s: &str) -> (r: String)
    ensures
        r@ == trim_seq(s@),
{
    let v = chars_of(s);
    let (a, b) = trim_bounds(&v);
    string_of_range(&v, a, b)
}

/// Whether `c` is an ASCII letter.
pub open spec fn is_ascii_letter(c: char) -> bool {
    ('a' <= c && c <= 'z') || ('A' <= c && c <= 'Z')
}

/// The ASCII lower-case form of `c` (other characters unchanged).
pub open spec fn ascii_lower(c: char) -> char {
    if 'A' <= c && c <= 'Z' {
        ((c as u32) + 32) as char
    } else {
        c
    }
}

/// `s` with its ASCII letters lower-cased (other characters unchanged).
pub open spec fn ascii_lower_seq(s: Seq<char>) -> Seq<char> {
    s.map_values(|c: char| ascii_lower(c))
}

/// Sequences equal ignoring ASCII case have the same ASCII-lowered form.
pub proof fn lemma_seq_eq_ci_ascii_lower(a: Seq<char>, b: Seq<char>)
    requires
        seq_eq_ci(a, b),
    ensures
        ascii_lower_seq(a) == ascii_lower_seq(b),
{
    assert forall|k: int| 0 <= k < a.len() implies #[trigger] ascii_lower_seq(a)[k] == ascii_lower_seq(b)[k] by {
        assert(char_eq_ci(a[k], b[k]));
    }
    assert(ascii_lower_seq(a) =~= ascii_lower_seq(b));
}

/// Dictionary character equality: ASCII letters ignore case, all other
/// characters must match exactly.
pub open spec fn char_eq_ci(a: char, b: char) -> bool {
    if is_ascii_letter(a) && is_ascii_letter(b) {
        ascii_lower(a) == ascii_lower(b)
    } else {
        a == b
    }
}

/// Dictionary sequence equality: same length, characters pairwise `char_eq_ci`.
pub open spec fn seq_eq_ci(a: Seq<char>, b: Seq<char>) -> bool {
    &&& a.len() == b.len()
    &&& forall|k: int| 0 <= k < a.len() ==> char_eq_ci(#[trigger] a[k], b[k])
}

/// Whether `c` is an ASCII letter.
pub fn is_ascii_alphabetic(c: char) -> (r: bool)
    ensures
        r == is_ascii_letter(c),
{
    ('a' <= c && c <= 'z') || ('A' <= c && c <= 'Z')
}

/// ASCII lower-casing of one character.
pub fn to_ascii_lowercase(c: char) -> (r: char)
    ensures
        r == ascii_lower(c),
{
    if 'A' <= c && c <= 'Z' {
        let b = (c as u8) + 32;
        b as char
    } else {
        c
    }
}

/// Dictionary character equality.
pub fn char_eq_ignore_ascii_case(a: char, b: char) -> (r: bool)
    ensures
        r == char_eq_ci(a, b),
{
    if is_ascii_alphabetic(a) && is_ascii_alphabetic(b) {
        to_ascii_lowercase(a) == to_ascii_lowercase(b)
    } else {
        a == b
    }
}

/// Whether `pat` occurs in `s` as a contiguous piece.
pub open spec fn seq_contains(s: Seq<char>, pat: Seq<char>) -> bool {
    exists|i: int| 0 <= i && i + pat.len() <= s.len() && #[trigger] s.subrange(i, i + pat.len()) == pat
}

/// Whether `pat` occurs in `s` starting at position `i`.
pub fn occurs_at(s: &Vec<char>, pat: &Vec<char>, i: usize) -> (r: bool)
    requires
        i + pat.len() <= s.len(),
    ensures
        r == (s@.subrange(i as int, i + pat.len()) == pat@),
{
    let mut k: usize = 0;
    while k < pat.len()
        invariant
            i + pat.len() <= s.len(),
            k <= pat.len(),
            forall|m: int| 0 <= m < k ==> s@[i + m] == pat@[m],
        decreases pat.len() - k,
    {
        if s[i + k] != pat[k] {
            assert(s@.subrange(i as int, i + pat.len())[k as int] != pat@[k as int]);
            return false;
        }
        k = k + 1;
    }
    assert(s@.subrange(i as int, i + pat.len()) =~= pat@);
    true
}

/// Whether `pat` occurs in `s`.
pub fn contains_chars(s: &Vec<char>, pat: &Vec<char>) -> (r: bool)
    ensures
        r == seq_contains(s@, pat@),
{
    if pat.len() > s.len() {
        return false;
    }
    let mut i: usize = 0;
    while i <= s.len() - pat.len()
        invariant
            pat.len() <= s.len(),
            i <= s.len() - pat.len() + 1,
            forall|m: int| 0 <= m < i ==> #[trigger] s@.subrange(m, m + pat.len()) != pat@,
        decreases s.len() - pat.len() + 1 - i,
    {
        if occurs_at(s, pat, i) {
            return true;
        }
        if i == s.len() - pat.len() {
            return false;
        }
        i = i + 1;
    }
    false
}

/// Whether the literal `pat` occurs in `s`.
pub fn str_contains(s: &str, pat: &str) -> (r: bool)
    ensures
        r == seq_contains(s@, pat@),
{
    let v = chars_of(s);
    let p = chars_of(pat);
    contains_chars(&v, &p)
}

/// `s` with every trailing repetition of the non-empty `pat` removed, as
/// std's `trim_end_matches` with a fixed pattern.
pub open spec fn strip_suffixes(s: Seq<char>, pat: Seq<char>) -> Seq<char>
    decreases s.len(),
{
    if pat.len() > 0 && pat.len() <= s.len() && s.subrange(s.len() - pat.len(), s.len() as int)
        == pat {
        strip_suffixes(s.subrange(0, s.len() - pat.len()), pat)
    } else {
        s
    }
}

/// Length of `v[..end]` once every trailing copy of `pat` is removed.
pub fn strip_suffixes_len(v: &Vec<char>, end: usize, pat: &Vec<char>) -> (r: usize)
    requires
        end <= v.len(),
        pat.len() > 0,
    ensures
        r <= end,
        v@.subrange(0, r as int) == strip_suffixes(v@.subrange(0, end as int), pat@),
{
    let mut e = end;
    while pat.len() <= e && occurs_at(v, pat, e - pat.len())
        invariant
            e <= end <= v.len(),
            pat.len() > 0,
            strip_suffixes(v@.subrange(0, e as int), pat@) == strip_suffixes(
                v@.subrange(0, end as int),
                pat@,
            ),
        decreases e,
    {
        let ghost cur = v@.subrange(0, e as int);
        assert(cur.subrange(cur.len() - pat.len(), cur.len() as int) =~= v@.subrange(
            e - pat.len(),
            e as int,
        ));
        assert(cur.subrange(0, cur.len() - pat.len()) =~= v@.subrange(0, e - pat.len()));
        e = e - pat.len();
    }
    proof {
        let cur = v@.subrange(0, e as int);
        if pat.len() <= e {
            assert(cur.subrange(cur.len() - pat.len(), cur.len() as int) =~= v@.subrange(
                e - pat.len(),
                e as int,
            ));
        }
    }
    e
}

/// `s` with every trailing copy of the non-empty literal `pat` removed.
pub fn trim_end_matches(s: &str, pat: &str) -> (r: String)
    requires
        pat@.len() > 0,
    ensures
        r@ == strip_suffixes(s@, pat@),
{
    let v = chars_of(s);
    let p = chars_of(pat);
    let e = strip_suffixes_len(&v, v.len(), &p);
    assert(v@.subrange(0, v.len() as int) =~= v@);
    string_of_range(&v, 0, e)
}

} // verus!
