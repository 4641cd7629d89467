//! Correction candidates: pairs learnt from user edits, waiting to be accepted
//! into the dictionary or rejected for good.

use vstd::prelude::*;

use crate::dictionary::slice_equal_case_insensitive;
use crate::text::{chars_of, owned, seq_eq_ci, string_of_range, trim, trim_seq};

verus! {

/// Most pending candidates kept; beyond it the most frequent are kept.
pub const MAX_CANDIDATES: usize = 500;

/// A pending candidate and how often it was seen.
#[derive(Debug)]
pub struct CandidateEntry {
    pub from: String,
    pub to: String,
    pub count: u32,
}

/// A candidate the user refused; it is never proposed again.
#[derive(Debug)]
pub struct RejectedPair {
    pub from: String,
    pub to: String,
}

/// The candidate queue: pending candidates and refused pairs.
#[derive(Debug)]
pub struct CandidateStore {
    pub pending: Vec<CandidateEntry>,
    pub rejected: Vec<RejectedPair>,
}

/// Abstract content of a candidate.
pub struct CandidateView {
    pub from: Seq<char>,
    pub to: Seq<char>,
    pub count: u32,
}

impl View for CandidateEntry {
    type V = CandidateView;

    open spec fn view(&self) -> CandidateView {
        CandidateView { from: self.from@, to: self.to@, count: self.count }
    }
}

impl Clone for CandidateEntry {
    fn clone(&self) -> (r: Self)
        ensures
            r == *self,
    {
        CandidateEntry { from: self.from.clone(), to: self.to.clone(), count: self.count }
    }
}

impl Clone for RejectedPair {
    fn clone(&self) -> (r: Self)
        ensures
            r == *self,
    {
        RejectedPair { from: self.from.clone(), to: self.to.clone() }
    }
}

/// The pending candidates as abstract values.
pub open spec fn pending_view(s: Seq<CandidateEntry>) -> Seq<CandidateView> {
    s.map_values(|e: CandidateEntry| e@)
}

/// The refused pairs as (from, to) character sequences.
pub open spec fn rejected_view(s: Seq<RejectedPair>) -> Seq<(Seq<char>, Seq<char>)> {
    s.map_values(|r: RejectedPair| (r.from@, r.to@))
}

/// Dictionary rules as (from, to) character sequences.
pub open spec fn pairs_view(s: Seq<(String, String)>) -> Seq<(Seq<char>, Seq<char>)> {
    s.map_values(|p: (String, String)| (p.0@, p.1@))
}

/// `(f, t)` denotes the same correction as `(f2, t2)`: `from` equal up to
/// ASCII case, `to` equal exactly.
pub open spec fn same_pair(f: Seq<char>, t: Seq<char>, f2: Seq<char>, t2: Seq<char>) -> bool {
    seq_eq_ci(f, f2) && t == t2
}

/// Some pair of `ps` denotes the same correction as `(f, t)`.
pub open spec fn listed(f: Seq<char>, t: Seq<char>, ps: Seq<(Seq<char>, Seq<char>)>) -> bool {
    exists|k: int| 0 <= k < ps.len() && same_pair(f, t, #[trigger] ps[k].0, ps[k].1)
}

/// Index of the first pending candidate for `(f, t)`, or -1.
pub open spec fn first_pending(s: Seq<CandidateView>, f: Seq<char>, t: Seq<char>) -> int
    decreases s.len(),
{
    if s.len() == 0 {
        -1
    } else {
        let r = first_pending(s.drop_last(), f, t);
        if r >= 0 {
            r
        } else if same_pair(f, t, s.last().from, s.last().to) {
            s.len() - 1
        } else {
            -1
        }
    }
}

/// `count + 1`, saturating at the largest `u32`.
pub open spec fn bump(c: u32) -> u32 {
    if c == u32::MAX {
        c
    } else {
        (c + 1) as u32
    }
}

/// The pending list after learning one pair: the pair is trimmed; it is
/// ignored when its `from` is empty, when `from == to`, when the dictionary
/// already holds it, or when it was refused; otherwise the first pending
/// candidate for it is counted once more, or a new candidate with count 1 is
/// appended.
pub open spec fn add_pair(
    pending: Seq<CandidateView>,
    rejected: Seq<(Seq<char>, Seq<char>)>,
    dict: Seq<(Seq<char>, Seq<char>)>,
    pair: (Seq<char>, Seq<char>),
) -> Seq<CandidateView> {
    let f = trim_seq(pair.0);
    let t = trim_seq(pair.1);
    if f.len() == 0 || f == t || listed(f, t, dict) || listed(f, t, rejected) {
        pending
    } else {
        let p = first_pending(pending, f, t);
        if p >= 0 {
            pending.update(
                p,
                CandidateView { from: pending[p].from, to: pending[p].to, count: bump(pending[p].count) },
            )
        } else {
            pending.push(CandidateView { from: f, to: t, count: 1 })
        }
    }
}

/// The pending list after learning `pairs` in order.
pub open spec fn add_pairs(
    pending: Seq<CandidateView>,
    rejected: Seq<(Seq<char>, Seq<char>)>,
    dict: Seq<(Seq<char>, Seq<char>)>,
    pairs: Seq<(Seq<char>, Seq<char>)>,
) -> Seq<CandidateView>
    decreases pairs.len(),
{
    if pairs.len() == 0 {
        pending
    } else {
        add_pair(add_pairs(pending, rejected, dict, pairs.drop_last()), rejected, dict, pairs.last())
    }
}

/// Dictionary matching of two `from` texts: equal up to ASCII letter case.
pub fn from_eq(a: &str, b: &str) -> (r: bool)
    ensures
        r == seq_eq_ci(a@, b@),
{
    let va = chars_of(a);
    let vb = chars_of(b);
    slice_equal_case_insensitive(va.as_slice(), vb.as_slice())
}

/// Both sides of a pair, trimmed.
pub fn normalize_pair(from: &str, to: &str) -> (r: (String, String))
    ensures
        r.0@ == trim_seq(from@),
        r.1@ == trim_seq(to@),
{
    (trim(from), trim(to))
}

/// Whether some pair of `ps` denotes the same correction as `(f, t)`.
fn pair_listed(f: &String, t: &String, ps: &[(String, String)]) -> (r: bool)
    ensures
        r == listed(f@, t@, pairs_view(ps@)),
{
    let mut k: usize = 0;
    while k < ps.len()
        invariant
            k <= ps@.len(),
            forall|m: int| 0 <= m < k ==> !same_pair(f@, t@, ps@[m].0@, ps@[m].1@),
        decreases ps@.len() - k,
    {
        if from_eq(f.as_str(), ps[k].0.as_str()) && *t == ps[k].1 {
            assert(same_pair(f@, t@, pairs_view(ps@)[k as int].0, pairs_view(ps@)[k as int].1));
            return true;
        }
        k = k + 1;
    }
    assert forall|m: int| 0 <= m < ps@.len() implies !same_pair(
        f@,
        t@,
        #[trigger] pairs_view(ps@)[m].0,
        pairs_view(ps@)[m].1,
    ) by {}
    false
}

/// Whether `(f, t)` was refused before.
fn pair_rejected(f: &str, t: &String, rs: &Vec<RejectedPair>) -> (r: bool)
    ensures
        r == listed(f@, t@, rejected_view(rs@)),
{
    let mut k: usize = 0;
    while k < rs.len()
        invariant
            k <= rs@.len(),
            forall|m: int| 0 <= m < k ==> !same_pair(f@, t@, rs@[m].from@, rs@[m].to@),
        decreases rs@.len() - k,
    {
        if from_eq(f, rs[k].from.as_str()) && *t == rs[k].to {
            assert(same_pair(f@, t@, rejected_view(rs@)[k as int].0, rejected_view(rs@)[k as int].1));
            return true;
        }
        k = k + 1;
    }
    assert forall|m: int| 0 <= m < rs@.len() implies !same_pair(
        f@,
        t@,
        #[trigger] rejected_view(rs@)[m].0,
        rejected_view(rs@)[m].1,
    ) by {}
    false
}

proof fn lemma_first_pending_prefix(s: Seq<CandidateView>, f: Seq<char>, t: Seq<char>, i: int)
    requires
        0 <= i <= s.len(),
        forall|m: int| 0 <= m < i ==> !same_pair(f, t, #[trigger] s[m].from, s[m].to),
    ensures
        first_pending(s.take(i), f, t) == -1,
    decreases i,
{
    if i > 0 {
        assert(s.take(i).drop_last() =~= s.take(i - 1));
        lemma_first_pending_prefix(s, f, t, i - 1);
        assert(s.take(i).last() == s[i - 1]);
    }
}

proof fn lemma_first_pending_extend(s: Seq<CandidateView>, f: Seq<char>, t: Seq<char>, i: int)
    requires
        0 <= i <= s.len(),
        first_pending(s.take(i), f, t) >= 0,
    ensures
        first_pending(s, f, t) == first_pending(s.take(i), f, t),
    decreases s.len() - i,
{
    if i < s.len() {
        assert(s.take(i + 1).drop_last() =~= s.take(i));
        lemma_first_pending_extend(s, f, t, i + 1);
    } else {
        assert(s.take(i) =~= s);
    }
}

/// Position of the first pending candidate for `(f, t)`.
fn find_pending(pending: &Vec<CandidateEntry>, f: &str, t: &String) -> (r: Option<usize>)
    ensures
        r matches Some(p) ==> p < pending@.len() && first_pending(pending_view(pending@), f@, t@)
            == p,
        r is None ==> first_pending(pending_view(pending@), f@, t@) == -1,
{
    let ghost s = pending_view(pending@);
    let mut k: usize = 0;
    while k < pending.len()
        invariant
            k <= pending@.len(),
            s == pending_view(pending@),
            forall|m: int| 0 <= m < k ==> !same_pair(f@, t@, #[trigger] s[m].from, s[m].to),
        decreases pending@.len() - k,
    {
        if from_eq(f, pending[k].from.as_str()) && *t == pending[k].to {
            proof {
                lemma_first_pending_prefix(s, f@, t@, k as int);
                assert(s.take(k + 1).drop_last() =~= s.take(k as int));
                lemma_first_pending_extend(s, f@, t@, k + 1);
            }
            return Some(k);
        }
        k = k + 1;
    }
    proof {
        lemma_first_pending_prefix(s, f@, t@, k as int);
        assert(s.take(k as int) =~= s);
    }
    None
}

/// Learns one pair into the pending list.
fn learn_pair(store: &mut CandidateStore, pair: &(String, String), dict: &[(String, String)])
    ensures
        final(store).rejected@ == old(store).rejected@,
        pending_view(final(store).pending@) == add_pair(
            pending_view(old(store).pending@),
            rejected_view(old(store).rejected@),
            pairs_view(dict@),
            (pair.0@, pair.1@),
        ),
{
    let (from, to) = normalize_pair(pair.0.as_str(), pair.1.as_str());
    if from.as_str().is_empty() || from == to {
        return;
    }
    if pair_listed(&from, &to, dict) {
        return;
    }
    if pair_rejected(from.as_str(), &to, &store.rejected) {
        return;
    }
    match find_pending(&store.pending, from.as_str(), &to) {
        Some(p) => {
            let ghost before = pending_view(store.pending@);
            let c = store.pending[p].count.saturating_add(1);
            let e = CandidateEntry {
                from: store.pending[p].from.clone(),
                to: store.pending[p].to.clone(),
                count: c,
            };
            store.pending.set(p, e);
            assert(pending_view(store.pending@) =~= before.update(
                p as int,
                CandidateView { from: before[p as int].from, to: before[p as int].to, count: bump(before[p as int].count) },
            ));
        },
        None => {
            let ghost before = pending_view(store.pending@);
            store.pending.push(CandidateEntry { from, to, count: 1 });
            assert(pending_view(store.pending@) =~= before.push(
                CandidateView { from: trim_seq(pair.0@), to: trim_seq(pair.1@), count: 1 },
            ));
        },
    }
}

/// Strict lexicographic order on character sequences by code point; it is the
/// order of `String`'s `Ord` (UTF-8 byte order agrees with code-point order).
pub open spec fn lex_less(a: Seq<char>, b: Seq<char>) -> bool
    decreases a.len(),
{
    if a.len() == 0 {
        b.len() > 0
    } else if b.len() == 0 {
        false
    } else if a[0] != b[0] {
        a[0] < b[0]
    } else {
        lex_less(a.drop_first(), b.drop_first())
    }
}

proof fn lemma_lex_irreflexive(a: Seq<char>)
    ensures
        !lex_less(a, a),
    decreases a.len(),
{
    if a.len() > 0 {
        lemma_lex_irreflexive(a.drop_first());
    }
}

proof fn lemma_lex_transitive(a: Seq<char>, b: Seq<char>, c: Seq<char>)
    requires
        lex_less(a, b),
        lex_less(b, c),
    ensures
        lex_less(a, c),
    decreases a.len(),
{
    if a.len() > 0 && b.len() > 0 && c.len() > 0 && a[0] == b[0] && b[0] == c[0] {
        lemma_lex_transitive(a.drop_first(), b.drop_first(), c.drop_first());
    }
}

proof fn lemma_lex_total(a: Seq<char>, b: Seq<char>)
    ensures
        a == b || lex_less(a, b) || lex_less(b, a),
    decreases a.len(),
{
    if a.len() > 0 && b.len() > 0 {
        if a[0] == b[0] {
            lemma_lex_total(a.drop_first(), b.drop_first());
            if a.drop_first() == b.drop_first() {
                assert(a =~= seq![a[0]] + a.drop_first());
                assert(b =~= seq![b[0]] + b.drop_first());
            }
        }
    } else if a.len() == 0 && b.len() == 0 {
        assert(a =~= b);
    }
}

/// Queue order used when the queue is cut down: higher count first, then
/// `from` in ascending order, then earlier position first.
pub open spec fn ranks_before(a: CandidateView, ia: int, b: CandidateView, ib: int) -> bool {
    ||| a.count > b.count
    ||| a.count == b.count && lex_less(a.from, b.from)
    ||| a.count == b.count && a.from == b.from && ia < ib
}

/// `p` lists every position of `s` exactly once, sorted by `ranks_before`.
pub open spec fn sorted_positions(s: Seq<CandidateView>, p: Seq<int>) -> bool {
    &&& p.len() == s.len()
    &&& forall|a: int| 0 <= a < p.len() ==> 0 <= #[trigger] p[a] < s.len()
    &&& forall|a: int, b: int| 0 <= a < b < p.len() ==> #[trigger] p[a] != #[trigger] p[b]
    &&& forall|a: int, b: int|
        0 <= a < b < p.len() ==> ranks_before(s[#[trigger] p[a]], p[a], s[#[trigger] p[b]], p[b])
}

/// `kept` is what remains of `s` once the queue is cut to `MAX_CANDIDATES`:
/// `s` itself when short enough, otherwise its first `MAX_CANDIDATES`
/// entries in queue order (a stable sort by descending count, then `from`).
pub open spec fn cut_to_limit(s: Seq<CandidateView>, kept: Seq<CandidateView>) -> bool {
    if s.len() <= MAX_CANDIDATES {
        kept == s
    } else {
        exists|p: Seq<int>|
            sorted_positions(s, p) && kept.len() == MAX_CANDIDATES && forall|k: int|
                0 <= k < MAX_CANDIDATES ==> #[trigger] kept[k] == s[p[k]]
    }
}

proof fn lemma_ranks_total(s: Seq<CandidateView>, i: int, j: int)
    requires
        i != j,
    ensures
        ranks_before(s[i], i, s[j], j) || ranks_before(s[j], j, s[i], i),
{
    lemma_lex_total(s[i].from, s[j].from);
}

proof fn lemma_ranks_transitive(s: Seq<CandidateView>, i: int, j: int, k: int)
    requires
        ranks_before(s[i], i, s[j], j),
        ranks_before(s[j], j, s[k], k),
    ensures
        ranks_before(s[i], i, s[k], k),
{
    if s[i].count == s[j].count && s[j].count == s[k].count {
        if lex_less(s[i].from, s[j].from) && lex_less(s[j].from, s[k].from) {
            lemma_lex_transitive(s[i].from, s[j].from, s[k].from);
        }
    }
}

/// Whether `a` (at position `ia`) comes before `b` (at `ib`) in queue order.
fn entry_ranks_before(a: &CandidateEntry, fa: &Vec<char>, ia: usize, b: &CandidateEntry, fb: &Vec<
    char,
>, ib: usize) -> (r: bool)
    requires
        fa@ == a.from@,
        fb@ == b.from@,
    ensures
        r == ranks_before(a@, ia as int, b@, ib as int),
{
    if a.count != b.count {
        return a.count > b.count;
    }
    let mut k: usize = 0;
    assert(fa@.skip(0) =~= fa@);
    assert(fb@.skip(0) =~= fb@);
    while k < fa.len() && k < fb.len()
        invariant
            fa@ == a.from@,
            fb@ == b.from@,
            a.count == b.count,
            k <= fa@.len(),
            k <= fb@.len(),
            forall|m: int| 0 <= m < k ==> fa@[m] == fb@[m],
            lex_less(fa@, fb@) == lex_less(fa@.skip(k as int), fb@.skip(k as int)),
        decreases fa@.len() - k,
    {
        if fa[k] != fb[k] {
            let r = fa[k] < fb[k];
            proof {
                assert(lex_less(fa@.skip(k as int), fb@.skip(k as int)) == (fa@[k as int] < fb@[k as int]));
                assert(fa@.skip(k as int)[0] == fa@[k as int]);
                assert(fb@.skip(k as int)[0] == fb@[k as int]);
                assert(fa@[k as int] != fb@[k as int]);
                assert(fa@ != fb@);
                assert(a@.from == fa@ && b@.from == fb@);
            }
            return r;
        }
        proof {
            assert(fa@.skip(k as int).drop_first() =~= fa@.skip(k + 1));
            assert(fb@.skip(k as int).drop_first() =~= fb@.skip(k + 1));
        }
        k = k + 1;
    }
    if k < fb.len() {
        assert(fa@.skip(k as int).len() == 0);
        proof {
            if fa@ == fb@ {
                assert(false);
            }
        }
        return true;
    }
    if k < fa.len() {
        proof {
            assert(fb@.skip(k as int).len() == 0);
            if fa@ == fb@ {
                assert(false);
            }
        }
        return false;
    }
    assert(fa@ =~= fb@);
    proof { lemma_lex_irreflexive(fa@); }
    ia < ib
}

/// `o` lists distinct positions below `n` of `s`, in queue order.
pub open spec fn ordered_below(s: Seq<CandidateView>, o: Seq<usize>, n: int) -> bool {
    &&& forall|a: int| 0 <= a < o.len() ==> #[trigger] o[a] < n
    &&& forall|a: int, b: int| 0 <= a < b < o.len() ==> #[trigger] o[a] != #[trigger] o[b]
    &&& forall|a: int, b: int|
        0 <= a < b < o.len() ==> ranks_before(
            s[#[trigger] o[a] as int],
            o[a] as int,
            s[#[trigger] o[b] as int],
            o[b] as int,
        )
}

proof fn lemma_insert_in_order(s: Seq<CandidateView>, o: Seq<usize>, pos: int, i: usize)
    requires
        0 <= pos <= o.len(),
        i < s.len(),
        ordered_below(s, o, i as int),
        forall|a: int|
            0 <= a < pos ==> !ranks_before(
                s[i as int],
                i as int,
                s[#[trigger] o[a] as int],
                o[a] as int,
            ),
        pos < o.len() ==> ranks_before(s[i as int], i as int, s[o[pos] as int], o[pos] as int),
    ensures
        ordered_below(s, o.insert(pos, i), i + 1),
{
    o.insert_ensures(pos, i);
    let n = o.insert(pos, i);
    assert forall|a: int| 0 <= a < pos implies ranks_before(
        s[#[trigger] o[a] as int],
        o[a] as int,
        s[i as int],
        i as int,
    ) by {
        lemma_ranks_total(s, o[a] as int, i as int);
    }
    assert forall|b: int| pos <= b < o.len() implies ranks_before(
        s[i as int],
        i as int,
        s[#[trigger] o[b] as int],
        o[b] as int,
    ) by {
        if b > pos {
            lemma_ranks_transitive(s, i as int, o[pos] as int, o[b] as int);
        }
    }
    assert forall|a: int| 0 <= a < n.len() implies #[trigger] n[a] < i + 1 by {
        if a > pos {
            assert(n[a] == o[a - 1]);
        }
    }
    assert forall|a: int, b: int| 0 <= a < b < n.len() implies #[trigger] n[a] != #[trigger] n[b] by {
        if b > pos {
            assert(n[b] == o[b - 1]);
        }
        if a > pos {
            assert(n[a] == o[a - 1]);
        }
    }
    assert forall|a: int, b: int| 0 <= a < b < n.len() implies ranks_before(
        s[#[trigger] n[a] as int],
        n[a] as int,
        s[#[trigger] n[b] as int],
        n[b] as int,
    ) by {
        if b > pos {
            assert(n[b] == o[b - 1]);
        }
        if a > pos {
            assert(n[a] == o[a - 1]);
        }
    }
}

/// Positions of `pending` in queue order (insertion sort).
fn queue_order(pending: &Vec<CandidateEntry>) -> (order: Vec<usize>)
    ensures
        sorted_positions(pending_view(pending@), order@.map_values(|x: usize| x as int)),
{
    let ghost s = pending_view(pending@);
    let mut froms: Vec<Vec<char>> = Vec::new();
    let mut i: usize = 0;
    while i < pending.len()
        invariant
            i <= pending@.len(),
            froms@.len() == i,
            forall|k: int| 0 <= k < i ==> (#[trigger] froms@[k])@ == pending@[k].from@,
        decreases pending@.len() - i,
    {
        froms.push(chars_of(pending[i].from.as_str()));
        i = i + 1;
    }
    let mut order: Vec<usize> = Vec::new();
    let mut i: usize = 0;
    while i < pending.len()
        invariant
            i <= pending@.len(),
            s == pending_view(pending@),
            froms@.len() == pending@.len(),
            forall|k: int| 0 <= k < froms@.len() ==> (#[trigger] froms@[k])@ == pending@[k].from@,
            order@.len() == i,
            ordered_below(s, order@, i as int),
        decreases pending@.len() - i,
    {
        let mut pos: usize = 0;
        while pos < order.len() && !entry_ranks_before(
            &pending[i],
            &froms[i],
            i,
            &pending[order[pos]],
            &froms[order[pos]],
            order[pos],
        )
            invariant
                pos <= order@.len(),
                i < pending@.len(),
                s == pending_view(pending@),
                froms@.len() == pending@.len(),
                forall|k: int| 0 <= k < froms@.len() ==> (#[trigger] froms@[k])@ == pending@[k].from@,
                forall|a: int| 0 <= a < order@.len() ==> #[trigger] order@[a] < i,
                forall|a: int|
                    0 <= a < pos ==> !ranks_before(
                        s[i as int],
                        i as int,
                        s[#[trigger] order@[a] as int],
                        order@[a] as int,
                    ),
            decreases order@.len() - pos,
        {
            pos = pos + 1;
        }
        proof {
            lemma_insert_in_order(s, order@, pos as int, i);
        }
        order.insert(pos, i);
        i = i + 1;
    }
    let ghost p = order@.map_values(|x: usize| x as int);
    assert(sorted_positions(s, p)) by {
        assert forall|a: int, b: int| 0 <= a < b < p.len() implies ranks_before(
            s[#[trigger] p[a]],
            p[a],
            s[#[trigger] p[b]],
            p[b],
        ) by {
            assert(ranks_before(
                s[order@[a] as int],
                order@[a] as int,
                s[order@[b] as int],
                order@[b] as int,
            ));
        }
        assert forall|a: int, b: int| 0 <= a < b < p.len() implies #[trigger] p[a] != #[trigger] p[b] by {
            assert(order@[a] != order@[b]);
        }
        assert forall|a: int| 0 <= a < p.len() implies 0 <= #[trigger] p[a] < s.len() by {
            assert(order@[a] < i);
        }
    }
    order
}

/// Cuts the queue down to `MAX_CANDIDATES`, keeping the first ones in queue order.
fn cut_queue(pending: &mut Vec<CandidateEntry>)
    ensures
        cut_to_limit(pending_view(old(pending)@), pending_view(final(pending)@)),
{
    if pending.len() <= MAX_CANDIDATES {
        return;
    }
    let ghost s = pending_view(pending@);
    let order = queue_order(pending);
    let ghost p = order@.map_values(|x: usize| x as int);
    let mut kept: Vec<CandidateEntry> = Vec::new();
    let mut k: usize = 0;
    while k < MAX_CANDIDATES
        invariant
            k <= MAX_CANDIDATES,
            MAX_CANDIDATES < pending@.len(),
            s == pending_view(pending@),
            sorted_positions(s, p),
            p == order@.map_values(|x: usize| x as int),
            kept@.len() == k,
            forall|m: int| 0 <= m < k ==> (#[trigger] kept@[m])@ == s[p[m]],
        decreases MAX_CANDIDATES - k,
    {
        assert(0 <= p[k as int] < s.len());
        kept.push(pending[order[k]].clone());
        k = k + 1;
    }
    *pending = kept;
    assert(sorted_positions(s, p) && pending_view(pending@).len() == MAX_CANDIDATES && forall|k: int|
        0 <= k < MAX_CANDIDATES ==> #[trigger] pending_view(pending@)[k] == s[p[k]]);
}

/// Learns the correction pairs extracted from one user edit and returns the
/// pending queue. Each pair is trimmed and skipped when its `from` is empty,
/// when `from == to`, when `existing_dictionary` or the refused list holds it
/// (`from` compared ignoring ASCII case, `to` exactly); otherwise the matching
/// pending candidate is counted once more or a new one is queued. Finally the
/// queue is cut to `MAX_CANDIDATES`, keeping the most frequent.
pub fn add_candidates(
    store: &mut CandidateStore,
    pairs: &[(String, String)],
    existing_dictionary: &[(String, String)],
) -> (r: Vec<CandidateEntry>)
    ensures
        final(store).rejected@ == old(store).rejected@,
        cut_to_limit(
            add_pairs(
                pending_view(old(store).pending@),
                rejected_view(old(store).rejected@),
                pairs_view(existing_dictionary@),
                pairs_view(pairs@),
            ),
            pending_view(final(store).pending@),
        ),
        r@ == final(store).pending@,
{
    let ghost start = pending_view(store.pending@);
    let ghost rej = rejected_view(store.rejected@);
    let ghost dict = pairs_view(existing_dictionary@);
    let mut n: usize = 0;
    while n < pairs.len()
        invariant
            n <= pairs@.len(),
            rejected_view(store.rejected@) == rej,
            store.rejected@ == old(store).rejected@,
            dict == pairs_view(existing_dictionary@),
            pending_view(store.pending@) == add_pairs(start, rej, dict, pairs_view(pairs@).take(n as int)),
        decreases pairs@.len() - n,
    {
        learn_pair(store, &pairs[n], existing_dictionary);
        assert(pairs_view(pairs@).take(n + 1).drop_last() =~= pairs_view(pairs@).take(n as int));
        n = n + 1;
    }
    assert(pairs_view(pairs@).take(n as int) =~= pairs_view(pairs@));
    cut_queue(&mut store.pending);
    get_candidates(store)
}

/// The pending candidates.
pub fn get_candidates(store: &CandidateStore) -> (r: Vec<CandidateEntry>)
    ensures
        r@ == store.pending@,
{
    let mut r: Vec<CandidateEntry> = Vec::new();
    let mut k: usize = 0;
    while k < store.pending.len()
        invariant
            k <= store.pending@.len(),
            r@ == store.pending@.take(k as int),
        decreases store.pending@.len() - k,
    {
        r.push(store.pending[k].clone());
        k = k + 1;
        assert(r@ =~= store.pending@.take(k as int));
    }
    assert(store.pending@.take(k as int) =~= store.pending@);
    r
}

/// The message for a candidate that is not pending.
pub open spec fn not_found_message() -> Seq<char> {
    "候选不存在"@
}

/// Accepts the first pending candidate for `(from, to)` (`from` ignoring
/// ASCII case, `to` exactly): it leaves the queue and its stored pair is
/// returned, ready to become a dictionary rule.
pub fn accept_candidate(store: &mut CandidateStore, from: &str, to: &str) -> (r: Result<
    (String, String),
    String,
>)
    ensures
        final(store).rejected@ == old(store).rejected@,
        ({
            let p = first_pending(pending_view(old(store).pending@), from@, to@);
            &&& p < 0 ==> r is Err && final(store).pending@ == old(store).pending@
            &&& r matches Err(m) ==> p < 0 && m@ == not_found_message()
            &&& r matches Ok(pair) ==> {
                &&& 0 <= p < old(store).pending@.len()
                &&& pair.0@ == old(store).pending@[p].from@
                &&& pair.1@ == old(store).pending@[p].to@
                &&& final(store).pending@ == old(store).pending@.remove(p)
            }
        }),
{
    let t = owned(to);
    match find_pending(&store.pending, from, &t) {
        Some(p) => {
            let entry = store.pending.remove(p);
            Ok((entry.from, entry.to))
        },
        None => Err(owned("候选不存在")),
    }
}

/// Refuses the first pending candidate for `(from, to)`: it leaves the queue
/// and `(from, to)` is remembered as refused (once), so it is never queued again.
pub fn reject_candidate(store: &mut CandidateStore, from: &str, to: &str) -> (r: Result<(), String>)
    ensures
        ({
            let p = first_pending(pending_view(old(store).pending@), from@, to@);
            &&& p < 0 ==> r is Err && *final(store) == *old(store)
            &&& r matches Err(m) ==> p < 0 && m@ == not_found_message()
            &&& r is Ok ==> {
                &&& 0 <= p < old(store).pending@.len()
                &&& final(store).pending@ == old(store).pending@.remove(p)
                &&& if listed(from@, to@, rejected_view(old(store).rejected@)) {
                    final(store).rejected@ == old(store).rejected@
                } else {
                    rejected_view(final(store).rejected@) == rejected_view(old(store).rejected@).push(
                        (from@, to@),
                    )
                }
            }
        }),
{
    let t = owned(to);
    match find_pending(&store.pending, from, &t) {
        Some(p) => {
            store.pending.remove(p);
            if !pair_rejected(from, &t, &store.rejected) {
                let ghost before = store.rejected@;
                store.rejected.push(RejectedPair { from: owned(from), to: t });
                assert(rejected_view(store.rejected@) =~= rejected_view(before).push((from@, to@)));
            }
            Ok(())
        },
        None => Err(owned("候选不存在")),
    }
}

/// Kind of a character diff operation.
#[derive(Debug, Clone, Copy, PartialEq, Eq)]
pub enum DiffKind {
    Equal,
    Delete,
    Insert,
    Replace,
}

/// One operation of a character diff: `old[old_start..old_end]` relates to
/// `new[new_start..new_end]` as `kind` says.
#[derive(Debug, Clone, Copy)]
pub struct CharDiffOp {
    pub kind: DiffKind,
    pub old_start: usize,
    pub old_end: usize,
    pub new_start: usize,
    pub new_end: usize,
}

/// The operations of `similar`'s character diff (Myers) from `old` to `new`.
pub uninterp spec fn char_diff(old: Seq<char>, new: Seq<char>) -> Seq<CharDiffOp>;

/// Calls `similar::TextDiff::from_chars(old, new).ops()` and gives each op as
/// its `as_tag_tuple` ranges. The result is named by `char_diff`; the contract
/// also states that every range is a valid character range of its side (the
/// crate documents `Replace` as `old[i1..i2]` replaced by `new[j1..j2]`).
#[verifier::external_body]
fn diff_chars(old: &str, new: &str) -> (ops: Vec<CharDiffOp>)
    ensures
        ops@ == char_diff(old@, new@),
        forall|k: int|
            0 <= k < ops@.len() ==> (#[trigger] ops@[k]).old_start <= ops@[k].old_end <= old@.len()
                && ops@[k].new_start <= ops@[k].new_end <= new@.len(),
{
    let mut ops = Vec::new();
    for op in similar::TextDiff::from_chars(old, new).ops() {
        let (tag, o, n) = op.as_tag_tuple();
        let kind = match tag {
            similar::DiffTag::Equal => DiffKind::Equal,
            similar::DiffTag::Delete => DiffKind::Delete,
            similar::DiffTag::Insert => DiffKind::Insert,
            similar::DiffTag::Replace => DiffKind::Replace,
        };
        ops.push(CharDiffOp { kind, old_start: o.start, old_end: o.end, new_start: n.start, new_end: n.end });
    }
    ops
}

/// The correction pairs a diff yields, in order: a replacement gives
/// (replaced text, new text), a deletion gives (deleted text, ""); insertions
/// and equal runs give nothing (an insertion has no `from` to learn).
pub open spec fn pairs_of_ops(old: Seq<char>, new: Seq<char>, ops: Seq<CharDiffOp>) -> Seq<
    (Seq<char>, Seq<char>),
>
    decreases ops.len(),
{
    if ops.len() == 0 {
        seq![]
    } else {
        let rest = pairs_of_ops(old, new, ops.drop_last());
        let op = ops.last();
        match op.kind {
            DiffKind::Replace => rest.push(
                (
                    old.subrange(op.old_start as int, op.old_end as int),
                    new.subrange(op.new_start as int, op.new_end as int),
                ),
            ),
            DiffKind::Delete => rest.push(
                (old.subrange(op.old_start as int, op.old_end as int), seq![]),
            ),
            _ => rest,
        }
    }
}

/// The ranges of every operation lie within their texts.
pub open spec fn ops_in_bounds(ops: Seq<CharDiffOp>, old_len: int, new_len: int) -> bool {
    forall|m: int|
        0 <= m < ops.len() ==> (#[trigger] ops[m]).old_start <= ops[m].old_end <= old_len
            && ops[m].new_start <= ops[m].new_end <= new_len
}

/// Character-level diff of a text and its corrected version, as the list of
/// (original fragment, corrected fragment) pairs: replacements and deletions
/// (with an empty corrected fragment); pure insertions are skipped.
pub fn extract_correction_pairs(original: &str, corrected: &str) -> (r: Vec<(String, String)>)
    ensures
        pairs_view(r@) == pairs_of_ops(original@, corrected@, char_diff(original@, corrected@)),
{
    let ops = diff_chars(original, corrected);
    pairs_from_ops(original, corrected, ops.as_slice())
}

/// The correction pairs that the diff operations `ops` of `original` and
/// `corrected` yield.
pub fn pairs_from_ops(original: &str, corrected: &str, ops: &[CharDiffOp]) -> (r: Vec<(String, String)>)
    requires
        ops_in_bounds(ops@, original@.len() as int, corrected@.len() as int),
    ensures
        pairs_view(r@) == pairs_of_ops(original@, corrected@, ops@),
{
    let old_chars = chars_of(original);
    let new_chars = chars_of(corrected);
    let mut r: Vec<(String, String)> = Vec::new();
    let mut k: usize = 0;
    while k < ops.len()
        invariant
            k <= ops@.len(),
            old_chars@ == original@,
            new_chars@ == corrected@,
            ops_in_bounds(ops@, original@.len() as int, corrected@.len() as int),
            pairs_view(r@) == pairs_of_ops(original@, corrected@, ops@.take(k as int)),
        decreases ops@.len() - k,
    {
        let op = ops[k];
        assert(ops@.take(k + 1).drop_last() =~= ops@.take(k as int));
        let ghost before = r@;
        match op.kind {
            DiffKind::Replace => {
                let from = string_of_range(&old_chars, op.old_start, op.old_end);
                let to = string_of_range(&new_chars, op.new_start, op.new_end);
                r.push((from, to));
                assert(pairs_view(r@) =~= pairs_view(before).push((from@, to@)));
            },
            DiffKind::Delete => {
                let from = string_of_range(&old_chars, op.old_start, op.old_end);
                let to = String::new();
                r.push((from, to));
                assert(pairs_view(r@) =~= pairs_view(before).push((from@, to@)));
            },
            _ => {},
        }
        k = k + 1;
    }
    assert(ops@.take(k as int) =~= ops@);
    r
}

/// A queue as the library builds it: every candidate has a non-empty `from`
/// different from its `to` and a positive count, and no correction is queued twice.
pub open spec fn queue_well_formed(q: Seq<CandidateView>) -> bool {
    &&& forall|k: int|
        0 <= k < q.len() ==> (#[trigger] q[k]).from.len() > 0 && q[k].from != q[k].to && q[k].count
            >= 1
    &&& forall|i: int, j: int|
        0 <= i < j < q.len() ==> !same_pair(#[trigger] q[i].from, q[i].to, #[trigger] q[j].from, q[j].to)
}

proof fn lemma_seq_eq_ci_symmetric(a: Seq<char>, b: Seq<char>)
    requires
        seq_eq_ci(a, b),
    ensures
        seq_eq_ci(b, a),
{
    assert forall|k: int| 0 <= k < b.len() implies crate::text::char_eq_ci(#[trigger] b[k], a[k]) by {
        assert(crate::text::char_eq_ci(a[k], b[k]));
    }
}

proof fn lemma_first_pending_found(s: Seq<CandidateView>, f: Seq<char>, t: Seq<char>)
    ensures
        first_pending(s, f, t) < s.len(),
        first_pending(s, f, t) >= 0 ==> same_pair(
            f,
            t,
            s[first_pending(s, f, t)].from,
            s[first_pending(s, f, t)].to,
        ),
        first_pending(s, f, t) < 0 ==> forall|k: int|
            0 <= k < s.len() ==> !same_pair(f, t, #[trigger] s[k].from, s[k].to),
    decreases s.len(),
{
    if s.len() > 0 {
        lemma_first_pending_found(s.drop_last(), f, t);
        let r = first_pending(s.drop_last(), f, t);
        if r < 0 {
            assert forall|k: int| 0 <= k < s.len() - 1 implies !same_pair(
                f,
                t,
                #[trigger] s[k].from,
                s[k].to,
            ) by {
                assert(s[k] == s.drop_last()[k]);
            }
        } else {
            assert(s[r] == s.drop_last()[r]);
        }
    }
}

/// Learning a pair keeps a well-formed queue well-formed.
pub proof fn law_learning_keeps_queue_well_formed(
    pending: Seq<CandidateView>,
    rejected: Seq<(Seq<char>, Seq<char>)>,
    dict: Seq<(Seq<char>, Seq<char>)>,
    pair: (Seq<char>, Seq<char>),
)
    requires
        queue_well_formed(pending),
    ensures
        queue_well_formed(add_pair(pending, rejected, dict, pair)),
{
    let f = trim_seq(pair.0);
    let t = trim_seq(pair.1);
    lemma_first_pending_found(pending, f, t);
    let q = add_pair(pending, rejected, dict, pair);
    if !(f.len() == 0 || f == t || listed(f, t, dict) || listed(f, t, rejected)) {
        let p = first_pending(pending, f, t);
        if p < 0 {
            assert forall|i: int, j: int| 0 <= i < j < q.len() implies !same_pair(
                #[trigger] q[i].from,
                q[i].to,
                #[trigger] q[j].from,
                q[j].to,
            ) by {
                if j == q.len() - 1 {
                    if same_pair(q[i].from, q[i].to, q[j].from, q[j].to) {
                        lemma_seq_eq_ci_symmetric(q[i].from, q[j].from);
                        assert(same_pair(f, t, pending[i].from, pending[i].to));
                    }
                } else {
                    assert(q[i] == pending[i] && q[j] == pending[j]);
                }
            }
        } else {
            assert forall|i: int, j: int| 0 <= i < j < q.len() implies !same_pair(
                #[trigger] q[i].from,
                q[i].to,
                #[trigger] q[j].from,
                q[j].to,
            ) by {
                assert(q[i].from == pending[i].from && q[i].to == pending[i].to);
                assert(q[j].from == pending[j].from && q[j].to == pending[j].to);
            }
        }
    }
}

/// Learning any list of pairs keeps a well-formed queue well-formed.
pub proof fn law_learning_pairs_keeps_queue_well_formed(
    pending: Seq<CandidateView>,
    rejected: Seq<(Seq<char>, Seq<char>)>,
    dict: Seq<(Seq<char>, Seq<char>)>,
    pairs: Seq<(Seq<char>, Seq<char>)>,
)
    requires
        queue_well_formed(pending),
    ensures
        queue_well_formed(add_pairs(pending, rejected, dict, pairs)),
    decreases pairs.len(),
{
    if pairs.len() > 0 {
        law_learning_pairs_keeps_queue_well_formed(pending, rejected, dict, pairs.drop_last());
        law_learning_keeps_queue_well_formed(
            add_pairs(pending, rejected, dict, pairs.drop_last()),
            rejected,
            dict,
            pairs.last(),
        );
    }
}

/// Cutting the queue to its limit keeps it well-formed.
pub proof fn law_cut_keeps_queue_well_formed(s: Seq<CandidateView>, kept: Seq<CandidateView>)
    requires
        queue_well_formed(s),
        cut_to_limit(s, kept),
    ensures
        queue_well_formed(kept),
{
    if s.len() > MAX_CANDIDATES {
        let p = choose|p: Seq<int>|
            sorted_positions(s, p) && kept.len() == MAX_CANDIDATES && forall|k: int|
                0 <= k < MAX_CANDIDATES ==> #[trigger] kept[k] == s[p[k]];
        assert forall|k: int| 0 <= k < kept.len() implies (#[trigger] kept[k]).from.len() > 0
            && kept[k].from != kept[k].to && kept[k].count >= 1 by {
            assert(kept[k] == s[p[k]]);
            assert(0 <= p[k] < s.len());
        }
        assert forall|i: int, j: int| 0 <= i < j < kept.len() implies !same_pair(
            #[trigger] kept[i].from,
            kept[i].to,
            #[trigger] kept[j].from,
            kept[j].to,
        ) by {
            assert(kept[i] == s[p[i]] && kept[j] == s[p[j]]);
            assert(p[i] != p[j]);
            assert(0 <= p[i] < s.len() && 0 <= p[j] < s.len());
            if p[i] > p[j] {
                if same_pair(kept[i].from, kept[i].to, kept[j].from, kept[j].to) {
                    lemma_seq_eq_ci_symmetric(kept[i].from, kept[j].from);
                    assert(same_pair(s[p[j]].from, s[p[j]].to, s[p[i]].from, s[p[i]].to));
                }
            }
        }
    }
}

/// Accepting or refusing a candidate (removing it) keeps the queue well-formed.
pub proof fn law_removal_keeps_queue_well_formed(q: Seq<CandidateView>, p: int)
    requires
        queue_well_formed(q),
        0 <= p < q.len(),
    ensures
        queue_well_formed(q.remove(p)),
{
    q.remove_ensures(p);
    let r = q.remove(p);
    assert forall|i: int, j: int| 0 <= i < j < r.len() implies !same_pair(
        #[trigger] r[i].from,
        r[i].to,
        #[trigger] r[j].from,
        r[j].to,
    ) by {
        let i2 = if i < p { i } else { i + 1 };
        let j2 = if j < p { j } else { j + 1 };
        assert(r[i] == q[i2] && r[j] == q[j2]);
    }
    assert forall|k: int| 0 <= k < r.len() implies (#[trigger] r[k]).from.len() > 0 && r[k].from
        != r[k].to && r[k].count >= 1 by {
        let k2 = if k < p { k } else { k + 1 };
        assert(r[k] == q[k2]);
    }
}

/// A refused correction is never queued again: learning a pair whose trimmed
/// form was refused leaves the queue unchanged.
pub proof fn law_refused_pair_is_ignored(
    pending: Seq<CandidateView>,
    rejected: Seq<(Seq<char>, Seq<char>)>,
    dict: Seq<(Seq<char>, Seq<char>)>,
    pair: (Seq<char>, Seq<char>),
)
    requires
        listed(trim_seq(pair.0), trim_seq(pair.1), rejected),
    ensures
        add_pair(pending, rejected, dict, pair) == pending,
{
}

/// After refusing `(f, t)` the refused list holds it.
pub proof fn law_refusal_is_remembered(rejected: Seq<(Seq<char>, Seq<char>)>, f: Seq<char>, t: Seq<char>)
    ensures
        listed(f, t, rejected.push((f, t))),
{
    let r = rejected.push((f, t));
    assert(crate::text::seq_eq_ci(f, r[rejected.len() as int].0));
}

} // verus!
