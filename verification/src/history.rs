//! Transcription history: newest first, bounded, with statistics and a
//! Markdown export.

use vstd::prelude::*;

use crate::text::{concat, owned, push_char};

verus! {

/// Most history entries kept.
pub const MAX_HISTORY_ENTRIES: usize = 200;

/// Kind of a history entry.
#[derive(Debug, Clone, Copy, PartialEq, Eq, Structural)]
pub enum EntryType {
    Transcribe,
    Edit,
}

impl Default for EntryType {
    fn default() -> (r: Self)
        ensures
            r == EntryType::Transcribe,
    {
        EntryType::Transcribe
    }
}

/// A local wall-clock date and time with its UTC offset, field by field
/// (second may be 60 for a leap second, expressed as in chrono through a
/// nanosecond part of one second or more).
#[derive(Debug, Clone, Copy, PartialEq, Eq, Structural)]
pub struct LocalDateTime {
    year: i32,
    month: u32,
    day: u32,
    hour: u32,
    minute: u32,
    second: u32,
    nanosecond: u32,
    utc_offset_seconds: i32,
}

/// A calendar day.
#[derive(Debug, Clone, Copy, PartialEq, Eq, Structural)]
pub struct CalendarDate {
    pub year: i32,
    pub month: u32,
    pub day: u32,
}

impl LocalDateTime {
    /// Field ranges of a date-time.
    #[verifier::type_invariant]
    spec fn fields_in_range(self) -> bool {
        &&& 1 <= self.month <= 12
        &&& 1 <= self.day <= 31
        &&& self.hour < 24
        &&& self.minute < 60
        &&& self.second < 60
        &&& self.nanosecond < 2_000_000_000
    }

    /// Year.
    pub closed spec fn year_of(self) -> i32 {
        self.year
    }

    /// Month, 1 to 12.
    pub closed spec fn month_of(self) -> u32 {
        self.month
    }

    /// Day of month, 1 to 31.
    pub closed spec fn day_of(self) -> u32 {
        self.day
    }

    /// Hour, 0 to 23.
    pub closed spec fn hour_of(self) -> u32 {
        self.hour
    }

    /// Minute, 0 to 59.
    pub closed spec fn minute_of(self) -> u32 {
        self.minute
    }

    /// Second, 0 to 59.
    pub closed spec fn second_of(self) -> u32 {
        self.second
    }

    /// Nanoseconds, below 2·10⁹ (a leap second uses the second billion).
    pub closed spec fn nanosecond_of(self) -> u32 {
        self.nanosecond
    }

    /// Offset from UTC in seconds.
    pub closed spec fn offset_of(self) -> i32 {
        self.utc_offset_seconds
    }

    /// Builds a date-time; `None` when a field is out of range.
    pub fn new(
        year: i32,
        month: u32,
        day: u32,
        hour: u32,
        minute: u32,
        second: u32,
        nanosecond: u32,
        utc_offset_seconds: i32,
    ) -> (r: Option<LocalDateTime>)
        ensures
            r is Some <==> (1 <= month <= 12 && 1 <= day <= 31 && hour < 24 && minute < 60 && second
                < 60 && nanosecond < 2_000_000_000),
            r matches Some(t) ==> t.year_of() == year && t.month_of() == month && t.day_of() == day
                && t.hour_of() == hour && t.minute_of() == minute && t.second_of() == second
                && t.nanosecond_of() == nanosecond && t.offset_of() == utc_offset_seconds,
    {
        if 1 <= month && month <= 12 && 1 <= day && day <= 31 && hour < 24 && minute < 60 && second
            < 60 && nanosecond < 2_000_000_000 {
            Some(
                LocalDateTime { year, month, day, hour, minute, second, nanosecond, utc_offset_seconds },
            )
        } else {
            None
        }
    }

    pub fn year(&self) -> (r: i32)
        ensures
            r == self.year_of(),
    {
        self.year
    }

    pub fn month(&self) -> (r: u32)
        ensures
            r == self.month_of(),
    {
        self.month
    }

    pub fn day(&self) -> (r: u32)
        ensures
            r == self.day_of(),
    {
        self.day
    }

    pub fn hour(&self) -> (r: u32)
        ensures
            r == self.hour_of(),
    {
        self.hour
    }

    pub fn minute(&self) -> (r: u32)
        ensures
            r == self.minute_of(),
    {
        self.minute
    }

    pub fn second(&self) -> (r: u32)
        ensures
            r == self.second_of(),
    {
        self.second
    }

    pub fn nanosecond(&self) -> (r: u32)
        ensures
            r == self.nanosecond_of(),
    {
        self.nanosecond
    }

    pub fn utc_offset_seconds(&self) -> (r: i32)
        ensures
            r == self.offset_of(),
    {
        self.utc_offset_seconds
    }

    /// The calendar day of this date-time.
    pub fn date(&self) -> (r: CalendarDate)
        ensures
            r == (CalendarDate { year: self.year_of(), month: self.month_of(), day: self.day_of() }),
    {
        CalendarDate { year: self.year, month: self.month, day: self.day }
    }

    /// Decimal digit `d`.
    pub open spec fn digit(d: int) -> char {
        ((d + 48) as u8) as char
    }

    /// Decimal digits of `n` (no leading zero; "0" for zero).
    pub open spec fn digits(n: nat) -> Seq<char>
        decreases n,
    {
        if n < 10 {
            seq![Self::digit(n as int)]
        } else {
            Self::digits(n / 10).push(Self::digit((n % 10) as int))
        }
    }

    /// Decimal digits of `n`, zero-padded to at least 4.
    pub open spec fn pad4(n: nat) -> Seq<char> {
        let d = Self::digits(n);
        if d.len() >= 4 {
            d
        } else {
            Seq::new((4 - d.len()) as nat, |i: int| '0') + d
        }
    }

    /// Two decimal digits of `v` (`v < 100`).
    pub open spec fn two_digits(v: int) -> Seq<char> {
        seq![Self::digit(v / 10), Self::digit(v % 10)]
    }

    /// The year as chrono's `%Y` writes it: four digits for years 0 to 9999,
    /// otherwise an explicit sign and at least four digits.
    pub open spec fn year_text(y: int) -> Seq<char> {
        if 0 <= y <= 9999 {
            Self::pad4(y as nat)
        } else if y > 9999 {
            seq!['+'] + Self::pad4(y as nat)
        } else {
            seq!['-'] + Self::pad4((-y) as nat)
        }
    }

    /// The date-time as chrono's "%Y-%m-%d %H:%M:%S" writes it (a leap second shows as 60).
    pub closed spec fn display_text(self) -> Seq<char> {
        Self::year_text(self.year as int) + seq!['-'] + Self::two_digits(self.month as int) + seq!['-']
            + Self::two_digits(self.day as int) + seq![' '] + Self::two_digits(self.hour as int)
            + seq![':'] + Self::two_digits(self.minute as int) + seq![':'] + Self::two_digits(
            self.second + self.nanosecond / 1_000_000_000,
        )
    }
}

proof fn lemma_digits_len(n: nat)
    ensures
        n < 10 ==> LocalDateTime::digits(n).len() == 1,
        10 <= n < 100 ==> LocalDateTime::digits(n).len() == 2,
        100 <= n < 1000 ==> LocalDateTime::digits(n).len() == 3,
        n >= 1000 ==> LocalDateTime::digits(n).len() >= 4,
    decreases n,
{
    if n >= 10 {
        lemma_digits_len(n / 10);
    }
}

/// Appends the digit `d`.
fn push_digit(s: &mut String, d: u32)
    requires
        d < 10,
    ensures
        final(s)@ == old(s)@.push(LocalDateTime::digit(d as int)),
{
    let b: u8 = 48u8 + (d as u8);
    push_char(s, b as char);
}

/// Appends the decimal digits of `n`.
fn push_digits(s: &mut String, n: u32)
    ensures
        final(s)@ == old(s)@ + LocalDateTime::digits(n as nat),
    decreases n,
{
    if n < 10 {
        push_digit(s, n);
        assert(s@ =~= old(s)@ + LocalDateTime::digits(n as nat));
    } else {
        push_digits(s, n / 10);
        push_digit(s, n % 10);
        assert(s@ =~= old(s)@ + LocalDateTime::digits(n as nat));
    }
}

/// Appends `n` zero-padded to at least four digits.
fn push_pad4(s: &mut String, n: u32)
    ensures
        final(s)@ == old(s)@ + LocalDateTime::pad4(n as nat),
{
    proof {
        lemma_digits_len(n as nat);
    }
    let ghost start = s@;
    let zeros: usize = if n < 10 {
        3
    } else if n < 100 {
        2
    } else if n < 1000 {
        1
    } else {
        0
    };
    let mut k: usize = 0;
    while k < zeros
        invariant
            k <= zeros,
            s@ == start + Seq::new(k as nat, |i: int| '0'),
        decreases zeros - k,
    {
        push_char(s, '0');
        k = k + 1;
        assert(s@ =~= start + Seq::new(k as nat, |i: int| '0'));
    }
    push_digits(s, n);
    let ghost d = LocalDateTime::digits(n as nat);
    if zeros == 0 {
        assert(s@ =~= start + Seq::new(0, |i: int| '0') + d);
        assert(Seq::new(0, |i: int| '0') + d =~= d);
    }
    assert(s@ =~= start + LocalDateTime::pad4(n as nat));
}

/// Appends two digits of `v`.
fn push_two(s: &mut String, v: u32)
    requires
        v < 100,
    ensures
        final(s)@ == old(s)@ + LocalDateTime::two_digits(v as int),
{
    push_digit(s, v / 10);
    push_digit(s, v % 10);
    assert(s@ =~= old(s)@ + LocalDateTime::two_digits(v as int));
}

impl LocalDateTime {
    /// The date-time as "%Y-%m-%d %H:%M:%S".
    pub fn display(&self) -> (r: String)
        ensures
            r@ == self.display_text(),
    {
        proof {
            use_type_invariant(self);
        }
        let mut s = String::new();
        if 0 <= self.year && self.year <= 9999 {
            push_pad4(&mut s, self.year as u32);
        } else if self.year > 9999 {
            push_char(&mut s, '+');
            push_pad4(&mut s, self.year as u32);
        } else {
            push_char(&mut s, '-');
            let a: u32 = (-(self.year as i64)) as u32;
            push_pad4(&mut s, a);
        }
        push_char(&mut s, '-');
        push_two(&mut s, self.month);
        push_char(&mut s, '-');
        push_two(&mut s, self.day);
        push_char(&mut s, ' ');
        push_two(&mut s, self.hour);
        push_char(&mut s, ':');
        push_two(&mut s, self.minute);
        push_char(&mut s, ':');
        push_two(&mut s, self.second + self.nanosecond / 1_000_000_000);
        assert(s@ =~= self.display_text());
        s
    }
}

/// One transcription or editing session.
#[derive(Debug)]
pub struct HistoryEntry {
    pub id: String,
    pub timestamp: LocalDateTime,
    pub raw_text: String,
    pub polished_text: String,
    /// Characters in `polished_text`.
    pub word_count: usize,
    pub duration_ms: u64,
    pub entry_type: EntryType,
}

impl Clone for HistoryEntry {
    fn clone(&self) -> (r: Self)
        ensures
            r == *self,
    {
        HistoryEntry {
            id: self.id.clone(),
            timestamp: self.timestamp,
            raw_text: self.raw_text.clone(),
            polished_text: self.polished_text.clone(),
            word_count: self.word_count,
            duration_ms: self.duration_ms,
            entry_type: self.entry_type,
        }
    }
}

/// The history, newest entry first.
#[derive(Debug)]
pub struct HistoryStore {
    pub entries: Vec<HistoryEntry>,
}

/// Totals per kind of session.
#[derive(Debug, Clone, Copy, PartialEq, Eq, Structural)]
pub struct HistoryStats {
    pub transcribe_total_words: usize,
    pub transcribe_today_words: usize,
    pub transcribe_total_sessions: usize,
    pub edit_total_words: usize,
    pub edit_today_words: usize,
    pub edit_total_sessions: usize,
}

impl HistoryStore {
    /// An empty history.
    pub fn new() -> (r: HistoryStore)
        ensures
            r.entries@.len() == 0,
    {
        HistoryStore { entries: Vec::new() }
    }
}

/// Copies of `es[0..n]`.
fn copy_prefix(es: &Vec<HistoryEntry>, n: usize) -> (r: Vec<HistoryEntry>)
    requires
        n <= es@.len(),
    ensures
        r@ == es@.take(n as int),
{
    let mut r: Vec<HistoryEntry> = Vec::new();
    let mut k: usize = 0;
    while k < n
        invariant
            k <= n <= es@.len(),
            r@ == es@.take(k as int),
        decreases n - k,
    {
        r.push(es[k].clone());
        k = k + 1;
        assert(r@ =~= es@.take(k as int));
    }
    r
}

/// Records a session: it becomes the newest entry; only the
/// `MAX_HISTORY_ENTRIES` newest are kept.
pub fn add_entry(store: &mut HistoryStore, entry: HistoryEntry)
    ensures
        final(store).entries@ == (seq![entry] + old(store).entries@).take(
            if old(store).entries@.len() + 1 > MAX_HISTORY_ENTRIES {
                MAX_HISTORY_ENTRIES as int
            } else {
                old(store).entries@.len() + 1int
            },
        ),
{
    let ghost e = entry;
    store.entries.insert(0, entry);
    if store.entries.len() > MAX_HISTORY_ENTRIES {
        store.entries.truncate(MAX_HISTORY_ENTRIES);
    }
    assert(old(store).entries@.insert(0, e) =~= seq![e] + old(store).entries@);
}

/// The history never grows past `MAX_HISTORY_ENTRIES`, and a recorded
/// session is always the newest entry, followed by the previous entries in order.
pub proof fn law_history_is_bounded_newest_first(old_entries: Seq<HistoryEntry>, e: HistoryEntry)
    requires
        old_entries.len() <= MAX_HISTORY_ENTRIES,
    ensures
        ({
            let n = if old_entries.len() + 1 > MAX_HISTORY_ENTRIES {
                MAX_HISTORY_ENTRIES as int
            } else {
                old_entries.len() + 1int
            };
            let new_entries = (seq![e] + old_entries).take(n);
            &&& new_entries.len() <= MAX_HISTORY_ENTRIES
            &&& new_entries[0] == e
            &&& forall|k: int| 1 <= k < new_entries.len() ==> new_entries[k] == old_entries[k - 1]
        }),
{
}

/// The newest `limit` entries, or all of them without a limit.
pub fn get_entries(store: &HistoryStore, limit: Option<usize>) -> (r: Vec<HistoryEntry>)
    ensures
        r@ == match limit {
            Some(n) => store.entries@.take(if n < store.entries@.len() { n as int } else { store.entries@.len() as int }),
            None => store.entries@,
        },
{
    match limit {
        Some(n) => {
            let m = if n < store.entries.len() { n } else { store.entries.len() };
            copy_prefix(&store.entries, m)
        },
        None => {
            let r = copy_prefix(&store.entries, store.entries.len());
            assert(store.entries@.take(store.entries@.len() as int) =~= store.entries@);
            r
        },
    }
}

/// Removes every entry whose id is `id`, keeping the others in order.
pub fn delete_entry(store: &mut HistoryStore, id: &str)
    ensures
        final(store).entries@ == old(store).entries@.filter(|e: HistoryEntry| e.id@ != id@),
{
    let ghost pred = |e: HistoryEntry| e.id@ != id@;
    let target = owned(id);
    let mut kept: Vec<HistoryEntry> = Vec::new();
    let mut k: usize = 0;
    while k < store.entries.len()
        invariant
            k <= store.entries@.len(),
            store.entries@ == old(store).entries@,
            target@ == id@,
            pred == (|e: HistoryEntry| e.id@ != id@),
            kept@ == store.entries@.take(k as int).filter(pred),
        decreases store.entries@.len() - k,
    {
        proof {
            reveal_with_fuel(Seq::<_>::filter, 1);
            assert(store.entries@.take(k + 1).drop_last() =~= store.entries@.take(k as int));
        }
        if store.entries[k].id != target {
            kept.push(store.entries[k].clone());
        }
        k = k + 1;
    }
    assert(store.entries@.take(k as int) =~= store.entries@);
    store.entries = kept;
}

/// Removes every entry.
pub fn clear_history(store: &mut HistoryStore)
    ensures
        final(store).entries@.len() == 0,
{
    store.entries = Vec::new();
}

/// Replaces the polished text of the first entry with id `id`, setting its
/// word count to the new text's character count, and returns the updated
/// entry; `None` (history unchanged) when no entry has that id.
pub fn update_polished_text(store: &mut HistoryStore, id: &str, new_text: String) -> (r: Option<HistoryEntry>)
    ensures
        match r {
            None => final(store).entries@ == old(store).entries@ && forall|k: int|
                0 <= k < old(store).entries@.len() ==> (#[trigger] old(store).entries@[k]).id@ != id@,
            Some(e) => exists|p: int|
                {
                    &&& 0 <= p < old(store).entries@.len()
                    &&& old(store).entries@[p].id@ == id@
                    &&& forall|k: int| 0 <= k < p ==> (#[trigger] old(store).entries@[k]).id@ != id@
                    &&& e == HistoryEntry {
                        polished_text: new_text,
                        word_count: new_text@.len() as usize,
                        ..old(store).entries@[p]
                    }
                    &&& final(store).entries@ == old(store).entries@.update(p, e)
                },
        },
{
    let target = owned(id);
    let mut k: usize = 0;
    while k < store.entries.len()
        invariant
            k <= store.entries@.len(),
            store.entries@ == old(store).entries@,
            target@ == id@,
            forall|m: int| 0 <= m < k ==> (#[trigger] store.entries@[m]).id@ != id@,
        decreases store.entries@.len() - k,
    {
        if store.entries[k].id == target {
            let count = new_text.as_str().unicode_len();
            let old_entry = store.entries[k].clone();
            let e = HistoryEntry {
                id: old_entry.id,
                timestamp: old_entry.timestamp,
                raw_text: old_entry.raw_text,
                polished_text: new_text,
                word_count: count,
                duration_ms: old_entry.duration_ms,
                entry_type: old_entry.entry_type,
            };
            let out = e.clone();
            store.entries.set(k, e);
            return Some(out);
        }
        k = k + 1;
    }
    None
}

/// The label of an entry kind in the export.
pub open spec fn type_label(t: EntryType) -> Seq<char> {
    match t {
        EntryType::Transcribe => "录音"@,
        EntryType::Edit => "编辑"@,
    }
}

/// The Markdown section of one entry.
pub open spec fn entry_markdown(e: HistoryEntry) -> Seq<char> {
    "## ["@ + type_label(e.entry_type) + "] "@ + e.timestamp.display_text() + "\n\n"@ + e.polished_text@
        + "\n\n"@
}

/// The sections of `es`, in order.
pub open spec fn sections_markdown(es: Seq<HistoryEntry>) -> Seq<char>
    decreases es.len(),
{
    if es.len() == 0 {
        seq![]
    } else {
        sections_markdown(es.drop_last()) + entry_markdown(es.last())
    }
}

/// The history as Markdown: a title, then for each entry (newest first) a
/// heading with its kind and local time, and its polished text.
pub fn export_to_markdown(store: &HistoryStore) -> (r: String)
    ensures
        r@ == "# NoType Mini 转写历史\n\n"@ + sections_markdown(store.entries@),
{
    let mut md = owned("# NoType Mini 转写历史\n\n");
    let mut k: usize = 0;
    while k < store.entries.len()
        invariant
            k <= store.entries@.len(),
            md@ == "# NoType Mini 转写历史\n\n"@ + sections_markdown(store.entries@.take(k as int)),
        decreases store.entries@.len() - k,
    {
        let e = &store.entries[k];
        assert(store.entries@.take(k + 1).drop_last() =~= store.entries@.take(k as int));
        let label = match e.entry_type {
            EntryType::Transcribe => "录音",
            EntryType::Edit => "编辑",
        };
        let ghost before = md@;
        md.append("## [");
        md.append(label);
        md.append("] ");
        let time = e.timestamp.display();
        md.append(time.as_str());
        md.append("\n\n");
        md.append(e.polished_text.as_str());
        md.append("\n\n");
        assert(md@ =~= before + entry_markdown(*e));
        k = k + 1;
    }
    assert(store.entries@.take(k as int) =~= store.entries@);
    md
}

/// Sum of word counts of the entries of kind `t`, restricted to the day
/// `today` when `only_today`.
pub open spec fn words_of(es: Seq<HistoryEntry>, t: EntryType, only_today: bool, today: CalendarDate) -> int
    decreases es.len(),
{
    if es.len() == 0 {
        0
    } else {
        let e = es.last();
        words_of(es.drop_last(), t, only_today, today) + if e.entry_type == t && (!only_today
            || (CalendarDate {
            year: e.timestamp.year_of(),
            month: e.timestamp.month_of(),
            day: e.timestamp.day_of(),
        }) == today) {
            e.word_count as int
        } else {
            0
        }
    }
}

/// Today's totals count exactly the entries dated today: recording an entry
/// whose year, month or day differs from today's leaves them unchanged,
/// recording one of the kind dated today adds its words, and the overall
/// totals count every entry of the kind whatever its date.
pub proof fn law_today_counts_only_todays_entries(
    es: Seq<HistoryEntry>,
    e: HistoryEntry,
    t: EntryType,
    today: CalendarDate,
)
    ensures
        e.timestamp.year_of() != today.year || e.timestamp.month_of() != today.month || e.timestamp.day_of()
            != today.day ==> words_of(es.push(e), t, true, today) == words_of(es, t, true, today),
        e.timestamp.year_of() == today.year && e.timestamp.month_of() == today.month && e.timestamp.day_of()
            == today.day && e.entry_type == t ==> words_of(es.push(e), t, true, today) == words_of(
            es,
            t,
            true,
            today,
        ) + e.word_count,
        e.entry_type != t ==> words_of(es.push(e), t, true, today) == words_of(es, t, true, today),
        words_of(es.push(e), t, false, today) == words_of(es, t, false, today) + (if e.entry_type == t {
            e.word_count as int
        } else {
            0
        }),
{
    assert(es.push(e).drop_last() =~= es);
}

/// Today's words of a kind never exceed its total words.
pub proof fn law_today_within_total(es: Seq<HistoryEntry>, t: EntryType, today: CalendarDate)
    ensures
        0 <= words_of(es, t, true, today) <= words_of(es, t, false, today),
    decreases es.len(),
{
    if es.len() > 0 {
        law_today_within_total(es.drop_last(), t, today);
    }
}

/// Number of entries of kind `t`.
pub open spec fn sessions_of(es: Seq<HistoryEntry>, t: EntryType) -> int
    decreases es.len(),
{
    if es.len() == 0 {
        0
    } else {
        sessions_of(es.drop_last(), t) + if es.last().entry_type == t {
            1int
        } else {
            0
        }
    }
}

proof fn lemma_today_le_total(es: Seq<HistoryEntry>, t: EntryType, today: CalendarDate)
    ensures
        0 <= words_of(es, t, true, today) <= words_of(es, t, false, today),
        0 <= sessions_of(es, t) <= es.len(),
    decreases es.len(),
{
    if es.len() > 0 {
        lemma_today_le_total(es.drop_last(), t, today);
    }
}

proof fn lemma_words_prefix(es: Seq<HistoryEntry>, t: EntryType, only: bool, today: CalendarDate, k: int)
    requires
        0 <= k <= es.len(),
    ensures
        words_of(es.take(k), t, only, today) <= words_of(es, t, only, today),
    decreases es.len() - k,
{
    if k < es.len() {
        lemma_words_prefix(es, t, only, today, k + 1);
        assert(es.take(k + 1).drop_last() =~= es.take(k));
    } else {
        assert(es.take(k) =~= es);
    }
}

/// Word and session totals per kind; "today" counts entries whose local date is `today`.
pub fn get_stats(store: &HistoryStore, today: CalendarDate) -> (r: HistoryStats)
    requires
        words_of(store.entries@, EntryType::Transcribe, false, today) <= usize::MAX,
        words_of(store.entries@, EntryType::Edit, false, today) <= usize::MAX,
    ensures
        r.transcribe_total_words == words_of(store.entries@, EntryType::Transcribe, false, today),
        r.transcribe_today_words == words_of(store.entries@, EntryType::Transcribe, true, today),
        r.transcribe_total_sessions == sessions_of(store.entries@, EntryType::Transcribe),
        r.edit_total_words == words_of(store.entries@, EntryType::Edit, false, today),
        r.edit_today_words == words_of(store.entries@, EntryType::Edit, true, today),
        r.edit_total_sessions == sessions_of(store.entries@, EntryType::Edit),
{
    let ghost es = store.entries@;
    let mut r = HistoryStats {
        transcribe_total_words: 0,
        transcribe_today_words: 0,
        transcribe_total_sessions: 0,
        edit_total_words: 0,
        edit_today_words: 0,
        edit_total_sessions: 0,
    };
    let mut k: usize = 0;
    while k < store.entries.len()
        invariant
            k <= es.len(),
            es == store.entries@,
            words_of(es, EntryType::Transcribe, false, today) <= usize::MAX,
            words_of(es, EntryType::Edit, false, today) <= usize::MAX,
            r.transcribe_total_words == words_of(es.take(k as int), EntryType::Transcribe, false, today),
            r.transcribe_today_words == words_of(es.take(k as int), EntryType::Transcribe, true, today),
            r.transcribe_total_sessions == sessions_of(es.take(k as int), EntryType::Transcribe),
            r.edit_total_words == words_of(es.take(k as int), EntryType::Edit, false, today),
            r.edit_today_words == words_of(es.take(k as int), EntryType::Edit, true, today),
            r.edit_total_sessions == sessions_of(es.take(k as int), EntryType::Edit),
        decreases es.len() - k,
    {
        let e = &store.entries[k];
        proof {
            assert(es.take(k + 1).drop_last() =~= es.take(k as int));
            assert(es.take(k + 1).last() == es[k as int]);
            lemma_words_prefix(es, EntryType::Transcribe, false, today, k + 1);
            lemma_words_prefix(es, EntryType::Edit, false, today, k + 1);
            lemma_today_le_total(es.take(k + 1), EntryType::Transcribe, today);
            lemma_today_le_total(es.take(k + 1), EntryType::Edit, today);
        }
        let is_today = e.timestamp.date() == today;
        match e.entry_type {
            EntryType::Transcribe => {
                r.transcribe_total_words = r.transcribe_total_words + e.word_count;
                if is_today {
                    r.transcribe_today_words = r.transcribe_today_words + e.word_count;
                }
                r.transcribe_total_sessions = r.transcribe_total_sessions + 1;
            },
            EntryType::Edit => {
                r.edit_total_words = r.edit_total_words + e.word_count;
                if is_today {
                    r.edit_today_words = r.edit_today_words + e.word_count;
                }
                r.edit_total_sessions = r.edit_total_sessions + 1;
            },
        }
        k = k + 1;
    }
    assert(es.take(k as int) =~= es);
    r
}

} // verus!
