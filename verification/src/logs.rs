//! The in-memory log of the terminal interface: levelled entries kept in a
//! bounded store that drops its oldest entry when full, a case-insensitive
//! text filter over the stored entries, and a clock-of-day timestamp format.
use vstd::prelude::*;
use std::collections::VecDeque;
use crate::text::{
    ascii_lower_seq, chars_of, contains, find_chars, string_of, to_ascii_lower_chars, trim,
    trim_chars,
};

verus! {

/// Severity of a log entry.
#[derive(Clone, Copy, Debug, PartialEq, Eq, Structural)]
pub enum LogLevel {
    Info,
    Warn,
    Error,
}

/// The label of a level as it is printed.
pub open spec fn level_label(level: LogLevel) -> Seq<char> {
    match level {
        LogLevel::Info => seq!['I', 'N', 'F', 'O'],
        LogLevel::Warn => seq!['W', 'A', 'R', 'N'],
        LogLevel::Error => seq!['E', 'R', 'R', 'O', 'R'],
    }
}

impl LogLevel {
    /// The printed label: `INFO`, `WARN` or `ERROR`.
    pub fn as_str(self) -> (r: &'static str)
        ensures
            r@ == level_label(self),
    {
        match self {
            LogLevel::Info => {
                proof {
                    reveal_strlit("INFO");
                }
                "INFO"
            },
            LogLevel::Warn => {
                proof {
                    reveal_strlit("WARN");
                }
                "WARN"
            },
            LogLevel::Error => {
                proof {
                    reveal_strlit("ERROR");
                }
                "ERROR"
            },
        }
    }
}

/// One line of the log.
#[derive(Clone, Debug)]
pub struct LogEntry {
    pub timestamp_ms: u64,
    pub level: LogLevel,
    pub component: String,
    pub message: String,
    pub run_id: Option<String>,
    pub model_id: Option<String>,
}

/// Milliseconds since the Unix epoch by `SystemTime::now`, or `None` when
/// the system clock reads earlier than the epoch. Nothing is promised of the
/// value: it is the time.
#[verifier::external_body]
fn millis_since_epoch() -> (r: Option<u128>) {
    std::time::SystemTime::now().duration_since(std::time::UNIX_EPOCH).ok().map(|d| d.as_millis())
}

/// A clock reading in milliseconds since the Unix epoch as a `u64`:
/// saturated at the largest `u64`, and 0 for a clock that reads earlier
/// than the epoch (`None`).
pub open spec fn reading_millis(reading: Option<u128>) -> u64 {
    match reading {
        Some(ms) => if ms > u64::MAX {
            u64::MAX
        } else {
            ms as u64
        },
        None => 0,
    }
}

/// A clock reading in milliseconds as a `u64`, saturated, and 0 for a clock
/// before the epoch.
pub fn millis_of_reading(reading: Option<u128>) -> (r: u64)
    ensures
        r == reading_millis(reading),
{
    match reading {
        Some(ms) => {
            if ms > 0xffff_ffff_ffff_ffffu128 {
                0xffff_ffff_ffff_ffffu64
            } else {
                ms as u64
            }
        },
        None => 0,
    }
}

/// The current time in milliseconds since the Unix epoch, saturated to
/// `u64`, and 0 when the clock reads earlier than the epoch. The value is
/// the clock's, so nothing is promised of it.
pub fn epoch_millis() -> (r: u64) {
    millis_of_reading(millis_since_epoch())
}

impl LogEntry {
    /// An entry stamped with a clock reading: milliseconds since the epoch,
    /// saturated, and 0 for a clock before the epoch.
    pub fn new_at(
        level: LogLevel,
        component: String,
        message: String,
        run_id: Option<String>,
        model_id: Option<String>,
        reading: Option<u128>,
    ) -> (e: Self)
        ensures
            e.timestamp_ms == reading_millis(reading),
            e.level == level,
            e.component == component,
            e.message == message,
            e.run_id == run_id,
            e.model_id == model_id,
    {
        LogEntry { timestamp_ms: millis_of_reading(reading), level, component, message, run_id, model_id }
    }

    /// An entry stamped with the current time: the clock's reading as
    /// `new_at` takes it.
    pub fn new(
        level: LogLevel,
        component: String,
        message: String,
        run_id: Option<String>,
        model_id: Option<String>,
    ) -> (e: Self)
        ensures
            e.level == level,
            e.component == component,
            e.message == message,
            e.run_id == run_id,
            e.model_id == model_id,
    {
        Self::new_at(level, component, message, run_id, model_id, millis_since_epoch())
    }

    /// An `Info` entry with no run or model.
    pub fn info(component: String, message: String) -> (e: Self)
        ensures
            e.level == LogLevel::Info,
            e.component == component,
            e.message == message,
            e.run_id is None,
            e.model_id is None,
    {
        Self::new(LogLevel::Info, component, message, None, None)
    }

    /// A `Warn` entry with no run or model.
    pub fn warn(component: String, message: String) -> (e: Self)
        ensures
            e.level == LogLevel::Warn,
            e.component == component,
            e.message == message,
            e.run_id is None,
            e.model_id is None,
    {
        Self::new(LogLevel::Warn, component, message, None, None)
    }

    /// An `Error` entry with no run or model.
    pub fn error(component: String, message: String) -> (e: Self)
        ensures
            e.level == LogLevel::Error,
            e.component == component,
            e.message == message,
            e.run_id is None,
            e.model_id is None,
    {
        Self::new(LogLevel::Error, component, message, None, None)
    }
}

/// The text of an optional field, empty when it is absent.
pub open spec fn optional_text(o: Option<String>) -> Seq<char> {
    match o {
        Some(s) => s@,
        None => seq![],
    }
}

/// Whether the lowercased query `q` occurs in the lowercased level,
/// component, message, run id or model id of `e`.
pub open spec fn entry_matches(e: LogEntry, q: Seq<char>) -> bool {
    ||| contains(ascii_lower_seq(level_label(e.level)), q)
    ||| contains(ascii_lower_seq(e.component@), q)
    ||| contains(ascii_lower_seq(e.message@), q)
    ||| contains(ascii_lower_seq(optional_text(e.run_id)), q)
    ||| contains(ascii_lower_seq(optional_text(e.model_id)), q)
}

/// The selection predicate of a normalized query.
pub open spec fn matches_query(q: Seq<char>) -> spec_fn(LogEntry) -> bool {
    |e: LogEntry| entry_matches(e, q)
}

/// The query as the filter compares it: trimmed and ASCII-lowercased.
pub open spec fn normalized_query(query: Seq<char>) -> Seq<char> {
    ascii_lower_seq(trim(query))
}

/// The entries that a query selects, oldest first: all of them for a blank
/// query.
pub open spec fn filter_entries(entries: Seq<LogEntry>, query: Seq<char>) -> Seq<LogEntry> {
    let q = normalized_query(query);
    if q.len() == 0 {
        entries
    } else {
        entries.filter(matches_query(q))
    }
}

/// The entries after one push into a store of the given capacity: the new
/// entry goes last, and the oldest one leaves when the store was full.
pub open spec fn pushed(entries: Seq<LogEntry>, capacity: nat, e: LogEntry) -> Seq<LogEntry> {
    if entries.len() >= capacity {
        entries.drop_first().push(e)
    } else {
        entries.push(e)
    }
}

/// The entries after pushing `es`, one after another, into a store of the
/// given capacity that held `entries`.
pub open spec fn pushed_all(entries: Seq<LogEntry>, capacity: nat, es: Seq<LogEntry>) -> Seq<LogEntry>
    decreases es.len(),
{
    if es.len() == 0 {
        entries
    } else {
        pushed(pushed_all(entries, capacity, es.drop_last()), capacity, es.last())
    }
}

/// How many of the oldest pushed entries a store of this capacity has let go.
pub open spec fn evicted(n: nat, capacity: nat) -> nat {
    if n > capacity {
        (n - capacity) as nat
    } else {
        0
    }
}

/// A store of capacity `c` that started empty holds exactly the last
/// `min(n, c)` of the `n` entries pushed into it, in the order they were
/// pushed: when full, each push lets only the oldest entry go.
pub proof fn law_store_keeps_the_newest(es: Seq<LogEntry>, capacity: nat)
    requires
        capacity >= 1,
    ensures
        pushed_all(seq![], capacity, es) == es.skip(evicted(es.len(), capacity) as int),
        pushed_all(seq![], capacity, es).len() == if es.len() > capacity {
            capacity
        } else {
            es.len()
        },
    decreases es.len(),
{
    if es.len() > 0 {
        let rest = es.drop_last();
        law_store_keeps_the_newest(rest, capacity);
        let k = evicted(rest.len(), capacity) as int;
        let before = rest.skip(k);
        if before.len() >= capacity {
            assert(before.drop_first().push(es.last()) =~= es.skip(k + 1));
        } else {
            assert(before.push(es.last()) =~= es.skip(0));
        }
    }
}

/// A bounded log that keeps the most recent entries.
#[derive(Debug)]
pub struct LogStore {
    entries: VecDeque<LogEntry>,
    capacity: usize,
}

impl LogStore {
    /// The stored entries, oldest first.
    pub closed spec fn view(&self) -> Seq<LogEntry> {
        self.entries@
    }

    /// How many entries the store keeps at most.
    pub closed spec fn capacity_of(&self) -> nat {
        self.capacity as nat
    }

    /// At least one entry fits, and no more are stored than fit.
    pub closed spec fn wf(&self) -> bool {
        &&& self.capacity >= 1
        &&& self.entries@.len() <= self.capacity
    }

    /// A well-formed store keeps at least one entry and no more than fit.
    pub proof fn lemma_wf(&self)
        requires
            self.wf(),
        ensures
            1 <= self.capacity_of(),
            self@.len() <= self.capacity_of(),
    {
    }

    /// An empty store keeping at most `capacity` entries, and at least one.
    pub fn new(capacity: usize) -> (s: Self)
        ensures
            s.wf(),
            s@ == Seq::<LogEntry>::empty(),
            s.capacity_of() == if capacity == 0 { 1 } else { capacity as nat },
    {
        let cap = if capacity == 0 { 1 } else { capacity };
        let reserve = if capacity < 256 { capacity } else { 256 };
        LogStore { entries: VecDeque::with_capacity(reserve), capacity: cap }
    }

    /// Appends an entry, dropping the oldest one when the store is full.
    pub fn push(&mut self, entry: LogEntry)
        requires
            old(self).wf(),
        ensures
            final(self).wf(),
            final(self).capacity_of() == old(self).capacity_of(),
            final(self)@ == pushed(old(self)@, old(self).capacity_of(), entry),
    {
        if self.entries.len() == self.capacity {
            let _ = self.entries.pop_front();
        }
        self.entries.push_back(entry);
    }

    /// Appends an `Info` entry.
    pub fn info(&mut self, component: String, message: String)
        requires
            old(self).wf(),
        ensures
            final(self).wf(),
            final(self).capacity_of() == old(self).capacity_of(),
            exists|e: LogEntry|
                e.level == LogLevel::Info && e.component == component && e.message == message
                    && e.run_id is None && e.model_id is None && final(self)@ == pushed(
                    old(self)@,
                    old(self).capacity_of(),
                    e,
                ),
    {
        let e = LogEntry::info(component, message);
        self.push(e);
    }

    /// Appends a `Warn` entry.
    pub fn warn(&mut self, component: String, message: String)
        requires
            old(self).wf(),
        ensures
            final(self).wf(),
            final(self).capacity_of() == old(self).capacity_of(),
            exists|e: LogEntry|
                e.level == LogLevel::Warn && e.component == component && e.message == message
                    && e.run_id is None && e.model_id is None && final(self)@ == pushed(
                    old(self)@,
                    old(self).capacity_of(),
                    e,
                ),
    {
        let e = LogEntry::warn(component, message);
        self.push(e);
    }

    /// Appends an `Error` entry.
    pub fn error(&mut self, component: String, message: String)
        requires
            old(self).wf(),
        ensures
            final(self).wf(),
            final(self).capacity_of() == old(self).capacity_of(),
            exists|e: LogEntry|
                e.level == LogLevel::Error && e.component == component && e.message == message
                    && e.run_id is None && e.model_id is None && final(self)@ == pushed(
                    old(self)@,
                    old(self).capacity_of(),
                    e,
                ),
    {
        let e = LogEntry::error(component, message);
        self.push(e);
    }

    /// Removes every entry.
    pub fn clear(&mut self)
        requires
            old(self).wf(),
        ensures
            final(self).wf(),
            final(self).capacity_of() == old(self).capacity_of(),
            final(self)@ == Seq::<LogEntry>::empty(),
    {
        self.entries.clear();
    }

    /// The number of stored entries.
    pub fn len(&self) -> (n: usize)
        ensures
            n == self@.len(),
    {
        self.entries.len()
    }

    /// The stored entries that the query selects, oldest first.
    pub fn filtered(&self, query: &str) -> (r: Vec<&LogEntry>)
        ensures
            r@.len() == filter_entries(self@, query@).len(),
            forall|i: int| 0 <= i < r@.len() ==> *r@[i] == filter_entries(self@, query@)[i],
    {
        let raw = chars_of(query);
        let trimmed = trim_chars(&raw);
        let q = to_ascii_lower_chars(&trimmed);
        let ghost pred = matches_query(q@);
        let mut out: Vec<&LogEntry> = Vec::new();
        let mut i: usize = 0;
        while i < self.entries.len()
            invariant
                i <= self.entries@.len(),
                q@ == normalized_query(query@),
                pred == matches_query(q@),
                out@.len() == (if q@.len() == 0 {
                    self.entries@.take(i as int)
                } else {
                    self.entries@.take(i as int).filter(pred)
                }).len(),
                forall|k: int|
                    0 <= k < out@.len() ==> *out@[k] == (if q@.len() == 0 {
                        self.entries@.take(i as int)
                    } else {
                        self.entries@.take(i as int).filter(pred)
                    })[k],
            decreases self.entries@.len() - i,
        {
            let e = &self.entries[i];
            let ghost before = self.entries@.take(i as int);
            let ghost after = self.entries@.take(i as int + 1);
            assert(after.drop_last() == before);
            assert(after.last() == *e);
            proof {
                reveal_with_fuel(Seq::filter, 1);
            }
            if q.len() == 0 || entry_matches_exec(e, &q) {
                out.push(e);
            }
            i += 1;
        }
        assert(self.entries@.take(self.entries@.len() as int) == self.entries@);
        out
    }
}

/// Whether `q` occurs in the ASCII lowercase of `text`.
fn lower_contains(text: &[char], q: &[char]) -> (r: bool)
    ensures
        r == contains(ascii_lower_seq(text@), q@),
{
    let low = to_ascii_lower_chars(text);
    find_chars(&low, q).is_some()
}

/// The characters of an optional field, none when it is absent.
fn optional_chars(o: &Option<String>) -> (r: Vec<char>)
    ensures
        r@ == optional_text(*o),
{
    match o {
        Some(s) => chars_of(s.as_str()),
        None => Vec::new(),
    }
}

/// `entry_matches`, computed.
fn entry_matches_exec(e: &LogEntry, q: &Vec<char>) -> (r: bool)
    ensures
        r == entry_matches(*e, q@),
{
    let level = chars_of(e.level.as_str());
    if lower_contains(&level, q) {
        return true;
    }
    let component = chars_of(e.component.as_str());
    if lower_contains(&component, q) {
        return true;
    }
    let message = chars_of(e.message.as_str());
    if lower_contains(&message, q) {
        return true;
    }
    let run = optional_chars(&e.run_id);
    if lower_contains(&run, q) {
        return true;
    }
    let model = optional_chars(&e.model_id);
    lower_contains(&model, q)
}

impl Default for LogStore {
    /// A store of two thousand entries.
    fn default() -> (s: Self)
        ensures
            s.wf(),
            s@ == Seq::<LogEntry>::empty(),
            s.capacity_of() == 2000,
    {
        Self::new(2000)
    }
}

/// The decimal digit `d` as a character.
pub open spec fn digit_char(d: int) -> char {
    if d == 0 {
        '0'
    } else if d == 1 {
        '1'
    } else if d == 2 {
        '2'
    } else if d == 3 {
        '3'
    } else if d == 4 {
        '4'
    } else if d == 5 {
        '5'
    } else if d == 6 {
        '6'
    } else if d == 7 {
        '7'
    } else if d == 8 {
        '8'
    } else {
        '9'
    }
}

/// `n` in two decimal digits, zero-padded (for `n < 100`).
pub open spec fn two_digits(n: int) -> Seq<char> {
    seq![digit_char(n / 10), digit_char(n % 10)]
}

/// `n` in three decimal digits, zero-padded (for `n < 1000`).
pub open spec fn three_digits(n: int) -> Seq<char> {
    seq![digit_char(n / 100), digit_char(n / 10 % 10), digit_char(n % 10)]
}

/// `HH:MM:SS.mmm` for the time of day (UTC) of a Unix timestamp in
/// milliseconds.
pub open spec fn timestamp_text(timestamp_ms: u64) -> Seq<char> {
    let seconds = (timestamp_ms / 1000 % 86400) as int;
    two_digits(seconds / 3600) + seq![':'] + two_digits(seconds / 60 % 60) + seq![':']
        + two_digits(seconds % 60) + seq!['.'] + three_digits((timestamp_ms % 1000) as int)
}

fn digit(d: u64) -> (c: char)
    requires
        d < 10,
    ensures
        c == digit_char(d as int),
{
    if d == 0 {
        '0'
    } else if d == 1 {
        '1'
    } else if d == 2 {
        '2'
    } else if d == 3 {
        '3'
    } else if d == 4 {
        '4'
    } else if d == 5 {
        '5'
    } else if d == 6 {
        '6'
    } else if d == 7 {
        '7'
    } else if d == 8 {
        '8'
    } else {
        '9'
    }
}

/// The time of day of a Unix timestamp in milliseconds, as `HH:MM:SS.mmm`.
pub fn format_timestamp(timestamp_ms: u64) -> (r: String)
    ensures
        r@ == timestamp_text(timestamp_ms),
{
    let seconds = timestamp_ms / 1000 % 86400;
    let hours = seconds / 3600;
    let minutes = seconds / 60 % 60;
    let secs = seconds % 60;
    let millis = timestamp_ms % 1000;
    let mut v: Vec<char> = Vec::new();
    v.push(digit(hours / 10));
    v.push(digit(hours % 10));
    v.push(':');
    v.push(digit(minutes / 10));
    v.push(digit(minutes % 10));
    v.push(':');
    v.push(digit(secs / 10));
    v.push(digit(secs % 10));
    v.push('.');
    v.push(digit(millis / 100));
    v.push(digit(millis / 10 % 10));
    v.push(digit(millis % 10));
    assert(v@ =~= timestamp_text(timestamp_ms));
    string_of(&v)
}

/// A store never holds more entries than its capacity, and a push leaves
/// the pushed entry last with every entry before it kept in order.
pub proof fn law_push_keeps_newest(entries: Seq<LogEntry>, capacity: nat, e: LogEntry)
    requires
        capacity >= 1,
        entries.len() <= capacity,
    ensures
        pushed(entries, capacity, e).len() <= capacity,
        pushed(entries, capacity, e).last() == e,
        pushed(entries, capacity, e).len() == if entries.len() == capacity {
            capacity as int
        } else {
            entries.len() + 1int
        },
        pushed(entries, capacity, e).drop_last() == entries.subrange(
            entries.len() + 1 - pushed(entries, capacity, e).len(),
            entries.len() as int,
        ),
{
    let p = pushed(entries, capacity, e);
    if entries.len() >= capacity {
        assert(p.drop_last() =~= entries.subrange(1, entries.len() as int));
    } else {
        assert(p.drop_last() =~= entries.subrange(0, entries.len() as int));
    }
}

/// An empty or blank query selects every entry; any other query selects
/// exactly the entries whose fields contain it.
pub proof fn law_filter_selects_matches(entries: Seq<LogEntry>, query: Seq<char>, e: LogEntry)
    ensures
        normalized_query(query).len() == 0 ==> filter_entries(entries, query) == entries,
        normalized_query(query).len() > 0 ==> (filter_entries(entries, query).contains(e) <==> (
        entries.contains(e) && entry_matches(e, normalized_query(query)))),
{
    broadcast use vstd::seq_lib::group_filter_ensures;

    let q = normalized_query(query);
    if q.len() > 0 {
        let pred = matches_query(q);
        let f = entries.filter(pred);
        if f.contains(e) {
            entries.lemma_filter_contains_rev(pred, e);
            let k = choose|k: int| 0 <= k < f.len() && f[k] == e;
            assert(pred(f[k]));
        }
        if entries.contains(e) && entry_matches(e, q) {
            let k = choose|k: int| 0 <= k < entries.len() && entries[k] == e;
            assert(pred(entries[k]));
        }
    }
}

} // verus!
