//! Rolling song log with a configurable retention window.
//!
//! Every observed `(title, artist)` play on a station is recorded with a wall-clock
//! timestamp. Entries older than the retention window are pruned on every push; the window
//! defaults to 24 hours. The log feeds a chronological view and a CSV export.

use crate::clock::{
    file_stamp_text, fmt_local_rfc3339, local_file_stamp, now_millis, rfc3339_of,
    MAX_TIMESTAMP_MILLIS, MIN_TIMESTAMP_MILLIS,
};
use crate::text::{
    ascii_lower, ascii_lower_idempotent, chars_of, contains_chars, contains_text, contains_word, csv_field, csv_field_text,
    decimal, digit_char, digit_to_char, has_word, lower_chars, push_char, push_decimal, string_of,
    trim, trim_chars, utf8_len, utf8_len_at_least, decimal_reads_back, digit_char_is_ascii_digit,
};
use std::collections::VecDeque;
use crate::local_time::{digits_value, is_digit};
use vstd::prelude::*;

verus! {

/// Default rolling retention window in hours, used when no retention has been set.
pub const DEFAULT_RETENTION_HOURS: u32 = 24;

/// Smallest supported retention window, in hours.
pub const MIN_RETENTION_HOURS: u32 = 1;

/// Largest supported retention window, in hours (about seven days).
pub const MAX_RETENTION_HOURS: u32 = 168;

/// Retention choices offered to the user.
pub const RETENTION_CHOICES: [u32; 7] = [1, 6, 12, 24, 48, 72, 168];

/// Defensive cap on the number of entries held in memory.
pub const HARD_CAP: usize = 5000;

/// Minimum interval between two accepted pushes on one program, in milliseconds.
pub const PUSH_RATE_LIMIT_MS: i64 = 30000;

/// Milliseconds in an hour.
pub const MILLIS_PER_HOUR: i64 = 3600000;

/// Snaps a retention value into `[MIN_RETENTION_HOURS, MAX_RETENTION_HOURS]`.
pub open spec fn clamped_hours(hours: u32) -> u32 {
    if hours < MIN_RETENTION_HOURS {
        MIN_RETENTION_HOURS
    } else if hours > MAX_RETENTION_HOURS {
        MAX_RETENTION_HOURS
    } else {
        hours
    }
}

/// Snap an arbitrary retention value to the supported range.
pub fn clamp_retention(hours: u32) -> (r: u32)
    ensures
        r == clamped_hours(hours),
        MIN_RETENTION_HOURS <= r <= MAX_RETENTION_HOURS,
        MIN_RETENTION_HOURS <= hours <= MAX_RETENTION_HOURS ==> r == hours,
{
    if hours < MIN_RETENTION_HOURS {
        MIN_RETENTION_HOURS
    } else if hours > MAX_RETENTION_HOURS {
        MAX_RETENTION_HOURS
    } else {
        hours
    }
}


/// One observed play.
///
/// The station frequency is held in tenths of a MHz, the precision at which the log renders
/// and compares it (`103.7` MHz is `1037`).
#[derive(Debug)]
pub struct PlayEntry {
    /// Unix epoch milliseconds (UTC).
    pub ts_millis: i64,
    pub title: String,
    pub artist: String,
    pub frequency_tenths: u32,
    pub program: u32,
}

/// The mathematical value of a `PlayEntry`.
pub struct PlayEntryView {
    pub ts_millis: i64,
    pub title: Seq<char>,
    pub artist: Seq<char>,
    pub frequency_tenths: u32,
    pub program: u32,
}

impl View for PlayEntry {
    type V = PlayEntryView;

    open spec fn view(&self) -> PlayEntryView {
        PlayEntryView {
            ts_millis: self.ts_millis,
            title: self.title@,
            artist: self.artist@,
            frequency_tenths: self.frequency_tenths,
            program: self.program,
        }
    }
}

/// A frequency in tenths of a MHz written with one decimal, e.g. `1037` as `103.7`.
pub open spec fn frequency_label(tenths: u32) -> Seq<char> {
    decimal((tenths / 10) as nat) + seq!['.', digit_char((tenths % 10) as int)]
}

/// The station label of an entry, e.g. `103.7 HD1` for program 0 on 103.7 MHz.
pub open spec fn station_label_text(e: PlayEntryView) -> Seq<char> {
    frequency_label(e.frequency_tenths) + seq![' ', 'H', 'D'] + decimal((e.program + 1) as nat)
}

/// Writes a frequency in tenths of a MHz with one decimal.
pub fn frequency_text(tenths: u32) -> (s: String)
    ensures
        s@ == frequency_label(tenths),
{
    let mut s = String::new();
    push_decimal(&mut s, (tenths / 10) as u64);
    push_char(&mut s, '.');
    push_char(&mut s, digit_to_char((tenths % 10) as u64));
    assert(s@ =~= frequency_label(tenths));
    s
}

impl PlayEntry {
    /// `"103.7 HD1"`: the frequency with one decimal, then the 1-based HD program number.
    pub fn station_label(&self) -> (s: String)
        requires
            self.program < u32::MAX,
        ensures
            s@ == station_label_text(self@),
    {
        let mut s = frequency_text(self.frequency_tenths);
        push_char(&mut s, ' ');
        push_char(&mut s, 'H');
        push_char(&mut s, 'D');
        push_decimal(&mut s, (self.program + 1) as u64);
        assert(s@ =~= station_label_text(self@));
        s
    }
}

/// Broadcast identifiers that mark a field as station identification when they stand as
/// whole words: `fm`, `am`, `mhz`, `hd1` to `hd4`.
pub open spec fn station_tokens() -> Seq<Seq<char>> {
    seq![
        seq!['f', 'm'],
        seq!['a', 'm'],
        seq!['m', 'h', 'z'],
        seq!['h', 'd', '1'],
        seq!['h', 'd', '2'],
        seq!['h', 'd', '3'],
        seq!['h', 'd', '4'],
    ]
}

/// The station-identification heuristic: after ASCII lowercasing, the field contains the
/// call sign (when it has at least 3 bytes), or the frequency written with one decimal, or
/// one of the broadcast identifiers as a whole word.
pub open spec fn likely_station(field: Seq<char>, call_sign: Seq<char>, frequency_tenths: u32) -> bool {
    let lower = ascii_lower(field);
    ||| call_sign.len() > 0 && utf8_len(call_sign) >= 3 && contains_text(
        lower,
        ascii_lower(call_sign),
    )
    ||| contains_text(lower, frequency_label(frequency_tenths))
    ||| exists|k: int| 0 <= k < station_tokens().len() && has_word(lower, #[trigger] station_tokens()[k])
}

/// The station-identification heuristic ignores ASCII case in the field.
pub proof fn station_check_ignores_case(field: Seq<char>, call_sign: Seq<char>, frequency_tenths: u32)
    ensures
        likely_station(ascii_lower(field), call_sign, frequency_tenths) == likely_station(
            field,
            call_sign,
            frequency_tenths,
        ),
{
    ascii_lower_idempotent(field);
}

/// The broadcast identifiers, as character vectors.
fn station_token_list() -> (v: Vec<Vec<char>>)
    ensures
        v@.len() == station_tokens().len(),
        forall|k: int| 0 <= k < v@.len() ==> (#[trigger] v@[k])@ == station_tokens()[k],
        forall|k: int| 0 <= k < v@.len() ==> (#[trigger] v@[k])@.len() > 0,
{
    let v = vec![
        vec!['f', 'm'],
        vec!['a', 'm'],
        vec!['m', 'h', 'z'],
        vec!['h', 'd', '1'],
        vec!['h', 'd', '2'],
        vec!['h', 'd', '3'],
        vec!['h', 'd', '4'],
    ];
    assert(v@[0]@ =~= station_tokens()[0]);
    assert(v@[1]@ =~= station_tokens()[1]);
    assert(v@[2]@ =~= station_tokens()[2]);
    assert(v@[3]@ =~= station_tokens()[3]);
    assert(v@[4]@ =~= station_tokens()[4]);
    assert(v@[5]@ =~= station_tokens()[5]);
    assert(v@[6]@ =~= station_tokens()[6]);
    v
}

/// Does this metadata field look like the station identifying itself rather than a song?
///
/// True when, ignoring ASCII case, the field contains the call sign (when the call sign has
/// at least 3 bytes), contains the station frequency written as `N.N`, or holds one of the
/// words `FM`, `AM`, `MHz`, `HD1` to `HD4` between non-alphanumeric characters.
pub fn is_likely_station_string(field: &str, call_sign: &str, frequency_tenths: u32) -> (r: bool)
    ensures
        r == likely_station(field@, call_sign@, frequency_tenths),
{
    let field_chars = chars_of(field);
    let lower = lower_chars(&field_chars);
    if !call_sign.is_empty() {
        let cs_chars = chars_of(call_sign);
        let cs = lower_chars(&cs_chars);
        if utf8_len_at_least(&cs_chars, 3) && contains_chars(&lower, &cs) {
            return true;
        }
    }
    let freq_string = frequency_text(frequency_tenths);
    let freq = chars_of(freq_string.as_str());
    if contains_chars(&lower, &freq) {
        return true;
    }
    let tokens = station_token_list();
    let count = tokens.len();
    for k in 0..count
        invariant
            count == tokens@.len(),
            count == station_tokens().len(),
            lower@ == ascii_lower(field@),
            forall|j: int| 0 <= j < count ==> (#[trigger] tokens@[j])@ == station_tokens()[j],
            forall|j: int| 0 <= j < count ==> (#[trigger] tokens@[j])@.len() > 0,
            forall|j: int| 0 <= j < k ==> !has_word(lower@, #[trigger] station_tokens()[j]),
    {
        if contains_word(&lower, &tokens[k]) {
            return true;
        }
    }
    false
}


/// The retention window actually applied; a window of 0 hours counts as the default.
pub open spec fn effective_hours(hours: u32) -> int {
    if hours == 0 {
        DEFAULT_RETENTION_HOURS as int
    } else {
        hours as int
    }
}

/// Entries stamped before this instant fall outside the retention window at `clock`.
pub open spec fn cutoff_at(clock: i64, hours: u32) -> int {
    clock - effective_hours(hours) * MILLIS_PER_HOUR
}

/// The log after pruning: the entries older than `cutoff` are dropped, the others kept in
/// order.
pub open spec fn pruned(entries: Seq<PlayEntryView>, cutoff: int) -> Seq<PlayEntryView> {
    entries.filter(|e: PlayEntryView| e.ts_millis >= cutoff)
}

/// The log held to `HARD_CAP` entries by dropping the oldest.
pub open spec fn capped(entries: Seq<PlayEntryView>) -> Seq<PlayEntryView> {
    if entries.len() > HARD_CAP {
        entries.subrange(entries.len() - HARD_CAP, entries.len() as int)
    } else {
        entries
    }
}

/// The most recent entry of a program, if the log holds one.
pub open spec fn latest_for_program(entries: Seq<PlayEntryView>, program: u32) -> Option<
    PlayEntryView,
>
    decreases entries.len(),
{
    if entries.len() == 0 {
        None
    } else if entries.last().program == program {
        Some(entries.last())
    } else {
        latest_for_program(entries.drop_last(), program)
    }
}

/// Whether a play is recorded: the trimmed title and artist are both non-empty, neither looks
/// like station identification, and, when the program already has an entry, the latest one
/// is a different `(title, artist)` pair stamped at least `PUSH_RATE_LIMIT_MS` earlier.
pub open spec fn accepts(
    entries: Seq<PlayEntryView>,
    now: i64,
    title: Seq<char>,
    artist: Seq<char>,
    frequency_tenths: u32,
    program: u32,
    call_sign: Seq<char>,
) -> bool {
    let t = trim(title);
    let a = trim(artist);
    &&& t.len() > 0
    &&& a.len() > 0
    &&& !likely_station(t, call_sign, frequency_tenths)
    &&& !likely_station(a, call_sign, frequency_tenths)
    &&& match latest_for_program(entries, program) {
        None => true,
        Some(last) => !(last.title == t && last.artist == a) && now - last.ts_millis
            >= PUSH_RATE_LIMIT_MS,
    }
}

/// The entry that a recorded play adds.
pub open spec fn new_entry(
    now: i64,
    title: Seq<char>,
    artist: Seq<char>,
    frequency_tenths: u32,
    program: u32,
) -> PlayEntryView {
    PlayEntryView {
        ts_millis: now,
        title: trim(title),
        artist: trim(artist),
        frequency_tenths,
        program,
    }
}

/// The CSV header line.
pub open spec fn csv_header_text() -> Seq<char> {
    "timestamp_iso,artist,title,station,frequency_mhz,program"@
}

/// One CSV line for an entry, given the rendering of its timestamp:
/// `timestamp,artist,title,station,frequency,program`.
pub open spec fn csv_line_text(e: PlayEntryView, stamp: Seq<char>) -> Seq<char> {
    stamp + seq![','] + csv_field_text(e.artist) + seq![','] + csv_field_text(e.title) + seq![',']
        + csv_field_text(station_label_text(e)) + seq![','] + frequency_label(e.frequency_tenths)
        + seq![','] + decimal(e.program as nat)
}

/// The CSV lines of a log, header first, one line per entry in order, given the rendering of
/// each entry's timestamp.
pub open spec fn csv_lines_text(entries: Seq<PlayEntryView>, stamps: Seq<Seq<char>>) -> Seq<Seq<char>> {
    seq![csv_header_text()] + Seq::new(entries.len(), |i: int| csv_line_text(entries[i], stamps[i]))
}

/// A timestamp column as the CSV export writes it: the local RFC 3339 time of the entry's
/// instant (`rfc3339_of`) when chrono can represent it, the empty text otherwise.
pub open spec fn local_stamp_text(stamp: Seq<char>, ts_millis: i64) -> bool {
    if MIN_TIMESTAMP_MILLIS <= ts_millis <= MAX_TIMESTAMP_MILLIS {
        rfc3339_of(stamp, ts_millis as int)
    } else {
        stamp.len() == 0
    }
}

/// Every program number can be shown 1-based.
pub open spec fn programs_displayable(entries: Seq<PlayEntryView>) -> bool {
    forall|i: int| 0 <= i < entries.len() ==> #[trigger] entries[i].program < u32::MAX
}

/// The default CSV file name for a timestamp text: `nrsc5-studio-playlog-<stamp>.csv`.
pub open spec fn csv_filename_text(stamp: Seq<char>) -> Seq<char> {
    "nrsc5-studio-playlog-"@ + stamp + ".csv"@
}

/// Builds one CSV line for an entry, given the rendering of its timestamp.
pub fn csv_line(e: &PlayEntry, stamp: &str) -> (r: String)
    requires
        e.program < u32::MAX,
    ensures
        r@ == csv_line_text(e@, stamp@),
{
    let mut r = String::from_str(stamp);
    push_char(&mut r, ',');
    let artist = csv_field(e.artist.as_str());
    r.append(artist.as_str());
    push_char(&mut r, ',');
    let title = csv_field(e.title.as_str());
    r.append(title.as_str());
    push_char(&mut r, ',');
    let label = e.station_label();
    let station = csv_field(label.as_str());
    r.append(station.as_str());
    push_char(&mut r, ',');
    let freq = frequency_text(e.frequency_tenths);
    r.append(freq.as_str());
    push_char(&mut r, ',');
    push_decimal(&mut r, e.program as u64);
    assert(r@ =~= csv_line_text(e@, stamp@));
    r
}

/// The default CSV file name for a timestamp text: `nrsc5-studio-playlog-<stamp>.csv`.
pub fn csv_filename_for_stamp(stamp: &str) -> (r: String)
    ensures
        r@ == csv_filename_text(stamp@),
{
    let mut r = String::from_str("nrsc5-studio-playlog-");
    r.append(stamp);
    r.append(".csv");
    r
}

/// Build the default CSV filename offered when exporting:
/// `nrsc5-studio-playlog-<YYYYMMDD-HHMMSS>.csv` in local time.
pub fn suggested_csv_filename() -> (r: String)
    ensures
        exists|stamp: Seq<char>| file_stamp_text(stamp) && r@ == #[trigger] csv_filename_text(stamp),
{
    let stamp = local_file_stamp();
    csv_filename_for_stamp(stamp.as_str())
}

/// Rolling song log.
pub struct PlayLog {
    entries: VecDeque<PlayEntry>,
    /// Active retention window in hours; `DEFAULT_RETENTION_HOURS` until one is set.
    retention_hours: u32,
}

/// The mathematical value of a `PlayLog`: its entries, oldest first, and its retention
/// window in hours.
pub struct PlayLogView {
    pub entries: Seq<PlayEntryView>,
    pub retention_hours: u32,
}

impl View for PlayLog {
    type V = PlayLogView;

    closed spec fn view(&self) -> PlayLogView {
        PlayLogView {
            entries: self.entries@.map_values(|e: PlayEntry| e@),
            retention_hours: self.retention_hours,
        }
    }
}

impl Default for PlayLog {
    /// An empty log with the default retention window.
    fn default() -> (r: Self)
        ensures
            r@.entries == Seq::<PlayEntryView>::empty(),
            r@.retention_hours == DEFAULT_RETENTION_HOURS,
    {
        let r = PlayLog { entries: VecDeque::new(), retention_hours: DEFAULT_RETENTION_HOURS };
        assert(r@.entries =~= Seq::<PlayEntryView>::empty());
        r
    }
}

impl PlayLog {
    proof fn view_drop_first(entries: Seq<PlayEntry>)
        requires
            entries.len() > 0,
        ensures
            entries.drop_first().map_values(|e: PlayEntry| e@) == entries.map_values(
                |e: PlayEntry| e@,
            ).drop_first(),
    {
        assert(entries.drop_first().map_values(|e: PlayEntry| e@) =~= entries.map_values(
            |e: PlayEntry| e@,
        ).drop_first());
    }

    /// Drop the entries older than the retention window at `clock`, keeping the others in
    /// order.
    pub fn prune_at(&mut self, clock: i64)
        ensures
            final(self)@.entries == pruned(old(self)@.entries, cutoff_at(clock, old(self)@.retention_hours)),
            final(self)@.retention_hours == old(self)@.retention_hours,
    {
        let hours: u32 = if self.retention_hours == 0 {
            DEFAULT_RETENTION_HOURS
        } else {
            self.retention_hours
        };
        let cutoff: i128 = clock as i128 - (hours as i128) * (MILLIS_PER_HOUR as i128);
        assert(cutoff == cutoff_at(clock, self@.retention_hours));
        let ghost all = self@.entries;
        let ghost pred = |e: PlayEntryView| e.ts_millis >= cutoff;
        let mut kept: VecDeque<PlayEntry> = VecDeque::new();
        let ghost mut done: int = 0;
        assert(all.take(0).filter(pred) =~= Seq::<PlayEntryView>::empty()) by {
            reveal(Seq::filter);
        }
        assert(all.skip(0) =~= all);
        while self.entries.len() > 0
            invariant
                cutoff == cutoff_at(clock, old(self)@.retention_hours),
                self.retention_hours == old(self)@.retention_hours,
                all == old(self)@.entries,
                pred == (|e: PlayEntryView| e.ts_millis >= cutoff),
                0 <= done <= all.len(),
                self@.entries == all.skip(done),
                kept@.map_values(|e: PlayEntry| e@) == all.take(done).filter(pred),
            decreases self.entries@.len(),
        {
            proof {
                Self::view_drop_first(self.entries@);
                assert(all.skip(done).drop_first() =~= all.skip(done + 1));
                assert(all.take(done + 1).drop_last() =~= all.take(done));
                reveal(Seq::filter);
            }
            let ghost x = all[done];
            assert(self@.entries[0] == self.entries@[0]@);
            assert(all.skip(done)[0] == x);
            let e = self.entries.pop_front().unwrap();
            assert(e@ == x);
            if (e.ts_millis as i128) >= cutoff {
                let ghost before = kept@;
                kept.push_back(e);
                assert(kept@.map_values(|e: PlayEntry| e@) =~= before.map_values(|e: PlayEntry| e@).push(x));
            }
            proof {
                done = done + 1;
            }
        }
        assert(all.take(done) =~= all);
        self.entries = kept;
    }

    /// Drop entries older than the retention window, as of the system clock. Safe to call
    /// often.
    pub fn prune(&mut self)
        ensures
            exists|clock: i64| final(self)@.entries == pruned(old(self)@.entries, #[trigger] cutoff_at(clock, old(self)@.retention_hours)),
            final(self)@.retention_hours == old(self)@.retention_hours,
    {
        let clock = now_millis();
        self.prune_at(clock);
    }

    /// A log holding saved entries, in order, with the default retention window, pruned as
    /// of `clock`.
    pub fn from_saved_at(saved: Vec<PlayEntry>, clock: i64) -> (r: Self)
        ensures
            r@.retention_hours == DEFAULT_RETENTION_HOURS,
            r@.entries == pruned(
                saved@.map_values(|e: PlayEntry| e@),
                cutoff_at(clock, DEFAULT_RETENTION_HOURS),
            ),
    {
        let mut entries: VecDeque<PlayEntry> = VecDeque::new();
        let ghost saved_view = saved@;
        for e in it: saved
            invariant
                it.seq() == saved_view,
                entries@ == saved_view.take(it.index() as int),
        {
            entries.push_back(e);
        }
        assert(saved_view.take(saved_view.len() as int) =~= saved_view);
        assert(entries@ =~= saved_view);
        let mut log = PlayLog { entries, retention_hours: DEFAULT_RETENTION_HOURS };
        log.prune_at(clock);
        log
    }

    /// A log holding saved entries, in order, with the default retention window, pruned as
    /// of the system clock.
    pub fn from_saved(saved: Vec<PlayEntry>) -> (r: Self)
        ensures
            r@.retention_hours == DEFAULT_RETENTION_HOURS,
            exists|clock: i64|
                r@.entries == pruned(
                    saved@.map_values(|e: PlayEntry| e@),
                    #[trigger] cutoff_at(clock, DEFAULT_RETENTION_HOURS),
                ),
    {
        let clock = now_millis();
        Self::from_saved_at(saved, clock)
    }

    /// Set the retention window, snapped to the supported range, and prune as of `clock`.
    pub fn set_retention_hours_at(&mut self, hours: u32, clock: i64)
        ensures
            final(self)@.retention_hours == clamped_hours(hours),
            final(self)@.entries == pruned(old(self)@.entries, cutoff_at(clock, clamped_hours(hours))),
    {
        self.retention_hours = clamp_retention(hours);
        self.prune_at(clock);
    }

    /// Update the retention window, snapped to the supported range, and immediately prune
    /// the entries that fall outside it as of the system clock.
    pub fn set_retention_hours(&mut self, hours: u32)
        ensures
            final(self)@.retention_hours == clamped_hours(hours),
            exists|clock: i64|
                final(self)@.entries == pruned(old(self)@.entries, #[trigger] cutoff_at(clock, clamped_hours(hours))),
    {
        let clock = now_millis();
        self.set_retention_hours_at(hours, clock);
    }

    /// The retention window in hours (0 when none was set).
    pub fn retention_hours(&self) -> (r: u32)
        ensures
            r == self@.retention_hours,
    {
        self.retention_hours
    }

    /// Drop every entry.
    pub fn clear_all(&mut self)
        ensures
            final(self)@.entries == Seq::<PlayEntryView>::empty(),
            final(self)@.retention_hours == old(self)@.retention_hours,
    {
        self.entries.clear();
        assert(self@.entries =~= Seq::<PlayEntryView>::empty());
    }

    /// Index of the most recent entry of a program.
    fn latest_index_for_program(&self, program: u32) -> (r: Option<usize>)
        ensures
            match r {
                None => latest_for_program(self@.entries, program) is None,
                Some(i) => i < self@.entries.len() && latest_for_program(self@.entries, program) == Some(self@.entries[i as int]),
            },
    {
        let n = self.entries.len();
        let mut i = n;
        assert(self@.entries.take(n as int) =~= self@.entries);
        while i > 0
            invariant
                i <= n,
                n == self@.entries.len(),
                latest_for_program(self@.entries, program) == latest_for_program(self@.entries.take(i as int), program),
            decreases i,
        {
            assert(self@.entries.take(i as int).last() == self@.entries[i - 1]);
            if self.entries[i - 1].program == program {
                return Some(i - 1);
            }
            assert(self@.entries.take(i as int).drop_last() =~= self@.entries.take(i - 1));
            i = i - 1;
        }
        None
    }

    /// Try to record a new play stamped `now_millis`, pruning as of `clock` when it is
    /// recorded. Returns `true` if an entry was pushed.
    ///
    /// Skips the push when the trimmed title or artist is empty, when either looks like
    /// station identification, when the program's most recent entry has the same
    /// `(title, artist)`, or when that entry is less than `PUSH_RATE_LIMIT_MS` older.
    /// Dedup and rate limit are kept per program.
    pub fn try_push_at(
        &mut self,
        now_millis: i64,
        title: &str,
        artist: &str,
        frequency_tenths: u32,
        program: u32,
        call_sign: &str,
        clock: i64,
    ) -> (r: bool)
        ensures
            r == accepts(old(self)@.entries, now_millis, title@, artist@, frequency_tenths, program, call_sign@),
            !r ==> final(self)@.entries == old(self)@.entries,
            r ==> final(self)@.entries == pruned(
                capped(old(self)@.entries.push(new_entry(now_millis, title@, artist@, frequency_tenths, program))),
                cutoff_at(clock, old(self)@.retention_hours),
            ),
            final(self)@.retention_hours == old(self)@.retention_hours,
    {
        let title_chars = chars_of(title);
        let artist_chars = chars_of(artist);
        let t_chars = trim_chars(&title_chars);
        let a_chars = trim_chars(&artist_chars);
        if t_chars.len() == 0 || a_chars.len() == 0 {
            return false;
        }
        let t = string_of(&t_chars);
        let a = string_of(&a_chars);
        if is_likely_station_string(t.as_str(), call_sign, frequency_tenths)
            || is_likely_station_string(a.as_str(), call_sign, frequency_tenths) {
            return false;
        }
        match self.latest_index_for_program(program) {
            Some(i) => {
                let last = &self.entries[i];
                if last.title == t && last.artist == a {
                    return false;
                }
                if (now_millis as i128) - (last.ts_millis as i128) < (PUSH_RATE_LIMIT_MS as i128) {
                    return false;
                }
            },
            None => {},
        }
        let ghost before = self@.entries;
        let entry = PlayEntry { ts_millis: now_millis, title: t, artist: a, frequency_tenths, program };
        assert(entry@ == new_entry(now_millis, title@, artist@, frequency_tenths, program));
        self.entries.push_back(entry);
        assert(self@.entries =~= before.push(entry@));
        let ghost pushed = self@.entries;
        while self.entries.len() > HARD_CAP
            invariant
                capped(pushed) == capped(self@.entries),
                self.retention_hours == old(self)@.retention_hours,
            decreases self.entries@.len(),
        {
            proof {
                Self::view_drop_first(self.entries@);
                let cur = self@.entries;
                if cur.len() - 1 > HARD_CAP {
                    assert(cur.drop_first().subrange(cur.len() - 1 - HARD_CAP, cur.len() - 1) =~= cur.subrange(cur.len() - HARD_CAP, cur.len() as int));
                } else {
                    assert(cur.drop_first() =~= cur.subrange(cur.len() - HARD_CAP, cur.len() as int));
                }
            }
            self.entries.pop_front();
        }
        self.prune_at(clock);
        true
    }

    /// Try to record a new play. Returns `true` if an entry was pushed; the log is then pruned
    /// as of the system clock. See `try_push_at` for the rules.
    pub fn try_push(
        &mut self,
        now_millis: i64,
        title: &str,
        artist: &str,
        frequency_tenths: u32,
        program: u32,
        call_sign: &str,
    ) -> (r: bool)
        ensures
            r == accepts(old(self)@.entries, now_millis, title@, artist@, frequency_tenths, program, call_sign@),
            !r ==> final(self)@.entries == old(self)@.entries,
            r ==> exists|clock: i64|
                final(self)@.entries == pruned(
                    capped(old(self)@.entries.push(new_entry(now_millis, title@, artist@, frequency_tenths, program))),
                    #[trigger] cutoff_at(clock, old(self)@.retention_hours),
                ),
            final(self)@.retention_hours == old(self)@.retention_hours,
    {
        let clock = crate::clock::now_millis();
        self.try_push_at(now_millis, title, artist, frequency_tenths, program, call_sign, clock)
    }

    /// The CSV export, as lines without their line ends: the header, then one line per entry,
    /// oldest first, each stamped with the given timestamp text.
    pub fn csv_lines_with_stamps(&self, stamps: &Vec<String>) -> (r: Vec<String>)
        requires
            stamps@.len() == self@.entries.len(),
            programs_displayable(self@.entries),
        ensures
            r@.map_values(|l: String| l@) == csv_lines_text(
                self@.entries,
                stamps@.map_values(|s: String| s@),
            ),
    {
        let mut r: Vec<String> = Vec::new();
        r.push(String::from_str("timestamp_iso,artist,title,station,frequency_mhz,program"));
        let n = self.entries.len();
        let ghost stamp_views = stamps@.map_values(|s: String| s@);
        for i in 0..n
            invariant
                n == self@.entries.len(),
                stamps@.len() == n,
                stamp_views == stamps@.map_values(|s: String| s@),
                programs_displayable(self@.entries),
                r@.map_values(|l: String| l@) =~= csv_lines_text(self@.entries.take(i as int), stamp_views),
        {
            assert(self@.entries[i as int] == self.entries@[i as int]@);
            assert(self@.entries[i as int].program < u32::MAX);
            let line = csv_line(&self.entries[i], stamps[i].as_str());
            r.push(line);
            assert(csv_lines_text(self@.entries.take(i + 1), stamp_views) =~= csv_lines_text(self@.entries.take(i as int), stamp_views).push(csv_line_text(self@.entries[i as int], stamp_views[i as int])));
        }
        assert(self@.entries.take(n as int) =~= self@.entries);
        r
    }

    /// The CSV export, as lines without their line ends: the header,
    /// `timestamp_iso,artist,title,station,frequency_mhz,program`, then one line per entry,
    /// oldest first, with its timestamp in local RFC 3339.
    pub fn csv_lines(&self) -> (r: Vec<String>)
        requires
            programs_displayable(self@.entries),
        ensures
            exists|stamps: Seq<Seq<char>>|
                {
                    &&& stamps.len() == self@.entries.len()
                    &&& forall|i: int|
                        0 <= i < stamps.len() ==> local_stamp_text(
                            #[trigger] stamps[i],
                            self@.entries[i].ts_millis,
                        )
                    &&& r@.map_values(|l: String| l@) == #[trigger] csv_lines_text(
                        self@.entries,
                        stamps,
                    )
                },
    {
        let mut stamps: Vec<String> = Vec::new();
        let n = self.entries.len();
        for i in 0..n
            invariant
                n == self@.entries.len(),
                stamps@.len() == i,
                forall|j: int|
                    0 <= j < i ==> local_stamp_text(
                        #[trigger] stamps@[j]@,
                        self@.entries[j].ts_millis,
                    ),
        {
            assert(self@.entries[i as int] == self.entries@[i as int]@);
            stamps.push(fmt_local_rfc3339(self.entries[i].ts_millis));
        }
        let r = self.csv_lines_with_stamps(&stamps);
        let ghost views = stamps@.map_values(|s: String| s@);
        assert(forall|j: int| 0 <= j < views.len() ==> #[trigger] views[j] == stamps@[j]@);
        r
    }

    /// The entries, oldest first.
    pub fn entries(&self) -> (r: &VecDeque<PlayEntry>)
        ensures
            r@.map_values(|e: PlayEntry| e@) == self@.entries,
    {
        &self.entries
    }

    /// Whether the log holds no entry.
    pub fn is_empty(&self) -> (r: bool)
        ensures
            r == (self@.entries.len() == 0),
    {
        self.entries.len() == 0
    }

    /// Number of entries.
    pub fn len(&self) -> (r: usize)
        ensures
            r == self@.entries.len(),
    {
        self.entries.len()
    }
}


/// Snapping a retention value twice changes nothing more than snapping it once.
pub proof fn clamp_idempotent(hours: u32)
    ensures
        clamped_hours(clamped_hours(hours)) == clamped_hours(hours),
        MIN_RETENTION_HOURS <= clamped_hours(hours) <= MAX_RETENTION_HOURS,
{
}

/// Pruning keeps exactly the entries within the window: every kept entry is not older than
/// the cutoff, every entry that is not older is kept, and no older entry is.
pub proof fn prune_keeps_exactly_fresh_entries(entries: Seq<PlayEntryView>, cutoff: int)
    ensures
        pruned(entries, cutoff).len() <= entries.len(),
        forall|i: int|
            0 <= i < pruned(entries, cutoff).len() ==> #[trigger] pruned(entries, cutoff)[i].ts_millis
                >= cutoff,
        forall|i: int|
            0 <= i < entries.len() ==> (#[trigger] pruned(entries, cutoff).contains(entries[i])
                <==> entries[i].ts_millis >= cutoff),
{
    let pred = |e: PlayEntryView| e.ts_millis >= cutoff;
    entries.lemma_filter_len(pred);
    assert forall|i: int| 0 <= i < pruned(entries, cutoff).len() implies #[trigger] pruned(entries, cutoff)[i].ts_millis >= cutoff by {
        entries.lemma_filter_pred(pred, i);
    }
    assert forall|i: int| 0 <= i < entries.len() implies (#[trigger] pruned(entries, cutoff).contains(entries[i])
        <==> entries[i].ts_millis >= cutoff) by {
        if entries[i].ts_millis >= cutoff {
            entries.lemma_filter_contains(pred, i);
        }
        if pruned(entries, cutoff).contains(entries[i]) {
            let j = choose|j: int| 0 <= j < pruned(entries, cutoff).len() && pruned(entries, cutoff)[j] == entries[i];
            entries.lemma_filter_pred(pred, j);
        }
    }
}

/// Pruning twice with the same cutoff prunes nothing more.
pub proof fn prune_idempotent(entries: Seq<PlayEntryView>, cutoff: int)
    ensures
        pruned(pruned(entries, cutoff), cutoff) == pruned(entries, cutoff),
    decreases entries.len(),
{
    reveal(Seq::filter);
    if entries.len() > 0 {
        let pred = |e: PlayEntryView| e.ts_millis >= cutoff;
        prune_idempotent(entries.drop_last(), cutoff);
        let p = pruned(entries.drop_last(), cutoff);
        if pred(entries.last()) {
            assert(p.push(entries.last()).drop_last() =~= p);
        }
    }
}

proof fn pruned_keeps_fresh_last(entries: Seq<PlayEntryView>, cutoff: int)
    requires
        entries.len() > 0,
        entries.last().ts_millis >= cutoff,
    ensures
        pruned(entries, cutoff).len() > 0,
        pruned(entries, cutoff).last() == entries.last(),
{
    reveal(Seq::filter);
}

/// After a push the log holds at most `HARD_CAP` entries.
pub proof fn push_respects_cap(entries: Seq<PlayEntryView>, e: PlayEntryView, cutoff: int)
    ensures
        pruned(capped(entries.push(e)), cutoff).len() <= HARD_CAP,
{
    prune_keeps_exactly_fresh_entries(capped(entries.push(e)), cutoff);
}

/// A recorded play that is not older than the cutoff is the newest entry of the log after
/// the push.
pub proof fn pushed_entry_is_newest(entries: Seq<PlayEntryView>, e: PlayEntryView, cutoff: int)
    requires
        e.ts_millis >= cutoff,
    ensures
        pruned(capped(entries.push(e)), cutoff).len() > 0,
        pruned(capped(entries.push(e)), cutoff).last() == e,
{
    let c = capped(entries.push(e));
    assert(c.len() > 0 && c.last() == e);
    pruned_keeps_fresh_last(c, cutoff);
}

/// Once a play is recorded (and not pruned right away), the same `(title, artist)` on the same
/// program is refused, whenever it comes and on whatever frequency.
pub proof fn repeated_play_is_refused(
    entries: Seq<PlayEntryView>,
    now: i64,
    title: Seq<char>,
    artist: Seq<char>,
    frequency_tenths: u32,
    program: u32,
    call_sign: Seq<char>,
    cutoff: int,
    later: i64,
    later_frequency_tenths: u32,
)
    requires
        now >= cutoff,
    ensures
        !accepts(
            pruned(capped(entries.push(new_entry(now, title, artist, frequency_tenths, program))), cutoff),
            later,
            title,
            artist,
            later_frequency_tenths,
            program,
            call_sign,
        ),
{
    let e = new_entry(now, title, artist, frequency_tenths, program);
    pushed_entry_is_newest(entries, e, cutoff);
}

/// Once a play is recorded (and not pruned right away), no other play on the same program is
/// recorded within `PUSH_RATE_LIMIT_MS` of it.
pub proof fn rate_limit_holds(
    entries: Seq<PlayEntryView>,
    now: i64,
    title: Seq<char>,
    artist: Seq<char>,
    frequency_tenths: u32,
    program: u32,
    cutoff: int,
    later: i64,
    other_title: Seq<char>,
    other_artist: Seq<char>,
    other_frequency_tenths: u32,
    call_sign: Seq<char>,
)
    requires
        now >= cutoff,
        later - now < PUSH_RATE_LIMIT_MS,
    ensures
        !accepts(
            pruned(capped(entries.push(new_entry(now, title, artist, frequency_tenths, program))), cutoff),
            later,
            other_title,
            other_artist,
            other_frequency_tenths,
            program,
            call_sign,
        ),
{
    let e = new_entry(now, title, artist, frequency_tenths, program);
    pushed_entry_is_newest(entries, e, cutoff);
}

proof fn latest_ignores_other_programs(entries: Seq<PlayEntryView>, program: u32)
    ensures
        latest_for_program(entries, program) == latest_for_program(
            entries.filter(|e: PlayEntryView| e.program == program),
            program,
        ),
    decreases entries.len(),
{
    reveal(Seq::filter);
    if entries.len() > 0 {
        latest_ignores_other_programs(entries.drop_last(), program);
    }
}

/// Dedup and rate limit are kept per program: whether a play is recorded depends only on the
/// entries of its own program.
pub proof fn acceptance_is_per_program(
    entries: Seq<PlayEntryView>,
    now: i64,
    title: Seq<char>,
    artist: Seq<char>,
    frequency_tenths: u32,
    program: u32,
    call_sign: Seq<char>,
)
    ensures
        accepts(entries, now, title, artist, frequency_tenths, program, call_sign) == accepts(
            entries.filter(|e: PlayEntryView| e.program == program),
            now,
            title,
            artist,
            frequency_tenths,
            program,
            call_sign,
        ),
{
    latest_ignores_other_programs(entries, program);
}


/// The frequency label reads back as the frequency: digits, a dot and one last digit, with
/// the digits before the dot giving the whole MHz and the last digit the tenths.
pub proof fn frequency_label_reads_back(tenths: u32)
    ensures
        ({
            let s = frequency_label(tenths);
            &&& s.len() >= 3
            &&& s[s.len() - 2] == '.'
            &&& is_digit(s.last())
            &&& forall|k: int| 0 <= k < s.len() - 2 ==> is_digit(#[trigger] s[k])
            &&& digits_value(s.subrange(0, s.len() - 2)) * 10 + (s.last() as u32 - 48) == tenths
        }),
{
    let whole = decimal((tenths / 10) as nat);
    decimal_reads_back((tenths / 10) as nat);
    digit_char_is_ascii_digit((tenths % 10) as int);
    let s = frequency_label(tenths);
    assert(s.subrange(0, s.len() - 2) =~= whole);
    assert forall|k: int| 0 <= k < s.len() - 2 implies is_digit(#[trigger] s[k]) by {
        assert(s[k] == whole[k]);
    }
}

/// The station label reads back as the entry's frequency and its 1-based program: the
/// frequency label, ` HD`, then digits giving `program + 1`.
pub proof fn station_label_reads_back(e: PlayEntryView)
    ensures
        ({
            let s = station_label_text(e);
            let f = frequency_label(e.frequency_tenths);
            &&& s.subrange(0, f.len() as int) == f
            &&& s.subrange(f.len() as int, f.len() as int + 3) == seq![' ', 'H', 'D']
            &&& digits_value(s.subrange(f.len() as int + 3, s.len() as int)) == e.program + 1
        }),
{
    let s = station_label_text(e);
    let f = frequency_label(e.frequency_tenths);
    decimal_reads_back((e.program + 1) as nat);
    assert(s.subrange(0, f.len() as int) =~= f);
    assert(s.subrange(f.len() as int, f.len() as int + 3) =~= seq![' ', 'H', 'D']);
    assert(s.subrange(f.len() as int + 3, s.len() as int) =~= decimal((e.program + 1) as nat));
}

/// Whatever the call sign, a field that contains the station frequency written with one
/// decimal is station identification.
pub proof fn frequency_mention_is_station_id(field: Seq<char>, call_sign: Seq<char>, frequency_tenths: u32)
    requires
        contains_text(ascii_lower(field), frequency_label(frequency_tenths)),
    ensures
        likely_station(field, call_sign, frequency_tenths),
{
}

/// Whatever the frequency, a field that contains a call sign of at least 3 bytes, ignoring
/// ASCII case, is station identification.
pub proof fn call_sign_mention_is_station_id(field: Seq<char>, call_sign: Seq<char>, frequency_tenths: u32)
    requires
        utf8_len(call_sign) >= 3,
        contains_text(ascii_lower(field), ascii_lower(call_sign)),
    ensures
        likely_station(field, call_sign, frequency_tenths),
{
}

/// Whatever the call sign and frequency, a field holding `fm`, `am`, `mhz` or `hd1` to `hd4`
/// as a whole word, ignoring ASCII case, is station identification.
pub proof fn broadcast_word_is_station_id(
    field: Seq<char>,
    call_sign: Seq<char>,
    frequency_tenths: u32,
    word: Seq<char>,
)
    requires
        word == seq!['f', 'm'] || word == seq!['a', 'm'] || word == seq!['m', 'h', 'z'] || word
            == seq!['h', 'd', '1'] || word == seq!['h', 'd', '2'] || word == seq!['h', 'd', '3']
            || word == seq!['h', 'd', '4'],
        has_word(ascii_lower(field), word),
    ensures
        likely_station(field, call_sign, frequency_tenths),
{
    let tokens = station_tokens();
    if word == seq!['f', 'm'] {
        assert(tokens[0] == word);
    } else if word == seq!['a', 'm'] {
        assert(tokens[1] == word);
    } else if word == seq!['m', 'h', 'z'] {
        assert(tokens[2] == word);
    } else if word == seq!['h', 'd', '1'] {
        assert(tokens[3] == word);
    } else if word == seq!['h', 'd', '2'] {
        assert(tokens[4] == word);
    } else if word == seq!['h', 'd', '3'] {
        assert(tokens[5] == word);
    } else {
        assert(tokens[6] == word);
    }
}

/// A window of `hours` hours (any set window, 1 or more) keeps exactly the entries stamped no
/// more than `hours` hours before the clock; a retention choice set through
/// `set_retention_hours` is applied as it is.
pub proof fn retention_window_is_applied(entries: Seq<PlayEntryView>, clock: i64, hours: u32)
    requires
        hours >= 1,
    ensures
        forall|i: int|
            0 <= i < entries.len() ==> (#[trigger] pruned(entries, cutoff_at(clock, hours)).contains(
                entries[i],
            ) <==> entries[i].ts_millis >= clock - hours * 3600000),
        MIN_RETENTION_HOURS <= hours <= MAX_RETENTION_HOURS ==> clamped_hours(hours) == hours,
{
    prune_keeps_exactly_fresh_entries(entries, cutoff_at(clock, hours));
}

} // verus!
