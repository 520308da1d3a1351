//! The short date shown next to each email: the time of day for mail from
//! today, the day and month otherwise. Times are read as Unix
//! milliseconds, RFC 3339, or `%Y-%m-%dT%H:%M:%S%.fZ`, and shown in the
//! machine's local time zone.
use vstd::prelude::*;

use chrono::{DateTime, Datelike, Local, NaiveDateTime, TimeZone, Timelike};

use crate::text::{chars_of, push_char};

verus! {

/// A wall-clock time in the local time zone.
#[derive(Clone, Copy, Debug, PartialEq, Eq)]
pub struct LocalTime {
    pub year: i32,
    pub month: u32,
    pub day: u32,
    pub hour: u32,
    pub minute: u32,
}

impl LocalTime {
    pub open spec fn wf(&self) -> bool {
        &&& 1 <= self.month <= 12
        &&& 1 <= self.day <= 31
        &&& self.hour < 24
        &&& self.minute < 60
    }
}

// ---------------------------------------------------------------------------
// Reading integers

pub open spec fn dec_digit(c: char) -> Option<int> {
    if '0' <= c <= '9' {
        Some(c as int - '0' as int)
    } else {
        None
    }
}

/// The number that `digits` write in base 10, if they are all digits.
pub open spec fn dec_value(digits: Seq<char>) -> Option<int>
    decreases digits.len(),
{
    if digits.len() == 0 {
        Some(0)
    } else {
        match (dec_value(digits.drop_last()), dec_digit(digits.last())) {
            (Some(v), Some(d)) => Some(v * 10 + d),
            _ => None,
        }
    }
}

/// `str::parse::<i64>`: an optional `+` or `-`, then at least one ASCII
/// digit, and a value in range.
pub open spec fn parse_i64_spec(s: Seq<char>) -> Option<i64> {
    let neg = s.len() > 0 && s[0] == '-';
    let digits = if s.len() > 0 && (s[0] == '-' || s[0] == '+') {
        s.drop_first()
    } else {
        s
    };
    if digits.len() == 0 {
        None
    } else {
        match dec_value(digits) {
            Some(v) => {
                let x = if neg {
                    -v
                } else {
                    v
                };
                if i64::MIN <= x <= i64::MAX {
                    Some(x as i64)
                } else {
                    None
                }
            },
            None => None,
        }
    }
}

proof fn lemma_dec_value_step(s: Seq<char>, i: int)
    requires
        0 <= i < s.len(),
    ensures
        dec_value(s.take(i + 1)) == match (dec_value(s.take(i)), dec_digit(s[i])) {
            (Some(v), Some(d)) => Some(v * 10 + d),
            _ => None,
        },
{
    assert(s.take(i + 1).drop_last() == s.take(i));
}

proof fn lemma_dec_value_nonneg(s: Seq<char>)
    ensures
        dec_value(s) matches Some(v) ==> v >= 0,
    decreases s.len(),
{
    if s.len() > 0 {
        lemma_dec_value_nonneg(s.drop_last());
    }
}

proof fn lemma_dec_prefix_none(s: Seq<char>, k: int)
    requires
        0 <= k <= s.len(),
        dec_value(s.take(k)) is None,
    ensures
        dec_value(s) is None,
    decreases s.len() - k,
{
    if k < s.len() {
        lemma_dec_value_step(s, k);
        lemma_dec_prefix_none(s, k + 1);
    } else {
        assert(s.take(k) == s);
    }
}

/// Reads a decimal `i64` as `str::parse` does.
pub fn parse_i64(value: &str) -> (r: Option<i64>)
    ensures
        r == parse_i64_spec(value@),
{
    let v = chars_of(value);
    let ghost s = v@;
    let neg = v.len() > 0 && v[0] == '-';
    let start: usize = if v.len() > 0 && (v[0] == '-' || v[0] == '+') {
        1
    } else {
        0
    };
    let ghost digits = s.skip(start as int);
    assert(digits == if s.len() > 0 && (s[0] == '-' || s[0] == '+') {
        s.drop_first()
    } else {
        s
    });
    if start == v.len() {
        return None;
    }
    // The magnitude, while it stays at most 2^63.
    let mut acc: u64 = 0;
    let mut over = false;
    let mut i = start;
    assert(digits.take(0) =~= Seq::<char>::empty());
    while i < v.len()
        invariant
            start <= i <= v.len(),
            s == v@,
            s == value@,
            digits == s.skip(start as int),
            digits.len() > 0,
            neg == (s.len() > 0 && s[0] == '-'),
            digits == if s.len() > 0 && (s[0] == '-' || s[0] == '+') {
                s.drop_first()
            } else {
                s
            },
            dec_value(digits.take(i - start)) is Some,
            !over ==> dec_value(digits.take(i - start)) == Some(acc as int) && acc
                <= 0x8000_0000_0000_0000,
            over ==> dec_value(digits.take(i - start))->0 > 0x8000_0000_0000_0000,
        decreases v.len() - i,
    {
        proof {
            lemma_dec_value_step(digits, i - start);
            lemma_dec_value_nonneg(digits.take(i - start));
            assert(digits[i - start] == v@[i as int]);
        }
        let c = v[i];
        if !('0' <= c && c <= '9') {
            proof {
                lemma_dec_prefix_none(digits, i - start + 1);
            }
            return None;
        }
        let d = (c as u32 - '0' as u32) as u64;
        if !over {
            if acc > 0x0CCC_CCCC_CCCC_CCCC {
                over = true;
            } else {
                acc = acc * 10 + d;
                if acc > 0x8000_0000_0000_0000 {
                    over = true;
                }
            }
        }
        i = i + 1;
    }
    assert(digits.take(digits.len() as int) == digits);
    if over {
        None
    } else if neg {
        if acc == 0x8000_0000_0000_0000 {
            Some(i64::MIN)
        } else {
            Some(-(acc as i64))
        }
    } else if acc <= 0x7fff_ffff_ffff_ffff {
        Some(acc as i64)
    } else {
        None
    }
}

// ---------------------------------------------------------------------------
// Labels

pub open spec fn digit_char(d: int) -> char {
    (48 + d) as char
}

/// `n` in decimal, without padding.
pub open spec fn decimal(n: nat) -> Seq<char>
    decreases n,
{
    if n < 10 {
        seq![digit_char(n as int)]
    } else {
        decimal(n / 10).push(digit_char((n % 10) as int))
    }
}

/// `n` in two decimal digits.
pub open spec fn two_digits(n: nat) -> Seq<char> {
    seq![digit_char((n / 10) as int), digit_char((n % 10) as int)]
}

/// The hour on a 12-hour clock: 12, 1, ..., 11.
pub open spec fn hour12(h: u32) -> nat {
    if h % 12 == 0 {
        12
    } else {
        (h % 12) as nat
    }
}

/// `%-I:%M %p`, e.g. `9:05 PM`.
pub open spec fn clock_label(t: LocalTime) -> Seq<char> {
    decimal(hour12(t.hour)) + seq![':'] + two_digits(t.minute as nat) + seq![' '] + if t.hour < 12 {
        seq!['A', 'M']
    } else {
        seq!['P', 'M']
    }
}

pub open spec fn month_abbrev(m: u32) -> Seq<char> {
    if m == 1 {
        seq!['J', 'a', 'n']
    } else if m == 2 {
        seq!['F', 'e', 'b']
    } else if m == 3 {
        seq!['M', 'a', 'r']
    } else if m == 4 {
        seq!['A', 'p', 'r']
    } else if m == 5 {
        seq!['M', 'a', 'y']
    } else if m == 6 {
        seq!['J', 'u', 'n']
    } else if m == 7 {
        seq!['J', 'u', 'l']
    } else if m == 8 {
        seq!['A', 'u', 'g']
    } else if m == 9 {
        seq!['S', 'e', 'p']
    } else if m == 10 {
        seq!['O', 'c', 't']
    } else if m == 11 {
        seq!['N', 'o', 'v']
    } else {
        seq!['D', 'e', 'c']
    }
}

/// `%-d %b`, e.g. `3 Mar`.
pub open spec fn day_label(t: LocalTime) -> Seq<char> {
    decimal(t.day as nat) + seq![' '] + month_abbrev(t.month)
}

pub open spec fn same_day(a: LocalTime, b: LocalTime) -> bool {
    a.year == b.year && a.month == b.month && a.day == b.day
}

/// The label of a date seen at `now`: nothing for no date, the time for a
/// date of the same day, the day and month otherwise.
pub open spec fn date_label_spec(date: Option<LocalTime>, now: LocalTime) -> Seq<char> {
    match date {
        None => Seq::empty(),
        Some(d) => if same_day(d, now) {
            clock_label(d)
        } else {
            day_label(d)
        },
    }
}

/// Appends `n` (below 100) in decimal.
fn push_decimal(s: &mut String, n: u32)
    requires
        n < 100,
    ensures
        final(s)@ == old(s)@ + decimal(n as nat),
{
    if n >= 10 {
        assert(decimal(n as nat) == decimal((n / 10) as nat).push(digit_char((n % 10) as int)));
        assert(decimal((n / 10) as nat) == seq![digit_char((n / 10) as int)]);
        push_char(s, digit_char_exec(n / 10));
        push_char(s, digit_char_exec(n % 10));
    } else {
        push_char(s, digit_char_exec(n));
    }
}

fn digit_char_exec(d: u32) -> (c: char)
    requires
        d < 10,
    ensures
        c == digit_char(d as int),
{
    let b: u8 = 48u8 + d as u8;
    b as char
}

fn push_str(s: &mut String, t: &str)
    ensures
        final(s)@ == old(s)@ + t@,
{
    s.append(t);
}

fn month_name(m: u32) -> (r: &'static str)
    ensures
        r@ == month_abbrev(m),
{
    proof {
        reveal_strlit("Jan");
        reveal_strlit("Feb");
        reveal_strlit("Mar");
        reveal_strlit("Apr");
        reveal_strlit("May");
        reveal_strlit("Jun");
        reveal_strlit("Jul");
        reveal_strlit("Aug");
        reveal_strlit("Sep");
        reveal_strlit("Oct");
        reveal_strlit("Nov");
        reveal_strlit("Dec");
    }
    let r = if m == 1 {
        "Jan"
    } else if m == 2 {
        "Feb"
    } else if m == 3 {
        "Mar"
    } else if m == 4 {
        "Apr"
    } else if m == 5 {
        "May"
    } else if m == 6 {
        "Jun"
    } else if m == 7 {
        "Jul"
    } else if m == 8 {
        "Aug"
    } else if m == 9 {
        "Sep"
    } else if m == 10 {
        "Oct"
    } else if m == 11 {
        "Nov"
    } else {
        "Dec"
    };
    assert(r@ =~= month_abbrev(m));
    r
}

/// The label of a date seen at `now` (see `date_label_spec`).
pub fn date_label(date: Option<LocalTime>, now: LocalTime) -> (r: String)
    requires
        date matches Some(d) ==> d.wf(),
    ensures
        r@ == date_label_spec(date, now),
{
    match date {
        None => String::new(),
        Some(d) => {
            let mut r = String::new();
            if d.year == now.year && d.month == now.month && d.day == now.day {
                let h = if d.hour % 12 == 0 {
                    12
                } else {
                    d.hour % 12
                };
                push_decimal(&mut r, h);
                push_char(&mut r, ':');
                push_char(&mut r, digit_char_exec(d.minute / 10));
                push_char(&mut r, digit_char_exec(d.minute % 10));
                push_char(&mut r, ' ');
                if d.hour < 12 {
                    push_char(&mut r, 'A');
                } else {
                    push_char(&mut r, 'P');
                }
                push_char(&mut r, 'M');
                assert(r@ =~= clock_label(d));
            } else {
                push_decimal(&mut r, d.day);
                push_char(&mut r, ' ');
                push_str(&mut r, month_name(d.month));
                assert(r@ =~= day_label(d));
            }
            r
        },
    }
}

// ---------------------------------------------------------------------------
// Reading times (chrono, local time zone)

/// The date of day `z` after January 1, 1970 (before it when negative) in
/// the proleptic Gregorian calendar, as year, month and day.
pub open spec fn civil_from_days(z: int) -> (int, int, int) {
    let z = z + 719468;
    // 400-year eras starting on March 1, 0000.
    let era = z / 146097;
    let doe = z - era * 146097;
    let yoe = (doe - doe / 1460 + doe / 36524 - doe / 146096) / 365;
    let doy = doe - (365 * yoe + yoe / 4 - yoe / 100);
    let mp = (5 * doy + 2) / 153;
    let d = doy - (153 * mp + 2) / 5 + 1;
    let m = if mp < 10 {
        mp + 3
    } else {
        mp - 9
    };
    let y = yoe + era * 400;
    (if m <= 2 {
        y + 1
    } else {
        y
    }, m, d)
}

/// The wall-clock time, to the minute, that is `t` seconds after midnight
/// of January 1, 1970 (before it when negative).
pub open spec fn wall_clock(t: int) -> LocalTime {
    let (y, m, d) = civil_from_days(t / 86400);
    let secs = t % 86400;
    LocalTime {
        year: y as i32,
        month: m as u32,
        day: d as u32,
        hour: (secs / 3600) as u32,
        minute: ((secs % 3600) / 60) as u32,
    }
}

/// `local` is the wall-clock time of the instant at Unix second `instant`
/// in some time zone: shifted by an offset of less than a day, as chrono's
/// offsets always are.
pub open spec fn local_time_of(local: LocalTime, instant: int) -> bool {
    exists|offset: int| -86400 < offset < 86400 && local == #[trigger] wall_clock(instant + offset)
}

/// The earliest Unix millisecond that chrono can hold: the start of
/// January 1 of year -262143.
pub open spec fn min_millis() -> int {
    -8334601228800000
}

/// The latest Unix millisecond that chrono can hold: the end of December 31
/// of year 262142.
pub open spec fn max_millis() -> int {
    8210266876799999
}

/// One day in milliseconds; a time zone's offset is always less.
pub open spec fn day_millis() -> int {
    86400000
}

/// `chrono::DateTime::from_timestamp_millis` (which is `None` exactly
/// outside `min_millis()..=max_millis()`), then the local wall-clock time of
/// that instant: its UTC date and time (proleptic Gregorian) shifted by the
/// local offset with `checked_add_offset`. The offset depends on the
/// machine's time zone and is less than a day; the shift can only leave
/// chrono's range within a day of either end, so an instant further inside
/// always gives a time.
#[verifier::external_body]
fn local_from_millis(ms: i64) -> (r: Option<LocalTime>)
    ensures
        r matches Some(t) ==> t.wf() && local_time_of(t, ms as int / 1000),
        r is Some ==> min_millis() <= ms <= max_millis(),
        min_millis() + day_millis() <= ms <= max_millis() - day_millis() ==> r is Some,
{
    match DateTime::from_timestamp_millis(ms) {
        Some(d) => {
            let local = d.with_timezone(&Local);
            match local.naive_utc().checked_add_offset(*local.offset()) {
                Some(n) => Some(LocalTime { year: n.year(), month: n.month(), day: n.day(), hour: n.hour(), minute: n.minute() }),
                None => None,
            }
        },
        None => None,
    }
}

/// The Unix second of the instant that `chrono::DateTime::parse_from_rfc3339`
/// reads from the text (its `timestamp()`), or `None` when it refuses the
/// text.
pub uninterp spec fn rfc3339_instant(s: Seq<char>) -> Option<int>;

/// Whether `chrono::DateTime::parse_from_rfc3339` accepts the text.
pub open spec fn rfc3339_parses(s: Seq<char>) -> bool {
    rfc3339_instant(s) is Some
}

/// `chrono::DateTime::parse_from_rfc3339`, then the local wall-clock time of
/// that instant: shifted by the local offset, which depends on the time
/// zone. RFC 3339 years are 0000 to 9999, so the shift stays in chrono's
/// range.
#[verifier::external_body]
fn local_from_rfc3339(value: &str) -> (r: Option<LocalTime>)
    ensures
        r is Some <==> rfc3339_instant(value@) is Some,
        r matches Some(t) ==> t.wf() && local_time_of(t, rfc3339_instant(value@)->0),
{
    match DateTime::parse_from_rfc3339(value) {
        Ok(d) => {
            let local = d.with_timezone(&Local);
            match local.naive_utc().checked_add_offset(*local.offset()) {
                Some(n) => Some(LocalTime { year: n.year(), month: n.month(), day: n.day(), hour: n.hour(), minute: n.minute() }),
                None => None,
            }
        },
        Err(_) => None,
    }
}

/// The year, month, day, hour and minute that
/// `chrono::NaiveDateTime::parse_from_str` with the format
/// `%Y-%m-%dT%H:%M:%S%.fZ` reads from the text, or `None` when it refuses it.
pub uninterp spec fn naive_reading(s: Seq<char>) -> Option<(int, int, int, int, int)>;

/// Whether that format reads the text.
pub open spec fn naive_parses(s: Seq<char>) -> bool {
    naive_reading(s) is Some
}

/// The fields of a wall-clock time, as plain numbers.
pub open spec fn fields_of(t: LocalTime) -> (int, int, int, int, int) {
    (t.year as int, t.month as int, t.day as int, t.hour as int, t.minute as int)
}

/// `chrono::NaiveDateTime::parse_from_str(value, "%Y-%m-%dT%H:%M:%S%.fZ")`,
/// kept when `Local.from_local_datetime` maps it to exactly one instant;
/// the wall-clock time is then the one read. Whether the mapping is
/// unique depends on the time zone, so only that a time needs the text to
/// read, and which time it is, are stated.
#[verifier::external_body]
fn local_from_naive(value: &str) -> (r: Option<LocalTime>)
    ensures
        r matches Some(t) ==> t.wf() && naive_reading(value@) == Some(fields_of(t)),
{
    match NaiveDateTime::parse_from_str(value, "%Y-%m-%dT%H:%M:%S%.fZ") {
        Ok(n) => match Local.from_local_datetime(&n).single() {
            Some(d) => Some(LocalTime { year: d.year(), month: d.month(), day: d.day(), hour: d.hour(), minute: d.minute() }),
            None => None,
        },
        Err(_) => None,
    }
}

/// `chrono::Local::now`: the current local wall-clock time.
#[verifier::external_body]
fn local_now() -> (r: LocalTime)
    ensures
        r.wf(),
{
    let d = Local::now();
    LocalTime { year: d.year(), month: d.month(), day: d.day(), hour: d.hour(), minute: d.minute() }
}

/// The first of the three readings of a time that succeeded: as Unix
/// milliseconds, else as RFC 3339, else as `%Y-%m-%dT%H:%M:%S%.fZ`.
pub open spec fn first_reading(
    from_millis: Option<LocalTime>,
    from_rfc3339: Option<LocalTime>,
    from_naive: Option<LocalTime>,
) -> Option<LocalTime> {
    match from_millis {
        Some(t) => Some(t),
        None => match from_rfc3339 {
            Some(t) => Some(t),
            None => from_naive,
        },
    }
}

/// The label, seen at `now`, of the first reading that succeeded; empty
/// when none did.
pub fn reading_label(
    from_millis: Option<LocalTime>,
    from_rfc3339: Option<LocalTime>,
    from_naive: Option<LocalTime>,
    now: LocalTime,
) -> (r: String)
    requires
        from_millis matches Some(t) ==> t.wf(),
        from_rfc3339 matches Some(t) ==> t.wf(),
        from_naive matches Some(t) ==> t.wf(),
    ensures
        r@ == date_label_spec(first_reading(from_millis, from_rfc3339, from_naive), now),
{
    let date = match from_millis {
        Some(t) => Some(t),
        None => match from_rfc3339 {
            Some(t) => Some(t),
            None => from_naive,
        },
    };
    date_label(date, now)
}

pub open spec fn well_formed_reading(t: Option<LocalTime>) -> bool {
    t matches Some(d) ==> d.wf()
}

/// The millisecond reading can succeed: the text is an `i64` within
/// chrono's range.
pub open spec fn millis_in_range(value: Seq<char>) -> bool {
    parse_i64_spec(value) matches Some(ms) && min_millis() <= ms <= max_millis()
}

/// The millisecond reading succeeds whatever the time zone: the text is an
/// `i64` more than a day inside chrono's range.
pub open spec fn millis_well_inside(value: Seq<char>) -> bool {
    parse_i64_spec(value) matches Some(ms) && min_millis() + day_millis() <= ms <= max_millis()
        - day_millis()
}

/// `label` is the date label, at some valid local time `now`, of the first
/// reading of `value` that succeeded, for readings as chrono gives them in
/// some time zone: the millisecond reading is the wall-clock time of the
/// text's Unix milliseconds, succeeding well inside chrono's range and only
/// within it; the RFC 3339 reading, tried when that failed, is the
/// wall-clock time of the instant the text names and succeeds exactly when
/// chrono accepts the text; the last reading is the time the text writes.
pub open spec fn is_label_of_reading(label: Seq<char>, value: Seq<char>) -> bool {
    exists|
        from_millis: Option<LocalTime>,
        from_rfc3339: Option<LocalTime>,
        from_naive: Option<LocalTime>,
        now: LocalTime,
    |
        {
            &&& well_formed_reading(from_millis)
            &&& well_formed_reading(from_rfc3339)
            &&& well_formed_reading(from_naive)
            &&& now.wf()
            &&& from_millis matches Some(t) ==> millis_in_range(value) && local_time_of(
                t,
                parse_i64_spec(value)->0 as int / 1000,
            )
            &&& millis_well_inside(value) ==> from_millis is Some
            &&& from_rfc3339 matches Some(t) ==> rfc3339_instant(value) matches Some(i)
                && local_time_of(t, i)
            &&& from_millis is None && rfc3339_parses(value) ==> from_rfc3339 is Some
            &&& from_naive matches Some(t) ==> naive_reading(value) == Some(fields_of(t))
            &&& label == #[trigger] date_label_spec(
                first_reading(from_millis, from_rfc3339, from_naive),
                now,
            )
        }
}

/// The date label of an email's `created_at`: read as Unix milliseconds,
/// else as RFC 3339, else as `%Y-%m-%dT%H:%M:%S%.fZ` in local time; empty
/// when none of them reads it. The readings and the clock come from chrono
/// and depend on the machine's time zone; the millisecond reading is only
/// tried on text that parses as an `i64`.
pub fn email_date(value: &str) -> (r: String)
    ensures
        is_label_of_reading(r@, value@),
        millis_well_inside(value@) || rfc3339_parses(value@) ==> r@.len() > 0,
        r@.len() > 0 ==> millis_in_range(value@) || rfc3339_parses(value@) || naive_parses(value@),
{
    let from_millis = match parse_i64(value) {
        Some(ms) => local_from_millis(ms),
        None => None,
    };
    // The later readings are only tried when the earlier ones failed.
    let from_rfc3339 = match from_millis {
        Some(_) => None,
        None => local_from_rfc3339(value),
    };
    let from_naive = match (from_millis, from_rfc3339) {
        (None, None) => local_from_naive(value),
        _ => None,
    };
    let now = local_now();
    let r = reading_label(from_millis, from_rfc3339, from_naive, now);
    proof {
        match first_reading(from_millis, from_rfc3339, from_naive) {
            Some(d) => lemma_label_not_empty(d, now),
            None => {},
        }
    }
    assert(r@ == date_label_spec(first_reading(from_millis, from_rfc3339, from_naive), now));
    r
}

/// A date always has a label.
proof fn lemma_label_not_empty(d: LocalTime, now: LocalTime)
    ensures
        date_label_spec(Some(d), now).len() > 0,
{
    let c = clock_label(d);
    let l = day_label(d);
    assert(c.len() >= (seq![':']).len());
    assert(l.len() >= (seq![' ']).len());
}

} // verus!
