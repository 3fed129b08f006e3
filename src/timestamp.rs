//! Timestamps: the user's strftime-like format, the values extracted from log lines, and the
//! text written for them in cache files.

use crate::text::{contains_seq, digit_char, nat_digits, push_digit, push_str, str_contains, u128_to_string};
use chrono::{Datelike, Timelike};
use vstd::prelude::*;

verus! {

/// The default timestamp format of log lines.
pub const DEFAULT_TIMESTAMP_STR: &'static str = "%Y-%m-%d %H:%M:%S%.3f";

/// Year used when a date-bearing format carries no year (for instance `%j` alone). This is a
/// known approximation: a log without years cannot tell which year it covers.
pub const FALLBACK_YEAR: i64 = 2025;

pub const NANOS_PER_SEC: u64 = 1_000_000_000;

pub const SECS_PER_DAY: u32 = 86_400;

/// Time of day: whole seconds since midnight and nanoseconds within that second. `nano`
/// reaches past one second only during a leap second.
#[derive(Clone, Copy, Debug, PartialEq, Eq, Structural)]
pub struct TimeOfDay {
    pub secs: u32,
    pub nano: u32,
}

/// A calendar date with a time of day. `day_number` counts days from 0001-01-01 (day 1), so
/// that two values can be ordered and subtracted.
#[derive(Clone, Copy, Debug, PartialEq, Eq, Structural)]
pub struct DateTime {
    pub year: i32,
    pub month: u32,
    pub day: u32,
    pub day_number: i32,
    pub time: TimeOfDay,
}

/// What a timestamp prefix gave: a full date-time, or a time of day alone for time-only formats.
#[derive(Clone, Copy, Debug, PartialEq, Eq, Structural)]
pub enum ExtractedNaiveDateTime {
    DateTime(DateTime),
    Time(TimeOfDay),
}

/// A user timestamp format, classified by whether it carries a date.
#[derive(Clone, Debug, PartialEq, Eq)]
pub enum TimestampFormat {
    DateTime(String),
    Time(String),
}

impl TimeOfDay {
    pub open spec fn wf(self) -> bool {
        &&& self.secs < SECS_PER_DAY
        &&& self.nano < 2 * NANOS_PER_SEC
        &&& (self.nano < NANOS_PER_SEC || self.secs % 60 == 59)
    }

    /// Nanoseconds since midnight.
    pub open spec fn total_nanos(self) -> int {
        self.secs as int * NANOS_PER_SEC as int + self.nano as int
    }
}

impl DateTime {
    pub open spec fn wf(self) -> bool {
        &&& self.time.wf()
        &&& 1 <= self.month <= 12
        &&& 1 <= self.day <= 31
    }

    /// Nanoseconds since the start of day 0; the order of date-times is the order of this value.
    pub open spec fn instant(self) -> int {
        self.day_number as int * SECS_PER_DAY as int * NANOS_PER_SEC as int
            + self.time.total_nanos()
    }

    /// `self` is not later than `other`.
    pub fn le(&self, other: &DateTime) -> (r: bool)
        requires
            self.wf(),
            other.wf(),
        ensures
            r == (self.instant() <= other.instant()),
    {
        let a: i128 = self.day_number as i128 * 86_400_000_000_000i128 + self.time.secs as i128
            * 1_000_000_000i128 + self.time.nano as i128;
        let b: i128 = other.day_number as i128 * 86_400_000_000_000i128 + other.time.secs as i128
            * 1_000_000_000i128 + other.time.nano as i128;
        a <= b
    }

    /// `self` is strictly earlier than `other`.
    pub fn lt(&self, other: &DateTime) -> (r: bool)
        requires
            self.wf(),
            other.wf(),
        ensures
            r == (self.instant() < other.instant()),
    {
        !other.le(self)
    }
}

impl ExtractedNaiveDateTime {
    pub open spec fn wf(self) -> bool {
        match self {
            ExtractedNaiveDateTime::DateTime(d) => d.wf(),
            ExtractedNaiveDateTime::Time(t) => t.wf(),
        }
    }

    pub open spec fn has_date(self) -> bool {
        self is DateTime
    }

    /// Nanoseconds on the value's own axis: since day 0 for date-times, since midnight for times.
    pub open spec fn instant(self) -> int {
        match self {
            ExtractedNaiveDateTime::DateTime(d) => d.instant(),
            ExtractedNaiveDateTime::Time(t) => t.total_nanos(),
        }
    }

    pub open spec fn time_spec(self) -> TimeOfDay {
        match self {
            ExtractedNaiveDateTime::DateTime(d) => d.time,
            ExtractedNaiveDateTime::Time(t) => t,
        }
    }

    /// The date-time, when the timestamp carries a date.
    pub fn date(&self) -> (r: Option<DateTime>)
        ensures
            r == (match *self {
                ExtractedNaiveDateTime::DateTime(d) => Some(d),
                ExtractedNaiveDateTime::Time(_) => None,
            }),
    {
        match self {
            ExtractedNaiveDateTime::DateTime(d) => Some(*d),
            ExtractedNaiveDateTime::Time(_) => None,
        }
    }

    /// The time of day.
    pub fn time(&self) -> (r: TimeOfDay)
        ensures
            r == self.time_spec(),
    {
        match self {
            ExtractedNaiveDateTime::DateTime(d) => d.time,
            ExtractedNaiveDateTime::Time(t) => *t,
        }
    }
}

/// Integer division rounded toward zero.
pub open spec fn div_toward_zero(x: int, d: int) -> int {
    if x >= 0 {
        x / d
    } else {
        -((-x) / d)
    }
}

/// Whole milliseconds from `earlier` to `later`, signed, rounded toward zero.
pub open spec fn millis_between(later: ExtractedNaiveDateTime, earlier: ExtractedNaiveDateTime) -> int {
    div_toward_zero(later.instant() - earlier.instant(), 1_000_000)
}

impl ExtractedNaiveDateTime {
    /// Signed milliseconds from `rhs` to `this`; both come from one format, so both carry a date
    /// or neither does.
    pub fn signed_duration_since(&self, rhs: &ExtractedNaiveDateTime) -> (r: i64)
        requires
            self.wf(),
            rhs.wf(),
            self.has_date() == rhs.has_date(),
        ensures
            r == millis_between(*self, *rhs),
    {
        let (a, b): (i128, i128) = match (self, rhs) {
            (ExtractedNaiveDateTime::DateTime(x), ExtractedNaiveDateTime::DateTime(y)) => (
                x.day_number as i128 * 86_400_000_000_000i128 + x.time.secs as i128 * 1_000_000_000i128
                    + x.time.nano as i128,
                y.day_number as i128 * 86_400_000_000_000i128 + y.time.secs as i128 * 1_000_000_000i128
                    + y.time.nano as i128,
            ),
            (ExtractedNaiveDateTime::Time(x), ExtractedNaiveDateTime::Time(y)) => (
                x.secs as i128 * 1_000_000_000i128 + x.nano as i128,
                y.secs as i128 * 1_000_000_000i128 + y.nano as i128,
            ),
            _ => (0, 0),
        };
        assert(a == self.instant() && b == rhs.instant());
        let diff: i128 = a - b;
        let q: i128 = if diff >= 0 {
            diff / 1_000_000
        } else {
            -((-diff) / 1_000_000)
        };
        assert(-9_223_372_036_854_775_808i128 <= q <= 9_223_372_036_854_775_807i128) by {
            assert(-400_000_000_000_000_000_000_000i128 <= diff <= 400_000_000_000_000_000_000_000i128);
        }
        q as i64
    }
}

/// The format names a date field (year, month, day, weekday, ordinal day, epoch seconds, ...).
pub open spec fn has_date_specifier(f: Seq<char>) -> bool {
    ||| contains_seq(f, "%Y"@)
    ||| contains_seq(f, "%C"@)
    ||| contains_seq(f, "%y"@)
    ||| contains_seq(f, "%q"@)
    ||| contains_seq(f, "%m"@)
    ||| contains_seq(f, "%b"@)
    ||| contains_seq(f, "%B"@)
    ||| contains_seq(f, "%h"@)
    ||| contains_seq(f, "%d"@)
    ||| contains_seq(f, "%e"@)
    ||| contains_seq(f, "%a"@)
    ||| contains_seq(f, "%A"@)
    ||| contains_seq(f, "%w"@)
    ||| contains_seq(f, "%u"@)
    ||| contains_seq(f, "%U"@)
    ||| contains_seq(f, "%W"@)
    ||| contains_seq(f, "%G"@)
    ||| contains_seq(f, "%g"@)
    ||| contains_seq(f, "%V"@)
    ||| contains_seq(f, "%j"@)
    ||| contains_seq(f, "%D"@)
    ||| contains_seq(f, "%x"@)
    ||| contains_seq(f, "%F"@)
    ||| contains_seq(f, "%v"@)
    ||| contains_seq(f, "%s"@)
}

impl TimestampFormat {
    pub open spec fn view_str(self) -> Seq<char> {
        match self {
            TimestampFormat::DateTime(s) => s@,
            TimestampFormat::Time(s) => s@,
        }
    }

    /// A copy of the format.
    pub fn copy(&self) -> (r: TimestampFormat)
        ensures
            r == *self,
    {
        match self {
            TimestampFormat::DateTime(s) => TimestampFormat::DateTime(s.clone()),
            TimestampFormat::Time(s) => TimestampFormat::Time(s.clone()),
        }
    }

    pub fn as_str(&self) -> (r: &str)
        ensures
            r@ == self.view_str(),
    {
        match self {
            TimestampFormat::DateTime(s) => s.as_str(),
            TimestampFormat::Time(s) => s.as_str(),
        }
    }

    pub fn format_contains_date(fmt: &str) -> (r: bool)
        ensures
            r == has_date_specifier(fmt@),
    {
        str_contains(fmt, "%Y") || str_contains(fmt, "%C") || str_contains(fmt, "%y")
            || str_contains(fmt, "%q") || str_contains(fmt, "%m") || str_contains(fmt, "%b")
            || str_contains(fmt, "%B") || str_contains(fmt, "%h") || str_contains(fmt, "%d")
            || str_contains(fmt, "%e") || str_contains(fmt, "%a") || str_contains(fmt, "%A")
            || str_contains(fmt, "%w") || str_contains(fmt, "%u") || str_contains(fmt, "%U")
            || str_contains(fmt, "%W") || str_contains(fmt, "%G") || str_contains(fmt, "%g")
            || str_contains(fmt, "%V") || str_contains(fmt, "%j") || str_contains(fmt, "%D")
            || str_contains(fmt, "%x") || str_contains(fmt, "%F") || str_contains(fmt, "%v")
            || str_contains(fmt, "%s")
    }

    /// Classifies a format: date-bearing when it names any date field, time-only otherwise.
    pub fn from_format(fmt: &str) -> (r: TimestampFormat)
        ensures
            r.view_str() == fmt@,
            (r is DateTime) == has_date_specifier(fmt@),
    {
        if Self::format_contains_date(fmt) {
            TimestampFormat::DateTime(String::from_str(fmt))
        } else {
            TimestampFormat::Time(String::from_str(fmt))
        }
    }

    /// The format used when the user gives none.
    pub fn default_format() -> (r: TimestampFormat)
        ensures
            r is DateTime,
            r.view_str() == DEFAULT_TIMESTAMP_STR@,
    {
        TimestampFormat::DateTime(String::from_str(DEFAULT_TIMESTAMP_STR))
    }
}

/// `suffix` is what is left of `line` after some prefix of it.
pub open spec fn is_suffix_of(suffix: Seq<char>, line: Seq<char>) -> bool {
    suffix.len() <= line.len() && line.subrange(line.len() - suffix.len(), line.len() as int)
        == suffix
}

/// Fields of a chrono date-time: year, month, day, days from the common era, seconds from
/// midnight and nanoseconds.
pub type DateParts = (int, int, int, int, int, int);

/// Fields of a chrono time: seconds from midnight and nanoseconds.
pub type TimeParts = (int, int);

/// What chrono leaves of `line` after reading a prefix with the strftime format `fmt`; `None`
/// when the prefix does not parse.
pub uninterp spec fn prefix_rest(line: Seq<char>, fmt: Seq<char>) -> Option<Seq<char>>;

/// The date-time chrono builds from what it read of `line` with `fmt`.
pub uninterp spec fn prefix_datetime(line: Seq<char>, fmt: Seq<char>) -> Option<DateParts>;

/// The year field chrono read from `line` with `fmt`, if any.
pub uninterp spec fn prefix_year(line: Seq<char>, fmt: Seq<char>) -> Option<int>;

/// The date-time chrono builds from what it read of `line` with `fmt` once the year is set to
/// `year`.
pub uninterp spec fn prefix_datetime_in_year(line: Seq<char>, fmt: Seq<char>, year: int) -> Option<
    DateParts,
>;

/// The time of day chrono builds from what it read of `line` with `fmt`.
pub uninterp spec fn prefix_time(line: Seq<char>, fmt: Seq<char>) -> Option<TimeParts>;

pub open spec fn datetime_of_parts(p: DateParts) -> DateTime {
    DateTime {
        year: p.0 as i32,
        month: p.1 as u32,
        day: p.2 as u32,
        day_number: p.3 as i32,
        time: TimeOfDay { secs: p.4 as u32, nano: p.5 as u32 },
    }
}

pub open spec fn time_of_parts(p: TimeParts) -> TimeOfDay {
    TimeOfDay { secs: p.0 as u32, nano: p.1 as u32 }
}

pub open spec fn opt_datetime(p: Option<DateParts>) -> Option<DateTime> {
    match p {
        Some(x) => Some(datetime_of_parts(x)),
        None => None,
    }
}

/// Relies on `chrono::format::parse_and_remainder` with `StrftimeItems::new(fmt)`: the rest of
/// `line` after the longest prefix that the format describes.
#[verifier::external_body]
fn parse_rest(line: &str, fmt: &str) -> (r: Option<String>)
    ensures
        opt_seq(r) == prefix_rest(line@, fmt@),
        r matches Some(x) ==> is_suffix_of(x@, line@),
{
    let mut parsed = chrono::format::Parsed::new();
    chrono::format::parse_and_remainder(&mut parsed, line, chrono::format::StrftimeItems::new(fmt))
        .ok()
        .map(|rest| rest.to_string())
}

/// Relies on `chrono::format::parse_and_remainder` and `Parsed::to_naive_datetime_with_offset(0)`,
/// read through chrono's `Datelike` and `Timelike` accessors, whose documented ranges the result
/// keeps.
#[verifier::external_body]
fn parse_datetime(line: &str, fmt: &str) -> (r: Option<DateTime>)
    ensures
        r == opt_datetime(prefix_datetime(line@, fmt@)),
        r matches Some(d) ==> d.wf(),
{
    let mut parsed = chrono::format::Parsed::new();
    chrono::format::parse_and_remainder(&mut parsed, line, chrono::format::StrftimeItems::new(fmt))
        .ok()?;
    parsed.to_naive_datetime_with_offset(0).ok().map(|dt| DateTime {
        year: dt.year(),
        month: dt.month(),
        day: dt.day(),
        day_number: dt.num_days_from_ce(),
        time: TimeOfDay { secs: dt.num_seconds_from_midnight(), nano: dt.nanosecond() },
    })
}

/// Relies on `chrono::format::parse_and_remainder` and `Parsed::year`.
#[verifier::external_body]
fn parse_year(line: &str, fmt: &str) -> (r: Option<i32>)
    ensures
        r matches Some(y) ==> prefix_year(line@, fmt@) == Some(y as int),
        r is None ==> prefix_year(line@, fmt@) is None,
{
    let mut parsed = chrono::format::Parsed::new();
    chrono::format::parse_and_remainder(&mut parsed, line, chrono::format::StrftimeItems::new(fmt))
        .ok()?;
    parsed.year()
}

/// Relies on `chrono::format::parse_and_remainder`, `Parsed::set_year` and
/// `Parsed::to_naive_datetime_with_offset(0)`.
#[verifier::external_body]
fn parse_datetime_in_year(line: &str, fmt: &str, year: i64) -> (r: Option<DateTime>)
    ensures
        r == opt_datetime(prefix_datetime_in_year(line@, fmt@, year as int)),
        r matches Some(d) ==> d.wf(),
{
    let mut parsed = chrono::format::Parsed::new();
    chrono::format::parse_and_remainder(&mut parsed, line, chrono::format::StrftimeItems::new(fmt))
        .ok()?;
    parsed.set_year(year).ok()?;
    parsed.to_naive_datetime_with_offset(0).ok().map(|dt| DateTime {
        year: dt.year(),
        month: dt.month(),
        day: dt.day(),
        day_number: dt.num_days_from_ce(),
        time: TimeOfDay { secs: dt.num_seconds_from_midnight(), nano: dt.nanosecond() },
    })
}

/// Relies on `chrono::format::parse_and_remainder` and `Parsed::to_naive_time`, read through
/// chrono's `Timelike` accessors.
#[verifier::external_body]
fn parse_time(line: &str, fmt: &str) -> (r: Option<TimeOfDay>)
    ensures
        r == (match prefix_time(line@, fmt@) {
            Some(t) => Some(time_of_parts(t)),
            None => None,
        }),
        r matches Some(t) ==> t.wf(),
{
    let mut parsed = chrono::format::Parsed::new();
    chrono::format::parse_and_remainder(&mut parsed, line, chrono::format::StrftimeItems::new(fmt))
        .ok()?;
    parsed.to_naive_time().ok().map(|t| TimeOfDay { secs: t.num_seconds_from_midnight(), nano: t.nanosecond() })
}

pub open spec fn opt_seq(o: Option<String>) -> Option<Seq<char>> {
    match o {
        Some(s) => Some(s@),
        None => None,
    }
}

/// A date-time read from the start of `line` with `fmt`, and the rest of the line. When the
/// prefix parses but makes no date-time for want of a year, `FALLBACK_YEAR` stands in for it.
pub open spec fn datetime_prefix(line: Seq<char>, fmt: Seq<char>) -> Option<(DateTime, Seq<char>)> {
    match prefix_rest(line, fmt) {
        None => None,
        Some(rest) => match prefix_datetime(line, fmt) {
            Some(p) => Some((datetime_of_parts(p), rest)),
            None => if prefix_year(line, fmt) is None {
                match prefix_datetime_in_year(line, fmt, FALLBACK_YEAR as int) {
                    Some(p) => Some((datetime_of_parts(p), rest)),
                    None => None,
                }
            } else {
                None
            },
        },
    }
}

/// A time of day read from the start of `line` with `fmt`, and the rest of the line.
pub open spec fn time_prefix(line: Seq<char>, fmt: Seq<char>) -> Option<(TimeOfDay, Seq<char>)> {
    match prefix_rest(line, fmt) {
        None => None,
        Some(rest) => match prefix_time(line, fmt) {
            Some(t) => Some((time_of_parts(t), rest)),
            None => None,
        },
    }
}

/// A date-time that `fmt` reads from the whole of `text` (no fallback year).
pub open spec fn datetime_whole(text: Seq<char>, fmt: Seq<char>) -> Option<DateTime> {
    match prefix_rest(text, fmt) {
        Some(rest) => if rest.len() == 0 {
            opt_datetime(prefix_datetime(text, fmt))
        } else {
            None
        },
        None => None,
    }
}

/// A time of day that `fmt` reads from the whole of `text`.
pub open spec fn time_whole(text: Seq<char>, fmt: Seq<char>) -> Option<TimeOfDay> {
    match prefix_rest(text, fmt) {
        Some(rest) => if rest.len() == 0 {
            match prefix_time(text, fmt) {
                Some(t) => Some(time_of_parts(t)),
                None => None,
            }
        } else {
            None
        },
        None => None,
    }
}

pub fn parse_datetime_prefix(line: &str, fmt: &str) -> (r: Option<(DateTime, String)>)
    ensures
        r matches Some(p) ==> p.0.wf() && is_suffix_of(p.1@, line@),
        r is None <==> datetime_prefix(line@, fmt@) is None,
        r matches Some(p) ==> datetime_prefix(line@, fmt@) == Some((p.0, p.1@)),
{
    let rest = match parse_rest(line, fmt) {
        None => return None,
        Some(rest) => rest,
    };
    match parse_datetime(line, fmt) {
        Some(dt) => Some((dt, rest)),
        None => {
            if parse_year(line, fmt).is_none() {
                match parse_datetime_in_year(line, fmt, FALLBACK_YEAR) {
                    Some(dt) => Some((dt, rest)),
                    None => None,
                }
            } else {
                None
            }
        },
    }
}

pub fn parse_time_prefix(line: &str, fmt: &str) -> (r: Option<(TimeOfDay, String)>)
    ensures
        r matches Some(p) ==> p.0.wf() && is_suffix_of(p.1@, line@),
        r is None <==> time_prefix(line@, fmt@) is None,
        r matches Some(p) ==> time_prefix(line@, fmt@) == Some((p.0, p.1@)),
{
    let rest = match parse_rest(line, fmt) {
        None => return None,
        Some(rest) => rest,
    };
    match parse_time(line, fmt) {
        Some(t) => Some((t, rest)),
        None => None,
    }
}

/// A date-time read from the start of `text` with `fmt`, with no fallback year.
pub open spec fn datetime_leading(text: Seq<char>, fmt: Seq<char>) -> Option<DateTime> {
    match prefix_rest(text, fmt) {
        Some(_) => opt_datetime(prefix_datetime(text, fmt)),
        None => None,
    }
}

/// A date-time read from the start of `text` with `fmt`; what follows it is ignored.
pub fn parse_datetime_leading(text: &str, fmt: &str) -> (r: Option<DateTime>)
    ensures
        r == datetime_leading(text@, fmt@),
        r matches Some(d) ==> d.wf(),
{
    match parse_rest(text, fmt) {
        None => None,
        Some(_) => parse_datetime(text, fmt),
    }
}

/// A date-time read from the whole of `text` with `fmt`; trailing text is refused.
pub fn parse_datetime_exact(text: &str, fmt: &str) -> (r: Option<DateTime>)
    ensures
        r == datetime_whole(text@, fmt@),
        r matches Some(d) ==> d.wf(),
{
    match parse_rest(text, fmt) {
        None => None,
        Some(rest) => {
            if rest.unicode_len() != 0 {
                return None;
            }
            parse_datetime(text, fmt)
        },
    }
}

/// A time of day read from the whole of `text` with `fmt`; trailing text is refused.
pub fn parse_time_exact(text: &str, fmt: &str) -> (r: Option<TimeOfDay>)
    ensures
        r == time_whole(text@, fmt@),
        r matches Some(t) ==> t.wf(),
{
    match parse_rest(text, fmt) {
        None => None,
        Some(rest) => {
            if rest.unicode_len() != 0 {
                return None;
            }
            parse_time(text, fmt)
        },
    }
}

/// The timestamp prefix of `line` under `format`: a date-time for a date-bearing format, a time
/// of day for a time-only one, with the rest of the line.
pub open spec fn timestamp_prefix(format: TimestampFormat, line: Seq<char>) -> Option<
    (ExtractedNaiveDateTime, Seq<char>),
> {
    match format {
        TimestampFormat::Time(f) => match time_prefix(line, f@) {
            Some((t, rest)) => Some((ExtractedNaiveDateTime::Time(t), rest)),
            None => None,
        },
        TimestampFormat::DateTime(f) => match datetime_prefix(line, f@) {
            Some((d, rest)) => Some((ExtractedNaiveDateTime::DateTime(d), rest)),
            None => None,
        },
    }
}

impl TimestampFormat {
    /// Reads the timestamp prefix of a log line and returns it with the remainder of the line.
    pub fn extract_timestamp(&self, line: &str) -> (r: Option<(ExtractedNaiveDateTime, String)>)
        ensures
            r is None <==> timestamp_prefix(*self, line@) is None,
            r matches Some(p) ==> timestamp_prefix(*self, line@) == Some((p.0, p.1@)),
            r matches Some(p) ==> {
                &&& p.0.wf()
                &&& p.0.has_date() == (self is DateTime)
                &&& is_suffix_of(p.1@, line@)
            },
    {
        match self {
            TimestampFormat::Time(fmt) => match parse_time_prefix(line, fmt.as_str()) {
                Some((t, rest)) => Some((ExtractedNaiveDateTime::Time(t), rest)),
                None => None,
            },
            TimestampFormat::DateTime(fmt) => match parse_datetime_prefix(line, fmt.as_str()) {
                Some((d, rest)) => Some((ExtractedNaiveDateTime::DateTime(d), rest)),
                None => None,
            },
        }
    }
}

/// Exactly `width` decimal digits of `n` (which has no more digits than that).
pub open spec fn fixed_digits(n: nat, width: nat) -> Seq<char>
    decreases width,
{
    if width == 0 {
        Seq::empty()
    } else {
        fixed_digits(n / 10, (width - 1) as nat).push(digit_char(n % 10))
    }
}

fn push_fixed(s: &mut String, n: u32, width: u32)
    requires
        width <= 9,
    ensures
        final(s)@ == old(s)@ + fixed_digits(n as nat, width as nat),
    decreases width,
{
    if width > 0 {
        push_fixed(s, n / 10, width - 1);
        push_digit(s, (n % 10) as u64);
        assert(final(s)@ =~= old(s)@ + fixed_digits(n as nat, width as nat));
    } else {
        assert(final(s)@ =~= old(s)@ + fixed_digits(n as nat, width as nat));
    }
}

/// `HH:MM:SS.mmm`, with `60` seconds during a leap second.
pub open spec fn time_text(t: TimeOfDay) -> Seq<char> {
    let h = t.secs / 3600;
    let m = (t.secs % 3600) / 60;
    let sec = t.secs % 60 + (if t.nano >= NANOS_PER_SEC { 1nat } else { 0nat });
    let ms = (t.nano % NANOS_PER_SEC as u32) / 1_000_000;
    fixed_digits(h as nat, 2) + seq![':'] + fixed_digits(m as nat, 2) + seq![':'] + fixed_digits(sec as nat, 2)
        + seq!['.'] + fixed_digits(ms as nat, 3)
}

/// A year as `%Y` writes it: four digits within `0..=9999`; otherwise a sign and at least four
/// digits.
pub open spec fn year_text(y: int) -> Seq<char> {
    if 0 <= y <= 9999 {
        fixed_digits(y as nat, 4)
    } else {
        let a = if y < 0 { -y } else { y };
        (if y < 0 { seq!['-'] } else { seq!['+'] }) + (if a < 10000 {
            fixed_digits(a as nat, 4)
        } else {
            nat_digits(a as nat)
        })
    }
}

/// `YYYY-MM-DD`, the year as `year_text` writes it.
pub open spec fn date_text(d: DateTime) -> Seq<char> {
    let y = year_text(d.year as int);
    y + seq!['-'] + fixed_digits(d.month as nat, 2) + seq!['-'] + fixed_digits(d.day as nat, 2)
}

impl TimeOfDay {
    pub fn to_text(&self) -> (r: String)
        requires
            self.wf(),
        ensures
            r@ == time_text(*self),
    {
        let mut s = String::new();
        let leap: u32 = if self.nano >= 1_000_000_000 {
            1
        } else {
            0
        };
        proof {
            reveal_strlit(":");
            reveal_strlit(".");
        }
        push_fixed(&mut s, self.secs / 3600, 2);
        push_str(&mut s, ":");
        push_fixed(&mut s, (self.secs % 3600) / 60, 2);
        push_str(&mut s, ":");
        push_fixed(&mut s, self.secs % 60 + leap, 2);
        push_str(&mut s, ".");
        push_fixed(&mut s, (self.nano % 1_000_000_000) / 1_000_000, 3);
        assert(s@ =~= time_text(*self));
        s
    }
}

impl DateTime {
    pub fn date_to_text(&self) -> (r: String)
        ensures
            r@ == date_text(*self),
    {
        let mut s = String::new();
        proof {
            reveal_strlit("-");
        }
        if 0 <= self.year && self.year <= 9999 {
            push_fixed(&mut s, self.year as u32, 4);
        } else {
            let a: u32 = if self.year < 0 {
                (-(self.year as i64)) as u32
            } else {
                self.year as u32
            };
            proof {
                reveal_strlit("+");
            }
            if self.year < 0 {
                push_str(&mut s, "-");
            } else {
                push_str(&mut s, "+");
            }
            if a < 10000 {
                push_fixed(&mut s, a, 4);
            } else {
                push_str(&mut s, u128_to_string(a as u128).as_str());
            }
        }
        push_str(&mut s, "-");
        push_fixed(&mut s, self.month, 2);
        push_str(&mut s, "-");
        push_fixed(&mut s, self.day, 2);
        assert(s@ =~= date_text(*self));
        s
    }
}

/// Relies on chrono's `NaiveDate::from_num_days_from_ce_opt`,
/// `NaiveTime::from_num_seconds_from_midnight_opt` and `NaiveDateTime::checked_add_signed`
/// with `TimeDelta::microseconds`: `None` only when a date leaves chrono's range (years
/// -262144 to 262143). Outside a leap second the instant moves by exactly the given
/// microseconds; from inside one it moves by that or by one second less, when the move leaves
/// the leap second forward (`NaiveTime::overflowing_add_signed`).
#[verifier::external_body]
fn add_micros(d: &DateTime, micros: i64) -> (r: Option<DateTime>)
    ensures
        d.wf() && within_dates(d.instant()) && within_dates(d.instant() + micros * 1000)
            ==> r is Some,
        r matches Some(x) ==> x.wf(),
        r matches Some(x) ==> moved_by(*d, x, micros * 1000),
{
    let date = chrono::NaiveDate::from_num_days_from_ce_opt(d.day_number)?;
    let time = chrono::NaiveTime::from_num_seconds_from_midnight_opt(d.time.secs, d.time.nano)?;
    let dt = date.and_time(time).checked_add_signed(chrono::TimeDelta::microseconds(micros))?;
    Some(DateTime {
        year: dt.year(),
        month: dt.month(),
        day: dt.day(),
        day_number: dt.num_days_from_ce(),
        time: TimeOfDay { secs: dt.num_seconds_from_midnight(), nano: dt.nanosecond() },
    })
}

/// The time of day `t` on 2025-01-01 (day 739252).
pub open spec fn placeholder_datetime(t: TimeOfDay) -> DateTime {
    DateTime { year: 2025, month: 1, day: 1, day_number: 739_252, time: t }
}

/// `x` is `d` moved by `n` nanoseconds: exactly outside a leap second; from inside one, the
/// leap second may be left out, so `x` can be one second earlier.
pub open spec fn moved_by(d: DateTime, x: DateTime, n: int) -> bool {
    if d.time.nano < NANOS_PER_SEC {
        x.instant() == d.instant() + n
    } else {
        x.instant() == d.instant() + n || x.instant() == d.instant() + n - NANOS_PER_SEC
    }
}

/// Nanosecond instants well inside chrono's date range: within 94 million days of day 0.
pub open spec fn within_dates(x: int) -> bool {
    -94_000_000 * NANOS_PER_DAY <= x <= 94_000_000 * NANOS_PER_DAY
}

pub const NANOS_PER_DAY: u64 = 86_400_000_000_000;

impl DateTime {
    /// `self` moved by `micros` microseconds; `None` outside the representable range.
    pub fn plus_micros(&self, micros: i64) -> (r: Option<DateTime>)
        ensures
            self.wf() && within_dates(self.instant()) && within_dates(self.instant() + micros * 1000)
                ==> r is Some,
            r matches Some(x) ==> x.wf(),
            r matches Some(x) ==> moved_by(*self, x, micros * 1000),
    {
        add_micros(self, micros)
    }

    /// The time of day `t` on the placeholder date 2025-01-01, which time-only cache rows carry.
    pub fn placeholder_day_with(t: TimeOfDay) -> (r: DateTime)
        ensures
            r == placeholder_datetime(t),
    {
        DateTime { year: 2025, month: 1, day: 1, day_number: 739_252, time: t }
    }
}

} // verus!
