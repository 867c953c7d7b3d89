//! Calendar dates and UTC millisecond timestamps.
//!
//! Dates and instants are carried through the library as plain values: a
//! [`CalendarDate`] (proleptic Gregorian, the range `chrono::NaiveDate`
//! accepts) and `i64` milliseconds since the Unix epoch (the range
//! `chrono::DateTime<Utc>` accepts).  Every conversion between the two goes
//! through `chrono`.

use crate::text::decimal_digits;
use chrono::{DateTime, Datelike, NaiveDate};
use vstd::prelude::*;

verus! {

/// Milliseconds in one hour.
pub const HOUR_MILLIS: i64 = 3_600_000;

/// Milliseconds in one UTC day.
pub const DAY_MILLIS: i64 = 86_400_000;

/// Earliest instant `chrono::DateTime<Utc>` represents (`MIN_UTC`), in epoch milliseconds.
pub const MIN_TIMESTAMP_MILLIS: i64 = -8_334_601_228_800_000;

/// Latest instant `chrono::DateTime<Utc>` represents (`MAX_UTC`), in epoch milliseconds.
pub const MAX_TIMESTAMP_MILLIS: i64 = 8_210_266_876_799_999;

/// Earliest year `chrono::NaiveDate` represents.
pub const MIN_YEAR: i32 = -262_143;

/// Latest year `chrono::NaiveDate` represents.
pub const MAX_YEAR: i32 = 262_142;

/// Whether `ms` is an instant that `chrono::DateTime<Utc>` can represent.
pub open spec fn in_timestamp_range(ms: int) -> bool {
    MIN_TIMESTAMP_MILLIS <= ms <= MAX_TIMESTAMP_MILLIS
}

pub open spec fn is_leap_year(year: int) -> bool {
    (year % 4 == 0 && year % 100 != 0) || year % 400 == 0
}

pub open spec fn days_in_month(year: int, month: int) -> int {
    if month == 2 {
        if is_leap_year(year) { 29 } else { 28 }
    } else if month == 4 || month == 6 || month == 9 || month == 11 {
        30
    } else {
        31
    }
}

/// A day of the proleptic Gregorian calendar within the range of `chrono::NaiveDate`.
pub open spec fn valid_civil_date(year: int, month: int, day: int) -> bool {
    &&& MIN_YEAR <= year <= MAX_YEAR
    &&& 1 <= month <= 12
    &&& 1 <= day <= days_in_month(year, month)
}

/// Days from 1970-01-01 to the given day of the proleptic Gregorian
/// calendar (negative before it): whole 400-year eras of 146097 days, then
/// the days of the era before the year (counted from March, so that the
/// leap day ends the year), then the day of that year.
#[verifier::opaque]
pub open spec fn days_from_civil(year: int, month: int, day: int) -> int {
    let y = if month <= 2 {
        year - 1
    } else {
        year
    };
    let era = y / 400;
    let year_of_era = y - era * 400;
    let shifted_month = if month > 2 {
        month - 3
    } else {
        month + 9
    };
    let day_of_year = (153 * shifted_month + 2) / 5 + day - 1;
    let day_of_era = year_of_era * 365 + year_of_era / 4 - year_of_era / 100 + day_of_year;
    era * 146097 + day_of_era - 719468
}

/// Epoch milliseconds of midnight UTC opening the given calendar day.
pub open spec fn utc_midnight_millis(year: int, month: int, day: int) -> int {
    days_from_civil(year, month, day) * DAY_MILLIS
}

/// A calendar day, always one that `chrono::NaiveDate` accepts.
#[derive(Debug, Clone, Copy, PartialEq, Eq)]
pub struct CalendarDate {
    year: i32,
    month: u32,
    day: u32,
}

impl View for CalendarDate {
    type V = (int, int, int);

    closed spec fn view(&self) -> (int, int, int) {
        (self.year as int, self.month as int, self.day as int)
    }
}

/// Midnight UTC opening `date`, in epoch milliseconds.
pub open spec fn midnight_of(date: (int, int, int)) -> int {
    utc_midnight_millis(date.0, date.1, date.2)
}

impl CalendarDate {
    #[verifier::type_invariant]
    spec fn inv(self) -> bool {
        valid_civil_date(self.year as int, self.month as int, self.day as int)
    }

    /// The date with the given year, month (1-12) and day of month, if it
    /// exists and `chrono` can represent it.
    pub fn new(year: i32, month: u32, day: u32) -> (r: Option<CalendarDate>)
        ensures
            r is Some <==> valid_civil_date(year as int, month as int, day as int),
            r matches Some(d) ==> d@ == (year as int, month as int, day as int),
    {
        if chrono_accepts_date(year, month, day) {
            Some(CalendarDate { year, month, day })
        } else {
            None
        }
    }

    /// 1970-01-01, the day of the Unix epoch.
    pub fn unix_epoch() -> (r: CalendarDate)
        ensures
            r@ == (1970int, 1int, 1int),
    {
        CalendarDate { year: 1970, month: 1, day: 1 }
    }

    pub fn year(&self) -> (r: i32)
        ensures
            r as int == self@.0,
    {
        self.year
    }

    pub fn month(&self) -> (r: u32)
        ensures
            r as int == self@.1,
    {
        self.month
    }

    pub fn day(&self) -> (r: u32)
        ensures
            r as int == self@.2,
    {
        self.day
    }

    /// Epoch milliseconds of `hour`:00:00 UTC on this date.
    pub fn hour_start_millis(&self, hour: u32) -> (r: i64)
        requires
            hour < 24,
        ensures
            r == midnight_of(self@) + hour * HOUR_MILLIS,
            (r - hour * HOUR_MILLIS) % (DAY_MILLIS as int) == 0,
            MIN_TIMESTAMP_MILLIS <= r - hour * HOUR_MILLIS,
            r - hour * HOUR_MILLIS + DAY_MILLIS - 1 <= MAX_TIMESTAMP_MILLIS,
    {
        proof {
            use_type_invariant(self);
        }
        chrono_hour_start_millis(self.year, self.month, self.day, hour)
    }

    /// Epoch milliseconds of midnight UTC opening the following day.  The
    /// last date chrono represents has no following day.
    pub fn next_midnight_millis(&self) -> (r: i64)
        requires
            self@ != (MAX_YEAR as int, 12int, 31int),
        ensures
            r == midnight_of(self@) + DAY_MILLIS,
    {
        proof {
            use_type_invariant(self);
        }
        chrono_next_midnight_millis(self.year, self.month, self.day)
    }

    /// The date as chrono displays it (`YYYY-MM-DD`).
    pub fn to_iso_text(&self) -> (r: String)
        ensures
            r@ == iso_date_text(self@.0, self@.1, self@.2),
    {
        proof {
            use_type_invariant(self);
        }
        chrono_date_text(self.year, self.month, self.day)
    }

    /// Epoch milliseconds of midnight UTC opening this date.
    pub fn midnight_millis(&self) -> (r: i64)
        ensures
            r == midnight_of(self@),
            (r as int) % (DAY_MILLIS as int) == 0,
            MIN_TIMESTAMP_MILLIS <= r,
            r + DAY_MILLIS - 1 <= MAX_TIMESTAMP_MILLIS,
    {
        self.hour_start_millis(0)
    }

    /// The UTC calendar day holding the current instant of the system clock,
    /// or `None` when the clock reads before the Unix epoch (or beyond the
    /// instants chrono represents).
    pub fn today() -> (r: Option<CalendarDate>)
        ensures
            r matches Some(d) ==> exists|t: int| #![trigger in_timestamp_range(t)] in_timestamp_range(t)
                && midnight_of(d@) <= t < midnight_of(d@) + DAY_MILLIS,
    {
        match now_millis() {
            Some(now) => {
                let r = calendar_date_of(now);
                assert(in_timestamp_range(now as int));
                Some(r)
            },
            None => None,
        }
    }

    /// Whether this is the last day `chrono` represents, the one without a
    /// following midnight.
    pub fn is_last_representable(&self) -> (r: bool)
        ensures
            r == (self@ == (MAX_YEAR as int, 12int, 31int)),
    {
        self.year == MAX_YEAR && self.month == 12 && self.day == 31
    }
}

/// `chrono::NaiveDate::from_ymd_opt(year, month, day).is_some()`: chrono
/// accepts exactly the proleptic Gregorian days of years -262143 to 262142.
#[verifier::external_body]
fn chrono_accepts_date(year: i32, month: u32, day: u32) -> (r: bool)
    ensures
        r == valid_civil_date(year as int, month as int, day as int),
{
    NaiveDate::from_ymd_opt(year, month, day).is_some()
}

/// `NaiveDate::from_ymd_opt(..).and_hms_opt(hour, 0, 0).and_utc().timestamp_millis()`:
/// the non-leap milliseconds since 1970-01-01 00:00 UTC of `hour`:00 on the
/// day, i.e. `hour` hours after the day's midnight; that midnight is a whole
/// number of days after the epoch, and the whole day lies inside
/// `DateTime<Utc>::MIN_UTC ..= MAX_UTC`.
#[verifier::external_body]
fn chrono_hour_start_millis(year: i32, month: u32, day: u32, hour: u32) -> (r: i64)
    requires
        valid_civil_date(year as int, month as int, day as int),
        hour < 24,
    ensures
        r == utc_midnight_millis(year as int, month as int, day as int) + hour * HOUR_MILLIS,
        (r - hour * HOUR_MILLIS) % (DAY_MILLIS as int) == 0,
        MIN_TIMESTAMP_MILLIS <= r - hour * HOUR_MILLIS,
        r - hour * HOUR_MILLIS + DAY_MILLIS - 1 <= MAX_TIMESTAMP_MILLIS,
{
    let date = NaiveDate::from_ymd_opt(year, month, day).unwrap();
    date.and_hms_opt(hour, 0, 0).unwrap().and_utc().timestamp_millis()
}

/// Decimal digits of `n`, left-padded with zeros to at least `width` digits.
pub open spec fn zero_padded(n: nat, width: nat) -> Seq<char> {
    let d = decimal_digits(n);
    if d.len() >= width {
        d
    } else {
        Seq::new((width - d.len()) as nat, |i: int| '0') + d
    }
}

/// How chrono displays a date: the year as four digits when it is within
/// 0..=9999, else signed and zero-padded to four digits; then `-MM-DD`.
pub open spec fn iso_date_text(year: int, month: int, day: int) -> Seq<char> {
    let y = if 0 <= year <= 9999 {
        zero_padded(year as nat, 4)
    } else if year > 0 {
        seq!['+'] + zero_padded(year as nat, 4)
    } else {
        seq!['-'] + zero_padded((-year) as nat, 4)
    };
    y + seq!['-'] + zero_padded(month as nat, 2) + seq!['-'] + zero_padded(day as nat, 2)
}

/// `NaiveDate::from_ymd_opt(year, month, day).to_string()`: chrono's
/// `Display` for dates (ISO 8601 `YYYY-MM-DD`, signed years outside 0..=9999).
#[verifier::external_body]
fn chrono_date_text(year: i32, month: u32, day: u32) -> (r: String)
    requires
        valid_civil_date(year as int, month as int, day as int),
    ensures
        r@ == iso_date_text(year as int, month as int, day as int),
{
    NaiveDate::from_ymd_opt(year, month, day).unwrap().to_string()
}

/// `(date + Days::new(1)).and_hms_opt(0, 0, 0).and_utc().timestamp_millis()`:
/// midnight UTC of the following day, one day after the date's own midnight.
#[verifier::external_body]
fn chrono_next_midnight_millis(year: i32, month: u32, day: u32) -> (r: i64)
    requires
        valid_civil_date(year as int, month as int, day as int),
        (year as int, month as int, day as int) != (MAX_YEAR as int, 12int, 31int),
    ensures
        r == utc_midnight_millis(year as int, month as int, day as int) + DAY_MILLIS,
{
    let date = NaiveDate::from_ymd_opt(year, month, day).unwrap() + chrono::Days::new(1);
    date.and_hms_opt(0, 0, 0).unwrap().and_utc().timestamp_millis()
}

/// The calendar day `NaiveDate::parse_from_str(text, "%Y-%m-%d")` reads from
/// `text`, as `(year, month, day)`, or `None` when it rejects the text.
pub uninterp spec fn iso_date_parse(text: Seq<char>) -> Option<(int, int, int)>;

/// `NaiveDate::parse_from_str(text, "%Y-%m-%d")`: the date the text spells
/// in chrono's `%Y-%m-%d` format, if it is one.  The result depends on the
/// text alone and is given a name; what chrono's parser accepts is not
/// restated here.
#[verifier::external_body]
pub(crate) fn parse_iso_date(text: &str) -> (r: Option<CalendarDate>)
    ensures
        iso_date_parse(text@) == match r {
            Some(d) => Some(d@),
            None => None::<(int, int, int)>,
        },
{
    match NaiveDate::parse_from_str(text, "%Y-%m-%d") {
        Ok(date) => Some(CalendarDate { year: date.year(), month: date.month(), day: date.day() }),
        Err(_) => None,
    }
}

/// Whether day `a` is not after day `b` (dates compared as year, month,
/// day).
pub open spec fn date_le(a: (int, int, int), b: (int, int, int)) -> bool {
    a.0 < b.0 || (a.0 == b.0 && (a.1 < b.1 || (a.1 == b.1 && a.2 <= b.2)))
}

impl CalendarDate {
    /// Whether this day is not after `other`.
    pub fn is_on_or_before(&self, other: &CalendarDate) -> (r: bool)
        ensures
            r == date_le(self@, other@),
    {
        self.year < other.year || (self.year == other.year && (self.month < other.month || (
        self.month == other.month && self.day <= other.day)))
    }
}

/// `DateTime::from_timestamp_millis(ms).is_some()`: chrono accepts exactly the
/// instants from `MIN_UTC` to `MAX_UTC`.
#[verifier::external_body]
pub(crate) fn timestamp_in_range(ms: i64) -> (r: bool)
    ensures
        r == in_timestamp_range(ms as int),
{
    DateTime::from_timestamp_millis(ms).is_some()
}

/// The current instant in epoch milliseconds, read from the system clock
/// the way `Utc::now` reads it (`SystemTime::now()` since `UNIX_EPOCH`, made
/// a `DateTime<Utc>` by `DateTime::from_timestamp`), except that a clock
/// before the epoch, or beyond what `DateTime` represents, gives `None`
/// where `Utc::now` would panic.  Which instant it is depends on the clock,
/// so only its range is stated.
#[verifier::external_body]
pub(crate) fn now_millis() -> (r: Option<i64>)
    ensures
        r matches Some(t) ==> in_timestamp_range(t as int),
{
    let since = match std::time::SystemTime::now().duration_since(std::time::UNIX_EPOCH) {
        Ok(d) => d,
        Err(_) => return None,
    };
    let secs = match i64::try_from(since.as_secs()) {
        Ok(s) => s,
        Err(_) => return None,
    };
    match DateTime::from_timestamp(secs, since.subsec_nanos()) {
        Some(t) => Some(t.timestamp_millis()),
        None => None,
    }
}

/// `DateTime::from_timestamp_millis(ms).date_naive()`: the UTC calendar day
/// holding the instant, i.e. the day whose midnight is at or before `ms` and
/// less than a day before it.
#[verifier::external_body]
pub(crate) fn calendar_date_of(ms: i64) -> (r: CalendarDate)
    requires
        in_timestamp_range(ms as int),
    ensures
        midnight_of(r@) <= ms < midnight_of(r@) + DAY_MILLIS,
{
    let date = DateTime::from_timestamp_millis(ms).unwrap().date_naive();
    CalendarDate { year: date.year(), month: date.month(), day: date.day() }
}

} // verus!
