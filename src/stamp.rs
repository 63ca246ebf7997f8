use vstd::prelude::*;

verus! {

/// The earliest year that a calendar date may carry.
pub const MIN_YEAR: i32 = -262143;

/// The latest year that a calendar date may carry.
pub const MAX_YEAR: i32 = 262142;

/// A local wall-clock time, to the second: the identity of a snapshot.
#[derive(Clone, Copy, Debug, PartialEq, Eq, Structural)]
pub struct Stamp {
    pub year: i32,
    pub month: u32,
    pub day: u32,
    pub hour: u32,
    pub minute: u32,
    pub second: u32,
}

/// Leap years of the proleptic Gregorian calendar.
pub open spec fn is_leap_year(y: int) -> bool {
    (y % 4 == 0 && y % 100 != 0) || y % 400 == 0
}

pub open spec fn days_in_month(y: int, m: int) -> int {
    if m == 2 {
        if is_leap_year(y) { 29 } else { 28 }
    } else if m == 4 || m == 6 || m == 9 || m == 11 {
        30
    } else {
        31
    }
}

/// Month and day name a day of the calendar (whatever the year).
pub open spec fn month_day_valid(y: int, m: int, d: int) -> bool {
    1 <= m <= 12 && 1 <= d <= days_in_month(y, m)
}

/// A calendar date within the supported range of years.
pub open spec fn date_valid(y: int, m: int, d: int) -> bool {
    MIN_YEAR <= y <= MAX_YEAR && month_day_valid(y, m, d)
}

/// A time of day on a 24-hour clock, without leap seconds.
pub open spec fn time_valid(h: int, mi: int, s: int) -> bool {
    0 <= h < 24 && 0 <= mi < 60 && 0 <= s < 60
}

/// Seconds in a month of the ordering below (every month counted as 31 days).
pub open spec fn month_span() -> int {
    2678400int
}

/// Seconds in a year of the ordering below.
pub open spec fn year_span() -> int {
    32140800int
}

impl Stamp {
    pub open spec fn wf(self) -> bool {
        date_valid(self.year as int, self.month as int, self.day as int)
            && time_valid(self.hour as int, self.minute as int, self.second as int)
    }

    /// A number that orders stamps chronologically: every month is given 31
    /// days, so that the number grows with each field in turn.
    pub open spec fn key(self) -> int {
        self.year as int * year_span() + (self.month as int - 1) * month_span()
            + (self.day as int - 1) * 86400 + self.hour as int * 3600 + self.minute as int * 60
            + self.second as int
    }

    /// Comparison field by field, most significant first.
    pub open spec fn earlier_than(self, other: Stamp) -> bool {
        if self.year != other.year {
            self.year < other.year
        } else if self.month != other.month {
            self.month < other.month
        } else if self.day != other.day {
            self.day < other.day
        } else if self.hour != other.hour {
            self.hour < other.hour
        } else if self.minute != other.minute {
            self.minute < other.minute
        } else {
            self.second < other.second
        }
    }

    /// The chronological key of a valid stamp.
    pub fn sort_key(&self) -> (r: i64)
        requires
            self.wf(),
        ensures
            r as int == self.key(),
    {
        let y = self.year as i64;
        assert(-262143 * 32140800 <= y * 32140800 <= 262142 * 32140800) by (nonlinear_arith)
            requires
                -262143 <= y <= 262142,
        ;
        y * 32140800 + (self.month as i64 - 1) * 2678400 + (self.day as i64 - 1) * 86400
            + self.hour as i64 * 3600 + self.minute as i64 * 60 + self.second as i64
    }
}

/// The key orders valid stamps as the fields do.
pub proof fn lemma_key_order(a: Stamp, b: Stamp)
    requires
        a.wf(),
        b.wf(),
    ensures
        a.earlier_than(b) <==> a.key() < b.key(),
        a.key() == b.key() <==> a == b,
{
    let ya = a.year as int;
    let yb = b.year as int;
    let ra = a.key() - ya * year_span();
    let rb = b.key() - yb * year_span();
    assert(0 <= ra < year_span());
    assert(0 <= rb < year_span());
    if ya < yb {
        assert(ya * year_span() + year_span() <= yb * year_span()) by (nonlinear_arith)
            requires
                ya < yb,
        ;
    } else if yb < ya {
        assert(yb * year_span() + year_span() <= ya * year_span()) by (nonlinear_arith)
            requires
                yb < ya,
        ;
    }
}

/// Whether a calendar date exists and lies in the supported range of years.
///
/// Relies on `chrono::NaiveDate::from_ymd_opt`, which gives `None` for a year
/// out of range, a month outside `1..=12` or a day that the month lacks.
#[verifier::external_body]
pub(crate) fn date_exists(year: i32, month: u32, day: u32) -> (r: bool)
    ensures
        r == date_valid(year as int, month as int, day as int),
{
    chrono::NaiveDate::from_ymd_opt(year, month, day).is_some()
}

/// Whether a time of day exists on a 24-hour clock.
///
/// Relies on `chrono::NaiveTime::from_hms_opt`, which gives `None` for an hour
/// from 24, a minute or a second from 60.
#[verifier::external_body]
pub(crate) fn time_exists(hour: u32, minute: u32, second: u32) -> (r: bool)
    ensures
        r == time_valid(hour as int, minute as int, second as int),
{
    chrono::NaiveTime::from_hms_opt(hour, minute, second).is_some()
}

/// The local time now, to the second.
///
/// Relies on `chrono::Local::now` and the field accessors of its result: a
/// local date-time always carries an existing calendar day and a time of day
/// (a leap second shows as second 59).
#[verifier::external_body]
pub(crate) fn now_local() -> (r: Stamp)
    ensures
        month_day_valid(r.year as int, r.month as int, r.day as int),
        time_valid(r.hour as int, r.minute as int, r.second as int),
{
    let t = chrono::Local::now();
    Stamp {
        year: chrono::Datelike::year(&t),
        month: chrono::Datelike::month(&t),
        day: chrono::Datelike::day(&t),
        hour: chrono::Timelike::hour(&t),
        minute: chrono::Timelike::minute(&t),
        second: chrono::Timelike::second(&t),
    }
}

} // verus!
