use chrono::Datelike;
use vstd::prelude::*;

verus! {

/// The first year that `chrono`'s dates can hold.
pub const MIN_YEAR: i32 = -262143;

/// The last year that `chrono`'s dates can hold.
pub const MAX_YEAR: i32 = 262142;

/// A date and time of day on a wall clock, without a time zone, to the second.
#[derive(Clone, Copy, Debug, PartialEq, Eq)]
pub struct LocalDateTime {
    pub year: i32,
    pub month: u32,
    pub day: u32,
    pub hour: u32,
    pub minute: u32,
    pub second: u32,
}

/// Leap years of the proleptic Gregorian calendar.
pub open spec fn is_leap_year(y: int) -> bool {
    y % 4 == 0 && (y % 100 != 0 || y % 400 == 0)
}

/// The number of days in month `m` of year `y`.
pub open spec fn days_in_month(y: int, m: int) -> int {
    if m == 2 {
        if is_leap_year(y) { 29 } else { 28 }
    } else if m == 4 || m == 6 || m == 9 || m == 11 {
        30
    } else {
        31
    }
}

/// A calendar date that `chrono` can represent.
pub open spec fn is_valid_date(y: int, m: int, d: int) -> bool {
    &&& MIN_YEAR <= y <= MAX_YEAR
    &&& 1 <= m <= 12
    &&& 1 <= d <= days_in_month(y, m)
}

/// The number of days of year `y` that lie before the first of month `m`.
pub open spec fn days_before_month(y: int, m: int) -> int {
    let common: int = if m <= 1 { 0 } else if m == 2 { 31 } else if m == 3 { 59 } else if m == 4 { 90 }
        else if m == 5 { 120 } else if m == 6 { 151 } else if m == 7 { 181 } else if m == 8 { 212 }
        else if m == 9 { 243 } else if m == 10 { 273 } else if m == 11 { 304 } else { 334 };
    if m > 2 && is_leap_year(y) { common + 1 } else { common }
}

/// The day number of a date, counting 0001-01-01 as day 1.
#[verifier::opaque]
pub open spec fn days_from_ce(y: int, m: int, d: int) -> int {
    let y0 = y - 1;
    365 * y0 + y0 / 4 - y0 / 100 + y0 / 400 + days_before_month(y, m) + d
}

/// The day number of 1970-01-01.
pub open spec fn unix_epoch_day() -> int {
    719163
}

/// The seconds since midnight of a wall-clock time.
pub open spec fn seconds_of_day(t: LocalDateTime) -> int {
    t.hour * 3600 + t.minute * 60 + t.second
}

/// A wall-clock date and time as a count of seconds from 1970-01-01 00:00:00.
pub open spec fn local_seconds(t: LocalDateTime) -> int {
    (days_from_ce(t.year as int, t.month as int, t.day as int) - unix_epoch_day()) * 86400
        + seconds_of_day(t)
}

/// A date and time of day that `chrono` can represent.
pub open spec fn is_valid_local(t: LocalDateTime) -> bool {
    &&& is_valid_date(t.year as int, t.month as int, t.day as int)
    &&& t.hour < 24
    &&& t.minute < 60
    &&& t.second < 60
}

/// `chrono::NaiveDateTime::and_utc` followed by `timestamp`: the count of
/// seconds since 1970-01-01 00:00:00 of a date and time read as UTC. The
/// contract states the proleptic Gregorian day count that `num_days_from_ce`
/// computes, times a day's seconds, plus the seconds since midnight.
#[verifier::external_body]
pub(crate) fn naive_timestamp(t: &LocalDateTime) -> (secs: i64)
    requires
        is_valid_local(*t),
    ensures
        secs == local_seconds(*t),
{
    chrono::NaiveDate::from_ymd_opt(t.year, t.month, t.day).unwrap()
        .and_hms_opt(t.hour, t.minute, t.second).unwrap()
        .and_utc()
        .timestamp()
}

impl LocalDateTime {
    /// Whether this is a date and time of day that `chrono` can hold.
    pub fn is_valid(&self) -> (valid: bool)
        ensures
            valid == is_valid_local(*self),
    {
        if self.year < MIN_YEAR || self.year > MAX_YEAR || self.month < 1 || self.month > 12
            || self.day < 1 {
            return false;
        }
        let y = self.year;
        let leap_year = y % 4 == 0 && (y % 100 != 0 || y % 400 == 0);
        let days_in_month: u32 = if self.month == 2 {
            if leap_year { 29 } else { 28 }
        } else if self.month == 4 || self.month == 6 || self.month == 9 || self.month == 11 {
            30
        } else {
            31
        };
        self.day <= days_in_month && self.hour < 24 && self.minute < 60 && self.second < 60
    }
}

/// The calendar day before `(y, m, d)`.
pub open spec fn date_before(y: int, m: int, d: int) -> (int, int, int) {
    if d > 1 {
        (y, m, d - 1)
    } else if m > 1 {
        (y, m - 1, days_in_month(y, m - 1))
    } else {
        (y - 1, 12, 31)
    }
}

/// The first date that `chrono` can represent.
pub open spec fn is_first_date(y: int, m: int, d: int) -> bool {
    y == MIN_YEAR && m == 1 && d == 1
}

/// The last date that `chrono` can represent.
pub open spec fn is_last_date(y: int, m: int, d: int) -> bool {
    y == MAX_YEAR && m == 12 && d == 31
}

/// `chrono::NaiveDate::checked_sub_days` by one day, read back through
/// `Datelike::year`, `month` and `day`: the previous calendar day. The day
/// before the first date that `chrono` holds is refused by `requires`, as
/// `unwrap` would panic there.
#[verifier::external_body]
pub(crate) fn naive_previous_date(y: i32, m: u32, d: u32) -> (prev: (i32, u32, u32))
    requires
        is_valid_date(y as int, m as int, d as int),
        !is_first_date(y as int, m as int, d as int),
    ensures
        (prev.0 as int, prev.1 as int, prev.2 as int) == date_before(y as int, m as int, d as int),
{
    let prev = chrono::NaiveDate::from_ymd_opt(y, m, d).unwrap()
        .checked_sub_days(chrono::Days::new(1)).unwrap();
    (prev.year(), prev.month(), prev.day())
}

/// A wall-clock time that `chrono` holds lies within nine trillion seconds of 1970.
pub proof fn lemma_local_seconds_bounds(t: LocalDateTime)
    requires
        is_valid_local(t),
    ensures
        -9_000_000_000_000 < local_seconds(t) < 9_000_000_000_000,
{
    reveal(days_from_ce);
    let y0 = t.year as int - 1;
    assert(-262144 <= y0 <= 262141);
    assert(-95_682_560 <= 365 * y0 <= 95_681_465) by (nonlinear_arith)
        requires -262144 <= y0 <= 262141;
    let days = days_from_ce(t.year as int, t.month as int, t.day as int);
    assert(-96_000_000 < days < 96_000_000);
    assert(-8_400_000_000_000 < (days - unix_epoch_day()) * 86400 < 8_400_000_000_000)
        by (nonlinear_arith)
        requires -96_000_000 < days < 96_000_000, unix_epoch_day() == 719163;
}

/// The day before a date is a date `chrono` holds, and its day number is one less.
pub proof fn lemma_date_before(y: int, m: int, d: int)
    requires
        is_valid_date(y, m, d),
        !is_first_date(y, m, d),
    ensures
        ({
            let p = date_before(y, m, d);
            &&& is_valid_date(p.0, p.1, p.2)
            &&& days_from_ce(p.0, p.1, p.2) == days_from_ce(y, m, d) - 1
        }),
{
    reveal(days_from_ce);
    if d == 1 && m == 1 {
        let x = y - 2;
        lemma_div_step(x, 4);
        lemma_div_step(x, 100);
        lemma_div_step(x, 400);
        lemma_divides_chain(x + 1);
    }
}

proof fn lemma_div_step(x: int, k: int)
    requires
        k > 0,
    ensures
        (x + 1) / k - x / k == (if (x + 1) % k == 0 { 1int } else { 0int }),
{
    let q = x / k;
    let r = x % k;
    vstd::arithmetic::div_mod::lemma_fundamental_div_mod(x, k);
    if r + 1 < k {
        vstd::arithmetic::div_mod::lemma_fundamental_div_mod_converse(x + 1, k, q, r + 1);
    } else {
        assert(x + 1 == (q + 1) * k + 0) by (nonlinear_arith)
            requires x == k * q + r, r + 1 == k;
        vstd::arithmetic::div_mod::lemma_fundamental_div_mod_converse(x + 1, k, q + 1, 0);
    }
}

proof fn lemma_divides_chain(z: int)
    ensures
        z % 400 == 0 ==> z % 100 == 0,
        z % 100 == 0 ==> z % 4 == 0,
{
    if z % 400 == 0 {
        vstd::arithmetic::div_mod::lemma_fundamental_div_mod(z, 400);
        let q = z / 400;
        assert(z == (4 * q) * 100) by (nonlinear_arith) requires z == 400 * q + 0;
        vstd::arithmetic::div_mod::lemma_mod_multiples_basic(4 * q, 100);
    }
    if z % 100 == 0 {
        vstd::arithmetic::div_mod::lemma_fundamental_div_mod(z, 100);
        let q = z / 100;
        assert(z == (25 * q) * 4) by (nonlinear_arith) requires z == 100 * q + 0;
        vstd::arithmetic::div_mod::lemma_mod_multiples_basic(25 * q, 4);
    }
}

#[verifier::external_type_specification]
#[verifier::external_body]
pub struct ExTimeDelta(chrono::TimeDelta);

/// The `chrono::TimeDelta` that `TimeDelta::seconds` makes of a count of seconds.
pub uninterp spec fn time_delta_of_seconds(secs: i64) -> chrono::TimeDelta;

/// `chrono::TimeDelta::seconds`: a span of whole seconds. It panics beyond
/// `i64::MAX / 1000` seconds either way, so `requires` keeps within that.
#[verifier::external_body]
pub(crate) fn time_delta_seconds(secs: i64) -> (d: chrono::TimeDelta)
    requires
        -(i64::MAX / 1000) <= secs <= i64::MAX / 1000,
    ensures
        d == time_delta_of_seconds(secs),
{
    chrono::TimeDelta::seconds(secs)
}

/// The `chrono::TimeDelta` that `TimeDelta - TimeDelta` gives.
pub uninterp spec fn time_delta_difference(a: chrono::TimeDelta, b: chrono::TimeDelta) -> chrono::TimeDelta;

/// `TimeDelta - TimeDelta` (`chrono`'s `Sub`). It panics when the difference
/// leaves `TimeDelta`'s range, so `requires` admits spans made of whole seconds
/// by `TimeDelta::seconds` whose difference stays within the range that
/// `TimeDelta::seconds` accepts; for those the difference is the span of the
/// difference of the seconds. What it gives of other spans is left unsaid.
#[verifier::external_body]
pub(crate) fn time_delta_sub(a: chrono::TimeDelta, b: chrono::TimeDelta) -> (d: chrono::TimeDelta)
    requires
        exists|x: i64, y: i64|
            -(i64::MAX / 1000) <= x <= i64::MAX / 1000 && -(i64::MAX / 1000) <= y <= i64::MAX / 1000
                && -(i64::MAX / 1000) <= x - y <= i64::MAX / 1000
                && a == #[trigger] time_delta_of_seconds(x) && b == #[trigger] time_delta_of_seconds(y),
    ensures
        d == time_delta_difference(a, b),
        forall|x: i64, y: i64|
            -(i64::MAX / 1000) <= x <= i64::MAX / 1000 && -(i64::MAX / 1000) <= y <= i64::MAX / 1000
                && -(i64::MAX / 1000) <= x - y <= i64::MAX / 1000
                && a == #[trigger] time_delta_of_seconds(x) && b == #[trigger] time_delta_of_seconds(y)
                ==> d == time_delta_of_seconds((x - y) as i64),
{
    a - b
}

} // verus!
