use vstd::prelude::*;

use crate::calendar::{
    date_before, days_from_ce, days_in_month, is_first_date, is_last_date, is_valid_date,
    is_valid_local, lemma_date_before, lemma_local_seconds_bounds, local_seconds,
    naive_previous_date, naive_timestamp, seconds_of_day, time_delta_difference, time_delta_of_seconds, time_delta_sub,
    time_delta_seconds, LocalDateTime, MAX_YEAR, MIN_YEAR,
};

use crate::reign::{
    find_reign, first_reign, has_reign, lemma_first_reign_unique, reign_count, years_before,
    OwnerChart,
};
use crate::rulers::{
    au_office_chart, get_owners_for_country, lemma_charts_are_in_order, owners_for_country,
    us_office_chart,
};
use crate::terms::{
    lemma_year_owners_count_on, lemma_year_owners_tile_all_years, tiles_up_to, year_owners_of,
};
use crate::text::{
    integer_string, integer_text, month_name, month_name_text, ordinal_string, ordinal_text,
};

verus! {

/// An upper bound on every span of seconds between two wall-clock times that
/// `chrono` holds.
pub open spec fn max_span() -> int {
    20_000_000_000_000
}

/// A Roman time as plain values: the Roman date, the hour of the day counted
/// from sunrise (0 to 11 daylight hours, 12 to 23 night hours), how far into
/// that hour the time lies as the fraction `progress_num / progress_den`
/// (`0 / 0` where the hour has no length), and the seconds of daylight.
pub struct RomanTimeModel {
    pub year: int,
    pub month: int,
    pub day: int,
    pub hour: int,
    pub progress_num: int,
    pub progress_den: int,
    pub daylight_seconds: int,
}

/// What every Roman time satisfies.
pub open spec fn is_well_formed(m: RomanTimeModel) -> bool {
    &&& is_valid_date(m.year, m.month, m.day)
    &&& 0 <= m.hour <= 23
    &&& (m.progress_den == 0 && m.progress_num == 0) || (0 <= m.progress_num < m.progress_den)
    &&& m.progress_den <= max_span()
    &&& -max_span() <= m.daylight_seconds <= max_span()
}

/// Splits `since` seconds of a period of `total` seconds into `amount` equal
/// hours: the hour that `since` falls in, counted from 0, and the remainder
/// of the hour as a fraction `num / den`. A period without length gives hour
/// 0 and the fraction `0 / 0`.
pub open spec fn spec_hour_breakdown(since: int, total: int, amount: int) -> (int, int, int) {
    if total == 0 {
        (0, 0, 0)
    } else {
        ((since * amount) / total, (since * amount) % total, total)
    }
}

/// The Roman time at wall-clock `time`, on a day whose sunrise and sunset fall
/// at wall-clock `sunrise` and `sunset`. Before sunrise the time belongs to
/// the night that began the evening before (hours 18 to 23 from midnight to
/// sunrise) and to the previous date; after sunset the night hours 12 to 17
/// run from sunset to midnight; between them the twelve daylight hours
/// divide the day.
pub open spec fn spec_roman_time(time: LocalDateTime, sunrise: LocalDateTime, sunset: LocalDateTime) -> RomanTimeModel {
    let t = local_seconds(time);
    let sr = local_seconds(sunrise);
    let ss = local_seconds(sunset);
    let midnight = t - seconds_of_day(time);
    let hours = if t < sr {
        let b = spec_hour_breakdown(t - midnight, sr - midnight, 6);
        (b.0 + 18, b.1, b.2)
    } else if t > ss {
        let b = spec_hour_breakdown(t - ss, midnight + 86400 - ss, 6);
        (b.0 + 12, b.1, b.2)
    } else {
        spec_hour_breakdown(t - sr, ss - sr, 12)
    };
    let date = if t < sr {
        date_before(time.year as int, time.month as int, time.day as int)
    } else {
        (time.year as int, time.month as int, time.day as int)
    };
    RomanTimeModel {
        year: date.0,
        month: date.1,
        day: date.2,
        hour: hours.0,
        progress_num: hours.1,
        progress_den: hours.2,
        daylight_seconds: ss - sr,
    }
}

/// The inputs on which a Roman time can be made: three wall-clock times that
/// `chrono` holds, and a time that neither falls before sunrise on the first
/// date `chrono` holds (there is no day before it) nor after sunset on the
/// last (there is no midnight after it).
pub open spec fn can_make_roman_time(time: LocalDateTime, sunrise: LocalDateTime, sunset: LocalDateTime) -> bool {
    &&& is_valid_local(time)
    &&& is_valid_local(sunrise)
    &&& is_valid_local(sunset)
    &&& local_seconds(time) < local_seconds(sunrise)
        ==> !is_first_date(time.year as int, time.month as int, time.day as int)
    &&& local_seconds(sunrise) <= local_seconds(time) && local_seconds(sunset) < local_seconds(time)
        ==> !is_last_date(time.year as int, time.month as int, time.day as int)
}

/// The seconds in a day.
pub open spec fn day_seconds() -> int {
    86400
}

/// How far into its hour a time lies, in words. A fraction `0 / 0` (an hour
/// without length) compares as no fraction does and reads "more than three
/// quarters".
pub open spec fn progress_text(num: int, den: int) -> Seq<char> {
    if den > 0 && 4 * num <= den {
        "less than a quarter"@
    } else if den > 0 && 2 * num <= den {
        "less than half"@
    } else if den > 0 && 4 * num <= 3 * den {
        "less than three quarters"@
    } else {
        "more than three quarters"@
    }
}

/// The hour of a Roman time in words: how far into the hour, and which of the
/// twelve daylight or twelve night hours it is, counted from one.
pub open spec fn hour_text(m: RomanTimeModel) -> Seq<char> {
    let hour = m.hour + 1;
    let night_time = hour >= 13;
    let hour_of_part = if hour > 12 { hour - 12 } else { hour };
    progress_text(m.progress_num, m.progress_den) + " of the "@ + ordinal_text(hour_of_part as nat)
        + " "@ + (if night_time { "night"@ } else { "daylight"@ }) + " hour"@
}

/// The months of 31 days, whose Nones fall on the 7th and Ides on the 15th.
pub open spec fn is_full_month(m: int) -> bool {
    m == 1 || m == 3 || m == 5 || m == 7 || m == 8 || m == 10 || m == 12
}

/// A date counted the Roman way: the Kalends (the 1st), then the days before
/// the Nones, the Nones, the days before the Ides, the Ides, and after the Ides
/// the days before the Kalends of the next month, each count including both
/// ends. After the Ides of December the next month is January.
pub open spec fn date_text(y: int, m: int, d: int) -> Seq<char> {
    let name = month_name_text(m);
    let nones: int = if is_full_month(m) { 7 } else { 5 };
    let ides: int = if is_full_month(m) { 15 } else { 13 };
    if d == 1 {
        "Kalends of "@ + name
    } else if d <= nones {
        let remaining = nones - d;
        if remaining == 0 {
            "Nones of "@ + name
        } else if remaining == 1 {
            "day before the Nones of "@ + name
        } else {
            ordinal_text((remaining + 1) as nat) + " day before the Nones of "@ + name
        }
    } else if d <= ides {
        let remaining = ides - d;
        if remaining == 0 {
            "Ides of "@ + name
        } else if remaining == 1 {
            "day before the Ides of "@ + name
        } else {
            ordinal_text((remaining + 1) as nat) + " day before the Ides of "@ + name
        }
    } else {
        let next_month_name = month_name_text(m % 12 + 1);
        let remaining = days_in_month(y, m) - d;
        if remaining == 0 {
            "day before the Kalends of "@ + next_month_name
        } else {
            ordinal_text((remaining + 2) as nat) + " day before the Kalends of "@ + next_month_name
        }
    }
}

/// The year of a Roman time in words: the year of the reign of whoever held
/// office on the year's first day in the given country, or the plain year
/// where the country has no chart or the chart no owner for the year.
pub open spec fn year_text(country: Seq<char>, year: int) -> Seq<char> {
    if owners_for_country(country) is Some && has_reign(owners_for_country(country).unwrap(), year) {
        let owners = owners_for_country(country).unwrap();
        let (o, i) = first_reign(owners, year);
        ordinal_text(reign_count(owners[o].1, i, year) as nat) + " year of "@ + owners[o].0
    } else {
        integer_text(year)
    }
}

/// The count of the year of a reign fits in an `i32`, as the count is kept
/// in one. It does not for the years from 0 up to the first change of office,
/// which count from the chart's open start at `i32::MIN`.
pub open spec fn has_year_text(country: Seq<char>, year: int) -> bool {
    owners_for_country(country) is Some && has_reign(owners_for_country(country).unwrap(), year) ==> {
        let owners = owners_for_country(country).unwrap();
        let (o, i) = first_reign(owners, year);
        reign_count(owners[o].1, i, year) <= i32::MAX
    }
}

/// A Roman time: the hour of the day counted in daylight and night hours
/// from sunrise, and the date as the Romans would count it.
pub struct RomanTime {
    day: u32,
    month: u32,
    year: i32,
    hour: i32,
    progress_num: i64,
    progress_den: i64,
    daylight_seconds: i64,
}

impl View for RomanTime {
    type V = RomanTimeModel;

    closed spec fn view(&self) -> RomanTimeModel {
        RomanTimeModel {
            year: self.year as int,
            month: self.month as int,
            day: self.day as int,
            hour: self.hour as int,
            progress_num: self.progress_num as int,
            progress_den: self.progress_den as int,
            daylight_seconds: self.daylight_seconds as int,
        }
    }
}

/// Splits `time_since` seconds of a period of `total_length` seconds into
/// `hour_amount` equal hours.
fn hour_breakdown(time_since: i64, total_length: i64, hour_amount: u8) -> (parts: (i32, i64, i64))
    requires
        0 <= time_since <= total_length <= max_span(),
        1 <= hour_amount <= 12,
    ensures
        (parts.0 as int, parts.1 as int, parts.2 as int)
            == spec_hour_breakdown(time_since as int, total_length as int, hour_amount as int),
        0 <= parts.0 <= hour_amount,
        time_since < total_length ==> parts.0 < hour_amount,
        (parts.2 == 0 && parts.1 == 0) || (0 <= parts.1 < parts.2),
        parts.2 == 0 || parts.2 == total_length,
{
    if total_length == 0 {
        (0, 0, 0)
    } else {
        let amount = hour_amount as i64;
        assert(0 <= time_since * amount <= total_length * amount <= 12 * max_span()) by (nonlinear_arith)
            requires
                0 <= time_since <= total_length <= max_span(),
                1 <= amount <= 12;
        let scaled = time_since * amount;
        proof {
            vstd::arithmetic::div_mod::lemma_div_is_ordered(scaled as int, total_length * amount, total_length as int);
            vstd::arithmetic::div_mod::lemma_div_multiples_vanish(amount as int, total_length as int);
            assert(total_length * amount == amount * total_length) by (nonlinear_arith);
            vstd::arithmetic::div_mod::lemma_div_pos_is_pos(scaled as int, total_length as int);
            if time_since < total_length {
                assert(scaled < total_length * amount) by (nonlinear_arith)
                    requires scaled == time_since * amount, time_since < total_length, amount >= 1;
                vstd::arithmetic::div_mod::lemma_div_by_multiple_is_strongly_ordered(
                    scaled as int, total_length * amount, amount as int, total_length as int);
            }
        }
        let hour = scaled / total_length;
        (hour as i32, scaled % total_length, total_length)
    }
}

impl RomanTime {
    #[verifier::type_invariant]
    spec fn well_formed(self) -> bool {
        is_well_formed(self@)
    }

    /// The Roman time at wall-clock `time`, on a day whose sunrise and sunset
    /// fall at wall-clock `sunrise` and `sunset` on the same clock.
    pub fn new(time: LocalDateTime, sunrise: LocalDateTime, sunset: LocalDateTime) -> (rt: RomanTime)
        requires
            can_make_roman_time(time, sunrise, sunset),
        ensures
            rt@ == spec_roman_time(time, sunrise, sunset),
    {
        let t = naive_timestamp(&time);
        let sr = naive_timestamp(&sunrise);
        let ss = naive_timestamp(&sunset);
        let midnight_today = naive_timestamp(
            &LocalDateTime { year: time.year, month: time.month, day: time.day, hour: 0, minute: 0, second: 0 },
        );
        proof {
            lemma_local_seconds_bounds(time);
            lemma_local_seconds_bounds(sunrise);
            lemma_local_seconds_bounds(sunset);
        }
        let (hour, progress_num, progress_den) = if t < sr {
            let (h, num, den) = hour_breakdown(t - midnight_today, sr - midnight_today, 6);
            (h + 6 + 12, num, den)
        } else if t > ss {
            let midnight_tomorrow = midnight_today + 86400;
            let (h, num, den) = hour_breakdown(t - ss, midnight_tomorrow - ss, 6);
            (h + 12, num, den)
        } else {
            hour_breakdown(t - sr, ss - sr, 12)
        };
        let (year, month, day) = if t < sr {
            proof {
                lemma_date_before(time.year as int, time.month as int, time.day as int);
            }
            naive_previous_date(time.year, time.month, time.day)
        } else {
            (time.year, time.month, time.day)
        };
        RomanTime { day, month, year, hour, progress_num, progress_den, daylight_seconds: ss - sr }
    }

    /// The Roman time at wall-clock `time` with the given sunrise and sunset,
    /// or `None` where no Roman time can be made of them.
    pub fn try_new(time: LocalDateTime, sunrise: LocalDateTime, sunset: LocalDateTime) -> (rt: Option<RomanTime>)
        ensures
            match rt {
                Some(rt) => can_make_roman_time(time, sunrise, sunset) && rt@ == spec_roman_time(time, sunrise, sunset),
                None => !can_make_roman_time(time, sunrise, sunset),
            },
    {
        if !time.is_valid() || !sunrise.is_valid() || !sunset.is_valid() {
            return None;
        }
        let t = naive_timestamp(&time);
        let sr = naive_timestamp(&sunrise);
        let ss = naive_timestamp(&sunset);
        let first_date = time.year == MIN_YEAR && time.month == 1 && time.day == 1;
        let last_date = time.year == MAX_YEAR && time.month == 12 && time.day == 31;
        if t < sr && first_date {
            return None;
        }
        if sr <= t && ss < t && last_date {
            return None;
        }
        Some(RomanTime::new(time, sunrise, sunset))
    }

    /// The Roman year, as counted from the date.
    pub fn year(&self) -> (y: i32)
        ensures
            y == self@.year,
    {
        self.year
    }

    /// The Roman month, 1 to 12.
    pub fn month(&self) -> (m: u32)
        ensures
            m == self@.month,
    {
        self.month
    }

    /// The Roman day of the month.
    pub fn day(&self) -> (d: u32)
        ensures
            d == self@.day,
    {
        self.day
    }

    /// The hour, counted from 0 at sunrise: 0 to 11 in daylight, 12 to 23 at night.
    pub fn hour(&self) -> (h: i32)
        ensures
            h == self@.hour,
    {
        self.hour
    }

    /// How far into its hour the time lies, as numerator and denominator.
    pub fn hour_progress_fraction(&self) -> (f: (i64, i64))
        ensures
            f.0 == self@.progress_num,
            f.1 == self@.progress_den,
    {
        (self.progress_num, self.progress_den)
    }

    /// The seconds from sunrise to sunset.
    pub fn daylight_length_seconds(&self) -> (secs: i64)
        ensures
            secs == self@.daylight_seconds,
    {
        self.daylight_seconds
    }

    /// The seconds of a day that are not daylight.
    pub fn night_length_seconds(&self) -> (secs: i64)
        ensures
            secs == day_seconds() - self@.daylight_seconds,
    {
        proof {
            use_type_invariant(self);
        }
        86400 - self.daylight_seconds
    }

    /// The time from sunrise to sunset.
    pub fn daylight_length(&self) -> (d: chrono::TimeDelta)
        ensures
            d == time_delta_of_seconds(self@.daylight_seconds as i64),
    {
        proof {
            use_type_invariant(self);
        }
        time_delta_seconds(self.daylight_seconds)
    }

    /// The time of a day that is not daylight: a day of 86400 seconds less
    /// the daylight.
    pub fn night_length(&self) -> (d: chrono::TimeDelta)
        ensures
            d == time_delta_difference(
                time_delta_of_seconds(86400),
                time_delta_of_seconds(self@.daylight_seconds as i64),
            ),
            d == time_delta_of_seconds((day_seconds() - self@.daylight_seconds) as i64),
    {
        proof {
            use_type_invariant(self);
        }
        let day = time_delta_seconds(86400);
        let daylight = self.daylight_length();
        proof {
            assert(day == time_delta_of_seconds(86400i64) && daylight == time_delta_of_seconds(self.daylight_seconds));
        }
        time_delta_sub(day, daylight)
    }

    /// The year of the reign in the country with ISO 3166 code
    /// `country_iso_3166` ("5th year of Paul Keating"), or the plain year.
    pub fn year_string(&self, country_iso_3166: &str) -> (s: String)
        requires
            has_year_text(country_iso_3166@, self@.year),
        ensures
            s@ == year_text(country_iso_3166@, self@.year),
    {
        let owners = match get_owners_for_country(country_iso_3166) {
            Some(owners) => owners,
            None => return integer_string(self.year),
        };
        match find_reign(&owners, self.year) {
            Some((o, i, year_count)) => {
                let ghost chart = owners_for_country(country_iso_3166@).unwrap();
                proof {
                    let (o2, i2) = first_reign(chart, self@.year);
                    lemma_first_reign_unique(chart, self@.year, o as int, i as int, o2, i2);
                    lemma_country_years_have_one_reign(country_iso_3166@, self@.year);
                    lemma_years_before_nonnegative(chart, o as int, i as int);
                }
                let mut s = ordinal_string(year_count as usize);
                s.append(" year of ");
                s.append(owners[o].owner);
                s
            },
            None => integer_string(self.year),
        }
    }

    /// The date counted the Roman way ("6th day before the Kalends of February").
    pub fn date_string(&self) -> (s: String)
        ensures
            s@ == date_text(self@.year, self@.month, self@.day),
    {
        proof {
            use_type_invariant(self);
        }
        let is_full_month = self.month == 1 || self.month == 3 || self.month == 5 || self.month == 7
            || self.month == 8 || self.month == 10 || self.month == 12;
        let month_string = month_name(self.month);
        if self.day == 1 {
            let mut s = String::from_str("Kalends of ");
            s.append(month_string);
            return s;
        }
        let nones_date: u32 = if is_full_month { 7 } else { 5 };
        if self.day <= nones_date {
            let remaining = nones_date - self.day;
            if remaining == 0 {
                let mut s = String::from_str("Nones of ");
                s.append(month_string);
                return s;
            } else if remaining == 1 {
                let mut s = String::from_str("day before the Nones of ");
                s.append(month_string);
                return s;
            }
            let mut s = ordinal_string(remaining as usize + 1);
            s.append(" day before the Nones of ");
            s.append(month_string);
            return s;
        }
        let ides_date: u32 = if is_full_month { 15 } else { 13 };
        if self.day <= ides_date {
            let remaining = ides_date - self.day;
            if remaining == 0 {
                let mut s = String::from_str("Ides of ");
                s.append(month_string);
                return s;
            } else if remaining == 1 {
                let mut s = String::from_str("day before the Ides of ");
                s.append(month_string);
                return s;
            }
            let mut s = ordinal_string(remaining as usize + 1);
            s.append(" day before the Ides of ");
            s.append(month_string);
            return s;
        }
        // once the Ides have passed, the days count down to the next month's
        // Kalends; December's next month is January
        let next_month = self.month % 12 + 1;
        let next_month_name = month_name(next_month);
        let leap_year = self.year % 4 == 0 && (self.year % 100 != 0 || self.year % 400 == 0);
        let days_in_month: u32 = if self.month == 2 {
            if leap_year { 29 } else { 28 }
        } else if self.month == 4 || self.month == 6 || self.month == 9 || self.month == 11 {
            30
        } else {
            31
        };
        let remaining = days_in_month - self.day;
        if remaining == 0 {
            let mut s = String::from_str("day before the Kalends of ");
            s.append(next_month_name);
            return s;
        }
        let mut s = ordinal_string(remaining as usize + 2);
        s.append(" day before the Kalends of ");
        s.append(next_month_name);
        s
    }

    /// The hour in words ("less than half of the first daylight hour").
    pub fn hour_string(&self) -> (s: String)
        ensures
            s@ == hour_text(self@),
    {
        proof {
            use_type_invariant(self);
        }
        let hour = self.hour + 1;
        let num = self.progress_num;
        let den = self.progress_den;
        let progress_part = if den > 0 && 4 * num <= den {
            "less than a quarter"
        } else if den > 0 && 2 * num <= den {
            "less than half"
        } else if den > 0 && 4 * num <= 3 * den {
            "less than three quarters"
        } else {
            "more than three quarters"
        };
        let night_time = hour >= 13;
        let hour = if hour > 12 { hour - 12 } else { hour };
        let mut s = String::from_str(progress_part);
        s.append(" of the ");
        let ordinal = ordinal_string(hour as usize);
        s.append(ordinal.as_str());
        s.append(" ");
        s.append(if night_time { "night" } else { "daylight" });
        s.append(" hour");
        s
    }

    /// The whole Roman time in words: hour, date and year.
    pub fn to_string(&self, country_iso_3166: &str) -> (s: String)
        requires
            has_year_text(country_iso_3166@, self@.year),
        ensures
            s@ == hour_text(self@) + " of "@ + date_text(self@.year, self@.month, self@.day) + " "@
                + year_text(country_iso_3166@, self@.year),
    {
        let mut s = self.hour_string();
        s.append(" of ");
        let date = self.date_string();
        s.append(date.as_str());
        s.append(" ");
        let year = self.year_string(country_iso_3166);
        s.append(year.as_str());
        s
    }
}

/// The hour and the fraction reassemble the time: `hour * total + num`
/// is `since * amount`, the fraction is below one, and the hour lies within
/// the period (below `amount` unless `since` is the whole period).
pub proof fn lemma_hour_breakdown(since: int, total: int, amount: int)
    requires
        0 <= since <= total,
        amount >= 1,
    ensures
        ({
            let (hour, num, den) = spec_hour_breakdown(since, total, amount);
            &&& total > 0 ==> den == total && hour * total + num == since * amount && 0 <= num < total
            &&& total == 0 ==> hour == 0 && num == 0 && den == 0
            &&& 0 <= hour <= amount
            &&& since < total ==> hour < amount
        }),
{
    if total > 0 {
        let scaled = since * amount;
        vstd::arithmetic::div_mod::lemma_fundamental_div_mod(scaled, total);
        assert(0 <= scaled <= total * amount) by (nonlinear_arith)
            requires 0 <= since <= total, amount >= 1, scaled == since * amount;
        vstd::arithmetic::div_mod::lemma_div_is_ordered(scaled, total * amount, total);
        vstd::arithmetic::div_mod::lemma_div_multiples_vanish(amount, total);
        assert(total * amount == amount * total) by (nonlinear_arith);
        vstd::arithmetic::div_mod::lemma_div_pos_is_pos(scaled, total);
        if since < total {
            assert(scaled < total * amount) by (nonlinear_arith)
                requires scaled == since * amount, since < total, amount >= 1;
            vstd::arithmetic::div_mod::lemma_div_by_multiple_is_strongly_ordered(scaled, total * amount, amount, total);
        }
        assert((scaled / total) * total == total * (scaled / total)) by (nonlinear_arith);
    }
}

/// The hours follow the sun. Before sunrise a time falls in one of the last
/// six night hours (18 to 23) and on the day before its calendar date; from
/// sunrise to sunset it falls in the twelve daylight hours (0 to 11, with 12
/// only at the instant of sunset); after sunset it falls in one of the first
/// six night hours (12 to 17); from sunrise on the date is the calendar date;
/// and the daylight lasts from sunrise to sunset. Every Roman time so made is
/// well formed.
pub proof fn lemma_hours_follow_the_sun(time: LocalDateTime, sunrise: LocalDateTime, sunset: LocalDateTime)
    requires
        is_valid_local(time),
        is_valid_local(sunrise),
        is_valid_local(sunset),
        local_seconds(time) < local_seconds(sunrise)
            ==> !is_first_date(time.year as int, time.month as int, time.day as int),
    ensures
        ({
            let m = spec_roman_time(time, sunrise, sunset);
            let t = local_seconds(time);
            let sr = local_seconds(sunrise);
            let ss = local_seconds(sunset);
            &&& is_well_formed(m)
            &&& t < sr ==> 18 <= m.hour <= 23 && days_from_ce(m.year, m.month, m.day)
                == days_from_ce(time.year as int, time.month as int, time.day as int) - 1
            &&& sr <= t <= ss ==> 0 <= m.hour <= 12 && (t < ss ==> m.hour <= 11)
            &&& sr <= t && ss < t ==> 12 <= m.hour <= 17
            &&& sr <= t ==> m.year == time.year && m.month == time.month && m.day == time.day
            &&& m.daylight_seconds == ss - sr
        }),
{
    lemma_local_seconds_bounds(time);
    lemma_local_seconds_bounds(sunrise);
    lemma_local_seconds_bounds(sunset);
    let t = local_seconds(time);
    let sr = local_seconds(sunrise);
    let ss = local_seconds(sunset);
    let midnight = t - seconds_of_day(time);
    if t < sr {
        lemma_hour_breakdown(t - midnight, sr - midnight, 6);
        lemma_date_before(time.year as int, time.month as int, time.day as int);
    } else if t > ss {
        lemma_hour_breakdown(t - ss, midnight + 86400 - ss, 6);
    } else {
        lemma_hour_breakdown(t - sr, ss - sr, 12);
    }
}

/// The daylight and the night of a Roman time together fill one day:
/// `daylight_length_seconds` and `night_length_seconds` add up to 86400.
pub proof fn lemma_daylight_and_night_fill_a_day(m: RomanTimeModel)
    ensures
        m.daylight_seconds + (day_seconds() - m.daylight_seconds) == day_seconds(),
{
}

/// The hour named in words counts from the first to the 12th of its part of
/// the day, and it is a night hour exactly when the hour is 12 or later.
pub proof fn lemma_hour_text_counts_to_twelve(m: RomanTimeModel)
    requires
        is_well_formed(m),
    ensures
        ({
            let hour = m.hour + 1;
            let hour_of_part = if hour > 12 { hour - 12 } else { hour };
            &&& 1 <= hour_of_part <= 12
            &&& (hour >= 13) == (m.hour >= 12)
            &&& hour_of_part == m.hour % 12 + 1
        }),
{
}

/// The whole time in words is never empty, whatever the time and country.
pub proof fn lemma_time_text_is_never_empty(m: RomanTimeModel, country: Seq<char>)
    ensures
        (hour_text(m) + " of "@ + date_text(m.year, m.month, m.day) + " "@ + year_text(country, m.year)).len() > 0,
{
    reveal_strlit(" of ");
}

/// Roman times ordered by their hour, then by how far into the hour they lie
/// (fractions compared by cross-multiplying).
pub open spec fn is_not_later(m1: RomanTimeModel, m2: RomanTimeModel) -> bool {
    m1.hour < m2.hour || (m1.hour == m2.hour && m1.progress_num * m2.progress_den
        <= m2.progress_num * m1.progress_den)
}

/// Sunrise and sunset fall within the calendar day of `time`, sunrise first.
pub open spec fn has_ordinary_sun(time: LocalDateTime, sunrise: LocalDateTime, sunset: LocalDateTime) -> bool {
    let midnight = local_seconds(time) - seconds_of_day(time);
    midnight < local_seconds(sunrise) < local_seconds(sunset) < midnight + day_seconds()
}

proof fn lemma_breakdown_ordered(s1: int, s2: int, total: int, amount: int)
    requires
        0 <= s1 <= s2 <= total,
        total > 0,
        amount >= 1,
    ensures
        ({
            let b1 = spec_hour_breakdown(s1, total, amount);
            let b2 = spec_hour_breakdown(s2, total, amount);
            &&& b1.2 == total && b2.2 == total
            &&& b1.0 < b2.0 || (b1.0 == b2.0 && b1.1 <= b2.1)
        }),
{
    lemma_hour_breakdown(s1, total, amount);
    lemma_hour_breakdown(s2, total, amount);
    assert(s1 * amount <= s2 * amount) by (nonlinear_arith)
        requires s1 <= s2, amount >= 1;
    vstd::arithmetic::div_mod::lemma_div_is_ordered(s1 * amount, s2 * amount, total);
}

proof fn lemma_equal_den_not_later(m1: RomanTimeModel, m2: RomanTimeModel)
    requires
        m1.progress_den == m2.progress_den,
        m1.progress_den >= 0,
        m1.hour < m2.hour || (m1.hour == m2.hour && m1.progress_num <= m2.progress_num),
    ensures
        is_not_later(m1, m2),
{
    if m1.hour == m2.hour {
        assert(m1.progress_num * m2.progress_den <= m2.progress_num * m1.progress_den) by (nonlinear_arith)
            requires
                m1.progress_den == m2.progress_den,
                m1.progress_den >= 0,
                m1.progress_num <= m2.progress_num;
    }
}

/// Within one calendar date, with the same sunrise and sunset, a later time on
/// the same side of sunrise has the same Roman date and a hour and fraction of
/// the hour that are not earlier.
pub proof fn lemma_later_in_the_day_is_later(
    time1: LocalDateTime,
    time2: LocalDateTime,
    sunrise: LocalDateTime,
    sunset: LocalDateTime,
)
    requires
        can_make_roman_time(time1, sunrise, sunset),
        can_make_roman_time(time2, sunrise, sunset),
        time1.year == time2.year && time1.month == time2.month && time1.day == time2.day,
        has_ordinary_sun(time1, sunrise, sunset),
        local_seconds(time1) <= local_seconds(time2),
        (local_seconds(time1) < local_seconds(sunrise)) == (local_seconds(time2) < local_seconds(sunrise)),
    ensures
        ({
            let m1 = spec_roman_time(time1, sunrise, sunset);
            let m2 = spec_roman_time(time2, sunrise, sunset);
            &&& m1.year == m2.year && m1.month == m2.month && m1.day == m2.day
            &&& is_not_later(m1, m2)
        }),
{
    let m1 = spec_roman_time(time1, sunrise, sunset);
    let m2 = spec_roman_time(time2, sunrise, sunset);
    let t1 = local_seconds(time1);
    let t2 = local_seconds(time2);
    let sr = local_seconds(sunrise);
    let ss = local_seconds(sunset);
    let midnight = t1 - seconds_of_day(time1);
    assert(midnight == t2 - seconds_of_day(time2));
    if t1 < sr {
        lemma_breakdown_ordered(t1 - midnight, t2 - midnight, sr - midnight, 6);
        lemma_equal_den_not_later(m1, m2);
    } else if t1 > ss {
        lemma_breakdown_ordered(t1 - ss, t2 - ss, midnight + 86400 - ss, 6);
        lemma_equal_den_not_later(m1, m2);
    } else if t2 <= ss {
        lemma_breakdown_ordered(t1 - sr, t2 - sr, ss - sr, 12);
        lemma_equal_den_not_later(m1, m2);
    } else {
        // time1 in daylight, time2 after sunset
        lemma_hour_breakdown(t1 - sr, ss - sr, 12);
        lemma_hour_breakdown(t2 - ss, midnight + 86400 - ss, 6);
        if m1.hour == 12 {
            assert(t1 == ss);
            vstd::arithmetic::div_mod::lemma_mod_multiples_basic(12, ss - sr);
            assert((ss - sr) * 12 == 12 * (ss - sr)) by (nonlinear_arith);
            assert(m1.progress_num == 0);
            assert(m1.progress_num * m2.progress_den <= m2.progress_num * m1.progress_den) by (nonlinear_arith)
                requires m1.progress_num == 0, m2.progress_num >= 0, m1.progress_den >= 0;
        }
    }
}

/// A Roman day runs from one sunrise to the next: a time on or after sunrise
/// of a date, and a time before sunrise of the next date (each with its own
/// date's sunrise and sunset), have the same Roman date, and the second is
/// in a later hour.
pub proof fn lemma_roman_day_spans_midnight(
    time1: LocalDateTime,
    sunrise1: LocalDateTime,
    sunset1: LocalDateTime,
    time2: LocalDateTime,
    sunrise2: LocalDateTime,
    sunset2: LocalDateTime,
)
    requires
        can_make_roman_time(time1, sunrise1, sunset1),
        can_make_roman_time(time2, sunrise2, sunset2),
        date_before(time2.year as int, time2.month as int, time2.day as int)
            == (time1.year as int, time1.month as int, time1.day as int),
        has_ordinary_sun(time1, sunrise1, sunset1),
        has_ordinary_sun(time2, sunrise2, sunset2),
        local_seconds(sunrise1) <= local_seconds(time1),
        local_seconds(time2) < local_seconds(sunrise2),
    ensures
        ({
            let m1 = spec_roman_time(time1, sunrise1, sunset1);
            let m2 = spec_roman_time(time2, sunrise2, sunset2);
            &&& m1.year == m2.year && m1.month == m2.month && m1.day == m2.day
            &&& m1.hour < m2.hour
            &&& is_not_later(m1, m2)
        }),
{
    lemma_hours_follow_the_sun(time1, sunrise1, sunset1);
    lemma_hours_follow_the_sun(time2, sunrise2, sunset2);
}

/// In a country with a reign chart every `i32` year has its reign, and no
/// two ranges of the chart hold the same year.
#[verifier::spinoff_prover]
#[verifier::rlimit(40)]
pub proof fn lemma_country_years_have_one_reign(country: Seq<char>, year: int)
    requires
        owners_for_country(country) is Some,
        i32::MIN <= year <= i32::MAX,
    ensures
        has_reign(owners_for_country(country).unwrap(), year),
        tiles_up_to(owners_for_country(country).unwrap(), i32::MAX as int),
{
    lemma_charts_are_in_order();
    reveal_strlit("AU");
    reveal_strlit("US");
    if country == "AU"@ {
        lemma_year_owners_tile_all_years(au_office_chart());
    } else {
        lemma_year_owners_tile_all_years(us_office_chart());
    }
}

/// From one year to the next under the same owner, the year of the reign in
/// words counts on by one, also across a break in the owner's terms
/// ("second year of Robert Menzies" in 1941, "third year of Robert Menzies"
/// in 1950).
pub proof fn lemma_year_text_counts_on(country: Seq<char>, year: int)
    requires
        owners_for_country(country) is Some,
        i32::MIN <= year < i32::MAX,
        first_reign(owners_for_country(country).unwrap(), year).0
            == first_reign(owners_for_country(country).unwrap(), year + 1).0,
    ensures
        ({
            let owners = owners_for_country(country).unwrap();
            let (o, j) = first_reign(owners, year);
            let count = reign_count(owners[o].1, j, year);
            &&& count >= 1
            &&& year_text(country, year) == ordinal_text(count as nat) + " year of "@ + owners[o].0
            &&& year_text(country, year + 1) == ordinal_text((count + 1) as nat) + " year of "@ + owners[o].0
        }),
{
    lemma_charts_are_in_order();
    let owners = owners_for_country(country).unwrap();
    lemma_country_years_have_one_reign(country, year);
    lemma_country_years_have_one_reign(country, year + 1);
    if country == "AU"@ {
        lemma_year_owners_count_on(au_office_chart(), year);
    } else {
        lemma_year_owners_count_on(us_office_chart(), year);
    }
    let (o, j) = first_reign(owners, year);
    lemma_years_before_nonnegative(owners, o, j);
}

proof fn lemma_years_before_nonnegative(owners: OwnerChart, o: int, j: int)
    requires
        tiles_up_to(owners, i32::MAX as int),
        0 <= o < owners.len(),
        0 <= j <= owners[o].1.len(),
    ensures
        years_before(owners[o].1, j) >= 0,
    decreases j,
{
    if j > 0 {
        lemma_years_before_nonnegative(owners, o, j - 1);
    }
}

/// The months whose Nones fall on the 7th and Ides on the 15th are exactly
/// the months of 31 days.
pub proof fn lemma_full_months_have_31_days(y: int, m: int)
    requires
        1 <= m <= 12,
    ensures
        is_full_month(m) <==> days_in_month(y, m) == 31,
{
}

/// In a month of 31 days the Nones fall on the 7th and the Ides on the 15th;
/// in any other month on the 5th and the 13th. The day before each is "the
/// day before" it, and the 1st is the Kalends.
pub proof fn lemma_nones_and_ides(y: int, m: int)
    requires
        1 <= m <= 12,
    ensures
        date_text(y, m, 1) == "Kalends of "@ + month_name_text(m),
        days_in_month(y, m) == 31 ==> date_text(y, m, 7) == "Nones of "@ + month_name_text(m)
            && date_text(y, m, 6) == "day before the Nones of "@ + month_name_text(m)
            && date_text(y, m, 15) == "Ides of "@ + month_name_text(m)
            && date_text(y, m, 14) == "day before the Ides of "@ + month_name_text(m),
        days_in_month(y, m) != 31 ==> date_text(y, m, 5) == "Nones of "@ + month_name_text(m)
            && date_text(y, m, 4) == "day before the Nones of "@ + month_name_text(m)
            && date_text(y, m, 13) == "Ides of "@ + month_name_text(m)
            && date_text(y, m, 12) == "day before the Ides of "@ + month_name_text(m),
        date_text(y, m, days_in_month(y, m)) == "day before the Kalends of "@ + month_name_text(
            if m == 12 { 1 } else { m + 1 },
        ),
{
    lemma_full_months_have_31_days(y, m);
}

/// The hour in words names a daylight hour exactly for the hours 0 to 11 and
/// a night hour for 12 to 23, and counts each from the first to the 12th.
pub proof fn lemma_hour_text_names_its_part(m: RomanTimeModel)
    requires
        is_well_formed(m),
    ensures
        hour_text(m) == progress_text(m.progress_num, m.progress_den) + " of the "@ + ordinal_text(
            (m.hour % 12 + 1) as nat,
        ) + " "@ + (if m.hour >= 12 { "night"@ } else { "daylight"@ }) + " hour"@,
{
}

/// From sunrise to before sunset the hour is a daylight hour; before sunrise
/// and after sunset it is a night hour.
pub proof fn lemma_hour_words_follow_the_sun(time: LocalDateTime, sunrise: LocalDateTime, sunset: LocalDateTime)
    requires
        can_make_roman_time(time, sunrise, sunset),
    ensures
        ({
            let m = spec_roman_time(time, sunrise, sunset);
            let t = local_seconds(time);
            let words = progress_text(m.progress_num, m.progress_den) + " of the "@ + ordinal_text(
                (m.hour % 12 + 1) as nat,
            ) + " "@;
            &&& local_seconds(sunrise) <= t < local_seconds(sunset) ==> hour_text(m) == words + "daylight"@ + " hour"@
            &&& (t < local_seconds(sunrise) || (local_seconds(sunrise) <= t && local_seconds(sunset) < t))
                ==> hour_text(m) == words + "night"@ + " hour"@
        }),
{
    lemma_hours_follow_the_sun(time, sunrise, sunset);
    lemma_hour_text_names_its_part(spec_roman_time(time, sunrise, sunset));
}

/// A Roman time can be made of every three valid wall-clock times but a time
/// before sunrise on the first date `chrono` holds (`MIN_YEAR`-01-01) and a
/// time after sunset on its last (`MAX_YEAR`-12-31).
pub proof fn lemma_roman_time_can_be_made(time: LocalDateTime, sunrise: LocalDateTime, sunset: LocalDateTime)
    ensures
        can_make_roman_time(time, sunrise, sunset) <==> {
            &&& is_valid_local(time)
            &&& is_valid_local(sunrise)
            &&& is_valid_local(sunset)
            &&& !(local_seconds(time) < local_seconds(sunrise) && time.year == MIN_YEAR && time.month == 1
                && time.day == 1)
            &&& !(local_seconds(sunrise) <= local_seconds(time) && local_seconds(sunset) < local_seconds(time)
                && time.year == MAX_YEAR && time.month == 12 && time.day == 31)
        },
{
}

/// Before sunrise on the first of January of any year after `chrono`'s
/// first, the Roman time can be made and falls on the 31st of December of the
/// year before.
pub proof fn lemma_new_year_before_sunrise(time: LocalDateTime, sunrise: LocalDateTime, sunset: LocalDateTime)
    requires
        is_valid_local(time),
        is_valid_local(sunrise),
        is_valid_local(sunset),
        time.month == 1 && time.day == 1,
        time.year > MIN_YEAR,
        local_seconds(time) < local_seconds(sunrise),
    ensures
        can_make_roman_time(time, sunrise, sunset),
        spec_roman_time(time, sunrise, sunset).year == time.year - 1,
        spec_roman_time(time, sunrise, sunset).month == 12,
        spec_roman_time(time, sunrise, sunset).day == 31,
{
}

/// A country has a reign chart exactly when its code is "AU" or "US"; for
/// every other code the year in words is the plain year.
pub proof fn lemma_only_au_and_us_have_charts(country: Seq<char>, year: int)
    ensures
        owners_for_country(country) is Some <==> (country == "AU"@ || country == "US"@),
        owners_for_country("AU"@) == Some(year_owners_of(au_office_chart())),
        owners_for_country("US"@) == Some(year_owners_of(us_office_chart())),
        !(country == "AU"@ || country == "US"@) ==> year_text(country, year) == integer_text(year),
{
    reveal_strlit("AU");
    reveal_strlit("US");
    assert("AU"@ != "US"@) by {
        assert("AU"@[0] != "US"@[0]);
    }
}

/// The number of the day of the month on which the Nones fall.
pub open spec fn nones_day(y: int, m: int) -> int {
    if days_in_month(y, m) == 31 { 7 } else { 5 }
}

/// The number of the day of the month on which the Ides fall.
pub open spec fn ides_day(y: int, m: int) -> int {
    if days_in_month(y, m) == 31 { 15 } else { 13 }
}

/// Two days before each mark, both ends counted, is its "third day before".
pub proof fn lemma_third_day_before_the_marks(y: int, m: int)
    requires
        1 <= m <= 12,
    ensures
        date_text(y, m, nones_day(y, m) - 2) == "third"@ + " day before the Nones of "@ + month_name_text(m),
        date_text(y, m, ides_day(y, m) - 2) == "third"@ + " day before the Ides of "@ + month_name_text(m),
        date_text(y, m, days_in_month(y, m) - 1) == "third"@ + " day before the Kalends of "@
            + month_name_text(if m == 12 { 1 } else { m + 1 }),
{
    lemma_full_months_have_31_days(y, m);
}

/// Before the Nones, each earlier day counts one more day before them.
#[verifier::spinoff_prover]
pub proof fn lemma_days_count_down_to_the_nones(y: int, m: int, d: int)
    requires
        1 <= m <= 12,
        2 <= d,
        d + 1 <= nones_day(y, m) - 2,
    ensures
        exists|k: nat|
            k >= 3 && date_text(y, m, d) == ordinal_text(k + 1) + " day before the Nones of "@ + month_name_text(m)
                && date_text(y, m, d + 1) == #[trigger] ordinal_text(k) + " day before the Nones of "@
                + month_name_text(m),
{
    lemma_full_months_have_31_days(y, m);
    let k = (nones_day(y, m) - d) as nat;
    assert(date_text(y, m, d) == ordinal_text(k + 1) + " day before the Nones of "@ + month_name_text(m));
    assert(date_text(y, m, d + 1) == ordinal_text(k) + " day before the Nones of "@ + month_name_text(m));
}

/// Between the Nones and the Ides, each earlier day counts one more day
/// before the Ides.
#[verifier::spinoff_prover]
pub proof fn lemma_days_count_down_to_the_ides(y: int, m: int, d: int)
    requires
        1 <= m <= 12,
        nones_day(y, m) + 1 <= d,
        d + 1 <= ides_day(y, m) - 2,
    ensures
        exists|k: nat|
            k >= 3 && date_text(y, m, d) == ordinal_text(k + 1) + " day before the Ides of "@ + month_name_text(m)
                && date_text(y, m, d + 1) == #[trigger] ordinal_text(k) + " day before the Ides of "@
                + month_name_text(m),
{
    lemma_full_months_have_31_days(y, m);
    let k = (ides_day(y, m) - d) as nat;
    assert(date_text(y, m, d) == ordinal_text(k + 1) + " day before the Ides of "@ + month_name_text(m));
    assert(date_text(y, m, d + 1) == ordinal_text(k) + " day before the Ides of "@ + month_name_text(m));
}

/// After the Ides, each earlier day counts one more day before the Kalends of
/// the next month.
#[verifier::spinoff_prover]
pub proof fn lemma_days_count_down_to_the_kalends(y: int, m: int, d: int)
    requires
        1 <= m <= 12,
        ides_day(y, m) + 1 <= d,
        d + 1 <= days_in_month(y, m) - 1,
    ensures
        exists|k: nat|
            k >= 3 && date_text(y, m, d) == ordinal_text(k + 1) + " day before the Kalends of "@
                + month_name_text(if m == 12 { 1 } else { m + 1 })
                && date_text(y, m, d + 1) == #[trigger] ordinal_text(k) + " day before the Kalends of "@
                + month_name_text(if m == 12 { 1 } else { m + 1 }),
{
    lemma_full_months_have_31_days(y, m);
    let k = (days_in_month(y, m) - d + 1) as nat;
    let next_name = month_name_text(if m == 12 { 1 } else { m + 1 });
    assert(month_name_text(m % 12 + 1) == next_name);
    assert(date_text(y, m, d) == ordinal_text(k + 1) + " day before the Kalends of "@ + next_name);
    assert(date_text(y, m, d + 1) == ordinal_text(k) + " day before the Kalends of "@ + month_name_text(
        if m == 12 { 1 } else { m + 1 },
    ));
}

/// The words for how far into its hour a time lies, in rising order.
pub open spec fn progress_phrases() -> Seq<Seq<char>> {
    seq!["less than a quarter"@, "less than half"@, "less than three quarters"@, "more than three quarters"@]
}

/// A fraction of the hour that is not larger reads words that come no later
/// among the phrases.
pub proof fn lemma_progress_words_rise(n1: int, d1: int, n2: int, d2: int)
    requires
        0 < d1,
        0 < d2,
        0 <= n1,
        n1 * d2 <= n2 * d1,
    ensures
        exists|i: int, j: int|
            0 <= i <= j < 4 && progress_text(n1, d1) == #[trigger] progress_phrases()[i]
                && progress_text(n2, d2) == #[trigger] progress_phrases()[j],
{
    assert(4 * n2 <= d2 ==> 4 * n1 <= d1) by (nonlinear_arith)
        requires 0 < d1, 0 < d2, n1 * d2 <= n2 * d1;
    assert(2 * n2 <= d2 ==> 2 * n1 <= d1) by (nonlinear_arith)
        requires 0 < d1, 0 < d2, n1 * d2 <= n2 * d1;
    assert(4 * n2 <= 3 * d2 ==> 4 * n1 <= 3 * d1) by (nonlinear_arith)
        requires 0 < d1, 0 < d2, n1 * d2 <= n2 * d1;
    let p = progress_phrases();
    let i: int = if 4 * n1 <= d1 { 0 } else if 2 * n1 <= d1 { 1 } else if 4 * n1 <= 3 * d1 { 2 } else { 3 };
    let j: int = if 4 * n2 <= d2 { 0 } else if 2 * n2 <= d2 { 1 } else if 4 * n2 <= 3 * d2 { 2 } else { 3 };
    assert(progress_text(n1, d1) == p[i]);
    assert(progress_text(n2, d2) == p[j]);
}

/// The start of an hour, and each exact quarter, half and three quarters of
/// it, still read "less than" that part; only past three quarters does an
/// hour read "more than three quarters".
pub proof fn lemma_progress_words_at_the_quarters(n: int, d: int)
    requires
        0 < d,
        0 <= n < d,
    ensures
        progress_text(0, d) == progress_phrases()[0],
        4 * n == d ==> progress_text(n, d) == progress_phrases()[0],
        2 * n == d ==> progress_text(n, d) == progress_phrases()[1],
        4 * n == 3 * d ==> progress_text(n, d) == progress_phrases()[2],
        4 * n > 3 * d ==> progress_text(n, d) == progress_phrases()[3],
{
}

} // verus!
