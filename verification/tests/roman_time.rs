use chrono::{DateTime, Datelike, NaiveDateTime, TimeZone, Timelike};
use roman_time::{LocalDateTime, RomanTime};

const BROKEN_HILL_LAT: f64 = -31.9596256;
const BROKEN_HILL_LNG: f64 = 141.4575006;

fn local(dt: NaiveDateTime) -> LocalDateTime {
    LocalDateTime {
        year: dt.year(),
        month: dt.month(),
        day: dt.day(),
        hour: dt.hour(),
        minute: dt.minute(),
        second: dt.second(),
    }
}

/// The Roman time at `time`, with the sun's times at the given place.
fn roman_time_at<Tz: TimeZone>(time: DateTime<Tz>, lat: f64, lng: f64) -> RomanTime {
    #[allow(deprecated)]
    let (sunrise, sunset) = sunrise::sunrise_sunset(lat, lng, time.year(), time.month(), time.day());
    let timezone = time.timezone();
    let sunrise = chrono::Utc.timestamp_opt(sunrise, 0).unwrap().with_timezone(&timezone).naive_local();
    let sunset = chrono::Utc.timestamp_opt(sunset, 0).unwrap().with_timezone(&timezone).naive_local();
    RomanTime::new(local(time.naive_local()), local(sunrise), local(sunset))
}

fn broken_hill(year: i32, month: u32, day: u32, hour: u32, minute: u32, second: u32) -> RomanTime {
    let time = chrono_tz::Australia::Broken_Hill
        .with_ymd_and_hms(year, month, day, hour, minute, second)
        .unwrap();
    roman_time_at(time, BROKEN_HILL_LAT, BROKEN_HILL_LNG)
}

fn progress(rt: &RomanTime) -> f64 {
    let (num, den) = rt.hour_progress_fraction();
    num as f64 / den as f64
}

#[test]
fn broken_hill_before_sunrise() {
    let roman_time = broken_hill(2025, 1, 27, 6, 20, 0);
    assert_eq!(roman_time.day(), 26);
    assert_eq!(roman_time.hour(), 23);
    assert!(progress(&roman_time) > 0.9);
}

#[test]
fn broken_hill_just_after_sunrise() {
    let roman_time = broken_hill(2025, 1, 27, 6, 25, 0);
    assert_eq!(roman_time.day(), 27);
    assert_eq!(roman_time.hour(), 0);
    assert!(progress(&roman_time) < 0.1);
}

#[test]
fn broken_hill_just_after_sunset() {
    let roman_time = broken_hill(2025, 1, 27, 20, 10, 0);
    assert_eq!(roman_time.day(), 27);
    assert_eq!(roman_time.hour(), 12);
    assert!(progress(&roman_time) < 0.1);
}

#[test]
fn broken_hill_solar_noon() {
    let roman_time = broken_hill(2025, 1, 27, 13, 16, 0);
    assert_eq!(roman_time.hour(), 5);
    assert!(progress(&roman_time) > 0.9);
}

#[test]
fn before_sunrise_first_of_month() {
    let roman_time = broken_hill(2025, 1, 1, 1, 0, 0);
    assert_eq!(roman_time.day(), 31);
    assert_eq!(roman_time.month(), 12);
    assert_eq!(roman_time.year(), 2024);
}

#[test]
fn year_string() {
    let roman_time = broken_hill(1996, 1, 27, 12, 45, 0);
    assert_eq!(roman_time.year_string("AU"), "5th year of Paul Keating");

    let roman_time = broken_hill(1941, 2, 1, 1, 0, 0);
    assert_eq!(roman_time.year_string("AU"), "second year of Robert Menzies");

    let roman_time = broken_hill(1951, 2, 1, 1, 0, 0);
    assert_eq!(roman_time.year_string("AU"), "4th year of Robert Menzies");
    assert_eq!(roman_time.year_string("US"), "6th year of Harry S Truman");
}

#[test]
fn date_string() {
    let roman_time = broken_hill(1996, 2, 1, 3, 45, 0);
    assert_eq!(roman_time.date_string(), "day before the Kalends of February");

    let roman_time = broken_hill(1996, 1, 27, 12, 45, 0);
    assert_eq!(roman_time.date_string(), "6th day before the Kalends of February");

    let roman_time = broken_hill(1996, 3, 3, 12, 45, 0);
    assert_eq!(roman_time.date_string(), "5th day before the Nones of March");

    let roman_time = broken_hill(1996, 3, 7, 7, 45, 0);
    assert_eq!(roman_time.date_string(), "Nones of March");

    let roman_time = broken_hill(1996, 3, 15, 7, 45, 0);
    assert_eq!(roman_time.date_string(), "Ides of March");

    let roman_time = broken_hill(1996, 3, 14, 7, 45, 0);
    assert_eq!(roman_time.date_string(), "day before the Ides of March");

    let roman_time = broken_hill(1996, 3, 13, 7, 45, 0);
    assert_eq!(roman_time.date_string(), "third day before the Ides of March");
}

#[test]
fn hour_string() {
    let roman_time = broken_hill(2025, 1, 28, 22, 48, 0);
    assert_eq!(roman_time.hour_string(), "less than a quarter of the 5th night hour");

    let roman_time = broken_hill(1996, 1, 27, 12, 45, 0);
    assert_eq!(roman_time.hour_string(), "less than three quarters of the 6th daylight hour");

    let roman_time = broken_hill(2025, 1, 28, 6, 48, 0);
    assert_eq!(roman_time.hour_string(), "less than half of the first daylight hour");
}

#[test]
fn to_string() {
    for hour in 0..24 {
        for minute in 0..60 {
            for second in 0..60 {
                let roman_time = broken_hill(2025, 1, 28, hour, minute, second);
                assert!(roman_time.to_string("AU").len() > 0);
            }
        }
    }
}

#[test]
fn daylight_length() {
    let roman_time = broken_hill(2025, 1, 28, 6, 48, 0);
    assert_eq!(roman_time.daylight_length().num_seconds() / 12 / 60, 68);
}
