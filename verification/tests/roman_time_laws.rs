use roman_time::terms::{year_owners, OfficeStart};
use roman_time::{find_reign, get_owners_for_country, LocalDateTime, RomanTime, YearOwner, MAX_YEAR, MIN_YEAR};

fn at(year: i32, month: u32, day: u32, hour: u32, minute: u32, second: u32) -> LocalDateTime {
    LocalDateTime { year, month, day, hour, minute, second }
}

/// A day of the given date with sunrise at 06:00 and sunset at 18:00.
fn even_day(year: i32, month: u32, day: u32, hour: u32, minute: u32, second: u32) -> RomanTime {
    RomanTime::new(
        at(year, month, day, hour, minute, second),
        at(year, month, day, 6, 0, 0),
        at(year, month, day, 18, 0, 0),
    )
}

#[test]
fn noon_starts_the_seventh_daylight_hour() {
    let rt = even_day(2020, 6, 10, 12, 0, 0);
    assert_eq!(rt.hour(), 6);
    assert_eq!(rt.hour_progress_fraction(), (0, 43200));
    assert_eq!(rt.hour_string(), "less than a quarter of the 7th daylight hour");
}

#[test]
fn hour_and_fraction_reassemble_the_time() {
    // 07:20 is 4800 s after sunrise; an hour of daylight lasts 3600 s
    let rt = even_day(2020, 6, 10, 7, 20, 0);
    let (num, den) = rt.hour_progress_fraction();
    assert_eq!(rt.hour(), 1);
    assert_eq!(rt.hour() as i64 * den + num, 4800 * 12);
    assert!(0 <= num && num < den);
    assert_eq!(rt.hour_string(), "less than half of the second daylight hour");
}

#[test]
fn each_quarter_of_an_hour_has_its_words() {
    assert_eq!(even_day(2020, 6, 10, 6, 15, 0).hour_string(), "less than a quarter of the first daylight hour");
    assert_eq!(even_day(2020, 6, 10, 6, 15, 1).hour_string(), "less than half of the first daylight hour");
    assert_eq!(even_day(2020, 6, 10, 6, 45, 0).hour_string(), "less than three quarters of the first daylight hour");
    assert_eq!(even_day(2020, 6, 10, 6, 45, 1).hour_string(), "more than three quarters of the first daylight hour");
}

#[test]
fn the_hours_follow_the_sun() {
    for hour in 0..24 {
        let rt = even_day(2020, 6, 10, hour, 30, 0);
        let expected = if hour < 6 {
            // midnight to sunrise: six hours over six night hours
            18 + hour as i32
        } else if hour < 18 {
            hour as i32 - 6
        } else {
            // sunset to midnight: six hours over six night hours
            12 + (hour as i32 - 18)
        };
        assert_eq!(rt.hour(), expected, "at {}:30", hour);
        assert!(rt.hour() >= 0 && rt.hour() <= 23);
        if hour < 6 {
            assert_eq!(rt.day(), 9);
        } else {
            assert_eq!(rt.day(), 10);
        }
    }
}

#[test]
fn sunset_itself_begins_the_first_night_hour() {
    let rt = even_day(2020, 6, 10, 18, 0, 0);
    assert_eq!(rt.hour(), 12);
    assert_eq!(rt.hour_string(), "less than a quarter of the first night hour");
    let rt = even_day(2020, 6, 10, 18, 0, 1);
    assert_eq!(rt.hour(), 12);
    assert_eq!(rt.hour_string(), "less than a quarter of the first night hour");
}

#[test]
fn the_last_night_hour_is_the_12th() {
    let rt = even_day(2020, 6, 10, 5, 59, 59);
    assert_eq!(rt.hour(), 23);
    assert_eq!(rt.hour_string(), "more than three quarters of the 12th night hour");
}

#[test]
fn an_hour_without_length() {
    let time = at(2020, 6, 10, 12, 0, 0);
    let rt = RomanTime::new(time, time, time);
    assert_eq!(rt.hour(), 0);
    assert_eq!(rt.hour_progress_fraction(), (0, 0));
    assert_eq!(rt.daylight_length_seconds(), 0);
    assert_eq!(rt.hour_string(), "more than three quarters of the first daylight hour");
}

#[test]
fn daylight_and_night_fill_a_day() {
    let rt = even_day(2020, 6, 10, 12, 0, 0);
    assert_eq!(rt.daylight_length_seconds(), 43200);
    assert_eq!(rt.daylight_length_seconds() + rt.night_length_seconds(), 86400);
    assert_eq!(rt.daylight_length(), chrono::TimeDelta::seconds(43200));
    assert_eq!(rt.night_length(), chrono::TimeDelta::seconds(43200));
    assert_eq!(rt.night_length(), chrono::TimeDelta::seconds(86400) - rt.daylight_length());
    let rt = RomanTime::new(at(2020, 6, 10, 12, 0, 0), at(2020, 6, 10, 7, 1, 2), at(2020, 6, 10, 17, 3, 4));
    assert_eq!(rt.daylight_length().num_seconds(), 36122);
    assert_eq!(rt.night_length().num_seconds(), 86400 - 36122);
}

#[test]
fn before_sunrise_the_date_is_the_day_before() {
    // into a leap day
    let rt = even_day(1996, 3, 1, 5, 0, 0);
    assert_eq!((rt.year(), rt.month(), rt.day()), (1996, 2, 29));
    // not a leap year
    let rt = even_day(1900, 3, 1, 5, 0, 0);
    assert_eq!((rt.year(), rt.month(), rt.day()), (1900, 2, 28));
    // a leap year by the rule of 400
    let rt = even_day(2000, 3, 1, 5, 0, 0);
    assert_eq!((rt.year(), rt.month(), rt.day()), (2000, 2, 29));
    // into a 30-day month
    let rt = even_day(2021, 5, 1, 0, 0, 0);
    assert_eq!((rt.year(), rt.month(), rt.day()), (2021, 4, 30));
    // after sunrise the date stays
    let rt = even_day(2021, 5, 1, 6, 0, 0);
    assert_eq!((rt.year(), rt.month(), rt.day()), (2021, 5, 1));
}

#[test]
fn sunrise_on_another_day() {
    // the sun's times read on a clock far from the place's own meridian
    let rt = RomanTime::new(at(2020, 6, 10, 1, 0, 0), at(2020, 6, 9, 23, 0, 0), at(2020, 6, 10, 11, 0, 0));
    assert_eq!(rt.hour(), 2);
    assert_eq!(rt.day(), 10);
    assert_eq!(rt.daylight_length_seconds(), 12 * 3600);
}

#[test]
fn try_new_refuses_what_cannot_be_made() {
    let good = at(2020, 6, 10, 12, 0, 0);
    assert!(RomanTime::try_new(good, at(2020, 6, 10, 6, 0, 0), at(2020, 6, 10, 18, 0, 0)).is_some());
    assert!(RomanTime::try_new(at(2021, 2, 29, 12, 0, 0), good, good).is_none());
    assert!(RomanTime::try_new(good, at(2020, 6, 10, 24, 0, 0), good).is_none());
    assert!(RomanTime::try_new(good, good, at(2020, 13, 1, 0, 0, 0)).is_none());
    assert!(RomanTime::try_new(at(MAX_YEAR + 1, 1, 1, 0, 0, 0), good, good).is_none());
    // before sunrise on the first date there is no day before
    let first = at(MIN_YEAR, 1, 1, 3, 0, 0);
    assert!(RomanTime::try_new(first, at(MIN_YEAR, 1, 1, 6, 0, 0), at(MIN_YEAR, 1, 1, 18, 0, 0)).is_none());
    assert!(RomanTime::try_new(first, at(MIN_YEAR, 1, 1, 2, 0, 0), at(MIN_YEAR, 1, 1, 18, 0, 0)).is_some());
    // after sunset on the last date there is no midnight after
    let last = at(MAX_YEAR, 12, 31, 20, 0, 0);
    assert!(RomanTime::try_new(last, at(MAX_YEAR, 12, 31, 6, 0, 0), at(MAX_YEAR, 12, 31, 18, 0, 0)).is_none());
    assert!(RomanTime::try_new(last, at(MAX_YEAR, 12, 31, 6, 0, 0), at(MAX_YEAR, 12, 31, 21, 0, 0)).is_some());
}

#[test]
fn local_date_time_validity() {
    assert!(at(2000, 2, 29, 0, 0, 0).is_valid());
    assert!(!at(1900, 2, 29, 0, 0, 0).is_valid());
    assert!(at(2024, 2, 29, 23, 59, 59).is_valid());
    assert!(!at(2023, 4, 31, 0, 0, 0).is_valid());
    assert!(!at(2023, 1, 0, 0, 0, 0).is_valid());
    assert!(!at(2023, 1, 1, 0, 60, 0).is_valid());
    assert!(!at(2023, 1, 1, 0, 0, 60).is_valid());
    assert!(at(MIN_YEAR, 1, 1, 0, 0, 0).is_valid());
    assert!(!at(MIN_YEAR - 1, 12, 31, 0, 0, 0).is_valid());
}

#[test]
fn the_kalends_nones_and_ides() {
    assert_eq!(even_day(2021, 3, 1, 12, 0, 0).date_string(), "Kalends of March");
    assert_eq!(even_day(2021, 3, 6, 12, 0, 0).date_string(), "day before the Nones of March");
    assert_eq!(even_day(2021, 4, 5, 12, 0, 0).date_string(), "Nones of April");
    assert_eq!(even_day(2021, 4, 2, 12, 0, 0).date_string(), "4th day before the Nones of April");
    assert_eq!(even_day(2021, 4, 13, 12, 0, 0).date_string(), "Ides of April");
    assert_eq!(even_day(2021, 4, 12, 12, 0, 0).date_string(), "day before the Ides of April");
    assert_eq!(even_day(2021, 4, 6, 12, 0, 0).date_string(), "8th day before the Ides of April");
    assert_eq!(even_day(2021, 4, 30, 12, 0, 0).date_string(), "day before the Kalends of May");
    assert_eq!(even_day(2021, 4, 14, 12, 0, 0).date_string(), "18th day before the Kalends of May");
    assert_eq!(even_day(2021, 12, 31, 12, 0, 0).date_string(), "day before the Kalends of January");
    assert_eq!(even_day(2021, 12, 20, 12, 0, 0).date_string(), "13th day before the Kalends of January");
    assert_eq!(even_day(2021, 1, 20, 12, 0, 0).date_string(), "13th day before the Kalends of February");
    assert_eq!(even_day(2021, 1, 21, 12, 0, 0).date_string(), "12th day before the Kalends of February");
    assert_eq!(even_day(2021, 1, 22, 12, 0, 0).date_string(), "11th day before the Kalends of February");
    assert_eq!(even_day(2021, 2, 14, 12, 0, 0).date_string(), "16th day before the Kalends of March");
    assert_eq!(even_day(2024, 2, 14, 12, 0, 0).date_string(), "17th day before the Kalends of March");
    assert_eq!(even_day(2021, 10, 31, 12, 0, 0).date_string(), "day before the Kalends of November");
    assert_eq!(even_day(2021, 11, 13, 12, 0, 0).date_string(), "Ides of November");
    assert_eq!(even_day(2021, 11, 14, 12, 0, 0).date_string(), "18th day before the Kalends of December");
    assert_eq!(even_day(2021, 11, 20, 12, 0, 0).date_string(), "12th day before the Kalends of December");
    assert_eq!(even_day(2021, 11, 30, 12, 0, 0).date_string(), "day before the Kalends of December");
}

#[test]
fn every_month_has_its_name() {
    let names = [
        "January", "February", "March", "April", "May", "June", "July", "August", "September",
        "October", "November", "December",
    ];
    for (i, name) in names.iter().enumerate() {
        let rt = even_day(2021, i as u32 + 1, 1, 12, 0, 0);
        assert_eq!(rt.date_string(), format!("Kalends of {}", name));
    }
}

#[test]
fn the_first_year_of_a_reign() {
    assert_eq!(even_day(1992, 6, 1, 12, 0, 0).year_string("AU"), "first year of Paul Keating");
    assert_eq!(even_day(1993, 6, 1, 12, 0, 0).year_string("AU"), "second year of Paul Keating");
    assert_eq!(even_day(1994, 6, 1, 12, 0, 0).year_string("AU"), "third year of Paul Keating");
    assert_eq!(even_day(1991, 6, 1, 12, 0, 0).year_string("AU"), "8th year of Bob Hawke");
}

#[test]
fn a_returning_owner_resumes_the_count() {
    // 1886-1889, then 1894-1897
    assert_eq!(even_day(1889, 6, 1, 12, 0, 0).year_string("US"), "4th year of Grover Cleveland");
    assert_eq!(even_day(1890, 6, 1, 12, 0, 0).year_string("US"), "first year of Benjamin Harrison");
    assert_eq!(even_day(1894, 6, 1, 12, 0, 0).year_string("US"), "5th year of Grover Cleveland");
    // 1940-1941, then 1950-1966
    assert_eq!(even_day(1950, 6, 1, 12, 0, 0).year_string("AU"), "third year of Robert Menzies");
    assert_eq!(even_day(1966, 6, 1, 12, 0, 0).year_string("AU"), "19th year of Robert Menzies");
}

#[test]
fn a_year_belongs_to_whoever_held_office_on_its_first_day() {
    // Harrison took office and died in 1841; Van Buren held office on its first day
    assert_eq!(even_day(1841, 6, 1, 12, 0, 0).year_string("US"), "4th year of Martin Van Buren");
    assert_eq!(even_day(1842, 6, 1, 12, 0, 0).year_string("US"), "first year of John Tyler");
}

#[test]
fn year_without_a_chart_is_the_plain_year() {
    let rt = even_day(1996, 6, 1, 12, 0, 0);
    assert_eq!(rt.year_string("NZ"), "1996");
    assert_eq!(rt.year_string("au"), "1996");
    assert_eq!(rt.year_string(""), "1996");
    assert_eq!(rt.year_string("AUS"), "1996");
    let rt = even_day(-44, 3, 15, 12, 0, 0);
    assert_eq!(rt.year_string("IT"), "-44");
    assert_eq!(rt.date_string(), "Ides of March");
}

#[test]
fn ordinal_suffixes_of_long_reigns() {
    // years before the first change of office count from the chart's open start
    let rt = even_day(MIN_YEAR + 15, 6, 1, 12, 0, 0);
    assert_eq!(rt.year_string("AU"), "2147221521st year of Edmund Barton");
    let rt = even_day(MIN_YEAR + 5, 6, 1, 12, 0, 0);
    assert_eq!(rt.year_string("US"), "2147221511th year of George Washington");
    let rt = even_day(MIN_YEAR + 6, 6, 1, 12, 0, 0);
    assert_eq!(rt.year_string("US"), "2147221512th year of George Washington");
    let rt = even_day(MIN_YEAR + 1, 6, 1, 12, 0, 0);
    assert_eq!(rt.year_string("US"), "2147221507th year of George Washington");
    let rt = even_day(MIN_YEAR + 16, 6, 1, 12, 0, 0);
    assert_eq!(rt.year_string("US"), "2147221522nd year of George Washington");
    let rt = even_day(MIN_YEAR + 17, 6, 1, 12, 0, 0);
    assert_eq!(rt.year_string("US"), "2147221523rd year of George Washington");
}

#[test]
fn find_reign_counts_over_all_ranges() {
    let owners = get_owners_for_country("AU").unwrap();
    let (o, i, count) = find_reign(&owners, 1951).unwrap();
    assert_eq!(owners[o].owner, "Robert Menzies");
    assert_eq!(i, 1);
    assert_eq!(count, 4);
    // from year 0 the count from the open start no longer fits an i32
    let (o, _, count) = find_reign(&owners, 0).unwrap();
    assert_eq!(owners[o].owner, "Edmund Barton");
    assert_eq!(count, 2147483649);
    assert!(get_owners_for_country("FR").is_none());
    let us = get_owners_for_country("US").unwrap();
    let (o, i, count) = find_reign(&us, 2025).unwrap();
    assert_eq!((us[o].owner, i, count), ("Joe Biden", 0, 4));
    let (o, i, count) = find_reign(&us, 2030).unwrap();
    assert_eq!((us[o].owner, i, count), ("Donald Trump", 1, 9));
}

#[test]
fn find_reign_in_a_chart_of_ones_own() {
    let owners = vec![
        YearOwner { owner: "A", years: vec![(1, 3), (10, 12)] },
        YearOwner { owner: "B", years: vec![(4, 9)] },
        YearOwner { owner: "C", years: vec![(2, 2)] },
    ];
    assert_eq!(find_reign(&owners, 11), Some((0, 1, 5)));
    assert_eq!(find_reign(&owners, 4), Some((1, 0, 1)));
    // the first owner in the chart's order wins
    assert_eq!(find_reign(&owners, 2), Some((0, 0, 2)));
    assert_eq!(find_reign(&owners, 13), None);
    assert_eq!(find_reign(&owners, 0), None);
}

#[test]
fn the_whole_time_in_words() {
    let rt = even_day(1996, 3, 15, 12, 0, 0);
    assert_eq!(
        rt.to_string("AU"),
        "less than a quarter of the 7th daylight hour of Ides of March 5th year of Paul Keating"
    );
    assert_eq!(
        rt.to_string("US"),
        "less than a quarter of the 7th daylight hour of Ides of March third year of Bill Clinton"
    );
    assert_eq!(rt.to_string("XX"), "less than a quarter of the 7th daylight hour of Ides of March 1996");
}

#[test]
fn year_owners_follow_the_first_day_of_each_year() {
    let chart = vec![
        OfficeStart { owner: "A", year: 2000, month: 3, day: 1 },
        OfficeStart { owner: "B", year: 2003, month: 1, day: 1 },
        OfficeStart { owner: "C", year: 2003, month: 6, day: 1 },
        OfficeStart { owner: "A", year: 2003, month: 9, day: 1 },
        OfficeStart { owner: "D", year: 2010, month: 5, day: 5 },
    ];
    let owners = year_owners(&chart);
    let plain: Vec<(&str, Vec<(i32, i32)>)> = owners.iter().map(|o| (o.owner, o.years.clone())).collect();
    assert_eq!(
        plain,
        vec![
            ("A", vec![(i32::MIN, 2002), (2004, 2010)]),
            ("B", vec![(2003, 2003)]),
            ("D", vec![(2011, i32::MAX)]),
        ]
    );
    // A's count carries over B's year
    assert_eq!(find_reign(&owners, 2002).map(|r| r.0), Some(0));
    let (_, _, before) = find_reign(&owners, 2002).unwrap();
    let (_, _, after) = find_reign(&owners, 2004).unwrap();
    assert_eq!(after, before + 1);
}

#[test]
fn year_owners_of_a_single_holder() {
    let chart = vec![OfficeStart { owner: "Solo", year: 1, month: 1, day: 1 }];
    let owners = year_owners(&chart);
    assert_eq!(owners.len(), 1);
    assert_eq!(owners[0].years, vec![(i32::MIN, i32::MAX)]);
}

#[test]
fn every_year_has_one_reign_and_counts_on() {
    for country in ["AU", "US"] {
        let owners = get_owners_for_country(country).unwrap();
        let mut previous: Option<(usize, i128)> = None;
        for year in 1780..2200 {
            let (o, _, count) = find_reign(&owners, year).unwrap();
            let holders = owners
                .iter()
                .flat_map(|owner| owner.years.iter())
                .filter(|(first, last)| *first <= year && year <= *last)
                .count();
            assert_eq!(holders, 1, "{} {}", country, year);
            if let Some((p, c)) = previous {
                if p == o {
                    assert_eq!(count, c + 1, "{} {}", country, year);
                } else {
                    assert!(count >= 1);
                }
            }
            previous = Some((o, count));
        }
    }
}
