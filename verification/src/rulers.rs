use vstd::prelude::*;

use crate::calendar::is_valid_date;
use crate::terms::{date_not_after, is_office_chart, offices_view, year_owners, year_owners_of, OfficeChart, OfficeStart};

verus! {

/// A head of government and the years counted by their reign: each pair is a
/// first and a last year, both included.
pub struct YearOwner {
    pub owner: &'static str,
    pub years: Vec<(i32, i32)>,
}

impl View for YearOwner {
    type V = (Seq<char>, Seq<(i32, i32)>);

    open spec fn view(&self) -> (Seq<char>, Seq<(i32, i32)>) {
        (self.owner@, self.years@)
    }
}

/// The view of a list of year owners.
pub open spec fn owners_view(owners: Seq<YearOwner>) -> Seq<(Seq<char>, Seq<(i32, i32)>)> {
    owners.map_values(|o: YearOwner| o@)
}

/// Australia's prime ministers, each with the date they took office.
pub open spec fn au_office_chart() -> OfficeChart {
    seq![
        ("Edmund Barton"@, 1901, 1, 1),
        ("Alfred Deakin"@, 1903, 9, 24),
        ("Chris Watson"@, 1904, 4, 27),
        ("George Reid"@, 1904, 8, 18),
        ("Alfred Deakin"@, 1905, 7, 5),
        ("Andrew Fisher"@, 1908, 11, 13),
        ("Alfred Deakin"@, 1909, 6, 2),
        ("Andrew Fisher"@, 1910, 4, 29),
        ("Joseph Cook"@, 1913, 6, 24),
        ("Andrew Fisher"@, 1914, 9, 17),
        ("Billy Hughes"@, 1915, 10, 27),
        ("Stanley Bruce"@, 1923, 2, 9),
        ("James Scullin"@, 1929, 10, 22),
        ("Joseph Lyons"@, 1932, 1, 6),
        ("Earle Page"@, 1939, 4, 7),
        ("Robert Menzies"@, 1939, 4, 26),
        ("Arthur Fadden"@, 1941, 8, 29),
        ("John Curtin"@, 1941, 10, 7),
        ("Frank Forde"@, 1945, 7, 6),
        ("Ben Chifley"@, 1945, 7, 13),
        ("Robert Menzies"@, 1949, 12, 19),
        ("Harold Holt"@, 1966, 1, 26),
        ("John McEwen"@, 1967, 12, 19),
        ("John Gorton"@, 1968, 1, 10),
        ("William McMahon"@, 1971, 3, 10),
        ("Gough Whitlam"@, 1972, 12, 5),
        ("Malcolm Fraser"@, 1975, 11, 11),
        ("Bob Hawke"@, 1983, 3, 11),
        ("Paul Keating"@, 1991, 12, 20),
        ("John Howard"@, 1996, 3, 11),
        ("Kevin Rudd"@, 2007, 12, 3),
        ("Julia Gillard"@, 2010, 6, 24),
        ("Kevin Rudd"@, 2013, 6, 27),
        ("Tony Abbott"@, 2013, 9, 18),
        ("Malcolm Turnbull"@, 2015, 9, 15),
        ("Scott Morrison"@, 2018, 8, 24),
        ("Anthony Albanese"@, 2022, 5, 23),
    ]
}

/// The presidents of the United States, each with the date they took office.
pub open spec fn us_office_chart() -> OfficeChart {
    seq![
        ("George Washington"@, 1789, 4, 30),
        ("John Adams"@, 1797, 3, 4),
        ("Thomas Jefferson"@, 1801, 3, 4),
        ("James Madison"@, 1809, 3, 4),
        ("James Monroe"@, 1817, 3, 4),
        ("John Quincy Adams"@, 1825, 3, 4),
        ("Andrew Jackson"@, 1829, 3, 4),
        ("Martin Van Buren"@, 1837, 3, 4),
        ("William Henry Harrison"@, 1841, 3, 4),
        ("John Tyler"@, 1841, 4, 4),
        ("James K. Polk"@, 1845, 3, 4),
        ("Zachary Taylor"@, 1849, 3, 5),
        ("Millard Fillmore"@, 1850, 7, 9),
        ("Franklin Pierce"@, 1853, 3, 4),
        ("James Buchanan"@, 1857, 3, 4),
        ("Abraham Lincoln"@, 1861, 3, 4),
        ("Andrew Johnson"@, 1865, 4, 15),
        ("Ulysses S. Grant"@, 1869, 3, 4),
        ("Rutherford B. Hayes"@, 1877, 3, 4),
        ("James A. Garfield"@, 1881, 3, 4),
        ("Chester A. Arthur"@, 1881, 9, 19),
        ("Grover Cleveland"@, 1885, 3, 4),
        ("Benjamin Harrison"@, 1889, 3, 4),
        ("Grover Cleveland"@, 1893, 3, 4),
        ("William McKinley"@, 1897, 3, 4),
        ("Theodore Roosevelt"@, 1901, 9, 14),
        ("William Howard Taft"@, 1909, 3, 4),
        ("Woodrow Wilson"@, 1913, 3, 4),
        ("Warren G. Harding"@, 1921, 3, 4),
        ("Calvin Coolidge"@, 1923, 8, 2),
        ("Herbert Hoover"@, 1929, 3, 4),
        ("Franklin D. Roosevelt"@, 1933, 3, 4),
        ("Harry S Truman"@, 1945, 4, 12),
        ("Dwight D. Eisenhower"@, 1953, 1, 20),
        ("John F. Kennedy"@, 1961, 1, 20),
        ("Lyndon B. Johnson"@, 1963, 11, 22),
        ("Richard Nixon"@, 1969, 1, 20),
        ("Gerald Ford"@, 1974, 8, 9),
        ("Jimmy Carter"@, 1977, 1, 20),
        ("Ronald Reagan"@, 1981, 1, 20),
        ("George H. W. Bush"@, 1989, 1, 20),
        ("Bill Clinton"@, 1993, 1, 20),
        ("George W. Bush"@, 2001, 1, 20),
        ("Barack Obama"@, 2009, 1, 20),
        ("Donald Trump"@, 2017, 1, 20),
        ("Joe Biden"@, 2021, 1, 20),
        ("Donald Trump"@, 2025, 1, 20),
    ]
}

/// The reign chart of a country, by its ISO 3166 code.
pub open spec fn owners_for_country(country: Seq<char>) -> Option<Seq<(Seq<char>, Seq<(i32, i32)>)>> {
    if country == "AU"@ {
        Some(year_owners_of(au_office_chart()))
    } else if country == "US"@ {
        Some(year_owners_of(us_office_chart()))
    } else {
        None
    }
}

/// Both charts of offices hold valid dates in the order the offices were taken.
pub proof fn lemma_charts_are_in_order()
    ensures
        is_office_chart(au_office_chart()),
        is_office_chart(us_office_chart()),
{
    let c = au_office_chart();
    assert(c.len() == 37);
    assert forall|i: int| 0 <= i < c.len() implies is_valid_date(c[i].1, c[i].2, c[i].3) by {
        if i == 0 {
            assert(is_valid_date(c[0].1, c[0].2, c[0].3));
        } else if i == 1 {
            assert(is_valid_date(c[1].1, c[1].2, c[1].3));
        } else if i == 2 {
            assert(is_valid_date(c[2].1, c[2].2, c[2].3));
        } else if i == 3 {
            assert(is_valid_date(c[3].1, c[3].2, c[3].3));
        } else if i == 4 {
            assert(is_valid_date(c[4].1, c[4].2, c[4].3));
        } else if i == 5 {
            assert(is_valid_date(c[5].1, c[5].2, c[5].3));
        } else if i == 6 {
            assert(is_valid_date(c[6].1, c[6].2, c[6].3));
        } else if i == 7 {
            assert(is_valid_date(c[7].1, c[7].2, c[7].3));
        } else if i == 8 {
            assert(is_valid_date(c[8].1, c[8].2, c[8].3));
        } else if i == 9 {
            assert(is_valid_date(c[9].1, c[9].2, c[9].3));
        } else if i == 10 {
            assert(is_valid_date(c[10].1, c[10].2, c[10].3));
        } else if i == 11 {
            assert(is_valid_date(c[11].1, c[11].2, c[11].3));
        } else if i == 12 {
            assert(is_valid_date(c[12].1, c[12].2, c[12].3));
        } else if i == 13 {
            assert(is_valid_date(c[13].1, c[13].2, c[13].3));
        } else if i == 14 {
            assert(is_valid_date(c[14].1, c[14].2, c[14].3));
        } else if i == 15 {
            assert(is_valid_date(c[15].1, c[15].2, c[15].3));
        } else if i == 16 {
            assert(is_valid_date(c[16].1, c[16].2, c[16].3));
        } else if i == 17 {
            assert(is_valid_date(c[17].1, c[17].2, c[17].3));
        } else if i == 18 {
            assert(is_valid_date(c[18].1, c[18].2, c[18].3));
        } else if i == 19 {
            assert(is_valid_date(c[19].1, c[19].2, c[19].3));
        } else if i == 20 {
            assert(is_valid_date(c[20].1, c[20].2, c[20].3));
        } else if i == 21 {
            assert(is_valid_date(c[21].1, c[21].2, c[21].3));
        } else if i == 22 {
            assert(is_valid_date(c[22].1, c[22].2, c[22].3));
        } else if i == 23 {
            assert(is_valid_date(c[23].1, c[23].2, c[23].3));
        } else if i == 24 {
            assert(is_valid_date(c[24].1, c[24].2, c[24].3));
        } else if i == 25 {
            assert(is_valid_date(c[25].1, c[25].2, c[25].3));
        } else if i == 26 {
            assert(is_valid_date(c[26].1, c[26].2, c[26].3));
        } else if i == 27 {
            assert(is_valid_date(c[27].1, c[27].2, c[27].3));
        } else if i == 28 {
            assert(is_valid_date(c[28].1, c[28].2, c[28].3));
        } else if i == 29 {
            assert(is_valid_date(c[29].1, c[29].2, c[29].3));
        } else if i == 30 {
            assert(is_valid_date(c[30].1, c[30].2, c[30].3));
        } else if i == 31 {
            assert(is_valid_date(c[31].1, c[31].2, c[31].3));
        } else if i == 32 {
            assert(is_valid_date(c[32].1, c[32].2, c[32].3));
        } else if i == 33 {
            assert(is_valid_date(c[33].1, c[33].2, c[33].3));
        } else if i == 34 {
            assert(is_valid_date(c[34].1, c[34].2, c[34].3));
        } else if i == 35 {
            assert(is_valid_date(c[35].1, c[35].2, c[35].3));
        } else if i == 36 {
            assert(is_valid_date(c[36].1, c[36].2, c[36].3));
        }
    }
    assert forall|i: int| 0 <= i < c.len() - 1 implies date_not_after(#[trigger] c[i], c[i + 1]) by {
        if i == 0 {
            assert(date_not_after(c[0], c[1]));
        } else if i == 1 {
            assert(date_not_after(c[1], c[2]));
        } else if i == 2 {
            assert(date_not_after(c[2], c[3]));
        } else if i == 3 {
            assert(date_not_after(c[3], c[4]));
        } else if i == 4 {
            assert(date_not_after(c[4], c[5]));
        } else if i == 5 {
            assert(date_not_after(c[5], c[6]));
        } else if i == 6 {
            assert(date_not_after(c[6], c[7]));
        } else if i == 7 {
            assert(date_not_after(c[7], c[8]));
        } else if i == 8 {
            assert(date_not_after(c[8], c[9]));
        } else if i == 9 {
            assert(date_not_after(c[9], c[10]));
        } else if i == 10 {
            assert(date_not_after(c[10], c[11]));
        } else if i == 11 {
            assert(date_not_after(c[11], c[12]));
        } else if i == 12 {
            assert(date_not_after(c[12], c[13]));
        } else if i == 13 {
            assert(date_not_after(c[13], c[14]));
        } else if i == 14 {
            assert(date_not_after(c[14], c[15]));
        } else if i == 15 {
            assert(date_not_after(c[15], c[16]));
        } else if i == 16 {
            assert(date_not_after(c[16], c[17]));
        } else if i == 17 {
            assert(date_not_after(c[17], c[18]));
        } else if i == 18 {
            assert(date_not_after(c[18], c[19]));
        } else if i == 19 {
            assert(date_not_after(c[19], c[20]));
        } else if i == 20 {
            assert(date_not_after(c[20], c[21]));
        } else if i == 21 {
            assert(date_not_after(c[21], c[22]));
        } else if i == 22 {
            assert(date_not_after(c[22], c[23]));
        } else if i == 23 {
            assert(date_not_after(c[23], c[24]));
        } else if i == 24 {
            assert(date_not_after(c[24], c[25]));
        } else if i == 25 {
            assert(date_not_after(c[25], c[26]));
        } else if i == 26 {
            assert(date_not_after(c[26], c[27]));
        } else if i == 27 {
            assert(date_not_after(c[27], c[28]));
        } else if i == 28 {
            assert(date_not_after(c[28], c[29]));
        } else if i == 29 {
            assert(date_not_after(c[29], c[30]));
        } else if i == 30 {
            assert(date_not_after(c[30], c[31]));
        } else if i == 31 {
            assert(date_not_after(c[31], c[32]));
        } else if i == 32 {
            assert(date_not_after(c[32], c[33]));
        } else if i == 33 {
            assert(date_not_after(c[33], c[34]));
        } else if i == 34 {
            assert(date_not_after(c[34], c[35]));
        } else if i == 35 {
            assert(date_not_after(c[35], c[36]));
        }
    }
    let c = us_office_chart();
    assert(c.len() == 47);
    assert forall|i: int| 0 <= i < c.len() implies is_valid_date(c[i].1, c[i].2, c[i].3) by {
        if i == 0 {
            assert(is_valid_date(c[0].1, c[0].2, c[0].3));
        } else if i == 1 {
            assert(is_valid_date(c[1].1, c[1].2, c[1].3));
        } else if i == 2 {
            assert(is_valid_date(c[2].1, c[2].2, c[2].3));
        } else if i == 3 {
            assert(is_valid_date(c[3].1, c[3].2, c[3].3));
        } else if i == 4 {
            assert(is_valid_date(c[4].1, c[4].2, c[4].3));
        } else if i == 5 {
            assert(is_valid_date(c[5].1, c[5].2, c[5].3));
        } else if i == 6 {
            assert(is_valid_date(c[6].1, c[6].2, c[6].3));
        } else if i == 7 {
            assert(is_valid_date(c[7].1, c[7].2, c[7].3));
        } else if i == 8 {
            assert(is_valid_date(c[8].1, c[8].2, c[8].3));
        } else if i == 9 {
            assert(is_valid_date(c[9].1, c[9].2, c[9].3));
        } else if i == 10 {
            assert(is_valid_date(c[10].1, c[10].2, c[10].3));
        } else if i == 11 {
            assert(is_valid_date(c[11].1, c[11].2, c[11].3));
        } else if i == 12 {
            assert(is_valid_date(c[12].1, c[12].2, c[12].3));
        } else if i == 13 {
            assert(is_valid_date(c[13].1, c[13].2, c[13].3));
        } else if i == 14 {
            assert(is_valid_date(c[14].1, c[14].2, c[14].3));
        } else if i == 15 {
            assert(is_valid_date(c[15].1, c[15].2, c[15].3));
        } else if i == 16 {
            assert(is_valid_date(c[16].1, c[16].2, c[16].3));
        } else if i == 17 {
            assert(is_valid_date(c[17].1, c[17].2, c[17].3));
        } else if i == 18 {
            assert(is_valid_date(c[18].1, c[18].2, c[18].3));
        } else if i == 19 {
            assert(is_valid_date(c[19].1, c[19].2, c[19].3));
        } else if i == 20 {
            assert(is_valid_date(c[20].1, c[20].2, c[20].3));
        } else if i == 21 {
            assert(is_valid_date(c[21].1, c[21].2, c[21].3));
        } else if i == 22 {
            assert(is_valid_date(c[22].1, c[22].2, c[22].3));
        } else if i == 23 {
            assert(is_valid_date(c[23].1, c[23].2, c[23].3));
        } else if i == 24 {
            assert(is_valid_date(c[24].1, c[24].2, c[24].3));
        } else if i == 25 {
            assert(is_valid_date(c[25].1, c[25].2, c[25].3));
        } else if i == 26 {
            assert(is_valid_date(c[26].1, c[26].2, c[26].3));
        } else if i == 27 {
            assert(is_valid_date(c[27].1, c[27].2, c[27].3));
        } else if i == 28 {
            assert(is_valid_date(c[28].1, c[28].2, c[28].3));
        } else if i == 29 {
            assert(is_valid_date(c[29].1, c[29].2, c[29].3));
        } else if i == 30 {
            assert(is_valid_date(c[30].1, c[30].2, c[30].3));
        } else if i == 31 {
            assert(is_valid_date(c[31].1, c[31].2, c[31].3));
        } else if i == 32 {
            assert(is_valid_date(c[32].1, c[32].2, c[32].3));
        } else if i == 33 {
            assert(is_valid_date(c[33].1, c[33].2, c[33].3));
        } else if i == 34 {
            assert(is_valid_date(c[34].1, c[34].2, c[34].3));
        } else if i == 35 {
            assert(is_valid_date(c[35].1, c[35].2, c[35].3));
        } else if i == 36 {
            assert(is_valid_date(c[36].1, c[36].2, c[36].3));
        } else if i == 37 {
            assert(is_valid_date(c[37].1, c[37].2, c[37].3));
        } else if i == 38 {
            assert(is_valid_date(c[38].1, c[38].2, c[38].3));
        } else if i == 39 {
            assert(is_valid_date(c[39].1, c[39].2, c[39].3));
        } else if i == 40 {
            assert(is_valid_date(c[40].1, c[40].2, c[40].3));
        } else if i == 41 {
            assert(is_valid_date(c[41].1, c[41].2, c[41].3));
        } else if i == 42 {
            assert(is_valid_date(c[42].1, c[42].2, c[42].3));
        } else if i == 43 {
            assert(is_valid_date(c[43].1, c[43].2, c[43].3));
        } else if i == 44 {
            assert(is_valid_date(c[44].1, c[44].2, c[44].3));
        } else if i == 45 {
            assert(is_valid_date(c[45].1, c[45].2, c[45].3));
        } else if i == 46 {
            assert(is_valid_date(c[46].1, c[46].2, c[46].3));
        }
    }
    assert forall|i: int| 0 <= i < c.len() - 1 implies date_not_after(#[trigger] c[i], c[i + 1]) by {
        if i == 0 {
            assert(date_not_after(c[0], c[1]));
        } else if i == 1 {
            assert(date_not_after(c[1], c[2]));
        } else if i == 2 {
            assert(date_not_after(c[2], c[3]));
        } else if i == 3 {
            assert(date_not_after(c[3], c[4]));
        } else if i == 4 {
            assert(date_not_after(c[4], c[5]));
        } else if i == 5 {
            assert(date_not_after(c[5], c[6]));
        } else if i == 6 {
            assert(date_not_after(c[6], c[7]));
        } else if i == 7 {
            assert(date_not_after(c[7], c[8]));
        } else if i == 8 {
            assert(date_not_after(c[8], c[9]));
        } else if i == 9 {
            assert(date_not_after(c[9], c[10]));
        } else if i == 10 {
            assert(date_not_after(c[10], c[11]));
        } else if i == 11 {
            assert(date_not_after(c[11], c[12]));
        } else if i == 12 {
            assert(date_not_after(c[12], c[13]));
        } else if i == 13 {
            assert(date_not_after(c[13], c[14]));
        } else if i == 14 {
            assert(date_not_after(c[14], c[15]));
        } else if i == 15 {
            assert(date_not_after(c[15], c[16]));
        } else if i == 16 {
            assert(date_not_after(c[16], c[17]));
        } else if i == 17 {
            assert(date_not_after(c[17], c[18]));
        } else if i == 18 {
            assert(date_not_after(c[18], c[19]));
        } else if i == 19 {
            assert(date_not_after(c[19], c[20]));
        } else if i == 20 {
            assert(date_not_after(c[20], c[21]));
        } else if i == 21 {
            assert(date_not_after(c[21], c[22]));
        } else if i == 22 {
            assert(date_not_after(c[22], c[23]));
        } else if i == 23 {
            assert(date_not_after(c[23], c[24]));
        } else if i == 24 {
            assert(date_not_after(c[24], c[25]));
        } else if i == 25 {
            assert(date_not_after(c[25], c[26]));
        } else if i == 26 {
            assert(date_not_after(c[26], c[27]));
        } else if i == 27 {
            assert(date_not_after(c[27], c[28]));
        } else if i == 28 {
            assert(date_not_after(c[28], c[29]));
        } else if i == 29 {
            assert(date_not_after(c[29], c[30]));
        } else if i == 30 {
            assert(date_not_after(c[30], c[31]));
        } else if i == 31 {
            assert(date_not_after(c[31], c[32]));
        } else if i == 32 {
            assert(date_not_after(c[32], c[33]));
        } else if i == 33 {
            assert(date_not_after(c[33], c[34]));
        } else if i == 34 {
            assert(date_not_after(c[34], c[35]));
        } else if i == 35 {
            assert(date_not_after(c[35], c[36]));
        } else if i == 36 {
            assert(date_not_after(c[36], c[37]));
        } else if i == 37 {
            assert(date_not_after(c[37], c[38]));
        } else if i == 38 {
            assert(date_not_after(c[38], c[39]));
        } else if i == 39 {
            assert(date_not_after(c[39], c[40]));
        } else if i == 40 {
            assert(date_not_after(c[40], c[41]));
        } else if i == 41 {
            assert(date_not_after(c[41], c[42]));
        } else if i == 42 {
            assert(date_not_after(c[42], c[43]));
        } else if i == 43 {
            assert(date_not_after(c[43], c[44]));
        } else if i == 44 {
            assert(date_not_after(c[44], c[45]));
        } else if i == 45 {
            assert(date_not_after(c[45], c[46]));
        }
    }
}

fn au_office_starts() -> (starts: Vec<OfficeStart>)
    ensures
        offices_view(starts@) == au_office_chart(),
{
    let starts = vec![
        OfficeStart { owner: "Edmund Barton", year: 1901, month: 1, day: 1 },
        OfficeStart { owner: "Alfred Deakin", year: 1903, month: 9, day: 24 },
        OfficeStart { owner: "Chris Watson", year: 1904, month: 4, day: 27 },
        OfficeStart { owner: "George Reid", year: 1904, month: 8, day: 18 },
        OfficeStart { owner: "Alfred Deakin", year: 1905, month: 7, day: 5 },
        OfficeStart { owner: "Andrew Fisher", year: 1908, month: 11, day: 13 },
        OfficeStart { owner: "Alfred Deakin", year: 1909, month: 6, day: 2 },
        OfficeStart { owner: "Andrew Fisher", year: 1910, month: 4, day: 29 },
        OfficeStart { owner: "Joseph Cook", year: 1913, month: 6, day: 24 },
        OfficeStart { owner: "Andrew Fisher", year: 1914, month: 9, day: 17 },
        OfficeStart { owner: "Billy Hughes", year: 1915, month: 10, day: 27 },
        OfficeStart { owner: "Stanley Bruce", year: 1923, month: 2, day: 9 },
        OfficeStart { owner: "James Scullin", year: 1929, month: 10, day: 22 },
        OfficeStart { owner: "Joseph Lyons", year: 1932, month: 1, day: 6 },
        OfficeStart { owner: "Earle Page", year: 1939, month: 4, day: 7 },
        OfficeStart { owner: "Robert Menzies", year: 1939, month: 4, day: 26 },
        OfficeStart { owner: "Arthur Fadden", year: 1941, month: 8, day: 29 },
        OfficeStart { owner: "John Curtin", year: 1941, month: 10, day: 7 },
        OfficeStart { owner: "Frank Forde", year: 1945, month: 7, day: 6 },
        OfficeStart { owner: "Ben Chifley", year: 1945, month: 7, day: 13 },
        OfficeStart { owner: "Robert Menzies", year: 1949, month: 12, day: 19 },
        OfficeStart { owner: "Harold Holt", year: 1966, month: 1, day: 26 },
        OfficeStart { owner: "John McEwen", year: 1967, month: 12, day: 19 },
        OfficeStart { owner: "John Gorton", year: 1968, month: 1, day: 10 },
        OfficeStart { owner: "William McMahon", year: 1971, month: 3, day: 10 },
        OfficeStart { owner: "Gough Whitlam", year: 1972, month: 12, day: 5 },
        OfficeStart { owner: "Malcolm Fraser", year: 1975, month: 11, day: 11 },
        OfficeStart { owner: "Bob Hawke", year: 1983, month: 3, day: 11 },
        OfficeStart { owner: "Paul Keating", year: 1991, month: 12, day: 20 },
        OfficeStart { owner: "John Howard", year: 1996, month: 3, day: 11 },
        OfficeStart { owner: "Kevin Rudd", year: 2007, month: 12, day: 3 },
        OfficeStart { owner: "Julia Gillard", year: 2010, month: 6, day: 24 },
        OfficeStart { owner: "Kevin Rudd", year: 2013, month: 6, day: 27 },
        OfficeStart { owner: "Tony Abbott", year: 2013, month: 9, day: 18 },
        OfficeStart { owner: "Malcolm Turnbull", year: 2015, month: 9, day: 15 },
        OfficeStart { owner: "Scott Morrison", year: 2018, month: 8, day: 24 },
        OfficeStart { owner: "Anthony Albanese", year: 2022, month: 5, day: 23 },
    ];
    proof {
        assert(starts@[0]@ == au_office_chart()[0]);
        assert(starts@[1]@ == au_office_chart()[1]);
        assert(starts@[2]@ == au_office_chart()[2]);
        assert(starts@[3]@ == au_office_chart()[3]);
        assert(starts@[4]@ == au_office_chart()[4]);
        assert(starts@[5]@ == au_office_chart()[5]);
        assert(starts@[6]@ == au_office_chart()[6]);
        assert(starts@[7]@ == au_office_chart()[7]);
        assert(starts@[8]@ == au_office_chart()[8]);
        assert(starts@[9]@ == au_office_chart()[9]);
        assert(starts@[10]@ == au_office_chart()[10]);
        assert(starts@[11]@ == au_office_chart()[11]);
        assert(starts@[12]@ == au_office_chart()[12]);
        assert(starts@[13]@ == au_office_chart()[13]);
        assert(starts@[14]@ == au_office_chart()[14]);
        assert(starts@[15]@ == au_office_chart()[15]);
        assert(starts@[16]@ == au_office_chart()[16]);
        assert(starts@[17]@ == au_office_chart()[17]);
        assert(starts@[18]@ == au_office_chart()[18]);
        assert(starts@[19]@ == au_office_chart()[19]);
        assert(starts@[20]@ == au_office_chart()[20]);
        assert(starts@[21]@ == au_office_chart()[21]);
        assert(starts@[22]@ == au_office_chart()[22]);
        assert(starts@[23]@ == au_office_chart()[23]);
        assert(starts@[24]@ == au_office_chart()[24]);
        assert(starts@[25]@ == au_office_chart()[25]);
        assert(starts@[26]@ == au_office_chart()[26]);
        assert(starts@[27]@ == au_office_chart()[27]);
        assert(starts@[28]@ == au_office_chart()[28]);
        assert(starts@[29]@ == au_office_chart()[29]);
        assert(starts@[30]@ == au_office_chart()[30]);
        assert(starts@[31]@ == au_office_chart()[31]);
        assert(starts@[32]@ == au_office_chart()[32]);
        assert(starts@[33]@ == au_office_chart()[33]);
        assert(starts@[34]@ == au_office_chart()[34]);
        assert(starts@[35]@ == au_office_chart()[35]);
        assert(starts@[36]@ == au_office_chart()[36]);
    }
    assert(offices_view(starts@) =~= au_office_chart());
    starts
}

fn us_office_starts() -> (starts: Vec<OfficeStart>)
    ensures
        offices_view(starts@) == us_office_chart(),
{
    let starts = vec![
        OfficeStart { owner: "George Washington", year: 1789, month: 4, day: 30 },
        OfficeStart { owner: "John Adams", year: 1797, month: 3, day: 4 },
        OfficeStart { owner: "Thomas Jefferson", year: 1801, month: 3, day: 4 },
        OfficeStart { owner: "James Madison", year: 1809, month: 3, day: 4 },
        OfficeStart { owner: "James Monroe", year: 1817, month: 3, day: 4 },
        OfficeStart { owner: "John Quincy Adams", year: 1825, month: 3, day: 4 },
        OfficeStart { owner: "Andrew Jackson", year: 1829, month: 3, day: 4 },
        OfficeStart { owner: "Martin Van Buren", year: 1837, month: 3, day: 4 },
        OfficeStart { owner: "William Henry Harrison", year: 1841, month: 3, day: 4 },
        OfficeStart { owner: "John Tyler", year: 1841, month: 4, day: 4 },
        OfficeStart { owner: "James K. Polk", year: 1845, month: 3, day: 4 },
        OfficeStart { owner: "Zachary Taylor", year: 1849, month: 3, day: 5 },
        OfficeStart { owner: "Millard Fillmore", year: 1850, month: 7, day: 9 },
        OfficeStart { owner: "Franklin Pierce", year: 1853, month: 3, day: 4 },
        OfficeStart { owner: "James Buchanan", year: 1857, month: 3, day: 4 },
        OfficeStart { owner: "Abraham Lincoln", year: 1861, month: 3, day: 4 },
        OfficeStart { owner: "Andrew Johnson", year: 1865, month: 4, day: 15 },
        OfficeStart { owner: "Ulysses S. Grant", year: 1869, month: 3, day: 4 },
        OfficeStart { owner: "Rutherford B. Hayes", year: 1877, month: 3, day: 4 },
        OfficeStart { owner: "James A. Garfield", year: 1881, month: 3, day: 4 },
        OfficeStart { owner: "Chester A. Arthur", year: 1881, month: 9, day: 19 },
        OfficeStart { owner: "Grover Cleveland", year: 1885, month: 3, day: 4 },
        OfficeStart { owner: "Benjamin Harrison", year: 1889, month: 3, day: 4 },
        OfficeStart { owner: "Grover Cleveland", year: 1893, month: 3, day: 4 },
        OfficeStart { owner: "William McKinley", year: 1897, month: 3, day: 4 },
        OfficeStart { owner: "Theodore Roosevelt", year: 1901, month: 9, day: 14 },
        OfficeStart { owner: "William Howard Taft", year: 1909, month: 3, day: 4 },
        OfficeStart { owner: "Woodrow Wilson", year: 1913, month: 3, day: 4 },
        OfficeStart { owner: "Warren G. Harding", year: 1921, month: 3, day: 4 },
        OfficeStart { owner: "Calvin Coolidge", year: 1923, month: 8, day: 2 },
        OfficeStart { owner: "Herbert Hoover", year: 1929, month: 3, day: 4 },
        OfficeStart { owner: "Franklin D. Roosevelt", year: 1933, month: 3, day: 4 },
        OfficeStart { owner: "Harry S Truman", year: 1945, month: 4, day: 12 },
        OfficeStart { owner: "Dwight D. Eisenhower", year: 1953, month: 1, day: 20 },
        OfficeStart { owner: "John F. Kennedy", year: 1961, month: 1, day: 20 },
        OfficeStart { owner: "Lyndon B. Johnson", year: 1963, month: 11, day: 22 },
        OfficeStart { owner: "Richard Nixon", year: 1969, month: 1, day: 20 },
        OfficeStart { owner: "Gerald Ford", year: 1974, month: 8, day: 9 },
        OfficeStart { owner: "Jimmy Carter", year: 1977, month: 1, day: 20 },
        OfficeStart { owner: "Ronald Reagan", year: 1981, month: 1, day: 20 },
        OfficeStart { owner: "George H. W. Bush", year: 1989, month: 1, day: 20 },
        OfficeStart { owner: "Bill Clinton", year: 1993, month: 1, day: 20 },
        OfficeStart { owner: "George W. Bush", year: 2001, month: 1, day: 20 },
        OfficeStart { owner: "Barack Obama", year: 2009, month: 1, day: 20 },
        OfficeStart { owner: "Donald Trump", year: 2017, month: 1, day: 20 },
        OfficeStart { owner: "Joe Biden", year: 2021, month: 1, day: 20 },
        OfficeStart { owner: "Donald Trump", year: 2025, month: 1, day: 20 },
    ];
    proof {
        assert(starts@[0]@ == us_office_chart()[0]);
        assert(starts@[1]@ == us_office_chart()[1]);
        assert(starts@[2]@ == us_office_chart()[2]);
        assert(starts@[3]@ == us_office_chart()[3]);
        assert(starts@[4]@ == us_office_chart()[4]);
        assert(starts@[5]@ == us_office_chart()[5]);
        assert(starts@[6]@ == us_office_chart()[6]);
        assert(starts@[7]@ == us_office_chart()[7]);
        assert(starts@[8]@ == us_office_chart()[8]);
        assert(starts@[9]@ == us_office_chart()[9]);
        assert(starts@[10]@ == us_office_chart()[10]);
        assert(starts@[11]@ == us_office_chart()[11]);
        assert(starts@[12]@ == us_office_chart()[12]);
        assert(starts@[13]@ == us_office_chart()[13]);
        assert(starts@[14]@ == us_office_chart()[14]);
        assert(starts@[15]@ == us_office_chart()[15]);
        assert(starts@[16]@ == us_office_chart()[16]);
        assert(starts@[17]@ == us_office_chart()[17]);
        assert(starts@[18]@ == us_office_chart()[18]);
        assert(starts@[19]@ == us_office_chart()[19]);
        assert(starts@[20]@ == us_office_chart()[20]);
        assert(starts@[21]@ == us_office_chart()[21]);
        assert(starts@[22]@ == us_office_chart()[22]);
        assert(starts@[23]@ == us_office_chart()[23]);
        assert(starts@[24]@ == us_office_chart()[24]);
        assert(starts@[25]@ == us_office_chart()[25]);
        assert(starts@[26]@ == us_office_chart()[26]);
        assert(starts@[27]@ == us_office_chart()[27]);
        assert(starts@[28]@ == us_office_chart()[28]);
        assert(starts@[29]@ == us_office_chart()[29]);
        assert(starts@[30]@ == us_office_chart()[30]);
        assert(starts@[31]@ == us_office_chart()[31]);
        assert(starts@[32]@ == us_office_chart()[32]);
        assert(starts@[33]@ == us_office_chart()[33]);
        assert(starts@[34]@ == us_office_chart()[34]);
        assert(starts@[35]@ == us_office_chart()[35]);
        assert(starts@[36]@ == us_office_chart()[36]);
        assert(starts@[37]@ == us_office_chart()[37]);
        assert(starts@[38]@ == us_office_chart()[38]);
        assert(starts@[39]@ == us_office_chart()[39]);
        assert(starts@[40]@ == us_office_chart()[40]);
        assert(starts@[41]@ == us_office_chart()[41]);
        assert(starts@[42]@ == us_office_chart()[42]);
        assert(starts@[43]@ == us_office_chart()[43]);
        assert(starts@[44]@ == us_office_chart()[44]);
        assert(starts@[45]@ == us_office_chart()[45]);
        assert(starts@[46]@ == us_office_chart()[46]);
    }
    assert(offices_view(starts@) =~= us_office_chart());
    starts
}

/// Whether `s` is the two-letter code `a b`.
fn is_code(s: &str, a: char, b: char) -> (r: bool)
    ensures
        r == (s@ == seq![a, b]),
{
    if s.unicode_len() == 2 {
        let r = s.get_char(0) == a && s.get_char(1) == b;
        if r {
            assert(s@ =~= seq![a, b]);
        }
        r
    } else {
        false
    }
}

/// The reign chart of a country, by its ISO 3166 code, made from the chart of
/// who took office when; `None` for a country without one.
pub fn get_owners_for_country(country_iso_3166: &str) -> (owners: Option<Vec<YearOwner>>)
    ensures
        match owners {
            Some(v) => owners_for_country(country_iso_3166@) == Some(owners_view(v@)),
            None => owners_for_country(country_iso_3166@) is None,
        },
{
    proof {
        reveal_strlit("AU");
        reveal_strlit("US");
        assert("AU"@ =~= seq!['A', 'U']);
        assert("US"@ =~= seq!['U', 'S']);
        lemma_charts_are_in_order();
    }
    if is_code(country_iso_3166, 'A', 'U') {
        Some(year_owners(&au_office_starts()))
    } else if is_code(country_iso_3166, 'U', 'S') {
        Some(year_owners(&us_office_starts()))
    } else {
        None
    }
}

} // verus!
