use vstd::prelude::*;

use crate::rulers::{owners_view, YearOwner};

verus! {

/// A reign chart as plain values: each owner's name and ranges of years.
pub type OwnerChart = Seq<(Seq<char>, Seq<(i32, i32)>)>;

/// Whether a range of years, first and last included, holds `year`.
pub open spec fn range_contains(range: (i32, i32), year: int) -> bool {
    range.0 <= year <= range.1
}

/// The number of years in the first `i` ranges.
pub open spec fn years_before(ranges: Seq<(i32, i32)>, i: int) -> int
    decreases i,
{
    if i <= 0 {
        0
    } else {
        years_before(ranges, i - 1) + (ranges[i - 1].1 - ranges[i - 1].0 + 1)
    }
}

/// The year of the reign that `year` is, counting from one over all of an
/// owner's ranges when `year` falls in range `i`.
pub open spec fn reign_count(ranges: Seq<(i32, i32)>, i: int, year: int) -> int {
    years_before(ranges, i) + (year - ranges[i].0) + 1
}

/// Range `i` of owner `o` holds `year`, and it is the first such range in the
/// chart's order: no earlier owner and no earlier range of `o` holds it.
pub open spec fn is_first_reign(owners: OwnerChart, year: int, o: int, i: int) -> bool {
    &&& 0 <= o < owners.len()
    &&& 0 <= i < owners[o].1.len()
    &&& range_contains(owners[o].1[i], year)
    &&& forall|p: int, j: int|
        0 <= p < o && 0 <= j < owners[p].1.len() ==> !range_contains(#[trigger] owners[p].1[j], year)
    &&& forall|j: int| 0 <= j < i ==> !range_contains(#[trigger] owners[o].1[j], year)
}

/// Some owner and range of the chart are the first to hold `year`.
pub open spec fn has_reign(owners: OwnerChart, year: int) -> bool {
    exists|o: int, i: int| is_first_reign(owners, year, o, i)
}

/// The owner and range that count `year`, when there is one.
pub open spec fn first_reign(owners: OwnerChart, year: int) -> (int, int) {
    choose|o: int, i: int| is_first_reign(owners, year, o, i)
}

/// At most one owner and range are the first to hold a year.
pub proof fn lemma_first_reign_unique(owners: OwnerChart, year: int, o1: int, i1: int, o2: int, i2: int)
    requires
        is_first_reign(owners, year, o1, i1),
        is_first_reign(owners, year, o2, i2),
    ensures
        o1 == o2 && i1 == i2,
{
    if o1 < o2 {
        assert(!range_contains(owners[o1].1[i1], year));
    } else if o2 < o1 {
        assert(!range_contains(owners[o2].1[i2], year));
    } else if i1 < i2 {
        assert(!range_contains(owners[o1].1[i1], year));
    } else if i2 < i1 {
        assert(!range_contains(owners[o2].1[i2], year));
    }
}

/// Looks `year` up in a reign chart: the first owner, in the chart's order,
/// with a range holding it, the first such range of that owner, and the year
/// of the reign that `year` is, counted over all the owner's ranges.
pub fn find_reign(owners: &Vec<YearOwner>, year: i32) -> (found: Option<(usize, usize, i128)>)
    ensures
        match found {
            Some((o, i, count)) => {
                &&& is_first_reign(owners_view(owners@), year as int, o as int, i as int)
                &&& count == reign_count(owners_view(owners@)[o as int].1, i as int, year as int)
            },
            None => !has_reign(owners_view(owners@), year as int),
        },
{
    let ghost chart = owners_view(owners@);
    let n = owners.len();
    let mut o: usize = 0;
    while o < n
        invariant
            n == owners@.len(),
            chart == owners_view(owners@),
            o <= n,
            forall|p: int, j: int|
                0 <= p < o && 0 <= j < chart[p].1.len() ==> !range_contains(#[trigger] chart[p].1[j], year as int),
        decreases n - o,
    {
        let ranges = &owners[o].years;
        assert(ranges@ == chart[o as int].1);
        let m = ranges.len();
        let mut i: usize = 0;
        while i < m
            invariant
                n == owners@.len(),
                chart == owners_view(owners@),
                o < n,
                ranges@ == chart[o as int].1,
                m == ranges@.len(),
                i <= m,
                forall|p: int, j: int|
                    0 <= p < o && 0 <= j < chart[p].1.len() ==> !range_contains(#[trigger] chart[p].1[j], year as int),
                forall|j: int| 0 <= j < i ==> !range_contains(#[trigger] chart[o as int].1[j], year as int),
            decreases m - i,
        {
            let (first, last) = ranges[i];
            if first <= year && year <= last {
                let mut count: i128 = 0;
                let mut j: usize = 0;
                while j < i
                    invariant
                        i < m,
                        m == ranges@.len(),
                        j <= i,
                        count == years_before(ranges@, j as int),
                        -(j as int) * 0x1_0000_0000 <= count <= (j as int) * 0x1_0000_0000,
                    decreases i - j,
                {
                    let (a, b) = ranges[j];
                    count = count + ((b as i128) - (a as i128) + 1);
                    j = j + 1;
                }
                count = count + ((year as i128) - (first as i128)) + 1;
                assert(is_first_reign(chart, year as int, o as int, i as int));
                return Some((o, i, count));
            }
            i = i + 1;
        }
        o = o + 1;
    }
    assert forall|p: int, i: int| !is_first_reign(chart, year as int, p, i) by {
        if 0 <= p < chart.len() && 0 <= i < chart[p].1.len() {
            assert(!range_contains(chart[p].1[i], year as int));
        }
    }
    None
}

/// The first year of an owner's first range is the first year of the reign.
pub proof fn lemma_reign_starts_at_one(ranges: Seq<(i32, i32)>)
    requires
        ranges.len() > 0,
    ensures
        reign_count(ranges, 0, ranges[0].0 as int) == 1,
{
}

/// Within a range the years of the reign count up one by one.
pub proof fn lemma_reign_counts_on(ranges: Seq<(i32, i32)>, i: int, year: int)
    requires
        0 <= i < ranges.len(),
    ensures
        reign_count(ranges, i, year + 1) == reign_count(ranges, i, year) + 1,
{
}

/// An owner who returns to office takes up the count where the last range
/// left it: the first year of range `i + 1` follows the last year of range `i`.
pub proof fn lemma_reign_resumes(ranges: Seq<(i32, i32)>, i: int)
    requires
        0 <= i,
        i + 1 < ranges.len(),
    ensures
        reign_count(ranges, i + 1, ranges[i + 1].0 as int) == reign_count(ranges, i, ranges[i].1 as int) + 1,
{
    assert(years_before(ranges, i + 1) == years_before(ranges, i) + (ranges[i].1 - ranges[i].0 + 1));
}

} // verus!
