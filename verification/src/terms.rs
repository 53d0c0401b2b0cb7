use vstd::prelude::*;

use crate::calendar::{is_valid_date, MAX_YEAR};
use crate::reign::{
    first_reign, has_reign, is_first_reign, lemma_first_reign_unique, lemma_reign_counts_on,
    lemma_reign_resumes, range_contains, reign_count, OwnerChart,
};
use crate::rulers::{owners_view, YearOwner};

verus! {

/// A chart of offices as plain values: who took office, and the year, month
/// and day they did, in the order they did.
pub type OfficeChart = Seq<(Seq<char>, int, int, int)>;

/// An office taken on the first day of its year.
pub open spec fn starts_on_new_year(entry: (Seq<char>, int, int, int)) -> bool {
    entry.2 == 1 && entry.3 == 1
}

/// The first year that the `i`th holder of office owns: a year belongs to
/// whoever held office on its first day. The first holder owns every year
/// before the second.
pub open spec fn first_owned_year(chart: OfficeChart, i: int) -> int {
    if i == 0 {
        i32::MIN as int
    } else if starts_on_new_year(chart[i]) {
        chart[i].1
    } else {
        chart[i].1 + 1
    }
}

/// The last year that the `i`th holder of office owns; the last holder owns
/// every year after.
pub open spec fn last_owned_year(chart: OfficeChart, i: int) -> int {
    if i + 1 >= chart.len() {
        i32::MAX as int
    } else if starts_on_new_year(chart[i + 1]) {
        chart[i + 1].1 - 1
    } else {
        chart[i + 1].1
    }
}

/// The position of `name` among the owners from `k` on, or the number of
/// owners where it is not among them.
pub open spec fn owner_position(owners: OwnerChart, name: Seq<char>, k: nat) -> int
    decreases owners.len() - k,
{
    if k >= owners.len() {
        owners.len() as int
    } else if owners[k as int].0 == name {
        k as int
    } else {
        owner_position(owners, name, k + 1)
    }
}

/// Adds a term to a reign chart: to the owner's ranges where the owner is in
/// it already, else as a new owner at the end.
pub open spec fn add_term(owners: OwnerChart, name: Seq<char>, range: (i32, i32)) -> OwnerChart {
    let o = owner_position(owners, name, 0);
    if o < owners.len() {
        owners.update(o, (name, owners[o].1.push(range)))
    } else {
        owners.push((name, seq![range]))
    }
}

/// The reign chart of the first `k` holders of office: each holder's owned
/// years as a range, holders who own no year left out, the terms of one
/// person gathered under their name, owners in the order of their first year.
pub open spec fn owners_of_first(chart: OfficeChart, k: nat) -> OwnerChart
    decreases k,
{
    if k == 0 {
        seq![]
    } else {
        let prev = owners_of_first(chart, (k - 1) as nat);
        let i = k - 1;
        if first_owned_year(chart, i) > last_owned_year(chart, i) {
            prev
        } else {
            add_term(prev, chart[i].0, (first_owned_year(chart, i) as i32, last_owned_year(chart, i) as i32))
        }
    }
}

/// The reign chart of a chart of offices.
pub open spec fn year_owners_of(chart: OfficeChart) -> OwnerChart {
    owners_of_first(chart, chart.len())
}

/// One date is not after another.
pub open spec fn date_not_after(a: (Seq<char>, int, int, int), b: (Seq<char>, int, int, int)) -> bool {
    a.1 < b.1 || (a.1 == b.1 && (a.2 < b.2 || (a.2 == b.2 && a.3 <= b.3)))
}

/// A chart of offices with at least one holder, valid dates, in the order the
/// offices were taken.
pub open spec fn is_office_chart(chart: OfficeChart) -> bool {
    &&& chart.len() > 0
    &&& forall|i: int| 0 <= i < chart.len() ==> is_valid_date(chart[i].1, chart[i].2, chart[i].3)
    &&& forall|i: int| 0 <= i < chart.len() - 1 ==> date_not_after(#[trigger] chart[i], chart[i + 1])
}

/// Some range of some owner holds `year`.
pub open spec fn is_covered(owners: OwnerChart, year: int) -> bool {
    exists|o: int, j: int|
        0 <= o < owners.len() && 0 <= j < owners[o].1.len() && range_contains(#[trigger] owners[o].1[j], year)
}

/// The ranges of a reign chart tile the years from `i32::MIN` to `last`: each
/// such year lies in exactly one range, no range reaches past `last`, each
/// owner's ranges rise, owners come in the order of their first year, and
/// names are distinct.
pub open spec fn tiles_up_to(owners: OwnerChart, last: int) -> bool {
    &&& forall|o: int| 0 <= o < owners.len() ==> owners[o].1.len() > 0
    &&& forall|o: int, j: int|
        0 <= o < owners.len() && 0 <= j < owners[o].1.len()
            ==> i32::MIN <= (#[trigger] owners[o].1[j]).0 <= owners[o].1[j].1 <= last
    &&& forall|y: int| i32::MIN <= y <= last ==> #[trigger] is_covered(owners, y)
    &&& forall|o1: int, j1: int, o2: int, j2: int|
        0 <= o1 < owners.len() && 0 <= j1 < owners[o1].1.len() && 0 <= o2 < owners.len() && 0 <= j2
            < owners[o2].1.len() && (o1 != o2 || j1 != j2)
            ==> (#[trigger] owners[o1].1[j1]).1 < (#[trigger] owners[o2].1[j2]).0
            || owners[o2].1[j2].1 < owners[o1].1[j1].0
    &&& forall|o: int, j: int|
        0 <= o < owners.len() && 0 <= j && j + 1 < owners[o].1.len()
            ==> (#[trigger] owners[o].1[j]).1 < owners[o].1[j + 1].0
    &&& forall|o1: int, o2: int|
        0 <= o1 < o2 < owners.len() ==> (#[trigger] owners[o1].1[0]).0 < (#[trigger] owners[o2].1[0]).0
    &&& forall|o1: int, o2: int|
        0 <= o1 < o2 < owners.len() ==> (#[trigger] owners[o1]).0 != (#[trigger] owners[o2]).0
}

proof fn lemma_owner_position(owners: OwnerChart, name: Seq<char>, k: nat)
    requires
        k <= owners.len(),
    ensures
        k <= owner_position(owners, name, k) <= owners.len(),
        owner_position(owners, name, k) < owners.len() ==> owners[owner_position(owners, name, k)].0 == name,
        forall|p: int| k <= p < owner_position(owners, name, k) ==> owners[p].0 != name,
    decreases owners.len() - k,
{
    if k < owners.len() && owners[k as int].0 != name {
        lemma_owner_position(owners, name, k + 1);
    }
}

proof fn lemma_last_owned_year_rises(chart: OfficeChart, i: int)
    requires
        is_office_chart(chart),
        0 <= i,
        i + 1 < chart.len(),
    ensures
        last_owned_year(chart, i) <= last_owned_year(chart, i + 1),
        first_owned_year(chart, i + 1) == last_owned_year(chart, i) + 1,
{
    assert(date_not_after(chart[i], chart[i + 1]));
    assert(is_valid_date(chart[i + 1].1, chart[i + 1].2, chart[i + 1].3));
    if i + 2 < chart.len() {
        assert(date_not_after(chart[i + 1], chart[i + 2]));
        assert(is_valid_date(chart[i + 2].1, chart[i + 2].2, chart[i + 2].3));
    }
}

proof fn lemma_owners_of_first_tile(chart: OfficeChart, k: nat)
    requires
        is_office_chart(chart),
        1 <= k <= chart.len(),
    ensures
        tiles_up_to(owners_of_first(chart, k), last_owned_year(chart, k - 1)),
    decreases k,
{
    let i = k - 1;
    let a = first_owned_year(chart, i);
    let b = last_owned_year(chart, i);
    assert(is_valid_date(chart[i].1, chart[i].2, chart[i].3));
    if i + 1 < chart.len() {
        assert(is_valid_date(chart[i + 1].1, chart[i + 1].2, chart[i + 1].3));
    }
    if k == 1 {
        let owners = owners_of_first(chart, k);
        assert(owners_of_first(chart, 0) == Seq::<(Seq<char>, Seq<(i32, i32)>)>::empty());
        assert(a == i32::MIN);
        assert(a <= b);
        assert(owners == seq![(chart[0].0, seq![(a as i32, b as i32)])]);
        assert forall|y: int| i32::MIN <= y <= b implies is_covered(owners, y) by {
            assert(range_contains(owners[0].1[0], y));
        }
    } else {
        let prev = owners_of_first(chart, (k - 1) as nat);
        let e = last_owned_year(chart, i - 1);
        lemma_owners_of_first_tile(chart, (k - 1) as nat);
        lemma_last_owned_year_rises(chart, i - 1);
        assert(a == e + 1);
        assert(e <= b);
        if a > b {
            assert(b == e);
        } else {
            let name = chart[i].0;
            let r = (a as i32, b as i32);
            lemma_owner_position(prev, name, 0);
            let o = owner_position(prev, name, 0);
            let owners = owners_of_first(chart, k);
            assert(owners == add_term(prev, name, r));
            if o < prev.len() {
                assert(owners == prev.update(o, (name, prev[o].1.push(r))));
                assert forall|p: int, j: int|
                    0 <= p < owners.len() && 0 <= j < owners[p].1.len() implies
                    (p == o && j == prev[o].1.len() && owners[p].1[j] == r)
                    || (j < prev[p].1.len() && owners[p].1[j] == prev[p].1[j]) by {
                }
                assert forall|y: int| i32::MIN <= y <= b implies is_covered(owners, y) by {
                    if y <= e {
                        assert(is_covered(prev, y));
                        let (p, j) = choose|p: int, j: int|
                            0 <= p < prev.len() && 0 <= j < prev[p].1.len() && range_contains(#[trigger] prev[p].1[j], y);
                        assert(owners[p].1[j] == prev[p].1[j]);
                    } else {
                        assert(owners[o].1[prev[o].1.len() as int] == r);
                    }
                }
                assert(owners[o].1[0] == prev[o].1[0]);
            } else {
                assert(owners == prev.push((name, seq![r])));
                assert forall|p: int, j: int|
                    0 <= p < owners.len() && 0 <= j < owners[p].1.len() implies
                    (p == prev.len() && j == 0 && owners[p].1[j] == r)
                    || (p < prev.len() && j < prev[p].1.len() && owners[p].1[j] == prev[p].1[j]) by {
                }
                assert forall|y: int| i32::MIN <= y <= b implies is_covered(owners, y) by {
                    if y <= e {
                        assert(is_covered(prev, y));
                        let (p, j) = choose|p: int, j: int|
                            0 <= p < prev.len() && 0 <= j < prev[p].1.len() && range_contains(#[trigger] prev[p].1[j], y);
                        assert(owners[p].1[j] == prev[p].1[j]);
                    } else {
                        assert(owners[prev.len() as int].1[0] == r);
                    }
                }
            }
        }
    }
}

/// In a reign chart that tiles the years up to `last`, the range holding a
/// year is the first to hold it.
proof fn lemma_tiled_year_has_first_reign(owners: OwnerChart, last: int, y: int)
    requires
        tiles_up_to(owners, last),
        i32::MIN <= y <= last,
    ensures
        has_reign(owners, y),
        is_first_reign(owners, y, first_reign(owners, y).0, first_reign(owners, y).1),
{
    assert(is_covered(owners, y));
    let (o, j) = choose|o: int, j: int|
        0 <= o < owners.len() && 0 <= j < owners[o].1.len() && range_contains(#[trigger] owners[o].1[j], y);
    assert forall|p: int, q: int|
        0 <= p < o && 0 <= q < owners[p].1.len() implies !range_contains(#[trigger] owners[p].1[q], y) by {
        assert(owners[p].1[q].1 < owners[o].1[j].0 || owners[o].1[j].1 < owners[p].1[q].0);
    }
    assert forall|q: int| 0 <= q < j implies !range_contains(#[trigger] owners[o].1[q], y) by {
        assert(owners[o].1[q].1 < owners[o].1[j].0 || owners[o].1[j].1 < owners[o].1[q].0);
    }
    assert(is_first_reign(owners, y, o, j));
}

/// The reign chart of a chart of offices gives every `i32` year exactly one
/// owner and range: the ranges tile all the years, each owner's ranges rise,
/// owners come in the order of their first year, names are distinct, and
/// every year has its first reign.
pub proof fn lemma_year_owners_tile_all_years(chart: OfficeChart)
    requires
        is_office_chart(chart),
    ensures
        tiles_up_to(year_owners_of(chart), i32::MAX as int),
        forall|y: int| i32::MIN <= y <= i32::MAX ==> #[trigger] has_reign(year_owners_of(chart), y),
{
    let owners = year_owners_of(chart);
    lemma_owners_of_first_tile(chart, chart.len());
    assert(last_owned_year(chart, chart.len() - 1) == i32::MAX);
    assert(tiles_up_to(owners, i32::MAX as int));
    assert forall|y: int| i32::MIN <= y <= i32::MAX implies #[trigger] has_reign(owners, y) by {
        lemma_tiled_year_has_first_reign(owners, i32::MAX as int, y);
    }
}

/// Year after year, the count of a reign rises by one while the owner stays
/// the same, also where the owner's next term begins after another's.
pub proof fn lemma_year_owners_count_on(chart: OfficeChart, y: int)
    requires
        is_office_chart(chart),
        i32::MIN <= y < i32::MAX,
    ensures
        ({
            let owners = year_owners_of(chart);
            let (o1, j1) = first_reign(owners, y);
            let (o2, j2) = first_reign(owners, y + 1);
            &&& is_first_reign(owners, y, o1, j1)
            &&& is_first_reign(owners, y + 1, o2, j2)
            &&& o1 == o2 ==> reign_count(owners[o1].1, j2, y + 1) == reign_count(owners[o1].1, j1, y) + 1
        }),
{
    let owners = year_owners_of(chart);
    lemma_owners_of_first_tile(chart, chart.len());
    lemma_tiled_year_has_first_reign(owners, i32::MAX as int, y);
    lemma_tiled_year_has_first_reign(owners, i32::MAX as int, y + 1);
    let (o1, j1) = first_reign(owners, y);
    let (o2, j2) = first_reign(owners, y + 1);
    if o1 == o2 {
        let ranges = owners[o1].1;
        if j1 == j2 {
            lemma_reign_counts_on(ranges, j1, y);
        } else {
            // the ranges of one owner are disjoint and rise
            assert(ranges[j1].1 < ranges[j2].0 || ranges[j2].1 < ranges[j1].0);
            assert(j1 < j2) by {
                if j2 < j1 {
                    assert forall|a: int, b: int| 0 <= a <= b < ranges.len() implies ranges[a].0 <= ranges[b].0 by {
                        lemma_ranges_rise(owners, o1, a, b);
                    }
                    assert(ranges[j2].0 <= ranges[j1].0);
                }
            }
            assert(ranges[j1].1 == y);
            assert(ranges[j2].0 == y + 1);
            if j2 > j1 + 1 {
                assert(ranges[j1].1 < ranges[j1 + 1].0);
                lemma_ranges_rise(owners, o1, j1 + 1, j2);
                assert(ranges[j1 + 1].1 < ranges[j2].0 || ranges[j2].1 < ranges[j1 + 1].0);
            }
            assert(j2 == j1 + 1);
            lemma_reign_resumes(ranges, j1);
        }
    }
}

proof fn lemma_ranges_rise(owners: OwnerChart, o: int, a: int, b: int)
    requires
        tiles_up_to(owners, i32::MAX as int),
        0 <= o < owners.len(),
        0 <= a <= b < owners[o].1.len(),
    ensures
        owners[o].1[a].0 <= owners[o].1[b].0,
        a < b ==> owners[o].1[a].1 < owners[o].1[b].0,
    decreases b - a,
{
    if a < b {
        lemma_ranges_rise(owners, o, a + 1, b);
        assert(owners[o].1[a].1 < owners[o].1[a + 1].0);
    }
}

/// Someone taking office on a date.
pub struct OfficeStart {
    pub owner: &'static str,
    pub year: i32,
    pub month: u32,
    pub day: u32,
}

impl View for OfficeStart {
    type V = (Seq<char>, int, int, int);

    open spec fn view(&self) -> (Seq<char>, int, int, int) {
        (self.owner@, self.year as int, self.month as int, self.day as int)
    }
}

/// The view of a list of office starts.
pub open spec fn offices_view(chart: Seq<OfficeStart>) -> OfficeChart {
    chart.map_values(|e: OfficeStart| e@)
}

fn same_name(a: &str, b: &str) -> (same: bool)
    ensures
        same == (a@ == b@),
{
    let n = a.unicode_len();
    if n != b.unicode_len() {
        return false;
    }
    let mut i: usize = 0;
    while i < n
        invariant
            n == a@.len(),
            n == b@.len(),
            i <= n,
            forall|k: int| 0 <= k < i ==> a@[k] == b@[k],
        decreases n - i,
    {
        if a.get_char(i) != b.get_char(i) {
            return false;
        }
        i = i + 1;
    }
    assert(a@ =~= b@);
    true
}

fn position_of(owners: &Vec<YearOwner>, name: &str) -> (o: usize)
    ensures
        o == owner_position(owners_view(owners@), name@, 0),
{
    let ghost view = owners_view(owners@);
    let mut o: usize = 0;
    while o < owners.len()
        invariant
            view == owners_view(owners@),
            o <= owners@.len(),
            owner_position(view, name@, 0) == owner_position(view, name@, o as nat),
        decreases owners@.len() - o,
    {
        assert(view[o as int].0 == owners@[o as int].owner@);
        if same_name(owners[o].owner, name) {
            return o;
        }
        o = o + 1;
    }
    o
}

/// The reign chart of a chart of offices: a year belongs to whoever held
/// office on its first day, the first holder owns every year before the
/// second and the last every year after; holders who own no year are left
/// out, and the terms of one person are gathered under their name, owners in
/// the order of their first year.
pub fn year_owners(chart: &Vec<OfficeStart>) -> (owners: Vec<YearOwner>)
    requires
        is_office_chart(offices_view(chart@)),
    ensures
        owners_view(owners@) == year_owners_of(offices_view(chart@)),
{
    let ghost view = offices_view(chart@);
    let n = chart.len();
    let mut owners: Vec<YearOwner> = Vec::new();
    let mut k: usize = 0;
    assert(owners_view(owners@) =~= owners_of_first(view, 0));
    while k < n
        invariant
            view == offices_view(chart@),
            is_office_chart(view),
            n == chart@.len(),
            k <= n,
            owners_view(owners@) == owners_of_first(view, k as nat),
        decreases n - k,
    {
        let entry = &chart[k];
        assert(view[k as int] == entry@);
        assert(is_valid_date(view[k as int].1, view[k as int].2, view[k as int].3));
        let first: i32 = if k == 0 {
            i32::MIN
        } else if entry.month == 1 && entry.day == 1 {
            entry.year
        } else {
            entry.year + 1
        };
        let last: i32 = if k + 1 >= n {
            i32::MAX
        } else {
            let next = &chart[k + 1];
            assert(view[k + 1] == next@);
            assert(is_valid_date(view[k + 1].1, view[k + 1].2, view[k + 1].3));
            if next.month == 1 && next.day == 1 {
                next.year - 1
            } else {
                next.year
            }
        };
        assert(first == first_owned_year(view, k as int));
        assert(last == last_owned_year(view, k as int));
        let ghost prev = owners_view(owners@);
        if first <= last {
            let o = position_of(&owners, entry.owner);
            proof {
                lemma_owner_position(prev, entry.owner@, 0);
            }
            if o < owners.len() {
                let ghost before = owners@;
                let mut owner = owners.remove(o);
                assert(owner == before[o as int]);
                assert(prev[o as int] == before[o as int]@);
                owner.years.push((first, last));
                let ghost updated = owner@;
                assert(updated == (entry.owner@, prev[o as int].1.push((first, last))));
                owners.insert(o, owner);
                assert(owners@ =~= before.update(o as int, owner));
                assert(owner_position(prev, entry.owner@, 0) == o as int);
                assert(add_term(prev, entry.owner@, (first, last))
                    == prev.update(o as int, (entry.owner@, prev[o as int].1.push((first, last)))));
                assert(owners_view(owners@) =~= prev.update(o as int, updated));
            } else {
                let years = vec![(first, last)];
                assert(years@ =~= seq![(first, last)]);
                let ghost before = owners@;
                owners.push(YearOwner { owner: entry.owner, years });
                assert(owners@ == before.push(owners@[before.len() as int]));
                assert(owner_position(prev, entry.owner@, 0) == prev.len());
                assert(owners_view(owners@) =~= prev.push((entry.owner@, seq![(first, last)])));
            }
        }
        k = k + 1;
    }
    owners
}

} // verus!
