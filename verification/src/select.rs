//! Transition window selection: the transitions of a zone that fall strictly
//! inside a calendar year, in ascending order, or — when the year saw none —
//! the single transition last in force when the year began.

use vstd::prelude::*;

use crate::calendar::{
    now_unix, year_bounds_instants, year_end_unix, year_of_instant, year_start_unix, MAX_YEAR,
    MIN_YEAR,
};
use crate::zone::ZoneData;

verus! {

/// One reported transition: its instant, the UTC offset in force from it on,
/// whether that offset is daylight-saving time, and its abbreviation.
#[derive(Clone, Debug, PartialEq, Eq)]
pub struct Timechange {
    pub time: i64,
    pub gmtoff: i64,
    pub isdst: bool,
    pub abbreviation: String,
}

/// An instant strictly inside year `year`: strictly after January 1, 00:00:00
/// UTC and strictly before December 31, 00:00:00 UTC of that year.
pub open spec fn in_year_bounds(t: int, year: int) -> bool {
    year_start_unix(year) < t && t < year_end_unix(year)
}

/// Indices, ascending, of the transitions among the first `n` whose instants
/// fall strictly inside year `year`.
pub open spec fn in_year_indices_upto(times: Seq<i64>, year: int, n: int) -> Seq<int>
    decreases n,
{
    if n <= 0 {
        Seq::empty()
    } else if in_year_bounds(times[n - 1] as int, year) {
        in_year_indices_upto(times, year, n - 1).push(n - 1)
    } else {
        in_year_indices_upto(times, year, n - 1)
    }
}

/// Indices, ascending, of all transitions strictly inside year `year`.
pub open spec fn in_year_indices(times: Seq<i64>, year: int) -> Seq<int> {
    in_year_indices_upto(times, year, times.len() as int)
}

/// Index of the last transition among the first `n` whose instant lies
/// strictly before the start of year `year`; 0 when none does.
pub open spec fn nearest_before_upto(times: Seq<i64>, year: int, n: int) -> int
    decreases n,
{
    if n <= 0 {
        0
    } else if (times[n - 1] as int) < year_start_unix(year) {
        n - 1
    } else {
        nearest_before_upto(times, year, n - 1)
    }
}

/// Index of the last transition strictly before the start of year `year`;
/// 0 when none precedes it.
pub open spec fn nearest_before(times: Seq<i64>, year: int) -> int {
    nearest_before_upto(times, year, times.len() as int)
}

/// The indices a selection for year `year` reports: the in-year transitions
/// when there are any, otherwise the single fallback index.
pub open spec fn selected_indices(times: Seq<i64>, year: int) -> Seq<int> {
    let iy = in_year_indices(times, year);
    if iy.len() > 0 {
        iy
    } else {
        seq![nearest_before(times, year)]
    }
}

/// `rec` carries exactly the data of transition `i` of `zone`: its instant,
/// and the offset, DST flag and abbreviation of its type record.
pub open spec fn record_matches(zone: ZoneData, i: int, rec: Timechange) -> bool {
    let ty = zone.types@[zone.type_indices@[i] as int];
    &&& rec.time == zone.transition_times@[i]
    &&& rec.gmtoff == ty.gmtoff
    &&& rec.isdst == (ty.isdst == 1)
    &&& rec.abbreviation@ == zone.abbreviations@[ty.abbrind as int]@
}

/// `r` is the selection for year `year` of `zone`: one record per selected
/// index, in order.
pub open spec fn select_result_matches(zone: ZoneData, year: int, r: Seq<Timechange>) -> bool {
    let sel = selected_indices(zone.transition_times@, year);
    &&& r.len() == sel.len()
    &&& forall|k: int| 0 <= k < sel.len() ==> record_matches(zone, sel[k], #[trigger] r[k])
}

/// What holds of the in-year index sequence over the first `n` transitions:
/// indices in range and ascending, their instants in-year, and every in-year
/// transition listed.
pub open spec fn in_year_indices_props(times: Seq<i64>, year: int, n: int) -> bool {
    let iy = in_year_indices_upto(times, year, n);
    &&& forall|k: int| 0 <= k < iy.len() ==> 0 <= #[trigger] iy[k] < n
    &&& forall|k: int| #![trigger iy[k]]
        0 <= k < iy.len() ==> in_year_bounds(times[iy[k]] as int, year)
    &&& forall|k1: int, k2: int| #![trigger iy[k1], iy[k2]]
        0 <= k1 < k2 < iy.len() ==> iy[k1] < iy[k2]
    &&& forall|i: int| #![trigger times[i]]
        0 <= i < n && in_year_bounds(times[i] as int, year)
            ==> exists|k: int| 0 <= k < iy.len() && #[trigger] iy[k] == i
}

pub proof fn lemma_in_year_indices_props(times: Seq<i64>, year: int, n: int)
    requires
        0 <= n <= times.len(),
    ensures
        in_year_indices_props(times, year, n),
    decreases n,
{
    if n > 0 {
        lemma_in_year_indices_props(times, year, n - 1);
        let prev = in_year_indices_upto(times, year, n - 1);
        let iy = in_year_indices_upto(times, year, n);
        if in_year_bounds(times[n - 1] as int, year) {
            assert(iy == prev.push(n - 1));
            assert forall|i: int|
                0 <= i < n && in_year_bounds(times[i] as int, year) implies exists|k: int|
                0 <= k < iy.len() && #[trigger] iy[k] == i by {
                if i == n - 1 {
                    assert(iy[iy.len() - 1] == i);
                } else {
                    let k0 = choose|k: int| 0 <= k < prev.len() && #[trigger] prev[k] == i;
                    assert(iy[k0] == i);
                }
            }
        }
    }
}

/// What holds of the fallback index over the first `n` transitions: when some
/// transition precedes the year's start, the fallback is such a transition
/// and no later one among the `n` precedes the start.
pub open spec fn nearest_before_props(times: Seq<i64>, year: int, n: int) -> bool {
    let m = nearest_before_upto(times, year, n);
    &&& 0 <= m
    &&& (n > 0 ==> m < n)
    &&& (exists|i: int| #![trigger times[i]]
        0 <= i < n && (times[i] as int) < year_start_unix(year)) ==> {
        &&& (times[m] as int) < year_start_unix(year)
        &&& forall|j: int| #![trigger times[j]]
            m < j < n ==> (times[j] as int) >= year_start_unix(year)
    }
}

pub proof fn lemma_nearest_before_props(times: Seq<i64>, year: int, n: int)
    requires
        0 <= n <= times.len(),
    ensures
        nearest_before_props(times, year, n),
    decreases n,
{
    if n > 0 {
        lemma_nearest_before_props(times, year, n - 1);
        if (times[n - 1] as int) >= year_start_unix(year) {
            if exists|i: int| #![trigger times[i]]
                0 <= i < n && (times[i] as int) < year_start_unix(year) {
                let i0 = choose|i: int| #![trigger times[i]]
                    0 <= i < n && (times[i] as int) < year_start_unix(year);
                assert(0 <= i0 < n - 1);
            }
        }
    }
}

/// Returns the transitions of `zone` that fall strictly inside year `year`,
/// in ascending order; when the year saw none, the single transition last in
/// force when the year began (the first transition of the table when even
/// that is missing). Never returns an empty list.
pub fn select(zone: &ZoneData, year: i32) -> (r: Vec<Timechange>)
    requires
        zone.wf(),
        MIN_YEAR <= year <= MAX_YEAR,
    ensures
        select_result_matches(*zone, year as int, r@),
        r@.len() >= 1,
        forall|k1: int, k2: int| #![trigger r@[k1], r@[k2]]
            0 <= k1 < k2 < r@.len() ==> r@[k1].time < r@[k2].time,
{
    let bounds = year_bounds_instants(year);
    let year_start = bounds.0;
    let year_end = bounds.1;
    let n = zone.transition_times.len();
    let mut timechanges: Vec<usize> = Vec::new();
    let mut nearest_timechange: usize = 0;
    let mut t: usize = 0;
    while t < n
        invariant
            zone.wf(),
            n == zone.transition_times@.len(),
            t <= n,
            n >= 1,
            (year_start as int) == year_start_unix(year as int),
            (year_end as int) == year_end_unix(year as int),
            timechanges@.len() == in_year_indices_upto(
                zone.transition_times@,
                year as int,
                t as int,
            ).len(),
            forall|k: int| #![trigger timechanges@[k]]
                0 <= k < timechanges@.len() ==> timechanges@[k] as int == in_year_indices_upto(
                    zone.transition_times@,
                    year as int,
                    t as int,
                )[k],
            forall|k: int| 0 <= k < timechanges@.len() ==> (#[trigger] timechanges@[k]) < n,
            nearest_timechange as int == nearest_before_upto(
                zone.transition_times@,
                year as int,
                t as int,
            ),
            nearest_timechange < n,
        decreases n - t,
    {
        let ti = zone.transition_times[t];
        if ti > year_start && ti < year_end {
            timechanges.push(t);
        }
        if ti < year_start {
            nearest_timechange = t;
        }
        t += 1;
    }
    let mut parsedtimechanges: Vec<Timechange> = Vec::new();
    if timechanges.len() != 0 {
        let m = timechanges.len();
        let mut k: usize = 0;
        while k < m
            invariant
                zone.wf(),
                m == timechanges@.len(),
                k <= m,
                timechanges@.len() == in_year_indices(zone.transition_times@, year as int).len(),
                forall|j: int| #![trigger timechanges@[j]]
                    0 <= j < timechanges@.len() ==> timechanges@[j] as int == in_year_indices(
                        zone.transition_times@,
                        year as int,
                    )[j],
                forall|j: int|
                    0 <= j < timechanges@.len() ==> (#[trigger] timechanges@[j])
                        < zone.transition_times@.len(),
                parsedtimechanges@.len() == k,
                forall|j: int|
                    0 <= j < k ==> record_matches(
                        *zone,
                        timechanges@[j] as int,
                        #[trigger] parsedtimechanges@[j],
                    ),
            decreases m - k,
        {
            let idx = timechanges[k];
            let ti = zone.type_indices[idx] as usize;
            let ty = zone.types[ti];
            let tc = Timechange {
                time: zone.transition_times[idx],
                gmtoff: ty.gmtoff,
                isdst: ty.isdst == 1,
                abbreviation: zone.abbreviations[ty.abbrind as usize].clone(),
            };
            parsedtimechanges.push(tc);
            k += 1;
        }
    } else {
        let idx = nearest_timechange;
        let ti = zone.type_indices[idx] as usize;
        let ty = zone.types[ti];
        let tc = Timechange {
            time: zone.transition_times[idx],
            gmtoff: ty.gmtoff,
            isdst: ty.isdst == 1,
            abbreviation: zone.abbreviations[ty.abbrind as usize].clone(),
        };
        parsedtimechanges.push(tc);
    }
    proof {
        let times = zone.transition_times@;
        lemma_in_year_indices_props(times, year as int, times.len() as int);
        let sel = selected_indices(times, year as int);
        assert forall|k1: int, k2: int| #![trigger parsedtimechanges@[k1], parsedtimechanges@[k2]]
            0 <= k1 < k2 < parsedtimechanges@.len() implies parsedtimechanges@[k1].time
            < parsedtimechanges@[k2].time by {
            assert(record_matches(*zone, sel[k1], parsedtimechanges@[k1]));
            assert(record_matches(*zone, sel[k2], parsedtimechanges@[k2]));
            assert(times[sel[k1]] < times[sel[k2]]);
        }
    }
    parsedtimechanges
}

/// Returns the selection of `get` for the given year, or — when `y` is absent
/// — for the calendar year of the current instant.
pub fn get(zone: &ZoneData, y: Option<i32>) -> (r: Vec<Timechange>)
    requires
        zone.wf(),
        y matches Some(v) ==> MIN_YEAR <= v <= MAX_YEAR,
    ensures
        r@.len() >= 1,
        forall|k1: int, k2: int| #![trigger r@[k1], r@[k2]]
            0 <= k1 < k2 < r@.len() ==> r@[k1].time < r@[k2].time,
        match y {
            Some(v) => select_result_matches(*zone, v as int, r@),
            None => exists|v: int|
                MIN_YEAR <= v <= MAX_YEAR && #[trigger] select_result_matches(*zone, v, r@),
        },
{
    let year: i32 = match y {
        Some(v) => v,
        None => year_of_instant(now_unix()),
    };
    let r = select(zone, year);
    proof {
        if y is None {
            assert(MIN_YEAR <= year as int <= MAX_YEAR && select_result_matches(
                *zone,
                year as int,
                r@,
            ));
        }
    }
    r
}

/// Law: selection is deterministic — any two results for the same zone and
/// year are deep-equal, record for record.
pub proof fn lemma_select_deterministic(
    zone: ZoneData,
    year: int,
    r1: Seq<Timechange>,
    r2: Seq<Timechange>,
)
    requires
        select_result_matches(zone, year, r1),
        select_result_matches(zone, year, r2),
    ensures
        r1.len() == r2.len(),
        forall|k: int| #![trigger r1[k]]
            0 <= k < r1.len() ==> {
                &&& r1[k].time == r2[k].time
                &&& r1[k].gmtoff == r2[k].gmtoff
                &&& r1[k].isdst == r2[k].isdst
                &&& r1[k].abbreviation@ == r2[k].abbreviation@
            },
{
    let sel = selected_indices(zone.transition_times@, year);
    assert forall|k: int| #![trigger r1[k]] 0 <= k < r1.len() implies {
        &&& r1[k].time == r2[k].time
        &&& r1[k].gmtoff == r2[k].gmtoff
        &&& r1[k].isdst == r2[k].isdst
        &&& r1[k].abbreviation@ == r2[k].abbreviation@
    } by {
        assert(record_matches(zone, sel[k], r1[k]));
        assert(record_matches(zone, sel[k], r2[k]));
    }
}

/// Law: for a year with no in-year transitions but with some transition
/// preceding it, selection returns exactly one record — the latest transition
/// strictly preceding the year's start.
pub proof fn lemma_fallback_is_latest_before(zone: ZoneData, year: int, r: Seq<Timechange>)
    requires
        zone.wf(),
        select_result_matches(zone, year, r),
        in_year_indices(zone.transition_times@, year).len() == 0,
        exists|i: int| #![trigger zone.transition_times@[i]]
            0 <= i < zone.transition_times@.len() && (zone.transition_times@[i] as int)
                < year_start_unix(year),
    ensures
        r.len() == 1,
        record_matches(zone, nearest_before(zone.transition_times@, year), r[0]),
        (zone.transition_times@[nearest_before(zone.transition_times@, year)] as int)
            < year_start_unix(year),
        forall|j: int| #![trigger zone.transition_times@[j]]
            nearest_before(zone.transition_times@, year) < j < zone.transition_times@.len()
                ==> (zone.transition_times@[j] as int) >= year_start_unix(year),
{
    let times = zone.transition_times@;
    lemma_nearest_before_props(times, year, times.len() as int);
    assert(selected_indices(times, year) == seq![nearest_before(times, year)]);
    assert(record_matches(zone, selected_indices(times, year)[0], r[0]));
}

} // verus!
