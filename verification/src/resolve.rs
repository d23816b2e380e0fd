//! Current-state resolution: given the transitions a year selection reported
//! and an instant, derive the offset, abbreviation and (for a two-transition
//! year) the DST window in force at that instant.

use vstd::prelude::*;

use crate::calendar::{now_unix, year_start_unix, MAX_YEAR, MIN_YEAR};
use crate::select::{
    in_year_bounds, in_year_indices, lemma_in_year_indices_props, record_matches,
    select_result_matches, selected_indices, Timechange,
};
use crate::zone::{valid_offset, ZoneData};

verus! {

/// The state of a timezone at one instant: the instant itself, the local
/// wall-clock value (`utc_datetime` shifted by the active offset), the DST
/// window when one brackets the year, the standard (`raw_offset`) and DST
/// (`dst_offset`) offsets, and the active offset and abbreviation.
#[derive(Clone, Debug, PartialEq, Eq)]
pub struct Tzdata {
    pub utc_datetime: i64,
    pub datetime: i64,
    pub dst_from: Option<i64>,
    pub dst_until: Option<i64>,
    pub raw_offset: i64,
    pub dst_offset: i64,
    pub utc_offset: i32,
    pub abbreviation: String,
}

/// What resolution returns for `records` at instant `now`.
///
/// Two records: the first is taken as the DST start and the second as the DST
/// end (positional, never re-checked against the DST flags); `now` is inside
/// the window only strictly between them, and the active offset and
/// abbreviation come from the first record inside the window and from the
/// second outside it. One record: its offset rules alone, with no window and
/// a DST offset of zero. Any other length is unsupported and yields nothing.
pub open spec fn resolve_post(records: Seq<Timechange>, now: int, r: Option<Tzdata>) -> bool {
    match r {
        Option::None => !(records.len() == 1 || records.len() == 2),
        Option::Some(c) => {
            if records.len() == 2 {
                let dst = (records[0].time as int) < now && now < (records[1].time as int);
                let active = if dst {
                    records[0].gmtoff as int
                } else {
                    records[1].gmtoff as int
                };
                &&& (c.utc_datetime as int) == now
                &&& (c.datetime as int) == now + active
                &&& c.dst_from == Option::Some(records[0].time)
                &&& c.dst_until == Option::Some(records[1].time)
                &&& c.raw_offset == records[1].gmtoff
                &&& c.dst_offset == records[0].gmtoff
                &&& (c.utc_offset as int) == active
                &&& c.abbreviation@ == (if dst {
                    records[0].abbreviation@
                } else {
                    records[1].abbreviation@
                })
            } else if records.len() == 1 {
                &&& (c.utc_datetime as int) == now
                &&& (c.datetime as int) == now + records[0].gmtoff
                &&& c.dst_from is None
                &&& c.dst_until is None
                &&& c.raw_offset == records[0].gmtoff
                &&& c.dst_offset == 0
                &&& (c.utc_offset as int) == records[0].gmtoff as int
                &&& c.abbreviation@ == records[0].abbreviation@
            } else {
                false
            }
        },
    }
}

/// Resolves the state of a timezone at instant `now` from the records a year
/// selection reported: supported for one- and two-record lists only.
pub fn resolve(parsedtimechanges: &Vec<Timechange>, now: i64) -> (r: Option<Tzdata>)
    requires
        parsedtimechanges@.len() == 1 || parsedtimechanges@.len() == 2 ==> {
            &&& valid_offset(parsedtimechanges@[0].gmtoff as int)
            &&& i64::MIN + 86400 <= now <= i64::MAX - 86400
        },
        parsedtimechanges@.len() == 2 ==> valid_offset(parsedtimechanges@[1].gmtoff as int),
    ensures
        resolve_post(parsedtimechanges@, now as int, r),
{
    if parsedtimechanges.len() == 2 {
        let dst = now > parsedtimechanges[0].time && now < parsedtimechanges[1].time;
        let active: i64 = if dst {
            parsedtimechanges[0].gmtoff
        } else {
            parsedtimechanges[1].gmtoff
        };
        Some(
            Tzdata {
                utc_datetime: now,
                datetime: now + active,
                dst_from: Some(parsedtimechanges[0].time),
                dst_until: Some(parsedtimechanges[1].time),
                raw_offset: parsedtimechanges[1].gmtoff,
                dst_offset: parsedtimechanges[0].gmtoff,
                utc_offset: active as i32,
                abbreviation: if dst {
                    parsedtimechanges[0].abbreviation.clone()
                } else {
                    parsedtimechanges[1].abbreviation.clone()
                },
            },
        )
    } else if parsedtimechanges.len() == 1 {
        let active: i64 = parsedtimechanges[0].gmtoff;
        Some(
            Tzdata {
                utc_datetime: now,
                datetime: now + active,
                dst_from: None,
                dst_until: None,
                raw_offset: active,
                dst_offset: 0,
                utc_offset: active as i32,
                abbreviation: parsedtimechanges[0].abbreviation.clone(),
            },
        )
    } else {
        None
    }
}

/// Resolves the state of a timezone at the current instant. The instant used
/// is reported back in the result's `utc_datetime` field.
pub fn worldtime(parsedtimechanges: Vec<Timechange>) -> (r: Option<Tzdata>)
    requires
        parsedtimechanges@.len() >= 1 ==> valid_offset(parsedtimechanges@[0].gmtoff as int),
        parsedtimechanges@.len() == 2 ==> valid_offset(parsedtimechanges@[1].gmtoff as int),
    ensures
        (r is None) <==> !(parsedtimechanges@.len() == 1 || parsedtimechanges@.len() == 2),
        r matches Some(c) ==> resolve_post(parsedtimechanges@, c.utc_datetime as int, r),
{
    let now = now_unix();
    proof {
        assert(year_start_unix(MIN_YEAR as int) >= i64::MIN + 86400);
        assert(year_start_unix(MAX_YEAR as int + 1) <= i64::MAX - 86400);
    }
    resolve(&parsedtimechanges, now)
}

/// Law: on a two-record list resolution always succeeds, its active offset is
/// one of the two records' offsets, and it is the first record's exactly when
/// `now` lies strictly between the two transitions.
pub proof fn lemma_resolve_two_records(records: Seq<Timechange>, now: int, r: Option<Tzdata>)
    requires
        records.len() == 2,
        resolve_post(records, now, r),
    ensures
        r matches Some(c) && {
            let dst = (records[0].time as int) < now && now < (records[1].time as int);
            &&& (c.utc_offset as int) == (if dst {
                records[0].gmtoff as int
            } else {
                records[1].gmtoff as int
            })
            &&& ((c.utc_offset as int) == records[0].gmtoff as int || (c.utc_offset as int)
                == records[1].gmtoff as int)
            &&& c.abbreviation@ == (if dst {
                records[0].abbreviation@
            } else {
                records[1].abbreviation@
            })
        },
{
}

/// Law: on a one-record list resolution always succeeds, reports a DST offset
/// of zero, and reports no DST window.
pub proof fn lemma_resolve_one_record(records: Seq<Timechange>, now: int, r: Option<Tzdata>)
    requires
        records.len() == 1,
        resolve_post(records, now, r),
    ensures
        r matches Some(c) && {
            &&& c.dst_offset == 0
            &&& c.dst_from is None
            &&& c.dst_until is None
        },
{
}

/// Law: on a list of any other length — zero records, or three or more —
/// resolution is unsupported and yields nothing, whatever the instant.
pub proof fn lemma_resolve_unsupported(records: Seq<Timechange>, now: int, r: Option<Tzdata>)
    requires
        records.len() == 0 || records.len() >= 3,
        resolve_post(records, now, r),
    ensures
        r is None,
{
}

/// Law: in a year with exactly two in-year transitions, selection returns
/// them in ascending order, and resolution classifies an instant as
/// DST-active — choosing the first record's offset — exactly when the instant
/// lies strictly between the two transitions; an instant equal to either
/// boundary is never classified as active.
pub proof fn lemma_two_transition_year(
    zone: ZoneData,
    year: int,
    r: Seq<Timechange>,
    now: int,
    out: Option<Tzdata>,
)
    requires
        zone.wf(),
        select_result_matches(zone, year, r),
        in_year_indices(zone.transition_times@, year).len() == 2,
        resolve_post(r, now, out),
    ensures
        r.len() == 2,
        r[0].time < r[1].time,
        in_year_bounds(r[0].time as int, year),
        in_year_bounds(r[1].time as int, year),
        out matches Some(c) && (c.utc_offset as int) == (if (r[0].time as int) < now && now < (
        r[1].time as int) {
            r[0].gmtoff as int
        } else {
            r[1].gmtoff as int
        }),
        (now == r[0].time as int || now == r[1].time as int) ==> (out matches Some(c2) && (
        c2.utc_offset as int) == r[1].gmtoff as int),
{
    let times = zone.transition_times@;
    lemma_in_year_indices_props(times, year, times.len() as int);
    let iy = in_year_indices(times, year);
    assert(selected_indices(times, year) == iy);
    assert(record_matches(zone, iy[0], r[0]));
    assert(record_matches(zone, iy[1], r[1]));
    assert(0 <= iy[0] < times.len() && 0 <= iy[1] < times.len() && iy[0] < iy[1]);
    assert(times[iy[0]] < times[iy[1]]);
}

} // verus!
