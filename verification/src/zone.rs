//! The parsed timezone structure the selector works on: the transition-instant
//! table, the parallel type-index table, the offset/DST type records and the
//! abbreviation pool, exactly as a TZif database entry lays them out.

use vstd::prelude::*;

verus! {

/// One transition-type record of a timezone database entry: UTC offset in
/// seconds, DST indicator (1 when the type is daylight-saving time) and the
/// index of its abbreviation in the pool.
#[derive(Clone, Copy, Debug, PartialEq, Eq)]
pub struct TypeRecord {
    pub gmtoff: i64,
    pub isdst: u8,
    pub abbrind: u8,
}

/// A UTC offset a timezone can carry: strictly less than one day in either
/// direction.
pub open spec fn valid_offset(off: int) -> bool {
    -86400 < off < 86400
}

/// A parsed timezone database entry. `transition_times` holds the transition
/// instants as Unix timestamps; `type_indices` maps each transition to a
/// record of `types`; each record's `abbrind` points into `abbreviations`.
#[derive(Clone, Debug, PartialEq, Eq)]
pub struct ZoneData {
    pub transition_times: Vec<i64>,
    pub type_indices: Vec<u8>,
    pub types: Vec<TypeRecord>,
    pub abbreviations: Vec<String>,
}

impl ZoneData {
    /// Well-formedness: at least one transition, parallel tables of equal
    /// length, every index in range, every offset representable, and the
    /// transition instants strictly ascending.
    pub open spec fn wf(self) -> bool {
        &&& self.transition_times@.len() >= 1
        &&& self.type_indices@.len() == self.transition_times@.len()
        &&& forall|i: int|
            0 <= i < self.type_indices@.len() ==> (#[trigger] self.type_indices@[i]) < self.types@.len()
        &&& forall|j: int|
            0 <= j < self.types@.len() ==> (#[trigger] self.types@[j]).abbrind < self.abbreviations@.len()
        &&& forall|j: int|
            0 <= j < self.types@.len() ==> valid_offset((#[trigger] self.types@[j]).gmtoff as int)
        &&& forall|i: int, j: int|
            0 <= i < j < self.transition_times@.len()
                ==> #[trigger] self.transition_times@[i] < #[trigger] self.transition_times@[j]
    }

    /// Builds a zone from the four tables, accepting exactly the well-formed
    /// combinations and handing malformed ones back as `None`.
    pub fn new(
        transition_times: Vec<i64>,
        type_indices: Vec<u8>,
        types: Vec<TypeRecord>,
        abbreviations: Vec<String>,
    ) -> (r: Option<ZoneData>)
        ensures
            match r {
                Some(z) => {
                    &&& z.wf()
                    &&& z.transition_times == transition_times
                    &&& z.type_indices == type_indices
                    &&& z.types == types
                    &&& z.abbreviations == abbreviations
                },
                None => !(ZoneData { transition_times, type_indices, types, abbreviations }).wf(),
            },
    {
        if transition_times.len() == 0 {
            return None;
        }
        if type_indices.len() != transition_times.len() {
            return None;
        }
        let mut i: usize = 0;
        while i < type_indices.len()
            invariant
                i <= type_indices@.len(),
                forall|k: int| 0 <= k < i ==> (#[trigger] type_indices@[k]) < types@.len(),
            decreases type_indices@.len() - i,
        {
            if type_indices[i] as usize >= types.len() {
                return None;
            }
            i += 1;
        }
        let mut j: usize = 0;
        while j < types.len()
            invariant
                j <= types@.len(),
                forall|k: int| 0 <= k < j ==> (#[trigger] types@[k]).abbrind < abbreviations@.len(),
                forall|k: int| 0 <= k < j ==> valid_offset((#[trigger] types@[k]).gmtoff as int),
            decreases types@.len() - j,
        {
            if types[j].abbrind as usize >= abbreviations.len() {
                proof {
                    let z = ZoneData { transition_times, type_indices, types, abbreviations };
                    assert((z.types@[j as int]).abbrind >= z.abbreviations@.len());
                }
                return None;
            }
            if types[j].gmtoff <= -86400 || types[j].gmtoff >= 86400 {
                proof {
                    let z = ZoneData { transition_times, type_indices, types, abbreviations };
                    assert(!valid_offset((z.types@[j as int]).gmtoff as int));
                }
                return None;
            }
            j += 1;
        }
        let mut t: usize = 1;
        while t < transition_times.len()
            invariant
                1 <= t,
                t <= transition_times@.len() || transition_times@.len() < 1,
                forall|a: int, b: int|
                    0 <= a < b < t && b < transition_times@.len()
                        ==> #[trigger] transition_times@[a] < #[trigger] transition_times@[b],
            decreases transition_times@.len() - t,
        {
            if transition_times[t - 1] >= transition_times[t] {
                return None;
            }
            t += 1;
        }
        Some(ZoneData { transition_times, type_indices, types, abbreviations })
    }
}

} // verus!
