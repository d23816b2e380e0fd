use tzparse::{get, resolve, select, worldtime, Timechange, TypeRecord, ZoneData};

/// A zone shaped like Europe/Paris in 2019: DST starts 2019-03-31T01:00:00Z
/// (offset +7200, "CEST") and ends 2019-10-27T01:00:00Z (offset +3600, "CET").
fn paris_zone() -> ZoneData {
    ZoneData::new(
        vec![1553994000, 1572138000],
        vec![0, 1],
        vec![
            TypeRecord { gmtoff: 7200, isdst: 1, abbrind: 0 },
            TypeRecord { gmtoff: 3600, isdst: 0, abbrind: 1 },
        ],
        vec!["CEST".to_string(), "CET".to_string()],
    )
    .unwrap()
}

fn utc_zone() -> ZoneData {
    ZoneData::new(
        vec![0],
        vec![0],
        vec![TypeRecord { gmtoff: 0, isdst: 0, abbrind: 0 }],
        vec!["UTC".to_string()],
    )
    .unwrap()
}

#[test]
fn two_transition_year_selected_in_order() {
    let r = select(&paris_zone(), 2019);
    assert_eq!(r.len(), 2);
    assert_eq!(
        r[0],
        Timechange {
            time: 1553994000,
            gmtoff: 7200,
            isdst: true,
            abbreviation: "CEST".to_string(),
        }
    );
    assert_eq!(
        r[1],
        Timechange {
            time: 1572138000,
            gmtoff: 3600,
            isdst: false,
            abbreviation: "CET".to_string(),
        }
    );
}

#[test]
fn resolve_summer_instant_is_dst() {
    let r = select(&paris_zone(), 2019);
    let c = resolve(&r, 1559347200).unwrap();
    assert_eq!(c.utc_datetime, 1559347200);
    assert_eq!(c.datetime, 1559347200 + 7200);
    assert_eq!(c.dst_from, Some(1553994000));
    assert_eq!(c.dst_until, Some(1572138000));
    assert_eq!(c.raw_offset, 3600);
    assert_eq!(c.dst_offset, 7200);
    assert_eq!(c.utc_offset, 7200);
    assert_eq!(c.abbreviation, "CEST");
}

#[test]
fn resolve_winter_instants_are_standard() {
    let r = select(&paris_zone(), 2019);
    let before = resolve(&r, 1540000000).unwrap();
    assert_eq!(before.utc_offset, 3600);
    assert_eq!(before.abbreviation, "CET");
    assert_eq!(before.datetime, 1540000000 + 3600);
    let after = resolve(&r, 1580000000).unwrap();
    assert_eq!(after.utc_offset, 3600);
    assert_eq!(after.abbreviation, "CET");
}

#[test]
fn resolve_boundary_instants_not_active() {
    let r = select(&paris_zone(), 2019);
    let at_start = resolve(&r, 1553994000).unwrap();
    assert_eq!(at_start.utc_offset, 3600);
    assert_eq!(at_start.abbreviation, "CET");
    let at_end = resolve(&r, 1572138000).unwrap();
    assert_eq!(at_end.utc_offset, 3600);
    assert_eq!(at_end.abbreviation, "CET");
}

#[test]
fn single_transition_year_has_zero_dst_offset() {
    // The same zone shape, queried for a year in which only the first
    // transition falls: one record, and resolution reports no DST.
    let zone = ZoneData::new(
        vec![1553994000, 1672531200],
        vec![0, 1],
        vec![
            TypeRecord { gmtoff: 7200, isdst: 1, abbrind: 0 },
            TypeRecord { gmtoff: 3600, isdst: 0, abbrind: 1 },
        ],
        vec!["CEST".to_string(), "CET".to_string()],
    )
    .unwrap();
    let r = select(&zone, 2019);
    assert_eq!(r.len(), 1);
    assert_eq!(r[0].time, 1553994000);
    let c = resolve(&r, 1559347200).unwrap();
    assert_eq!(c.dst_offset, 0);
    assert_eq!(c.dst_from, None);
    assert_eq!(c.dst_until, None);
    assert_eq!(c.raw_offset, 7200);
    assert_eq!(c.utc_offset, 7200);
    assert_eq!(c.abbreviation, "CEST");
}

#[test]
fn year_without_transitions_falls_back_to_latest_before() {
    let r = select(&paris_zone(), 2021);
    assert_eq!(r.len(), 1);
    assert_eq!(
        r[0],
        Timechange {
            time: 1572138000,
            gmtoff: 3600,
            isdst: false,
            abbreviation: "CET".to_string(),
        }
    );
}

#[test]
fn year_before_all_transitions_falls_back_to_first() {
    let r = select(&paris_zone(), 1980);
    assert_eq!(r.len(), 1);
    assert_eq!(r[0].time, 1553994000);
    assert_eq!(r[0].abbreviation, "CEST");
}

#[test]
fn select_is_idempotent() {
    let zone = paris_zone();
    assert_eq!(select(&zone, 2019), select(&zone, 2019));
    assert_eq!(get(&zone, Some(2019)), get(&zone, Some(2019)));
    assert_eq!(get(&zone, Some(2019)), select(&zone, 2019));
}

#[test]
fn resolve_unsupported_lengths_return_none() {
    assert_eq!(resolve(&Vec::new(), 1559347200), None);
    let three = vec![
        Timechange { time: 1, gmtoff: 0, isdst: false, abbreviation: "A".to_string() },
        Timechange { time: 2, gmtoff: 0, isdst: true, abbreviation: "B".to_string() },
        Timechange { time: 3, gmtoff: 0, isdst: false, abbreviation: "C".to_string() },
    ];
    assert_eq!(resolve(&three, 1559347200), None);
}

#[test]
fn year_bounds_are_strict() {
    // Transitions exactly at January 1, 00:00:00 UTC and at December 31,
    // 00:00:00 UTC of 2019 are excluded; one second inside each bound is kept.
    let zone = ZoneData::new(
        vec![1546300800, 1546300801, 1577750399, 1577750400],
        vec![0, 0, 0, 0],
        vec![TypeRecord { gmtoff: 0, isdst: 0, abbrind: 0 }],
        vec!["UTC".to_string()],
    )
    .unwrap();
    let r = select(&zone, 2019);
    assert_eq!(r.len(), 2);
    assert_eq!(r[0].time, 1546300801);
    assert_eq!(r[1].time, 1577750399);
}

#[test]
fn zone_rejects_malformed_tables() {
    let types = vec![TypeRecord { gmtoff: 0, isdst: 0, abbrind: 0 }];
    let abbrs = vec!["UTC".to_string()];
    // No transition at all.
    assert_eq!(ZoneData::new(vec![], vec![], types.clone(), abbrs.clone()), None);
    // Parallel tables of different lengths.
    assert_eq!(ZoneData::new(vec![0, 1], vec![0], types.clone(), abbrs.clone()), None);
    // Type index out of range.
    assert_eq!(ZoneData::new(vec![0], vec![1], types.clone(), abbrs.clone()), None);
    // Abbreviation index out of range.
    assert_eq!(
        ZoneData::new(
            vec![0],
            vec![0],
            vec![TypeRecord { gmtoff: 0, isdst: 0, abbrind: 1 }],
            abbrs.clone(),
        ),
        None
    );
    // Offset of a whole day or more.
    assert_eq!(
        ZoneData::new(
            vec![0],
            vec![0],
            vec![TypeRecord { gmtoff: 86400, isdst: 0, abbrind: 0 }],
            abbrs.clone(),
        ),
        None
    );
    // Transition instants not strictly ascending.
    assert_eq!(ZoneData::new(vec![5, 5], vec![0, 0], types.clone(), abbrs.clone()), None);
    assert_eq!(ZoneData::new(vec![9, 5], vec![0, 0], types, abbrs), None);
}

#[test]
fn get_defaults_to_current_year() {
    // The zone's one transition lies far in the past, so whatever year the
    // clock reads, selection falls back to that single record.
    let r = get(&utc_zone(), None);
    assert_eq!(r.len(), 1);
    assert_eq!(r[0].time, 0);
    assert_eq!(r[0].abbreviation, "UTC");
}

#[test]
fn worldtime_single_record() {
    let r = get(&utc_zone(), None);
    let c = worldtime(r).unwrap();
    assert_eq!(c.dst_offset, 0);
    assert_eq!(c.utc_offset, 0);
    assert_eq!(c.raw_offset, 0);
    assert_eq!(c.dst_from, None);
    assert_eq!(c.dst_until, None);
    // With a zero offset the local wall clock equals the instant itself.
    assert_eq!(c.datetime, c.utc_datetime);
    assert_eq!(c.abbreviation, "UTC");
}

#[test]
fn worldtime_unsupported_lengths_return_none() {
    assert_eq!(worldtime(Vec::new()), None);
    let three = vec![
        Timechange { time: 1, gmtoff: 0, isdst: false, abbreviation: "A".to_string() },
        Timechange { time: 2, gmtoff: 0, isdst: true, abbreviation: "B".to_string() },
        Timechange { time: 3, gmtoff: 0, isdst: false, abbreviation: "C".to_string() },
    ];
    assert_eq!(worldtime(three), None);
}
