//! The world map widget: where to put the marker for the system's time zone.
use vstd::prelude::*;

verus! {

/// Whole hours in a UTC offset given in seconds, rounded toward zero (as
/// `(secs as f64 / 3600.0) as i32` computes them).
pub open spec fn offset_hours(offset_secs: int) -> int {
    if offset_secs >= 0 {
        offset_secs / 3600
    } else {
        -((-offset_secs) / 3600)
    }
}

/// A landmark city for each whole-hour UTC offset, as (longitude, latitude)
/// in tenths of a degree; (0, 0) for offsets outside -12..=12.
pub open spec fn zone_landmark(hours: int) -> (int, int) {
    if hours == -12 {
        (-1720, 280)  // Baker Island
    } else if hours == -11 {
        (-1700, -140)  // Samoa
    } else if hours == -10 {
        (-1555, 199)  // Honolulu
    } else if hours == -9 {
        (-1499, 612)  // Anchorage
    } else if hours == -8 {
        (-1182, 340)  // Los Angeles
    } else if hours == -7 {
        (-1103, 241)  // La Paz, Baja California Sur
    } else if hours == -6 {
        (-968, 328)  // Dallas
    } else if hours == -5 {
        (-740, 407)  // New York
    } else if hours == -4 {
        (-669, 105)  // Caracas
    } else if hours == -3 {
        (-432, -229)  // Rio de Janeiro
    } else if hours == -2 {
        (-300, 387)  // Azores
    } else if hours == -1 {
        (-169, 326)  // Cape Verde
    } else if hours == 0 {
        (-1, 515)  // London
    } else if hours == 1 {
        (23, 489)  // Paris
    } else if hours == 2 {
        (134, 525)  // Berlin
    } else if hours == 3 {
        (376, 558)  // Moscow
    } else if hours == 4 {
        (514, 357)  // Tehran
    } else if hours == 5 {
        (692, 413)  // Tashkent
    } else if hours == 6 {
        (772, 286)  // Delhi
    } else if hours == 7 {
        (1005, 138)  // Bangkok
    } else if hours == 8 {
        (1164, 399)  // Beijing
    } else if hours == 9 {
        (1397, 357)  // Tokyo
    } else if hours == 10 {
        (1512, -339)  // Sydney
    } else if hours == 11 {
        (1665, -223)  // Noumea
    } else if hours == 12 {
        (1748, -413)  // Wellington
    } else {
        (0, 0)  // Greenwich
    }
}

/// The whole hours of a UTC offset given in seconds, toward zero.
pub fn utc_offset_hours(offset_secs: i32) -> (h: i32)
    ensures
        h == offset_hours(offset_secs as int),
{
    let s = offset_secs as i64;
    let h = if s >= 0 {
        s / 3600
    } else {
        -((-s) / 3600)
    };
    h as i32
}

/// The map marker for the local time zone, given its offset from UTC in
/// seconds: (longitude, latitude) in tenths of a degree.
pub fn timezone_marker(offset_secs: i32) -> (pos: (i32, i32))
    ensures
        (pos.0 as int, pos.1 as int) == zone_landmark(offset_hours(offset_secs as int)),
{
    let h = utc_offset_hours(offset_secs);
    match h {
        -12 => (-1720, 280),
        -11 => (-1700, -140),
        -10 => (-1555, 199),
        -9 => (-1499, 612),
        -8 => (-1182, 340),
        -7 => (-1103, 241),
        -6 => (-968, 328),
        -5 => (-740, 407),
        -4 => (-669, 105),
        -3 => (-432, -229),
        -2 => (-300, 387),
        -1 => (-169, 326),
        0 => (-1, 515),
        1 => (23, 489),
        2 => (134, 525),
        3 => (376, 558),
        4 => (514, 357),
        5 => (692, 413),
        6 => (772, 286),
        7 => (1005, 138),
        8 => (1164, 399),
        9 => (1397, 357),
        10 => (1512, -339),
        11 => (1665, -223),
        12 => (1748, -413),
        _ => (0, 0),
    }
}

// ----------------------------------------------------------------------------
// Laws
// ----------------------------------------------------------------------------

/// The landmarks follow the clock eastwards: for whole-hour offsets in
/// -12..=12 the longitude grows strictly with the offset and stays within
/// 17 degrees of 15 degrees per hour, the latitude is a real one
/// (-90..=90 degrees), and the (0, 0) fallback is used exactly for offsets
/// outside -12..=12.
pub proof fn landmarks_follow_the_clock(h1: int, h2: int)
    ensures
        -12 <= h1 <= 12 ==> {
            let (lon, lat) = zone_landmark(h1);
            &&& -170 <= lon - 150 * h1 <= 170
            &&& -900 <= lat <= 900
            &&& (lon, lat) != (0int, 0int)
        },
        !(-12 <= h1 <= 12) ==> zone_landmark(h1) == (0int, 0int),
        -12 <= h1 < h2 <= 12 ==> zone_landmark(h1).0 < zone_landmark(h2).0,
{
}

/// The marker is the (0, 0) fallback exactly when the UTC offset, in whole
/// hours toward zero, lies outside -12..=12; offsets within the same whole
/// hour share their marker, and a later offset is never further west.
pub proof fn marker_by_offset(secs1: int, secs2: int)
    ensures
        (zone_landmark(offset_hours(secs1)) == (0int, 0int)) <==> !(-12 <= offset_hours(secs1)
            <= 12),
        -12 * 3600 < secs1 <= secs2 < 13 * 3600 ==> zone_landmark(offset_hours(secs1)).0
            <= zone_landmark(offset_hours(secs2)).0,
        offset_hours(secs1) == -3 <==> -4 * 3600 < secs1 <= -3 * 3600,
{
    landmarks_follow_the_clock(offset_hours(secs1), offset_hours(secs2));
    landmarks_follow_the_clock(offset_hours(secs1), offset_hours(secs1));
}

} // verus!
