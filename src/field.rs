use vstd::prelude::*;

use crate::types::{
    Altitude, CycleDate, Latitude, LatitudeHemisphere, Longitude, LongitudeHemisphere,
    MagneticTrueIndicator, MagneticVariation, PublicMilitaryIndicator, RecordType,
    RunwaySurfaceCode, TimeZone,
};
use crate::util::{
    all_blank, number_field, parse_alpha, parse_alphanum, parse_blank_arr, parse_num_u16,
    parse_num_u32, parse_num_u8, text_field, text_matches, trim_right_spaces,
    trim_right_spaces_spec,
};

verus! {

/// An unsigned field of `len` digits, any value of a `u8`.
pub open spec fn digits_u8(s: Seq<u8>, len: nat, hi: nat) -> Option<nat> {
    number_field(s, len, len, 0, hi, 255)
}

pub open spec fn cycle_date_of(s: Seq<u8>) -> Option<CycleDate> {
    if s.len() != 4 {
        None
    } else {
        match (digits_u8(s.subrange(0, 2), 2, 255), digits_u8(s.subrange(2, 4), 2, 255)) {
            (Some(y), Some(c)) => Some(CycleDate { year: y as u8, cycle: c as u8 }),
            _ => None,
        }
    }
}

pub open spec fn magnetic_true_indicator_of(c: u8) -> Option<Option<MagneticTrueIndicator>> {
    if c == 0x4du8 {
        Some(Some(MagneticTrueIndicator::Magnetic))
    } else if c == 0x54u8 {
        Some(Some(MagneticTrueIndicator::True))
    } else if c == 0x20u8 {
        Some(None)
    } else {
        None
    }
}

pub open spec fn daylight_indicator_of(c: u8) -> Option<Option<bool>> {
    if c == 0x59u8 {
        Some(Some(true))
    } else if c == 0x4eu8 {
        Some(Some(false))
    } else if c == 0x20u8 {
        Some(None)
    } else {
        None
    }
}

/// The hour offset that a time-zone letter names: `Z` is UTC, `A` to `M` (without
/// `J`) lie west of it, `N` to `Y` east.
pub open spec fn time_zone_hour_of(c: u8) -> Option<i8> {
    if c == 0x5au8 {
        Some(0)
    } else if 0x41u8 <= c <= 0x49u8 {
        Some((0x40u8 - c) as i8)
    } else if 0x4bu8 <= c <= 0x4du8 {
        Some((0x41u8 - c) as i8)
    } else if 0x4eu8 <= c <= 0x59u8 {
        Some((c - 0x4du8) as i8)
    } else {
        None
    }
}

/// The largest minute accepted after an hour offset.
pub open spec fn time_zone_max_minute(hour: i8) -> nat {
    if hour == 12 || hour == -12 {
        59
    } else {
        58
    }
}

pub open spec fn time_zone_of(s: Seq<u8>) -> Option<Option<TimeZone>> {
    if s.len() != 3 {
        None
    } else if all_blank(s) {
        Some(None)
    } else {
        match time_zone_hour_of(s[0]) {
            Some(hour) => match digits_u8(s.subrange(1, 3), 2, time_zone_max_minute(hour)) {
                Some(minute) => Some(Some(TimeZone { hour, minute: minute as u8 })),
                None => None,
            },
            None => None,
        }
    }
}

pub open spec fn public_military_indicator_of(c: u8) -> Option<PublicMilitaryIndicator> {
    if c == 0x43u8 {
        Some(PublicMilitaryIndicator::Civil)
    } else if c == 0x4du8 {
        Some(PublicMilitaryIndicator::Military)
    } else if c == 0x50u8 {
        Some(PublicMilitaryIndicator::Private)
    } else {
        None
    }
}

/// A field of `len` bytes that is either blank or holds a number.
pub open spec fn optional_number(s: Seq<u8>, len: nat, max: nat) -> Option<Option<nat>> {
    if s.len() == len && all_blank(s) {
        Some(None)
    } else {
        match number_field(s, len, len, 0, max, max) {
            Some(v) => Some(Some(v)),
            None => None,
        }
    }
}

pub open spec fn transition_altitude_of(s: Seq<u8>) -> Option<Option<nat>> {
    optional_number(s, 5, 4294967295)
}

pub open spec fn speed_limit_of(s: Seq<u8>) -> Option<Option<nat>> {
    optional_number(s, 3, 65535)
}

pub open spec fn recommended_navaid_of(s: Seq<u8>) -> Option<Option<Seq<u8>>> {
    if s.len() == 4 && all_blank(s) {
        Some(None)
    } else {
        match text_field(s, 1, 4, true) {
            Some(t) => Some(Some(t)),
            None => None,
        }
    }
}

pub open spec fn airport_elevation_of(s: Seq<u8>) -> Option<i32> {
    if s.len() != 5 {
        None
    } else if s[0] == 0x2du8 {
        match number_field(s.drop_first(), 4, 5, 0, 4294967295, 4294967295) {
            Some(v) => Some((0 - v) as i32),
            None => None,
        }
    } else {
        match number_field(s, 4, 5, 0, 4294967295, 4294967295) {
            Some(v) => Some(v as i32),
            None => None,
        }
    }
}

pub open spec fn magnetic_variation_of(s: Seq<u8>) -> Option<MagneticVariation> {
    if s.len() != 5 {
        None
    } else {
        match number_field(s.drop_first(), 4, 4, 0, 4294967295, 4294967295) {
            Some(v) => if s[0] == 0x45u8 {
                Some(MagneticVariation::East(v as u32))
            } else if s[0] == 0x57u8 {
                Some(MagneticVariation::West(v as u32))
            } else if s[0] == 0x54u8 && v == 0 {
                Some(MagneticVariation::True)
            } else {
                None
            },
            None => None,
        }
    }
}

pub open spec fn longitude_hemisphere_of(c: u8) -> Option<LongitudeHemisphere> {
    if c == 0x45u8 {
        Some(LongitudeHemisphere::East)
    } else if c == 0x57u8 {
        Some(LongitudeHemisphere::West)
    } else {
        None
    }
}

pub open spec fn latitude_hemisphere_of(c: u8) -> Option<LatitudeHemisphere> {
    if c == 0x4eu8 {
        Some(LatitudeHemisphere::North)
    } else if c == 0x53u8 {
        Some(LatitudeHemisphere::South)
    } else {
        None
    }
}

/// A longitude that names a point once: zero lies east, and 180 degrees is east and
/// exact.
pub open spec fn longitude_canonical(l: Longitude) -> bool {
    &&& !(l.degrees == 0 && l.minutes == 0 && l.seconds == 0 && l.fractional_seconds == 0
        && l.hemisphere != LongitudeHemisphere::East)
    &&& !(l.degrees == 180 && (l.minutes != 0 || l.seconds != 0 || l.fractional_seconds != 0
        || l.hemisphere != LongitudeHemisphere::East))
}

/// A latitude that names a point once: zero lies north, and 90 degrees is exact.
pub open spec fn latitude_canonical(l: Latitude) -> bool {
    &&& !(l.degrees == 0 && l.minutes == 0 && l.seconds == 0 && l.fractional_seconds == 0
        && l.hemisphere != LatitudeHemisphere::North)
    &&& !(l.degrees == 90 && (l.minutes != 0 || l.seconds != 0 || l.fractional_seconds != 0))
}

pub open spec fn longitude_of(s: Seq<u8>) -> Option<Longitude> {
    if s.len() != 10 {
        None
    } else {
        match (
            longitude_hemisphere_of(s[0]),
            digits_u8(s.subrange(1, 4), 3, 180),
            digits_u8(s.subrange(4, 6), 2, 59),
            digits_u8(s.subrange(6, 8), 2, 59),
            digits_u8(s.subrange(8, 10), 2, 255),
        ) {
            (Some(h), Some(d), Some(m), Some(sec), Some(f)) => {
                let l = Longitude {
                    hemisphere: h,
                    degrees: d as u8,
                    minutes: m as u8,
                    seconds: sec as u8,
                    fractional_seconds: f as u8,
                };
                if longitude_canonical(l) {
                    Some(l)
                } else {
                    None
                }
            },
            _ => None,
        }
    }
}

pub open spec fn latitude_of(s: Seq<u8>) -> Option<Latitude> {
    if s.len() != 9 {
        None
    } else {
        match (
            latitude_hemisphere_of(s[0]),
            digits_u8(s.subrange(1, 3), 2, 90),
            digits_u8(s.subrange(3, 5), 2, 59),
            digits_u8(s.subrange(5, 7), 2, 59),
            digits_u8(s.subrange(7, 9), 2, 255),
        ) {
            (Some(h), Some(d), Some(m), Some(sec), Some(f)) => {
                let l = Latitude {
                    hemisphere: h,
                    degrees: d as u8,
                    minutes: m as u8,
                    seconds: sec as u8,
                    fractional_seconds: f as u8,
                };
                if latitude_canonical(l) {
                    Some(l)
                } else {
                    None
                }
            },
            _ => None,
        }
    }
}

pub open spec fn runway_surface_code_of(c: u8) -> Option<RunwaySurfaceCode> {
    if c == 0x48u8 {
        Some(RunwaySurfaceCode::HardSurface)
    } else if c == 0x53u8 {
        Some(RunwaySurfaceCode::SoftSurface)
    } else if c == 0x57u8 {
        Some(RunwaySurfaceCode::WaterRunway)
    } else if c == 0x55u8 {
        Some(RunwaySurfaceCode::Undefined)
    } else {
        None
    }
}

pub open spec fn ifr_capability_of(c: u8) -> Option<bool> {
    if c == 0x59u8 {
        Some(true)
    } else if c == 0x4eu8 {
        Some(false)
    } else {
        None
    }
}

/// A blank field, a flight level (`F`, or `FL`, then digits), or an altitude in
/// feet.
pub open spec fn speed_limit_altitude_of(s: Seq<u8>) -> Option<Option<Altitude>> {
    let t = trim_right_spaces_spec(s);
    if t.len() == 0 {
        Some(None)
    } else if t[0] == 0x46u8 {
        let b = t.drop_first();
        let (digits, max_len) = if b.len() > 0 && b[0] == 0x4cu8 {
            (b.drop_first(), 3nat)
        } else {
            (b, 4nat)
        };
        match number_field(digits, 1, max_len, 0, 65535, 65535) {
            Some(v) => Some(Some(Altitude::Fl(v as u16))),
            None => None,
        }
    } else {
        match number_field(t, 1, 5, 0, 4294967295, 4294967295) {
            Some(v) => Some(Some(Altitude::Msl(v as u32))),
            None => None,
        }
    }
}

/// The number of a continuation record: `0` or `1` for a primary record, `2` to `9`
/// then `A` (10) to `Z` (35) for the others.
pub open spec fn continuation_record_number_of(c: u8, is_primary: bool) -> Option<u8> {
    if is_primary {
        if 0x30u8 <= c <= 0x31u8 {
            Some((c - 0x30u8) as u8)
        } else {
            None
        }
    } else if 0x32u8 <= c <= 0x39u8 {
        Some((c - 0x30u8) as u8)
    } else if 0x41u8 <= c <= 0x5au8 {
        Some((c - 0x41u8 + 10) as u8)
    } else {
        None
    }
}

pub open spec fn record_type_of(c: u8) -> Option<RecordType> {
    if c == 0x53u8 {
        Some(RecordType::Standard)
    } else if c == 0x54u8 {
        Some(RecordType::Tailored)
    } else {
        None
    }
}

/// Reads a cycle date: two digits of year, two of cycle.
pub fn parse_cycle_date(cycle_date: &[u8]) -> (r: Option<CycleDate>)
    ensures
        r == cycle_date_of(cycle_date@),
{
    if cycle_date.len() != 4 {
        return None;
    }
    let year = parse_num_u8(&cycle_date[0..2], 2, 2, 0, 255);
    let cycle = parse_num_u8(&cycle_date[2..4], 2, 2, 0, 255);
    match (year, cycle) {
        (Some(year), Some(cycle)) => Some(CycleDate { year, cycle }),
        _ => None,
    }
}

/// Reads a five-digit file record number.
pub fn parse_file_record_number(file_record_number: &[u8]) -> (r: Option<u32>)
    ensures
        match number_field(file_record_number@, 5, 5, 0, 4294967295, 4294967295) {
            Some(v) => r == Some(v as u32),
            None => r is None,
        },
{
    parse_num_u32(file_record_number, 5, 5, 0, 4294967295)
}

/// Reads an airport name of at most thirty bytes.
pub fn parse_airport_name(airport_name: &[u8]) -> (r: Option<&str>)
    ensures
        text_matches(r, text_field(airport_name@, 0, 30, false)),
{
    parse_alpha(airport_name, 0, 30)
}

/// Reads a three-byte datum code.
pub fn parse_datum_code(datum_code: &[u8]) -> (r: Option<&str>)
    ensures
        text_matches(r, text_field(datum_code@, 3, 3, false)),
{
    parse_alpha(datum_code, 3, 3)
}

/// Reads a magnetic/true indicator; a blank means none is given.
pub fn parse_magnetic_true_indicator(magnetic_true_indicator: u8) -> (r: Option<
    Option<MagneticTrueIndicator>,
>)
    ensures
        r == magnetic_true_indicator_of(magnetic_true_indicator),
{
    match magnetic_true_indicator {
        0x4du8 => Some(Some(MagneticTrueIndicator::Magnetic)),
        0x54u8 => Some(Some(MagneticTrueIndicator::True)),
        0x20u8 => Some(None),
        _ => None,
    }
}

/// Reads a daylight-saving indicator; a blank means none is given.
pub fn parse_daylight_indicator(daylight_indicator: u8) -> (r: Option<Option<bool>>)
    ensures
        r == daylight_indicator_of(daylight_indicator),
{
    match daylight_indicator {
        0x59u8 => Some(Some(true)),
        0x4eu8 => Some(Some(false)),
        0x20u8 => Some(None),
        _ => None,
    }
}

/// Reads a time zone: a letter for the hour offset and two digits of minutes, or
/// blanks.
pub fn parse_time_zone(time_zone: &[u8]) -> (r: Option<Option<TimeZone>>)
    ensures
        r == time_zone_of(time_zone@),
{
    if time_zone.len() != 3 {
        return None;
    }
    if parse_blank_arr(time_zone, 3, 3).is_some() {
        return Some(None);
    }
    let hour: i8 = match time_zone[0] {
        0x5au8 => 0,
        0x41u8 => -1,
        0x42u8 => -2,
        0x43u8 => -3,
        0x44u8 => -4,
        0x45u8 => -5,
        0x46u8 => -6,
        0x47u8 => -7,
        0x48u8 => -8,
        0x49u8 => -9,
        0x4bu8 => -10,
        0x4cu8 => -11,
        0x4du8 => -12,
        0x4eu8 => 1,
        0x4fu8 => 2,
        0x50u8 => 3,
        0x51u8 => 4,
        0x52u8 => 5,
        0x53u8 => 6,
        0x54u8 => 7,
        0x55u8 => 8,
        0x56u8 => 9,
        0x57u8 => 10,
        0x58u8 => 11,
        0x59u8 => 12,
        _ => return None,
    };
    let max_minute: u8 = if hour == 12 || hour == -12 {
        59
    } else {
        58
    };
    match parse_num_u8(&time_zone[1..3], 2, 2, 0, max_minute) {
        Some(minute) => Some(Some(TimeZone { hour, minute })),
        None => None,
    }
}

/// Reads a public/military indicator.
pub fn parse_public_military_indicator(public_military_indicator: u8) -> (r: Option<
    PublicMilitaryIndicator,
>)
    ensures
        r == public_military_indicator_of(public_military_indicator),
{
    match public_military_indicator {
        0x43u8 => Some(PublicMilitaryIndicator::Civil),
        0x4du8 => Some(PublicMilitaryIndicator::Military),
        0x50u8 => Some(PublicMilitaryIndicator::Private),
        _ => None,
    }
}

/// Reads a five-digit transition altitude, or blanks.
pub fn parse_transition_altitude(transition_altitude: &[u8]) -> (r: Option<Option<u32>>)
    ensures
        match transition_altitude_of(transition_altitude@) {
            Some(Some(v)) => r == Some(Some(v as u32)),
            Some(None) => r == Some(None::<u32>),
            None => r is None,
        },
{
    if parse_blank_arr(transition_altitude, 5, 5).is_some() {
        return Some(None);
    }
    match parse_num_u32(transition_altitude, 5, 5, 0, 4294967295) {
        Some(v) => Some(Some(v)),
        None => None,
    }
}

/// Reads a recommended navaid identifier of up to four bytes, or blanks.
pub fn parse_recommended_navaid(recommended_navaid: &[u8]) -> (r: Option<Option<&str>>)
    ensures
        match recommended_navaid_of(recommended_navaid@) {
            Some(Some(t)) => r is Some && text_matches(r.unwrap(), Some(t)),
            Some(None) => r == Some(None::<&str>),
            None => r is None,
        },
{
    if parse_blank_arr(recommended_navaid, 4, 4).is_some() {
        return Some(None);
    }
    match parse_alphanum(recommended_navaid, 1, 4) {
        Some(s) => Some(Some(s)),
        None => None,
    }
}

/// Reads a three-digit speed limit, or blanks.
pub fn parse_speed_limit(speed_limit: &[u8]) -> (r: Option<Option<u16>>)
    ensures
        match speed_limit_of(speed_limit@) {
            Some(Some(v)) => r == Some(Some(v as u16)),
            Some(None) => r == Some(None::<u16>),
            None => r is None,
        },
{
    if parse_blank_arr(speed_limit, 3, 3).is_some() {
        return Some(None);
    }
    match parse_num_u16(speed_limit, 3, 3, 0, 65535) {
        Some(v) => Some(Some(v)),
        None => None,
    }
}

/// Reads an airport elevation in feet: five bytes, a leading `-` below sea level.
pub fn parse_airport_elevation(airport_elevation: &[u8]) -> (r: Option<i32>)
    ensures
        r == airport_elevation_of(airport_elevation@),
{
    if airport_elevation.len() != 5 {
        return None;
    }
    let negative = airport_elevation[0] == 0x2du8;
    let digits: &[u8] = if negative {
        &airport_elevation[1..5]
    } else {
        airport_elevation
    };
    proof {
        if negative {
            assert(digits@ =~= airport_elevation@.drop_first());
        }
    }
    match parse_num_u32(digits, 4, 5, 0, 4294967295) {
        Some(v) => {
            assert(v <= 99999) by {
                assert(digits@.len() <= 5);
                crate::util::lemma_padded_number_bound(digits@, 4294967295);
            }
            let v = v as i32;
            Some(
                if negative {
                    -v
                } else {
                    v
                },
            )
        },
        None => None,
    }
}

/// Reads a magnetic variation: `E` or `W` and four digits of tenths of a degree,
/// or `T` and zero for a field aligned with true north.
pub fn parse_magnetic_variation(magnetic_variation: &[u8]) -> (r: Option<MagneticVariation>)
    ensures
        r == magnetic_variation_of(magnetic_variation@),
{
    if magnetic_variation.len() != 5 {
        return None;
    }
    let tenths = match parse_num_u32(&magnetic_variation[1..5], 4, 4, 0, 4294967295) {
        Some(v) => v,
        None => {
            assert(magnetic_variation@.subrange(1, 5) =~= magnetic_variation@.drop_first());
            return None;
        },
    };
    assert(magnetic_variation@.subrange(1, 5) =~= magnetic_variation@.drop_first());
    match magnetic_variation[0] {
        0x45u8 => Some(MagneticVariation::East(tenths)),
        0x57u8 => Some(MagneticVariation::West(tenths)),
        0x54u8 => if tenths == 0 {
            Some(MagneticVariation::True)
        } else {
            None
        },
        _ => None,
    }
}

/// Reads a longitude: hemisphere, three digits of degrees, two each of minutes,
/// seconds and hundredths.
pub fn parse_airport_reference_point_longitude(airport_reference_point_longitude: &[u8]) -> (r:
    Option<Longitude>)
    ensures
        r == longitude_of(airport_reference_point_longitude@),
{
    let b = airport_reference_point_longitude;
    if b.len() != 10 {
        return None;
    }
    let hemisphere = parse_longitude_hemisphere(b[0]);
    let degrees = parse_num_u8(&b[1..4], 3, 3, 0, 180);
    let minutes = parse_num_u8(&b[4..6], 2, 2, 0, 59);
    let seconds = parse_num_u8(&b[6..8], 2, 2, 0, 59);
    let fractional_seconds = parse_num_u8(&b[8..10], 2, 2, 0, 255);
    match (hemisphere, degrees, minutes, seconds, fractional_seconds) {
        (Some(hemisphere), Some(degrees), Some(minutes), Some(seconds), Some(fractional_seconds)) => {
            let is_west = match hemisphere {
                LongitudeHemisphere::East => false,
                LongitudeHemisphere::West => true,
            };
            if (degrees == 0 && minutes == 0 && seconds == 0 && fractional_seconds == 0 && is_west)
                || (degrees == 180 && (minutes != 0 || seconds != 0 || fractional_seconds != 0
                || is_west)) {
                None
            } else {
                Some(Longitude { hemisphere, degrees, minutes, seconds, fractional_seconds })
            }
        },
        _ => None,
    }
}

/// Reads a longitude hemisphere letter.
pub fn parse_longitude_hemisphere(longitude_hemisphere: u8) -> (r: Option<LongitudeHemisphere>)
    ensures
        r == longitude_hemisphere_of(longitude_hemisphere),
{
    match longitude_hemisphere {
        0x45u8 => Some(LongitudeHemisphere::East),
        0x57u8 => Some(LongitudeHemisphere::West),
        _ => None,
    }
}

/// Reads a latitude: hemisphere, two digits each of degrees, minutes, seconds and
/// hundredths.
pub fn parse_airport_reference_point_latitude(airport_reference_point_latitude: &[u8]) -> (r:
    Option<Latitude>)
    ensures
        r == latitude_of(airport_reference_point_latitude@),
{
    let b = airport_reference_point_latitude;
    if b.len() != 9 {
        return None;
    }
    let hemisphere = parse_latitude_hemisphere(b[0]);
    let degrees = parse_num_u8(&b[1..3], 2, 2, 0, 90);
    let minutes = parse_num_u8(&b[3..5], 2, 2, 0, 59);
    let seconds = parse_num_u8(&b[5..7], 2, 2, 0, 59);
    let fractional_seconds = parse_num_u8(&b[7..9], 2, 2, 0, 255);
    match (hemisphere, degrees, minutes, seconds, fractional_seconds) {
        (Some(hemisphere), Some(degrees), Some(minutes), Some(seconds), Some(fractional_seconds)) => {
            let is_south = match hemisphere {
                LatitudeHemisphere::North => false,
                LatitudeHemisphere::South => true,
            };
            if (degrees == 0 && minutes == 0 && seconds == 0 && fractional_seconds == 0 && is_south)
                || (degrees == 90 && (minutes != 0 || seconds != 0 || fractional_seconds != 0)) {
                None
            } else {
                Some(Latitude { hemisphere, degrees, minutes, seconds, fractional_seconds })
            }
        },
        _ => None,
    }
}

fn parse_latitude_hemisphere(latitude_hemisphere: u8) -> (r: Option<LatitudeHemisphere>)
    ensures
        r == latitude_hemisphere_of(latitude_hemisphere),
{
    match latitude_hemisphere {
        0x4eu8 => Some(LatitudeHemisphere::North),
        0x53u8 => Some(LatitudeHemisphere::South),
        _ => None,
    }
}

/// Reads the surface code of the longest runway.
pub fn parse_longest_runway_surface_code(longest_runway_surface_code: u8) -> (r: Option<
    RunwaySurfaceCode,
>)
    ensures
        r == runway_surface_code_of(longest_runway_surface_code),
{
    match longest_runway_surface_code {
        0x48u8 => Some(RunwaySurfaceCode::HardSurface),
        0x53u8 => Some(RunwaySurfaceCode::SoftSurface),
        0x57u8 => Some(RunwaySurfaceCode::WaterRunway),
        0x55u8 => Some(RunwaySurfaceCode::Undefined),
        _ => None,
    }
}

/// Reads an IFR capability flag.
pub fn parse_ifr_capability(ifr_capability: u8) -> (r: Option<bool>)
    ensures
        r == ifr_capability_of(ifr_capability),
{
    match ifr_capability {
        0x59u8 => Some(true),
        0x4eu8 => Some(false),
        _ => None,
    }
}

/// Reads the length of the longest runway in hundreds of feet: three digits.
pub fn parse_longest_runway(longest_runway: &[u8]) -> (r: Option<u16>)
    ensures
        match number_field(longest_runway@, 3, 3, 0, 65535, 65535) {
            Some(v) => r == Some(v as u16),
            None => r is None,
        },
{
    parse_num_u16(longest_runway, 3, 3, 0, 65535)
}

/// Reads the altitude below which a speed limit applies.
pub fn parse_speed_limit_altitude(speed_limit_altitude: &[u8]) -> (r: Option<Option<Altitude>>)
    ensures
        r == speed_limit_altitude_of(speed_limit_altitude@),
{
    let t = trim_right_spaces(speed_limit_altitude);
    if t.len() == 0 {
        return Some(None);
    }
    if t[0] == 0x46u8 {
        let b: &[u8] = &t[1..t.len()];
        assert(b@ =~= t@.drop_first());
        let (digits, max_len): (&[u8], usize) = if b.len() > 0 && b[0] == 0x4cu8 {
            assert(b@.subrange(1, b@.len() as int) =~= b@.drop_first());
            (&b[1..b.len()], 3)
        } else {
            (b, 4)
        };
        match parse_num_u16(digits, 1, max_len, 0, 65535) {
            Some(v) => Some(Some(Altitude::Fl(v))),
            None => None,
        }
    } else {
        match parse_num_u32(t, 1, 5, 0, 4294967295) {
            Some(v) => Some(Some(Altitude::Msl(v))),
            None => None,
        }
    }
}

/// Reads a continuation record number; a primary record holds `0` or `1`.
pub fn parse_continuation_record_number(continuation_record: u8, is_primary: bool) -> (r: Option<
    u8,
>)
    ensures
        r == continuation_record_number_of(continuation_record, is_primary),
{
    if is_primary {
        if 0x30u8 <= continuation_record && continuation_record <= 0x31u8 {
            Some(continuation_record - 0x30u8)
        } else {
            None
        }
    } else if 0x32u8 <= continuation_record && continuation_record <= 0x39u8 {
        Some(continuation_record - 0x30u8)
    } else if 0x41u8 <= continuation_record && continuation_record <= 0x5au8 {
        Some(continuation_record - 0x41u8 + 10)
    } else {
        None
    }
}

/// Reads a three-byte ATA/IATA designator.
pub fn parse_ata_designator(ata_designator: &[u8]) -> (r: Option<&str>)
    ensures
        text_matches(r, text_field(ata_designator@, 3, 3, false)),
{
    parse_alpha(ata_designator, 3, 3)
}

/// Reads an ICAO code of at most two bytes.
pub fn parse_icao_code(icao_code: &[u8]) -> (r: Option<&str>)
    ensures
        text_matches(r, text_field(icao_code@, 0, 2, true)),
{
    parse_alphanum(icao_code, 0, 2)
}

/// Reads an ICAO identifier of at most four bytes.
pub fn parse_icao_identifier(icao_identifier: &[u8]) -> (r: Option<&str>)
    ensures
        text_matches(r, text_field(icao_identifier@, 0, 4, true)),
{
    parse_alphanum(icao_identifier, 0, 4)
}

/// Reads a customer area code of at most three bytes.
pub fn parse_customer_area_code(customer_area_code: &[u8]) -> (r: Option<&str>)
    ensures
        text_matches(r, text_field(customer_area_code@, 0, 3, false)),
{
    parse_alpha(customer_area_code, 0, 3)
}

/// Reads a record type.
pub fn parse_record_type(record_type: u8) -> (r: Option<RecordType>)
    ensures
        r == record_type_of(record_type),
{
    match record_type {
        0x53u8 => Some(RecordType::Standard),
        0x54u8 => Some(RecordType::Tailored),
        _ => None,
    }
}

} // verus!
