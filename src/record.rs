use vstd::prelude::*;
use vstd::string::StringSliceAdditionalSpecFns;

use crate::field::{
    airport_elevation_of, continuation_record_number_of, cycle_date_of, daylight_indicator_of,
    ifr_capability_of, latitude_of, longitude_of, magnetic_true_indicator_of,
    magnetic_variation_of, parse_airport_elevation, parse_airport_name,
    parse_airport_reference_point_latitude, parse_airport_reference_point_longitude,
    parse_ata_designator, parse_continuation_record_number, parse_customer_area_code,
    parse_cycle_date, parse_datum_code, parse_daylight_indicator, parse_file_record_number,
    parse_icao_code, parse_icao_identifier, parse_ifr_capability, parse_longest_runway,
    parse_longest_runway_surface_code, parse_magnetic_true_indicator, parse_magnetic_variation,
    parse_public_military_indicator, parse_recommended_navaid, parse_record_type,
    parse_speed_limit, parse_speed_limit_altitude, parse_time_zone, parse_transition_altitude,
    public_military_indicator_of, recommended_navaid_of, record_type_of, runway_surface_code_of,
    speed_limit_altitude_of, speed_limit_of, time_zone_of, transition_altitude_of,
};
use crate::section_code::{parse_section_code, parse_subsection_code};
use crate::types::{
    AirportSubsectionCode, Altitude, CycleDate, EnrichedSectionCode, Latitude, Longitude,
    MagneticTrueIndicator, MagneticVariation, PublicMilitaryIndicator, RecordType,
    RunwaySurfaceCode, SectionCode, TimeZone,
};
use crate::util::{all_blank, number_field, parse_blank, parse_blank_arr, text_field};

verus! {

/// The length of a record of the fixed-width format.
pub const ENTRY_LEN: usize = 132;

/// An airport primary record; its text fields borrow from the record's bytes.
#[derive(Copy, Clone, Debug, PartialEq, Eq, Hash, PartialOrd, Ord)]
pub struct AirportPrimaryRecords<'a> {
    pub record_type: RecordType,
    pub customer_area_code: &'a str,
    pub icao_identifier: &'a str,
    pub icao_code: &'a str,
    pub enriched_section_code: EnrichedSectionCode,
    pub ata_designator: &'a str,
    pub continuation_record_number: usize,
    pub speed_limit_altitude: Option<Altitude>,
    pub longest_runway: u16,
    pub ifr_capability: bool,
    pub longest_runway_surface_code: RunwaySurfaceCode,
    pub airport_reference_point_latitude: Latitude,
    pub airport_reference_point_longitude: Longitude,
    pub magnetic_variation: MagneticVariation,
    pub airport_elevation: i32,
    pub speed_limit: Option<u16>,
    pub recommended_navaid: Option<&'a str>,
    pub transition_altitude: Option<u32>,
    pub transition_level: Option<u32>,
    pub public_military_indicator: PublicMilitaryIndicator,
    pub time_zone: Option<TimeZone>,
    pub daylight_indicator: Option<bool>,
    pub magnetic_true_indicator: Option<MagneticTrueIndicator>,
    pub datum_code: &'a str,
    pub airport_name: &'a str,
    pub file_record_number: u32,
    pub cycle_date: CycleDate,
}

pub open spec fn field(s: Seq<u8>, start: int, end: int) -> Seq<u8> {
    s.subrange(start, end)
}

pub open spec fn optional_u32(o: Option<nat>) -> Option<u32> {
    match o {
        Some(v) => Some(v as u32),
        None => None,
    }
}

pub open spec fn optional_u16(o: Option<nat>) -> Option<u16> {
    match o {
        Some(v) => Some(v as u16),
        None => None,
    }
}

/// The two ICAO code fields of a record agree: equal, or one of them blank.
pub open spec fn icao_codes_agree(s: Seq<u8>) -> bool {
    let c1 = text_field(field(s, 10, 12), 0, 2, true).unwrap();
    let c2 = text_field(field(s, 68, 70), 0, 2, true).unwrap();
    c1.len() == 0 || c2.len() == 0 || c1 == c2
}

/// The ICAO code of a record: the first field, or the second where the first is
/// blank.
pub open spec fn icao_code_of(s: Seq<u8>) -> Seq<u8> {
    let c1 = text_field(field(s, 10, 12), 0, 2, true).unwrap();
    let c2 = text_field(field(s, 68, 70), 0, 2, true).unwrap();
    if c1.len() == 0 {
        c2
    } else {
        c1
    }
}

/// The bytes form an airport primary record: a reference-point record of the airport
/// section whose every field is well formed.
pub open spec fn is_airport_primary_record(s: Seq<u8>) -> bool {
    &&& s.len() == ENTRY_LEN
    &&& record_type_of(s[0]) is Some
    &&& text_field(field(s, 1, 4), 0, 3, false) is Some
    &&& s[4] == 0x50u8
    &&& s[5] == 0x20u8
    &&& text_field(field(s, 6, 10), 0, 4, true) is Some
    &&& text_field(field(s, 10, 12), 0, 2, true) is Some
    &&& s[12] == 0x41u8
    &&& text_field(field(s, 13, 16), 3, 3, false) is Some
    &&& all_blank(field(s, 18, 21))
    &&& continuation_record_number_of(s[21], true) is Some
    &&& speed_limit_altitude_of(field(s, 22, 27)) is Some
    &&& number_field(field(s, 27, 30), 3, 3, 0, 65535, 65535) is Some
    &&& ifr_capability_of(s[30]) is Some
    &&& runway_surface_code_of(s[31]) is Some
    &&& latitude_of(field(s, 32, 41)) is Some
    &&& longitude_of(field(s, 41, 51)) is Some
    &&& magnetic_variation_of(field(s, 51, 56)) is Some
    &&& airport_elevation_of(field(s, 56, 61)) is Some
    &&& speed_limit_of(field(s, 61, 64)) is Some
    &&& recommended_navaid_of(field(s, 64, 68)) is Some
    &&& text_field(field(s, 68, 70), 0, 2, true) is Some
    &&& icao_codes_agree(s)
    &&& transition_altitude_of(field(s, 70, 75)) is Some
    &&& transition_altitude_of(field(s, 75, 80)) is Some
    &&& public_military_indicator_of(s[80]) is Some
    &&& time_zone_of(field(s, 81, 84)) is Some
    &&& daylight_indicator_of(s[84]) is Some
    &&& magnetic_true_indicator_of(s[85]) is Some
    &&& text_field(field(s, 86, 89), 3, 3, false) is Some
    &&& text_field(field(s, 93, 123), 0, 30, false) is Some
    &&& number_field(field(s, 123, 128), 5, 5, 0, 4294967295, 4294967295) is Some
    &&& cycle_date_of(field(s, 128, 132)) is Some
}

/// Each field of `r` holds what the matching bytes of `s` read as.
pub open spec fn record_fields(r: AirportPrimaryRecords, s: Seq<u8>) -> bool {
    &&& r.record_type == record_type_of(s[0]).unwrap()
    &&& r.customer_area_code.spec_bytes() == text_field(field(s, 1, 4), 0, 3, false).unwrap()
    &&& r.icao_identifier.spec_bytes() == text_field(field(s, 6, 10), 0, 4, true).unwrap()
    &&& r.icao_code.spec_bytes() == icao_code_of(s)
    &&& r.enriched_section_code == EnrichedSectionCode::Airport(
        AirportSubsectionCode::ReferencePoints,
    )
    &&& r.ata_designator.spec_bytes() == text_field(field(s, 13, 16), 3, 3, false).unwrap()
    &&& r.continuation_record_number == continuation_record_number_of(s[21], true).unwrap()
    &&& r.speed_limit_altitude == speed_limit_altitude_of(field(s, 22, 27)).unwrap()
    &&& r.longest_runway == number_field(field(s, 27, 30), 3, 3, 0, 65535, 65535).unwrap()
    &&& r.ifr_capability == ifr_capability_of(s[30]).unwrap()
    &&& r.longest_runway_surface_code == runway_surface_code_of(s[31]).unwrap()
    &&& r.airport_reference_point_latitude == latitude_of(field(s, 32, 41)).unwrap()
    &&& r.airport_reference_point_longitude == longitude_of(field(s, 41, 51)).unwrap()
    &&& r.magnetic_variation == magnetic_variation_of(field(s, 51, 56)).unwrap()
    &&& r.airport_elevation == airport_elevation_of(field(s, 56, 61)).unwrap()
    &&& r.speed_limit == optional_u16(speed_limit_of(field(s, 61, 64)).unwrap())
    &&& match (r.recommended_navaid, recommended_navaid_of(field(s, 64, 68)).unwrap()) {
        (Some(a), Some(b)) => a.spec_bytes() == b,
        (None, None) => true,
        _ => false,
    }
    &&& r.transition_altitude == optional_u32(transition_altitude_of(field(s, 70, 75)).unwrap())
    &&& r.transition_level == optional_u32(transition_altitude_of(field(s, 75, 80)).unwrap())
    &&& r.public_military_indicator == public_military_indicator_of(s[80]).unwrap()
    &&& r.time_zone == time_zone_of(field(s, 81, 84)).unwrap()
    &&& r.daylight_indicator == daylight_indicator_of(s[84]).unwrap()
    &&& r.magnetic_true_indicator == magnetic_true_indicator_of(s[85]).unwrap()
    &&& r.datum_code.spec_bytes() == text_field(field(s, 86, 89), 3, 3, false).unwrap()
    &&& r.airport_name.spec_bytes() == text_field(field(s, 93, 123), 0, 30, false).unwrap()
    &&& r.file_record_number == number_field(
        field(s, 123, 128),
        5,
        5,
        0,
        4294967295,
        4294967295,
    ).unwrap()
    &&& r.cycle_date == cycle_date_of(field(s, 128, 132)).unwrap()
}

fn same_bytes(a: &[u8], b: &[u8]) -> (r: bool)
    ensures
        r == (a@ == b@),
{
    if a.len() != b.len() {
        return false;
    }
    let mut i: usize = 0;
    while i < a.len()
        invariant
            a@.len() == b@.len(),
            i <= a@.len(),
            forall|k: int| 0 <= k < i ==> a@[k] == b@[k],
        decreases a@.len() - i,
    {
        if a[i] != b[i] {
            return false;
        }
        i += 1;
    }
    assert(a@ =~= b@);
    true
}

/// Reads one airport primary record; any other record, or a malformed one, gives
/// `None`.
pub fn parse_airport_primary_records(rec: &[u8]) -> (r: Option<AirportPrimaryRecords>)
    ensures
        r is Some <==> is_airport_primary_record(rec@),
        r is Some ==> record_fields(r.unwrap(), rec@),
{
    if rec.len() != ENTRY_LEN {
        return None;
    }
    let record_type = parse_record_type(rec[0])?;
    let customer_area_code = parse_customer_area_code(&rec[1..4])?;
    let section_code = parse_section_code(rec[4])?;
    if section_code != SectionCode::Airport {
        return None;
    }
    parse_blank(rec[5])?;
    let icao_identifier = parse_icao_identifier(&rec[6..10])?;
    let mut icao_code = parse_icao_code(&rec[10..12])?;
    let enriched_section_code = parse_subsection_code(section_code, rec[12])?;
    if enriched_section_code != EnrichedSectionCode::Airport(AirportSubsectionCode::ReferencePoints) {
        return None;
    }
    let ata_designator = parse_ata_designator(&rec[13..16])?;
    parse_blank_arr(&rec[18..21], 3, 3)?;
    let continuation_record_number = parse_continuation_record_number(rec[21], true)?;
    if continuation_record_number > 1 {
        return None;
    }
    let speed_limit_altitude = parse_speed_limit_altitude(&rec[22..27])?;
    let longest_runway = parse_longest_runway(&rec[27..30])?;
    let ifr_capability = parse_ifr_capability(rec[30])?;
    let longest_runway_surface_code = parse_longest_runway_surface_code(rec[31])?;
    let airport_reference_point_latitude = parse_airport_reference_point_latitude(&rec[32..41])?;
    let airport_reference_point_longitude = parse_airport_reference_point_longitude(&rec[41..51])?;
    let magnetic_variation = parse_magnetic_variation(&rec[51..56])?;
    let airport_elevation = parse_airport_elevation(&rec[56..61])?;
    let speed_limit = parse_speed_limit(&rec[61..64])?;
    let recommended_navaid = parse_recommended_navaid(&rec[64..68])?;
    let icao_code2 = parse_icao_code(&rec[68..70])?;
    let c1 = icao_code.as_bytes();
    let c2 = icao_code2.as_bytes();
    if !(c1.len() == 0 || c2.len() == 0) && !same_bytes(c1, c2) {
        return None;
    } else if c1.len() == 0 {
        icao_code = icao_code2;
    }
    let transition_altitude = parse_transition_altitude(&rec[70..75])?;
    let transition_level = parse_transition_altitude(&rec[75..80])?;
    let public_military_indicator = parse_public_military_indicator(rec[80])?;
    let time_zone = parse_time_zone(&rec[81..84])?;
    let daylight_indicator = parse_daylight_indicator(rec[84])?;
    let magnetic_true_indicator = parse_magnetic_true_indicator(rec[85])?;
    let datum_code = parse_datum_code(&rec[86..89])?;
    let airport_name = parse_airport_name(&rec[93..123])?;
    let file_record_number = parse_file_record_number(&rec[123..128])?;
    let cycle_date = parse_cycle_date(&rec[128..132])?;
    Some(
        AirportPrimaryRecords {
            record_type,
            customer_area_code,
            icao_identifier,
            icao_code,
            enriched_section_code,
            ata_designator,
            continuation_record_number: continuation_record_number as usize,
            speed_limit_altitude,
            longest_runway,
            ifr_capability,
            longest_runway_surface_code,
            airport_reference_point_latitude,
            airport_reference_point_longitude,
            magnetic_variation,
            airport_elevation,
            speed_limit,
            recommended_navaid,
            transition_altitude,
            transition_level,
            public_military_indicator,
            time_zone,
            daylight_indicator,
            magnetic_true_indicator,
            datum_code,
            airport_name,
            file_record_number,
            cycle_date,
        },
    )
}

} // verus!
