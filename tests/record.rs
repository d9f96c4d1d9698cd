use tsp::file::parse_airport_primary_records as parse_file;
use tsp::record::{parse_airport_primary_records, AirportPrimaryRecords};
use tsp::types::{
    AirportSubsectionCode, CycleDate, EnrichedSectionCode, Latitude, LatitudeHemisphere,
    Longitude, LongitudeHemisphere, MagneticTrueIndicator, MagneticVariation,
    PublicMilitaryIndicator, RecordType, RunwaySurfaceCode,
};

const KLAX: &[u8] = b"SUSAP KLAXK2ALAX     0     \
129YHN33563299W118242898E012000128         1800018000C    \
MNAR    LOS ANGELES INTL              310231906";

#[test]
fn parse_klax() {
    let parsed = parse_airport_primary_records(KLAX).unwrap();
    assert_eq!(
        parsed,
        AirportPrimaryRecords {
            record_type: RecordType::Standard,
            customer_area_code: "USA",
            icao_identifier: "KLAX",
            icao_code: "K2",
            enriched_section_code: EnrichedSectionCode::Airport(
                AirportSubsectionCode::ReferencePoints
            ),
            ata_designator: "LAX",
            continuation_record_number: 0,
            speed_limit_altitude: None,
            longest_runway: 129,
            ifr_capability: true,
            longest_runway_surface_code: RunwaySurfaceCode::HardSurface,
            airport_reference_point_latitude: Latitude {
                hemisphere: LatitudeHemisphere::North,
                degrees: 33,
                minutes: 56,
                seconds: 32,
                fractional_seconds: 99
            },
            airport_reference_point_longitude: Longitude {
                hemisphere: LongitudeHemisphere::West,
                degrees: 118,
                minutes: 24,
                seconds: 28,
                fractional_seconds: 98
            },
            magnetic_variation: MagneticVariation::East(120),
            airport_elevation: 128,
            speed_limit: None,
            recommended_navaid: None,
            transition_altitude: Some(18000),
            transition_level: Some(18000),
            public_military_indicator: PublicMilitaryIndicator::Civil,
            time_zone: None,
            daylight_indicator: None,
            magnetic_true_indicator: Some(MagneticTrueIndicator::Magnetic),
            datum_code: "NAR",
            airport_name: "LOS ANGELES INTL",
            file_record_number: 31023,
            cycle_date: CycleDate { year: 19, cycle: 6 },
        }
    );
}

#[test]
fn parse_ksea() {
    let record = b"SUSAP KSEAK1ASEA     0     \
    119YHN47265960W122184240E016000432         1800018000C    \
    MNAR    SEATTLE-TACOMA INTL           065001807";
    let parsed = parse_airport_primary_records(&record[..]).unwrap();
    assert_eq!(
        parsed,
        AirportPrimaryRecords {
            record_type: RecordType::Standard,
            customer_area_code: "USA",
            icao_identifier: "KSEA",
            icao_code: "K1",
            enriched_section_code: EnrichedSectionCode::Airport(
                AirportSubsectionCode::ReferencePoints
            ),
            ata_designator: "SEA",
            continuation_record_number: 0,
            speed_limit_altitude: None,
            longest_runway: 119,
            ifr_capability: true,
            longest_runway_surface_code: RunwaySurfaceCode::HardSurface,
            airport_reference_point_latitude: Latitude {
                hemisphere: LatitudeHemisphere::North,
                degrees: 47,
                minutes: 26,
                seconds: 59,
                fractional_seconds: 60
            },
            airport_reference_point_longitude: Longitude {
                hemisphere: LongitudeHemisphere::West,
                degrees: 122,
                minutes: 18,
                seconds: 42,
                fractional_seconds: 40
            },
            magnetic_variation: MagneticVariation::East(160),
            airport_elevation: 432,
            speed_limit: None,
            recommended_navaid: None,
            transition_altitude: Some(18000),
            transition_level: Some(18000),
            public_military_indicator: PublicMilitaryIndicator::Civil,
            time_zone: None,
            daylight_indicator: None,
            magnetic_true_indicator: Some(MagneticTrueIndicator::Magnetic),
            datum_code: "NAR",
            airport_name: "SEATTLE-TACOMA INTL",
            file_record_number: 6500,
            cycle_date: CycleDate { year: 18, cycle: 7 },
        }
    );
}

#[test]
fn parse_kden() {
    let record = b"SUSAP KDENK2ADEN     0     \
    160YHN39514200W104402340E008005434         1800018000C    \
    MNAR    DENVER INTL                   630481208";
    let parsed = parse_airport_primary_records(&record[..]).unwrap();
    assert_eq!(
        parsed,
        AirportPrimaryRecords {
            record_type: RecordType::Standard,
            customer_area_code: "USA",
            icao_identifier: "KDEN",
            icao_code: "K2",
            enriched_section_code: EnrichedSectionCode::Airport(
                AirportSubsectionCode::ReferencePoints
            ),
            ata_designator: "DEN",
            continuation_record_number: 0,
            speed_limit_altitude: None,
            longest_runway: 160,
            ifr_capability: true,
            longest_runway_surface_code: RunwaySurfaceCode::HardSurface,
            airport_reference_point_latitude: Latitude {
                hemisphere: LatitudeHemisphere::North,
                degrees: 39,
                minutes: 51,
                seconds: 42,
                fractional_seconds: 0
            },
            airport_reference_point_longitude: Longitude {
                hemisphere: LongitudeHemisphere::West,
                degrees: 104,
                minutes: 40,
                seconds: 23,
                fractional_seconds: 40
            },
            magnetic_variation: MagneticVariation::East(80),
            airport_elevation: 5434,
            speed_limit: None,
            recommended_navaid: None,
            transition_altitude: Some(18000),
            transition_level: Some(18000),
            public_military_indicator: PublicMilitaryIndicator::Civil,
            time_zone: None,
            daylight_indicator: None,
            magnetic_true_indicator: Some(MagneticTrueIndicator::Magnetic),
            datum_code: "NAR",
            airport_name: "DENVER INTL",
            file_record_number: 63048,
            cycle_date: CycleDate { year: 12, cycle: 8 },
        }
    );
}

#[test]
fn parse_kjfk() {
    let record = b"SUSAP KJFKK6AJFK     0     \
    145YHN40382374W073464329W013000013         1800018000C    \
    MNAR    JOHN F KENNEDY INTL           257211912";
    let parsed = parse_airport_primary_records(&record[..]).unwrap();
    assert_eq!(
        parsed,
        AirportPrimaryRecords {
            record_type: RecordType::Standard,
            customer_area_code: "USA",
            icao_identifier: "KJFK",
            icao_code: "K6",
            enriched_section_code: EnrichedSectionCode::Airport(
                AirportSubsectionCode::ReferencePoints
            ),
            ata_designator: "JFK",
            continuation_record_number: 0,
            speed_limit_altitude: None,
            longest_runway: 145,
            ifr_capability: true,
            longest_runway_surface_code: RunwaySurfaceCode::HardSurface,
            airport_reference_point_latitude: Latitude {
                hemisphere: LatitudeHemisphere::North,
                degrees: 40,
                minutes: 38,
                seconds: 23,
                fractional_seconds: 74
            },
            airport_reference_point_longitude: Longitude {
                hemisphere: LongitudeHemisphere::West,
                degrees: 73,
                minutes: 46,
                seconds: 43,
                fractional_seconds: 29
            },
            magnetic_variation: MagneticVariation::West(130),
            airport_elevation: 13,
            speed_limit: None,
            recommended_navaid: None,
            transition_altitude: Some(18000),
            transition_level: Some(18000),
            public_military_indicator: PublicMilitaryIndicator::Civil,
            time_zone: None,
            daylight_indicator: None,
            magnetic_true_indicator: Some(MagneticTrueIndicator::Magnetic),
            datum_code: "NAR",
            airport_name: "JOHN F KENNEDY INTL",
            file_record_number: 25721,
            cycle_date: CycleDate {
                year: 19,
                cycle: 12
            },
        }
    );
}

#[test]
fn record_of_wrong_length_is_rejected() {
    assert_eq!(parse_airport_primary_records(&KLAX[..131]), None);
}

#[test]
fn record_of_another_section_is_rejected() {
    let mut rec = KLAX.to_vec();
    rec[4] = b'D';
    assert_eq!(parse_airport_primary_records(&rec), None);
}

#[test]
fn conflicting_icao_codes_are_rejected() {
    let mut rec = KLAX.to_vec();
    rec[68] = b'K';
    rec[69] = b'3';
    assert_eq!(parse_airport_primary_records(&rec), None);
}

#[test]
fn blank_first_icao_code_takes_the_second() {
    let mut rec = KLAX.to_vec();
    rec[10] = b' ';
    rec[11] = b' ';
    rec[68] = b'K';
    rec[69] = b'2';
    assert_eq!(parse_airport_primary_records(&rec).unwrap().icao_code, "K2");
}

#[test]
fn file_keeps_records_in_order_and_skips_other_lines() {
    let mut buf = Vec::new();
    buf.extend_from_slice(KLAX);
    buf.extend_from_slice(b"\r\nnot a record\n");
    let mut sea = KLAX.to_vec();
    sea[6..10].copy_from_slice(b"KSEA");
    buf.extend_from_slice(&sea);
    buf.extend_from_slice(b"\r\r\n");
    let recs = parse_file(&buf);
    assert_eq!(recs.len(), 2);
    assert_eq!(recs[0].icao_identifier, "KLAX");
    assert_eq!(recs[1].icao_identifier, "KSEA");
}

#[test]
fn empty_file_holds_no_record() {
    assert!(parse_file(b"").is_empty());
    assert!(parse_file(b"\n\n").is_empty());
}
