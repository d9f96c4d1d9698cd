use tsp::field::{
    parse_airport_elevation, parse_airport_name, parse_airport_reference_point_latitude,
    parse_airport_reference_point_longitude, parse_continuation_record_number, parse_cycle_date,
    parse_magnetic_variation, parse_recommended_navaid, parse_speed_limit,
    parse_speed_limit_altitude, parse_time_zone, parse_transition_altitude,
};
use tsp::section_code::{parse_section_code, parse_subsection_code};
use tsp::types::{
    Altitude, CycleDate, EnrichedSectionCode, Latitude, LatitudeHemisphere, Longitude,
    LongitudeHemisphere, MagneticVariation, NavaidSubsectionCode, SectionCode, TimeZone,
};
use tsp::util::{
    cycling, is_alpha, is_alphanum, parse_alpha, parse_blank_arr, parse_num_u16, parse_num_u8,
    trim_0d, trim_leading_zeroes, trim_right_spaces,
};

#[test]
fn trims() {
    assert_eq!(trim_right_spaces(b"AB  "), b"AB");
    assert_eq!(trim_right_spaces(b"   "), b"");
    assert_eq!(trim_leading_zeroes(b"0012"), b"12");
    assert_eq!(trim_leading_zeroes(b"000"), b"");
    assert_eq!(trim_0d(b"\r\rAB\r"), b"AB");
    assert_eq!(trim_0d(b"\r\r"), b"");
}

#[test]
fn alpha_excludes_digits() {
    assert!(is_alpha(b"LOS ANGELES-INTL"));
    assert!(!is_alpha(b"K2"));
    assert!(is_alphanum(b"K2"));
    assert!(!is_alphanum(b"\x7f"));
    assert_eq!(parse_alpha(b"NAR   ", 3, 3), Some("NAR"));
    assert_eq!(parse_alpha(b"NA    ", 3, 3), None);
}

#[test]
fn numbers() {
    assert_eq!(parse_num_u8(b"07", 2, 2, 0, 255), Some(7));
    assert_eq!(parse_num_u8(b"00", 2, 2, 0, 255), Some(0));
    assert_eq!(parse_num_u8(b"7", 2, 2, 0, 255), None);
    assert_eq!(parse_num_u8(b"0+", 2, 2, 0, 255), None);
    assert_eq!(parse_num_u8(b"+7", 2, 2, 0, 255), Some(7));
    assert_eq!(parse_num_u8(b"256", 3, 3, 0, 255), None);
    assert_eq!(parse_num_u8(b"181", 3, 3, 0, 180), None);
    assert_eq!(parse_num_u16(b"1 3", 3, 3, 0, 65535), None);
    assert_eq!(parse_blank_arr(b"   ", 3, 3), Some(()));
    assert_eq!(parse_blank_arr(b"  ", 3, 3), None);
}

#[test]
fn cycling_pairs_wrap_around() {
    assert_eq!(cycling(&[1, 2, 3]), vec![(1, 2), (2, 3), (3, 1)]);
    assert_eq!(cycling(&[5]), vec![(5, 5)]);
    assert!(cycling::<u32>(&[]).is_empty());
}

#[test]
fn time_zones() {
    assert_eq!(parse_time_zone(b"   "), Some(None));
    assert_eq!(parse_time_zone(b"E00"), Some(Some(TimeZone { hour: -5, minute: 0 })));
    assert_eq!(parse_time_zone(b"K30"), Some(Some(TimeZone { hour: -10, minute: 30 })));
    assert_eq!(parse_time_zone(b"Y59"), Some(Some(TimeZone { hour: 12, minute: 59 })));
    assert_eq!(parse_time_zone(b"N59"), None);
    assert_eq!(parse_time_zone(b"J00"), None);
}

#[test]
fn coordinates() {
    assert_eq!(
        parse_airport_reference_point_latitude(b"N33563299"),
        Some(Latitude {
            hemisphere: LatitudeHemisphere::North,
            degrees: 33,
            minutes: 56,
            seconds: 32,
            fractional_seconds: 99
        })
    );
    assert_eq!(parse_airport_reference_point_latitude(b"S00000000"), None);
    assert_eq!(parse_airport_reference_point_latitude(b"N90000001"), None);
    assert_eq!(
        parse_airport_reference_point_longitude(b"W118242898"),
        Some(Longitude {
            hemisphere: LongitudeHemisphere::West,
            degrees: 118,
            minutes: 24,
            seconds: 28,
            fractional_seconds: 98
        })
    );
    assert_eq!(parse_airport_reference_point_longitude(b"W180000000"), None);
    assert_eq!(parse_airport_reference_point_longitude(b"E181000000"), None);
}

#[test]
fn other_fields() {
    assert_eq!(parse_airport_elevation(b"-0012"), Some(-12));
    assert_eq!(parse_airport_elevation(b"05434"), Some(5434));
    assert_eq!(parse_magnetic_variation(b"T0000"), Some(MagneticVariation::True));
    assert_eq!(parse_magnetic_variation(b"T0010"), None);
    assert_eq!(parse_speed_limit_altitude(b"FL100"), Some(Some(Altitude::Fl(100))));
    assert_eq!(parse_speed_limit_altitude(b"F1000"), Some(Some(Altitude::Fl(1000))));
    assert_eq!(parse_speed_limit_altitude(b"10000"), Some(Some(Altitude::Msl(10000))));
    assert_eq!(parse_speed_limit_altitude(b"     "), Some(None));
    assert_eq!(parse_transition_altitude(b"     "), Some(None));
    assert_eq!(parse_transition_altitude(b"18000"), Some(Some(18000)));
    assert_eq!(parse_speed_limit(b"250"), Some(Some(250)));
    assert_eq!(parse_recommended_navaid(b"LAX "), Some(Some("LAX")));
    assert_eq!(parse_recommended_navaid(b"    "), Some(None));
    assert_eq!(parse_continuation_record_number(b'1', true), Some(1));
    assert_eq!(parse_continuation_record_number(b'2', true), None);
    assert_eq!(parse_continuation_record_number(b'Z', false), Some(35));
    assert_eq!(parse_cycle_date(b"1906"), Some(CycleDate { year: 19, cycle: 6 }));
    assert_eq!(parse_airport_name(b"DENVER INTL   "), Some("DENVER INTL"));
}

#[test]
fn section_codes() {
    assert_eq!(parse_section_code(b'D'), Some(SectionCode::Navaid));
    assert_eq!(parse_section_code(b'Z'), None);
    assert_eq!(
        parse_subsection_code(SectionCode::Navaid, b'B'),
        Some(EnrichedSectionCode::Navaid(NavaidSubsectionCode::NdbNavaid))
    );
    assert_eq!(parse_subsection_code(SectionCode::Mora, b'A'), None);
}
