use vstd::prelude::*;

use crate::types::{
    AirportSubsectionCode, AirspaceSubsectionCode, CompanyRoutesSubsectionCode,
    EnrichedSectionCode, EnrouteSubsectionCode, HeliportSubsectionCode, MoraSubsectionCode,
    NavaidSubsectionCode, SectionCode, TablesSubsectionCode,
};

verus! {

/// The section that a section-code letter names.
pub open spec fn section_code_of(c: u8) -> Option<SectionCode> {
    if c == 0x41u8 {
        Some(SectionCode::Mora)
    } else if c == 0x44u8 {
        Some(SectionCode::Navaid)
    } else if c == 0x45u8 {
        Some(SectionCode::Enroute)
    } else if c == 0x48u8 {
        Some(SectionCode::Heliport)
    } else if c == 0x50u8 {
        Some(SectionCode::Airport)
    } else if c == 0x52u8 {
        Some(SectionCode::CompanyRoutes)
    } else if c == 0x54u8 {
        Some(SectionCode::Tables)
    } else if c == 0x55u8 {
        Some(SectionCode::Airspace)
    } else {
        None
    }
}

pub open spec fn airspace_subsection_of(c: u8) -> Option<AirspaceSubsectionCode> {
    if c == 0x43u8 {
        Some(AirspaceSubsectionCode::ControlledAirspace)
    } else if c == 0x46u8 {
        Some(AirspaceSubsectionCode::FirUir)
    } else if c == 0x52u8 {
        Some(AirspaceSubsectionCode::RestrictiveAirspace)
    } else {
        None
    }
}

pub open spec fn tables_subsection_of(c: u8) -> Option<TablesSubsectionCode> {
    if c == 0x43u8 {
        Some(TablesSubsectionCode::CruisingTables)
    } else if c == 0x47u8 {
        Some(TablesSubsectionCode::GeographicalReference)
    } else {
        None
    }
}

pub open spec fn company_routes_subsection_of(c: u8) -> Option<CompanyRoutesSubsectionCode> {
    if c == 0x20u8 {
        Some(CompanyRoutesSubsectionCode::CompanyRoutes)
    } else if c == 0x41u8 {
        Some(CompanyRoutesSubsectionCode::AlternateRecords)
    } else {
        None
    }
}

pub open spec fn airport_subsection_of(c: u8) -> Option<AirportSubsectionCode> {
    if c == 0x41u8 {
        Some(AirportSubsectionCode::ReferencePoints)
    } else if c == 0x42u8 {
        Some(AirportSubsectionCode::Gates)
    } else if c == 0x43u8 {
        Some(AirportSubsectionCode::TerminalWaypoints)
    } else if c == 0x44u8 {
        Some(AirportSubsectionCode::Sids)
    } else if c == 0x45u8 {
        Some(AirportSubsectionCode::Stars)
    } else if c == 0x46u8 {
        Some(AirportSubsectionCode::ApproachProcedures)
    } else if c == 0x47u8 {
        Some(AirportSubsectionCode::Runways)
    } else if c == 0x49u8 {
        Some(AirportSubsectionCode::LocalizerGlideSlope)
    } else if c == 0x4bu8 {
        Some(AirportSubsectionCode::Taa)
    } else if c == 0x4cu8 {
        Some(AirportSubsectionCode::Mls)
    } else if c == 0x4du8 {
        Some(AirportSubsectionCode::LocalizerMarker)
    } else if c == 0x4eu8 {
        Some(AirportSubsectionCode::TerminalNdb)
    } else if c == 0x50u8 {
        Some(AirportSubsectionCode::PathPoint)
    } else if c == 0x52u8 {
        Some(AirportSubsectionCode::FltPlanningArrDep)
    } else if c == 0x53u8 {
        Some(AirportSubsectionCode::Msa)
    } else if c == 0x54u8 {
        Some(AirportSubsectionCode::GlsStation)
    } else if c == 0x56u8 {
        Some(AirportSubsectionCode::Communications)
    } else {
        None
    }
}

pub open spec fn heliport_subsection_of(c: u8) -> Option<HeliportSubsectionCode> {
    if c == 0x41u8 {
        Some(HeliportSubsectionCode::Pads)
    } else if c == 0x43u8 {
        Some(HeliportSubsectionCode::TerminalWaypoints)
    } else if c == 0x44u8 {
        Some(HeliportSubsectionCode::Sids)
    } else if c == 0x45u8 {
        Some(HeliportSubsectionCode::Stars)
    } else if c == 0x46u8 {
        Some(HeliportSubsectionCode::ApproachProcedures)
    } else if c == 0x4bu8 {
        Some(HeliportSubsectionCode::Taa)
    } else if c == 0x53u8 {
        Some(HeliportSubsectionCode::Msa)
    } else if c == 0x56u8 {
        Some(HeliportSubsectionCode::Communications)
    } else {
        None
    }
}

pub open spec fn enroute_subsection_of(c: u8) -> Option<EnrouteSubsectionCode> {
    if c == 0x41u8 {
        Some(EnrouteSubsectionCode::Waypoints)
    } else if c == 0x4du8 {
        Some(EnrouteSubsectionCode::AirwayMarkers)
    } else if c == 0x50u8 {
        Some(EnrouteSubsectionCode::HoldingPatterns)
    } else if c == 0x52u8 {
        Some(EnrouteSubsectionCode::AirwaysAndRoutes)
    } else if c == 0x54u8 {
        Some(EnrouteSubsectionCode::PreferredRoutes)
    } else if c == 0x55u8 {
        Some(EnrouteSubsectionCode::AirwayRestrictions)
    } else if c == 0x56u8 {
        Some(EnrouteSubsectionCode::Communications)
    } else {
        None
    }
}

pub open spec fn navaid_subsection_of(c: u8) -> Option<NavaidSubsectionCode> {
    if c == 0x20u8 {
        Some(NavaidSubsectionCode::VhfNavaid)
    } else if c == 0x42u8 {
        Some(NavaidSubsectionCode::NdbNavaid)
    } else {
        None
    }
}

pub open spec fn mora_subsection_of(c: u8) -> Option<MoraSubsectionCode> {
    if c == 0x53u8 {
        Some(MoraSubsectionCode::GridMora)
    } else {
        None
    }
}

/// The subsection that letter `c` names within `section`.
pub open spec fn subsection_code_of(section: SectionCode, c: u8) -> Option<EnrichedSectionCode> {
    match section {
        SectionCode::Mora => match mora_subsection_of(c) {
            Some(s) => Some(EnrichedSectionCode::Mora(s)),
            None => None,
        },
        SectionCode::Navaid => match navaid_subsection_of(c) {
            Some(s) => Some(EnrichedSectionCode::Navaid(s)),
            None => None,
        },
        SectionCode::Enroute => match enroute_subsection_of(c) {
            Some(s) => Some(EnrichedSectionCode::Enroute(s)),
            None => None,
        },
        SectionCode::Heliport => match heliport_subsection_of(c) {
            Some(s) => Some(EnrichedSectionCode::Heliport(s)),
            None => None,
        },
        SectionCode::Airport => match airport_subsection_of(c) {
            Some(s) => Some(EnrichedSectionCode::Airport(s)),
            None => None,
        },
        SectionCode::CompanyRoutes => match company_routes_subsection_of(c) {
            Some(s) => Some(EnrichedSectionCode::CompanyRoutes(s)),
            None => None,
        },
        SectionCode::Tables => match tables_subsection_of(c) {
            Some(s) => Some(EnrichedSectionCode::Tables(s)),
            None => None,
        },
        SectionCode::Airspace => match airspace_subsection_of(c) {
            Some(s) => Some(EnrichedSectionCode::Airspace(s)),
            None => None,
        },
    }
}

/// Reads a section code.
pub fn parse_section_code(section_code: u8) -> (r: Option<SectionCode>)
    ensures
        r == section_code_of(section_code),
{
    match section_code {
        0x41u8 => Some(SectionCode::Mora),
        0x44u8 => Some(SectionCode::Navaid),
        0x45u8 => Some(SectionCode::Enroute),
        0x48u8 => Some(SectionCode::Heliport),
        0x50u8 => Some(SectionCode::Airport),
        0x52u8 => Some(SectionCode::CompanyRoutes),
        0x54u8 => Some(SectionCode::Tables),
        0x55u8 => Some(SectionCode::Airspace),
        _ => None,
    }
}

/// Reads the subsection code that follows a section code.
pub fn parse_subsection_code(section_code: SectionCode, subsection_code: u8) -> (r: Option<
    EnrichedSectionCode,
>)
    ensures
        r == subsection_code_of(section_code, subsection_code),
{
    match section_code {
        SectionCode::Mora => match parse_mora_subsection_code(subsection_code) {
            Some(s) => Some(EnrichedSectionCode::Mora(s)),
            None => None,
        },
        SectionCode::Navaid => match parse_navaid_subsection_code(subsection_code) {
            Some(s) => Some(EnrichedSectionCode::Navaid(s)),
            None => None,
        },
        SectionCode::Enroute => match parse_enroute_subsection_code(subsection_code) {
            Some(s) => Some(EnrichedSectionCode::Enroute(s)),
            None => None,
        },
        SectionCode::Heliport => match parse_heliport_subsection_code(subsection_code) {
            Some(s) => Some(EnrichedSectionCode::Heliport(s)),
            None => None,
        },
        SectionCode::Airport => match parse_airport_subsection_code(subsection_code) {
            Some(s) => Some(EnrichedSectionCode::Airport(s)),
            None => None,
        },
        SectionCode::CompanyRoutes => match parse_company_routes_subsection_code(subsection_code) {
            Some(s) => Some(EnrichedSectionCode::CompanyRoutes(s)),
            None => None,
        },
        SectionCode::Tables => match parse_tables_subsection_code(subsection_code) {
            Some(s) => Some(EnrichedSectionCode::Tables(s)),
            None => None,
        },
        SectionCode::Airspace => match parse_airspace_subsection_code(subsection_code) {
            Some(s) => Some(EnrichedSectionCode::Airspace(s)),
            None => None,
        },
    }
}

fn parse_airspace_subsection_code(subsection_code: u8) -> (r: Option<AirspaceSubsectionCode>)
    ensures
        r == airspace_subsection_of(subsection_code),
{
    match subsection_code {
        0x43u8 => Some(AirspaceSubsectionCode::ControlledAirspace),
        0x46u8 => Some(AirspaceSubsectionCode::FirUir),
        0x52u8 => Some(AirspaceSubsectionCode::RestrictiveAirspace),
        _ => None,
    }
}

fn parse_tables_subsection_code(subsection_code: u8) -> (r: Option<TablesSubsectionCode>)
    ensures
        r == tables_subsection_of(subsection_code),
{
    match subsection_code {
        0x43u8 => Some(TablesSubsectionCode::CruisingTables),
        0x47u8 => Some(TablesSubsectionCode::GeographicalReference),
        _ => None,
    }
}

fn parse_company_routes_subsection_code(subsection_code: u8) -> (r: Option<
    CompanyRoutesSubsectionCode,
>)
    ensures
        r == company_routes_subsection_of(subsection_code),
{
    match subsection_code {
        0x20u8 => Some(CompanyRoutesSubsectionCode::CompanyRoutes),
        0x41u8 => Some(CompanyRoutesSubsectionCode::AlternateRecords),
        _ => None,
    }
}

fn parse_airport_subsection_code(subsection_code: u8) -> (r: Option<AirportSubsectionCode>)
    ensures
        r == airport_subsection_of(subsection_code),
{
    match subsection_code {
        0x41u8 => Some(AirportSubsectionCode::ReferencePoints),
        0x42u8 => Some(AirportSubsectionCode::Gates),
        0x43u8 => Some(AirportSubsectionCode::TerminalWaypoints),
        0x44u8 => Some(AirportSubsectionCode::Sids),
        0x45u8 => Some(AirportSubsectionCode::Stars),
        0x46u8 => Some(AirportSubsectionCode::ApproachProcedures),
        0x47u8 => Some(AirportSubsectionCode::Runways),
        0x49u8 => Some(AirportSubsectionCode::LocalizerGlideSlope),
        0x4bu8 => Some(AirportSubsectionCode::Taa),
        0x4cu8 => Some(AirportSubsectionCode::Mls),
        0x4du8 => Some(AirportSubsectionCode::LocalizerMarker),
        0x4eu8 => Some(AirportSubsectionCode::TerminalNdb),
        0x50u8 => Some(AirportSubsectionCode::PathPoint),
        0x52u8 => Some(AirportSubsectionCode::FltPlanningArrDep),
        0x53u8 => Some(AirportSubsectionCode::Msa),
        0x54u8 => Some(AirportSubsectionCode::GlsStation),
        0x56u8 => Some(AirportSubsectionCode::Communications),
        _ => None,
    }
}

fn parse_heliport_subsection_code(subsection_code: u8) -> (r: Option<HeliportSubsectionCode>)
    ensures
        r == heliport_subsection_of(subsection_code),
{
    match subsection_code {
        0x41u8 => Some(HeliportSubsectionCode::Pads),
        0x43u8 => Some(HeliportSubsectionCode::TerminalWaypoints),
        0x44u8 => Some(HeliportSubsectionCode::Sids),
        0x45u8 => Some(HeliportSubsectionCode::Stars),
        0x46u8 => Some(HeliportSubsectionCode::ApproachProcedures),
        0x4bu8 => Some(HeliportSubsectionCode::Taa),
        0x53u8 => Some(HeliportSubsectionCode::Msa),
        0x56u8 => Some(HeliportSubsectionCode::Communications),
        _ => None,
    }
}

fn parse_enroute_subsection_code(subsection_code: u8) -> (r: Option<EnrouteSubsectionCode>)
    ensures
        r == enroute_subsection_of(subsection_code),
{
    match subsection_code {
        0x41u8 => Some(EnrouteSubsectionCode::Waypoints),
        0x4du8 => Some(EnrouteSubsectionCode::AirwayMarkers),
        0x50u8 => Some(EnrouteSubsectionCode::HoldingPatterns),
        0x52u8 => Some(EnrouteSubsectionCode::AirwaysAndRoutes),
        0x54u8 => Some(EnrouteSubsectionCode::PreferredRoutes),
        0x55u8 => Some(EnrouteSubsectionCode::AirwayRestrictions),
        0x56u8 => Some(EnrouteSubsectionCode::Communications),
        _ => None,
    }
}

fn parse_navaid_subsection_code(subsection_code: u8) -> (r: Option<NavaidSubsectionCode>)
    ensures
        r == navaid_subsection_of(subsection_code),
{
    match subsection_code {
        0x20u8 => Some(NavaidSubsectionCode::VhfNavaid),
        0x42u8 => Some(NavaidSubsectionCode::NdbNavaid),
        _ => None,
    }
}

fn parse_mora_subsection_code(subsections_code: u8) -> (r: Option<MoraSubsectionCode>)
    ensures
        r == mora_subsection_of(subsections_code),
{
    match subsections_code {
        0x53u8 => Some(MoraSubsectionCode::GridMora),
        _ => None,
    }
}

} // verus!
