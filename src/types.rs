use vstd::prelude::*;

verus! {

/// East or west of the prime meridian.
#[derive(Copy, Clone, Debug, PartialEq, Eq, Structural, Hash, PartialOrd, Ord)]
pub enum LongitudeHemisphere {
    East,
    West,
}

/// A longitude in degrees, minutes, seconds and hundredths of a second.
#[derive(Copy, Clone, Debug, PartialEq, Eq, Structural, Hash, PartialOrd, Ord)]
pub struct Longitude {
    pub hemisphere: LongitudeHemisphere,
    pub degrees: u8,
    pub minutes: u8,
    pub seconds: u8,
    pub fractional_seconds: u8,
}

/// North or south of the equator.
#[derive(Copy, Clone, Debug, PartialEq, Eq, Structural, Hash, PartialOrd, Ord)]
pub enum LatitudeHemisphere {
    North,
    South,
}

/// A latitude in degrees, minutes, seconds and hundredths of a second.
#[derive(Copy, Clone, Debug, PartialEq, Eq, Structural, Hash, PartialOrd, Ord)]
pub struct Latitude {
    pub hemisphere: LatitudeHemisphere,
    pub degrees: u8,
    pub minutes: u8,
    pub seconds: u8,
    pub fractional_seconds: u8,
}

/// The two-digit year and the cycle within it of a data release.
#[derive(Copy, Clone, Debug, PartialEq, Eq, Structural, Hash, PartialOrd, Ord)]
pub struct CycleDate {
    pub year: u8,
    pub cycle: u8,
}

#[derive(Copy, Clone, Debug, PartialEq, Eq, Structural, Hash, PartialOrd, Ord)]
pub enum MagneticTrueIndicator {
    Magnetic,
    True,
}

/// An offset from UTC.
#[derive(Copy, Clone, Debug, PartialEq, Eq, Structural, Hash, PartialOrd, Ord)]
pub struct TimeZone {
    pub hour: i8,
    pub minute: u8,
}

#[derive(Copy, Clone, Debug, PartialEq, Eq, Structural, Hash, PartialOrd, Ord)]
pub enum PublicMilitaryIndicator {
    Civil,
    Military,
    Private,
}

/// The angle between magnetic and true north, in tenths of a degree.
#[derive(Copy, Clone, Debug, PartialEq, Eq, Structural, Hash, PartialOrd, Ord)]
pub enum MagneticVariation {
    East(u32),
    West(u32),
    True,
}

#[derive(Copy, Clone, Debug, PartialEq, Eq, Structural, Hash, PartialOrd, Ord)]
pub enum RunwaySurfaceCode {
    HardSurface,
    SoftSurface,
    WaterRunway,
    Undefined,
}

/// A flight level, or an altitude above mean sea level in feet.
#[derive(Copy, Clone, Debug, PartialEq, Eq, Structural, Hash, PartialOrd, Ord)]
pub enum Altitude {
    Fl(u16),
    Msl(u32),
}

#[derive(Copy, Clone, Debug, PartialEq, Eq, Structural, Hash, PartialOrd, Ord)]
pub enum RecordType {
    Standard,
    Tailored,
}

#[derive(Copy, Clone, Debug, PartialEq, Eq, Structural, Hash, PartialOrd, Ord)]
pub enum SectionCode {
    Mora,
    Navaid,
    Enroute,
    Heliport,
    Airport,
    CompanyRoutes,
    Tables,
    Airspace,
}

/// A section together with its subsection.
#[derive(Copy, Clone, Debug, PartialEq, Eq, Structural, Hash, PartialOrd, Ord)]
pub enum EnrichedSectionCode {
    Mora(MoraSubsectionCode),
    Navaid(NavaidSubsectionCode),
    Enroute(EnrouteSubsectionCode),
    Heliport(HeliportSubsectionCode),
    Airport(AirportSubsectionCode),
    CompanyRoutes(CompanyRoutesSubsectionCode),
    Tables(TablesSubsectionCode),
    Airspace(AirspaceSubsectionCode),
}

#[derive(Copy, Clone, Debug, PartialEq, Eq, Structural, Hash, PartialOrd, Ord)]
pub enum MoraSubsectionCode {
    GridMora,
}

#[derive(Copy, Clone, Debug, PartialEq, Eq, Structural, Hash, PartialOrd, Ord)]
pub enum NavaidSubsectionCode {
    VhfNavaid,
    NdbNavaid,
}

#[derive(Copy, Clone, Debug, PartialEq, Eq, Structural, Hash, PartialOrd, Ord)]
pub enum EnrouteSubsectionCode {
    Waypoints,
    AirwayMarkers,
    HoldingPatterns,
    AirwaysAndRoutes,
    PreferredRoutes,
    AirwayRestrictions,
    Communications,
}

#[derive(Copy, Clone, Debug, PartialEq, Eq, Structural, Hash, PartialOrd, Ord)]
pub enum HeliportSubsectionCode {
    Pads,
    TerminalWaypoints,
    Sids,
    Stars,
    ApproachProcedures,
    Taa,
    Msa,
    Communications,
}

#[derive(Copy, Clone, Debug, PartialEq, Eq, Structural, Hash, PartialOrd, Ord)]
pub enum AirportSubsectionCode {
    ReferencePoints,
    Gates,
    TerminalWaypoints,
    Sids,
    Stars,
    ApproachProcedures,
    Runways,
    LocalizerGlideSlope,
    Taa,
    Mls,
    LocalizerMarker,
    TerminalNdb,
    PathPoint,
    FltPlanningArrDep,
    Msa,
    GlsStation,
    Communications,
}

#[derive(Copy, Clone, Debug, PartialEq, Eq, Structural, Hash, PartialOrd, Ord)]
pub enum CompanyRoutesSubsectionCode {
    CompanyRoutes,
    AlternateRecords,
}

#[derive(Copy, Clone, Debug, PartialEq, Eq, Structural, Hash, PartialOrd, Ord)]
pub enum TablesSubsectionCode {
    CruisingTables,
    GeographicalReference,
}

#[derive(Copy, Clone, Debug, PartialEq, Eq, Structural, Hash, PartialOrd, Ord)]
pub enum AirspaceSubsectionCode {
    ControlledAirspace,
    FirUir,
    RestrictiveAirspace,
}

} // verus!
