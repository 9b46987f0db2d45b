use gtfs_parsing::codes::{
    Activity, BikeSupport, Code, ContinuousType, DirectionType, DropoffType, ExceptionType,
    LocationType, PickupType, RouteType, Timepoint, TransferType, WheelchairAccessibility,
    WheelchairBoarding,
};
use gtfs_parsing::fields::{le_text, parse_u32, same_text};

#[test]
fn decimal_numbers() {
    assert_eq!(parse_u32("0"), Some(0));
    assert_eq!(parse_u32("180"), Some(180));
    assert_eq!(parse_u32("+7"), Some(7));
    assert_eq!(parse_u32("4294967295"), Some(u32::MAX));
    assert_eq!(parse_u32("4294967296"), None);
    assert_eq!(parse_u32("99999999999"), None);
    assert_eq!(parse_u32(""), None);
    assert_eq!(parse_u32("+"), None);
    assert_eq!(parse_u32("1a"), None);
    assert_eq!(parse_u32("-1"), None);
    assert_eq!(parse_u32(" 1"), None);
}

#[test]
fn dates_compare_as_text() {
    assert!(le_text("20250301", "20250401"));
    assert!(le_text("20250301", "20250301"));
    assert!(!le_text("20250402", "20250401"));
    assert!(le_text("", "1"));
    assert!(!le_text("1", ""));
    assert!(le_text("2025", "20250101"));
    assert!(same_text("S31", "S31"));
    assert!(!same_text("S31", "S31N"));
}

#[test]
fn route_type_codes() {
    let expected = [
        (0, RouteType::LightRail),
        (1, RouteType::Subway),
        (2, RouteType::Rail),
        (3, RouteType::Bus),
        (4, RouteType::Ferry),
        (5, RouteType::CableTram),
        (6, RouteType::AerialLift),
        (7, RouteType::Funicular),
        (11, RouteType::TrolleyBus),
        (12, RouteType::Monorail),
    ];
    for (code, kind) in expected {
        assert_eq!(RouteType::from_code(code), Some(kind));
    }
    for code in [8, 9, 10, 13, 700] {
        assert_eq!(RouteType::from_code(code), None);
    }
}

#[test]
fn other_codes() {
    assert_eq!(Activity::from_code(1), Some(Activity::Active));
    assert_eq!(Activity::from_code(2), None);
    assert!(Activity::Active.is_active());
    assert!(!Activity::Inactive.is_active());
    assert_eq!(ExceptionType::from_code(1), Some(ExceptionType::Added));
    assert_eq!(ExceptionType::from_code(2), Some(ExceptionType::Removed));
    assert_eq!(ExceptionType::from_code(0), None);
    assert_eq!(ContinuousType::from_code(3), Some(ContinuousType::CallDriver));
    assert_eq!(DropoffType::from_code(1), Some(DropoffType::NoDropoff));
    assert_eq!(PickupType::from_code(4), None);
    assert_eq!(Timepoint::from_code(1), Some(Timepoint::Precise));
    assert_eq!(LocationType::from_code(4), Some(LocationType::BoardingArea));
    assert_eq!(LocationType::from_code(5), None);
    assert_eq!(WheelchairBoarding::from_code(2), Some(WheelchairBoarding::NoSupport));
    assert_eq!(TransferType::from_code(5), Some(TransferType::NoInSeat));
    assert_eq!(TransferType::from_code(6), None);
    assert_eq!(DirectionType::from_code(0), Some(DirectionType::Uptown));
    assert_eq!(DirectionType::from_code(1), Some(DirectionType::Downtown));
    assert_eq!(WheelchairAccessibility::from_code(1), Some(WheelchairAccessibility::SomeSupport));
    assert_eq!(BikeSupport::from_code(3), None);
}
