//! The enumerated fields of the schedule tables, each decoded from its
//! small integer code.
use vstd::prelude::*;

verus! {

/// A field stored as a small integer code, each code standing for one value.
pub trait Code: Sized {
    /// The value that `value` stands for, if it is one of the codes.
    spec fn spec_from_code(value: u32) -> Option<Self>;

    fn from_code(value: u32) -> (r: Option<Self>)
        ensures
            r == Self::spec_from_code(value),
    ;
}

/// Whether a service runs on a weekday.
#[derive(Debug, Clone, Copy, PartialEq, Eq, Structural)]
pub enum Activity {
    Inactive,
    Active,
}

impl Code for Activity {
    open spec fn spec_from_code(value: u32) -> Option<Activity> {
        if value == 0 {
            Some(Activity::Inactive)
        } else if value == 1 {
            Some(Activity::Active)
        } else {
            None
        }
    }

    fn from_code(value: u32) -> (r: Option<Activity>)
    {
        match value {
            0 => Some(Activity::Inactive),
            1 => Some(Activity::Active),
            _ => None,
        }
    }
}

impl Activity {
    /// `true` exactly for `Active`.
    pub fn is_active(&self) -> (r: bool)
        ensures
            r == (*self == Activity::Active),
    {
        match self {
            Activity::Active => true,
            Activity::Inactive => false,
        }
    }
}

/// Whether a service exception adds or removes service on its date.
#[derive(Debug, Clone, Copy, PartialEq, Eq, Structural)]
pub enum ExceptionType {
    Added,
    Removed,
}

impl Code for ExceptionType {
    open spec fn spec_from_code(value: u32) -> Option<ExceptionType> {
        if value == 1 {
            Some(ExceptionType::Added)
        } else if value == 2 {
            Some(ExceptionType::Removed)
        } else {
            None
        }
    }

    fn from_code(value: u32) -> (r: Option<ExceptionType>)
    {
        match value {
            1 => Some(ExceptionType::Added),
            2 => Some(ExceptionType::Removed),
            _ => None,
        }
    }
}

/// The kind of vehicle that serves a route.
#[derive(Debug, Clone, Copy, PartialEq, Eq, Structural)]
pub enum RouteType {
    LightRail,
    Subway,
    Rail,
    Bus,
    Ferry,
    CableTram,
    AerialLift,
    Funicular,
    TrolleyBus,
    Monorail,
}

impl Code for RouteType {
    open spec fn spec_from_code(value: u32) -> Option<RouteType> {
        if value == 0 {
            Some(RouteType::LightRail)
        } else if value == 1 {
            Some(RouteType::Subway)
        } else if value == 2 {
            Some(RouteType::Rail)
        } else if value == 3 {
            Some(RouteType::Bus)
        } else if value == 4 {
            Some(RouteType::Ferry)
        } else if value == 5 {
            Some(RouteType::CableTram)
        } else if value == 6 {
            Some(RouteType::AerialLift)
        } else if value == 7 {
            Some(RouteType::Funicular)
        } else if value == 11 {
            Some(RouteType::TrolleyBus)
        } else if value == 12 {
            Some(RouteType::Monorail)
        } else {
            None
        }
    }

    fn from_code(value: u32) -> (r: Option<RouteType>)
    {
        match value {
            0 => Some(RouteType::LightRail),
            1 => Some(RouteType::Subway),
            2 => Some(RouteType::Rail),
            3 => Some(RouteType::Bus),
            4 => Some(RouteType::Ferry),
            5 => Some(RouteType::CableTram),
            6 => Some(RouteType::AerialLift),
            7 => Some(RouteType::Funicular),
            11 => Some(RouteType::TrolleyBus),
            12 => Some(RouteType::Monorail),
            _ => None,
        }
    }
}

/// Whether riders may board or alight between stops along a route.
#[derive(Debug, Clone, Copy, PartialEq, Eq, Structural)]
pub enum ContinuousType {
    Continuous,
    NoContinuous,
    CallAgency,
    CallDriver,
}

impl Code for ContinuousType {
    open spec fn spec_from_code(value: u32) -> Option<ContinuousType> {
        if value == 0 {
            Some(ContinuousType::Continuous)
        } else if value == 1 {
            Some(ContinuousType::NoContinuous)
        } else if value == 2 {
            Some(ContinuousType::CallAgency)
        } else if value == 3 {
            Some(ContinuousType::CallDriver)
        } else {
            None
        }
    }

    fn from_code(value: u32) -> (r: Option<ContinuousType>)
    {
        match value {
            0 => Some(ContinuousType::Continuous),
            1 => Some(ContinuousType::NoContinuous),
            2 => Some(ContinuousType::CallAgency),
            3 => Some(ContinuousType::CallDriver),
            _ => None,
        }
    }
}

/// How riders may alight at a stop.
#[derive(Debug, Clone, Copy, PartialEq, Eq, Structural)]
pub enum DropoffType {
    Dropoff,
    NoDropoff,
    CallAgency,
    CallDriver,
}

impl Code for DropoffType {
    open spec fn spec_from_code(value: u32) -> Option<DropoffType> {
        if value == 0 {
            Some(DropoffType::Dropoff)
        } else if value == 1 {
            Some(DropoffType::NoDropoff)
        } else if value == 2 {
            Some(DropoffType::CallAgency)
        } else if value == 3 {
            Some(DropoffType::CallDriver)
        } else {
            None
        }
    }

    fn from_code(value: u32) -> (r: Option<DropoffType>)
    {
        match value {
            0 => Some(DropoffType::Dropoff),
            1 => Some(DropoffType::NoDropoff),
            2 => Some(DropoffType::CallAgency),
            3 => Some(DropoffType::CallDriver),
            _ => None,
        }
    }
}

/// How riders may board at a stop.
#[derive(Debug, Clone, Copy, PartialEq, Eq, Structural)]
pub enum PickupType {
    Pickup,
    NoPickup,
    CallAgency,
    CallDriver,
}

impl Code for PickupType {
    open spec fn spec_from_code(value: u32) -> Option<PickupType> {
        if value == 0 {
            Some(PickupType::Pickup)
        } else if value == 1 {
            Some(PickupType::NoPickup)
        } else if value == 2 {
            Some(PickupType::CallAgency)
        } else if value == 3 {
            Some(PickupType::CallDriver)
        } else {
            None
        }
    }

    fn from_code(value: u32) -> (r: Option<PickupType>)
    {
        match value {
            0 => Some(PickupType::Pickup),
            1 => Some(PickupType::NoPickup),
            2 => Some(PickupType::CallAgency),
            3 => Some(PickupType::CallDriver),
            _ => None,
        }
    }
}

/// Whether a stop time is exact or approximate.
#[derive(Debug, Clone, Copy, PartialEq, Eq, Structural)]
pub enum Timepoint {
    Approximate,
    Precise,
}

impl Code for Timepoint {
    open spec fn spec_from_code(value: u32) -> Option<Timepoint> {
        if value == 0 {
            Some(Timepoint::Approximate)
        } else if value == 1 {
            Some(Timepoint::Precise)
        } else {
            None
        }
    }

    fn from_code(value: u32) -> (r: Option<Timepoint>)
    {
        match value {
            0 => Some(Timepoint::Approximate),
            1 => Some(Timepoint::Precise),
            _ => None,
        }
    }
}

/// What a stop record stands for.
#[derive(Debug, Clone, Copy, PartialEq, Eq, Structural)]
pub enum LocationType {
    StopPlatform,
    Station,
    EntranceExit,
    GenericNode,
    BoardingArea,
}

impl Code for LocationType {
    open spec fn spec_from_code(value: u32) -> Option<LocationType> {
        if value == 0 {
            Some(LocationType::StopPlatform)
        } else if value == 1 {
            Some(LocationType::Station)
        } else if value == 2 {
            Some(LocationType::EntranceExit)
        } else if value == 3 {
            Some(LocationType::GenericNode)
        } else if value == 4 {
            Some(LocationType::BoardingArea)
        } else {
            None
        }
    }

    fn from_code(value: u32) -> (r: Option<LocationType>)
    {
        match value {
            0 => Some(LocationType::StopPlatform),
            1 => Some(LocationType::Station),
            2 => Some(LocationType::EntranceExit),
            3 => Some(LocationType::GenericNode),
            4 => Some(LocationType::BoardingArea),
            _ => None,
        }
    }
}

/// Wheelchair boarding support at a stop.
#[derive(Debug, Clone, Copy, PartialEq, Eq, Structural)]
pub enum WheelchairBoarding {
    NoInfo,
    SomeSupport,
    NoSupport,
}

impl Code for WheelchairBoarding {
    open spec fn spec_from_code(value: u32) -> Option<WheelchairBoarding> {
        if value == 0 {
            Some(WheelchairBoarding::NoInfo)
        } else if value == 1 {
            Some(WheelchairBoarding::SomeSupport)
        } else if value == 2 {
            Some(WheelchairBoarding::NoSupport)
        } else {
            None
        }
    }

    fn from_code(value: u32) -> (r: Option<WheelchairBoarding>)
    {
        match value {
            0 => Some(WheelchairBoarding::NoInfo),
            1 => Some(WheelchairBoarding::SomeSupport),
            2 => Some(WheelchairBoarding::NoSupport),
            _ => None,
        }
    }
}

/// The kind of a transfer rule.
#[derive(Debug, Clone, Copy, PartialEq, Eq, Structural)]
pub enum TransferType {
    Recommended,
    /// The departing vehicle waits for the arriving one.
    Timed,
    /// The transfer needs a minimum amount of time.
    MinimumTime,
    Impossible,
    InSeat,
    NoInSeat,
}

impl Code for TransferType {
    open spec fn spec_from_code(value: u32) -> Option<TransferType> {
        if value == 0 {
            Some(TransferType::Recommended)
        } else if value == 1 {
            Some(TransferType::Timed)
        } else if value == 2 {
            Some(TransferType::MinimumTime)
        } else if value == 3 {
            Some(TransferType::Impossible)
        } else if value == 4 {
            Some(TransferType::InSeat)
        } else if value == 5 {
            Some(TransferType::NoInSeat)
        } else {
            None
        }
    }

    fn from_code(value: u32) -> (r: Option<TransferType>)
    {
        match value {
            0 => Some(TransferType::Recommended),
            1 => Some(TransferType::Timed),
            2 => Some(TransferType::MinimumTime),
            3 => Some(TransferType::Impossible),
            4 => Some(TransferType::InSeat),
            5 => Some(TransferType::NoInSeat),
            _ => None,
        }
    }
}

/// The direction of travel of a trip.
#[derive(Debug, Clone, Copy, PartialEq, Eq, Structural)]
pub enum DirectionType {
    Uptown,
    Downtown,
}

impl Code for DirectionType {
    open spec fn spec_from_code(value: u32) -> Option<DirectionType> {
        if value == 0 {
            Some(DirectionType::Uptown)
        } else if value == 1 {
            Some(DirectionType::Downtown)
        } else {
            None
        }
    }

    fn from_code(value: u32) -> (r: Option<DirectionType>)
    {
        match value {
            0 => Some(DirectionType::Uptown),
            1 => Some(DirectionType::Downtown),
            _ => None,
        }
    }
}

/// Wheelchair accessibility of the vehicle of a trip.
#[derive(Debug, Clone, Copy, PartialEq, Eq, Structural)]
pub enum WheelchairAccessibility {
    NoInfo,
    SomeSupport,
    NoSupport,
}

impl Code for WheelchairAccessibility {
    open spec fn spec_from_code(value: u32) -> Option<WheelchairAccessibility> {
        if value == 0 {
            Some(WheelchairAccessibility::NoInfo)
        } else if value == 1 {
            Some(WheelchairAccessibility::SomeSupport)
        } else if value == 2 {
            Some(WheelchairAccessibility::NoSupport)
        } else {
            None
        }
    }

    fn from_code(value: u32) -> (r: Option<WheelchairAccessibility>)
    {
        match value {
            0 => Some(WheelchairAccessibility::NoInfo),
            1 => Some(WheelchairAccessibility::SomeSupport),
            2 => Some(WheelchairAccessibility::NoSupport),
            _ => None,
        }
    }
}

/// Whether bicycles are allowed on the vehicle of a trip.
#[derive(Debug, Clone, Copy, PartialEq, Eq, Structural)]
pub enum BikeSupport {
    NoInfo,
    SomeSupport,
    NoSupport,
}

impl Code for BikeSupport {
    open spec fn spec_from_code(value: u32) -> Option<BikeSupport> {
        if value == 0 {
            Some(BikeSupport::NoInfo)
        } else if value == 1 {
            Some(BikeSupport::SomeSupport)
        } else if value == 2 {
            Some(BikeSupport::NoSupport)
        } else {
            None
        }
    }

    fn from_code(value: u32) -> (r: Option<BikeSupport>)
    {
        match value {
            0 => Some(BikeSupport::NoInfo),
            1 => Some(BikeSupport::SomeSupport),
            2 => Some(BikeSupport::NoSupport),
            _ => None,
        }
    }
}

} // verus!
