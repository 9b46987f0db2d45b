//! Trips.
use crate::codes::{BikeSupport, DirectionType, WheelchairAccessibility};
use crate::fields::{FieldError, optional_code, optional_text, read_optional_code, read_optional_text, read_required_text, required_text};
use crate::index::Keyed;
use crate::table::Record;
use vstd::prelude::*;

verus! {

/// One scheduled journey of a vehicle along a route.
#[derive(Debug, Clone)]
pub struct Trip {
    pub trip_id: String,
    pub route_id: String,
    pub service_id: String,
    pub trip_headsign: Option<String>,
    pub trip_short_name: Option<String>,
    pub direction_id: Option<DirectionType>,
    pub block_id: Option<String>,
    pub shape_id: Option<String>,
    pub wheelchair_accessible: Option<WheelchairAccessibility>,
    pub bikes_allowed: Option<BikeSupport>,
}

impl Record for Trip {
    open spec fn spec_decode(header: Seq<String>, row: Seq<String>) -> Result<Trip, FieldError> {
        let trip_id = required_text(header, row, "trip_id");
        let route_id = required_text(header, row, "route_id");
        let service_id = required_text(header, row, "service_id");
        let direction_id = optional_code::<DirectionType>(header, row, "direction_id");
        let wheelchair_accessible = optional_code::<WheelchairAccessibility>(header, row, "wheelchair_accessible");
        let bikes_allowed = optional_code::<BikeSupport>(header, row, "bikes_allowed");
        if trip_id is Err {
            Err(trip_id->Err_0)
        } else if route_id is Err {
            Err(route_id->Err_0)
        } else if service_id is Err {
            Err(service_id->Err_0)
        } else if direction_id is Err {
            Err(direction_id->Err_0)
        } else if wheelchair_accessible is Err {
            Err(wheelchair_accessible->Err_0)
        } else if bikes_allowed is Err {
            Err(bikes_allowed->Err_0)
        } else {
            Ok(Trip {
                trip_id: trip_id->Ok_0,
                route_id: route_id->Ok_0,
                service_id: service_id->Ok_0,
                trip_headsign: optional_text(header, row, "trip_headsign"),
                trip_short_name: optional_text(header, row, "trip_short_name"),
                direction_id: direction_id->Ok_0,
                block_id: optional_text(header, row, "block_id"),
                shape_id: optional_text(header, row, "shape_id"),
                wheelchair_accessible: wheelchair_accessible->Ok_0,
                bikes_allowed: bikes_allowed->Ok_0,
            })
        }
    }

    fn decode(header: &Vec<String>, row: &Vec<String>) -> (r: Result<Trip, FieldError>) {
        let trip_id = match read_required_text(header, row, "trip_id") {
            Ok(v) => v,
            Err(e) => return Err(e),
        };
        let route_id = match read_required_text(header, row, "route_id") {
            Ok(v) => v,
            Err(e) => return Err(e),
        };
        let service_id = match read_required_text(header, row, "service_id") {
            Ok(v) => v,
            Err(e) => return Err(e),
        };
        let direction_id = match read_optional_code::<DirectionType>(header, row, "direction_id") {
            Ok(v) => v,
            Err(e) => return Err(e),
        };
        let wheelchair_accessible = match read_optional_code::<WheelchairAccessibility>(header, row, "wheelchair_accessible") {
            Ok(v) => v,
            Err(e) => return Err(e),
        };
        let bikes_allowed = match read_optional_code::<BikeSupport>(header, row, "bikes_allowed") {
            Ok(v) => v,
            Err(e) => return Err(e),
        };
        Ok(Trip {
            trip_id,
            route_id,
            service_id,
            trip_headsign: read_optional_text(header, row, "trip_headsign"),
            trip_short_name: read_optional_text(header, row, "trip_short_name"),
            direction_id,
            block_id: read_optional_text(header, row, "block_id"),
            shape_id: read_optional_text(header, row, "shape_id"),
            wheelchair_accessible,
            bikes_allowed,
        })
    }
}

impl Keyed for Trip {
    open spec fn spec_key(&self) -> Seq<char> {
        self.trip_id@
    }

    fn key(&self) -> (r: &str) {
        self.trip_id.as_str()
    }
}

} // verus!
