//! Routes.
use crate::codes::{ContinuousType, RouteType};
use crate::fields::{FieldError, optional_code, optional_number, optional_text, read_optional_code, read_optional_number, read_optional_text, read_required_code, read_required_text, required_code, required_text};
use crate::index::Keyed;
use crate::table::Record;
use vstd::prelude::*;

verus! {

/// A route: a group of trips shown to riders as one service.
#[derive(Debug, Clone)]
pub struct Route {
    pub route_id: String,
    pub agency_id: Option<String>,
    pub route_short_name: Option<String>,
    pub route_long_name: Option<String>,
    pub route_desc: Option<String>,
    pub route_type: RouteType,
    pub route_url: Option<String>,
    pub route_color: Option<String>,
    pub route_text_color: Option<String>,
    pub route_sort_order: Option<u32>,
    pub continuous_pickup: Option<ContinuousType>,
    pub continuous_drop_off: Option<ContinuousType>,
    pub network_id: Option<String>,
}

impl Record for Route {
    open spec fn spec_decode(header: Seq<String>, row: Seq<String>) -> Result<Route, FieldError> {
        let route_id = required_text(header, row, "route_id");
        let route_type = required_code::<RouteType>(header, row, "route_type");
        let route_sort_order = optional_number(header, row, "route_sort_order");
        let continuous_pickup = optional_code::<ContinuousType>(header, row, "continuous_pickup");
        let continuous_drop_off = optional_code::<ContinuousType>(header, row, "continuous_drop_off");
        if route_id is Err {
            Err(route_id->Err_0)
        } else if route_type is Err {
            Err(route_type->Err_0)
        } else if route_sort_order is Err {
            Err(route_sort_order->Err_0)
        } else if continuous_pickup is Err {
            Err(continuous_pickup->Err_0)
        } else if continuous_drop_off is Err {
            Err(continuous_drop_off->Err_0)
        } else {
            Ok(Route {
                route_id: route_id->Ok_0,
                agency_id: optional_text(header, row, "agency_id"),
                route_short_name: optional_text(header, row, "route_short_name"),
                route_long_name: optional_text(header, row, "route_long_name"),
                route_desc: optional_text(header, row, "route_desc"),
                route_type: route_type->Ok_0,
                route_url: optional_text(header, row, "route_url"),
                route_color: optional_text(header, row, "route_color"),
                route_text_color: optional_text(header, row, "route_text_color"),
                route_sort_order: route_sort_order->Ok_0,
                continuous_pickup: continuous_pickup->Ok_0,
                continuous_drop_off: continuous_drop_off->Ok_0,
                network_id: optional_text(header, row, "network_id"),
            })
        }
    }

    fn decode(header: &Vec<String>, row: &Vec<String>) -> (r: Result<Route, FieldError>) {
        let route_id = match read_required_text(header, row, "route_id") {
            Ok(v) => v,
            Err(e) => return Err(e),
        };
        let route_type = match read_required_code::<RouteType>(header, row, "route_type") {
            Ok(v) => v,
            Err(e) => return Err(e),
        };
        let route_sort_order = match read_optional_number(header, row, "route_sort_order") {
            Ok(v) => v,
            Err(e) => return Err(e),
        };
        let continuous_pickup = match read_optional_code::<ContinuousType>(header, row, "continuous_pickup") {
            Ok(v) => v,
            Err(e) => return Err(e),
        };
        let continuous_drop_off = match read_optional_code::<ContinuousType>(header, row, "continuous_drop_off") {
            Ok(v) => v,
            Err(e) => return Err(e),
        };
        Ok(Route {
            route_id,
            agency_id: read_optional_text(header, row, "agency_id"),
            route_short_name: read_optional_text(header, row, "route_short_name"),
            route_long_name: read_optional_text(header, row, "route_long_name"),
            route_desc: read_optional_text(header, row, "route_desc"),
            route_type,
            route_url: read_optional_text(header, row, "route_url"),
            route_color: read_optional_text(header, row, "route_color"),
            route_text_color: read_optional_text(header, row, "route_text_color"),
            route_sort_order,
            continuous_pickup,
            continuous_drop_off,
            network_id: read_optional_text(header, row, "network_id"),
        })
    }
}

impl Keyed for Route {
    open spec fn spec_key(&self) -> Seq<char> {
        self.route_id@
    }

    fn key(&self) -> (r: &str) {
        self.route_id.as_str()
    }
}

} // verus!
