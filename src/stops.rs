//! Stops, platforms and stations.
use crate::codes::{LocationType, WheelchairBoarding};
use crate::fields::{FieldError, optional_code, optional_text, read_optional_code, read_optional_text, read_required_text, required_text};
use crate::index::Keyed;
use crate::table::Record;
use vstd::prelude::*;

verus! {

/// A stop, platform or station; coordinates are kept as their decimal text.
#[derive(Debug, Clone)]
pub struct Stop {
    pub stop_id: String,
    pub stop_code: Option<String>,
    pub stop_name: Option<String>,
    pub tts_stop_name: Option<String>,
    pub stop_desc: Option<String>,
    pub stop_lat: Option<String>,
    pub stop_lon: Option<String>,
    pub zone_id: Option<String>,
    pub stop_url: Option<String>,
    pub location_type: Option<LocationType>,
    pub parent_station: Option<String>,
    pub stop_timezone: Option<String>,
    pub wheelchair_boarding: Option<WheelchairBoarding>,
    pub level_id: Option<String>,
    pub platform_code: Option<String>,
}

impl Record for Stop {
    open spec fn spec_decode(header: Seq<String>, row: Seq<String>) -> Result<Stop, FieldError> {
        let stop_id = required_text(header, row, "stop_id");
        let location_type = optional_code::<LocationType>(header, row, "location_type");
        let wheelchair_boarding = optional_code::<WheelchairBoarding>(header, row, "wheelchair_boarding");
        if stop_id is Err {
            Err(stop_id->Err_0)
        } else if location_type is Err {
            Err(location_type->Err_0)
        } else if wheelchair_boarding is Err {
            Err(wheelchair_boarding->Err_0)
        } else {
            Ok(Stop {
                stop_id: stop_id->Ok_0,
                stop_code: optional_text(header, row, "stop_code"),
                stop_name: optional_text(header, row, "stop_name"),
                tts_stop_name: optional_text(header, row, "tts_stop_name"),
                stop_desc: optional_text(header, row, "stop_desc"),
                stop_lat: optional_text(header, row, "stop_lat"),
                stop_lon: optional_text(header, row, "stop_lon"),
                zone_id: optional_text(header, row, "zone_id"),
                stop_url: optional_text(header, row, "stop_url"),
                location_type: location_type->Ok_0,
                parent_station: optional_text(header, row, "parent_station"),
                stop_timezone: optional_text(header, row, "stop_timezone"),
                wheelchair_boarding: wheelchair_boarding->Ok_0,
                level_id: optional_text(header, row, "level_id"),
                platform_code: optional_text(header, row, "platform_code"),
            })
        }
    }

    fn decode(header: &Vec<String>, row: &Vec<String>) -> (r: Result<Stop, FieldError>) {
        let stop_id = match read_required_text(header, row, "stop_id") {
            Ok(v) => v,
            Err(e) => return Err(e),
        };
        let location_type = match read_optional_code::<LocationType>(header, row, "location_type") {
            Ok(v) => v,
            Err(e) => return Err(e),
        };
        let wheelchair_boarding = match read_optional_code::<WheelchairBoarding>(header, row, "wheelchair_boarding") {
            Ok(v) => v,
            Err(e) => return Err(e),
        };
        Ok(Stop {
            stop_id,
            stop_code: read_optional_text(header, row, "stop_code"),
            stop_name: read_optional_text(header, row, "stop_name"),
            tts_stop_name: read_optional_text(header, row, "tts_stop_name"),
            stop_desc: read_optional_text(header, row, "stop_desc"),
            stop_lat: read_optional_text(header, row, "stop_lat"),
            stop_lon: read_optional_text(header, row, "stop_lon"),
            zone_id: read_optional_text(header, row, "zone_id"),
            stop_url: read_optional_text(header, row, "stop_url"),
            location_type,
            parent_station: read_optional_text(header, row, "parent_station"),
            stop_timezone: read_optional_text(header, row, "stop_timezone"),
            wheelchair_boarding,
            level_id: read_optional_text(header, row, "level_id"),
            platform_code: read_optional_text(header, row, "platform_code"),
        })
    }
}

impl Keyed for Stop {
    open spec fn spec_key(&self) -> Seq<char> {
        self.stop_id@
    }

    fn key(&self) -> (r: &str) {
        self.stop_id.as_str()
    }
}

} // verus!
