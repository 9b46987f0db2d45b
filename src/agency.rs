//! Agencies: the operators that a feed describes.
use crate::fields::{FieldError, optional_text, read_optional_text, read_required_text, required_text};
use crate::table::Record;
use vstd::prelude::*;

verus! {

/// An operator of transit service.
#[derive(Debug, Clone)]
pub struct Agency {
    pub agency_id: Option<String>,
    pub agency_name: String,
    pub agency_url: String,
    pub agency_timezone: String,
    pub agency_lang: Option<String>,
    pub agency_phone: Option<String>,
    pub agency_fare_url: Option<String>,
    pub agency_email: Option<String>,
}

impl Record for Agency {
    open spec fn spec_decode(header: Seq<String>, row: Seq<String>) -> Result<Agency, FieldError> {
        let agency_name = required_text(header, row, "agency_name");
        let agency_url = required_text(header, row, "agency_url");
        let agency_timezone = required_text(header, row, "agency_timezone");
        if agency_name is Err {
            Err(agency_name->Err_0)
        } else if agency_url is Err {
            Err(agency_url->Err_0)
        } else if agency_timezone is Err {
            Err(agency_timezone->Err_0)
        } else {
            Ok(Agency {
                agency_id: optional_text(header, row, "agency_id"),
                agency_name: agency_name->Ok_0,
                agency_url: agency_url->Ok_0,
                agency_timezone: agency_timezone->Ok_0,
                agency_lang: optional_text(header, row, "agency_lang"),
                agency_phone: optional_text(header, row, "agency_phone"),
                agency_fare_url: optional_text(header, row, "agency_fare_url"),
                agency_email: optional_text(header, row, "agency_email"),
            })
        }
    }

    fn decode(header: &Vec<String>, row: &Vec<String>) -> (r: Result<Agency, FieldError>) {
        let agency_name = match read_required_text(header, row, "agency_name") {
            Ok(v) => v,
            Err(e) => return Err(e),
        };
        let agency_url = match read_required_text(header, row, "agency_url") {
            Ok(v) => v,
            Err(e) => return Err(e),
        };
        let agency_timezone = match read_required_text(header, row, "agency_timezone") {
            Ok(v) => v,
            Err(e) => return Err(e),
        };
        Ok(Agency {
            agency_id: read_optional_text(header, row, "agency_id"),
            agency_name,
            agency_url,
            agency_timezone,
            agency_lang: read_optional_text(header, row, "agency_lang"),
            agency_phone: read_optional_text(header, row, "agency_phone"),
            agency_fare_url: read_optional_text(header, row, "agency_fare_url"),
            agency_email: read_optional_text(header, row, "agency_email"),
        })
    }
}

} // verus!
