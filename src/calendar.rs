//! Calendars: weekly service patterns and their dated exceptions.
use crate::codes::{Activity, ExceptionType};
use crate::fields::{FieldError, read_required_code, read_required_text, required_code, required_text};
use crate::group::Slot;
use crate::index::{insert_keyed, lemma_find_key, upsert, Keyed};
use crate::table::Record;
use vstd::prelude::*;

verus! {

/// A weekly pattern of service days between two dates, written `YYYYMMDD`.
#[derive(Debug, Clone)]
pub struct Service {
    pub service_id: String,
    pub monday: Activity,
    pub tuesday: Activity,
    pub wednesday: Activity,
    pub thursday: Activity,
    pub friday: Activity,
    pub saturday: Activity,
    pub sunday: Activity,
    pub start_date: String,
    pub end_date: String,
}

impl Record for Service {
    open spec fn spec_decode(header: Seq<String>, row: Seq<String>) -> Result<Service, FieldError> {
        let service_id = required_text(header, row, "service_id");
        let monday = required_code::<Activity>(header, row, "monday");
        let tuesday = required_code::<Activity>(header, row, "tuesday");
        let wednesday = required_code::<Activity>(header, row, "wednesday");
        let thursday = required_code::<Activity>(header, row, "thursday");
        let friday = required_code::<Activity>(header, row, "friday");
        let saturday = required_code::<Activity>(header, row, "saturday");
        let sunday = required_code::<Activity>(header, row, "sunday");
        let start_date = required_text(header, row, "start_date");
        let end_date = required_text(header, row, "end_date");
        if service_id is Err {
            Err(service_id->Err_0)
        } else if monday is Err {
            Err(monday->Err_0)
        } else if tuesday is Err {
            Err(tuesday->Err_0)
        } else if wednesday is Err {
            Err(wednesday->Err_0)
        } else if thursday is Err {
            Err(thursday->Err_0)
        } else if friday is Err {
            Err(friday->Err_0)
        } else if saturday is Err {
            Err(saturday->Err_0)
        } else if sunday is Err {
            Err(sunday->Err_0)
        } else if start_date is Err {
            Err(start_date->Err_0)
        } else if end_date is Err {
            Err(end_date->Err_0)
        } else {
            Ok(Service {
                service_id: service_id->Ok_0,
                monday: monday->Ok_0,
                tuesday: tuesday->Ok_0,
                wednesday: wednesday->Ok_0,
                thursday: thursday->Ok_0,
                friday: friday->Ok_0,
                saturday: saturday->Ok_0,
                sunday: sunday->Ok_0,
                start_date: start_date->Ok_0,
                end_date: end_date->Ok_0,
            })
        }
    }

    fn decode(header: &Vec<String>, row: &Vec<String>) -> (r: Result<Service, FieldError>) {
        let service_id = match read_required_text(header, row, "service_id") {
            Ok(v) => v,
            Err(e) => return Err(e),
        };
        let monday = match read_required_code::<Activity>(header, row, "monday") {
            Ok(v) => v,
            Err(e) => return Err(e),
        };
        let tuesday = match read_required_code::<Activity>(header, row, "tuesday") {
            Ok(v) => v,
            Err(e) => return Err(e),
        };
        let wednesday = match read_required_code::<Activity>(header, row, "wednesday") {
            Ok(v) => v,
            Err(e) => return Err(e),
        };
        let thursday = match read_required_code::<Activity>(header, row, "thursday") {
            Ok(v) => v,
            Err(e) => return Err(e),
        };
        let friday = match read_required_code::<Activity>(header, row, "friday") {
            Ok(v) => v,
            Err(e) => return Err(e),
        };
        let saturday = match read_required_code::<Activity>(header, row, "saturday") {
            Ok(v) => v,
            Err(e) => return Err(e),
        };
        let sunday = match read_required_code::<Activity>(header, row, "sunday") {
            Ok(v) => v,
            Err(e) => return Err(e),
        };
        let start_date = match read_required_text(header, row, "start_date") {
            Ok(v) => v,
            Err(e) => return Err(e),
        };
        let end_date = match read_required_text(header, row, "end_date") {
            Ok(v) => v,
            Err(e) => return Err(e),
        };
        Ok(Service {
            service_id,
            monday,
            tuesday,
            wednesday,
            thursday,
            friday,
            saturday,
            sunday,
            start_date,
            end_date,
        })
    }
}

impl Keyed for Service {
    open spec fn spec_key(&self) -> Seq<char> {
        self.service_id@
    }

    fn key(&self) -> (r: &str) {
        self.service_id.as_str()
    }
}

/// Service added or removed on one date, written `YYYYMMDD`.
#[derive(Debug, Clone)]
pub struct ServiceException {
    pub service_id: String,
    pub date: String,
    pub exception_type: ExceptionType,
}

impl Record for ServiceException {
    open spec fn spec_decode(header: Seq<String>, row: Seq<String>) -> Result<ServiceException, FieldError> {
        let service_id = required_text(header, row, "service_id");
        let date = required_text(header, row, "date");
        let exception_type = required_code::<ExceptionType>(header, row, "exception_type");
        if service_id is Err {
            Err(service_id->Err_0)
        } else if date is Err {
            Err(date->Err_0)
        } else if exception_type is Err {
            Err(exception_type->Err_0)
        } else {
            Ok(ServiceException {
                service_id: service_id->Ok_0,
                date: date->Ok_0,
                exception_type: exception_type->Ok_0,
            })
        }
    }

    fn decode(header: &Vec<String>, row: &Vec<String>) -> (r: Result<ServiceException, FieldError>) {
        let service_id = match read_required_text(header, row, "service_id") {
            Ok(v) => v,
            Err(e) => return Err(e),
        };
        let date = match read_required_text(header, row, "date") {
            Ok(v) => v,
            Err(e) => return Err(e),
        };
        let exception_type = match read_required_code::<ExceptionType>(header, row, "exception_type") {
            Ok(v) => v,
            Err(e) => return Err(e),
        };
        Ok(ServiceException {
            service_id,
            date,
            exception_type,
        })
    }
}

impl Keyed for ServiceException {
    open spec fn spec_key(&self) -> Seq<char> {
        self.date@
    }

    fn key(&self) -> (r: &str) {
        self.date.as_str()
    }
}

/// The exceptions of a service are indexed by date: a later row for a date
/// replaces an earlier one.
impl Slot for ServiceException {
    open spec fn spec_put(items: Seq<ServiceException>, t: ServiceException) -> Seq<ServiceException> {
        upsert(items, t)
    }

    fn put(items: &mut Vec<ServiceException>, t: ServiceException) {
        insert_keyed(items, t);
    }

    proof fn lemma_put_contains(items: Seq<ServiceException>, t: ServiceException) {
        lemma_find_key(items, t.spec_key());
        let u = upsert(items, t);
        assert forall|x: ServiceException| #[trigger] u.contains(x) implies items.contains(x) || x == t by {
            let j = choose|j: int| 0 <= j < u.len() && u[j] == x;
            if j < items.len() && u[j] != t {
                assert(items[j] == x);
            }
        }
    }
}

} // verus!
