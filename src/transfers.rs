//! Transfer rules between stops.
use crate::codes::{TransferType};
use crate::fields::{FieldError, optional_number, optional_text, read_optional_number, read_optional_text, read_required_code, required_code};
use crate::group::Slot;
use crate::table::Record;
use vstd::prelude::*;

verus! {

/// A rule for changing between two stops, routes or trips.
#[derive(Debug, Clone)]
pub struct Transfer {
    pub from_stop_id: Option<String>,
    pub to_stop_id: Option<String>,
    pub from_route_id: Option<String>,
    pub to_route_id: Option<String>,
    pub from_trip_id: Option<String>,
    pub to_trip_id: Option<String>,
    pub transfer_type: TransferType,
    pub min_transfer_time: Option<u32>,
}

impl Record for Transfer {
    open spec fn spec_decode(header: Seq<String>, row: Seq<String>) -> Result<Transfer, FieldError> {
        let transfer_type = required_code::<TransferType>(header, row, "transfer_type");
        let min_transfer_time = optional_number(header, row, "min_transfer_time");
        if transfer_type is Err {
            Err(transfer_type->Err_0)
        } else if min_transfer_time is Err {
            Err(min_transfer_time->Err_0)
        } else {
            Ok(Transfer {
                from_stop_id: optional_text(header, row, "from_stop_id"),
                to_stop_id: optional_text(header, row, "to_stop_id"),
                from_route_id: optional_text(header, row, "from_route_id"),
                to_route_id: optional_text(header, row, "to_route_id"),
                from_trip_id: optional_text(header, row, "from_trip_id"),
                to_trip_id: optional_text(header, row, "to_trip_id"),
                transfer_type: transfer_type->Ok_0,
                min_transfer_time: min_transfer_time->Ok_0,
            })
        }
    }

    fn decode(header: &Vec<String>, row: &Vec<String>) -> (r: Result<Transfer, FieldError>) {
        let transfer_type = match read_required_code::<TransferType>(header, row, "transfer_type") {
            Ok(v) => v,
            Err(e) => return Err(e),
        };
        let min_transfer_time = match read_optional_number(header, row, "min_transfer_time") {
            Ok(v) => v,
            Err(e) => return Err(e),
        };
        Ok(Transfer {
            from_stop_id: read_optional_text(header, row, "from_stop_id"),
            to_stop_id: read_optional_text(header, row, "to_stop_id"),
            from_route_id: read_optional_text(header, row, "from_route_id"),
            to_route_id: read_optional_text(header, row, "to_route_id"),
            from_trip_id: read_optional_text(header, row, "from_trip_id"),
            to_trip_id: read_optional_text(header, row, "to_trip_id"),
            transfer_type,
            min_transfer_time,
        })
    }
}

/// The transfers from one stop keep the order of the rows.
impl Slot for Transfer {
    open spec fn spec_put(items: Seq<Transfer>, t: Transfer) -> Seq<Transfer> {
        items.push(t)
    }

    fn put(items: &mut Vec<Transfer>, t: Transfer) {
        items.push(t);
    }

    proof fn lemma_put_contains(items: Seq<Transfer>, t: Transfer) {
        assert forall|x: Transfer| #[trigger] items.push(t).contains(x) implies items.contains(x) || x == t by {
            let j = choose|j: int| 0 <= j < items.len() + 1 && items.push(t)[j] == x;
            if j < items.len() {
                assert(items[j] == x);
            }
        }
    }
}

} // verus!
