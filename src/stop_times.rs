//! Stop times: when each trip serves each stop.
use crate::codes::{DropoffType, PickupType, Timepoint};
use crate::fields::{FieldError, optional_code, optional_text, read_optional_code, read_optional_text, read_required_number, read_required_text, required_number, required_text};
use crate::group::Slot;
use crate::table::Record;
use vstd::prelude::*;

verus! {

/// The time at which a trip serves a stop; the distance travelled is kept as its decimal text.
#[derive(Debug, Clone)]
pub struct StopTime {
    pub trip_id: String,
    pub arrival_time: Option<String>,
    pub departure_time: Option<String>,
    pub stop_id: Option<String>,
    pub location_group_id: Option<String>,
    pub location_id: Option<String>,
    pub stop_sequence: u32,
    pub stop_headsign: Option<String>,
    pub start_pickup_drop_off_window: Option<String>,
    pub end_pickup_drop_off_window: Option<String>,
    pub pickup_type: Option<PickupType>,
    pub drop_off_type: Option<DropoffType>,
    pub continuous_pickup: Option<PickupType>,
    pub continuous_drop_off: Option<DropoffType>,
    pub shape_dist_traveled: Option<String>,
    pub timepoint: Option<Timepoint>,
    pub pickup_booking_rule_id: Option<String>,
    pub drop_off_booking_rule_id: Option<String>,
}

impl Record for StopTime {
    open spec fn spec_decode(header: Seq<String>, row: Seq<String>) -> Result<StopTime, FieldError> {
        let trip_id = required_text(header, row, "trip_id");
        let stop_sequence = required_number(header, row, "stop_sequence");
        let pickup_type = optional_code::<PickupType>(header, row, "pickup_type");
        let drop_off_type = optional_code::<DropoffType>(header, row, "drop_off_type");
        let continuous_pickup = optional_code::<PickupType>(header, row, "continuous_pickup");
        let continuous_drop_off = optional_code::<DropoffType>(header, row, "continuous_drop_off");
        let timepoint = optional_code::<Timepoint>(header, row, "timepoint");
        if trip_id is Err {
            Err(trip_id->Err_0)
        } else if stop_sequence is Err {
            Err(stop_sequence->Err_0)
        } else if pickup_type is Err {
            Err(pickup_type->Err_0)
        } else if drop_off_type is Err {
            Err(drop_off_type->Err_0)
        } else if continuous_pickup is Err {
            Err(continuous_pickup->Err_0)
        } else if continuous_drop_off is Err {
            Err(continuous_drop_off->Err_0)
        } else if timepoint is Err {
            Err(timepoint->Err_0)
        } else {
            Ok(StopTime {
                trip_id: trip_id->Ok_0,
                arrival_time: optional_text(header, row, "arrival_time"),
                departure_time: optional_text(header, row, "departure_time"),
                stop_id: optional_text(header, row, "stop_id"),
                location_group_id: optional_text(header, row, "location_group_id"),
                location_id: optional_text(header, row, "location_id"),
                stop_sequence: stop_sequence->Ok_0,
                stop_headsign: optional_text(header, row, "stop_headsign"),
                start_pickup_drop_off_window: optional_text(header, row, "start_pickup_drop_off_window"),
                end_pickup_drop_off_window: optional_text(header, row, "end_pickup_drop_off_window"),
                pickup_type: pickup_type->Ok_0,
                drop_off_type: drop_off_type->Ok_0,
                continuous_pickup: continuous_pickup->Ok_0,
                continuous_drop_off: continuous_drop_off->Ok_0,
                shape_dist_traveled: optional_text(header, row, "shape_dist_traveled"),
                timepoint: timepoint->Ok_0,
                pickup_booking_rule_id: optional_text(header, row, "pickup_booking_rule_id"),
                drop_off_booking_rule_id: optional_text(header, row, "drop_off_booking_rule_id"),
            })
        }
    }

    fn decode(header: &Vec<String>, row: &Vec<String>) -> (r: Result<StopTime, FieldError>) {
        let trip_id = match read_required_text(header, row, "trip_id") {
            Ok(v) => v,
            Err(e) => return Err(e),
        };
        let stop_sequence = match read_required_number(header, row, "stop_sequence") {
            Ok(v) => v,
            Err(e) => return Err(e),
        };
        let pickup_type = match read_optional_code::<PickupType>(header, row, "pickup_type") {
            Ok(v) => v,
            Err(e) => return Err(e),
        };
        let drop_off_type = match read_optional_code::<DropoffType>(header, row, "drop_off_type") {
            Ok(v) => v,
            Err(e) => return Err(e),
        };
        let continuous_pickup = match read_optional_code::<PickupType>(header, row, "continuous_pickup") {
            Ok(v) => v,
            Err(e) => return Err(e),
        };
        let continuous_drop_off = match read_optional_code::<DropoffType>(header, row, "continuous_drop_off") {
            Ok(v) => v,
            Err(e) => return Err(e),
        };
        let timepoint = match read_optional_code::<Timepoint>(header, row, "timepoint") {
            Ok(v) => v,
            Err(e) => return Err(e),
        };
        Ok(StopTime {
            trip_id,
            arrival_time: read_optional_text(header, row, "arrival_time"),
            departure_time: read_optional_text(header, row, "departure_time"),
            stop_id: read_optional_text(header, row, "stop_id"),
            location_group_id: read_optional_text(header, row, "location_group_id"),
            location_id: read_optional_text(header, row, "location_id"),
            stop_sequence,
            stop_headsign: read_optional_text(header, row, "stop_headsign"),
            start_pickup_drop_off_window: read_optional_text(header, row, "start_pickup_drop_off_window"),
            end_pickup_drop_off_window: read_optional_text(header, row, "end_pickup_drop_off_window"),
            pickup_type,
            drop_off_type,
            continuous_pickup,
            continuous_drop_off,
            shape_dist_traveled: read_optional_text(header, row, "shape_dist_traveled"),
            timepoint,
            pickup_booking_rule_id: read_optional_text(header, row, "pickup_booking_rule_id"),
            drop_off_booking_rule_id: read_optional_text(header, row, "drop_off_booking_rule_id"),
        })
    }
}

/// The position of the first stop time with sequence number `n`, from position `i` on.
pub open spec fn find_sequence_from(s: Seq<StopTime>, n: u32, i: int) -> Option<int>
    decreases s.len() - i,
{
    if i < 0 || i >= s.len() {
        None
    } else if s[i].stop_sequence == n {
        Some(i)
    } else {
        find_sequence_from(s, n, i + 1)
    }
}

proof fn lemma_find_sequence_from(s: Seq<StopTime>, n: u32, i: int)
    requires
        0 <= i,
    ensures
        find_sequence_from(s, n, i) matches Some(j) ==> i <= j < s.len(),
    decreases s.len() - i,
{
    if i < s.len() {
        lemma_find_sequence_from(s, n, i + 1);
    }
}

/// The stop times of a trip are indexed by sequence number: a later row for
/// a number replaces an earlier one.
impl Slot for StopTime {
    open spec fn spec_put(items: Seq<StopTime>, t: StopTime) -> Seq<StopTime> {
        match find_sequence_from(items, t.stop_sequence, 0) {
            Some(i) => items.update(i, t),
            None => items.push(t),
        }
    }

    fn put(items: &mut Vec<StopTime>, t: StopTime) {
        let mut i: usize = 0;
        while i < items.len()
            invariant
                i <= items.len(),
                items@ == old(items)@,
                find_sequence_from(items@, t.stop_sequence, 0) == find_sequence_from(
                    items@,
                    t.stop_sequence,
                    i as int,
                ),
            decreases items.len() - i,
        {
            if items[i].stop_sequence == t.stop_sequence {
                items.set(i, t);
                return;
            }
            i = i + 1;
        }
        items.push(t);
    }

    proof fn lemma_put_contains(items: Seq<StopTime>, t: StopTime) {
        lemma_find_sequence_from(items, t.stop_sequence, 0);
        let u = Self::spec_put(items, t);
        assert forall|x: StopTime| #[trigger] u.contains(x) implies items.contains(x) || x == t by {
            let j = choose|j: int| 0 <= j < u.len() && u[j] == x;
            if j < items.len() && u[j] != t {
                assert(items[j] == x);
            }
        }
    }
}

} // verus!
