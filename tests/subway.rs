use gtfs_parsing::codes::DirectionType;
use gtfs_parsing::mta::{SubwayError, SubwaySchedule};
use gtfs_parsing::schedule::Schedule;

const AGENCY: &str = "agency_id,agency_name,agency_url,agency_timezone,agency_lang,agency_phone
MTA NYCT,MTA New York City Transit,http://www.mta.info,America/New_York,en,718-330-1234
";
const ROUTES: &str = "route_id,route_short_name,route_long_name,route_desc,route_type,route_url
1,1,Broadway - 7 Avenue Local,Local service,1,http://web.mta.info/nyct/service/one.htm
";
const CALENDAR: &str = "service_id,monday,tuesday,wednesday,thursday,friday,saturday,sunday,start_date,end_date
Weekday,1,1,1,1,1,0,0,20241216,20250606
";
const TRIPS: &str = "route_id,service_id,trip_id,trip_headsign,direction_id,shape_id
1,Weekday,T1,South Ferry,1,
";
const STOPS: &str = "stop_id,stop_name,stop_lat,stop_lon,parent_station
P,Park Place,40.71,-74.01,
PN,Park Place,40.71,-74.01,P
PS,Park Place,40.71,-74.01,P
";

struct Tables {
    agency: String,
    stops: String,
    stop_times: String,
    routes: String,
    trips: String,
    transfers: String,
}

fn tables() -> Tables {
    Tables {
        agency: AGENCY.to_owned(),
        stops: STOPS.to_owned(),
        stop_times: "trip_id,arrival_time,departure_time,stop_id,stop_sequence\nT1,08:00:00,08:00:30,PS,1\n"
            .to_owned(),
        routes: ROUTES.to_owned(),
        trips: TRIPS.to_owned(),
        transfers: "from_stop_id,to_stop_id,transfer_type,min_transfer_time\nP,P,2,180\n".to_owned(),
    }
}

fn view(t: &Tables) -> Result<SubwaySchedule, SubwayError> {
    let schedule = Schedule::from_readers(
        t.agency.as_bytes(),
        t.stops.as_bytes(),
        t.stop_times.as_bytes(),
        CALENDAR.as_bytes(),
        b"",
        b"",
        t.transfers.as_bytes(),
        t.routes.as_bytes(),
        t.trips.as_bytes(),
        None,
    );
    SubwaySchedule::from_schedule(schedule)
}

#[test]
fn one_parent_with_two_platforms_makes_one_station() {
    let v = view(&tables()).unwrap();
    assert_eq!(v.stations.len(), 1);
    assert_eq!(v.stations[0].stop_id, "P");
    assert_eq!(v.stations[0].uptown_platform_id, "PN");
    assert_eq!(v.stations[0].downtown_platform_id, "PS");
    assert_eq!(v.stations[0].stop_name, Some("Park Place".to_owned()));
    assert_eq!(v.agency.agency_lang, "en");
    assert_eq!(v.agency.agency_phone, "718-330-1234");
    assert_eq!(v.routes.len(), 1);
    assert_eq!(v.routes[0].route_long_name, "Broadway - 7 Avenue Local");
    assert_eq!(v.trips.len(), 1);
    assert_eq!(v.trips[0].headsign, "South Ferry");
    assert_eq!(v.trips[0].direction, DirectionType::Downtown);
    assert_eq!(v.trips[0].shape_id, None);
    assert_eq!(v.stop_times.len(), 1);
    let st = &v.stop_times[0].items[0];
    assert_eq!(st.direction, DirectionType::Downtown);
    assert_eq!(st.station_id(), "P");
    assert_eq!(st.departure_time, "08:00:30");
    assert_eq!(v.transfers.len(), 1);
    assert_eq!(v.transfers[0].id, "P");
    assert_eq!(v.transfers[0].items[0].to_stop_id, "P");
    assert_eq!(v.transfers[0].items[0].min_transfer_time, Some(180));
    assert_eq!(v.services.len(), 1);
}

#[test]
fn stop_count_not_a_multiple_of_three_fails() {
    let mut t = tables();
    t.stops.push_str("Q,Chambers St,40.71,-74.00,\n");
    assert!(matches!(view(&t), Err(SubwayError::StopCount(4))));
    t.stops.push_str("QN,Chambers St,40.71,-74.00,Q\n");
    assert!(matches!(view(&t), Err(SubwayError::StopCount(5))));
}

#[test]
fn stations_join_by_parent_not_by_position() {
    let mut t = tables();
    t.stops = "stop_id,stop_name,parent_station\nPN,Park Place,P\nQ,Chambers St,\nPS,Park Place,P\nQS,Chambers St,Q\nP,Park Place,\nQN,Chambers St,Q\n"
        .to_owned();
    let v = view(&t).unwrap();
    assert_eq!(v.stations.len(), 2);
    assert_eq!(v.stations[0].stop_id, "Q");
    assert_eq!(v.stations[0].uptown_platform_id, "QN");
    assert_eq!(v.stations[0].downtown_platform_id, "QS");
    assert_eq!(v.stations[1].stop_id, "P");
}

#[test]
fn platform_with_another_parent_fails() {
    let mut t = tables();
    t.stops = "stop_id,parent_station\nP,\nPN,X\nPS,P\n".to_owned();
    match view(&t) {
        Err(SubwayError::BadStation { station_id }) => assert_eq!(station_id, "P"),
        other => panic!("unexpected {:?}", other.map(|v| v.stations.len())),
    }
}

#[test]
fn three_stops_that_are_not_one_station_fail() {
    let mut t = tables();
    t.stops = "stop_id,parent_station\nA,\nB,\nC,\n".to_owned();
    assert!(matches!(view(&t), Err(SubwayError::BadStation { .. })));
    t.stops = "stop_id,parent_station\nP,\nPN,P\nPS,P\nPX,P\nPY,P\nPZ,P\n".to_owned();
    assert!(matches!(view(&t), Err(SubwayError::StopCount(6))));
}

#[test]
fn stop_time_without_direction_suffix_fails() {
    let mut t = tables();
    t.stop_times = "trip_id,arrival_time,departure_time,stop_id,stop_sequence\nT1,08:00:00,08:00:30,PX,1\n".to_owned();
    match view(&t) {
        Err(SubwayError::BadPlatform { stop_id }) => assert_eq!(stop_id, "PX"),
        other => panic!("unexpected {:?}", other.map(|v| v.stations.len())),
    }
}

#[test]
fn stop_time_without_times_fails() {
    let mut t = tables();
    t.stop_times = "trip_id,stop_id,stop_sequence\nT1,PN,1\n".to_owned();
    match view(&t) {
        Err(SubwayError::MissingField { table, id, field }) => {
            assert_eq!(table, "stop_times");
            assert_eq!(id, "T1");
            assert_eq!(field, "arrival_time");
        }
        other => panic!("unexpected {:?}", other.map(|v| v.stations.len())),
    }
}

#[test]
fn agency_count_and_fields_are_checked() {
    let mut t = tables();
    t.agency.push_str("Other,Other Agency,http://other,America/New_York,en,1\n");
    assert!(matches!(view(&t), Err(SubwayError::AgencyCount(2))));
    let mut t = tables();
    t.agency = "agency_name,agency_url,agency_timezone,agency_lang\nMTA,http://www.mta.info,America/New_York,en\n".to_owned();
    assert!(matches!(view(&t), Err(SubwayError::MissingField { field: "agency_phone", .. })));
}

#[test]
fn route_and_trip_fields_are_required() {
    let mut t = tables();
    t.routes = "route_id,route_short_name,route_long_name,route_type,route_url\n1,1,Local,1,http://x\n".to_owned();
    assert!(matches!(view(&t), Err(SubwayError::MissingField { table: "routes", field: "route_desc", .. })));
    let mut t = tables();
    t.trips = "route_id,service_id,trip_id,trip_headsign\n1,Weekday,T1,South Ferry\n".to_owned();
    assert!(matches!(view(&t), Err(SubwayError::MissingField { table: "trips", field: "direction_id", .. })));
}

#[test]
fn transfer_to_an_unknown_station_fails() {
    let mut t = tables();
    t.transfers = "from_stop_id,to_stop_id,transfer_type\nP,Z9,2\n".to_owned();
    match view(&t) {
        Err(SubwayError::UnknownStation { stop_id }) => assert_eq!(stop_id, "Z9"),
        other => panic!("unexpected {:?}", other.map(|v| v.stations.len())),
    }
    t.transfers = "from_stop_id,to_stop_id,transfer_type\nZ8,P,2\n".to_owned();
    assert!(matches!(view(&t), Err(SubwayError::UnknownStation { .. })));
    t.transfers = "from_stop_id,transfer_type\nP,2\n".to_owned();
    assert!(matches!(view(&t), Err(SubwayError::MissingField { field: "to_stop_id", .. })));
}
