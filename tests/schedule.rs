use std::io::Write;

use gtfs_parsing::codes::{Activity, ExceptionType, RouteType, TransferType};
use gtfs_parsing::group::get_group;
use gtfs_parsing::index::{contains_key, get_keyed};
use gtfs_parsing::schedule::{
    index_service_exceptions, index_services, index_stop_times, index_transfers, index_trips,
    parse_agencies, parse_routes, parse_services, parse_shapes, parse_stop_times, parse_transfers,
    parse_trips, Schedule,
};
use gtfs_parsing::stop_times::StopTime;
use gtfs_parsing::table::decode_all;

const AGENCY: &str = "agency_id,agency_name,agency_url,agency_timezone,agency_lang,agency_phone
MTA NYCT,MTA New York City Transit,http://www.mta.info,America/New_York,en,718-330-1234
";

const STOPS: &str = "stop_id,stop_name,stop_lat,stop_lon,location_type,parent_station
S31,St George,40.643748,-74.073643,1,
S31N,St George,40.643748,-74.073643,,S31
S31S,St George,40.643748,-74.073643,,S31
";

const CALENDAR: &str = "service_id,monday,tuesday,wednesday,thursday,friday,saturday,sunday,start_date,end_date
Weekday,1,1,1,1,1,0,0,20241216,20250606
Late,1,1,1,1,1,0,0,20250402,20250601
Early,0,0,0,0,0,1,1,20250101,20250301
Broken,1,1,1,1,1,0,9,20250101,20250301
";

const CALENDAR_DATES: &str = "service_id,date,exception_type
Holiday,20250317,1
Holiday,20250318,1
Weekday,20250526,2
Weekday,20250317,2
Weekday,20250317,1
Late,20250415,1
";

const ROUTES: &str = "agency_id,route_id,route_short_name,route_long_name,route_desc,route_type,route_url,route_color
MTA NYCT,SI,SI,Staten Island Railway,Local,2,http://web.mta.info/si,
MTA NYCT,Z,Z,Nassau St Express,Express,1,http://web.mta.info/nyct/service/pdf/tjcur.pdf,996633
MTA NYCT,T,T,Trolley,Local,11,http://web.mta.info/t,
MTA NYCT,Q,Q,Unknown kind,Local,9,http://web.mta.info/q,
";

const TRIPS: &str = "route_id,service_id,trip_id,trip_headsign,direction_id,shape_id
SI,Weekday,T1,St George,0,SI..N03R
SI,Late,T2,Tottenville,1,SI..S03R
SI,Holiday,T3,St George,0,
SI,Unknown,T4,St George,0,
";

const STOP_TIMES: &str = "trip_id,arrival_time,departure_time,stop_id,stop_sequence
T1,20:44:00,20:44:00,S31N,1
T1,20:50:00,20:50:00,S31S,2
T2,21:00:00,21:00:00,S31N,1
T4,22:00:00,22:00:00,S31N,1
T1,20:51:00,20:51:00,S31S,2
T3,23:00:00,23:00:00,S31N,5
";

const SHAPES: &str = "shape_id,shape_pt_lat,shape_pt_lon,shape_pt_sequence
A,40.1,-74.1,1
B,40.2,-74.2,1
A,40.3,-74.3,2
A,40.4,-74.4,3
";

const TRANSFERS: &str = "from_stop_id,to_stop_id,transfer_type,min_transfer_time
S31,S31,2,180
,S31,0,
S31,S04,2,300
S04,S04,2,180
";

fn build(bounds: Option<(&String, &String)>) -> Schedule {
    Schedule::from_readers(
        AGENCY.as_bytes(),
        STOPS.as_bytes(),
        STOP_TIMES.as_bytes(),
        CALENDAR.as_bytes(),
        CALENDAR_DATES.as_bytes(),
        SHAPES.as_bytes(),
        TRANSFERS.as_bytes(),
        ROUTES.as_bytes(),
        TRIPS.as_bytes(),
        bounds,
    )
}

fn ids<T>(items: &[T], key: fn(&T) -> &str) -> Vec<String> {
    items.iter().map(|x| key(x).to_string()).collect()
}

#[test]
fn schedule_without_window_keeps_all_decodable_rows() {
    let s = build(None);
    assert_eq!(s.agencies.len(), 1);
    assert_eq!(s.agencies[0].agency_name, "MTA New York City Transit");
    assert_eq!(s.agencies[0].agency_lang, Some("en".to_owned()));
    assert_eq!(s.agencies[0].agency_email, None);
    assert_eq!(ids(&s.stops, |x| &x.stop_id), vec!["S31", "S31N", "S31S"]);
    assert_eq!(s.stops[1].parent_station, Some("S31".to_owned()));
    assert_eq!(s.stops[0].parent_station, None);
    assert_eq!(ids(&s.services, |x| &x.service_id), vec!["Weekday", "Late", "Early"]);
    assert_eq!(s.services[0].monday, Activity::Active);
    assert_eq!(s.services[0].sunday, Activity::Inactive);
    assert_eq!(s.services[0].start_date, "20241216");
    assert_eq!(ids(&s.service_exceptions, |x| &x.id), vec!["Holiday", "Weekday", "Late"]);
    assert_eq!(ids(&s.trips, |x| &x.trip_id), vec!["T1", "T2", "T3"]);
    assert_eq!(ids(&s.stop_times, |x| &x.id), vec!["T1", "T2", "T3"]);
    assert_eq!(ids(&s.routes, |x| &x.route_id), vec!["SI", "Z", "T"]);
    assert_eq!(s.shapes.len(), 2);
    assert_eq!(s.transfers.len(), 2);
}

#[test]
fn schedule_date_window_filters_services_exceptions_trips_and_stop_times() {
    let (start, end) = ("20250301".to_owned(), "20250401".to_owned());
    let s = build(Some((&start, &end)));
    assert_eq!(ids(&s.services, |x| &x.service_id), vec!["Weekday", "Early"]);
    assert_eq!(ids(&s.service_exceptions, |x| &x.id), vec!["Holiday", "Weekday"]);
    assert_eq!(ids(&s.trips, |x| &x.trip_id), vec!["T1", "T3"]);
    assert_eq!(ids(&s.stop_times, |x| &x.id), vec!["T1", "T3"]);
    for service in &s.services {
        assert!(service.start_date <= end && service.end_date >= start);
    }
    for group in &s.service_exceptions {
        for e in &group.items {
            assert!(e.date >= start && e.date <= end);
            assert_eq!(e.service_id, group.id);
        }
    }
    for trip in &s.trips {
        assert!(
            s.services.iter().any(|x| x.service_id == trip.service_id)
                || s.service_exceptions.iter().any(|g| g.id == trip.service_id)
        );
    }
    for group in &s.stop_times {
        assert!(s.trips.iter().any(|t| t.trip_id == group.id));
    }
}

#[test]
fn schedule_one_day_window() {
    let day = "20250318".to_owned();
    let s = build(Some((&day, &day)));
    assert_eq!(ids(&s.services, |x| &x.service_id), vec!["Weekday"]);
    assert_eq!(ids(&s.service_exceptions, |x| &x.id), vec!["Holiday"]);
    assert_eq!(s.service_exceptions[0].items.len(), 1);
    assert_eq!(s.service_exceptions[0].items[0].exception_type, ExceptionType::Added);
}

#[test]
fn every_exception_row_is_kept_including_the_first_of_a_service() {
    let s = build(None);
    let holiday = &s.service_exceptions[0];
    assert_eq!(holiday.id, "Holiday");
    assert_eq!(ids(&holiday.items, |x| &x.date), vec!["20250317", "20250318"]);
    let weekday = &s.service_exceptions[1];
    assert_eq!(ids(&weekday.items, |x| &x.date), vec!["20250526", "20250317"]);
    assert_eq!(weekday.items[1].exception_type, ExceptionType::Added);
    assert_eq!(s.service_exceptions[2].items.len(), 1);
}

#[test]
fn stop_times_are_indexed_by_sequence_with_the_last_row_winning() {
    let s = build(None);
    let t1 = &s.stop_times[0];
    assert_eq!(t1.items.len(), 2);
    assert_eq!(t1.items[0].stop_sequence, 1);
    assert_eq!(t1.items[1].stop_sequence, 2);
    assert_eq!(t1.items[1].arrival_time, Some("20:51:00".to_owned()));
    assert_eq!(t1.items[1].stop_id, Some("S31S".to_owned()));
    assert_eq!(t1.items[0].pickup_type, None);
}

#[test]
fn shapes_gather_every_point_in_arrival_order() {
    let shapes = parse_shapes(SHAPES.as_bytes());
    assert_eq!(shapes.len(), 2);
    assert_eq!(shapes[0].id, "A");
    assert_eq!(shapes[0].items.len(), 3);
    assert_eq!(shapes[0].items[0].shape_pt_lat, "40.1");
    assert_eq!(shapes[0].items[2].shape_pt_lon, "-74.4");
    assert_eq!(shapes[0].items[2].shape_dist_traveled, None);
    assert_eq!(shapes[1].id, "B");
    assert_eq!(shapes[1].items.len(), 1);
}

#[test]
fn shapes_of_an_empty_table() {
    assert!(parse_shapes(b"shape_id,shape_pt_lat,shape_pt_lon,shape_pt_sequence\n").is_empty());
    assert!(parse_shapes(b"").is_empty());
}

#[test]
fn transfers_are_grouped_by_origin_in_row_order() {
    let transfers = parse_transfers(TRANSFERS.as_bytes());
    assert_eq!(ids(&transfers, |x| &x.id), vec!["S31", "S04"]);
    assert_eq!(transfers[0].items.len(), 2);
    assert_eq!(transfers[0].items[0].min_transfer_time, Some(180));
    assert_eq!(transfers[0].items[1].to_stop_id, Some("S04".to_owned()));
    assert_eq!(transfers[0].items[1].transfer_type, TransferType::MinimumTime);
    assert_eq!(transfers[1].items.len(), 1);
}

#[test]
fn routes_decode_codes_and_skip_unknown_ones() {
    let routes = parse_routes(ROUTES.as_bytes());
    assert_eq!(routes.len(), 3);
    assert_eq!(routes[1].route_id, "Z");
    assert_eq!(routes[1].route_type, RouteType::Subway);
    assert_eq!(routes[1].route_color, Some("996633".to_owned()));
    assert_eq!(routes[1].route_text_color, None);
    assert_eq!(routes[1].route_sort_order, None);
    assert_eq!(routes[1].continuous_pickup, None);
    assert_eq!(routes[2].route_type, RouteType::TrolleyBus);
}

#[test]
fn columns_are_found_by_header_name_in_any_order() {
    let routes = parse_routes(b"route_type,route_id\n3,B1\n");
    assert_eq!(routes.len(), 1);
    assert_eq!(routes[0].route_id, "B1");
    assert_eq!(routes[0].route_type, RouteType::Bus);
    assert_eq!(routes[0].route_short_name, None);
}

#[test]
fn rows_missing_a_required_column_are_skipped() {
    assert!(parse_routes(b"route_id,route_short_name\nB1,B\n").is_empty());
}

#[test]
fn a_later_row_replaces_an_earlier_one_with_the_same_key() {
    let routes = parse_routes(b"route_id,route_type,route_short_name\nA,1,first\nB,1,b\nA,3,second\n");
    assert_eq!(ids(&routes, |x| &x.route_id), vec!["A", "B"]);
    assert_eq!(routes[0].route_short_name, Some("second".to_owned()));
    assert_eq!(routes[0].route_type, RouteType::Bus);
}

fn archive(entries: &[(&str, &str)]) -> Vec<u8> {
    let mut w = zip::ZipWriter::new(std::io::Cursor::new(Vec::new()));
    for (name, text) in entries {
        w.start_file(*name, zip::write::FileOptions::default()).unwrap();
        w.write_all(text.as_bytes()).unwrap();
    }
    w.finish().unwrap().into_inner()
}

fn all_entries() -> Vec<(&'static str, &'static str)> {
    vec![
        ("agency.txt", AGENCY),
        ("stops.txt", STOPS),
        ("routes.txt", ROUTES),
        ("trips.txt", TRIPS),
        ("stop_times.txt", STOP_TIMES),
        ("calendar.txt", CALENDAR),
        ("calendar_dates.txt", CALENDAR_DATES),
        ("shapes.txt", SHAPES),
        ("transfers.txt", TRANSFERS),
    ]
}

fn same_keys(a: &Schedule, b: &Schedule) {
    assert_eq!(a.agencies.len(), b.agencies.len());
    assert_eq!(ids(&a.stops, |x| &x.stop_id), ids(&b.stops, |x| &x.stop_id));
    assert_eq!(ids(&a.services, |x| &x.service_id), ids(&b.services, |x| &x.service_id));
    assert_eq!(ids(&a.service_exceptions, |x| &x.id), ids(&b.service_exceptions, |x| &x.id));
    assert_eq!(ids(&a.routes, |x| &x.route_id), ids(&b.routes, |x| &x.route_id));
    assert_eq!(ids(&a.trips, |x| &x.trip_id), ids(&b.trips, |x| &x.trip_id));
    assert_eq!(ids(&a.shapes, |x| &x.id), ids(&b.shapes, |x| &x.id));
    assert_eq!(ids(&a.transfers, |x| &x.id), ids(&b.transfers, |x| &x.id));
    assert_eq!(ids(&a.stop_times, |x| &x.id), ids(&b.stop_times, |x| &x.id));
}

#[test]
fn archive_and_streams_give_the_same_schedule() {
    let bytes = archive(&all_entries());
    let (start, end) = ("20250301".to_owned(), "20250401".to_owned());
    let from_zip = Schedule::from_zip(&bytes, Some((&start, &end))).unwrap();
    let from_streams = build(Some((&start, &end)));
    same_keys(&from_zip, &from_streams);
    assert_eq!(from_zip.trips.len(), 2);
    let all = Schedule::all_from_zip(&bytes).unwrap();
    same_keys(&all, &build(None));
    let day = "20250318".to_owned();
    let one_day = Schedule::one_day_from_zip(&bytes, day.clone()).unwrap();
    same_keys(&one_day, &build(Some((&day, &day))));
}

#[test]
fn archive_without_optional_tables_still_builds() {
    let entries: Vec<_> = all_entries().into_iter().take(5).collect();
    let s = Schedule::all_from_zip(&archive(&entries)).unwrap();
    assert!(s.services.is_empty());
    assert!(s.shapes.is_empty());
    assert!(s.transfers.is_empty());
    assert!(s.trips.is_empty());
    assert_eq!(s.stops.len(), 3);
}

#[test]
fn archive_without_a_required_table_gives_nothing() {
    let entries: Vec<_> = all_entries().into_iter().filter(|(n, _)| *n != "stops.txt").collect();
    assert!(Schedule::all_from_zip(&archive(&entries)).is_none());
    assert!(Schedule::all_from_zip(b"not an archive").is_none());
}

#[test]
fn test_agency() {
    let table = "agency_id,agency_name,agency_url,agency_timezone,agency_lang,agency_phone,agency_fare_url,agency_email
MTA NYCT,MTA New York City Transit,http://www.mta.info,America/New_York,en,718-330-1234,,
";
    let mut res = parse_agencies(table.as_bytes());
    assert_eq!(res.len(), 1);

    let mta = res.pop().unwrap();

    assert_eq!(mta.agency_id, Some("MTA NYCT".to_owned()));
    assert_eq!(mta.agency_name, "MTA New York City Transit".to_owned());
    assert_eq!(mta.agency_url, "http://www.mta.info");
    assert_eq!(mta.agency_timezone, "America/New_York");
    assert_eq!(mta.agency_lang, Some("en".to_owned()));
    assert_eq!(mta.agency_phone, Some("718-330-1234".to_owned()));
    assert_eq!(mta.agency_fare_url, None);
    assert_eq!(mta.agency_email, None);
}

#[test]
fn test_zip() {
    let schedule = Schedule::all_from_zip(&archive(&all_entries()));
    assert!(schedule.is_some());
}

#[test]
fn lookup_by_id() {
    let s = build(None);
    assert_eq!(get_keyed(&s.stops, "S31N").unwrap().stop_id, "S31N");
    assert!(get_keyed(&s.stops, "S99").is_none());
    assert!(contains_key(&s.trips, "T3"));
    assert!(!contains_key(&s.trips, "T4"));
    assert_eq!(get_group(&s.stop_times, "T1").unwrap().len(), 2);
    assert_eq!(get_group(&s.service_exceptions, "Weekday").unwrap().len(), 2);
    assert!(get_group(&s.transfers, "S99").is_none());
}

#[test]
fn index_functions_take_decoded_records() {
    let (start, end) = ("20250301".to_owned(), "20250401".to_owned());
    let services = index_services(decode_all(CALENDAR.as_bytes()), Some((&start, &end)));
    assert_eq!(ids(&services, |x| &x.service_id), vec!["Weekday", "Early"]);
    let exceptions = index_service_exceptions(decode_all(CALENDAR_DATES.as_bytes()), Some((&start, &end)));
    assert_eq!(ids(&exceptions, |x| &x.id), vec!["Holiday", "Weekday"]);
    let trips = index_trips(decode_all(TRIPS.as_bytes()), &services, &exceptions);
    assert_eq!(ids(&trips, |x| &x.trip_id), vec!["T1", "T3"]);
    let transfers = index_transfers(decode_all(TRANSFERS.as_bytes()));
    assert_eq!(ids(&transfers, |x| &x.id), vec!["S31", "S04"]);
    let stop_times = index_stop_times(decode_all(STOP_TIMES.as_bytes()), &trips);
    assert_eq!(ids(&stop_times, |x| &x.id), vec!["T1", "T3"]);
    let no_services = index_services(Vec::new(), None);
    assert!(index_trips(decode_all(TRIPS.as_bytes()), &no_services, &Vec::new()).is_empty());
}

#[test]
fn rows_with_a_wrong_field_count_are_skipped() {
    let recs: Vec<StopTime> = decode_all(b"trip_id,stop_id,stop_sequence\nT1,S31N,1\nT1,S31N\nT1,S31S,2,extra\nT1,S31S,3\n");
    assert_eq!(recs.len(), 2);
    assert_eq!(recs[1].stop_sequence, 3);
}

#[test]
fn large_tables_are_indexed_without_walking_them() {
    let mut calendar = String::from("service_id,monday,tuesday,wednesday,thursday,friday,saturday,sunday,start_date,end_date\n");
    calendar.push_str("S,1,1,1,1,1,1,1,20250101,20251231\n");
    let mut trips = String::from("route_id,service_id,trip_id\n");
    let mut stop_times = String::from("trip_id,stop_id,stop_sequence\n");
    for t in 0..10_000 {
        trips.push_str(&format!("R,S,trip{}\n", t));
        for seq in 0..5 {
            stop_times.push_str(&format!("trip{},stop{},{}\n", t, seq, seq));
        }
    }
    let services = parse_services(calendar.as_bytes(), None);
    let trips = parse_trips(trips.as_bytes(), &services, &Vec::new());
    assert_eq!(trips.len(), 10_000);
    let groups = parse_stop_times(stop_times.as_bytes(), &trips);
    assert_eq!(groups.len(), 10_000);
    assert!(groups.iter().all(|g| g.items.len() == 5));
    assert_eq!(groups[9_999].id, "trip9999");
}
