use gtfs_parsing::realtime::{parse_vehicle_stop, try_parse_bytes, FeedMessage};

fn varint(mut v: u64, out: &mut Vec<u8>) {
    while v >= 0x80 {
        out.push((v as u8 & 0x7f) | 0x80);
        v >>= 7;
    }
    out.push(v as u8);
}

fn tag(field: u32, wire: u8, out: &mut Vec<u8>) {
    varint(((field as u64) << 3) | wire as u64, out);
}

fn bytes_field(field: u32, payload: &[u8], out: &mut Vec<u8>) {
    tag(field, 2, out);
    varint(payload.len() as u64, out);
    out.extend_from_slice(payload);
}

fn varint_field(field: u32, v: u64, out: &mut Vec<u8>) {
    tag(field, 0, out);
    varint(v, out);
}

fn header() -> Vec<u8> {
    let mut h = Vec::new();
    bytes_field(1, b"2.0", &mut h);
    varint_field(3, 1_740_000_000, &mut h);
    h
}

fn trip_descriptor(n: usize) -> Vec<u8> {
    let mut trip = Vec::new();
    bytes_field(1, format!("trip-{}", n).as_bytes(), &mut trip);
    let mut m = Vec::new();
    bytes_field(1, &trip, &mut m);
    m
}

/// A feed with the given numbers of trip updates, vehicle positions and
/// alerts, one payload per entity.
fn feed(trip_updates: usize, vehicles: usize, alerts: usize) -> Vec<u8> {
    let mut out = Vec::new();
    bytes_field(1, &header(), &mut out);
    let mut n = 0;
    for (count, field) in [(trip_updates, 3), (vehicles, 4), (alerts, 5)] {
        for _ in 0..count {
            let mut e = Vec::new();
            bytes_field(1, format!("{:06}", n).as_bytes(), &mut e);
            bytes_field(field, &trip_descriptor(n), &mut e);
            bytes_field(2, &e, &mut out);
            n += 1;
        }
    }
    out
}

fn check_feed(
    feed: &FeedMessage,
    ntot: usize,
    ntus: usize,
    ntms: usize,
    nvs: usize,
    nas: usize,
    nshs: usize,
    nsts: usize,
) {
    assert_eq!(feed.entity.len(), ntot);
    let count = |f: fn(&gtfs_parsing::realtime::FeedEntity) -> bool| feed.entity.iter().filter(|e| f(e)).count();
    assert_eq!(count(|e| e.trip_update.is_some()), ntus, "num_trip_updates");
    assert_eq!(count(|e| e.trip_modifications.is_some()), ntms, "num_trip_modifications");
    assert_eq!(count(|e| e.vehicle.is_some()), nvs, "num_vehicles");
    assert_eq!(count(|e| e.alert.is_some()), nas, "num_alerts");
    assert_eq!(count(|e| e.shape.is_some()), nshs, "num_shapes");
    assert_eq!(count(|e| e.stop.is_some()), nsts, "num_stops");
}

#[test]
fn test_nqrw() {
    let parsed = try_parse_bytes(&feed(134, 134, 0)).expect("Unable to parse feed");
    check_feed(&parsed, 268, 134, 0, 134, 0, 0, 0);
}

#[test]
fn test_1234567s() {
    let parsed = try_parse_bytes(&feed(155, 91, 1)).expect("Unable to parse feed");
    check_feed(&parsed, 247, 155, 0, 91, 1, 0, 0);
}

#[test]
fn test_ace() {
    let parsed = try_parse_bytes(&feed(198, 198, 0)).expect("Unable to parse feed");
    check_feed(&parsed, 396, 198, 0, 198, 0, 0, 0);
}

#[test]
fn test_bdfm() {
    let parsed = try_parse_bytes(&feed(128, 128, 0)).expect("Unable to parse feed");
    check_feed(&parsed, 256, 128, 0, 128, 0, 0, 0);
}

#[test]
fn test_g() {
    let parsed = try_parse_bytes(&feed(45, 45, 0)).expect("Unable to parse feed");
    check_feed(&parsed, 90, 45, 0, 45, 0, 0, 0);
}

#[test]
fn test_jz() {
    let parsed = try_parse_bytes(&feed(46, 46, 0)).expect("Unable to parse feed");
    check_feed(&parsed, 92, 46, 0, 46, 0, 0, 0);
}

#[test]
fn test_l() {
    let parsed = try_parse_bytes(&feed(25, 16, 0)).expect("Unable to parse feed");
    check_feed(&parsed, 41, 25, 0, 16, 0, 0, 0);
}

#[test]
fn realtime_header_and_entity_fields() {
    let parsed = try_parse_bytes(&feed(1, 1, 0)).unwrap();
    assert_eq!(parsed.header.gtfs_realtime_version, "2.0");
    assert_eq!(parsed.header.timestamp, Some(1_740_000_000));
    assert_eq!(parsed.header.incrementality, None);
    assert_eq!(parsed.entity[0].id, "000000");
    assert_eq!(parsed.entity[1].id, "000001");
    assert_eq!(parsed.entity[0].trip_update, Some(trip_descriptor(0)));
    assert_eq!(parsed.entity[1].vehicle, Some(trip_descriptor(1)));
    assert_eq!(parsed.entity[0].is_deleted, None);
}

#[test]
fn realtime_repeated_payload_is_merged_and_last_id_counts() {
    let mut e = Vec::new();
    bytes_field(1, b"first", &mut e);
    bytes_field(3, &[0x0a, 0x00], &mut e);
    varint_field(2, 1, &mut e);
    bytes_field(3, &[0x12, 0x00], &mut e);
    bytes_field(1, b"second", &mut e);
    let mut out = Vec::new();
    bytes_field(1, &header(), &mut out);
    bytes_field(2, &e, &mut out);
    let parsed = try_parse_bytes(&out).unwrap();
    assert_eq!(parsed.entity.len(), 1);
    assert_eq!(parsed.entity[0].id, "second");
    assert_eq!(parsed.entity[0].is_deleted, Some(true));
    assert_eq!(parsed.entity[0].trip_update, Some(vec![0x0a, 0x00, 0x12, 0x00]));
}

#[test]
fn realtime_empty_feed_without_header_is_rejected() {
    assert!(try_parse_bytes(&[]).is_none());
    let mut out = Vec::new();
    let mut e = Vec::new();
    bytes_field(1, b"x", &mut e);
    bytes_field(2, &e, &mut out);
    assert!(try_parse_bytes(&out).is_none());
}

#[test]
fn realtime_entity_without_id_is_rejected() {
    let mut out = Vec::new();
    bytes_field(1, &header(), &mut out);
    let mut e = Vec::new();
    bytes_field(4, &trip_descriptor(0), &mut e);
    bytes_field(2, &e, &mut out);
    assert!(try_parse_bytes(&out).is_none());
}

#[test]
fn realtime_id_that_is_not_utf8_is_rejected() {
    let mut out = Vec::new();
    bytes_field(1, &header(), &mut out);
    let mut e = Vec::new();
    bytes_field(1, &[0xff, 0xfe], &mut e);
    bytes_field(2, &e, &mut out);
    assert!(try_parse_bytes(&out).is_none());
}

#[test]
fn realtime_truncated_bytes_are_rejected() {
    let mut bytes = feed(2, 0, 0);
    bytes.truncate(bytes.len() - 3);
    assert!(try_parse_bytes(&bytes).is_none());
}

#[test]
fn vehicle_stop_fields() {
    let mut v = Vec::new();
    bytes_field(1, &trip_descriptor(3), &mut v);
    varint_field(3, 12, &mut v);
    varint_field(4, 1, &mut v);
    bytes_field(7, b"135N", &mut v);
    let pos = parse_vehicle_stop(&v).unwrap();
    assert_eq!(pos.current_stop_sequence, Some(12));
    assert_eq!(pos.current_status, Some(1));
    assert_eq!(pos.stop_id, Some("135N".to_owned()));
    let empty = parse_vehicle_stop(&Vec::new()).unwrap();
    assert_eq!(empty.stop_id, None);
    assert_eq!(empty.current_stop_sequence, None);
    let mut bad = Vec::new();
    bytes_field(7, &[0xc3], &mut bad);
    assert!(parse_vehicle_stop(&bad).is_none());
}
