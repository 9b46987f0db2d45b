//! The schedule: all tables of a feed read in a fixed order into one
//! snapshot, with the referential filters and the optional date window.
use crate::agency::Agency;
use crate::calendar::{Service, ServiceException};
use crate::fields::{le_text, text_le};
use crate::group::{
    add_to_group_indexed, add_to_groups, build_group_index, group_position_indexed, groups_view,
    has_group, ids_distinct, ids_of, lemma_group_ids, lemma_group_items, Group, GroupView,
};
use crate::index::{
    build_index, contains_indexed, has_key, index_all, index_records, insert_indexed, keys_distinct,
    keys_of, lemma_index_all, reversed,
};
use crate::lookup::KeyIndex;
use crate::routes::Route;
use crate::shapes::{aggregate, Shape, ShapePoint};
use crate::stop_times::StopTime;
use crate::stops::Stop;
use crate::table::{decode_all, records_of};
use crate::transfers::Transfer;
use crate::trips::Trip;
use vstd::prelude::*;

verus! {

/// A date window: the first and the last day, both written `YYYYMMDD`.
pub type Window = Option<(Seq<char>, Seq<char>)>;

pub open spec fn window_of(date_bounds: Option<(&String, &String)>) -> Window {
    match date_bounds {
        Some((start, end)) => Some((start@, end@)),
        None => None,
    }
}

/// A service runs at some time inside the window: its date range overlaps it.
pub open spec fn service_in_window(s: Service, w: Window) -> bool {
    match w {
        Some((start, end)) => text_le(s.start_date@, end) && text_le(start, s.end_date@),
        None => true,
    }
}

/// An exception falls on a day inside the window.
pub open spec fn exception_in_window(e: ServiceException, w: Window) -> bool {
    match w {
        Some((start, end)) => text_le(start, e.date@) && text_le(e.date@, end),
        None => true,
    }
}

/// The services of the window, in the order of the rows.
pub open spec fn services_in_window(s: Seq<Service>, w: Window) -> Seq<Service>
    decreases s.len(),
{
    if s.len() == 0 {
        Seq::empty()
    } else {
        let prev = services_in_window(s.drop_last(), w);
        if service_in_window(s.last(), w) {
            prev.push(s.last())
        } else {
            prev
        }
    }
}

/// The exceptions of the window, grouped by service and indexed by date.
pub open spec fn group_exceptions(s: Seq<ServiceException>, w: Window) -> Seq<GroupView<ServiceException>>
    decreases s.len(),
{
    if s.len() == 0 {
        Seq::empty()
    } else {
        let prev = group_exceptions(s.drop_last(), w);
        let e = s.last();
        if exception_in_window(e, w) {
            add_to_groups(prev, e.service_id@, e)
        } else {
            prev
        }
    }
}

/// A trip runs on a known service: one of the calendar or one with exceptions.
pub open spec fn trip_has_service(
    t: Trip,
    services: Seq<Service>,
    exceptions: Seq<GroupView<ServiceException>>,
) -> bool {
    has_key(services, t.service_id@) || has_group(exceptions, t.service_id@)
}

/// The trips that run on a known service, in the order of the rows.
pub open spec fn served_trips(
    s: Seq<Trip>,
    services: Seq<Service>,
    exceptions: Seq<GroupView<ServiceException>>,
) -> Seq<Trip>
    decreases s.len(),
{
    if s.len() == 0 {
        Seq::empty()
    } else {
        let prev = served_trips(s.drop_last(), services, exceptions);
        if trip_has_service(s.last(), services, exceptions) {
            prev.push(s.last())
        } else {
            prev
        }
    }
}

/// The transfers that name their origin stop, grouped by it.
pub open spec fn group_transfers(s: Seq<Transfer>) -> Seq<GroupView<Transfer>>
    decreases s.len(),
{
    if s.len() == 0 {
        Seq::empty()
    } else {
        let prev = group_transfers(s.drop_last());
        match s.last().from_stop_id {
            Some(from) => add_to_groups(prev, from@, s.last()),
            None => prev,
        }
    }
}

/// The stop times of known trips, grouped by trip and indexed by sequence number.
pub open spec fn group_stop_times(s: Seq<StopTime>, trips: Seq<Trip>) -> Seq<GroupView<StopTime>>
    decreases s.len(),
{
    if s.len() == 0 {
        Seq::empty()
    } else {
        let prev = group_stop_times(s.drop_last(), trips);
        let st = s.last();
        if has_key(trips, st.trip_id@) {
            add_to_groups(prev, st.trip_id@, st)
        } else {
            prev
        }
    }
}

pub fn parse_agencies(bytes: &[u8]) -> (r: Vec<Agency>)
    ensures
        r@ == records_of::<Agency>(bytes@),
{
    decode_all(bytes)
}

pub fn parse_stops(bytes: &[u8]) -> (r: Vec<Stop>)
    ensures
        r@ == index_all(records_of::<Stop>(bytes@)),
{
    index_records(decode_all(bytes))
}

pub fn parse_routes(bytes: &[u8]) -> (r: Vec<Route>)
    ensures
        r@ == index_all(records_of::<Route>(bytes@)),
{
    index_records(decode_all(bytes))
}

fn in_window(s: &Service, date_bounds: Option<(&String, &String)>) -> (r: bool)
    ensures
        r == service_in_window(*s, window_of(date_bounds)),
{
    match date_bounds {
        Some((start, end)) => le_text(s.start_date.as_str(), end.as_str()) && le_text(
            start.as_str(),
            s.end_date.as_str(),
        ),
        None => true,
    }
}

fn on_day_in_window(e: &ServiceException, date_bounds: Option<(&String, &String)>) -> (r: bool)
    ensures
        r == exception_in_window(*e, window_of(date_bounds)),
{
    match date_bounds {
        Some((start, end)) => le_text(start.as_str(), e.date.as_str()) && le_text(
            e.date.as_str(),
            end.as_str(),
        ),
        None => true,
    }
}

/// Indexes services by id, keeping only those whose date range overlaps the
/// window, where one is given.
pub fn index_services(recs: Vec<Service>, date_bounds: Option<(&String, &String)>) -> (r: Vec<Service>)
    ensures
        r@ == index_all(services_in_window(recs@, window_of(date_bounds))),
{
    let ghost s = recs@;
    let ghost w = window_of(date_bounds);
    let n = recs.len();
    let mut rest = reversed(recs);
    let mut out: Vec<Service> = Vec::new();
    let mut idx = KeyIndex::new();
    assert(keys_of(out@) =~= Seq::<Seq<char>>::empty());
    let mut i: usize = 0;
    while rest.len() > 0
        invariant
            i + rest.len() == s.len(),
            s.len() == n,
            forall|j: int| 0 <= j < rest.len() ==> rest@[j] == s[s.len() - 1 - j],
            w == window_of(date_bounds),
            out@ == index_all(services_in_window(s.subrange(0, i as int), w)),
            idx.indexes(keys_of(out@)),
            keys_distinct(out@),
        decreases rest.len(),
    {
        let t = rest.pop().unwrap();
        assert(s.subrange(0, i + 1).drop_last() =~= s.subrange(0, i as int));
        let ghost prev = services_in_window(s.subrange(0, i as int), w);
        assert(prev.push(t).drop_last() =~= prev);
        if in_window(&t, date_bounds) {
            insert_indexed(&mut out, &mut idx, t);
        }
        i = i + 1;
    }
    assert(s.subrange(0, i as int) =~= s);
    out
}

/// Reads the calendar, keeping only the services whose date range overlaps
/// the window, where one is given.
pub fn parse_services(bytes: &[u8], date_bounds: Option<(&String, &String)>) -> (r: Vec<Service>)
    ensures
        r@ == index_all(services_in_window(records_of::<Service>(bytes@), window_of(date_bounds))),
{
    index_services(decode_all(bytes), date_bounds)
}

/// Groups exceptions by service and indexes them by date, keeping only those
/// on a day of the window, where one is given.
pub fn index_service_exceptions(
    recs: Vec<ServiceException>,
    date_bounds: Option<(&String, &String)>,
) -> (r: Vec<Group<ServiceException>>)
    ensures
        groups_view(r@) == group_exceptions(
            recs@,
            window_of(date_bounds),
        ),
{
    let ghost s = recs@;
    let ghost w = window_of(date_bounds);
    let n = recs.len();
    let mut rest = reversed(recs);
    let mut out: Vec<Group<ServiceException>> = Vec::new();
    let mut idx = KeyIndex::new();
    assert(ids_of(groups_view(out@)) =~= Seq::<Seq<char>>::empty());
    let mut i: usize = 0;
    while rest.len() > 0
        invariant
            i + rest.len() == s.len(),
            s.len() == n,
            forall|j: int| 0 <= j < rest.len() ==> rest@[j] == s[s.len() - 1 - j],
            w == window_of(date_bounds),
            groups_view(out@) == group_exceptions(s.subrange(0, i as int), w),
            idx.indexes(ids_of(groups_view(out@))),
            ids_distinct(groups_view(out@)),
        decreases rest.len(),
    {
        let t = rest.pop().unwrap();
        assert(s.subrange(0, i + 1).drop_last() =~= s.subrange(0, i as int));
        if on_day_in_window(&t, date_bounds) {
            let id = t.service_id.clone();
            add_to_group_indexed(&mut out, &mut idx, id.as_str(), t);
        }
        i = i + 1;
    }
    assert(s.subrange(0, i as int) =~= s);
    out
}

/// Reads the calendar exceptions, keeping only those on a day of the window,
/// where one is given, and groups them by service.
pub fn parse_service_exceptions(bytes: &[u8], date_bounds: Option<(&String, &String)>) -> (r: Vec<
    Group<ServiceException>,
>)
    ensures
        groups_view(r@) == group_exceptions(
            records_of::<ServiceException>(bytes@),
            window_of(date_bounds),
        ),
{
    index_service_exceptions(decode_all(bytes), date_bounds)
}

/// Indexes trips by id, keeping only those whose service is one of
/// `services` or has exceptions in `service_exceptions`.
pub fn index_trips(
    recs: Vec<Trip>,
    services: &Vec<Service>,
    service_exceptions: &Vec<Group<ServiceException>>,
) -> (r: Vec<Trip>)
    ensures
        r@ == index_all(
            served_trips(recs@, services@, groups_view(service_exceptions@)),
        ),
{
    let ghost s = recs@;
    let ghost ex = groups_view(service_exceptions@);
    let n = recs.len();
    let mut rest = reversed(recs);
    let mut out: Vec<Trip> = Vec::new();
    let mut idx = KeyIndex::new();
    let service_index = build_index(services);
    let exception_index = build_group_index(service_exceptions);
    assert(keys_of(out@) =~= Seq::<Seq<char>>::empty());
    let mut i: usize = 0;
    while rest.len() > 0
        invariant
            i + rest.len() == s.len(),
            s.len() == n,
            ex == groups_view(service_exceptions@),
            forall|j: int| 0 <= j < rest.len() ==> rest@[j] == s[s.len() - 1 - j],
            out@ == index_all(served_trips(s.subrange(0, i as int), services@, ex)),
            idx.indexes(keys_of(out@)),
            keys_distinct(out@),
            service_index.indexes(keys_of(services@)),
            exception_index.indexes(ids_of(groups_view(service_exceptions@))),
        decreases rest.len(),
    {
        let t = rest.pop().unwrap();
        assert(s.subrange(0, i + 1).drop_last() =~= s.subrange(0, i as int));
        let ghost prev = served_trips(s.subrange(0, i as int), services@, ex);
        assert(prev.push(t).drop_last() =~= prev);
        if contains_indexed(services, &service_index, t.service_id.as_str())
            || group_position_indexed(
            service_exceptions,
            &exception_index,
            t.service_id.as_str(),
        ).is_some() {
            insert_indexed(&mut out, &mut idx, t);
        }
        i = i + 1;
    }
    assert(s.subrange(0, i as int) =~= s);
    out
}

/// Reads the trips, keeping only those whose service is one of `services`
/// or has exceptions in `service_exceptions`.
pub fn parse_trips(
    bytes: &[u8],
    services: &Vec<Service>,
    service_exceptions: &Vec<Group<ServiceException>>,
) -> (r: Vec<Trip>)
    ensures
        r@ == index_all(
            served_trips(records_of::<Trip>(bytes@), services@, groups_view(service_exceptions@)),
        ),
{
    index_trips(decode_all(bytes), services, service_exceptions)
}

/// Reads the shape points and gathers them into shapes.
pub fn parse_shapes(bytes: &[u8]) -> (r: Vec<Shape>)
    ensures
        groups_view(r@) == aggregate(records_of::<ShapePoint>(bytes@)),
{
    let points: Vec<ShapePoint> = decode_all(bytes);
    Shape::process_points(&points)
}

/// Groups the transfers that name their origin stop by it, in order.
pub fn index_transfers(recs: Vec<Transfer>) -> (r: Vec<Group<Transfer>>)
    ensures
        groups_view(r@) == group_transfers(recs@),
{
    let ghost s = recs@;
    let n = recs.len();
    let mut rest = reversed(recs);
    let mut out: Vec<Group<Transfer>> = Vec::new();
    let mut idx = KeyIndex::new();
    assert(ids_of(groups_view(out@)) =~= Seq::<Seq<char>>::empty());
    let mut i: usize = 0;
    while rest.len() > 0
        invariant
            i + rest.len() == s.len(),
            s.len() == n,
            forall|j: int| 0 <= j < rest.len() ==> rest@[j] == s[s.len() - 1 - j],
            groups_view(out@) == group_transfers(s.subrange(0, i as int)),
            idx.indexes(ids_of(groups_view(out@))),
            ids_distinct(groups_view(out@)),
        decreases rest.len(),
    {
        let t = rest.pop().unwrap();
        assert(s.subrange(0, i + 1).drop_last() =~= s.subrange(0, i as int));
        match &t.from_stop_id {
            Some(from) => {
                let id = from.clone();
                add_to_group_indexed(&mut out, &mut idx, id.as_str(), t);
            },
            None => {},
        }
        i = i + 1;
    }
    assert(s.subrange(0, i as int) =~= s);
    out
}

/// Reads the transfers and groups those that name their origin stop by it.
pub fn parse_transfers(bytes: &[u8]) -> (r: Vec<Group<Transfer>>)
    ensures
        groups_view(r@) == group_transfers(records_of::<Transfer>(bytes@)),
{
    index_transfers(decode_all(bytes))
}

/// Groups the stop times of the given trips by trip, indexed by sequence number.
pub fn index_stop_times(recs: Vec<StopTime>, trips: &Vec<Trip>) -> (r: Vec<Group<StopTime>>)
    ensures
        groups_view(r@) == group_stop_times(recs@, trips@),
{
    let ghost s = recs@;
    let n = recs.len();
    let mut rest = reversed(recs);
    let mut out: Vec<Group<StopTime>> = Vec::new();
    let mut idx = KeyIndex::new();
    let trip_index = build_index(trips);
    assert(ids_of(groups_view(out@)) =~= Seq::<Seq<char>>::empty());
    let mut i: usize = 0;
    while rest.len() > 0
        invariant
            i + rest.len() == s.len(),
            s.len() == n,
            forall|j: int| 0 <= j < rest.len() ==> rest@[j] == s[s.len() - 1 - j],
            groups_view(out@) == group_stop_times(s.subrange(0, i as int), trips@),
            idx.indexes(ids_of(groups_view(out@))),
            ids_distinct(groups_view(out@)),
            trip_index.indexes(keys_of(trips@)),
        decreases rest.len(),
    {
        let t = rest.pop().unwrap();
        assert(s.subrange(0, i + 1).drop_last() =~= s.subrange(0, i as int));
        if contains_indexed(trips, &trip_index, t.trip_id.as_str()) {
            let id = t.trip_id.clone();
            add_to_group_indexed(&mut out, &mut idx, id.as_str(), t);
        }
        i = i + 1;
    }
    assert(s.subrange(0, i as int) =~= s);
    out
}

/// Reads the stop times, keeping only those of the given trips, and groups
/// them by trip.
pub fn parse_stop_times(bytes: &[u8], trips: &Vec<Trip>) -> (r: Vec<Group<StopTime>>)
    ensures
        groups_view(r@) == group_stop_times(records_of::<StopTime>(bytes@), trips@),
{
    index_stop_times(decode_all(bytes), trips)
}

/// Every service kept for a date window overlaps the window.
pub proof fn lemma_services_in_window(recs: Seq<Service>, w: Window)
    ensures
        forall|i: int|
            0 <= i < index_all(services_in_window(recs, w)).len() ==> service_in_window(
                #[trigger] index_all(services_in_window(recs, w))[i],
                w,
            ),
{
    lemma_kept_services(recs, w);
    lemma_index_all(services_in_window(recs, w));
    let s = index_all(services_in_window(recs, w));
    assert forall|i: int| 0 <= i < s.len() implies service_in_window(#[trigger] s[i], w) by {
        assert(s.contains(s[i]));
    }
}

proof fn lemma_kept_services(recs: Seq<Service>, w: Window)
    ensures
        forall|x: Service| #[trigger]
            services_in_window(recs, w).contains(x) ==> service_in_window(x, w),
    decreases recs.len(),
{
    if recs.len() > 0 {
        lemma_kept_services(recs.drop_last(), w);
        let p = services_in_window(recs.drop_last(), w);
        let l = recs.last();
        let cur = services_in_window(recs, w);
        if service_in_window(l, w) {
            assert(cur == p.push(l));
            assert forall|x: Service| #[trigger] cur.contains(x) implies service_in_window(x, w) by {
                let j = choose|j: int| 0 <= j < cur.len() && cur[j] == x;
                if j < p.len() {
                    assert(p[j] == x);
                    assert(p.contains(x));
                } else {
                    assert(x == l);
                }
            }
        } else {
            assert(cur == p);
        }
    }
}

/// Every exception kept for a date window falls on a day of the window, in
/// the group of its own service.
pub proof fn lemma_exceptions_in_window(recs: Seq<ServiceException>, w: Window)
    ensures
        forall|i: int, e: ServiceException|
            0 <= i < group_exceptions(recs, w).len() && #[trigger] group_exceptions(
                recs,
                w,
            )[i].1.contains(e) ==> exception_in_window(e, w) && e.service_id@
                == group_exceptions(recs, w)[i].0,
    decreases recs.len(),
{
    if recs.len() > 0 {
        let p = group_exceptions(recs.drop_last(), w);
        let e = recs.last();
        lemma_exceptions_in_window(recs.drop_last(), w);
        if exception_in_window(e, w) {
            lemma_group_items(p, e.service_id@, e);
        }
    }
}

/// Every trip kept runs on a service of the calendar or on one with exceptions.
pub proof fn lemma_trips_have_services(
    recs: Seq<Trip>,
    services: Seq<Service>,
    exceptions: Seq<GroupView<ServiceException>>,
)
    ensures
        forall|i: int|
            0 <= i < index_all(served_trips(recs, services, exceptions)).len() ==> trip_has_service(
                #[trigger] index_all(served_trips(recs, services, exceptions))[i],
                services,
                exceptions,
            ),
{
    lemma_kept_trips(recs, services, exceptions);
    lemma_index_all(served_trips(recs, services, exceptions));
    let s = index_all(served_trips(recs, services, exceptions));
    assert forall|i: int| 0 <= i < s.len() implies trip_has_service(
        #[trigger] s[i],
        services,
        exceptions,
    ) by {
        assert(s.contains(s[i]));
    }
}

proof fn lemma_kept_trips(
    recs: Seq<Trip>,
    services: Seq<Service>,
    exceptions: Seq<GroupView<ServiceException>>,
)
    ensures
        forall|x: Trip| #[trigger]
            served_trips(recs, services, exceptions).contains(x) ==> trip_has_service(
                x,
                services,
                exceptions,
            ),
    decreases recs.len(),
{
    if recs.len() > 0 {
        lemma_kept_trips(recs.drop_last(), services, exceptions);
        let p = served_trips(recs.drop_last(), services, exceptions);
        let l = recs.last();
        let cur = served_trips(recs, services, exceptions);
        if trip_has_service(l, services, exceptions) {
            assert(cur == p.push(l));
            assert forall|x: Trip| #[trigger] cur.contains(x) implies trip_has_service(
                x,
                services,
                exceptions,
            ) by {
                let j = choose|j: int| 0 <= j < cur.len() && cur[j] == x;
                if j < p.len() {
                    assert(p[j] == x);
                    assert(p.contains(x));
                } else {
                    assert(x == l);
                }
            }
        } else {
            assert(cur == p);
        }
    }
}

/// Every group of stop times kept belongs to one of the trips, and holds
/// only stop times of that trip.
pub proof fn lemma_stop_times_have_trips(recs: Seq<StopTime>, trips: Seq<Trip>)
    ensures
        forall|i: int|
            0 <= i < group_stop_times(recs, trips).len() ==> has_key(
                trips,
                (#[trigger] group_stop_times(recs, trips)[i]).0,
            ),
        forall|i: int, st: StopTime|
            0 <= i < group_stop_times(recs, trips).len() && #[trigger] group_stop_times(
                recs,
                trips,
            )[i].1.contains(st) ==> st.trip_id@ == group_stop_times(recs, trips)[i].0,
    decreases recs.len(),
{
    if recs.len() > 0 {
        let p = group_stop_times(recs.drop_last(), trips);
        let st = recs.last();
        lemma_stop_times_have_trips(recs.drop_last(), trips);
        if has_key(trips, st.trip_id@) {
            lemma_group_items(p, st.trip_id@, st);
            let u = group_stop_times(recs, trips);
            lemma_group_ids(p, st.trip_id@, st);
            assert forall|i: int| 0 <= i < u.len() implies has_key(trips, (#[trigger] u[i]).0) by {
                if i < p.len() {
                    assert(u[i].0 == p[i].0);
                }
            }
        }
    }
}

/// The snapshot of a feed: each table indexed by its key, as the fields'
/// comments say. Every index holds each key once, in the order in which keys
/// first appear in the rows.
#[derive(Debug)]
pub struct Schedule {
    /// The agencies, in the order of the rows.
    pub agencies: Vec<Agency>,
    /// Indexed by stop id.
    pub stops: Vec<Stop>,
    /// Grouped by trip id, then indexed by stop sequence number.
    pub stop_times: Vec<Group<StopTime>>,
    /// Indexed by service id.
    pub services: Vec<Service>,
    /// Grouped by service id, then indexed by date.
    pub service_exceptions: Vec<Group<ServiceException>>,
    /// Indexed by shape id.
    pub shapes: Vec<Shape>,
    /// Grouped by origin stop id, in the order of the rows.
    pub transfers: Vec<Group<Transfer>>,
    /// Indexed by route id.
    pub routes: Vec<Route>,
    /// Indexed by trip id.
    pub trips: Vec<Trip>,
}

/// `s` is the schedule that the nine tables make, read in this order:
/// agencies, stops, services, exceptions, routes, trips, shapes, transfers,
/// stop times.
pub open spec fn built_from(
    s: Schedule,
    agency: Seq<u8>,
    stop: Seq<u8>,
    stop_time: Seq<u8>,
    service: Seq<u8>,
    service_exception: Seq<u8>,
    shape: Seq<u8>,
    transfer: Seq<u8>,
    route: Seq<u8>,
    trip: Seq<u8>,
    w: Window,
) -> bool {
    let services = index_all(services_in_window(records_of::<Service>(service), w));
    let exceptions = group_exceptions(records_of::<ServiceException>(service_exception), w);
    let trips = index_all(served_trips(records_of::<Trip>(trip), services, exceptions));
    &&& s.agencies@ == records_of::<Agency>(agency)
    &&& s.stops@ == index_all(records_of::<Stop>(stop))
    &&& s.services@ == services
    &&& groups_view(s.service_exceptions@) == exceptions
    &&& s.routes@ == index_all(records_of::<Route>(route))
    &&& s.trips@ == trips
    &&& groups_view(s.shapes@) == aggregate(records_of::<ShapePoint>(shape))
    &&& groups_view(s.transfers@) == group_transfers(records_of::<Transfer>(transfer))
    &&& groups_view(s.stop_times@) == group_stop_times(records_of::<StopTime>(stop_time), trips)
}

impl Schedule {
    /// Every trip runs on a service of the calendar or on one with
    /// exceptions, and every group of stop times belongs to a trip.
    pub open spec fn references_resolve(&self) -> bool {
        &&& forall|i: int|
            0 <= i < self.trips@.len() ==> trip_has_service(
                #[trigger] self.trips@[i],
                self.services@,
                groups_view(self.service_exceptions@),
            )
        &&& forall|i: int|
            0 <= i < self.stop_times@.len() ==> has_key(
                self.trips@,
                (#[trigger] self.stop_times@[i]).id@,
            )
    }

    /// Every service overlaps the window and every exception falls on a day of it.
    pub open spec fn within_window(&self, w: Window) -> bool {
        &&& forall|i: int|
            0 <= i < self.services@.len() ==> service_in_window(#[trigger] self.services@[i], w)
        &&& forall|i: int, e: ServiceException|
            0 <= i < self.service_exceptions@.len() && #[trigger] self.service_exceptions@[i].items@.contains(e)
                ==> exception_in_window(e, w)
    }

    /// Builds the schedule from the nine tables, each given as the bytes of
    /// its delimited text; a missing optional table is given as no bytes.
    pub fn from_readers(
        agency_reader: &[u8],
        stop_reader: &[u8],
        stop_time_reader: &[u8],
        service_reader: &[u8],
        service_exception_reader: &[u8],
        shape_reader: &[u8],
        transfer_reader: &[u8],
        route_reader: &[u8],
        trip_reader: &[u8],
        date_bounds: Option<(&String, &String)>,
    ) -> (r: Schedule)
        ensures
            built_from(
                r,
                agency_reader@,
                stop_reader@,
                stop_time_reader@,
                service_reader@,
                service_exception_reader@,
                shape_reader@,
                transfer_reader@,
                route_reader@,
                trip_reader@,
                window_of(date_bounds),
            ),
            r.references_resolve(),
            r.within_window(window_of(date_bounds)),
    {
        // The order matters: trips are filtered by the services and
        // exceptions, and stop times by the trips.
        let agencies = parse_agencies(agency_reader);
        let stops = parse_stops(stop_reader);
        let services = parse_services(service_reader, date_bounds);
        let service_exceptions = parse_service_exceptions(service_exception_reader, date_bounds);
        let routes = parse_routes(route_reader);
        let trips = parse_trips(trip_reader, &services, &service_exceptions);
        let shapes = parse_shapes(shape_reader);
        let transfers = parse_transfers(transfer_reader);
        let stop_times = parse_stop_times(stop_time_reader, &trips);
        let r = Schedule {
            agencies,
            stops,
            stop_times,
            services,
            service_exceptions,
            shapes,
            transfers,
            routes,
            trips,
        };
        proof {
            let w = window_of(date_bounds);
            lemma_services_in_window(records_of::<Service>(service_reader@), w);
            lemma_exceptions_in_window(records_of::<ServiceException>(service_exception_reader@), w);
            lemma_trips_have_services(
                records_of::<Trip>(trip_reader@),
                r.services@,
                groups_view(r.service_exceptions@),
            );
            lemma_stop_times_have_trips(records_of::<StopTime>(stop_time_reader@), r.trips@);
            let gv = groups_view(r.service_exceptions@);
            assert forall|i: int, e: ServiceException|
                0 <= i < r.service_exceptions@.len() && #[trigger] r.service_exceptions@[i].items@.contains(e)
                implies exception_in_window(e, w) by {
                assert(gv[i].1 == r.service_exceptions@[i].items@);
            }
            let sv = groups_view(r.stop_times@);
            assert forall|i: int| 0 <= i < r.stop_times@.len() implies has_key(
                r.trips@,
                (#[trigger] r.stop_times@[i]).id@,
            ) by {
                assert(sv[i].0 == r.stop_times@[i].id@);
            }
        }
        r
    }
}

} // verus!
