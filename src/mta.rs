//! The subway view of a schedule, for a feed laid out as the MTA lays out
//! its subway: one agency, and each station a parent stop with an uptown
//! platform (its id followed by `N`) and a downtown platform (followed by
//! `S`). Fields that the general tables leave optional are required here.
use crate::agency::Agency;
use crate::calendar::{Service, ServiceException};
use crate::codes::{DirectionType, RouteType, TransferType};
use crate::group::{groups_view, Group, GroupView};
use crate::index::{find_key, has_key, lemma_find_key, position_of, contains_key, Keyed};
use crate::routes::Route;
use crate::schedule::Schedule;
use crate::shapes::Shape;
use crate::stop_times::StopTime;
use crate::stops::Stop;
use crate::transfers::Transfer;
use crate::trips::Trip;
use vstd::prelude::*;
use vstd::string::*;

verus! {

/// Why a schedule does not make a subway view.
#[derive(Debug)]
pub enum SubwayError {
    /// The schedule does not have exactly one agency; this many instead.
    AgencyCount(usize),
    /// A field that the view requires is absent from the record of the table with this id.
    MissingField { table: &'static str, id: String, field: &'static str },
    /// The stops, this many, do not form groups of three.
    StopCount(usize),
    /// The parent stop with this id lacks its uptown or its downtown platform.
    BadStation { station_id: String },
    /// The stop id of a stop time does not end in `N` or `S`.
    BadPlatform { stop_id: String },
    /// A transfer names a stop that is not a station.
    UnknownStation { stop_id: String },
}

/// The one agency of the view, with its language and phone.
#[derive(Debug)]
pub struct SubwayAgency {
    pub agency_name: String,
    pub agency_url: String,
    pub agency_timezone: String,
    pub agency_lang: String,
    pub agency_phone: String,
}

/// A route with its names, description and URL.
#[derive(Debug)]
pub struct SubwayRoute {
    pub route_id: String,
    pub route_short_name: String,
    pub route_long_name: String,
    pub route_desc: String,
    pub route_url: String,
    pub route_type: RouteType,
    pub route_color: Option<String>,
}

/// A trip with its headsign and direction; it may have no shape.
#[derive(Debug)]
pub struct SubwayTrip {
    pub trip_id: String,
    pub route_id: String,
    pub service_id: String,
    pub headsign: String,
    pub direction: DirectionType,
    pub shape_id: Option<String>,
}

/// A stop time at a platform: `stop_id` is the platform's id, whose last
/// character gives the direction and whose rest is the station's id.
#[derive(Debug)]
pub struct SubwayStopTime {
    pub trip_id: String,
    pub stop_id: String,
    pub direction: DirectionType,
    pub arrival_time: String,
    pub departure_time: String,
    pub stop_sequence: u32,
}

/// A station: the parent stop and the ids of its two platforms.
#[derive(Debug)]
pub struct SubwayStop {
    pub stop_id: String,
    pub stop_name: Option<String>,
    pub stop_lat: Option<String>,
    pub stop_lon: Option<String>,
    pub uptown_platform_id: String,
    pub downtown_platform_id: String,
}

/// A transfer from a station, grouped under it, to another station.
#[derive(Debug)]
pub struct SubwayTransfer {
    pub to_stop_id: String,
    pub transfer_type: TransferType,
    pub min_transfer_time: Option<u32>,
}

impl Keyed for SubwayStop {
    open spec fn spec_key(&self) -> Seq<char> {
        self.stop_id@
    }

    fn key(&self) -> (r: &str) {
        self.stop_id.as_str()
    }
}

/// A record that the view takes on with its optional fields made required.
pub trait Promote: Sized {
    type Out;

    spec fn spec_promote(&self) -> Result<Self::Out, SubwayError>;

    fn promote(&self) -> (r: Result<Self::Out, SubwayError>)
        ensures
            r == self.spec_promote(),
    ;
}

fn clone_text(o: &Option<String>) -> (r: Option<String>)
    ensures
        r == *o,
{
    match o {
        Some(s) => Some(s.clone()),
        None => None,
    }
}

fn required(o: &Option<String>, table: &'static str, id: &String, field: &'static str) -> (r: Result<
    String,
    SubwayError,
>)
    ensures
        r == match *o {
            Some(s) => Ok(s),
            None => Err(SubwayError::MissingField { table, id: *id, field }),
        },
{
    match o {
        Some(s) => Ok(s.clone()),
        None => Err(SubwayError::MissingField { table, id: id.clone(), field }),
    }
}

impl Promote for Route {
    type Out = SubwayRoute;

    open spec fn spec_promote(&self) -> Result<SubwayRoute, SubwayError> {
        let missing = |field: &'static str|
            SubwayError::MissingField { table: "routes", id: self.route_id, field };
        if self.route_short_name is None {
            Err(missing("route_short_name"))
        } else if self.route_long_name is None {
            Err(missing("route_long_name"))
        } else if self.route_desc is None {
            Err(missing("route_desc"))
        } else if self.route_url is None {
            Err(missing("route_url"))
        } else {
            Ok(
                SubwayRoute {
                    route_id: self.route_id,
                    route_short_name: self.route_short_name->Some_0,
                    route_long_name: self.route_long_name->Some_0,
                    route_desc: self.route_desc->Some_0,
                    route_url: self.route_url->Some_0,
                    route_type: self.route_type,
                    route_color: self.route_color,
                },
            )
        }
    }

    fn promote(&self) -> (r: Result<SubwayRoute, SubwayError>) {
        let id = &self.route_id;
        let short_name = required(&self.route_short_name, "routes", id, "route_short_name")?;
        let long_name = required(&self.route_long_name, "routes", id, "route_long_name")?;
        let desc = required(&self.route_desc, "routes", id, "route_desc")?;
        let url = required(&self.route_url, "routes", id, "route_url")?;
        Ok(
            SubwayRoute {
                route_id: id.clone(),
                route_short_name: short_name,
                route_long_name: long_name,
                route_desc: desc,
                route_url: url,
                route_type: self.route_type,
                route_color: clone_text(&self.route_color),
            },
        )
    }
}

impl Promote for Trip {
    type Out = SubwayTrip;

    open spec fn spec_promote(&self) -> Result<SubwayTrip, SubwayError> {
        if self.trip_headsign is None {
            Err(SubwayError::MissingField { table: "trips", id: self.trip_id, field: "trip_headsign" })
        } else if self.direction_id is None {
            Err(SubwayError::MissingField { table: "trips", id: self.trip_id, field: "direction_id" })
        } else {
            Ok(
                SubwayTrip {
                    trip_id: self.trip_id,
                    route_id: self.route_id,
                    service_id: self.service_id,
                    headsign: self.trip_headsign->Some_0,
                    direction: self.direction_id->Some_0,
                    shape_id: self.shape_id,
                },
            )
        }
    }

    fn promote(&self) -> (r: Result<SubwayTrip, SubwayError>) {
        let headsign = required(&self.trip_headsign, "trips", &self.trip_id, "trip_headsign")?;
        let direction = match self.direction_id {
            Some(d) => d,
            None => {
                return Err(
                    SubwayError::MissingField {
                        table: "trips",
                        id: self.trip_id.clone(),
                        field: "direction_id",
                    },
                );
            },
        };
        Ok(
            SubwayTrip {
                trip_id: self.trip_id.clone(),
                route_id: self.route_id.clone(),
                service_id: self.service_id.clone(),
                headsign,
                direction,
                shape_id: clone_text(&self.shape_id),
            },
        )
    }
}

/// The direction that the last character of a platform id gives: `N` for
/// uptown, `S` for downtown.
pub open spec fn platform_direction(stop_id: Seq<char>) -> Option<DirectionType> {
    if stop_id.len() == 0 {
        None
    } else if stop_id.last() == 'N' {
        Some(DirectionType::Uptown)
    } else if stop_id.last() == 'S' {
        Some(DirectionType::Downtown)
    } else {
        None
    }
}

fn direction_of(stop_id: &String) -> (r: Option<DirectionType>)
    ensures
        r == platform_direction(stop_id@),
{
    let n = stop_id.as_str().unicode_len();
    if n == 0 {
        return None;
    }
    let c = stop_id.as_str().get_char(n - 1);
    if c == 'N' {
        Some(DirectionType::Uptown)
    } else if c == 'S' {
        Some(DirectionType::Downtown)
    } else {
        None
    }
}

impl SubwayStopTime {
    /// The id of the station of the platform: the stop id without its last
    /// character.
    pub fn station_id(&self) -> (r: String)
        ensures
            r@ == if self.stop_id@.len() > 0 {
                self.stop_id@.drop_last()
            } else {
                Seq::empty()
            },
    {
        let n = self.stop_id.as_str().unicode_len();
        if n == 0 {
            return String::new();
        }
        self.stop_id.as_str().substring_char(0, n - 1).to_owned()
    }
}

impl Promote for StopTime {
    type Out = SubwayStopTime;

    open spec fn spec_promote(&self) -> Result<SubwayStopTime, SubwayError> {
        let missing = |field: &'static str|
            SubwayError::MissingField { table: "stop_times", id: self.trip_id, field };
        if self.stop_id is None {
            Err(missing("stop_id"))
        } else if platform_direction(self.stop_id->Some_0@) is None {
            Err(SubwayError::BadPlatform { stop_id: self.stop_id->Some_0 })
        } else if self.arrival_time is None {
            Err(missing("arrival_time"))
        } else if self.departure_time is None {
            Err(missing("departure_time"))
        } else {
            Ok(
                SubwayStopTime {
                    trip_id: self.trip_id,
                    stop_id: self.stop_id->Some_0,
                    direction: platform_direction(self.stop_id->Some_0@)->Some_0,
                    arrival_time: self.arrival_time->Some_0,
                    departure_time: self.departure_time->Some_0,
                    stop_sequence: self.stop_sequence,
                },
            )
        }
    }

    fn promote(&self) -> (r: Result<SubwayStopTime, SubwayError>) {
        let stop_id = required(&self.stop_id, "stop_times", &self.trip_id, "stop_id")?;
        let direction = match direction_of(&stop_id) {
            Some(d) => d,
            None => {
                return Err(SubwayError::BadPlatform { stop_id });
            },
        };
        let arrival_time = required(&self.arrival_time, "stop_times", &self.trip_id, "arrival_time")?;
        let departure_time = required(
            &self.departure_time,
            "stop_times",
            &self.trip_id,
            "departure_time",
        )?;
        Ok(
            SubwayStopTime {
                trip_id: self.trip_id.clone(),
                stop_id,
                direction,
                arrival_time,
                departure_time,
                stop_sequence: self.stop_sequence,
            },
        )
    }
}

/// The promoted records in order, or the error of the first that fails.
pub open spec fn promote_all<T: Promote>(s: Seq<T>) -> Result<Seq<T::Out>, SubwayError>
    decreases s.len(),
{
    if s.len() == 0 {
        Ok(Seq::empty())
    } else {
        match promote_all(s.drop_last()) {
            Err(e) => Err(e),
            Ok(prev) => match s.last().spec_promote() {
                Ok(o) => Ok(prev.push(o)),
                Err(e) => Err(e),
            },
        }
    }
}

proof fn lemma_promote_all_fails<T: Promote>(s: Seq<T>, k: int, e: SubwayError)
    requires
        0 <= k <= s.len(),
        promote_all(s.subrange(0, k)) == Err::<Seq<T::Out>, SubwayError>(e),
    ensures
        promote_all(s) == Err::<Seq<T::Out>, SubwayError>(e),
    decreases s.len() - k,
{
    if k < s.len() {
        assert(s.subrange(0, k + 1).drop_last() =~= s.subrange(0, k));
        lemma_promote_all_fails(s, k + 1, e);
    } else {
        assert(s.subrange(0, k) =~= s);
    }
}

pub fn promote_vec<T: Promote>(v: &Vec<T>) -> (r: Result<Vec<T::Out>, SubwayError>)
    ensures
        match r {
            Ok(o) => promote_all(v@) == Ok::<Seq<T::Out>, SubwayError>(o@),
            Err(e) => promote_all(v@) == Err::<Seq<T::Out>, SubwayError>(e),
        },
{
    let mut out: Vec<T::Out> = Vec::new();
    let mut i: usize = 0;
    while i < v.len()
        invariant
            i <= v.len(),
            promote_all(v@.subrange(0, i as int)) == Ok::<Seq<T::Out>, SubwayError>(out@),
        decreases v.len() - i,
    {
        assert(v@.subrange(0, i + 1).drop_last() =~= v@.subrange(0, i as int));
        match v[i].promote() {
            Ok(o) => out.push(o),
            Err(e) => {
                proof {
                    lemma_promote_all_fails(v@, i + 1, e);
                }
                return Err(e);
            },
        }
        i = i + 1;
    }
    assert(v@.subrange(0, i as int) =~= v@);
    Ok(out)
}

/// The groups with their records promoted, or the error of the first record that fails.
pub open spec fn promote_groups<T: Promote>(gs: Seq<GroupView<T>>) -> Result<
    Seq<GroupView<T::Out>>,
    SubwayError,
>
    decreases gs.len(),
{
    if gs.len() == 0 {
        Ok(Seq::empty())
    } else {
        match promote_groups(gs.drop_last()) {
            Err(e) => Err(e),
            Ok(prev) => match promote_all(gs.last().1) {
                Ok(items) => Ok(prev.push((gs.last().0, items))),
                Err(e) => Err(e),
            },
        }
    }
}

proof fn lemma_promote_groups_fails<T: Promote>(gs: Seq<GroupView<T>>, k: int, e: SubwayError)
    requires
        0 <= k <= gs.len(),
        promote_groups(gs.subrange(0, k)) == Err::<Seq<GroupView<T::Out>>, SubwayError>(e),
    ensures
        promote_groups(gs) == Err::<Seq<GroupView<T::Out>>, SubwayError>(e),
    decreases gs.len() - k,
{
    if k < gs.len() {
        assert(gs.subrange(0, k + 1).drop_last() =~= gs.subrange(0, k));
        lemma_promote_groups_fails(gs, k + 1, e);
    } else {
        assert(gs.subrange(0, k) =~= gs);
    }
}

pub fn promote_group_vec<T: Promote>(gs: &Vec<Group<T>>) -> (r: Result<Vec<Group<T::Out>>, SubwayError>)
    ensures
        match r {
            Ok(o) => promote_groups(groups_view(gs@)) == Ok::<Seq<GroupView<T::Out>>, SubwayError>(
                groups_view(o@),
            ),
            Err(e) => promote_groups(groups_view(gs@)) == Err::<Seq<GroupView<T::Out>>, SubwayError>(
                e,
            ),
        },
{
    let ghost gv = groups_view(gs@);
    let mut out: Vec<Group<T::Out>> = Vec::new();
    let mut i: usize = 0;
    assert(gv.subrange(0, 0) =~= Seq::<GroupView<T>>::empty());
    assert(groups_view(out@) =~= Seq::<GroupView<T::Out>>::empty());
    while i < gs.len()
        invariant
            i <= gs.len(),
            gv == groups_view(gs@),
            promote_groups(gv.subrange(0, i as int)) == Ok::<Seq<GroupView<T::Out>>, SubwayError>(
                groups_view(out@),
            ),
        decreases gs.len() - i,
    {
        assert(gv.subrange(0, i + 1).drop_last() =~= gv.subrange(0, i as int));
        assert(gv[i as int] == (gs@[i as int].id@, gs@[i as int].items@));
        match promote_vec(&gs[i].items) {
            Ok(items) => {
                let ghost before = out@;
                out.push(Group { id: gs[i].id.clone(), items });
                assert(groups_view(out@) =~= groups_view(before).push(
                    (gs@[i as int].id@, items@),
                ));
            },
            Err(e) => {
                proof {
                    lemma_promote_groups_fails(gv, i + 1, e);
                }
                return Err(e);
            },
        }
        i = i + 1;
    }
    assert(gv.subrange(0, i as int) =~= gv);
    Ok(out)
}

/// The one agency, with its language and phone.
pub open spec fn subway_agency(agencies: Seq<Agency>) -> Result<SubwayAgency, SubwayError> {
    if agencies.len() != 1 {
        Err(SubwayError::AgencyCount(agencies.len() as usize))
    } else {
        let a = agencies[0];
        if a.agency_lang is None {
            Err(SubwayError::MissingField { table: "agency", id: a.agency_name, field: "agency_lang" })
        } else if a.agency_phone is None {
            Err(
                SubwayError::MissingField { table: "agency", id: a.agency_name, field: "agency_phone" },
            )
        } else {
            Ok(
                SubwayAgency {
                    agency_name: a.agency_name,
                    agency_url: a.agency_url,
                    agency_timezone: a.agency_timezone,
                    agency_lang: a.agency_lang->Some_0,
                    agency_phone: a.agency_phone->Some_0,
                },
            )
        }
    }
}

fn promote_agency(agencies: &Vec<Agency>) -> (r: Result<SubwayAgency, SubwayError>)
    ensures
        r == subway_agency(agencies@),
{
    if agencies.len() != 1 {
        return Err(SubwayError::AgencyCount(agencies.len()));
    }
    let a = &agencies[0];
    let lang = required(&a.agency_lang, "agency", &a.agency_name, "agency_lang")?;
    let phone = required(&a.agency_phone, "agency", &a.agency_name, "agency_phone")?;
    Ok(
        SubwayAgency {
            agency_name: a.agency_name.clone(),
            agency_url: a.agency_url.clone(),
            agency_timezone: a.agency_timezone.clone(),
            agency_lang: lang,
            agency_phone: phone,
        },
    )
}

/// The position of the platform of the parent stop `parent` in direction
/// `dir`: the stop with id `parent` followed by `dir`, which names `parent`
/// as its parent station.
pub open spec fn platform_at(stops: Seq<Stop>, parent: Seq<char>, dir: char) -> Option<int> {
    match find_key(stops, parent.push(dir)) {
        Some(i) => match stops[i].parent_station {
            Some(p) => if p@ == parent {
                Some(i)
            } else {
                None
            },
            None => None,
        },
        None => None,
    }
}

/// The station of the parent stop `p`, with both its platforms.
pub open spec fn station_of(stops: Seq<Stop>, p: Stop) -> Result<SubwayStop, SubwayError> {
    match (platform_at(stops, p.stop_id@, 'N'), platform_at(stops, p.stop_id@, 'S')) {
        (Some(u), Some(d)) => Ok(
            SubwayStop {
                stop_id: p.stop_id,
                stop_name: p.stop_name,
                stop_lat: p.stop_lat,
                stop_lon: p.stop_lon,
                uptown_platform_id: stops[u].stop_id,
                downtown_platform_id: stops[d].stop_id,
            },
        ),
        _ => Err(SubwayError::BadStation { station_id: p.stop_id }),
    }
}

/// The stations of the parent stops among the first `n` stops, in order.
pub open spec fn stations_upto(stops: Seq<Stop>, n: int) -> Result<Seq<SubwayStop>, SubwayError>
    decreases n,
{
    if n <= 0 || n > stops.len() {
        Ok(Seq::empty())
    } else {
        match stations_upto(stops, n - 1) {
            Err(e) => Err(e),
            Ok(prev) => {
                let p = stops[n - 1];
                if p.parent_station is None {
                    match station_of(stops, p) {
                        Ok(st) => Ok(prev.push(st)),
                        Err(e) => Err(e),
                    }
                } else {
                    Ok(prev)
                }
            },
        }
    }
}

/// The stations that the stops form: every stop without a parent is a
/// station, and the stops must be exactly the stations and their platforms.
pub open spec fn stations_of(stops: Seq<Stop>) -> Result<Seq<SubwayStop>, SubwayError> {
    if stops.len() % 3 != 0 {
        Err(SubwayError::StopCount(stops.len() as usize))
    } else {
        match stations_upto(stops, stops.len() as int) {
            Ok(st) => if 3 * st.len() == stops.len() {
                Ok(st)
            } else {
                Err(SubwayError::StopCount(stops.len() as usize))
            },
            Err(e) => Err(e),
        }
    }
}

fn find_platform(stops: &Vec<Stop>, parent: &String, dir: &str) -> (r: Option<usize>)
    requires
        dir@ == seq!['N'] || dir@ == seq!['S'],
    ensures
        match r {
            Some(i) => platform_at(stops@, parent@, dir@[0]) == Some(i as int) && i < stops@.len(),
            None => platform_at(stops@, parent@, dir@[0]) is None,
        },
{
    let id = parent.clone().concat(dir);
    assert(id@ =~= parent@.push(dir@[0]));
    proof {
        lemma_find_key(stops@, id@);
    }
    match position_of(stops, id.as_str()) {
        Some(i) => match &stops[i].parent_station {
            Some(p) => if crate::fields::same_text(p.as_str(), parent.as_str()) {
                Some(i)
            } else {
                None
            },
            None => None,
        },
        None => None,
    }
}

fn make_station(stops: &Vec<Stop>, p: &Stop) -> (r: Result<SubwayStop, SubwayError>)
    ensures
        r == station_of(stops@, *p),
{
    proof {
        reveal_strlit("N");
        reveal_strlit("S");
        assert("N"@ =~= seq!['N']);
        assert("S"@ =~= seq!['S']);
    }
    let up = find_platform(stops, &p.stop_id, "N");
    let down = find_platform(stops, &p.stop_id, "S");
    match (up, down) {
        (Some(u), Some(d)) => Ok(
            SubwayStop {
                stop_id: p.stop_id.clone(),
                stop_name: clone_text(&p.stop_name),
                stop_lat: clone_text(&p.stop_lat),
                stop_lon: clone_text(&p.stop_lon),
                uptown_platform_id: stops[u].stop_id.clone(),
                downtown_platform_id: stops[d].stop_id.clone(),
            },
        ),
        _ => Err(SubwayError::BadStation { station_id: p.stop_id.clone() }),
    }
}

proof fn lemma_stations_fail(stops: Seq<Stop>, k: int, e: SubwayError)
    requires
        0 <= k <= stops.len(),
        stations_upto(stops, k) == Err::<Seq<SubwayStop>, SubwayError>(e),
    ensures
        stations_upto(stops, stops.len() as int) == Err::<Seq<SubwayStop>, SubwayError>(e),
    decreases stops.len() - k,
{
    if k < stops.len() {
        lemma_stations_fail(stops, k + 1, e);
    }
}

/// Groups the stops into stations by their parent station.
pub fn build_stations(stops: &Vec<Stop>) -> (r: Result<Vec<SubwayStop>, SubwayError>)
    ensures
        match r {
            Ok(v) => stations_of(stops@) == Ok::<Seq<SubwayStop>, SubwayError>(v@),
            Err(e) => stations_of(stops@) == Err::<Seq<SubwayStop>, SubwayError>(e),
        },
{
    if stops.len() % 3 != 0 {
        return Err(SubwayError::StopCount(stops.len()));
    }
    let mut out: Vec<SubwayStop> = Vec::new();
    let mut i: usize = 0;
    while i < stops.len()
        invariant
            i <= stops.len(),
            stations_upto(stops@, i as int) == Ok::<Seq<SubwayStop>, SubwayError>(out@),
            stops@.len() % 3 == 0,
        decreases stops.len() - i,
    {
        let p = &stops[i];
        if p.parent_station.is_none() {
            match make_station(stops, p) {
                Ok(st) => out.push(st),
                Err(e) => {
                    proof {
                        assert(stations_upto(stops@, i + 1) == Err::<Seq<SubwayStop>, SubwayError>(e));
                        lemma_stations_fail(stops@, i + 1, e);
                    }
                    return Err(e);
                },
            }
        }
        i = i + 1;
    }
    if out.len() != stops.len() / 3 {
        return Err(SubwayError::StopCount(stops.len()));
    }
    Ok(out)
}

/// A transfer from the station `from`, whose destination must be a station.
pub open spec fn transfer_of(t: Transfer, from: String, stations: Seq<SubwayStop>) -> Result<
    SubwayTransfer,
    SubwayError,
> {
    match t.to_stop_id {
        None => Err(SubwayError::MissingField { table: "transfers", id: from, field: "to_stop_id" }),
        Some(to) => if has_key(stations, to@) {
            Ok(
                SubwayTransfer {
                    to_stop_id: to,
                    transfer_type: t.transfer_type,
                    min_transfer_time: t.min_transfer_time,
                },
            )
        } else {
            Err(SubwayError::UnknownStation { stop_id: to })
        },
    }
}

/// The transfers from the station `from`, or the error of the first that fails.
pub open spec fn transfers_in(items: Seq<Transfer>, from: String, stations: Seq<SubwayStop>) -> Result<
    Seq<SubwayTransfer>,
    SubwayError,
>
    decreases items.len(),
{
    if items.len() == 0 {
        Ok(Seq::empty())
    } else {
        match transfers_in(items.drop_last(), from, stations) {
            Err(e) => Err(e),
            Ok(prev) => match transfer_of(items.last(), from, stations) {
                Ok(t) => Ok(prev.push(t)),
                Err(e) => Err(e),
            },
        }
    }
}

/// The transfers grouped by origin, each origin a station, or the first error.
pub open spec fn transfers_of(gs: Seq<Group<Transfer>>, stations: Seq<SubwayStop>) -> Result<
    Seq<GroupView<SubwayTransfer>>,
    SubwayError,
>
    decreases gs.len(),
{
    if gs.len() == 0 {
        Ok(Seq::empty())
    } else {
        match transfers_of(gs.drop_last(), stations) {
            Err(e) => Err(e),
            Ok(prev) => {
                let g = gs.last();
                if !has_key(stations, g.id@) {
                    Err(SubwayError::UnknownStation { stop_id: g.id })
                } else {
                    match transfers_in(g.items@, g.id, stations) {
                        Ok(items) => Ok(prev.push((g.id@, items))),
                        Err(e) => Err(e),
                    }
                }
            },
        }
    }
}

proof fn lemma_transfers_in_fail(items: Seq<Transfer>, from: String, stations: Seq<SubwayStop>, k: int, e: SubwayError)
    requires
        0 <= k <= items.len(),
        transfers_in(items.subrange(0, k), from, stations) == Err::<Seq<SubwayTransfer>, SubwayError>(e),
    ensures
        transfers_in(items, from, stations) == Err::<Seq<SubwayTransfer>, SubwayError>(e),
    decreases items.len() - k,
{
    if k < items.len() {
        assert(items.subrange(0, k + 1).drop_last() =~= items.subrange(0, k));
        lemma_transfers_in_fail(items, from, stations, k + 1, e);
    } else {
        assert(items.subrange(0, k) =~= items);
    }
}

proof fn lemma_transfers_of_fail(gs: Seq<Group<Transfer>>, stations: Seq<SubwayStop>, k: int, e: SubwayError)
    requires
        0 <= k <= gs.len(),
        transfers_of(gs.subrange(0, k), stations) == Err::<Seq<GroupView<SubwayTransfer>>, SubwayError>(e),
    ensures
        transfers_of(gs, stations) == Err::<Seq<GroupView<SubwayTransfer>>, SubwayError>(e),
    decreases gs.len() - k,
{
    if k < gs.len() {
        assert(gs.subrange(0, k + 1).drop_last() =~= gs.subrange(0, k));
        lemma_transfers_of_fail(gs, stations, k + 1, e);
    } else {
        assert(gs.subrange(0, k) =~= gs);
    }
}

fn station_transfers(g: &Group<Transfer>, stations: &Vec<SubwayStop>) -> (r: Result<
    Vec<SubwayTransfer>,
    SubwayError,
>)
    ensures
        match r {
            Ok(v) => transfers_in(g.items@, g.id, stations@) == Ok::<Seq<SubwayTransfer>, SubwayError>(v@),
            Err(e) => transfers_in(g.items@, g.id, stations@) == Err::<Seq<SubwayTransfer>, SubwayError>(e),
        },
{
    let mut out: Vec<SubwayTransfer> = Vec::new();
    let mut i: usize = 0;
    while i < g.items.len()
        invariant
            i <= g.items.len(),
            transfers_in(g.items@.subrange(0, i as int), g.id, stations@) == Ok::<Seq<SubwayTransfer>, SubwayError>(out@),
        decreases g.items.len() - i,
    {
        assert(g.items@.subrange(0, i + 1).drop_last() =~= g.items@.subrange(0, i as int));
        let t = &g.items[i];
        let step: Result<SubwayTransfer, SubwayError> = match &t.to_stop_id {
            None => Err(SubwayError::MissingField { table: "transfers", id: g.id.clone(), field: "to_stop_id" }),
            Some(to) => if contains_key(stations, to.as_str()) {
                Ok(
                    SubwayTransfer {
                        to_stop_id: to.clone(),
                        transfer_type: t.transfer_type,
                        min_transfer_time: t.min_transfer_time,
                    },
                )
            } else {
                Err(SubwayError::UnknownStation { stop_id: to.clone() })
            },
        };
        match step {
            Ok(x) => out.push(x),
            Err(e) => {
                proof {
                    lemma_transfers_in_fail(g.items@, g.id, stations@, i + 1, e);
                }
                return Err(e);
            },
        }
        i = i + 1;
    }
    assert(g.items@.subrange(0, i as int) =~= g.items@);
    Ok(out)
}

/// Checks the transfers against the stations: each origin and each
/// destination must be a station, and each destination must be given.
pub fn build_transfers(gs: &Vec<Group<Transfer>>, stations: &Vec<SubwayStop>) -> (r: Result<
    Vec<Group<SubwayTransfer>>,
    SubwayError,
>)
    ensures
        match r {
            Ok(v) => transfers_of(gs@, stations@) == Ok::<Seq<GroupView<SubwayTransfer>>, SubwayError>(groups_view(v@)),
            Err(e) => transfers_of(gs@, stations@) == Err::<Seq<GroupView<SubwayTransfer>>, SubwayError>(e),
        },
{
    let mut out: Vec<Group<SubwayTransfer>> = Vec::new();
    let mut i: usize = 0;
    assert(gs@.subrange(0, 0) =~= Seq::<Group<Transfer>>::empty());
    assert(groups_view(out@) =~= Seq::<GroupView<SubwayTransfer>>::empty());
    while i < gs.len()
        invariant
            i <= gs.len(),
            transfers_of(gs@.subrange(0, i as int), stations@) == Ok::<Seq<GroupView<SubwayTransfer>>, SubwayError>(groups_view(out@)),
        decreases gs.len() - i,
    {
        assert(gs@.subrange(0, i + 1).drop_last() =~= gs@.subrange(0, i as int));
        let g = &gs[i];
        if !contains_key(stations, g.id.as_str()) {
            let e = SubwayError::UnknownStation { stop_id: g.id.clone() };
            proof {
                lemma_transfers_of_fail(gs@, stations@, i + 1, e);
            }
            return Err(e);
        }
        match station_transfers(g, stations) {
            Ok(items) => {
                let ghost before = out@;
                out.push(Group { id: g.id.clone(), items });
                assert(groups_view(out@) =~= groups_view(before).push((g.id@, items@)));
            },
            Err(e) => {
                proof {
                    lemma_transfers_of_fail(gs@, stations@, i + 1, e);
                }
                return Err(e);
            },
        }
        i = i + 1;
    }
    assert(gs@.subrange(0, i as int) =~= gs@);
    Ok(out)
}

/// The subway view of a schedule. The calendars and shapes are those of
/// the schedule, unchanged.
#[derive(Debug)]
pub struct SubwaySchedule {
    pub agency: SubwayAgency,
    /// In the order of the schedule's routes.
    pub routes: Vec<SubwayRoute>,
    /// In the order of the schedule's trips.
    pub trips: Vec<SubwayTrip>,
    /// One per parent stop, in the order of the schedule's stops.
    pub stations: Vec<SubwayStop>,
    /// Grouped by trip id, as in the schedule.
    pub stop_times: Vec<Group<SubwayStopTime>>,
    /// Grouped by origin station id, as in the schedule.
    pub transfers: Vec<Group<SubwayTransfer>>,
    pub services: Vec<Service>,
    pub service_exceptions: Vec<Group<ServiceException>>,
    pub shapes: Vec<Shape>,
}

/// The first reason, in the order agency, routes, trips, stations, stop
/// times, transfers, for which the schedule makes no subway view.
pub open spec fn subway_error(s: Schedule) -> Option<SubwayError> {
    let stations = stations_of(s.stops@);
    if subway_agency(s.agencies@) is Err {
        Some(subway_agency(s.agencies@)->Err_0)
    } else if promote_all(s.routes@) is Err {
        Some(promote_all(s.routes@)->Err_0)
    } else if promote_all(s.trips@) is Err {
        Some(promote_all(s.trips@)->Err_0)
    } else if stations is Err {
        Some(stations->Err_0)
    } else if promote_groups(groups_view(s.stop_times@)) is Err {
        Some(promote_groups(groups_view(s.stop_times@))->Err_0)
    } else if transfers_of(s.transfers@, stations->Ok_0) is Err {
        Some(transfers_of(s.transfers@, stations->Ok_0)->Err_0)
    } else {
        None
    }
}

/// `v` is the subway view of `s`.
pub open spec fn is_subway_view(v: SubwaySchedule, s: Schedule) -> bool {
    &&& subway_agency(s.agencies@) == Ok::<SubwayAgency, SubwayError>(v.agency)
    &&& promote_all(s.routes@) == Ok::<Seq<SubwayRoute>, SubwayError>(v.routes@)
    &&& promote_all(s.trips@) == Ok::<Seq<SubwayTrip>, SubwayError>(v.trips@)
    &&& stations_of(s.stops@) == Ok::<Seq<SubwayStop>, SubwayError>(v.stations@)
    &&& promote_groups(groups_view(s.stop_times@)) == Ok::<Seq<GroupView<SubwayStopTime>>, SubwayError>(
        groups_view(v.stop_times@),
    )
    &&& transfers_of(s.transfers@, v.stations@) == Ok::<Seq<GroupView<SubwayTransfer>>, SubwayError>(
        groups_view(v.transfers@),
    )
    &&& v.services == s.services
    &&& v.service_exceptions == s.service_exceptions
    &&& v.shapes == s.shapes
}

/// A schedule whose stops do not come in groups of three makes no subway view.
pub proof fn lemma_stop_count_fails(s: Schedule)
    requires
        s.stops@.len() % 3 != 0,
    ensures
        subway_error(s) is Some,
{
}

impl SubwaySchedule {
    /// Builds the subway view of a schedule, or says why there is none.
    pub fn from_schedule(schedule: Schedule) -> (r: Result<SubwaySchedule, SubwayError>)
        ensures
            match r {
                Ok(v) => subway_error(schedule) is None && is_subway_view(v, schedule),
                Err(e) => subway_error(schedule) == Some(e),
            },
            schedule.stops@.len() % 3 != 0 ==> r is Err,
    {
        let agency = promote_agency(&schedule.agencies)?;
        let routes = promote_vec(&schedule.routes)?;
        let trips = promote_vec(&schedule.trips)?;
        let stations = build_stations(&schedule.stops)?;
        let stop_times = promote_group_vec(&schedule.stop_times)?;
        let transfers = build_transfers(&schedule.transfers, &stations)?;
        Ok(
            SubwaySchedule {
                agency,
                routes,
                trips,
                stations,
                stop_times,
                transfers,
                services: schedule.services,
                service_exceptions: schedule.service_exceptions,
                shapes: schedule.shapes,
            },
        )
    }
}

} // verus!
