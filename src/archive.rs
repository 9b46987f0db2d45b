//! Reading a schedule from a zip archive that holds the tables as entries
//! named after them.
use crate::group::groups_view;
use crate::schedule::{built_from, window_of, Schedule, Window};
use vstd::prelude::*;

verus! {

/// The bytes of the entry named `name` of a zip archive, if the archive can
/// be read and has that entry; an entry encrypted with the classic zip
/// scheme is read with the empty password.
pub uninterp spec fn zip_entry_of(archive: Seq<u8>, name: Seq<char>) -> Option<Seq<u8>>;

/// Relies on zip::ZipArchive: `new` reads the archive's directory,
/// `by_name_decrypt` finds the entry and opens it (giving an error, where
/// `by_name` would panic, for an entry that carries AES data), and
/// `read_to_end` decompresses it; any of them failing gives `None`.
#[verifier::external_body]
fn zip_entry(archive: &[u8], name: &str) -> (r: Option<Vec<u8>>)
    ensures
        match r {
            Some(b) => zip_entry_of(archive@, name@) == Some(b@),
            None => zip_entry_of(archive@, name@) is None,
        },
{
    let mut zip = zip::ZipArchive::new(std::io::Cursor::new(archive)).ok()?;
    let mut file = zip.by_name_decrypt(name, b"").ok()?.ok()?;
    let mut bytes: Vec<u8> = Vec::new();
    std::io::Read::read_to_end(&mut file, &mut bytes).ok()?;
    Some(bytes)
}

/// The entry's bytes, or none where the archive lacks it.
pub open spec fn entry_or_empty(archive: Seq<u8>, name: Seq<char>) -> Seq<u8> {
    match zip_entry_of(archive, name) {
        Some(b) => b,
        None => Seq::empty(),
    }
}

/// The archive holds the five tables without which there is no schedule;
/// the calendars, shapes and transfers may be absent.
pub open spec fn has_required_entries(archive: Seq<u8>) -> bool {
    &&& zip_entry_of(archive, "agency.txt"@) is Some
    &&& zip_entry_of(archive, "stops.txt"@) is Some
    &&& zip_entry_of(archive, "routes.txt"@) is Some
    &&& zip_entry_of(archive, "trips.txt"@) is Some
    &&& zip_entry_of(archive, "stop_times.txt"@) is Some
}

/// `s` is the schedule that the archive's entries make.
pub open spec fn built_from_archive(s: Schedule, archive: Seq<u8>, w: Window) -> bool {
    built_from(
        s,
        entry_or_empty(archive, "agency.txt"@),
        entry_or_empty(archive, "stops.txt"@),
        entry_or_empty(archive, "stop_times.txt"@),
        entry_or_empty(archive, "calendar.txt"@),
        entry_or_empty(archive, "calendar_dates.txt"@),
        entry_or_empty(archive, "shapes.txt"@),
        entry_or_empty(archive, "transfers.txt"@),
        entry_or_empty(archive, "routes.txt"@),
        entry_or_empty(archive, "trips.txt"@),
        w,
    )
}

fn entry_or_none(archive: &[u8], name: &str) -> (r: Vec<u8>)
    ensures
        r@ == entry_or_empty(archive@, name@),
{
    match zip_entry(archive, name) {
        Some(b) => b,
        None => Vec::new(),
    }
}

/// Both schedules hold the same records under the same keys in every table.
pub open spec fn same_tables(a: Schedule, b: Schedule) -> bool {
    &&& a.agencies@ == b.agencies@
    &&& a.stops@ == b.stops@
    &&& groups_view(a.stop_times@) == groups_view(b.stop_times@)
    &&& a.services@ == b.services@
    &&& groups_view(a.service_exceptions@) == groups_view(b.service_exceptions@)
    &&& groups_view(a.shapes@) == groups_view(b.shapes@)
    &&& groups_view(a.transfers@) == groups_view(b.transfers@)
    &&& a.routes@ == b.routes@
    &&& a.trips@ == b.trips@
}

/// Reading the nine tables out of an archive gives the same schedule as
/// handing the same tables over one by one.
pub proof fn lemma_archive_matches_streams(
    from_archive: Schedule,
    from_streams: Schedule,
    archive: Seq<u8>,
    agency: Seq<u8>,
    stop: Seq<u8>,
    stop_time: Seq<u8>,
    service: Seq<u8>,
    service_exception: Seq<u8>,
    shape: Seq<u8>,
    transfer: Seq<u8>,
    route: Seq<u8>,
    trip: Seq<u8>,
    w: Window,
)
    requires
        zip_entry_of(archive, "agency.txt"@) == Some(agency),
        zip_entry_of(archive, "stops.txt"@) == Some(stop),
        zip_entry_of(archive, "stop_times.txt"@) == Some(stop_time),
        zip_entry_of(archive, "calendar.txt"@) == Some(service),
        zip_entry_of(archive, "calendar_dates.txt"@) == Some(service_exception),
        zip_entry_of(archive, "shapes.txt"@) == Some(shape),
        zip_entry_of(archive, "transfers.txt"@) == Some(transfer),
        zip_entry_of(archive, "routes.txt"@) == Some(route),
        zip_entry_of(archive, "trips.txt"@) == Some(trip),
        built_from_archive(from_archive, archive, w),
        built_from(
            from_streams,
            agency,
            stop,
            stop_time,
            service,
            service_exception,
            shape,
            transfer,
            route,
            trip,
            w,
        ),
    ensures
        same_tables(from_archive, from_streams),
{
}

impl Schedule {
    /// Builds the schedule from the tables of a zip archive; `None` where the
    /// archive cannot be read or lacks one of the required tables.
    pub fn from_zip(archive: &[u8], date_bounds: Option<(&String, &String)>) -> (r: Option<Schedule>)
        ensures
            r is Some <==> has_required_entries(archive@),
            r matches Some(s) ==> built_from_archive(s, archive@, window_of(date_bounds))
                && s.references_resolve() && s.within_window(window_of(date_bounds)),
    {
        let agency = match zip_entry(archive, "agency.txt") {
            Some(b) => b,
            None => return None,
        };
        let stops = match zip_entry(archive, "stops.txt") {
            Some(b) => b,
            None => return None,
        };
        let routes = match zip_entry(archive, "routes.txt") {
            Some(b) => b,
            None => return None,
        };
        let trips = match zip_entry(archive, "trips.txt") {
            Some(b) => b,
            None => return None,
        };
        let stop_times = match zip_entry(archive, "stop_times.txt") {
            Some(b) => b,
            None => return None,
        };
        let services = entry_or_none(archive, "calendar.txt");
        let exceptions = entry_or_none(archive, "calendar_dates.txt");
        let shapes = entry_or_none(archive, "shapes.txt");
        let transfers = entry_or_none(archive, "transfers.txt");
        Some(
            Schedule::from_readers(
                agency.as_slice(),
                stops.as_slice(),
                stop_times.as_slice(),
                services.as_slice(),
                exceptions.as_slice(),
                shapes.as_slice(),
                transfers.as_slice(),
                routes.as_slice(),
                trips.as_slice(),
                date_bounds,
            ),
        )
    }

    /// The whole schedule of an archive, with no date window.
    pub fn all_from_zip(archive: &[u8]) -> (r: Option<Schedule>)
        ensures
            r is Some <==> has_required_entries(archive@),
            r matches Some(s) ==> built_from_archive(s, archive@, None) && s.references_resolve(),
    {
        Schedule::from_zip(archive, None)
    }

    /// The schedule of an archive for one day, written `YYYYMMDD`.
    pub fn one_day_from_zip(archive: &[u8], date: String) -> (r: Option<Schedule>)
        ensures
            r is Some <==> has_required_entries(archive@),
            r matches Some(s) ==> built_from_archive(s, archive@, Some((date@, date@)))
                && s.references_resolve() && s.within_window(Some((date@, date@))),
    {
        Schedule::from_zip(archive, Some((&date, &date)))
    }
}

} // verus!
