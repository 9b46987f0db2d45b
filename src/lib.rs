//! Ingestion of GTFS schedule tables into one relational snapshot, the
//! subway view derived from it, and the envelope of GTFS-realtime feeds.
pub mod codes;
pub mod fields;
pub mod table;
pub mod lookup;
pub mod index;
pub mod group;
pub mod agency;
pub mod calendar;
pub mod routes;
pub mod shapes;
pub mod stop_times;
pub mod stops;
pub mod transfers;
pub mod trips;
pub mod schedule;
pub mod archive;
pub mod mta;
pub mod realtime;
