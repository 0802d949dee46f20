//! Records exchanged with the transit API and the surrounding session,
//! and the small pieces of the core data model they are built from.
//!
//! Field names follow the upstream API payloads, so several structs use
//! camel-case fields.

#![allow(non_snake_case)]

use vstd::prelude::*;

verus! {

/// Whether keystrokes edit the station query or navigate the views.
pub enum InputMode {
    Normal,
    Insert,
}

/// Which block of the screen currently receives navigation keys.
pub enum Focus {
    InputBlock,
    LinesBlock,
}

/// One status record of a line, as the status feed reports it.
#[derive(Debug, Clone)]
pub struct LineStatus {
    pub id: i32,
    pub statusSeverity: i32,
    pub statusSeverityDescription: String,
    pub reason: Option<String>,
}

/// A reported disruption attached to a line status.
#[derive(Debug, Clone)]
pub struct Disruption {
    pub category: String,
    pub categoryDescription: String,
    pub description: String,
    pub summary: String,
    pub additionalInfo: String,
}

/// A resolved physical station. An empty `id` marks the unresolved
/// sentinel that the stop search yields on zero matches.
#[derive(Debug, Clone)]
pub struct StopPoint {
    pub zone: String,
    pub id: String,
    pub name: String,
}

impl StopPoint {
    /// True when the stop search actually resolved a station.
    pub open spec fn spec_resolved(self) -> bool {
        self.id@.len() > 0
    }

    /// True when the stop search actually resolved a station.
    pub fn resolved(&self) -> (r: bool)
        ensures
            r == self.spec_resolved(),
    {
        self.id.as_str().unicode_len() > 0
    }
}

impl Default for StopPoint {
    /// The unresolved sentinel: every field empty.
    fn default() -> (r: StopPoint)
        ensures
            r.zone@.len() == 0,
            r.id@.len() == 0,
            r.name@.len() == 0,
    {
        StopPoint { zone: String::new(), id: String::new(), name: String::new() }
    }
}

/// One metro line of the status feed.
#[derive(Debug, Clone)]
pub struct Line {
    pub id: String,
    pub name: String,
    pub modeName: String,
    pub disruptions: Vec<Disruption>,
    pub lineStatuses: Vec<Option<LineStatus>>,
}

/// Answer of the stop search: candidate stops for a free-text query.
#[derive(Debug, Clone)]
pub struct StopPointResponse {
    pub query: String,
    pub total: i32,
    pub matches: Vec<Option<StopPoint>>,
}

/// Answer of the arrivals request.
#[derive(Debug, Clone)]
pub struct ArrivalsResponse {
    pub arrivals: Vec<Arrival>,
}

/// One predicted train event at a stop.
#[derive(Debug, Clone)]
pub struct Arrival {
    pub stationName: String,
    pub lineId: String,
    pub platformName: String,
    pub timeToStation: i32,
    pub currentLocation: String,
    pub expectedArrival: String,
    pub towards: String,
}

/// Answer of the route-sequence request for one line.
#[derive(Debug, Clone)]
pub struct RouteResponse {
    pub lineId: String,
    pub direction: String,
    pub orderedLineRoutes: Vec<Route>,
}

/// One directional route: the ordered stop identifiers a line visits.
#[derive(Debug, Clone)]
pub struct Route {
    pub name: String,
    pub naptanIds: Vec<String>,
}

/// One stop on a live map, by its canonical identifier.
#[derive(Debug, Clone)]
pub struct Station {
    pub naptan_id: String,
}

impl Station {
    pub fn new(stop_name: String) -> (r: Station)
        ensures
            r.naptan_id@ == stop_name@,
    {
        Station { naptan_id: stop_name }
    }
}

/// A named link of the live map, with a marker for the current stop.
pub struct Link {
    pub link_name: String,
    pub is_current: bool,
}

/// The two directional stop orderings of one line.
#[derive(Debug, Clone)]
pub struct LiveMap {
    pub stops_0: Vec<Station>,
    pub stops_1: Vec<Station>,
    pub trains_currently_at: Vec<String>,
}

impl Default for LiveMap {
    /// A live map with no stops and no trains.
    fn default() -> (r: LiveMap)
        ensures
            r.stops_0@.len() == 0,
            r.stops_1@.len() == 0,
            r.trains_currently_at@.len() == 0,
    {
        LiveMap { stops_0: Vec::new(), stops_1: Vec::new(), trains_currently_at: Vec::new() }
    }
}

/// The ordered stop identifiers of a route list, as character sequences.
pub open spec fn route_stop_ids(ids: Seq<String>) -> Seq<Seq<char>> {
    ids.map_values(|s: String| s@)
}

/// The stop identifiers of a live-map column, as character sequences.
pub open spec fn station_ids(stops: Seq<Station>) -> Seq<Seq<char>> {
    stops.map_values(|st: Station| st.naptan_id@)
}

} // verus!
