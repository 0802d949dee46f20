//! The timetable snapshot: resolution of a station query, aggregation
//! of arrivals and per-line routes into a render-ready result.

use vstd::prelude::*;

use crate::geometry::{nodes_project, project, StationNode};
use crate::grouping::{line_ids, platforms_for, platforms_for_line, unique_line_ids};
use crate::model::{
    route_stop_ids, station_ids, Arrival, LiveMap, RouteResponse, StopPoint, StopPointResponse,
};
use crate::order::str_eq;

verus! {

/// Why an aggregation failed.
#[derive(Debug, Clone, Copy, PartialEq, Eq, Structural)]
pub enum AggError {
    /// The stop search resolved no station for the query.
    NotFound,
    /// No route sequence was supplied for a line that has arrivals.
    MissingRoute,
    /// A route sequence held fewer than the two directional routes.
    MalformedRoute,
}

/// The projected node columns of one line: one per direction.
#[derive(Debug, Clone)]
pub struct NodeColumns {
    pub nodes_0: Vec<StationNode>,
    pub nodes_1: Vec<StationNode>,
}

/// The full aggregated result for one station query.
#[derive(Debug, Clone)]
pub struct StopTimetable {
    pub stop_point: Option<StopPoint>,
    pub unique_lines: Vec<String>,
    pub unique_platforms: Vec<(String, Vec<String>)>,
    pub arrivals: Vec<Arrival>,
    pub live_maps: Vec<(String, LiveMap)>,
    pub station_nodes: Vec<(String, NodeColumns)>,
}

impl Default for StopTimetable {
    /// An empty timetable: no stop, no lines, no arrivals.
    fn default() -> (r: StopTimetable)
        ensures
            r.stop_point is None,
            r.unique_lines@.len() == 0,
            r.unique_platforms@.len() == 0,
            r.arrivals@.len() == 0,
            r.live_maps@.len() == 0,
            r.station_nodes@.len() == 0,
    {
        StopTimetable {
            stop_point: None,
            unique_lines: Vec::new(),
            unique_platforms: Vec::new(),
            arrivals: Vec::new(),
            live_maps: Vec::new(),
            station_nodes: Vec::new(),
        }
    }
}

/// Field-wise equality of two stops, at the level of their characters.
pub open spec fn stop_eq(a: StopPoint, b: StopPoint) -> bool {
    &&& a.zone@ == b.zone@
    &&& a.id@ == b.id@
    &&& a.name@ == b.name@
}

/// Resolves a stop search answer to a single stop.
///
/// Zero matches — or a first match that the search left empty — yield
/// the unresolved sentinel with every field empty; otherwise the first
/// match wins, with no ranking among several.
pub fn resolve_stop(resp: &StopPointResponse) -> (r: StopPoint)
    ensures
        (resp.matches@.len() == 0 || resp.matches@[0] is None) ==> (r.id@.len() == 0
            && r.zone@.len() == 0 && r.name@.len() == 0),
        resp.matches@.len() > 0 ==> (resp.matches@[0] matches Some(sp) ==> stop_eq(r, sp)),
{
    if resp.matches.len() == 0 {
        return StopPoint::default();
    }
    match &resp.matches[0] {
        Some(sp) => StopPoint {
            zone: sp.zone.clone(),
            id: sp.id.clone(),
            name: sp.name.clone(),
        },
        None => StopPoint::default(),
    }
}

/// The first route record stored under `line`, if any.
pub open spec fn route_for(
    routes: Seq<(String, RouteResponse)>,
    line: Seq<char>,
) -> Option<RouteResponse>
    decreases routes.len(),
{
    if routes.len() == 0 {
        None
    } else if routes[0].0@ == line {
        Some(routes[0].1)
    } else {
        route_for(routes.skip(1), line)
    }
}

/// Entries without the key do not influence the lookup.
proof fn lemma_route_for_prefix(routes: Seq<(String, RouteResponse)>, line: Seq<char>, i: int)
    requires
        0 <= i <= routes.len(),
        forall|j: int| 0 <= j < i ==> (#[trigger] routes[j]).0@ != line,
    ensures
        route_for(routes, line) == route_for(routes.skip(i), line),
    decreases i,
{
    if i > 0 {
        assert(routes[0].0@ != line);
        assert(forall|j: int|
            0 <= j < i - 1 ==> (#[trigger] routes.skip(1)[j]).0@ != line) by {
            assert(forall|j: int| 0 <= j < i - 1 ==> routes.skip(1)[j] == routes[j + 1]);
        }
        lemma_route_for_prefix(routes.skip(1), line, i - 1);
        assert(routes.skip(1).skip(i - 1) =~= routes.skip(i));
    } else {
        assert(routes.skip(0) =~= routes);
    }
}

/// Looks a line's route record up in the fetched route list.
pub fn find_route<'a>(routes: &'a Vec<(String, RouteResponse)>, line: &str) -> (r: Option<
    &'a RouteResponse,
>)
    ensures
        r matches Some(rr) ==> route_for(routes@, line@) == Some(*rr),
        r is None ==> route_for(routes@, line@) is None,
{
    let mut i: usize = 0;
    while i < routes.len()
        invariant
            i <= routes.len(),
            forall|j: int| 0 <= j < i ==> (#[trigger] routes@[j]).0@ != line@,
        decreases routes.len() - i,
    {
        if str_eq(routes[i].0.as_str(), line) {
            proof {
                lemma_route_for_prefix(routes@, line@, i as int);
                assert(routes@.skip(i as int)[0] == routes@[i as int]);
            }
            return Some(&routes[i].1);
        }
        i = i + 1;
    }
    proof {
        lemma_route_for_prefix(routes@, line@, routes@.len() as int);
    }
    None
}

/// What a well-formed live map owes its route record: the stop
/// identifiers of the first two directional routes, in order, and no
/// tracked trains.
pub open spec fn live_map_ok(lm: LiveMap, resp: RouteResponse) -> bool {
    &&& station_ids(lm.stops_0@) == route_stop_ids(resp.orderedLineRoutes@[0].naptanIds@)
    &&& station_ids(lm.stops_1@) == route_stop_ids(resp.orderedLineRoutes@[1].naptanIds@)
    &&& lm.trains_currently_at@.len() == 0
}

/// Copies a route's stop identifiers into live-map stations.
fn stations_from_ids(ids: &Vec<String>) -> (r: Vec<crate::model::Station>)
    ensures
        station_ids(r@) == route_stop_ids(ids@),
{
    let mut r: Vec<crate::model::Station> = Vec::new();
    let mut i: usize = 0;
    while i < ids.len()
        invariant
            i <= ids.len(),
            r@.len() == i,
            forall|j: int| 0 <= j < i ==> (#[trigger] r@[j]).naptan_id@ == ids@[j]@,
        decreases ids.len() - i,
    {
        r.push(crate::model::Station::new(ids[i].clone()));
        i = i + 1;
    }
    proof {
        assert(station_ids(r@) =~= route_stop_ids(ids@));
    }
    r
}

/// Builds the two-directional live map of one line from its route
/// sequence. Fewer than two directional routes is malformed data, not
/// a case to default.
pub fn build_live_map(resp: &RouteResponse) -> (r: Result<LiveMap, AggError>)
    ensures
        resp.orderedLineRoutes@.len() < 2 ==> r == Err::<LiveMap, AggError>(
            AggError::MalformedRoute,
        ),
        resp.orderedLineRoutes@.len() >= 2 ==> (r matches Ok(lm) && live_map_ok(lm, *resp)),
{
    if resp.orderedLineRoutes.len() < 2 {
        return Err(AggError::MalformedRoute);
    }
    let stops_0 = stations_from_ids(&resp.orderedLineRoutes[0].naptanIds);
    let stops_1 = stations_from_ids(&resp.orderedLineRoutes[1].naptanIds);
    Ok(LiveMap { stops_0, stops_1, trains_currently_at: Vec::new() })
}

/// The first failure that processing `lines` front to back runs into:
/// a line without a route record, or one whose record is malformed.
pub open spec fn route_error(
    lines: Seq<Seq<char>>,
    routes: Seq<(String, RouteResponse)>,
) -> Option<AggError>
    decreases lines.len(),
{
    if lines.len() == 0 {
        None
    } else {
        match route_for(routes, lines[0]) {
            None => Some(AggError::MissingRoute),
            Some(rr) => if rr.orderedLineRoutes@.len() < 2 {
                Some(AggError::MalformedRoute)
            } else {
                route_error(lines.skip(1), routes)
            },
        }
    }
}

/// Everything a successful aggregation owes its inputs.
pub open spec fn snapshot_ok(
    snap: StopTimetable,
    sp: StopPoint,
    arr: Seq<Arrival>,
    routes: Seq<(String, RouteResponse)>,
) -> bool {
    let lines = line_ids(arr);
    &&& snap.stop_point matches Some(p) && stop_eq(p, sp)
    &&& snap.arrivals@ == arr
    &&& snap.unique_lines.deep_view() == lines
    &&& snap.unique_platforms@.len() == lines.len()
    &&& forall|i: int|
        0 <= i < lines.len() ==> (#[trigger] snap.unique_platforms@[i]).0@ == lines[i]
            && snap.unique_platforms@[i].1.deep_view() == platforms_for(arr, lines[i])
    &&& snap.live_maps@.len() == lines.len()
    &&& forall|i: int|
        0 <= i < lines.len() ==> (#[trigger] snap.live_maps@[i]).0@ == lines[i] && live_map_ok(
            snap.live_maps@[i].1,
            route_for(routes, lines[i]).unwrap(),
        )
    &&& snap.station_nodes@.len() == lines.len()
    &&& forall|i: int|
        0 <= i < lines.len() ==> (#[trigger] snap.station_nodes@[i]).0@ == lines[i]
            && nodes_project(
            snap.station_nodes@[i].1.nodes_0@,
            station_ids(snap.live_maps@[i].1.stops_0@),
            sp.id@,
        )
            && nodes_project(
            snap.station_nodes@[i].1.nodes_1@,
            station_ids(snap.live_maps@[i].1.stops_1@),
            sp.id@,
        )
}

/// Aggregates one station's data into a render-ready snapshot.
///
/// `stop_point` is the resolved stop, `arrivals` the fresh arrivals
/// fetched for it, and `routes` the fetched route sequence of each
/// line, keyed by line identifier. An unresolved stop fails with
/// `NotFound` rather than flowing into dependent lookups; a line whose
/// route record is absent or malformed fails the whole aggregation,
/// and no partial snapshot comes out.
pub fn assemble_snapshot(
    stop_point: StopPoint,
    arrivals: Vec<Arrival>,
    routes: &Vec<(String, RouteResponse)>,
) -> (r: Result<StopTimetable, AggError>)
    ensures
        !stop_point.spec_resolved() ==> r == Err::<StopTimetable, AggError>(AggError::NotFound),
        stop_point.spec_resolved() ==> match route_error(line_ids(arrivals@), routes@) {
            Some(e) => r == Err::<StopTimetable, AggError>(e),
            None => r matches Ok(snap) && snapshot_ok(snap, stop_point, arrivals@, routes@),
        },
{
    if !stop_point.resolved() {
        return Err(AggError::NotFound);
    }
    let lines = unique_line_ids(&arrivals);
    let ghost lv = lines.deep_view();
    let mut unique_platforms: Vec<(String, Vec<String>)> = Vec::new();
    let mut live_maps: Vec<(String, LiveMap)> = Vec::new();
    let mut station_nodes: Vec<(String, NodeColumns)> = Vec::new();
    let mut i: usize = 0;
    proof {
        assert(lv.skip(0) =~= lv);
    }
    while i < lines.len()
        invariant
            i <= lines.len(),
            lines.deep_view() == lv,
            lv == line_ids(arrivals@),
            lv.len() == lines@.len(),
            stop_point.spec_resolved(),
            route_error(lv, routes@) == route_error(lv.skip(i as int), routes@),
            unique_platforms@.len() == i,
            forall|j: int|
                0 <= j < i ==> (#[trigger] unique_platforms@[j]).0@ == lv[j]
                    && unique_platforms@[j].1.deep_view() == platforms_for(arrivals@, lv[j]),
            live_maps@.len() == i,
            forall|j: int|
                0 <= j < i ==> (#[trigger] live_maps@[j]).0@ == lv[j] && live_map_ok(
                    live_maps@[j].1,
                    route_for(routes@, lv[j]).unwrap(),
                ),
            station_nodes@.len() == i,
            forall|j: int|
                0 <= j < i ==> (#[trigger] station_nodes@[j]).0@ == lv[j] && nodes_project(
                    station_nodes@[j].1.nodes_0@,
                    station_ids(live_maps@[j].1.stops_0@),
                    stop_point.id@,
                ) && nodes_project(
                    station_nodes@[j].1.nodes_1@,
                    station_ids(live_maps@[j].1.stops_1@),
                    stop_point.id@,
                ),
        decreases lines.len() - i,
    {
        proof {
            assert(lv.skip(i as int)[0] == lv[i as int]);
            assert(lv.skip(i as int).skip(1) =~= lv.skip(i + 1));
        }
        let line = &lines[i];
        proof {
            assert(line@ == lv[i as int]);
        }
        let plats = platforms_for_line(&arrivals, line.as_str());
        let rr = match find_route(routes, line.as_str()) {
            Some(rr) => rr,
            None => {
                return Err(AggError::MissingRoute);
            },
        };
        let lm = match build_live_map(rr) {
            Ok(lm) => lm,
            Err(e) => {
                return Err(e);
            },
        };
        let nodes_0 = project(&lm.stops_0, stop_point.id.as_str());
        let nodes_1 = project(&lm.stops_1, stop_point.id.as_str());
        unique_platforms.push((line.clone(), plats));
        live_maps.push((line.clone(), lm));
        station_nodes.push((line.clone(), NodeColumns { nodes_0, nodes_1 }));
        i = i + 1;
    }
    proof {
        assert(lv.skip(lv.len() as int).len() == 0);
    }
    Ok(
        StopTimetable {
            stop_point: Some(stop_point),
            unique_lines: lines,
            unique_platforms,
            arrivals,
            live_maps,
            station_nodes,
        },
    )
}

} // verus!
