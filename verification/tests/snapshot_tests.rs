use tube_timetable::model::{Arrival, Route, RouteResponse, StopPoint, StopPointResponse};
use tube_timetable::snapshot::{assemble_snapshot, build_live_map, resolve_stop, AggError};

fn arrival(line: &str, platform: &str, time_to_station: i32) -> Arrival {
    Arrival {
        stationName: String::new(),
        lineId: line.to_string(),
        platformName: platform.to_string(),
        timeToStation: time_to_station,
        currentLocation: String::new(),
        expectedArrival: String::new(),
        towards: String::new(),
    }
}

fn stop(id: &str, name: &str) -> StopPoint {
    StopPoint { zone: "1".to_string(), id: id.to_string(), name: name.to_string() }
}

fn route(ids: &[&str]) -> Route {
    Route { name: String::new(), naptanIds: ids.iter().map(|s| s.to_string()).collect() }
}

fn route_response(line: &str, forward: &[&str], backward: &[&str]) -> RouteResponse {
    RouteResponse {
        lineId: line.to_string(),
        direction: "all".to_string(),
        orderedLineRoutes: vec![route(forward), route(backward)],
    }
}

fn search_response(query: &str, matches: Vec<Option<StopPoint>>) -> StopPointResponse {
    StopPointResponse { query: query.to_string(), total: matches.len() as i32, matches }
}

#[test]
fn resolve_zero_matches_yields_empty_sentinel() {
    let resp = search_response("Zzzzz", Vec::new());
    let sp = resolve_stop(&resp);
    assert_eq!(sp.id, "");
    assert_eq!(sp.name, "");
    assert_eq!(sp.zone, "");
}

#[test]
fn resolve_single_match_returns_it() {
    let resp = search_response("Oxford", vec![Some(stop("940GZZLUOXC", "Oxford Circus"))]);
    let sp = resolve_stop(&resp);
    assert_eq!(sp.id, "940GZZLUOXC");
    assert_eq!(sp.name, "Oxford Circus");
}

#[test]
fn resolve_multiple_matches_first_wins() {
    let resp = search_response(
        "Ox",
        vec![Some(stop("FIRST", "First")), Some(stop("SECOND", "Second"))],
    );
    let sp = resolve_stop(&resp);
    assert_eq!(sp.id, "FIRST");
}

#[test]
fn resolve_absent_first_match_yields_empty_sentinel() {
    let resp = search_response("Ox", vec![None, Some(stop("SECOND", "Second"))]);
    let sp = resolve_stop(&resp);
    assert_eq!(sp.id, "");
}

#[test]
fn unresolved_station_fails_cleanly() {
    let resp = search_response("Zzzzz", Vec::new());
    let sp = resolve_stop(&resp);
    let r = assemble_snapshot(sp, Vec::new(), &Vec::new());
    assert_eq!(r.err(), Some(AggError::NotFound));
}

#[test]
fn missing_route_fails_whole_aggregation() {
    let arrivals = vec![arrival("victoria", "1", 60)];
    let routes: Vec<(String, RouteResponse)> = Vec::new();
    let r = assemble_snapshot(stop("S", "Stop"), arrivals, &routes);
    assert_eq!(r.err(), Some(AggError::MissingRoute));
}

#[test]
fn malformed_route_fails_whole_aggregation() {
    let arrivals = vec![arrival("victoria", "1", 60)];
    let one_direction = RouteResponse {
        lineId: "victoria".to_string(),
        direction: "all".to_string(),
        orderedLineRoutes: vec![route(&["A", "B"])],
    };
    let routes = vec![("victoria".to_string(), one_direction)];
    let r = assemble_snapshot(stop("S", "Stop"), arrivals, &routes);
    assert_eq!(r.err(), Some(AggError::MalformedRoute));
}

#[test]
fn build_live_map_takes_first_two_routes() {
    let resp = RouteResponse {
        lineId: "victoria".to_string(),
        direction: "all".to_string(),
        orderedLineRoutes: vec![route(&["A", "B"]), route(&["B", "A"]), route(&["C"])],
    };
    let lm = build_live_map(&resp).unwrap();
    let fwd: Vec<String> = lm.stops_0.iter().map(|s| s.naptan_id.clone()).collect();
    let bwd: Vec<String> = lm.stops_1.iter().map(|s| s.naptan_id.clone()).collect();
    assert_eq!(fwd, vec!["A".to_string(), "B".to_string()]);
    assert_eq!(bwd, vec!["B".to_string(), "A".to_string()]);
    assert!(lm.trains_currently_at.is_empty());
}

#[test]
fn build_live_map_rejects_single_route() {
    let resp = RouteResponse {
        lineId: "victoria".to_string(),
        direction: "all".to_string(),
        orderedLineRoutes: vec![route(&["A"])],
    };
    assert_eq!(build_live_map(&resp).err(), Some(AggError::MalformedRoute));
}

#[test]
fn end_to_end_aggregation() {
    let arrivals = vec![
        arrival("victoria", "1", 60),
        arrival("victoria", "2", 30),
        arrival("bakerloo", "1", 90),
    ];
    let routes = vec![
        ("victoria".to_string(), route_response("victoria", &["V1", "S", "V2"], &["V2", "S", "V1"])),
        ("bakerloo".to_string(), route_response("bakerloo", &["B1", "S"], &["S", "B1"])),
    ];
    let snap = assemble_snapshot(stop("S", "Stop"), arrivals, &routes).unwrap();

    assert_eq!(snap.unique_lines, vec!["victoria".to_string(), "bakerloo".to_string()]);

    assert_eq!(snap.unique_platforms.len(), 2);
    assert_eq!(snap.unique_platforms[0].0, "victoria");
    assert_eq!(snap.unique_platforms[0].1, vec!["1".to_string(), "2".to_string()]);
    assert_eq!(snap.unique_platforms[1].0, "bakerloo");
    assert_eq!(snap.unique_platforms[1].1, vec!["1".to_string()]);

    assert_eq!(snap.arrivals.len(), 3);
    assert_eq!(snap.stop_point.as_ref().unwrap().id, "S");

    assert_eq!(snap.live_maps.len(), 2);
    let (line, lm) = &snap.live_maps[0];
    assert_eq!(line, "victoria");
    let fwd: Vec<String> = lm.stops_0.iter().map(|s| s.naptan_id.clone()).collect();
    assert_eq!(fwd, vec!["V1".to_string(), "S".to_string(), "V2".to_string()]);

    assert_eq!(snap.station_nodes.len(), 2);
    let (line, cols) = &snap.station_nodes[0];
    assert_eq!(line, "victoria");
    assert_eq!(cols.nodes_0.len(), 3);
    assert_eq!(cols.nodes_1.len(), 3);
    let flags: Vec<bool> = cols.nodes_0.iter().map(|n| n.highlighted).collect();
    assert_eq!(flags, vec![false, true, false]);
    let xs: Vec<f64> = cols.nodes_0.iter().map(|n| n.rect.x as f64 / 2.0).collect();
    assert_eq!(xs, vec![12.5, 16.0, 19.5]);
}

#[test]
fn reaggregation_is_deterministic() {
    let make_arrivals = || {
        vec![
            arrival("victoria", "2", 60),
            arrival("victoria", "1", 30),
            arrival("bakerloo", "1", 90),
        ]
    };
    let make_routes = || {
        vec![
            ("victoria".to_string(), route_response("victoria", &["V1", "S"], &["S", "V1"])),
            ("bakerloo".to_string(), route_response("bakerloo", &["B1", "S"], &["S", "B1"])),
        ]
    };
    let s1 = assemble_snapshot(stop("S", "Stop"), make_arrivals(), &make_routes()).unwrap();
    let s2 = assemble_snapshot(stop("S", "Stop"), make_arrivals(), &make_routes()).unwrap();

    assert_eq!(s1.unique_lines, s2.unique_lines);
    assert_eq!(s1.unique_platforms, s2.unique_platforms);
    assert_eq!(s1.live_maps.len(), s2.live_maps.len());
    for i in 0..s1.live_maps.len() {
        assert_eq!(s1.live_maps[i].0, s2.live_maps[i].0);
        let a: Vec<String> = s1.live_maps[i].1.stops_0.iter().map(|s| s.naptan_id.clone()).collect();
        let b: Vec<String> = s2.live_maps[i].1.stops_0.iter().map(|s| s.naptan_id.clone()).collect();
        assert_eq!(a, b);
        let a: Vec<String> = s1.live_maps[i].1.stops_1.iter().map(|s| s.naptan_id.clone()).collect();
        let b: Vec<String> = s2.live_maps[i].1.stops_1.iter().map(|s| s.naptan_id.clone()).collect();
        assert_eq!(a, b);
    }
    assert_eq!(s1.station_nodes.len(), s2.station_nodes.len());
    for i in 0..s1.station_nodes.len() {
        assert_eq!(s1.station_nodes[i].0, s2.station_nodes[i].0);
        let a = &s1.station_nodes[i].1;
        let b = &s2.station_nodes[i].1;
        assert_eq!(a.nodes_0.len(), b.nodes_0.len());
        for k in 0..a.nodes_0.len() {
            assert_eq!(a.nodes_0[k].naptan_id, b.nodes_0[k].naptan_id);
            assert_eq!(a.nodes_0[k].rect.x, b.nodes_0[k].rect.x);
            assert_eq!(a.nodes_0[k].highlighted, b.nodes_0[k].highlighted);
        }
        assert_eq!(a.nodes_1.len(), b.nodes_1.len());
        for k in 0..a.nodes_1.len() {
            assert_eq!(a.nodes_1[k].naptan_id, b.nodes_1[k].naptan_id);
            assert_eq!(a.nodes_1[k].rect.x, b.nodes_1[k].rect.x);
            assert_eq!(a.nodes_1[k].highlighted, b.nodes_1[k].highlighted);
        }
    }
}
