use tube_timetable::cache::StopCache;
use tube_timetable::model::{Arrival, Route, RouteResponse, StopPoint};
use tube_timetable::snapshot::assemble_snapshot;

fn arrival(line: &str, platform: &str, time_to_station: i32) -> Arrival {
    Arrival {
        stationName: String::new(),
        lineId: line.to_string(),
        platformName: platform.to_string(),
        timeToStation: time_to_station,
        currentLocation: String::new(),
        expectedArrival: String::new(),
        towards: String::new(),
    }
}

fn route_response(line: &str, forward: &[&str], backward: &[&str]) -> RouteResponse {
    let route = |ids: &[&str]| Route {
        name: String::new(),
        naptanIds: ids.iter().map(|s| s.to_string()).collect(),
    };
    RouteResponse {
        lineId: line.to_string(),
        direction: "all".to_string(),
        orderedLineRoutes: vec![route(forward), route(backward)],
    }
}

fn oxford_snapshot(arrivals: Vec<Arrival>) -> tube_timetable::snapshot::StopTimetable {
    let sp = StopPoint {
        zone: "1".to_string(),
        id: "940GZZLUOXC".to_string(),
        name: "Oxford Circus".to_string(),
    };
    let routes = vec![
        (
            "victoria".to_string(),
            route_response("victoria", &["V1", "940GZZLUOXC"], &["940GZZLUOXC", "V1"]),
        ),
    ];
    assemble_snapshot(sp, arrivals, &routes).unwrap()
}

#[test]
fn cache_miss_then_hit() {
    let mut cache = StopCache::new();
    assert!(!cache.contains("Oxford Circus"));
    assert!(cache.lookup("Oxford Circus").is_none());

    let snap = oxford_snapshot(vec![arrival("victoria", "1", 60)]);
    cache.insert("Oxford Circus".to_string(), snap);

    assert!(cache.contains("Oxford Circus"));
    let cached = cache.lookup("Oxford Circus").unwrap();
    assert_eq!(cached.unique_lines, vec!["victoria".to_string()]);
}

#[test]
fn cache_keys_are_exact_strings() {
    let mut cache = StopCache::new();
    let snap = oxford_snapshot(vec![arrival("victoria", "1", 60)]);
    cache.insert("Oxford Circus".to_string(), snap);
    // No trimming or case folding: other spellings are distinct keys.
    assert!(!cache.contains("oxford circus"));
    assert!(!cache.contains("Oxford Circus "));
}

#[test]
fn refresh_replaces_only_arrivals() {
    let mut cache = StopCache::new();
    let snap = oxford_snapshot(vec![arrival("victoria", "1", 60)]);
    cache.insert("Oxford Circus".to_string(), snap);

    // A later fetch sees a platform "X" that was unknown at creation
    // time: the arrivals change, the grouping stays stale by design.
    let fresh = vec![arrival("victoria", "1", 45), arrival("victoria", "X", 20)];
    cache.refresh_arrivals("Oxford Circus", fresh);

    let cached = cache.lookup("Oxford Circus").unwrap();
    assert_eq!(cached.arrivals.len(), 2);
    assert_eq!(cached.arrivals[1].platformName, "X");
    assert_eq!(cached.arrivals[0].timeToStation, 45);

    assert_eq!(cached.unique_platforms.len(), 1);
    assert_eq!(cached.unique_platforms[0].0, "victoria");
    assert_eq!(cached.unique_platforms[0].1, vec!["1".to_string()]);
    assert!(!cached.unique_platforms[0].1.contains(&"X".to_string()));

    assert_eq!(cached.unique_lines, vec!["victoria".to_string()]);
    assert_eq!(cached.live_maps.len(), 1);
    assert_eq!(cached.station_nodes.len(), 1);
    assert_eq!(cached.stop_point.as_ref().unwrap().name, "Oxford Circus");
}

#[test]
fn refresh_leaves_other_entries_alone() {
    let mut cache = StopCache::new();
    cache.insert(
        "Oxford Circus".to_string(),
        oxford_snapshot(vec![arrival("victoria", "1", 60)]),
    );
    cache.insert(
        "Green Park".to_string(),
        oxford_snapshot(vec![arrival("victoria", "2", 30)]),
    );

    cache.refresh_arrivals("Oxford Circus", vec![arrival("victoria", "3", 10)]);

    let other = cache.lookup("Green Park").unwrap();
    assert_eq!(other.arrivals.len(), 1);
    assert_eq!(other.arrivals[0].platformName, "2");
}
