use tube_timetable::geometry::project;
use tube_timetable::model::Station;

fn stations(ids: &[&str]) -> Vec<Station> {
    ids.iter().map(|s| Station::new(s.to_string())).collect()
}

#[test]
fn project_fixed_geometry() {
    let stops = stations(&["A", "B", "C", "D"]);
    let nodes = project(&stops, "B");
    assert_eq!(nodes.len(), 4);
    // Coordinates are stored in half-units; drawn values follow the
    // fixed grid 12.5, 16.0, 19.5, 23.0 ...
    let drawn_x: Vec<f64> = nodes.iter().map(|n| n.rect.x as f64 / 2.0).collect();
    assert_eq!(drawn_x, vec![12.5, 16.0, 19.5, 23.0]);
    for n in &nodes {
        assert_eq!(n.rect.y as f64 / 2.0, 50.0);
        assert_eq!(n.rect.width as f64 / 2.0, 2.0);
        assert_eq!(n.rect.height as f64 / 2.0, 10.0);
    }
}

#[test]
fn project_highlights_exactly_current_stop() {
    let stops = stations(&["A", "B", "C"]);
    let nodes = project(&stops, "B");
    let flags: Vec<bool> = nodes.iter().map(|n| n.highlighted).collect();
    assert_eq!(flags, vec![false, true, false]);
}

#[test]
fn project_highlights_repeated_stop_twice() {
    // A loop line may visit the same stop twice; both nodes light up.
    let stops = stations(&["A", "B", "A"]);
    let nodes = project(&stops, "A");
    let flags: Vec<bool> = nodes.iter().map(|n| n.highlighted).collect();
    assert_eq!(flags, vec![true, false, true]);
}

#[test]
fn project_no_match_highlights_nothing() {
    let stops = stations(&["A", "B"]);
    let nodes = project(&stops, "Z");
    assert!(nodes.iter().all(|n| !n.highlighted));
}

#[test]
fn project_preserves_order_and_length() {
    let stops = stations(&["X", "Y", "Z"]);
    let nodes = project(&stops, "Y");
    let ids: Vec<String> = nodes.iter().map(|n| n.naptan_id.clone()).collect();
    assert_eq!(ids, vec!["X".to_string(), "Y".to_string(), "Z".to_string()]);
}

#[test]
fn project_empty_sequence() {
    let stops: Vec<Station> = Vec::new();
    let nodes = project(&stops, "A");
    assert!(nodes.is_empty());
}
