//! The layout projector: fixed-geometry visual nodes, one per stop of
//! a line's route, for the route-position display.
//!
//! All coordinates are kept in half-units — twice the drawn value —
//! so that the fixed geometry stays in integers. The renderer divides
//! by two: a node at `x = 25` half-units is drawn at 12.5.

use vstd::prelude::*;

use crate::model::{station_ids, Station};
use crate::order::str_eq;

verus! {

/// First node's x-coordinate, in half-units (drawn: 12.5).
pub const NODE_START_X: u128 = 25;

/// Gap between consecutive nodes, in half-units (drawn: 3.5).
pub const NODE_STEP_X: u128 = 7;

/// Every node's y-coordinate, in half-units (drawn: 50.0).
pub const NODE_Y: u128 = 100;

/// Every node's width, in half-units (drawn: 2.0).
pub const NODE_WIDTH: u128 = 4;

/// Every node's height, in half-units (drawn: 10.0).
pub const NODE_HEIGHT: u128 = 20;

/// An axis-aligned rectangle in half-units.
#[derive(Debug, Clone)]
pub struct NodeRect {
    pub x: u128,
    pub y: u128,
    pub width: u128,
    pub height: u128,
}

/// One rendering unit: a stop of one line in one direction, with its
/// place on the canvas and whether it is the queried station.
#[derive(Debug, Clone)]
pub struct StationNode {
    pub naptan_id: String,
    pub rect: NodeRect,
    pub highlighted: bool,
}

/// What the projector owes the node at position `i`: the stop's
/// identifier, the fixed geometry, and the highlight exactly on the
/// current stop.
pub open spec fn node_matches(n: StationNode, id: Seq<char>, current: Seq<char>, i: int) -> bool {
    &&& n.naptan_id@ == id
    &&& n.rect.x == NODE_START_X + NODE_STEP_X * i
    &&& n.rect.y == NODE_Y
    &&& n.rect.width == NODE_WIDTH
    &&& n.rect.height == NODE_HEIGHT
    &&& n.highlighted == (id == current)
}

/// A full projected column: one node per stop identifier, in order.
pub open spec fn nodes_project(
    nodes: Seq<StationNode>,
    ids: Seq<Seq<char>>,
    current: Seq<char>,
) -> bool {
    &&& nodes.len() == ids.len()
    &&& forall|i: int| 0 <= i < nodes.len() ==> node_matches(#[trigger] nodes[i], ids[i], current, i)
}

/// Projects an ordered stop sequence onto the fixed node geometry.
/// The length and order of the input are preserved, and exactly the
/// nodes whose stop identifier equals `current_stop_id` come out
/// highlighted.
pub fn project(stops: &Vec<Station>, current_stop_id: &str) -> (r: Vec<StationNode>)
    ensures
        nodes_project(r@, station_ids(stops@), current_stop_id@),
{
    let mut r: Vec<StationNode> = Vec::new();
    let mut x: u128 = NODE_START_X;
    let mut i: usize = 0;
    while i < stops.len()
        invariant
            i <= stops.len(),
            r@.len() == i,
            x == NODE_START_X + NODE_STEP_X * i,
            forall|j: int|
                0 <= j < i ==> node_matches(
                    #[trigger] r@[j],
                    station_ids(stops@)[j],
                    current_stop_id@,
                    j,
                ),
        decreases stops.len() - i,
    {
        let highlighted = str_eq(stops[i].naptan_id.as_str(), current_stop_id);
        r.push(
            StationNode {
                naptan_id: stops[i].naptan_id.clone(),
                rect: NodeRect { x, y: NODE_Y, width: NODE_WIDTH, height: NODE_HEIGHT },
                highlighted,
            },
        );
        proof {
            assert(stops@.len() <= usize::MAX);
            assert(x + NODE_STEP_X <= NODE_START_X + NODE_STEP_X * (usize::MAX as int + 1));
        }
        x = x + NODE_STEP_X;
        i = i + 1;
    }
    r
}

} // verus!
