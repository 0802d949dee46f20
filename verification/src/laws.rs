//! The properties the aggregation promises as a whole: grouping is
//! complete, platform lists are sorted and duplicate-free, and
//! re-aggregating the same fetched data reproduces the same grouping
//! and geometry.

use vstd::prelude::*;

use crate::geometry::{node_matches, StationNode};
use crate::grouping::{
    all_line_ids, all_platform_names, lemma_sorted_insert_sorted, lemma_sorted_insert_to_set,
    lemma_strictly_sorted_unique, line_ids, platform_names, platforms_for, sorted_insert,
    strictly_sorted,
};
use crate::model::{station_ids, Arrival, RouteResponse, StopPoint};
use crate::snapshot::{live_map_ok, route_for, snapshot_ok, stop_eq, StopTimetable};

verus! {

/// The platform names grouped under any of `lines`.
pub open spec fn platform_union(arr: Seq<Arrival>, lines: Seq<Seq<char>>) -> Set<Seq<char>>
    decreases lines.len(),
{
    if lines.len() == 0 {
        Set::empty()
    } else {
        platform_union(arr, lines.drop_last()).union(
            platforms_for(arr, lines.last()).to_set(),
        )
    }
}

/// The grouped platforms of one line hold exactly the platform names
/// of that line's arrivals.
pub proof fn lemma_platforms_for_set(arr: Seq<Arrival>, line: Seq<char>)
    ensures
        platforms_for(arr, line).to_set() =~= platform_names(arr, line),
    decreases arr.len(),
{
    if arr.len() == 0 {
        assert forall|p: Seq<char>| !platform_names(arr, line).contains(p) by {}
    } else {
        let prefix = arr.drop_last();
        lemma_platforms_for_set(prefix, line);
        assert(forall|i: int| 0 <= i < prefix.len() ==> #[trigger] prefix[i] == arr[i]);
        let prev = platforms_for(prefix, line);
        if arr.last().lineId@ == line {
            let p_last = arr.last().platformName@;
            lemma_sorted_insert_to_set(prev, p_last);
            assert forall|p: Seq<char>|
                platform_names(arr, line).contains(p) implies prev.to_set().insert(
                p_last,
            ).contains(p) by {
                let i = choose|i: int|
                    0 <= i < arr.len() && arr[i].lineId@ == line && arr[i].platformName@ == p;
                if i < arr.len() - 1 {
                    assert(prefix[i].lineId@ == line && prefix[i].platformName@ == p);
                    assert(platform_names(prefix, line).contains(p));
                } else {
                    assert(p == p_last);
                }
            }
            assert forall|p: Seq<char>|
                prev.to_set().insert(p_last).contains(p) implies platform_names(
                arr,
                line,
            ).contains(p) by {
                if p == p_last {
                    assert(arr[arr.len() - 1].lineId@ == line && arr[arr.len()
                        - 1].platformName@ == p);
                } else {
                    assert(platform_names(prefix, line).contains(p));
                    let i = choose|i: int|
                        0 <= i < prefix.len() && prefix[i].lineId@ == line
                            && prefix[i].platformName@ == p;
                    assert(arr[i].lineId@ == line && arr[i].platformName@ == p);
                }
            }
        } else {
            assert forall|p: Seq<char>|
                platform_names(arr, line).contains(p) implies platform_names(
                prefix,
                line,
            ).contains(p) by {
                let i = choose|i: int|
                    0 <= i < arr.len() && arr[i].lineId@ == line && arr[i].platformName@ == p;
                assert(i < arr.len() - 1);
                assert(prefix[i].lineId@ == line && prefix[i].platformName@ == p);
            }
            assert forall|p: Seq<char>|
                platform_names(prefix, line).contains(p) implies platform_names(
                arr,
                line,
            ).contains(p) by {
                let i = choose|i: int|
                    0 <= i < prefix.len() && prefix[i].lineId@ == line
                        && prefix[i].platformName@ == p;
                assert(arr[i].lineId@ == line && arr[i].platformName@ == p);
            }
            assert(platform_names(arr, line) =~= platform_names(prefix, line));
        }
    }
}

/// The distinct line list holds exactly the lines of the arrivals,
/// each once.
pub proof fn lemma_line_ids_set(arr: Seq<Arrival>)
    ensures
        line_ids(arr).to_set() =~= all_line_ids(arr),
        forall|i: int, j: int|
            0 <= i < j < line_ids(arr).len() ==> line_ids(arr)[i] != line_ids(arr)[j],
    decreases arr.len(),
{
    if arr.len() == 0 {
        assert forall|l: Seq<char>| !all_line_ids(arr).contains(l) by {}
    } else {
        let prefix = arr.drop_last();
        lemma_line_ids_set(prefix);
        assert(forall|i: int| 0 <= i < prefix.len() ==> #[trigger] prefix[i] == arr[i]);
        let prev = line_ids(prefix);
        let l_last = arr.last().lineId@;
        let ids = line_ids(arr);
        assert forall|l: Seq<char>| all_line_ids(arr).contains(l) implies ids.to_set().contains(
            l,
        ) by {
            let i = choose|i: int| 0 <= i < arr.len() && arr[i].lineId@ == l;
            if i < arr.len() - 1 {
                assert(prefix[i].lineId@ == l);
                assert(all_line_ids(prefix).contains(l));
                assert(prev.to_set().contains(l));
                let k = choose|k: int| 0 <= k < prev.len() && prev[k] == l;
                assert(ids[k] == l);
            } else {
                if prev.contains(l_last) {
                    let k = choose|k: int| 0 <= k < prev.len() && prev[k] == l_last;
                    assert(ids[k] == l);
                } else {
                    assert(ids[ids.len() - 1] == l);
                }
            }
        }
        assert forall|l: Seq<char>| ids.to_set().contains(l) implies all_line_ids(arr).contains(
            l,
        ) by {
            let k = choose|k: int| 0 <= k < ids.len() && ids[k] == l;
            if k < prev.len() {
                assert(prev[k] == l);
                assert(prev.to_set().contains(l));
                assert(all_line_ids(prefix).contains(l));
                let i = choose|i: int| 0 <= i < prefix.len() && prefix[i].lineId@ == l;
                assert(arr[i].lineId@ == l);
            } else {
                assert(l == l_last);
                assert(arr[arr.len() - 1].lineId@ == l);
            }
        }
        if !prev.contains(l_last) {
            assert forall|i: int, j: int|
                0 <= i < j < ids.len() implies ids[i] != ids[j] by {
                if j == ids.len() - 1 {
                    assert(ids[i] == prev[i]);
                }
            }
        }
    }
}

/// Membership in the union of the per-line platform groups.
pub proof fn lemma_platform_union_member(
    arr: Seq<Arrival>,
    lines: Seq<Seq<char>>,
    p: Seq<char>,
)
    ensures
        platform_union(arr, lines).contains(p) <==> exists|k: int|
            0 <= k < lines.len() && platforms_for(arr, #[trigger] lines[k]).to_set().contains(p),
    decreases lines.len(),
{
    if lines.len() > 0 {
        let prefix = lines.drop_last();
        lemma_platform_union_member(arr, prefix, p);
        assert(forall|k: int| 0 <= k < prefix.len() ==> #[trigger] prefix[k] == lines[k]);
        if platform_union(arr, lines).contains(p) {
            if platform_union(arr, prefix).contains(p) {
                let k = choose|k: int|
                    0 <= k < prefix.len() && platforms_for(
                        arr,
                        #[trigger] prefix[k],
                    ).to_set().contains(p);
                assert(platforms_for(arr, lines[k]).to_set().contains(p));
            } else {
                assert(platforms_for(arr, lines[lines.len() - 1]).to_set().contains(p));
            }
        }
        if exists|k: int|
            0 <= k < lines.len() && platforms_for(arr, #[trigger] lines[k]).to_set().contains(
                p,
            ) {
            let k = choose|k: int|
                0 <= k < lines.len() && platforms_for(arr, #[trigger] lines[k]).to_set().contains(
                    p,
                );
            if k < lines.len() - 1 {
                assert(platforms_for(arr, prefix[k]).to_set().contains(p));
            }
        }
    }
}

/// Grouping completeness: across the distinct lines of an arrivals
/// list, the grouped platform names are exactly the platform names
/// appearing in the arrivals — none dropped, none invented.
pub proof fn lemma_grouping_complete(arr: Seq<Arrival>)
    ensures
        platform_union(arr, line_ids(arr)) =~= all_platform_names(arr),
{
    let lines = line_ids(arr);
    lemma_line_ids_set(arr);
    assert forall|p: Seq<char>|
        platform_union(arr, lines).contains(p) implies all_platform_names(arr).contains(p) by {
        lemma_platform_union_member(arr, lines, p);
        let k = choose|k: int|
            0 <= k < lines.len() && platforms_for(arr, #[trigger] lines[k]).to_set().contains(p);
        lemma_platforms_for_set(arr, lines[k]);
        assert(platform_names(arr, lines[k]).contains(p));
        let i = choose|i: int|
            0 <= i < arr.len() && arr[i].lineId@ == lines[k] && arr[i].platformName@ == p;
        assert(arr[i].platformName@ == p);
    }
    assert forall|p: Seq<char>|
        all_platform_names(arr).contains(p) implies platform_union(arr, lines).contains(p) by {
        let i = choose|i: int| 0 <= i < arr.len() && arr[i].platformName@ == p;
        let line = arr[i].lineId@;
        assert(all_line_ids(arr).contains(line));
        assert(lines.to_set().contains(line));
        let k = choose|k: int| 0 <= k < lines.len() && lines[k] == line;
        lemma_platforms_for_set(arr, line);
        assert(platform_names(arr, line).contains(p));
        assert(platforms_for(arr, lines[k]).to_set().contains(p));
        lemma_platform_union_member(arr, lines, p);
    }
}

/// Sort order: each line's grouped platform list is strictly
/// ascending in lexicographic order, so it holds no duplicates, for
/// any input ordering of the arrivals.
pub proof fn lemma_platforms_sorted(arr: Seq<Arrival>, line: Seq<char>)
    ensures
        strictly_sorted(platforms_for(arr, line)),
        forall|i: int, j: int|
            0 <= i < j < platforms_for(arr, line).len() ==> platforms_for(arr, line)[i]
                != platforms_for(arr, line)[j],
    decreases arr.len(),
{
    if arr.len() == 0 {
    } else {
        lemma_platforms_sorted(arr.drop_last(), line);
        if arr.last().lineId@ == line {
            lemma_sorted_insert_sorted(
                platforms_for(arr.drop_last(), line),
                arr.last().platformName@,
            );
        }
    }
    lemma_strictly_sorted_unique(platforms_for(arr, line));
}

/// A successful snapshot's line list holds exactly the lines of its
/// arrivals, each once, and its platform groups are keyed by them.
pub proof fn lemma_snapshot_lines(
    snap: StopTimetable,
    sp: StopPoint,
    arr: Seq<Arrival>,
    routes: Seq<(String, RouteResponse)>,
)
    requires
        snapshot_ok(snap, sp, arr, routes),
    ensures
        snap.unique_lines.deep_view().to_set() =~= all_line_ids(snap.arrivals@),
        forall|i: int, j: int|
            0 <= i < j < snap.unique_lines.deep_view().len()
                ==> snap.unique_lines.deep_view()[i] != snap.unique_lines.deep_view()[j],
        forall|i: int|
            0 <= i < snap.unique_platforms@.len() ==> snap.unique_lines.deep_view().contains(
                (#[trigger] snap.unique_platforms@[i]).0@,
            ),
{
    lemma_line_ids_set(arr);
    let lines = line_ids(arr);
    assert forall|i: int|
        0 <= i < snap.unique_platforms@.len() implies snap.unique_lines.deep_view().contains(
        (#[trigger] snap.unique_platforms@[i]).0@,
    ) by {
        assert(snap.unique_platforms@[i].0@ == lines[i]);
    }
}

/// Grouping completeness, stated of a snapshot: a platform name
/// appears somewhere in the snapshot's grouped platform lists exactly
/// when it appears in the snapshot's arrivals.
pub proof fn lemma_snapshot_grouping_complete(
    snap: StopTimetable,
    sp: StopPoint,
    arr: Seq<Arrival>,
    routes: Seq<(String, RouteResponse)>,
    p: Seq<char>,
)
    requires
        snapshot_ok(snap, sp, arr, routes),
    ensures
        all_platform_names(snap.arrivals@).contains(p) <==> exists|i: int|
            0 <= i < snap.unique_platforms@.len()
                && (#[trigger] snap.unique_platforms@[i]).1.deep_view().contains(p),
{
    let lines = line_ids(arr);
    lemma_grouping_complete(arr);
    lemma_platform_union_member(arr, lines, p);
    if all_platform_names(snap.arrivals@).contains(p) {
        let k = choose|k: int|
            0 <= k < lines.len() && platforms_for(arr, #[trigger] lines[k]).to_set().contains(p);
        assert(snap.unique_platforms@[k].1.deep_view().contains(p)) by {
            assert(platforms_for(arr, lines[k]).contains(p));
        }
    }
    if exists|i: int|
        0 <= i < snap.unique_platforms@.len()
            && (#[trigger] snap.unique_platforms@[i]).1.deep_view().contains(p) {
        let i = choose|i: int|
            0 <= i < snap.unique_platforms@.len()
                && (#[trigger] snap.unique_platforms@[i]).1.deep_view().contains(p);
        assert(platforms_for(arr, lines[i]).to_set().contains(p)) by {
            assert(platforms_for(arr, lines[i]).contains(p));
        }
    }
}

/// Sort order, stated of a snapshot: every grouped platform list is
/// strictly ascending, so it holds no duplicates.
pub proof fn lemma_snapshot_platforms_sorted(
    snap: StopTimetable,
    sp: StopPoint,
    arr: Seq<Arrival>,
    routes: Seq<(String, RouteResponse)>,
)
    requires
        snapshot_ok(snap, sp, arr, routes),
    ensures
        forall|i: int|
            0 <= i < snap.unique_platforms@.len() ==> strictly_sorted(
                (#[trigger] snap.unique_platforms@[i]).1.deep_view(),
            ),
        forall|i: int, a: int, b: int|
            #![trigger snap.unique_platforms@[i].1.deep_view()[a],
                snap.unique_platforms@[i].1.deep_view()[b]]
            0 <= i < snap.unique_platforms@.len() && 0 <= a < b
                < snap.unique_platforms@[i].1.deep_view().len()
                ==> snap.unique_platforms@[i].1.deep_view()[a]
                != snap.unique_platforms@[i].1.deep_view()[b],
{
    let lines = line_ids(arr);
    assert forall|i: int|
        0 <= i < snap.unique_platforms@.len() implies strictly_sorted(
        (#[trigger] snap.unique_platforms@[i]).1.deep_view(),
    ) by {
        lemma_platforms_sorted(arr, lines[i]);
    }
    assert forall|i: int, a: int, b: int|
        #![trigger snap.unique_platforms@[i].1.deep_view()[a],
            snap.unique_platforms@[i].1.deep_view()[b]]
        0 <= i < snap.unique_platforms@.len() && 0 <= a < b
            < snap.unique_platforms@[i].1.deep_view().len()
            implies snap.unique_platforms@[i].1.deep_view()[a]
        != snap.unique_platforms@[i].1.deep_view()[b] by {
        lemma_platforms_sorted(arr, lines[i]);
    }
}

/// Two projected node columns that draw the same stops the same way.
pub open spec fn nodes_alike(a: Seq<StationNode>, b: Seq<StationNode>) -> bool {
    &&& a.len() == b.len()
    &&& forall|k: int|
        0 <= k < a.len() ==> (#[trigger] a[k]).naptan_id@ == b[k].naptan_id@ && a[k].rect.x
            == b[k].rect.x && a[k].rect.y == b[k].rect.y && a[k].rect.width == b[k].rect.width
            && a[k].rect.height == b[k].rect.height && a[k].highlighted == b[k].highlighted
}

/// Re-aggregation is deterministic: two snapshots assembled from the
/// same resolved stop, arrivals and route data — in separate cache
/// instances or runs — agree on the line list, the grouped platforms,
/// the live maps and the projected geometry.
pub proof fn lemma_aggregation_deterministic(
    s1: StopTimetable,
    s2: StopTimetable,
    sp1: StopPoint,
    sp2: StopPoint,
    arr: Seq<Arrival>,
    routes: Seq<(String, RouteResponse)>,
)
    requires
        snapshot_ok(s1, sp1, arr, routes),
        snapshot_ok(s2, sp2, arr, routes),
        stop_eq(sp1, sp2),
    ensures
        s1.unique_lines.deep_view() == s2.unique_lines.deep_view(),
        s1.unique_platforms@.len() == s2.unique_platforms@.len(),
        forall|i: int|
            0 <= i < s1.unique_platforms@.len() ==> (#[trigger] s1.unique_platforms@[i]).0@
                == s2.unique_platforms@[i].0@ && s1.unique_platforms@[i].1.deep_view()
                == s2.unique_platforms@[i].1.deep_view(),
        s1.live_maps@.len() == s2.live_maps@.len(),
        forall|i: int|
            0 <= i < s1.live_maps@.len() ==> (#[trigger] s1.live_maps@[i]).0@
                == s2.live_maps@[i].0@ && station_ids(s1.live_maps@[i].1.stops_0@) == station_ids(
                s2.live_maps@[i].1.stops_0@,
            ) && station_ids(s1.live_maps@[i].1.stops_1@) == station_ids(
                s2.live_maps@[i].1.stops_1@,
            ),
        s1.station_nodes@.len() == s2.station_nodes@.len(),
        forall|i: int|
            0 <= i < s1.station_nodes@.len() ==> (#[trigger] s1.station_nodes@[i]).0@
                == s2.station_nodes@[i].0@ && nodes_alike(
                s1.station_nodes@[i].1.nodes_0@,
                s2.station_nodes@[i].1.nodes_0@,
            ) && nodes_alike(s1.station_nodes@[i].1.nodes_1@, s2.station_nodes@[i].1.nodes_1@),
{
    let lines = line_ids(arr);
    assert forall|i: int|
        0 <= i < s1.station_nodes@.len() implies (#[trigger] s1.station_nodes@[i]).0@
        == s2.station_nodes@[i].0@ && nodes_alike(
        s1.station_nodes@[i].1.nodes_0@,
        s2.station_nodes@[i].1.nodes_0@,
    ) && nodes_alike(s1.station_nodes@[i].1.nodes_1@, s2.station_nodes@[i].1.nodes_1@) by {
        assert(live_map_ok(s1.live_maps@[i].1, route_for(routes, lines[i]).unwrap()));
        assert(live_map_ok(s2.live_maps@[i].1, route_for(routes, lines[i]).unwrap()));
        let ids0 = station_ids(s1.live_maps@[i].1.stops_0@);
        let ids1 = station_ids(s1.live_maps@[i].1.stops_1@);
        assert(station_ids(s2.live_maps@[i].1.stops_0@) == ids0);
        assert(station_ids(s2.live_maps@[i].1.stops_1@) == ids1);
        let a0 = s1.station_nodes@[i].1.nodes_0@;
        let b0 = s2.station_nodes@[i].1.nodes_0@;
        assert forall|k: int|
            0 <= k < a0.len() implies (#[trigger] a0[k]).naptan_id@ == b0[k].naptan_id@
            && a0[k].rect.x == b0[k].rect.x && a0[k].rect.y == b0[k].rect.y && a0[k].rect.width
            == b0[k].rect.width && a0[k].rect.height == b0[k].rect.height && a0[k].highlighted
            == b0[k].highlighted by {
            assert(node_matches(a0[k], ids0[k], sp1.id@, k));
            assert(node_matches(b0[k], ids0[k], sp2.id@, k));
        }
        let a1 = s1.station_nodes@[i].1.nodes_1@;
        let b1 = s2.station_nodes@[i].1.nodes_1@;
        assert forall|k: int|
            0 <= k < a1.len() implies (#[trigger] a1[k]).naptan_id@ == b1[k].naptan_id@
            && a1[k].rect.x == b1[k].rect.x && a1[k].rect.y == b1[k].rect.y && a1[k].rect.width
            == b1[k].rect.width && a1[k].rect.height == b1[k].rect.height && a1[k].highlighted
            == b1[k].highlighted by {
            assert(node_matches(a1[k], ids1[k], sp1.id@, k));
            assert(node_matches(b1[k], ids1[k], sp2.id@, k));
        }
    }
}

} // verus!
