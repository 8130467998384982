//! The hazards of the devices of a pass, each named once.

use vstd::prelude::*;

use crate::capability::RouteConfigView;
use crate::database::device::{Device, DeviceView};
use crate::database::query::contains_id;
use crate::database::HazardRow;

verus! {

/// `seen`, followed by the hazards among `hazards` that neither `seen` nor
/// an earlier place of `hazards` names, in the order of `hazards`.
pub open spec fn merged(seen: Seq<u16>, hazards: Seq<u16>) -> Seq<u16>
    decreases hazards.len(),
{
    if hazards.len() == 0 {
        seen
    } else {
        let before = merged(seen, hazards.drop_last());
        if before.contains(hazards.last()) {
            before
        } else {
            before.push(hazards.last())
        }
    }
}

/// `seen`, merged with the hazards of each of the routes in turn.
pub open spec fn merged_routes(seen: Seq<u16>, routes: Seq<RouteConfigView>) -> Seq<u16>
    decreases routes.len(),
{
    if routes.len() == 0 {
        seen
    } else {
        merged(merged_routes(seen, routes.drop_last()), routes.last().hazards)
    }
}

/// `seen`, merged with the hazards of each of the devices in turn.
pub open spec fn merged_devices(seen: Seq<u16>, devices: Seq<DeviceView>) -> Seq<u16>
    decreases devices.len(),
{
    if devices.len() == 0 {
        seen
    } else {
        merged_routes(merged_devices(seen, devices.drop_last()), devices.last().data.routes)
    }
}

/// Whether one of the routes names the hazard.
pub open spec fn routes_name(routes: Seq<RouteConfigView>, hazard: u16) -> bool {
    exists|r: int| 0 <= r < routes.len() && (#[trigger] routes[r]).hazards.contains(hazard)
}

/// Whether a route of one of the devices names the hazard.
pub open spec fn devices_name(devices: Seq<DeviceView>, hazard: u16) -> bool {
    exists|d: int| 0 <= d < devices.len() && routes_name((#[trigger] devices[d]).data.routes, hazard)
}

/// The hazard identifiers of the rows, in table order.
pub open spec fn hazard_ids(rows: Seq<HazardRow>) -> Seq<u16> {
    Seq::new(rows.len(), |k: int| rows[k].hazard_id)
}

/// Merging names what was seen and what was merged, and nothing else; it
/// keeps what was seen at its place; and it names nothing twice where
/// nothing was seen twice.
pub proof fn lemma_merged(seen: Seq<u16>, hazards: Seq<u16>)
    ensures
        forall|hazard: u16|
            merged(seen, hazards).contains(hazard) <==> seen.contains(hazard) || hazards.contains(
                hazard,
            ),
        seen.is_prefix_of(merged(seen, hazards)),
        seen.no_duplicates() ==> merged(seen, hazards).no_duplicates(),
    decreases hazards.len(),
{
    let all = merged(seen, hazards);
    if hazards.len() == 0 {
        assert(seen =~= all.subrange(0, seen.len() as int));
    } else {
        let head = hazards.drop_last();
        let last = hazards.last();
        let before = merged(seen, head);
        lemma_merged(seen, head);
        assert forall|hazard: u16| all.contains(hazard) <==> seen.contains(hazard)
            || hazards.contains(hazard) by {
            if all.contains(hazard) {
                let i = choose|i: int| 0 <= i < all.len() && all[i] == hazard;
                if i < before.len() {
                    assert(before[i] == hazard);
                    assert(before.contains(hazard));
                    if head.contains(hazard) {
                        let k = choose|k: int| 0 <= k < head.len() && head[k] == hazard;
                        assert(hazards[k] == hazard);
                    }
                } else {
                    assert(hazards[hazards.len() - 1] == hazard);
                }
            }
            if seen.contains(hazard) {
                assert(before.contains(hazard));
                let i = choose|i: int| 0 <= i < before.len() && before[i] == hazard;
                assert(all[i] == hazard);
            }
            if hazards.contains(hazard) {
                let k = choose|k: int| 0 <= k < hazards.len() && hazards[k] == hazard;
                if k < head.len() {
                    assert(head[k] == hazard);
                    assert(before.contains(hazard));
                    let i = choose|i: int| 0 <= i < before.len() && before[i] == hazard;
                    assert(all[i] == hazard);
                } else if before.contains(hazard) {
                    let i = choose|i: int| 0 <= i < before.len() && before[i] == hazard;
                    assert(all[i] == hazard);
                } else {
                    assert(all[all.len() - 1] == hazard);
                }
            }
        }
        assert(seen =~= all.subrange(0, seen.len() as int)) by {
            assert(seen =~= before.subrange(0, seen.len() as int));
        }
        if seen.no_duplicates() {
            assert forall|i: int, j: int| 0 <= i < all.len() && 0 <= j < all.len() && i
                != j implies all[i] != all[j] by {
                if i < before.len() && j < before.len() {
                    assert(before[i] != before[j]);
                } else if i < before.len() {
                    assert(before.contains(before[i]));
                } else if j < before.len() {
                    assert(before.contains(before[j]));
                }
            }
        }
    }
}

/// Merging the hazards of routes names what was seen and what the routes
/// name, and nothing else, and names nothing twice where nothing was seen
/// twice.
pub proof fn lemma_merged_routes(seen: Seq<u16>, routes: Seq<RouteConfigView>)
    ensures
        forall|hazard: u16|
            merged_routes(seen, routes).contains(hazard) <==> seen.contains(hazard) || routes_name(
                routes,
                hazard,
            ),
        seen.no_duplicates() ==> merged_routes(seen, routes).no_duplicates(),
    decreases routes.len(),
{
    if routes.len() > 0 {
        let head = routes.drop_last();
        let before = merged_routes(seen, head);
        lemma_merged_routes(seen, head);
        lemma_merged(before, routes.last().hazards);
        assert forall|hazard: u16| merged_routes(seen, routes).contains(hazard) <==> seen.contains(
            hazard,
        ) || routes_name(routes, hazard) by {
            if routes_name(head, hazard) {
                let r = choose|r: int| 0 <= r < head.len() && (#[trigger] head[r]).hazards.contains(
                    hazard,
                );
                assert(routes[r] == head[r]);
            }
            if routes.last().hazards.contains(hazard) {
                assert(routes[routes.len() - 1].hazards.contains(hazard));
            }
            if routes_name(routes, hazard) {
                let r = choose|r: int|
                    0 <= r < routes.len() && (#[trigger] routes[r]).hazards.contains(hazard);
                if r < head.len() {
                    assert(head[r] == routes[r]);
                }
            }
        }
    }
}

/// Merging the hazards of devices names what was seen and what the routes
/// of the devices name, and nothing else, and names nothing twice where
/// nothing was seen twice.
pub proof fn lemma_merged_devices(seen: Seq<u16>, devices: Seq<DeviceView>)
    ensures
        forall|hazard: u16|
            merged_devices(seen, devices).contains(hazard) <==> seen.contains(hazard)
                || devices_name(devices, hazard),
        seen.no_duplicates() ==> merged_devices(seen, devices).no_duplicates(),
    decreases devices.len(),
{
    if devices.len() > 0 {
        let head = devices.drop_last();
        let before = merged_devices(seen, head);
        lemma_merged_devices(seen, head);
        lemma_merged_routes(before, devices.last().data.routes);
        assert forall|hazard: u16| merged_devices(seen, devices).contains(hazard) <==> seen.contains(
            hazard,
        ) || devices_name(devices, hazard) by {
            if devices_name(head, hazard) {
                let d = choose|d: int|
                    0 <= d < head.len() && routes_name((#[trigger] head[d]).data.routes, hazard);
                assert(devices[d] == head[d]);
            }
            if routes_name(devices.last().data.routes, hazard) {
                assert(routes_name(devices[devices.len() - 1].data.routes, hazard));
            }
            if devices_name(devices, hazard) {
                let d = choose|d: int|
                    0 <= d < devices.len() && routes_name(
                        (#[trigger] devices[d]).data.routes,
                        hazard,
                    );
                if d < head.len() {
                    assert(head[d] == devices[d]);
                }
            }
        }
    }
}

/// Adds to `seen` the hazards among `hazards` that it does not hold yet.
pub fn merge(seen: &mut Vec<u16>, hazards: &Vec<u16>)
    ensures
        final(seen)@ == merged(old(seen)@, hazards@),
{
    let mut i: usize = 0;
    proof {
        assert(hazards@.take(0) =~= Seq::empty());
    }
    while i < hazards.len()
        invariant
            i <= hazards.len(),
            seen@ == merged(old(seen)@, hazards@.take(i as int)),
        decreases hazards.len() - i,
    {
        proof {
            assert(hazards@.take(i + 1).drop_last() =~= hazards@.take(i as int));
        }
        if !contains_id(seen, hazards[i]) {
            seen.push(hazards[i]);
        }
        i += 1;
    }
    proof {
        assert(hazards@.take(hazards.len() as int) =~= hazards@);
    }
}

/// The hazards that the routes of the devices name, each once, in the order
/// in which they first occur.
pub fn all_hazards(devices: &Vec<Device>) -> (hazards: Vec<u16>)
    ensures
        hazards@ == merged_devices(Seq::empty(), devices.deep_view()),
        hazards@.no_duplicates(),
        forall|hazard: u16| hazards@.contains(hazard) <==> devices_name(devices.deep_view(), hazard),
{
    let ghost all = devices.deep_view();
    let mut hazards: Vec<u16> = Vec::new();
    let mut d: usize = 0;
    proof {
        assert(all.take(0) =~= Seq::empty());
    }
    while d < devices.len()
        invariant
            d <= devices.len(),
            all == devices.deep_view(),
            hazards@ == merged_devices(Seq::empty(), all.take(d as int)),
        decreases devices.len() - d,
    {
        let routes = &devices[d].data.routes;
        let ghost start = hazards@;
        let ghost route_views = routes.deep_view();
        let mut r: usize = 0;
        proof {
            assert(all.take(d + 1).drop_last() =~= all.take(d as int));
            assert(all.take(d + 1).last().data.routes == route_views);
            assert(route_views.take(0) =~= Seq::empty());
        }
        while r < routes.len()
            invariant
                r <= routes.len(),
                route_views == routes.deep_view(),
                hazards@ == merged_routes(start, route_views.take(r as int)),
            decreases routes.len() - r,
        {
            proof {
                assert(route_views.take(r + 1).drop_last() =~= route_views.take(r as int));
                assert(route_views.take(r + 1).last().hazards == routes[r as int].hazards@);
            }
            merge(&mut hazards, &routes[r].hazards);
            r += 1;
        }
        proof {
            assert(route_views.take(routes.len() as int) =~= route_views);
        }
        d += 1;
    }
    proof {
        assert(all.take(devices.len() as int) =~= all);
        lemma_merged_devices(Seq::empty(), all);
    }
    hazards
}

} // verus!
