//! Proofs about the model of the store: what deleting keeps, and that the
//! operations preserve the invariant.

use vstd::prelude::*;

use crate::binary64::Binary64;
use crate::database::{
    hangs_from_none, routes_of, AddressRow, BooleanRow, HazardRow, MainRouteRow, Metadata,
    MetadataView, RangeInputView, RangeRow, RouteRow, RouteRowView, StoreView,
};

verus! {

/// A row that survives a filter satisfies the predicate and stood in the
/// table before. The result is a place where it stood.
pub proof fn lemma_kept_row<V>(rows: Seq<V>, keep: spec_fn(V) -> bool, i: int) -> (k: int)
    requires
        0 <= i < rows.filter(keep).len(),
    ensures
        0 <= k < rows.len(),
        rows[k] == rows.filter(keep)[i],
        keep(rows[k]),
{
    let kept = rows.filter(keep);
    rows.lemma_filter_pred(keep, i);
    assert(kept.contains(kept[i]));
    rows.lemma_filter_contains_rev(keep, kept[i]);
    choose|k: int| 0 <= k < rows.len() && rows[k] == kept[i]
}

/// A row that satisfies the predicate survives the filter. The result is a
/// place where it stands afterwards.
pub proof fn lemma_row_is_kept<V>(rows: Seq<V>, keep: spec_fn(V) -> bool, k: int) -> (i: int)
    requires
        0 <= k < rows.len(),
        keep(rows[k]),
    ensures
        0 <= i < rows.filter(keep).len(),
        rows.filter(keep)[i] == rows[k],
{
    rows.lemma_filter_contains(keep, k);
    choose|i: int| 0 <= i < rows.filter(keep).len() && rows.filter(keep)[i] == rows[k]
}

/// A filter keeps the rows in their order: where a key grows along the
/// table, it grows along the filtered table.
pub proof fn lemma_filter_keeps_order<V>(
    rows: Seq<V>,
    keep: spec_fn(V) -> bool,
    key: spec_fn(V) -> int,
)
    requires
        forall|i: int, j: int| 0 <= i < j < rows.len() ==> key(rows[i]) < key(rows[j]),
    ensures
        forall|i: int, j: int|
            0 <= i < j < rows.filter(keep).len() ==> key(rows.filter(keep)[i]) < key(
                rows.filter(keep)[j],
            ),
    decreases rows.len(),
{
    let kept = rows.filter(keep);
    if rows.len() == 0 {
        rows.lemma_filter_len(keep);
    } else {
        let before = rows.drop_last();
        let last = rows.last();
        assert(rows =~= before.push(last));
        before.lemma_filter_push(last, keep);
        assert forall|i: int, j: int| 0 <= i < j < before.len() implies key(before[i]) < key(
            before[j],
        ) by {
            assert(before[i] == rows[i] && before[j] == rows[j]);
        }
        lemma_filter_keeps_order(before, keep, key);
        assert forall|i: int, j: int| 0 <= i < j < kept.len() implies key(kept[i]) < key(
            kept[j],
        ) by {
            if j < before.filter(keep).len() {
                assert(kept[i] == before.filter(keep)[i]);
                assert(kept[j] == before.filter(keep)[j]);
            } else {
                assert(kept[j] == last);
                assert(kept[i] == before.filter(keep)[i]);
                let k = lemma_kept_row(before, keep, i);
                assert(before[k] == rows[k]);
                assert(key(rows[k]) < key(rows[rows.len() - 1]));
            }
        }
    }
}

/// `routes_of` names the identifiers of the routes of the device, and no
/// others.
pub proof fn lemma_routes_of(routes: Seq<RouteRowView>, device_id: u16)
    ensures
        forall|r: u16|
            routes_of(routes, device_id).contains(r) <==> exists|i: int|
                0 <= i < routes.len() && (#[trigger] routes[i]).id == r && routes[i].device_id
                    == device_id,
    decreases routes.len(),
{
    let ids = routes_of(routes, device_id);
    if routes.len() == 0 {
    } else {
        let before = routes.drop_last();
        let last = routes.last();
        lemma_routes_of(before, device_id);
        let ids_before = routes_of(before, device_id);
        assert forall|r: u16| ids.contains(r) <==> exists|i: int|
            0 <= i < routes.len() && (#[trigger] routes[i]).id == r && routes[i].device_id
                == device_id by {
            if ids.contains(r) {
                let k = choose|k: int| 0 <= k < ids.len() && ids[k] == r;
                if last.device_id == device_id && k == ids.len() - 1 {
                    assert(routes[routes.len() - 1].id == r);
                } else {
                    assert(ids_before[k] == r);
                    assert(ids_before.contains(r));
                    let i = choose|i: int|
                        0 <= i < before.len() && (#[trigger] before[i]).id == r
                            && before[i].device_id == device_id;
                    assert(routes[i] == before[i]);
                }
            }
            if exists|i: int|
                0 <= i < routes.len() && (#[trigger] routes[i]).id == r && routes[i].device_id
                    == device_id {
                let i = choose|i: int|
                    0 <= i < routes.len() && (#[trigger] routes[i]).id == r
                        && routes[i].device_id == device_id;
                if i == routes.len() - 1 {
                    assert(ids[ids.len() - 1] == r);
                } else {
                    assert(before[i] == routes[i]);
                    assert(ids_before.contains(r));
                    let k = choose|k: int| 0 <= k < ids_before.len() && ids_before[k] == r;
                    assert(ids[k] == r);
                }
            }
        }
    }
}

/// Two stores with the same devices hold the same devices.
pub proof fn lemma_same_devices(store: StoreView, after: StoreView)
    requires
        after.devices == store.devices,
    ensures
        forall|id: u16| after.has_device(id) == store.has_device(id),
{
    assert forall|id: u16| after.has_device(id) == store.has_device(id) by {
        if store.has_device(id) {
            let k = choose|k: int| 0 <= k < store.devices.len() && (#[trigger] store.devices[k]).id
                == id;
            assert(after.devices[k].id == id);
        }
        if after.has_device(id) {
            let k = choose|k: int| 0 <= k < after.devices.len() && (#[trigger] after.devices[k]).id
                == id;
            assert(store.devices[k].id == id);
        }
    }
}

/// Two stores with the same routes hold the same routes.
pub proof fn lemma_same_routes(store: StoreView, after: StoreView)
    requires
        after.routes == store.routes,
    ensures
        forall|id: u16| after.has_route(id) == store.has_route(id),
{
    assert forall|id: u16| after.has_route(id) == store.has_route(id) by {
        if store.has_route(id) {
            let k = choose|k: int| 0 <= k < store.routes.len() && (#[trigger] store.routes[k]).id
                == id;
            assert(after.routes[k].id == id);
        }
        if after.has_route(id) {
            let k = choose|k: int| 0 <= k < after.routes.len() && (#[trigger] after.routes[k]).id
                == id;
            assert(store.routes[k].id == id);
        }
    }
}

/// Inserting a device preserves the invariant. The store then holds the
/// devices that it held and the new one, which it did not hold.
pub proof fn lemma_insert_device_wf(
    store: StoreView,
    port: u16,
    scheme: Seq<char>,
    path: Seq<char>,
)
    requires
        store.wf(),
        store.last_device_id < u16::MAX,
    ensures
        store.insert_device(port, scheme, path).wf(),
        !store.has_device((store.last_device_id + 1) as u16),
        forall|id: u16|
            store.insert_device(port, scheme, path).has_device(id) <==> store.has_device(id) || id
                == store.last_device_id + 1,
        forall|id: u16| store.insert_device(port, scheme, path).has_route(id) == store.has_route(id),
{
    let after = store.insert_device(port, scheme, path);
    let new_id = (store.last_device_id + 1) as u16;
    let n = store.devices.len() as int;
    assert(after.devices[n].id == new_id);
    assert forall|id: u16| after.has_device(id) <==> store.has_device(id) || id == new_id by {
        if store.has_device(id) {
            let k = choose|k: int| 0 <= k < store.devices.len() && (#[trigger] store.devices[k]).id
                == id;
            assert(after.devices[k].id == id);
        }
        if after.has_device(id) && id != new_id {
            let k = choose|k: int| 0 <= k < after.devices.len() && (#[trigger] after.devices[k]).id
                == id;
            assert(store.devices[k].id == id);
        }
    }
    lemma_same_routes(store, after);
    assert forall|i: int| 0 <= i < after.devices.len() implies 1 <= (
    #[trigger] after.devices[i]).id <= after.last_device_id by {
        if i < n {
            assert(after.devices[i] == store.devices[i]);
        }
    }
    assert forall|i: int, j: int| 0 <= i < j < after.devices.len() implies (
    #[trigger] after.devices[i]).id < (#[trigger] after.devices[j]).id by {
        assert(after.devices[i] == store.devices[i]);
        if j < n {
            assert(after.devices[j] == store.devices[j]);
        }
    }
    assert(after.wf());
}

/// Inserting a route of a device that the store holds preserves the
/// invariant. The store then holds the routes that it held and the new one,
/// which it did not hold.
pub proof fn lemma_insert_route_wf(store: StoreView, route: Seq<char>, device_id: u16)
    requires
        store.wf(),
        store.has_device(device_id),
        store.last_route_id < u16::MAX,
    ensures
        store.insert_route(route, device_id).wf(),
        !store.has_route((store.last_route_id + 1) as u16),
        forall|id: u16|
            store.insert_route(route, device_id).has_route(id) <==> store.has_route(id) || id
                == store.last_route_id + 1,
        forall|id: u16| store.insert_route(route, device_id).has_device(id) == store.has_device(id),
{
    let after = store.insert_route(route, device_id);
    let new_id = (store.last_route_id + 1) as u16;
    let n = store.routes.len() as int;
    assert(after.routes[n].id == new_id);
    assert forall|id: u16| after.has_route(id) <==> store.has_route(id) || id == new_id by {
        if store.has_route(id) {
            let k = choose|k: int| 0 <= k < store.routes.len() && (#[trigger] store.routes[k]).id
                == id;
            assert(after.routes[k].id == id);
        }
        if after.has_route(id) && id != new_id {
            let k = choose|k: int| 0 <= k < after.routes.len() && (#[trigger] after.routes[k]).id
                == id;
            assert(store.routes[k].id == id);
        }
    }
    lemma_same_devices(store, after);
    assert forall|i: int| 0 <= i < after.routes.len() implies 1 <= (#[trigger] after.routes[i]).id
        <= after.last_route_id by {
        if i < n {
            assert(after.routes[i] == store.routes[i]);
        }
    }
    assert forall|i: int, j: int| 0 <= i < j < after.routes.len() implies (
    #[trigger] after.routes[i]).id < (#[trigger] after.routes[j]).id by {
        assert(after.routes[i] == store.routes[i]);
        if j < n {
            assert(after.routes[j] == store.routes[j]);
        }
    }
    assert forall|i: int| 0 <= i < after.routes.len() implies after.has_device(
        (#[trigger] after.routes[i]).device_id,
    ) by {
        if i < n {
            assert(after.routes[i] == store.routes[i]);
        }
    }
    assert(after.wf());
}

/// Inserting an address of a device that the store holds preserves the
/// invariant.
pub proof fn lemma_insert_address_wf(store: StoreView, address: Seq<char>, device_id: u16)
    requires
        store.wf(),
        store.has_device(device_id),
    ensures
        store.insert_address(address, device_id).wf(),
{
    let after = store.insert_address(address, device_id);
    lemma_same_devices(store, after);
    lemma_same_routes(store, after);
    assert forall|i: int| 0 <= i < after.addresses.len() implies after.has_device(
        (#[trigger] after.addresses[i]).device_id,
    ) by {
        if i < store.addresses.len() {
            assert(after.addresses[i] == store.addresses[i]);
        }
    }
}

/// Inserting a hazard of a device that the store holds preserves the
/// invariant.
pub proof fn lemma_insert_hazard_wf(store: StoreView, hazard_id: u16, device_id: u16)
    requires
        store.wf(),
        store.has_device(device_id),
    ensures
        store.insert_hazard(hazard_id, device_id).wf(),
{
    let after = store.insert_hazard(hazard_id, device_id);
    lemma_same_devices(store, after);
    lemma_same_routes(store, after);
    assert forall|i: int| 0 <= i < after.hazards.len() implies after.has_device(
        (#[trigger] after.hazards[i]).device_id,
    ) by {
        if i < store.hazards.len() {
            assert(after.hazards[i] == store.hazards[i]);
        }
    }
}

/// Inserting the main route of a device that the store holds preserves the
/// invariant.
pub proof fn lemma_insert_main_route_wf(store: StoreView, route: Seq<char>, device_id: u16)
    requires
        store.wf(),
        store.has_device(device_id),
    ensures
        store.insert_main_route(route, device_id).wf(),
{
    let after = store.insert_main_route(route, device_id);
    lemma_same_devices(store, after);
    lemma_same_routes(store, after);
    assert forall|i: int| 0 <= i < after.main_routes.len() implies after.has_device(
        (#[trigger] after.main_routes[i]).device_id,
    ) by {
        if i < store.main_routes.len() {
            assert(after.main_routes[i] == store.main_routes[i]);
        }
    }
}

/// Inserting a boolean input of a route that the store holds preserves the
/// invariant.
pub proof fn lemma_insert_boolean_input_wf(
    store: StoreView,
    name: Seq<char>,
    default: bool,
    value: bool,
    route_id: u16,
)
    requires
        store.wf(),
        store.has_route(route_id),
    ensures
        store.insert_boolean_input(name, default, value, route_id).wf(),
{
    let after = store.insert_boolean_input(name, default, value, route_id);
    lemma_same_devices(store, after);
    lemma_same_routes(store, after);
    assert forall|i: int| 0 <= i < after.booleans.len() implies after.has_route(
        (#[trigger] after.booleans[i]).route_id,
    ) by {
        if i < store.booleans.len() {
            assert(after.booleans[i] == store.booleans[i]);
        }
    }
}

/// Inserting a range input over unsigned integers of a route that the store
/// holds preserves the invariant.
pub proof fn lemma_insert_rangeu64_input_wf(
    store: StoreView,
    range: RangeInputView<u64>,
    route_id: u16,
)
    requires
        store.wf(),
        store.has_route(route_id),
    ensures
        store.insert_rangeu64_input(range, route_id).wf(),
{
    let after = store.insert_rangeu64_input(range, route_id);
    lemma_same_devices(store, after);
    lemma_same_routes(store, after);
    assert forall|i: int| 0 <= i < after.ranges_u64.len() implies after.has_route(
        (#[trigger] after.ranges_u64[i]).route_id,
    ) by {
        if i < store.ranges_u64.len() {
            assert(after.ranges_u64[i] == store.ranges_u64[i]);
        }
    }
}

/// Inserting a range input over double-precision numbers of a route that
/// the store holds preserves the invariant.
pub proof fn lemma_insert_rangef64_input_wf(
    store: StoreView,
    range: RangeInputView<Binary64>,
    route_id: u16,
)
    requires
        store.wf(),
        store.has_route(route_id),
    ensures
        store.insert_rangef64_input(range, route_id).wf(),
{
    let after = store.insert_rangef64_input(range, route_id);
    lemma_same_devices(store, after);
    lemma_same_routes(store, after);
    assert forall|i: int| 0 <= i < after.ranges_f64.len() implies after.has_route(
        (#[trigger] after.ranges_f64[i]).route_id,
    ) by {
        if i < store.ranges_f64.len() {
            assert(after.ranges_f64[i] == store.ranges_f64[i]);
        }
    }
}

/// Deleting a device deletes that device alone from `devices`.
pub proof fn lemma_delete_device_has_device(store: StoreView, id: u16, other: u16)
    ensures
        store.delete_device(id).has_device(other) <==> store.has_device(other) && other != id,
{
    let keep = hangs_from_none::<Metadata>(seq![id]);
    let after = store.delete_device(id);
    if after.has_device(other) {
        let i = choose|i: int| 0 <= i < after.devices.len() && (#[trigger] after.devices[i]).id
            == other;
        let k = lemma_kept_row(store.devices, keep, i);
        assert(store.devices[k].id == other);
        assert(!seq![id].contains(other));
        assert(seq![id][0] == id);
    }
    if store.has_device(other) && other != id {
        let k = choose|k: int| 0 <= k < store.devices.len() && (#[trigger] store.devices[k]).id
            == other;
        assert(keep(store.devices[k])) by {
            if seq![id].contains(other) {
                let w = choose|w: int| 0 <= w < seq![id].len() && seq![id][w] == other;
            }
        }
        let i = lemma_row_is_kept(store.devices, keep, k);
        assert(after.devices[i].id == other);
    }
}

/// Deleting a device deletes its routes, and no others, from `routes`.
pub proof fn lemma_delete_device_has_route(store: StoreView, id: u16, route_id: u16)
    requires
        store.wf(),
    ensures
        store.delete_device(id).has_route(route_id) <==> store.has_route(route_id) && !routes_of(
            store.routes,
            id,
        ).contains(route_id),
{
    let keep = hangs_from_none::<RouteRow>(seq![id]);
    let after = store.delete_device(id);
    lemma_routes_of(store.routes, id);
    assert(seq![id][0] == id);
    if after.has_route(route_id) {
        let i = choose|i: int| 0 <= i < after.routes.len() && (#[trigger] after.routes[i]).id
            == route_id;
        let k = lemma_kept_row(store.routes, keep, i);
        assert(store.routes[k].id == route_id);
        assert(store.routes[k].device_id != id);
        if routes_of(store.routes, id).contains(route_id) {
            let m = choose|m: int|
                0 <= m < store.routes.len() && (#[trigger] store.routes[m]).id == route_id
                    && store.routes[m].device_id == id;
            assert(m != k);
            if m < k {
                assert(store.routes[m].id < store.routes[k].id);
            } else {
                assert(store.routes[k].id < store.routes[m].id);
            }
        }
    }
    if store.has_route(route_id) && !routes_of(store.routes, id).contains(route_id) {
        let k = choose|k: int| 0 <= k < store.routes.len() && (#[trigger] store.routes[k]).id
            == route_id;
        assert(store.routes[k].device_id != id);
        assert(keep(store.routes[k])) by {
            if seq![id].contains(store.routes[k].device_id) {
                let w = choose|w: int|
                    0 <= w < seq![id].len() && seq![id][w] == store.routes[k].device_id;
            }
        }
        let i = lemma_row_is_kept(store.routes, keep, k);
        assert(after.routes[i].id == route_id);
    }
}

/// Deleting a device preserves the invariant of the store.
pub proof fn lemma_delete_device_wf(store: StoreView, id: u16)
    requires
        store.wf(),
    ensures
        store.delete_device(id).wf(),
{
    let after = store.delete_device(id);
    let doomed = routes_of(store.routes, id);
    let keep_device = hangs_from_none::<Metadata>(seq![id]);
    let keep_route = hangs_from_none::<RouteRow>(seq![id]);
    assert(seq![id][0] == id);

    assert forall|i: int| 0 <= i < after.devices.len() implies 1 <= (
    #[trigger] after.devices[i]).id <= after.last_device_id by {
        lemma_kept_row(store.devices, keep_device, i);
    }
    lemma_filter_keeps_order(store.devices, keep_device, |row: MetadataView| row.id as int);
    assert forall|i: int, j: int| 0 <= i < j < after.devices.len() implies (
    #[trigger] after.devices[i]).id < (#[trigger] after.devices[j]).id by {}

    assert forall|i: int| 0 <= i < after.routes.len() implies 1 <= (#[trigger] after.routes[i]).id
        <= after.last_route_id by {
        lemma_kept_row(store.routes, keep_route, i);
    }
    lemma_filter_keeps_order(store.routes, keep_route, |row: RouteRowView| row.id as int);
    assert forall|i: int, j: int| 0 <= i < j < after.routes.len() implies (
    #[trigger] after.routes[i]).id < (#[trigger] after.routes[j]).id by {}

    assert forall|i: int| 0 <= i < after.routes.len() implies after.has_device(
        (#[trigger] after.routes[i]).device_id,
    ) by {
        let k = lemma_kept_row(store.routes, keep_route, i);
        lemma_delete_device_has_device(store, id, store.routes[k].device_id);
    }
    assert forall|i: int| 0 <= i < after.addresses.len() implies after.has_device(
        (#[trigger] after.addresses[i]).device_id,
    ) by {
        let k = lemma_kept_row(store.addresses, hangs_from_none::<AddressRow>(seq![id]), i);
        lemma_delete_device_has_device(store, id, store.addresses[k].device_id);
    }
    assert forall|i: int| 0 <= i < after.hazards.len() implies after.has_device(
        (#[trigger] after.hazards[i]).device_id,
    ) by {
        let k = lemma_kept_row(store.hazards, hangs_from_none::<HazardRow>(seq![id]), i);
        lemma_delete_device_has_device(store, id, store.hazards[k].device_id);
    }
    assert forall|i: int| 0 <= i < after.main_routes.len() implies after.has_device(
        (#[trigger] after.main_routes[i]).device_id,
    ) by {
        let k = lemma_kept_row(store.main_routes, hangs_from_none::<MainRouteRow>(seq![id]), i);
        lemma_delete_device_has_device(store, id, store.main_routes[k].device_id);
    }
    assert forall|i: int| 0 <= i < after.booleans.len() implies after.has_route(
        (#[trigger] after.booleans[i]).route_id,
    ) by {
        let k = lemma_kept_row(store.booleans, hangs_from_none::<BooleanRow>(doomed), i);
        lemma_delete_device_has_route(store, id, store.booleans[k].route_id);
    }
    assert forall|i: int| 0 <= i < after.ranges_u64.len() implies after.has_route(
        (#[trigger] after.ranges_u64[i]).route_id,
    ) by {
        let k = lemma_kept_row(store.ranges_u64, hangs_from_none::<RangeRow<u64>>(doomed), i);
        lemma_delete_device_has_route(store, id, store.ranges_u64[k].route_id);
    }
    assert forall|i: int| 0 <= i < after.ranges_f64.len() implies after.has_route(
        (#[trigger] after.ranges_f64[i]).route_id,
    ) by {
        let k = lemma_kept_row(
            store.ranges_f64,
            hangs_from_none::<RangeRow<Binary64>>(doomed),
            i,
        );
        lemma_delete_device_has_route(store, id, store.ranges_f64[k].route_id);
    }
}

} // verus!
