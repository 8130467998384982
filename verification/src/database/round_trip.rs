//! Inserting a device with all that hangs from it, then deleting it, gives
//! back the tables as they were.

use vstd::prelude::*;

use crate::binary64::Binary64;
use crate::capability::{DeviceDataView, RouteConfigView};
use crate::database::device::{
    boolean_row_of, lemma_with_routes_wf, rangef64_row_of, rangeu64_row_of,
};
use crate::database::soundness::{
    lemma_insert_device_wf, lemma_insert_main_route_wf, lemma_routes_of, lemma_same_devices,
    lemma_same_routes,
};
use crate::database::{
    hangs_from_none, routes_of, AddressRow, BooleanRow, HazardRow, MainRouteRow, Metadata,
    RangeRow, RouteRow, Row, StoreView,
};

verus! {

/// Holds of the rows that hang from `owner`.
pub open spec fn hangs_from<R: Row>(owner: u16) -> spec_fn(R::V) -> bool {
    |row: R::V| R::owner(row) == owner
}

/// Holds of the rows that hang from a route of `store` whose identifier was
/// handed out after `floor`.
pub open spec fn hangs_from_later_route<R: Row>(store: StoreView, floor: u16) -> spec_fn(
    R::V,
) -> bool {
    |row: R::V| R::owner(row) > floor && store.has_route(R::owner(row))
}

/// `after` is `before` with rows added at its end, each of which is `new`.
pub open spec fn extended<V>(before: Seq<V>, after: Seq<V>, new: spec_fn(V) -> bool) -> bool {
    &&& before.len() <= after.len()
    &&& forall|i: int| 0 <= i < before.len() ==> after[i] == before[i]
    &&& forall|i: int| before.len() <= i < after.len() ==> new(#[trigger] after[i])
}

/// `after` is `before` with rows added at the end of its tables, all of
/// which hang from the device `id` or from routes of that device that were
/// inserted after `before`.
pub open spec fn grown_by_device(before: StoreView, after: StoreView, id: u16) -> bool {
    &&& before.last_route_id <= after.last_route_id
    &&& extended(before.devices, after.devices, hangs_from::<Metadata>(id))
    &&& extended(before.addresses, after.addresses, hangs_from::<AddressRow>(id))
    &&& extended(before.hazards, after.hazards, hangs_from::<HazardRow>(id))
    &&& extended(before.main_routes, after.main_routes, hangs_from::<MainRouteRow>(id))
    &&& extended(before.routes, after.routes, hangs_from::<RouteRow>(id))
    &&& forall|i: int|
        before.routes.len() <= i < after.routes.len() ==> (#[trigger] after.routes[i]).id
            > before.last_route_id
    &&& extended(
        before.booleans,
        after.booleans,
        hangs_from_later_route::<BooleanRow>(after, before.last_route_id),
    )
    &&& extended(
        before.ranges_u64,
        after.ranges_u64,
        hangs_from_later_route::<RangeRow<u64>>(after, before.last_route_id),
    )
    &&& extended(
        before.ranges_f64,
        after.ranges_f64,
        hangs_from_later_route::<RangeRow<Binary64>>(after, before.last_route_id),
    )
}

/// Where a filter keeps the first `n` rows and none after them, it gives the
/// first `n` rows.
pub proof fn lemma_filter_prefix<V>(rows: Seq<V>, n: int, keep: spec_fn(V) -> bool)
    requires
        0 <= n <= rows.len(),
        forall|i: int| 0 <= i < n ==> keep(#[trigger] rows[i]),
        forall|i: int| n <= i < rows.len() ==> !keep(#[trigger] rows[i]),
    ensures
        rows.filter(keep) == rows.take(n),
    decreases rows.len(),
{
    if rows.len() == 0 {
        rows.lemma_filter_len(keep);
        assert(rows.filter(keep) =~= rows.take(n));
    } else {
        let before = rows.drop_last();
        let last = rows.last();
        assert(rows =~= before.push(last));
        before.lemma_filter_push(last, keep);
        if n < rows.len() {
            assert(!keep(rows[rows.len() - 1]));
            assert forall|i: int| 0 <= i < n implies keep(#[trigger] before[i]) by {
                assert(before[i] == rows[i]);
            }
            assert forall|i: int| n <= i < before.len() implies !keep(#[trigger] before[i]) by {
                assert(before[i] == rows[i]);
            }
            lemma_filter_prefix(before, n, keep);
            assert(before.take(n) =~= rows.take(n));
        } else {
            assert(keep(rows[rows.len() - 1]));
            assert forall|i: int| 0 <= i < n - 1 implies keep(#[trigger] before[i]) by {
                assert(before[i] == rows[i]);
            }
            lemma_filter_prefix(before, n - 1, keep);
            assert(before.take(n - 1) =~= before);
            assert(rows.take(n) =~= rows);
        }
    }
}

/// Deleting the device takes from a table exactly the rows that were added
/// for it, where what stood in the table before hangs from other owners.
proof fn lemma_delete_undoes_extension<R: Row>(
    before: Seq<R::V>,
    after: Seq<R::V>,
    new: spec_fn(R::V) -> bool,
    owners: Seq<u16>,
)
    requires
        extended(before, after, new),
        forall|i: int| 0 <= i < before.len() ==> !owners.contains(R::owner(#[trigger] before[i])),
        forall|row: R::V| #[trigger] new(row) ==> owners.contains(R::owner(row)),
    ensures
        after.filter(hangs_from_none::<R>(owners)) == before,
{
    let keep = hangs_from_none::<R>(owners);
    let n = before.len() as int;
    assert forall|i: int| 0 <= i < n implies keep(#[trigger] after[i]) by {
        assert(after[i] == before[i]);
    }
    assert forall|i: int| n <= i < after.len() implies !keep(#[trigger] after[i]) by {
        assert(new(after[i]));
    }
    lemma_filter_prefix(after, n, keep);
    assert(after.take(n) =~= before);
}

/// Deleting the device undoes what was added for it.
pub proof fn lemma_delete_undoes_growth(before: StoreView, after: StoreView, id: u16)
    requires
        before.wf(),
        !before.has_device(id),
        grown_by_device(before, after, id),
    ensures
        after.delete_device(id).same_rows(before),
{
    let device = seq![id];
    assert(device[0] == id);
    let routes = routes_of(after.routes, id);
    lemma_routes_of(after.routes, id);
    let floor = before.last_route_id;

    assert forall|row: u16| #[trigger] before.has_device(row) implies !device.contains(row) by {}
    lemma_delete_undoes_extension::<Metadata>(
        before.devices,
        after.devices,
        hangs_from::<Metadata>(id),
        device,
    );
    lemma_delete_undoes_extension::<AddressRow>(
        before.addresses,
        after.addresses,
        hangs_from::<AddressRow>(id),
        device,
    );
    lemma_delete_undoes_extension::<HazardRow>(
        before.hazards,
        after.hazards,
        hangs_from::<HazardRow>(id),
        device,
    );
    lemma_delete_undoes_extension::<MainRouteRow>(
        before.main_routes,
        after.main_routes,
        hangs_from::<MainRouteRow>(id),
        device,
    );
    lemma_delete_undoes_extension::<RouteRow>(
        before.routes,
        after.routes,
        hangs_from::<RouteRow>(id),
        device,
    );

    // A route that was inserted after `before` is a route of the device.
    assert forall|route: u16| route > floor && #[trigger] after.has_route(route) implies routes.contains(
        route,
    ) by {
        let m = choose|m: int| 0 <= m < after.routes.len() && (#[trigger] after.routes[m]).id
            == route;
        if m < before.routes.len() {
            assert(after.routes[m] == before.routes[m]);
        }
        assert(hangs_from::<RouteRow>(id)(after.routes[m]));
    }
    // A route that `before` holds is no route of the device.
    assert forall|route: u16| #[trigger] before.has_route(route) implies !routes.contains(
        route,
    ) by {
        let k = choose|k: int| 0 <= k < before.routes.len() && (#[trigger] before.routes[k]).id
            == route;
        if routes.contains(route) {
            let m = choose|m: int|
                0 <= m < after.routes.len() && (#[trigger] after.routes[m]).id == route
                    && after.routes[m].device_id == id;
            if m < before.routes.len() {
                assert(after.routes[m] == before.routes[m]);
                assert(before.has_device(before.routes[m].device_id));
            }
        }
    }
    lemma_delete_undoes_extension::<BooleanRow>(
        before.booleans,
        after.booleans,
        hangs_from_later_route::<BooleanRow>(after, floor),
        routes,
    );
    lemma_delete_undoes_extension::<RangeRow<u64>>(
        before.ranges_u64,
        after.ranges_u64,
        hangs_from_later_route::<RangeRow<u64>>(after, floor),
        routes,
    );
    lemma_delete_undoes_extension::<RangeRow<Binary64>>(
        before.ranges_f64,
        after.ranges_f64,
        hangs_from_later_route::<RangeRow<Binary64>>(after, floor),
        routes,
    );
}

/// Inserting a route of the device, with its hazards and inputs, adds rows
/// for the device alone.
pub proof fn lemma_with_route_grows(
    before: StoreView,
    store: StoreView,
    id: u16,
    route: RouteConfigView,
)
    requires
        grown_by_device(before, store, id),
        store.last_route_id < u16::MAX,
    ensures
        grown_by_device(before, store.with_route(id, route), id),
{
    let after = store.with_route(id, route);
    let route_id = store.route_id_after(1);
    let floor = before.last_route_id;
    let inputs = route.data.inputs;
    let n = store.routes.len() as int;
    assert(after.routes[n].id == route_id);
    assert(after.has_route(route_id));
    assert forall|other: u16| store.has_route(other) implies after.has_route(other) by {
        let k = choose|k: int| 0 <= k < store.routes.len() && (#[trigger] store.routes[k]).id
            == other;
        assert(after.routes[k].id == other);
    }
    assert forall|i: int| before.booleans.len() <= i < after.booleans.len() implies hangs_from_later_route::<
        BooleanRow,
    >(after, floor)(#[trigger] after.booleans[i]) by {
        if i < store.booleans.len() {
            assert(after.booleans[i] == store.booleans[i]);
            assert(hangs_from_later_route::<BooleanRow>(store, floor)(store.booleans[i]));
        } else if i < after.booleans.len() - 1 {
            let rows = inputs.filter_map(boolean_row_of(route_id));
            let row = rows[i - store.booleans.len()];
            assert(rows.contains(row));
            inputs.lemma_filter_map_contains(boolean_row_of(route_id), row);
        }
    }
    assert forall|i: int| before.ranges_u64.len() <= i < after.ranges_u64.len() implies hangs_from_later_route::<
        RangeRow<u64>,
    >(after, floor)(#[trigger] after.ranges_u64[i]) by {
        if i < store.ranges_u64.len() {
            assert(after.ranges_u64[i] == store.ranges_u64[i]);
            assert(hangs_from_later_route::<RangeRow<u64>>(store, floor)(store.ranges_u64[i]));
        } else {
            let rows = inputs.filter_map(rangeu64_row_of(route_id));
            let row = rows[i - store.ranges_u64.len()];
            assert(rows.contains(row));
            inputs.lemma_filter_map_contains(rangeu64_row_of(route_id), row);
        }
    }
    assert forall|i: int| before.ranges_f64.len() <= i < after.ranges_f64.len() implies hangs_from_later_route::<
        RangeRow<Binary64>,
    >(after, floor)(#[trigger] after.ranges_f64[i]) by {
        if i < store.ranges_f64.len() {
            assert(after.ranges_f64[i] == store.ranges_f64[i]);
            assert(hangs_from_later_route::<RangeRow<Binary64>>(store, floor)(
                store.ranges_f64[i],
            ));
        } else {
            let rows = inputs.filter_map(rangef64_row_of(route_id));
            let row = rows[i - store.ranges_f64.len()];
            assert(rows.contains(row));
            inputs.lemma_filter_map_contains(rangef64_row_of(route_id), row);
        }
    }
    assert forall|i: int| before.hazards.len() <= i < after.hazards.len() implies hangs_from::<
        HazardRow,
    >(id)(#[trigger] after.hazards[i]) by {
        if i < store.hazards.len() {
            assert(after.hazards[i] == store.hazards[i]);
        }
    }
    assert forall|i: int| before.routes.len() <= i < after.routes.len() implies hangs_from::<
        RouteRow,
    >(id)(#[trigger] after.routes[i]) && after.routes[i].id > floor by {
        if i < store.routes.len() {
            assert(after.routes[i] == store.routes[i]);
        }
    }
}

/// Inserting routes of the device adds rows for the device alone.
pub proof fn lemma_with_routes_grows(
    before: StoreView,
    store: StoreView,
    id: u16,
    routes: Seq<RouteConfigView>,
)
    requires
        grown_by_device(before, store, id),
        store.last_route_id + routes.len() <= u16::MAX,
    ensures
        grown_by_device(before, store.with_routes(id, routes), id),
        store.with_routes(id, routes).last_route_id == store.last_route_id + routes.len(),
    decreases routes.len(),
{
    if routes.len() > 0 {
        lemma_with_routes_grows(before, store, id, routes.drop_last());
        lemma_with_route_grows(before, store.with_routes(id, routes.drop_last()), id, routes.last());
    }
}

/// A device that is inserted with its addresses and its manifest, and then
/// deleted, leaves every table as it was: no row of it stays, and no other
/// row is touched.
pub proof fn lemma_insert_then_delete_restores(
    store: StoreView,
    port: u16,
    scheme: Seq<char>,
    path: Seq<char>,
    addresses: Seq<Seq<char>>,
    data: DeviceDataView,
)
    requires
        store.wf(),
        store.last_device_id < u16::MAX,
        store.last_route_id + data.routes.len() <= u16::MAX,
    ensures
        ({
            let id = (store.last_device_id + 1) as u16;
            let inserted = store.insert_device(port, scheme, path).with_addresses(
                id,
                addresses,
            ).with_manifest(id, data);
            &&& inserted.wf()
            &&& inserted.has_device(id)
            &&& inserted.delete_device(id).same_rows(store)
        }),
{
    let id = (store.last_device_id + 1) as u16;
    let with_device = store.insert_device(port, scheme, path);
    lemma_insert_device_wf(store, port, scheme, path);
    assert(grown_by_device(store, with_device, id));

    let with_addresses = with_device.with_addresses(id, addresses);
    lemma_same_devices(with_device, with_addresses);
    lemma_same_routes(with_device, with_addresses);
    assert(with_addresses.wf()) by {
        assert forall|i: int| 0 <= i < with_addresses.addresses.len() implies with_addresses.has_device(
            (#[trigger] with_addresses.addresses[i]).device_id,
        ) by {
            if i < with_device.addresses.len() {
                assert(with_addresses.addresses[i] == with_device.addresses[i]);
            }
        }
    }
    assert(grown_by_device(store, with_addresses, id)) by {
        assert forall|i: int|
            store.addresses.len() <= i < with_addresses.addresses.len() implies hangs_from::<
            AddressRow,
        >(id)(#[trigger] with_addresses.addresses[i]) by {}
    }

    let with_main = with_addresses.insert_main_route(data.main_route, id);
    lemma_insert_main_route_wf(with_addresses, data.main_route, id);
    lemma_same_devices(with_addresses, with_main);
    lemma_same_routes(with_addresses, with_main);
    assert(grown_by_device(store, with_main, id));

    lemma_with_routes_wf(with_main, id, data.routes);
    lemma_with_routes_grows(store, with_main, id, data.routes);
    lemma_delete_undoes_growth(store, with_main.with_routes(id, data.routes), id);
}

/// Deleting a device that the store does not hold changes nothing.
pub proof fn lemma_delete_unknown_device(store: StoreView, id: u16)
    requires
        store.wf(),
        !store.has_device(id),
    ensures
        store.delete_device(id) == store,
{
    lemma_delete_undoes_growth(store, store, id);
}

} // verus!
