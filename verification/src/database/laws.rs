//! What holds of the rows and controls that a manifest makes, and of what a
//! deletion leaves.

use vstd::prelude::*;

use crate::binary64::Binary64;
use crate::capability::{DeviceDataView, InputView, RouteConfigView};
use crate::database::controls::{
    button_of, checkbox_of, slider_f64_of, slider_u64_of, StateControlsView,
};
use crate::database::device::{boolean_row_of, rangef64_row_of, rangeu64_row_of};
use crate::database::soundness::{
    lemma_delete_device_has_device, lemma_delete_device_has_route, lemma_kept_row,
};
use crate::database::{
    hangs_from_none, routes_of, AddressRow, BooleanRow, BooleanRowView, HazardRow, MainRouteRow,
    MainRouteRowView, RangeRow, RouteRow, StoreView,
};

verus! {

/// How many inputs the routes declare, all together.
pub open spec fn total_inputs(routes: Seq<RouteConfigView>) -> nat
    decreases routes.len(),
{
    if routes.len() == 0 {
        0
    } else {
        total_inputs(routes.drop_last()) + routes.last().data.inputs.len()
    }
}

/// Every input makes one control, a checkbox or a slider, and one row, in
/// `booleans` or in one of the range tables.
pub proof fn lemma_one_row_and_control_per_input(route_id: u16, inputs: Seq<InputView>)
    ensures
        inputs.filter_map(checkbox_of(route_id)).len() + inputs.filter_map(
            slider_u64_of(route_id),
        ).len() + inputs.filter_map(slider_f64_of(route_id)).len() == inputs.len(),
        inputs.filter_map(boolean_row_of(route_id)).len() + inputs.filter_map(
            rangeu64_row_of(route_id),
        ).len() + inputs.filter_map(rangef64_row_of(route_id)).len() == inputs.len(),
        inputs.filter_map(checkbox_of(route_id)).len() == inputs.filter_map(
            boolean_row_of(route_id),
        ).len(),
        inputs.filter_map(slider_u64_of(route_id)).len() == inputs.filter_map(
            rangeu64_row_of(route_id),
        ).len(),
        inputs.filter_map(slider_f64_of(route_id)).len() == inputs.filter_map(
            rangef64_row_of(route_id),
        ).len(),
    decreases inputs.len(),
{
    if inputs.len() > 0 {
        lemma_one_row_and_control_per_input(route_id, inputs.drop_last());
    }
}

/// A route without inputs makes exactly one boolean row, under the name of
/// the route and not set, and no range row; it makes exactly one button and
/// no other control.
pub proof fn lemma_route_without_inputs(
    store: StoreView,
    controls: StateControlsView,
    device_id: u16,
    route: RouteConfigView,
)
    requires
        route.data.inputs.len() == 0,
    ensures
        store.with_route(device_id, route).booleans == store.booleans.push(
            BooleanRowView {
                route_id: store.route_id_after(1),
                name: route.data.name,
                default: false,
                value: false,
            },
        ),
        store.with_route(device_id, route).ranges_u64 == store.ranges_u64,
        store.with_route(device_id, route).ranges_f64 == store.ranges_f64,
        controls.with_route(store.route_id_after(1), route.data).buttons == controls.buttons.push(
            button_of(store.route_id_after(1), route.data.name),
        ),
        controls.with_route(store.route_id_after(1), route.data).checkboxes == controls.checkboxes,
        controls.with_route(store.route_id_after(1), route.data).sliders_u64
            == controls.sliders_u64,
        controls.with_route(store.route_id_after(1), route.data).sliders_f64
            == controls.sliders_f64,
{
    let route_id = store.route_id_after(1);
    let after = store.with_route(device_id, route);
    let shown = controls.with_route(route_id, route.data);
    assert(after.booleans =~= store.booleans.push(
        BooleanRowView { route_id, name: route.data.name, default: false, value: false },
    ));
    assert(after.ranges_u64 =~= store.ranges_u64);
    assert(after.ranges_f64 =~= store.ranges_f64);
    assert(shown.checkboxes =~= controls.checkboxes);
    assert(shown.sliders_u64 =~= controls.sliders_u64);
    assert(shown.sliders_f64 =~= controls.sliders_f64);
}

/// A route makes exactly one button, one control for each of its inputs,
/// one row for each of its inputs, and one boolean row more, which is the
/// last of its boolean rows, stands under the name of the route and is not
/// set.
pub proof fn lemma_route_with_inputs(
    store: StoreView,
    controls: StateControlsView,
    device_id: u16,
    route: RouteConfigView,
)
    ensures
        controls.with_route(store.route_id_after(1), route.data).buttons.len()
            == controls.buttons.len() + 1,
        controls.with_route(store.route_id_after(1), route.data).input_controls()
            == controls.input_controls() + route.data.inputs.len(),
        store.with_route(device_id, route).booleans.len() + store.with_route(
            device_id,
            route,
        ).ranges_u64.len() + store.with_route(device_id, route).ranges_f64.len()
            == store.booleans.len() + store.ranges_u64.len() + store.ranges_f64.len()
            + route.data.inputs.len() + 1,
        store.with_route(device_id, route).booleans.last() == (BooleanRowView {
            route_id: store.route_id_after(1),
            name: route.data.name,
            default: false,
            value: false,
        }),
{
    lemma_one_row_and_control_per_input(store.route_id_after(1), route.data.inputs);
}

/// The routes of a manifest make one button each and one control for each
/// input that they declare.
pub proof fn lemma_routes_make_controls(
    controls: StateControlsView,
    last_route_id: u16,
    routes: Seq<RouteConfigView>,
)
    ensures
        controls.with_routes(last_route_id, routes).buttons.len() == controls.buttons.len()
            + routes.len(),
        controls.with_routes(last_route_id, routes).input_controls() == controls.input_controls()
            + total_inputs(routes),
    decreases routes.len(),
{
    if routes.len() > 0 {
        lemma_routes_make_controls(controls, last_route_id, routes.drop_last());
        lemma_one_row_and_control_per_input(
            (last_route_id + routes.len()) as u16,
            routes.last().data.inputs,
        );
    }
}

/// The controls of the inputs of a route say what the rows of the inputs
/// say: the checkboxes go with the boolean rows and the sliders with the
/// range rows, one to one and in the same order, each under the same route
/// and name, each control at the value of its row, each slider with the
/// bounds and the step of its row.
pub proof fn lemma_controls_match_rows(route_id: u16, inputs: Seq<InputView>)
    ensures
        ({
            let checkboxes = inputs.filter_map(checkbox_of(route_id));
            let booleans = inputs.filter_map(boolean_row_of(route_id));
            &&& checkboxes.len() == booleans.len()
            &&& forall|i: int|
                0 <= i < checkboxes.len() ==> {
                    &&& (#[trigger] checkboxes[i]).route_id == booleans[i].route_id
                    &&& checkboxes[i].name == booleans[i].name
                    &&& checkboxes[i].value == booleans[i].value
                    &&& booleans[i].value == booleans[i].default
                    &&& booleans[i].route_id == route_id
                }
        }),
        ({
            let sliders = inputs.filter_map(slider_u64_of(route_id));
            let ranges = inputs.filter_map(rangeu64_row_of(route_id));
            &&& sliders.len() == ranges.len()
            &&& forall|i: int|
                0 <= i < sliders.len() ==> {
                    &&& (#[trigger] sliders[i]).route_id == ranges[i].route_id
                    &&& sliders[i].name == ranges[i].name
                    &&& sliders[i].min == ranges[i].min
                    &&& sliders[i].max == ranges[i].max
                    &&& sliders[i].step == ranges[i].step
                    &&& sliders[i].value == ranges[i].value
                    &&& ranges[i].value == ranges[i].default
                    &&& ranges[i].route_id == route_id
                }
        }),
        ({
            let sliders = inputs.filter_map(slider_f64_of(route_id));
            let ranges = inputs.filter_map(rangef64_row_of(route_id));
            &&& sliders.len() == ranges.len()
            &&& forall|i: int|
                0 <= i < sliders.len() ==> {
                    &&& (#[trigger] sliders[i]).route_id == ranges[i].route_id
                    &&& sliders[i].name == ranges[i].name
                    &&& sliders[i].min == ranges[i].min
                    &&& sliders[i].max == ranges[i].max
                    &&& sliders[i].step == ranges[i].step
                    &&& sliders[i].value == ranges[i].value
                    &&& ranges[i].value == ranges[i].default
                    &&& ranges[i].route_id == route_id
                }
        }),
    decreases inputs.len(),
{
    if inputs.len() > 0 {
        lemma_controls_match_rows(route_id, inputs.drop_last());
    }
}

/// The manifest of a device makes exactly one row of `main_routes`, for
/// that device and with the main route of the manifest, and one row of
/// `routes` for each of its routes.
pub proof fn lemma_manifest_makes_one_main_route(
    store: StoreView,
    device_id: u16,
    data: DeviceDataView,
)
    ensures
        store.with_manifest(device_id, data).main_routes == store.main_routes.push(
            MainRouteRowView { device_id, route: data.main_route },
        ),
        store.with_manifest(device_id, data).routes.len() == store.routes.len()
            + data.routes.len(),
{
    lemma_routes_keep_main_routes(
        store.insert_main_route(data.main_route, device_id),
        device_id,
        data.routes,
    );
}

/// Inserting routes leaves `main_routes` as it was and adds one row to
/// `routes` for each route.
proof fn lemma_routes_keep_main_routes(
    store: StoreView,
    device_id: u16,
    routes: Seq<RouteConfigView>,
)
    ensures
        store.with_routes(device_id, routes).main_routes == store.main_routes,
        store.with_routes(device_id, routes).routes.len() == store.routes.len() + routes.len(),
    decreases routes.len(),
{
    if routes.len() > 0 {
        lemma_routes_keep_main_routes(store, device_id, routes.drop_last());
    }
}

/// Whether the store holds a row that hangs from the device, or from a
/// route that `routes` names.
pub open spec fn holds_row_of(store: StoreView, device_id: u16, routes: Seq<u16>) -> bool {
    ||| store.has_device(device_id)
    ||| exists|i: int|
        0 <= i < store.addresses.len() && (#[trigger] store.addresses[i]).device_id == device_id
    ||| exists|i: int|
        0 <= i < store.hazards.len() && (#[trigger] store.hazards[i]).device_id == device_id
    ||| exists|i: int|
        0 <= i < store.main_routes.len() && (#[trigger] store.main_routes[i]).device_id
            == device_id
    ||| exists|i: int|
        0 <= i < store.routes.len() && ((#[trigger] store.routes[i]).device_id == device_id
            || routes.contains(store.routes[i].id))
    ||| exists|i: int|
        0 <= i < store.booleans.len() && routes.contains((#[trigger] store.booleans[i]).route_id)
    ||| exists|i: int|
        0 <= i < store.ranges_u64.len() && routes.contains(
            (#[trigger] store.ranges_u64[i]).route_id,
        )
    ||| exists|i: int|
        0 <= i < store.ranges_f64.len() && routes.contains(
            (#[trigger] store.ranges_f64[i]).route_id,
        )
}

/// Deleting a device leaves no row that hangs from it, directly or through
/// one of the routes that it had.
pub proof fn lemma_delete_device_leaves_no_row(store: StoreView, id: u16)
    requires
        store.wf(),
    ensures
        !holds_row_of(store.delete_device(id), id, routes_of(store.routes, id)),
{
    let after = store.delete_device(id);
    let routes = routes_of(store.routes, id);
    assert(seq![id][0] == id);
    lemma_delete_device_has_device(store, id, id);
    assert forall|i: int| 0 <= i < after.addresses.len() implies (
    #[trigger] after.addresses[i]).device_id != id by {
        lemma_kept_row(store.addresses, hangs_from_none::<AddressRow>(seq![id]), i);
    }
    assert forall|i: int| 0 <= i < after.hazards.len() implies (
    #[trigger] after.hazards[i]).device_id != id by {
        lemma_kept_row(store.hazards, hangs_from_none::<HazardRow>(seq![id]), i);
    }
    assert forall|i: int| 0 <= i < after.main_routes.len() implies (
    #[trigger] after.main_routes[i]).device_id != id by {
        lemma_kept_row(store.main_routes, hangs_from_none::<MainRouteRow>(seq![id]), i);
    }
    assert forall|i: int| 0 <= i < after.routes.len() implies (
    #[trigger] after.routes[i]).device_id != id && !routes.contains(after.routes[i].id) by {
        let k = lemma_kept_row(store.routes, hangs_from_none::<RouteRow>(seq![id]), i);
        assert(after.has_route(after.routes[i].id));
        lemma_delete_device_has_route(store, id, after.routes[i].id);
    }
    assert forall|i: int| 0 <= i < after.booleans.len() implies !routes.contains(
        (#[trigger] after.booleans[i]).route_id,
    ) by {
        lemma_kept_row(store.booleans, hangs_from_none::<BooleanRow>(routes), i);
    }
    assert forall|i: int| 0 <= i < after.ranges_u64.len() implies !routes.contains(
        (#[trigger] after.ranges_u64[i]).route_id,
    ) by {
        lemma_kept_row(store.ranges_u64, hangs_from_none::<RangeRow<u64>>(routes), i);
    }
    assert forall|i: int| 0 <= i < after.ranges_f64.len() implies !routes.contains(
        (#[trigger] after.ranges_f64[i]).route_id,
    ) by {
        lemma_kept_row(store.ranges_f64, hangs_from_none::<RangeRow<Binary64>>(routes), i);
    }
}

/// A store that was cleared holds no row in any table.
pub proof fn lemma_cleared_store_is_empty()
    ensures
        !StoreView::empty().has_rows(),
        StoreView::empty().wf(),
{
}

} // verus!
