//! Devices: their addresses, and how the manifest of a device becomes rows
//! of the store and controls.

use vstd::prelude::*;
use vstd::string::*;

use crate::binary64::Binary64;
use crate::capability::{
    DeviceData, DeviceDataView, Input, InputType, InputView, RouteConfig, RouteConfigView,
};
use crate::database::controls::{
    checkbox_of, rangef64_input_of, rangeu64_input_of, slider_f64_of, slider_u64_of,
    StateControls, StateControlsView,
};
use crate::database::query::{lemma_deep_view_push, Store};
use crate::database::soundness::{
    lemma_insert_boolean_input_wf, lemma_insert_route_wf, lemma_same_devices, lemma_same_routes,
};
use crate::database::{
    range_row, Address, AddressRowView, BooleanRowView, HazardRow, Metadata, MetadataView,
    RangeRowView, StoreError, StoreView,
};
use crate::decimal::{decimal, port_to_string};
use crate::route_label::{clean_route, cleaned_route};

verus! {

/// The row of a boolean input: its current value is its default.
pub open spec fn boolean_row_of(route_id: u16) -> spec_fn(InputView) -> Option<BooleanRowView> {
    |input: InputView|
        match input.datatype {
            InputType::Bool(default) => Some(
                BooleanRowView { route_id, name: input.name, default, value: default },
            ),
            _ => None,
        }
}

/// The row of a range input over unsigned integers: its current value is
/// its default.
pub open spec fn rangeu64_row_of(route_id: u16) -> spec_fn(InputView) -> Option<
    RangeRowView<u64>,
> {
    |input: InputView|
        match input.datatype {
            InputType::RangeU64(range) => Some(
                range_row(route_id, rangeu64_input_of(input.name, range)),
            ),
            _ => None,
        }
}

/// The row of a range input over double-precision numbers: its current
/// value is its default.
pub open spec fn rangef64_row_of(route_id: u16) -> spec_fn(InputView) -> Option<
    RangeRowView<Binary64>,
> {
    |input: InputView|
        match input.datatype {
            InputType::RangeF64(range) => Some(
                range_row(route_id, rangef64_input_of(input.name, range)),
            ),
            _ => None,
        }
}

/// The rows that link a device to hazards, in the order of the hazards.
pub open spec fn hazard_rows(device_id: u16, hazards: Seq<u16>) -> Seq<HazardRow> {
    Seq::new(hazards.len(), |k: int| HazardRow { device_id, hazard_id: hazards[k] })
}

/// The rows of the addresses of a device, in the order of the addresses.
pub open spec fn address_rows(device_id: u16, addresses: Seq<Seq<char>>) -> Seq<AddressRowView> {
    Seq::new(addresses.len(), |k: int| AddressRowView { device_id, address: addresses[k] })
}

impl StoreView {
    /// The store after the addresses of a device were inserted.
    pub open spec fn with_addresses(self, device_id: u16, addresses: Seq<Seq<char>>) -> StoreView {
        StoreView { addresses: self.addresses + address_rows(device_id, addresses), ..self }
    }

    /// The identifier that the store gives to the `k`-th route inserted
    /// from now on, counting from 1.
    pub open spec fn route_id_after(self, k: int) -> u16 {
        (self.last_route_id + k) as u16
    }

    /// The store after the hazards of a route were linked to its device.
    pub open spec fn with_hazards(self, device_id: u16, hazards: Seq<u16>) -> StoreView {
        StoreView { hazards: self.hazards + hazard_rows(device_id, hazards), ..self }
    }

    /// The store after the inputs of a route were inserted: one row for
    /// each input, in the table of its type and under its own name.
    pub open spec fn with_inputs(self, route_id: u16, inputs: Seq<InputView>) -> StoreView {
        StoreView {
            booleans: self.booleans + inputs.filter_map(boolean_row_of(route_id)),
            ranges_u64: self.ranges_u64 + inputs.filter_map(rangeu64_row_of(route_id)),
            ranges_f64: self.ranges_f64 + inputs.filter_map(rangef64_row_of(route_id)),
            ..self
        }
    }

    /// The store after a route of a device was inserted: the route, under
    /// the next identifier; a link from the device to each of its hazards;
    /// the rows of its inputs; and one boolean row under the name of the
    /// route itself, not set, for the button of the route.
    ///
    /// The boolean row of the route comes after those of its inputs. A route
    /// without inputs has that one row and no other.
    pub open spec fn with_route(self, device_id: u16, route: RouteConfigView) -> StoreView
        recommends
            self.last_route_id < u16::MAX,
    {
        let route_id = self.route_id_after(1);
        self.insert_route(route.data.name, device_id).with_hazards(
            device_id,
            route.hazards,
        ).with_inputs(route_id, route.data.inputs).insert_boolean_input(
            route.data.name,
            false,
            false,
            route_id,
        )
    }

    /// The store after routes of a device were inserted, one after the
    /// other.
    pub open spec fn with_routes(self, device_id: u16, routes: Seq<RouteConfigView>) -> StoreView
        recommends
            self.last_route_id + routes.len() <= u16::MAX,
        decreases routes.len(),
    {
        if routes.len() == 0 {
            self
        } else {
            self.with_routes(device_id, routes.drop_last()).with_route(device_id, routes.last())
        }
    }

    /// The store after the manifest of a device was inserted: its main
    /// route, then its routes.
    pub open spec fn with_manifest(self, device_id: u16, data: DeviceDataView) -> StoreView
        recommends
            self.last_route_id + data.routes.len() <= u16::MAX,
    {
        self.insert_main_route(data.main_route, device_id).with_routes(device_id, data.routes)
    }
}

impl StateControlsView {
    /// The controls after those of routes were added, where the store gave
    /// the first of the routes the identifier after `last_route_id`, the
    /// second the one after that, and so on.
    pub open spec fn with_routes(
        self,
        last_route_id: u16,
        routes: Seq<RouteConfigView>,
    ) -> StateControlsView
        recommends
            last_route_id + routes.len() <= u16::MAX,
        decreases routes.len(),
    {
        if routes.len() == 0 {
            self
        } else {
            self.with_routes(last_route_id, routes.drop_last()).with_route(
                (last_route_id + routes.len()) as u16,
                routes.last().data,
            )
        }
    }
}

/// Inserting a route with its hazards and inputs preserves the invariant of
/// the store, hands out one identifier, and leaves the devices as they were.
pub proof fn lemma_with_route_wf(store: StoreView, device_id: u16, route: RouteConfigView)
    requires
        store.wf(),
        store.has_device(device_id),
        store.last_route_id < u16::MAX,
    ensures
        store.with_route(device_id, route).wf(),
        store.with_route(device_id, route).last_route_id == store.last_route_id + 1,
        store.with_route(device_id, route).last_device_id == store.last_device_id,
        store.with_route(device_id, route).devices == store.devices,
        store.with_route(device_id, route).has_device(device_id),
{
    let route_id = store.route_id_after(1);
    let inserted = store.insert_route(route.data.name, device_id);
    lemma_insert_route_wf(store, route.data.name, device_id);
    let linked = inserted.with_hazards(device_id, route.hazards);
    lemma_same_devices(inserted, linked);
    lemma_same_routes(inserted, linked);
    assert(linked.wf()) by {
        assert forall|i: int| 0 <= i < linked.hazards.len() implies linked.has_device(
            (#[trigger] linked.hazards[i]).device_id,
        ) by {
            if i < inserted.hazards.len() {
                assert(linked.hazards[i] == inserted.hazards[i]);
            }
        }
    }
    let filled = linked.with_inputs(route_id, route.data.inputs);
    lemma_same_devices(linked, filled);
    lemma_same_routes(linked, filled);
    let inputs = route.data.inputs;
    assert(filled.wf()) by {
        assert forall|i: int| 0 <= i < filled.booleans.len() implies filled.has_route(
            (#[trigger] filled.booleans[i]).route_id,
        ) by {
            if i < linked.booleans.len() {
                assert(filled.booleans[i] == linked.booleans[i]);
            } else {
                let rows = inputs.filter_map(boolean_row_of(route_id));
                let row = rows[i - linked.booleans.len()];
                assert(rows.contains(row));
                inputs.lemma_filter_map_contains(boolean_row_of(route_id), row);
            }
        }
        assert forall|i: int| 0 <= i < filled.ranges_u64.len() implies filled.has_route(
            (#[trigger] filled.ranges_u64[i]).route_id,
        ) by {
            if i < linked.ranges_u64.len() {
                assert(filled.ranges_u64[i] == linked.ranges_u64[i]);
            } else {
                let rows = inputs.filter_map(rangeu64_row_of(route_id));
                let row = rows[i - linked.ranges_u64.len()];
                assert(rows.contains(row));
                inputs.lemma_filter_map_contains(rangeu64_row_of(route_id), row);
            }
        }
        assert forall|i: int| 0 <= i < filled.ranges_f64.len() implies filled.has_route(
            (#[trigger] filled.ranges_f64[i]).route_id,
        ) by {
            if i < linked.ranges_f64.len() {
                assert(filled.ranges_f64[i] == linked.ranges_f64[i]);
            } else {
                let rows = inputs.filter_map(rangef64_row_of(route_id));
                let row = rows[i - linked.ranges_f64.len()];
                assert(rows.contains(row));
                inputs.lemma_filter_map_contains(rangef64_row_of(route_id), row);
            }
        }
    }
    lemma_insert_boolean_input_wf(filled, route.data.name, false, false, route_id);
    let after = store.with_route(device_id, route);
    lemma_same_devices(store, after);
}

/// Inserting routes preserves the invariant of the store, hands out one
/// identifier for each route, and leaves the devices as they were.
pub proof fn lemma_with_routes_wf(store: StoreView, device_id: u16, routes: Seq<RouteConfigView>)
    requires
        store.wf(),
        store.has_device(device_id),
        store.last_route_id + routes.len() <= u16::MAX,
    ensures
        store.with_routes(device_id, routes).wf(),
        store.with_routes(device_id, routes).last_route_id == store.last_route_id + routes.len(),
        store.with_routes(device_id, routes).last_device_id == store.last_device_id,
        store.with_routes(device_id, routes).devices == store.devices,
        store.with_routes(device_id, routes).has_device(device_id),
    decreases routes.len(),
{
    if routes.len() > 0 {
        lemma_with_routes_wf(store, device_id, routes.drop_last());
        lemma_with_route_wf(
            store.with_routes(device_id, routes.drop_last()),
            device_id,
            routes.last(),
        );
    }
}

/// What a device is asked for at one of its addresses:
/// `scheme://address:port` followed by the path.
pub open spec fn request_of(
    scheme: Seq<char>,
    address: Seq<char>,
    port: u16,
    path: Seq<char>,
) -> Seq<char> {
    scheme + "://"@ + address + ":"@ + decimal(port as nat) + path
}

/// A candidate address of a device.
#[derive(Clone, Debug, PartialEq, Eq)]
pub struct DeviceAddress {
    /// Whether the address may still answer. It is set until a request to
    /// the address has failed.
    pub recheable: bool,
    /// The address.
    pub address: String,
    /// The request that asks the device at this address for its manifest.
    pub request: String,
}

/// The mathematical value of a [`DeviceAddress`].
pub struct DeviceAddressView {
    pub recheable: bool,
    pub address: Seq<char>,
    pub request: Seq<char>,
}

impl DeepView for DeviceAddress {
    type V = DeviceAddressView;

    open spec fn deep_view(&self) -> DeviceAddressView {
        DeviceAddressView {
            recheable: self.recheable,
            address: self.address@,
            request: self.request@,
        }
    }
}

/// The candidate address that metadata and an address make: not yet tried,
/// so taken to be reachable.
pub open spec fn device_address_of(metadata: MetadataView, address: Seq<char>) -> DeviceAddressView {
    DeviceAddressView {
        recheable: true,
        address,
        request: request_of(metadata.scheme, address, metadata.port, metadata.path),
    }
}

/// The candidate address that what the text of a stored address was read as
/// makes: the candidate of the IP address, or none where the text is no IP
/// address.
pub open spec fn candidate_of(metadata: MetadataView) -> spec_fn(Option<Seq<char>>) -> Option<
    DeviceAddressView,
> {
    |address: Option<Seq<char>>|
        match address {
            Some(ip) => Some(device_address_of(metadata, ip)),
            None => None,
        }
}

/// What addresses that are IP addresses are read as: each as itself.
pub open spec fn read_as_ip(addresses: Seq<Seq<char>>) -> Seq<Option<Seq<char>>> {
    Seq::new(addresses.len(), |k: int| Some(addresses[k]))
}

impl DeviceAddress {
    /// An address that has not been tried yet.
    pub fn new(request: String, address: String) -> (device_address: Self)
        ensures
            device_address.deep_view() == (DeviceAddressView {
                recheable: true,
                address: address@,
                request: request@,
            }),
    {
        Self { recheable: true, address, request }
    }

    /// The candidate addresses of a device, from what the texts of its
    /// stored addresses were read as: an IP address, or nothing where the
    /// text is no IP address. A text that is no IP address makes no
    /// candidate; every IP address makes one, with the request that the
    /// metadata and the address make. The candidates keep the order of the
    /// addresses.
    pub fn addresses(metadata: &Metadata, addresses: Vec<Option<Address>>) -> (result: Vec<Self>)
        ensures
            result.deep_view() == addresses.deep_view().filter_map(
                candidate_of(metadata.deep_view()),
            ),
    {
        let ghost all = addresses.deep_view();
        let ghost candidate = candidate_of(metadata.deep_view());
        let port = port_to_string(metadata.port);
        let mut result: Vec<Self> = Vec::new();
        let mut i: usize = 0;
        proof {
            assert(all.take(0) =~= Seq::empty());
            assert(result.deep_view() =~= all.take(0).filter_map(candidate));
        }
        while i < addresses.len()
            invariant
                i <= addresses.len(),
                port@ == decimal(metadata.port as nat),
                all == addresses.deep_view(),
                candidate == candidate_of(metadata.deep_view()),
                result.deep_view() == all.take(i as int).filter_map(candidate),
            decreases addresses.len() - i,
        {
            proof {
                assert(all[i as int] == addresses[i as int].deep_view());
                all.lemma_filter_map_take_succ(candidate, i as int);
            }
            match &addresses[i] {
                Some(ip) => {
                    let address = ip.address.clone();
                    let mut request = metadata.scheme.clone();
                    request.append("://");
                    request.append(address.as_str());
                    request.append(":");
                    request.append(port.as_str());
                    request.append(metadata.path.as_str());
                    let ghost before = result;
                    let device_address = DeviceAddress::new(request, address);
                    result.push(device_address);
                    proof {
                        lemma_deep_view_push(before, result, device_address);
                        assert(result.deep_view() =~= all.take(i + 1).filter_map(candidate));
                    }
                },
                None => {
                    proof {
                        assert(result.deep_view() =~= all.take(i + 1).filter_map(candidate));
                    }
                },
            }
            i += 1;
        }
        proof {
            assert(all.take(addresses.len() as int) =~= all);
        }
        result
    }
}

/// Links a device to the hazards of one of its routes.
fn insert_hazards(db: &mut Store, device_id: u16, hazards: &Vec<u16>)
    requires
        old(db).wf(),
        old(db)@.has_device(device_id),
    ensures
        final(db).wf(),
        final(db)@ == old(db)@.with_hazards(device_id, hazards@),
{
    let ghost start = db@;
    let mut i: usize = 0;
    proof {
        assert(start.with_hazards(device_id, hazards@.take(0)).hazards =~= start.hazards);
    }
    while i < hazards.len()
        invariant
            i <= hazards.len(),
            db.wf(),
            db@.has_device(device_id),
            db@ == start.with_hazards(device_id, hazards@.take(i as int)),
        decreases hazards.len() - i,
    {
        let ghost before = db@;
        let result = db.insert_hazard(hazards[i], device_id);
        proof {
            assert(result is Ok);
            lemma_same_devices(before, db@);
            assert(db@.hazards =~= start.with_hazards(
                device_id,
                hazards@.take(i + 1),
            ).hazards);
        }
        i += 1;
    }
    proof {
        assert(hazards@.take(hazards.len() as int) =~= hazards@);
    }
}

/// Inserts the rows of the inputs of a route and adds their controls.
fn insert_inputs(controls: &mut StateControls, db: &mut Store, route_id: u16, inputs: &Vec<Input>)
    requires
        old(db).wf(),
        old(db)@.has_route(route_id),
    ensures
        final(db).wf(),
        final(db)@ == old(db)@.with_inputs(route_id, inputs.deep_view()),
        final(controls).deep_view() == old(controls).deep_view().with_inputs(
            route_id,
            inputs.deep_view(),
        ),
{
    let ghost start = db@;
    let ghost start_controls = controls.deep_view();
    let ghost all = inputs.deep_view();
    let mut i: usize = 0;
    proof {
        assert(all.take(0) =~= Seq::empty());
        let none = start.with_inputs(route_id, all.take(0));
        assert(none.booleans =~= start.booleans);
        assert(none.ranges_u64 =~= start.ranges_u64);
        assert(none.ranges_f64 =~= start.ranges_f64);
        let no_controls = start_controls.with_inputs(route_id, all.take(0));
        assert(no_controls.checkboxes =~= start_controls.checkboxes);
        assert(no_controls.sliders_u64 =~= start_controls.sliders_u64);
        assert(no_controls.sliders_f64 =~= start_controls.sliders_f64);
    }
    while i < inputs.len()
        invariant
            i <= inputs.len(),
            all == inputs.deep_view(),
            db.wf(),
            db@.has_route(route_id),
            db@ == start.with_inputs(route_id, all.take(i as int)),
            controls.deep_view() == start_controls.with_inputs(route_id, all.take(i as int)),
        decreases inputs.len() - i,
    {
        let ghost before = db@;
        let input = &inputs[i];
        let name = input.name.clone();
        proof {
            assert(all[i as int] == input.deep_view());
            all.lemma_filter_map_take_succ(boolean_row_of(route_id), i as int);
            all.lemma_filter_map_take_succ(rangeu64_row_of(route_id), i as int);
            all.lemma_filter_map_take_succ(rangef64_row_of(route_id), i as int);
            all.lemma_filter_map_take_succ(checkbox_of(route_id), i as int);
            all.lemma_filter_map_take_succ(slider_u64_of(route_id), i as int);
            all.lemma_filter_map_take_succ(slider_f64_of(route_id), i as int);
        }
        let result = match &input.datatype {
            InputType::RangeU64(range) => controls.init_slider_u64(db, route_id, name, range),
            InputType::RangeF64(range) => controls.init_slider_f64(db, route_id, name, range),
            InputType::Bool(default) => controls.init_checkbox(db, *default, route_id, name),
        };
        proof {
            assert(result is Ok);
            lemma_same_routes(before, db@);
            let next = start.with_inputs(route_id, all.take(i + 1));
            assert(db@.booleans =~= next.booleans);
            assert(db@.ranges_u64 =~= next.ranges_u64);
            assert(db@.ranges_f64 =~= next.ranges_f64);
            let next_controls = start_controls.with_inputs(route_id, all.take(i + 1));
            assert(controls.deep_view().checkboxes =~= next_controls.checkboxes);
            assert(controls.deep_view().sliders_u64 =~= next_controls.sliders_u64);
            assert(controls.deep_view().sliders_f64 =~= next_controls.sliders_f64);
        }
        i += 1;
    }
    proof {
        assert(all.take(inputs.len() as int) =~= all);
    }
}

/// Inserts a route of a device with its hazards and inputs, and adds the
/// controls of the route.
fn insert_route_config(
    controls: &mut StateControls,
    db: &mut Store,
    device_id: u16,
    route: &RouteConfig,
)
    requires
        old(db).wf(),
        old(db)@.has_device(device_id),
        old(db)@.last_route_id < u16::MAX,
    ensures
        final(db).wf(),
        final(db)@ == old(db)@.with_route(device_id, route.deep_view()),
        final(controls).deep_view() == old(controls).deep_view().with_route(
            old(db)@.route_id_after(1),
            route.deep_view().data,
        ),
{
    let ghost start = db@;
    let inserted = db.insert_route(route.data.name.as_str(), device_id);
    let route_id = match inserted {
        Ok(route_id) => route_id,
        Err(_) => {
            proof {
                assert(false);
            }
            return ;
        },
    };
    proof {
        lemma_insert_route_wf(start, route.data.name@, device_id);
    }
    insert_hazards(db, device_id, &route.hazards);
    proof {
        lemma_same_routes(start.insert_route(route.data.name@, device_id), db@);
    }
    insert_inputs(controls, db, route_id, &route.data.inputs);
    proof {
        lemma_same_routes(start.insert_route(route.data.name@, device_id), db@);
    }
    let label = clean_route(route.data.name.as_str());
    let result = controls.init_button(db, route.data.name.as_str(), label, route_id);
    proof {
        assert(result is Ok);
    }
}

/// A device that has answered: its metadata and addresses, its manifest and
/// its controls.
#[derive(Clone, Debug, PartialEq, Eq)]
pub struct Device {
    pub metadata: Metadata,
    pub addresses: Vec<DeviceAddress>,
    /// The manifest: hazards and routes are all here.
    pub data: DeviceData,
    pub state_controls: StateControls,
}

/// The mathematical value of a [`Device`].
pub struct DeviceView {
    pub metadata: MetadataView,
    pub addresses: Seq<DeviceAddressView>,
    pub data: DeviceDataView,
    pub state_controls: StateControlsView,
}

impl DeepView for Device {
    type V = DeviceView;

    open spec fn deep_view(&self) -> DeviceView {
        DeviceView {
            metadata: self.metadata.deep_view(),
            addresses: self.addresses.deep_view(),
            data: self.data.deep_view(),
            state_controls: self.state_controls.deep_view(),
        }
    }
}

impl Device {
    /// The device that metadata, addresses and a manifest make, without
    /// controls yet; none where no manifest was retrieved.
    pub fn new(metadata: Metadata, addresses: Vec<DeviceAddress>, data: Option<DeviceData>) -> (device:
        Option<Self>)
        ensures
            match device {
                Some(device) => data is Some && device.deep_view() == (DeviceView {
                    metadata: metadata.deep_view(),
                    addresses: addresses.deep_view(),
                    data: data->0.deep_view(),
                    state_controls: StateControlsView::empty(),
                }),
                None => data is None,
            },
    {
        match data {
            Some(data) => Some(
                Self { metadata, addresses, data, state_controls: StateControls::default() },
            ),
            None => None,
        }
    }

    /// Whether one of the addresses may still answer.
    pub fn is_recheable(&self) -> (recheable: bool)
        ensures
            recheable == exists|i: int|
                0 <= i < self.addresses.len() && (#[trigger] self.addresses[i]).recheable,
    {
        let mut i: usize = 0;
        while i < self.addresses.len()
            invariant
                i <= self.addresses.len(),
                forall|k: int| 0 <= k < i ==> !(#[trigger] self.addresses[k]).recheable,
            decreases self.addresses.len() - i,
        {
            if self.addresses[i].recheable {
                return true;
            }
            i += 1;
        }
        false
    }

    /// Derives the label of a button from the name of its route.
    pub fn clean_route(route: &str) -> (label: String)
        ensures
            label@ == cleaned_route(route@),
    {
        clean_route(route)
    }

    /// Inserts the manifest of the device into the store and builds the
    /// controls of the device: for each route, in order, the route, its
    /// hazards, the rows and controls of its inputs, and the boolean row and
    /// the button of the route itself.
    ///
    /// Fails, and changes neither the store nor the controls, when the store
    /// does not hold the device or has not enough route identifiers left
    /// for the routes of the manifest.
    pub fn insert_routes(&mut self, db: &mut Store) -> (result: Result<(), StoreError>)
        requires
            old(db).wf(),
        ensures
            final(db).wf(),
            final(self).metadata == old(self).metadata,
            final(self).addresses == old(self).addresses,
            final(self).data == old(self).data,
            match result {
                Ok(_) => {
                    &&& old(db)@.has_device(old(self).metadata.id)
                    &&& old(db)@.last_route_id + old(self).data.routes.len() <= u16::MAX
                    &&& final(db)@ == old(db)@.with_manifest(
                        old(self).metadata.id,
                        old(self).data.deep_view(),
                    )
                    &&& final(self).state_controls.deep_view() == old(
                        self,
                    ).state_controls.deep_view().with_routes(
                        old(db)@.last_route_id,
                        old(self).data.deep_view().routes,
                    )
                },
                Err(error) => {
                    &&& final(db)@ == old(db)@
                    &&& final(self).state_controls.deep_view() == old(
                        self,
                    ).state_controls.deep_view()
                    &&& if old(db)@.has_device(old(self).metadata.id) {
                        &&& error == StoreError::IdsExhausted
                        &&& old(db)@.last_route_id + old(self).data.routes.len() > u16::MAX
                    } else {
                        error == StoreError::UnknownDevice
                    }
                },
            },
    {
        let device_id = self.metadata.id;
        if !db.has_device(device_id) {
            return Err(StoreError::UnknownDevice);
        }
        if self.data.routes.len() > db.route_ids_left() as usize {
            return Err(StoreError::IdsExhausted);
        }
        let ghost start = db@;
        let ghost start_controls = self.state_controls.deep_view();
        let ghost routes = self.data.deep_view().routes;

        let inserted = db.insert_main_route(self.data.main_route.as_str(), device_id);
        let ghost with_main = db@;
        proof {
            assert(inserted is Ok);
            lemma_same_devices(start, with_main);
            assert(routes.take(0) =~= Seq::empty());
        }
        let mut i: usize = 0;
        while i < self.data.routes.len()
            invariant
                i <= self.data.routes.len(),
                device_id == self.metadata.id,
                self.metadata == old(self).metadata,
                self.addresses == old(self).addresses,
                self.data == old(self).data,
                routes == self.data.routes.deep_view(),
                with_main.wf(),
                with_main.has_device(device_id),
                with_main.last_route_id == start.last_route_id,
                with_main.last_route_id + self.data.routes.len() <= u16::MAX,
                db.wf(),
                db@ == with_main.with_routes(device_id, routes.take(i as int)),
                self.state_controls.deep_view() == start_controls.with_routes(
                    start.last_route_id,
                    routes.take(i as int),
                ),
            decreases self.data.routes.len() - i,
        {
            proof {
                lemma_with_routes_wf(with_main, device_id, routes.take(i as int));
                assert(routes.take(i + 1).drop_last() =~= routes.take(i as int));
                assert(routes.take(i + 1).last() == self.data.routes[i as int].deep_view());
            }
            insert_route_config(&mut self.state_controls, db, device_id, &self.data.routes[i]);
            i += 1;
        }
        proof {
            assert(routes.take(self.data.routes.len() as int) =~= routes);
        }
        Ok(())
    }
}

} // verus!
