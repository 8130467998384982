//! The store and its operations.

use vstd::prelude::*;

use crate::binary64::Binary64;
use crate::database::soundness::{
    lemma_delete_device_wf, lemma_insert_address_wf, lemma_insert_boolean_input_wf,
    lemma_insert_device_wf, lemma_insert_hazard_wf, lemma_insert_main_route_wf,
    lemma_insert_rangef64_input_wf, lemma_insert_rangeu64_input_wf, lemma_insert_route_wf,
};
use crate::hazards::{hazard_ids, lemma_merged, merged};
use crate::database::{
    addresses_of, hangs_from_none, routes_of, Address, AddressRow, BooleanRow,
    HazardRow, MainRouteRow, Metadata, RangeInputF64, RangeInputU64, RangeRow, RouteRow, Row,
    StoreError, StoreView,
};

verus! {

/// Pushing a row onto a table pushes its value onto the value of the table.
pub proof fn lemma_deep_view_push<T: DeepView>(before: Vec<T>, after: Vec<T>, row: T)
    requires
        after@ == before@.push(row),
    ensures
        after.deep_view() == before.deep_view().push(row.deep_view()),
{
    assert(after.deep_view() =~= before.deep_view().push(row.deep_view()));
}

/// Whether `ids` holds `id`.
pub fn contains_id(ids: &Vec<u16>, id: u16) -> (found: bool)
    ensures
        found == ids@.contains(id),
{
    let mut i: usize = 0;
    while i < ids.len()
        invariant
            i <= ids.len(),
            forall|k: int| 0 <= k < i ==> ids[k] != id,
        decreases ids.len() - i,
    {
        if ids[i] == id {
            return true;
        }
        i += 1;
    }
    false
}

/// The rows of a table that hang from none of `owners`, in table order.
fn without_owners<R: Row>(rows: &Vec<R>, owners: &Vec<u16>) -> (kept: Vec<R>)
    ensures
        kept.deep_view() == rows.deep_view().filter(hangs_from_none::<R>(owners@)),
{
    let ghost all = rows.deep_view();
    let ghost keep = hangs_from_none::<R>(owners@);
    let mut kept: Vec<R> = Vec::new();
    let mut i: usize = 0;
    proof {
        assert(all.take(0) =~= Seq::empty());
        all.take(0).lemma_filter_len(keep);
        assert(kept.deep_view() =~= all.take(0).filter(keep));
    }
    while i < rows.len()
        invariant
            i <= rows.len(),
            all == rows.deep_view(),
            keep == hangs_from_none::<R>(owners@),
            kept.deep_view() == all.take(i as int).filter(keep),
        decreases rows.len() - i,
    {
        let ghost before = kept;
        let owner = rows[i].owner_id();
        proof {
            assert(all.take(i + 1) =~= all.take(i as int).push(all[i as int]));
            all.take(i as int).lemma_filter_push(all[i as int], keep);
        }
        if !contains_id(owners, owner) {
            let row = rows[i].duplicate();
            kept.push(row);
            proof {
                lemma_deep_view_push(before, kept, row);
            }
        }
        i += 1;
    }
    proof {
        assert(all.take(rows.len() as int) =~= all);
    }
    kept
}

/// The relational store: the tables, each in insertion order, and the last
/// identifier handed out for a device and for a route.
#[derive(Clone, Debug, PartialEq, Eq)]
pub struct Store {
    devices: Vec<Metadata>,
    addresses: Vec<AddressRow>,
    hazards: Vec<HazardRow>,
    main_routes: Vec<MainRouteRow>,
    routes: Vec<RouteRow>,
    booleans: Vec<BooleanRow>,
    ranges_u64: Vec<RangeRow<u64>>,
    ranges_f64: Vec<RangeRow<Binary64>>,
    last_device_id: u16,
    last_route_id: u16,
}

impl View for Store {
    type V = StoreView;

    closed spec fn view(&self) -> StoreView {
        StoreView {
            devices: self.devices.deep_view(),
            addresses: self.addresses.deep_view(),
            hazards: self.hazards.deep_view(),
            main_routes: self.main_routes.deep_view(),
            routes: self.routes.deep_view(),
            booleans: self.booleans.deep_view(),
            ranges_u64: self.ranges_u64.deep_view(),
            ranges_f64: self.ranges_f64.deep_view(),
            last_device_id: self.last_device_id,
            last_route_id: self.last_route_id,
        }
    }
}

impl Store {
    /// The invariant of the store: that of its value.
    pub open spec fn wf(&self) -> bool {
        self@.wf()
    }

    /// An empty store.
    pub fn new() -> (store: Self)
        ensures
            store@ == StoreView::empty(),
            store.wf(),
    {
        let store = Store {
            devices: Vec::new(),
            addresses: Vec::new(),
            hazards: Vec::new(),
            main_routes: Vec::new(),
            routes: Vec::new(),
            booleans: Vec::new(),
            ranges_u64: Vec::new(),
            ranges_f64: Vec::new(),
            last_device_id: 0,
            last_route_id: 0,
        };
        proof {
            let empty = StoreView::empty();
            assert(store@.devices =~= empty.devices);
            assert(store@.addresses =~= empty.addresses);
            assert(store@.hazards =~= empty.hazards);
            assert(store@.main_routes =~= empty.main_routes);
            assert(store@.routes =~= empty.routes);
            assert(store@.booleans =~= empty.booleans);
            assert(store@.ranges_u64 =~= empty.ranges_u64);
            assert(store@.ranges_f64 =~= empty.ranges_f64);
        }
        store
    }

    /// The rows of `devices`.
    pub fn devices(&self) -> (rows: &Vec<Metadata>)
        ensures
            rows.deep_view() == self@.devices,
    {
        &self.devices
    }

    /// The rows of `addresses`.
    pub fn addresses(&self) -> (rows: &Vec<AddressRow>)
        ensures
            rows.deep_view() == self@.addresses,
    {
        &self.addresses
    }

    /// The rows of `hazards`.
    pub fn hazards(&self) -> (rows: &Vec<HazardRow>)
        ensures
            rows.deep_view() == self@.hazards,
    {
        &self.hazards
    }

    /// The rows of `main_routes`.
    pub fn main_routes(&self) -> (rows: &Vec<MainRouteRow>)
        ensures
            rows.deep_view() == self@.main_routes,
    {
        &self.main_routes
    }

    /// The rows of `routes`.
    pub fn routes(&self) -> (rows: &Vec<RouteRow>)
        ensures
            rows.deep_view() == self@.routes,
    {
        &self.routes
    }

    /// The rows of `booleans`.
    pub fn booleans(&self) -> (rows: &Vec<BooleanRow>)
        ensures
            rows.deep_view() == self@.booleans,
    {
        &self.booleans
    }

    /// The rows of `rangesu64`.
    pub fn ranges_u64(&self) -> (rows: &Vec<RangeRow<u64>>)
        ensures
            rows.deep_view() == self@.ranges_u64,
    {
        &self.ranges_u64
    }

    /// The rows of `rangesf64`.
    pub fn ranges_f64(&self) -> (rows: &Vec<RangeRow<Binary64>>)
        ensures
            rows.deep_view() == self@.ranges_f64,
    {
        &self.ranges_f64
    }

    /// Whether the store holds a device with this identifier.
    pub fn has_device(&self, id: u16) -> (found: bool)
        ensures
            found == self@.has_device(id),
    {
        let mut i: usize = 0;
        while i < self.devices.len()
            invariant
                i <= self.devices.len(),
                forall|k: int| 0 <= k < i ==> (#[trigger] self@.devices[k]).id != id,
            decreases self.devices.len() - i,
        {
            if self.devices[i].id == id {
                assert(self@.devices[i as int].id == id);
                return true;
            }
            i += 1;
        }
        false
    }

    /// Whether the store holds a route with this identifier.
    pub fn has_route(&self, id: u16) -> (found: bool)
        ensures
            found == self@.has_route(id),
    {
        let mut i: usize = 0;
        while i < self.routes.len()
            invariant
                i <= self.routes.len(),
                forall|k: int| 0 <= k < i ==> (#[trigger] self@.routes[k]).id != id,
            decreases self.routes.len() - i,
        {
            if self.routes[i].id == id {
                assert(self@.routes[i as int].id == id);
                return true;
            }
            i += 1;
        }
        false
    }

    /// How many routes the store can still take before its identifiers run
    /// out.
    pub fn route_ids_left(&self) -> (left: u16)
        ensures
            left == u16::MAX - self@.last_route_id,
    {
        u16::MAX - self.last_route_id
    }

    /// How many devices the store can still take before its identifiers
    /// run out.
    pub fn device_ids_left(&self) -> (left: u16)
        ensures
            left == u16::MAX - self@.last_device_id,
    {
        u16::MAX - self.last_device_id
    }

    /// Whether the store holds no device.
    pub fn is_db_empty(&self) -> (empty: bool)
        ensures
            empty == (self@.devices.len() == 0),
    {
        self.devices.len() == 0
    }

    /// Inserts a device and returns the identifier that the store gave it:
    /// the one after the last. Fails, and changes nothing, when every
    /// identifier has been handed out.
    pub fn insert_device(&mut self, port: u16, scheme: &str, path: &str) -> (result: Result<
        u16,
        StoreError,
    >)
        requires
            old(self).wf(),
        ensures
            final(self).wf(),
            match result {
                Ok(id) => {
                    &&& old(self)@.last_device_id < u16::MAX
                    &&& id == old(self)@.last_device_id + 1
                    &&& final(self)@ == old(self)@.insert_device(port, scheme@, path@)
                },
                Err(error) => {
                    &&& error == StoreError::IdsExhausted
                    &&& old(self)@.last_device_id == u16::MAX
                    &&& final(self)@ == old(self)@
                },
            },
    {
        if self.last_device_id == u16::MAX {
            return Err(StoreError::IdsExhausted);
        }
        let id = self.last_device_id + 1;
        let row = Metadata { id, port, scheme: scheme.to_owned(), path: path.to_owned() };
        let ghost before = self.devices;
        self.devices.push(row);
        self.last_device_id = id;
        proof {
            lemma_deep_view_push(before, self.devices, row);
            lemma_insert_device_wf(old(self)@, port, scheme@, path@);
        }
        Ok(id)
    }

    /// Inserts an address of a device. Fails, and changes nothing, when the
    /// store does not hold the device.
    pub fn insert_address(&mut self, address: String, device_id: u16) -> (result: Result<
        (),
        StoreError,
    >)
        requires
            old(self).wf(),
        ensures
            final(self).wf(),
            match result {
                Ok(_) => {
                    &&& old(self)@.has_device(device_id)
                    &&& final(self)@ == old(self)@.insert_address(address@, device_id)
                },
                Err(error) => {
                    &&& error == StoreError::UnknownDevice
                    &&& !old(self)@.has_device(device_id)
                    &&& final(self)@ == old(self)@
                },
            },
    {
        if !self.has_device(device_id) {
            return Err(StoreError::UnknownDevice);
        }
        let row = AddressRow { device_id, address };
        let ghost before = self.addresses;
        self.addresses.push(row);
        proof {
            lemma_deep_view_push(before, self.addresses, row);
            lemma_insert_address_wf(old(self)@, address@, device_id);
        }
        Ok(())
    }

    /// Inserts a hazard of a device. Fails, and changes nothing, when the
    /// store does not hold the device.
    pub fn insert_hazard(&mut self, hazard_id: u16, device_id: u16) -> (result: Result<
        (),
        StoreError,
    >)
        requires
            old(self).wf(),
        ensures
            final(self).wf(),
            match result {
                Ok(_) => {
                    &&& old(self)@.has_device(device_id)
                    &&& final(self)@ == old(self)@.insert_hazard(hazard_id, device_id)
                },
                Err(error) => {
                    &&& error == StoreError::UnknownDevice
                    &&& !old(self)@.has_device(device_id)
                    &&& final(self)@ == old(self)@
                },
            },
    {
        if !self.has_device(device_id) {
            return Err(StoreError::UnknownDevice);
        }
        let row = HazardRow { device_id, hazard_id };
        let ghost before = self.hazards;
        self.hazards.push(row);
        proof {
            lemma_deep_view_push(before, self.hazards, row);
            lemma_insert_hazard_wf(old(self)@, hazard_id, device_id);
        }
        Ok(())
    }

    /// Inserts the main route of a device. Fails, and changes nothing, when
    /// the store does not hold the device.
    pub fn insert_main_route(&mut self, main_route: &str, device_id: u16) -> (result: Result<
        (),
        StoreError,
    >)
        requires
            old(self).wf(),
        ensures
            final(self).wf(),
            match result {
                Ok(_) => {
                    &&& old(self)@.has_device(device_id)
                    &&& final(self)@ == old(self)@.insert_main_route(main_route@, device_id)
                },
                Err(error) => {
                    &&& error == StoreError::UnknownDevice
                    &&& !old(self)@.has_device(device_id)
                    &&& final(self)@ == old(self)@
                },
            },
    {
        if !self.has_device(device_id) {
            return Err(StoreError::UnknownDevice);
        }
        let row = MainRouteRow { device_id, route: main_route.to_owned() };
        let ghost before = self.main_routes;
        self.main_routes.push(row);
        proof {
            lemma_deep_view_push(before, self.main_routes, row);
            lemma_insert_main_route_wf(old(self)@, main_route@, device_id);
        }
        Ok(())
    }

    /// Inserts a route of a device and returns the identifier that the store
    /// gave it: the one after the last. Fails, and changes nothing, when the
    /// store does not hold the device or when every identifier has been
    /// handed out.
    pub fn insert_route(&mut self, route: &str, device_id: u16) -> (result: Result<
        u16,
        StoreError,
    >)
        requires
            old(self).wf(),
        ensures
            final(self).wf(),
            match result {
                Ok(id) => {
                    &&& old(self)@.has_device(device_id)
                    &&& old(self)@.last_route_id < u16::MAX
                    &&& id == old(self)@.last_route_id + 1
                    &&& final(self)@ == old(self)@.insert_route(route@, device_id)
                },
                Err(error) => {
                    &&& final(self)@ == old(self)@
                    &&& if old(self)@.has_device(device_id) {
                        error == StoreError::IdsExhausted && old(self)@.last_route_id == u16::MAX
                    } else {
                        error == StoreError::UnknownDevice
                    }
                },
            },
    {
        if !self.has_device(device_id) {
            return Err(StoreError::UnknownDevice);
        }
        if self.last_route_id == u16::MAX {
            return Err(StoreError::IdsExhausted);
        }
        let id = self.last_route_id + 1;
        let row = RouteRow { id, device_id, route: route.to_owned() };
        let ghost before = self.routes;
        self.routes.push(row);
        self.last_route_id = id;
        proof {
            lemma_deep_view_push(before, self.routes, row);
            lemma_insert_route_wf(old(self)@, route@, device_id);
        }
        Ok(id)
    }

    /// Inserts a boolean input of a route. Fails, and changes nothing, when
    /// the store does not hold the route.
    pub fn insert_boolean_input(
        &mut self,
        name: &str,
        default: bool,
        value: bool,
        route_id: u16,
    ) -> (result: Result<(), StoreError>)
        requires
            old(self).wf(),
        ensures
            final(self).wf(),
            match result {
                Ok(_) => {
                    &&& old(self)@.has_route(route_id)
                    &&& final(self)@ == old(self)@.insert_boolean_input(
                        name@,
                        default,
                        value,
                        route_id,
                    )
                },
                Err(error) => {
                    &&& error == StoreError::UnknownRoute
                    &&& !old(self)@.has_route(route_id)
                    &&& final(self)@ == old(self)@
                },
            },
    {
        if !self.has_route(route_id) {
            return Err(StoreError::UnknownRoute);
        }
        let row = BooleanRow { route_id, name: name.to_owned(), default, value };
        let ghost before = self.booleans;
        self.booleans.push(row);
        proof {
            lemma_deep_view_push(before, self.booleans, row);
            lemma_insert_boolean_input_wf(old(self)@, name@, default, value, route_id);
        }
        Ok(())
    }

    /// Inserts a range input over unsigned integers of a route. Fails, and
    /// changes nothing, when the store does not hold the route.
    pub fn insert_rangeu64_input(&mut self, range: RangeInputU64, route_id: u16) -> (result:
        Result<(), StoreError>)
        requires
            old(self).wf(),
        ensures
            final(self).wf(),
            match result {
                Ok(_) => {
                    &&& old(self)@.has_route(route_id)
                    &&& final(self)@ == old(self)@.insert_rangeu64_input(
                        range.deep_view(),
                        route_id,
                    )
                },
                Err(error) => {
                    &&& error == StoreError::UnknownRoute
                    &&& !old(self)@.has_route(route_id)
                    &&& final(self)@ == old(self)@
                },
            },
    {
        if !self.has_route(route_id) {
            return Err(StoreError::UnknownRoute);
        }
        let row = RangeRow {
            route_id,
            name: range.name,
            min: range.min,
            max: range.max,
            step: range.step,
            default: range.default,
            value: range.value,
        };
        let ghost before = self.ranges_u64;
        self.ranges_u64.push(row);
        proof {
            lemma_deep_view_push(before, self.ranges_u64, row);
            lemma_insert_rangeu64_input_wf(old(self)@, range.deep_view(), route_id);
        }
        Ok(())
    }

    /// Inserts a range input over double-precision numbers of a route.
    /// Fails, and changes nothing, when the store does not hold the route.
    pub fn insert_rangef64_input(&mut self, range: RangeInputF64, route_id: u16) -> (result:
        Result<(), StoreError>)
        requires
            old(self).wf(),
        ensures
            final(self).wf(),
            match result {
                Ok(_) => {
                    &&& old(self)@.has_route(route_id)
                    &&& final(self)@ == old(self)@.insert_rangef64_input(
                        range.deep_view(),
                        route_id,
                    )
                },
                Err(error) => {
                    &&& error == StoreError::UnknownRoute
                    &&& !old(self)@.has_route(route_id)
                    &&& final(self)@ == old(self)@
                },
            },
    {
        if !self.has_route(route_id) {
            return Err(StoreError::UnknownRoute);
        }
        let row = RangeRow {
            route_id,
            name: range.name,
            min: range.min,
            max: range.max,
            step: range.step,
            default: range.default,
            value: range.value,
        };
        let ghost before = self.ranges_f64;
        self.ranges_f64.push(row);
        proof {
            lemma_deep_view_push(before, self.ranges_f64, row);
            lemma_insert_rangef64_input_wf(old(self)@, range.deep_view(), route_id);
        }
        Ok(())
    }

    /// Deletes every row of every table and starts the identifiers anew.
    pub fn clear_all(&mut self)
        ensures
            final(self)@ == StoreView::empty(),
            final(self).wf(),
    {
        *self = Store::new();
    }

    /// The identifiers of the routes of a device, in table order.
    fn route_ids(&self, device_id: u16) -> (ids: Vec<u16>)
        ensures
            ids@ == routes_of(self@.routes, device_id),
    {
        let ghost all = self@.routes;
        let mut ids: Vec<u16> = Vec::new();
        let mut i: usize = 0;
        proof {
            assert(all.take(0) =~= Seq::empty());
        }
        while i < self.routes.len()
            invariant
                i <= self.routes.len(),
                all == self.routes.deep_view(),
                ids@ == routes_of(all.take(i as int), device_id),
            decreases self.routes.len() - i,
        {
            proof {
                assert(all.take(i + 1).drop_last() =~= all.take(i as int));
                assert(all.take(i + 1).last() == self.routes[i as int].deep_view());
            }
            if self.routes[i].device_id == device_id {
                ids.push(self.routes[i].id);
            }
            i += 1;
        }
        proof {
            assert(all.take(self.routes.len() as int) =~= all);
        }
        ids
    }

    /// Deletes a device and all that hangs from it: its addresses, hazards,
    /// main route and routes, and the boolean and range inputs of those
    /// routes. The rows of other devices stay, in their order.
    pub fn delete_device(&mut self, id: u16)
        requires
            old(self).wf(),
        ensures
            final(self).wf(),
            final(self)@ == old(self)@.delete_device(id),
    {
        let routes = self.route_ids(id);
        let mut device: Vec<u16> = Vec::new();
        device.push(id);
        assert(device@ =~= seq![id]);

        self.booleans = without_owners(&self.booleans, &routes);
        self.ranges_u64 = without_owners(&self.ranges_u64, &routes);
        self.ranges_f64 = without_owners(&self.ranges_f64, &routes);
        self.routes = without_owners(&self.routes, &device);
        self.addresses = without_owners(&self.addresses, &device);
        self.hazards = without_owners(&self.hazards, &device);
        self.main_routes = without_owners(&self.main_routes, &device);
        self.devices = without_owners(&self.devices, &device);
        proof {
            lemma_delete_device_wf(old(self)@, id);
        }
    }

    /// The hazards that the store links to devices, each once, in the order
    /// in which they first occur.
    pub fn all_hazards(&self) -> (hazards: Vec<u16>)
        ensures
            hazards@ == merged(Seq::empty(), hazard_ids(self@.hazards)),
            hazards@.no_duplicates(),
            forall|hazard: u16|
                hazards@.contains(hazard) <==> hazard_ids(self@.hazards).contains(hazard),
    {
        let ghost ids = hazard_ids(self@.hazards);
        let mut hazards: Vec<u16> = Vec::new();
        let mut i: usize = 0;
        proof {
            assert(ids.take(0) =~= Seq::empty());
        }
        while i < self.hazards.len()
            invariant
                i <= self.hazards.len(),
                ids == hazard_ids(self.hazards.deep_view()),
                hazards@ == merged(Seq::empty(), ids.take(i as int)),
            decreases self.hazards.len() - i,
        {
            proof {
                assert(ids.take(i + 1).drop_last() =~= ids.take(i as int));
                assert(ids.take(i + 1).last() == self.hazards[i as int].hazard_id);
            }
            if !contains_id(&hazards, self.hazards[i].hazard_id) {
                hazards.push(self.hazards[i].hazard_id);
            }
            i += 1;
        }
        proof {
            assert(ids.take(self.hazards.len() as int) =~= ids);
            lemma_merged(Seq::empty(), ids);
        }
        hazards
    }

    /// The metadata of every device, by identifier.
    pub fn select_device_metadata(&self) -> (devices: Vec<Metadata>)
        ensures
            devices.deep_view() == self@.devices,
    {
        let mut devices: Vec<Metadata> = Vec::new();
        let mut i: usize = 0;
        while i < self.devices.len()
            invariant
                i <= self.devices.len(),
                devices.deep_view() =~= self.devices.deep_view().take(i as int),
            decreases self.devices.len() - i,
        {
            let ghost before = devices;
            let row = self.devices[i].duplicate();
            devices.push(row);
            proof {
                lemma_deep_view_push(before, devices, row);
            }
            i += 1;
        }
        proof {
            assert(self.devices.deep_view().take(self.devices.len() as int)
                =~= self.devices.deep_view());
        }
        devices
    }

    /// The addresses of a device, in insertion order.
    pub fn select_device_addresses(&self, device_id: u16) -> (addresses: Vec<Address>)
        ensures
            addresses.deep_view() == addresses_of(self@.addresses, device_id),
    {
        let ghost all = self@.addresses;
        let mut addresses: Vec<Address> = Vec::new();
        let mut i: usize = 0;
        proof {
            assert(all.take(0) =~= Seq::empty());
            assert(addresses.deep_view() =~= Seq::empty());
        }
        while i < self.addresses.len()
            invariant
                i <= self.addresses.len(),
                all == self.addresses.deep_view(),
                addresses.deep_view() == addresses_of(all.take(i as int), device_id),
            decreases self.addresses.len() - i,
        {
            proof {
                assert(all.take(i + 1).drop_last() =~= all.take(i as int));
                assert(all.take(i + 1).last() == self.addresses[i as int].deep_view());
            }
            if self.addresses[i].device_id == device_id {
                let ghost before = addresses;
                let row = Address { address: self.addresses[i].address.clone() };
                addresses.push(row);
                proof {
                    lemma_deep_view_push(before, addresses, row);
                }
            }
            i += 1;
        }
        proof {
            assert(all.take(self.addresses.len() as int) =~= all);
        }
        addresses
    }
}

} // verus!
