//! The relational store of the gateway, and what is built on it.
//!
//! The store holds one table of devices and, hanging from each device, its
//! addresses, hazards, main route and routes; from each route hang its
//! boolean and range inputs. This module holds the rows and the mathematical
//! model of the store: what each operation does to the tables.

pub mod soundness;
pub mod controls;
pub mod device;
pub mod laws;
pub mod query;
pub mod round_trip;

use vstd::prelude::*;

use crate::binary64::Binary64;

verus! {

/// Why the store refused an operation.
#[derive(Clone, Copy, Debug, PartialEq, Eq, Hash, Structural)]
pub enum StoreError {
    /// Every identifier has been handed out since the store was last cleared.
    IdsExhausted,
    /// The row names a device that the store does not hold.
    UnknownDevice,
    /// The row names a route that the store does not hold.
    UnknownRoute,
}

/// A row of one of the tables.
pub trait Row: DeepView + Sized {
    /// The identifier under which a row is deleted: that of the device, for a
    /// row that describes or hangs from a device, or that of the route, for a
    /// row that hangs from a route.
    spec fn owner(row: Self::V) -> u16;

    /// The identifier under which this row is deleted.
    fn owner_id(&self) -> (id: u16)
        ensures
            id == Self::owner(self.deep_view()),
    ;

    /// A copy of this row.
    fn duplicate(&self) -> (copy: Self)
        ensures
            copy.deep_view() == self.deep_view(),
    ;
}

/// Device metadata: a row of `devices`.
#[derive(Clone, Debug, PartialEq, Eq)]
pub struct Metadata {
    /// Identifier, assigned by the store.
    pub id: u16,
    pub port: u16,
    /// URI scheme.
    pub scheme: String,
    /// Resource path.
    pub path: String,
}

/// The mathematical value of a [`Metadata`].
pub struct MetadataView {
    pub id: u16,
    pub port: u16,
    pub scheme: Seq<char>,
    pub path: Seq<char>,
}

impl DeepView for Metadata {
    type V = MetadataView;

    open spec fn deep_view(&self) -> MetadataView {
        MetadataView { id: self.id, port: self.port, scheme: self.scheme@, path: self.path@ }
    }
}

impl Metadata {
    /// Sample metadata of a device that no store has seen: port 8080,
    /// scheme `http`, path `here`.
    pub fn fake1() -> (metadata: Self)
        ensures
            metadata.deep_view() == (MetadataView {
                id: 0,
                port: 8080,
                scheme: "http"@,
                path: "here"@,
            }),
    {
        Self { id: 0, port: 8080, scheme: "http".to_owned(), path: "here".to_owned() }
    }

    /// Sample metadata of a second device that no store has seen, with the
    /// same port, scheme and path as the first.
    pub fn fake2() -> (metadata: Self)
        ensures
            metadata.deep_view() == (MetadataView {
                id: 0,
                port: 8080,
                scheme: "http"@,
                path: "here"@,
            }),
    {
        Self { id: 0, port: 8080, scheme: "http".to_owned(), path: "here".to_owned() }
    }
}

impl Row for Metadata {
    open spec fn owner(row: MetadataView) -> u16 {
        row.id
    }

    fn owner_id(&self) -> u16 {
        self.id
    }

    fn duplicate(&self) -> Self {
        Metadata {
            id: self.id,
            port: self.port,
            scheme: self.scheme.clone(),
            path: self.path.clone(),
        }
    }
}

/// A device address in text form, as selected from `addresses` and as it is
/// written in a request.
#[derive(Clone, Debug, PartialEq, Eq)]
pub struct Address {
    pub address: String,
}

impl DeepView for Address {
    type V = Seq<char>;

    open spec fn deep_view(&self) -> Seq<char> {
        self.address@
    }
}

/// A row of `addresses`.
#[derive(Clone, Debug, PartialEq, Eq)]
pub struct AddressRow {
    pub device_id: u16,
    pub address: String,
}

/// The mathematical value of an [`AddressRow`].
pub struct AddressRowView {
    pub device_id: u16,
    pub address: Seq<char>,
}

impl DeepView for AddressRow {
    type V = AddressRowView;

    open spec fn deep_view(&self) -> AddressRowView {
        AddressRowView { device_id: self.device_id, address: self.address@ }
    }
}

impl Row for AddressRow {
    open spec fn owner(row: AddressRowView) -> u16 {
        row.device_id
    }

    fn owner_id(&self) -> u16 {
        self.device_id
    }

    fn duplicate(&self) -> Self {
        AddressRow { device_id: self.device_id, address: self.address.clone() }
    }
}

/// A row of `hazards`: a device and a hazard of the catalog.
#[derive(Clone, Copy, Debug, PartialEq, Eq, Hash, Structural)]
pub struct HazardRow {
    pub device_id: u16,
    pub hazard_id: u16,
}

impl DeepView for HazardRow {
    type V = HazardRow;

    open spec fn deep_view(&self) -> HazardRow {
        *self
    }
}

impl Row for HazardRow {
    open spec fn owner(row: HazardRow) -> u16 {
        row.device_id
    }

    fn owner_id(&self) -> u16 {
        self.device_id
    }

    fn duplicate(&self) -> Self {
        HazardRow { device_id: self.device_id, hazard_id: self.hazard_id }
    }
}

/// A row of `main_routes`.
#[derive(Clone, Debug, PartialEq, Eq)]
pub struct MainRouteRow {
    pub device_id: u16,
    pub route: String,
}

/// The mathematical value of a [`MainRouteRow`].
pub struct MainRouteRowView {
    pub device_id: u16,
    pub route: Seq<char>,
}

impl DeepView for MainRouteRow {
    type V = MainRouteRowView;

    open spec fn deep_view(&self) -> MainRouteRowView {
        MainRouteRowView { device_id: self.device_id, route: self.route@ }
    }
}

impl Row for MainRouteRow {
    open spec fn owner(row: MainRouteRowView) -> u16 {
        row.device_id
    }

    fn owner_id(&self) -> u16 {
        self.device_id
    }

    fn duplicate(&self) -> Self {
        MainRouteRow { device_id: self.device_id, route: self.route.clone() }
    }
}

/// A row of `routes`.
#[derive(Clone, Debug, PartialEq, Eq)]
pub struct RouteRow {
    /// Identifier, assigned by the store.
    pub id: u16,
    pub device_id: u16,
    pub route: String,
}

/// The mathematical value of a [`RouteRow`].
pub struct RouteRowView {
    pub id: u16,
    pub device_id: u16,
    pub route: Seq<char>,
}

impl DeepView for RouteRow {
    type V = RouteRowView;

    open spec fn deep_view(&self) -> RouteRowView {
        RouteRowView { id: self.id, device_id: self.device_id, route: self.route@ }
    }
}

impl Row for RouteRow {
    open spec fn owner(row: RouteRowView) -> u16 {
        row.device_id
    }

    fn owner_id(&self) -> u16 {
        self.device_id
    }

    fn duplicate(&self) -> Self {
        RouteRow { id: self.id, device_id: self.device_id, route: self.route.clone() }
    }
}

/// A row of `booleans`.
#[derive(Clone, Debug, PartialEq, Eq)]
pub struct BooleanRow {
    pub route_id: u16,
    pub name: String,
    pub default: bool,
    pub value: bool,
}

/// The mathematical value of a [`BooleanRow`].
pub struct BooleanRowView {
    pub route_id: u16,
    pub name: Seq<char>,
    pub default: bool,
    pub value: bool,
}

impl DeepView for BooleanRow {
    type V = BooleanRowView;

    open spec fn deep_view(&self) -> BooleanRowView {
        BooleanRowView {
            route_id: self.route_id,
            name: self.name@,
            default: self.default,
            value: self.value,
        }
    }
}

impl Row for BooleanRow {
    open spec fn owner(row: BooleanRowView) -> u16 {
        row.route_id
    }

    fn owner_id(&self) -> u16 {
        self.route_id
    }

    fn duplicate(&self) -> Self {
        BooleanRow {
            route_id: self.route_id,
            name: self.name.clone(),
            default: self.default,
            value: self.value,
        }
    }
}

/// A range input with its current value, as handed to the store.
#[derive(Clone, Debug, PartialEq, Eq)]
pub struct RangeInput<T> {
    pub name: String,
    pub min: T,
    pub max: T,
    pub step: T,
    pub default: T,
    pub value: T,
}

/// A range input over unsigned integers.
pub type RangeInputU64 = RangeInput<u64>;

/// A range input over double-precision numbers.
pub type RangeInputF64 = RangeInput<Binary64>;

/// The mathematical value of a [`RangeInput`].
pub struct RangeInputView<T> {
    pub name: Seq<char>,
    pub min: T,
    pub max: T,
    pub step: T,
    pub default: T,
    pub value: T,
}

impl<T> DeepView for RangeInput<T> {
    type V = RangeInputView<T>;

    open spec fn deep_view(&self) -> RangeInputView<T> {
        RangeInputView {
            name: self.name@,
            min: self.min,
            max: self.max,
            step: self.step,
            default: self.default,
            value: self.value,
        }
    }
}

/// A row of `rangesu64` or of `rangesf64`.
#[derive(Clone, Debug, PartialEq, Eq)]
pub struct RangeRow<T> {
    pub route_id: u16,
    pub name: String,
    pub min: T,
    pub max: T,
    pub step: T,
    pub default: T,
    pub value: T,
}

/// The mathematical value of a [`RangeRow`].
pub struct RangeRowView<T> {
    pub route_id: u16,
    pub name: Seq<char>,
    pub min: T,
    pub max: T,
    pub step: T,
    pub default: T,
    pub value: T,
}

impl<T> DeepView for RangeRow<T> {
    type V = RangeRowView<T>;

    open spec fn deep_view(&self) -> RangeRowView<T> {
        RangeRowView {
            route_id: self.route_id,
            name: self.name@,
            min: self.min,
            max: self.max,
            step: self.step,
            default: self.default,
            value: self.value,
        }
    }
}

impl<T: Copy> Row for RangeRow<T> {
    open spec fn owner(row: RangeRowView<T>) -> u16 {
        row.route_id
    }

    fn owner_id(&self) -> u16 {
        self.route_id
    }

    fn duplicate(&self) -> Self {
        RangeRow {
            route_id: self.route_id,
            name: self.name.clone(),
            min: self.min,
            max: self.max,
            step: self.step,
            default: self.default,
            value: self.value,
        }
    }
}

/// The row that a range input makes under the route `route_id`.
pub open spec fn range_row<T>(route_id: u16, range: RangeInputView<T>) -> RangeRowView<T> {
    RangeRowView {
        route_id,
        name: range.name,
        min: range.min,
        max: range.max,
        step: range.step,
        default: range.default,
        value: range.value,
    }
}

/// Holds of the rows that hang from none of `owners`.
pub open spec fn hangs_from_none<R: Row>(owners: Seq<u16>) -> spec_fn(R::V) -> bool {
    |row: R::V| !owners.contains(R::owner(row))
}

/// The identifiers of the routes among `routes` that belong to `device_id`,
/// in table order.
pub open spec fn routes_of(routes: Seq<RouteRowView>, device_id: u16) -> Seq<u16>
    decreases routes.len(),
{
    if routes.len() == 0 {
        Seq::empty()
    } else {
        let before = routes_of(routes.drop_last(), device_id);
        if routes.last().device_id == device_id {
            before.push(routes.last().id)
        } else {
            before
        }
    }
}

/// The addresses among `addresses` that belong to `device_id`, in table order.
pub open spec fn addresses_of(addresses: Seq<AddressRowView>, device_id: u16) -> Seq<Seq<char>>
    decreases addresses.len(),
{
    if addresses.len() == 0 {
        Seq::empty()
    } else {
        let before = addresses_of(addresses.drop_last(), device_id);
        if addresses.last().device_id == device_id {
            before.push(addresses.last().address)
        } else {
            before
        }
    }
}

/// The mathematical value of a store: its tables, each in insertion order,
/// and the last identifier handed out for a device and for a route.
pub struct StoreView {
    pub devices: Seq<MetadataView>,
    pub addresses: Seq<AddressRowView>,
    pub hazards: Seq<HazardRow>,
    pub main_routes: Seq<MainRouteRowView>,
    pub routes: Seq<RouteRowView>,
    pub booleans: Seq<BooleanRowView>,
    pub ranges_u64: Seq<RangeRowView<u64>>,
    pub ranges_f64: Seq<RangeRowView<Binary64>>,
    pub last_device_id: u16,
    pub last_route_id: u16,
}

impl StoreView {
    /// The store with no row, which has handed out no identifier.
    pub open spec fn empty() -> StoreView {
        StoreView {
            devices: Seq::empty(),
            addresses: Seq::empty(),
            hazards: Seq::empty(),
            main_routes: Seq::empty(),
            routes: Seq::empty(),
            booleans: Seq::empty(),
            ranges_u64: Seq::empty(),
            ranges_f64: Seq::empty(),
            last_device_id: 0,
            last_route_id: 0,
        }
    }

    /// Whether `devices` holds a device with this identifier.
    pub open spec fn has_device(self, id: u16) -> bool {
        exists|i: int| 0 <= i < self.devices.len() && (#[trigger] self.devices[i]).id == id
    }

    /// Whether `routes` holds a route with this identifier.
    pub open spec fn has_route(self, id: u16) -> bool {
        exists|i: int| 0 <= i < self.routes.len() && (#[trigger] self.routes[i]).id == id
    }

    /// Whether any table holds a row.
    pub open spec fn has_rows(self) -> bool {
        ||| self.devices.len() > 0
        ||| self.addresses.len() > 0
        ||| self.hazards.len() > 0
        ||| self.main_routes.len() > 0
        ||| self.routes.len() > 0
        ||| self.booleans.len() > 0
        ||| self.ranges_u64.len() > 0
        ||| self.ranges_f64.len() > 0
    }

    /// The same tables, whatever identifiers have been handed out.
    pub open spec fn same_rows(self, other: StoreView) -> bool {
        &&& self.devices == other.devices
        &&& self.addresses == other.addresses
        &&& self.hazards == other.hazards
        &&& self.main_routes == other.main_routes
        &&& self.routes == other.routes
        &&& self.booleans == other.booleans
        &&& self.ranges_u64 == other.ranges_u64
        &&& self.ranges_f64 == other.ranges_f64
    }

    /// The invariant of the store.
    ///
    /// Identifiers are positive, at most the last one handed out, and grow
    /// along their table, so none occurs twice. Every row that hangs from a
    /// device or a route names one that the store holds.
    pub open spec fn wf(self) -> bool {
        &&& forall|i: int|
            0 <= i < self.devices.len() ==> 1 <= (#[trigger] self.devices[i]).id
                <= self.last_device_id
        &&& forall|i: int, j: int|
            0 <= i < j < self.devices.len() ==> (#[trigger] self.devices[i]).id < (
            #[trigger] self.devices[j]).id
        &&& forall|i: int|
            0 <= i < self.routes.len() ==> 1 <= (#[trigger] self.routes[i]).id
                <= self.last_route_id
        &&& forall|i: int, j: int|
            0 <= i < j < self.routes.len() ==> (#[trigger] self.routes[i]).id < (
            #[trigger] self.routes[j]).id
        &&& forall|i: int|
            0 <= i < self.routes.len() ==> self.has_device((#[trigger] self.routes[i]).device_id)
        &&& forall|i: int|
            0 <= i < self.addresses.len() ==> self.has_device(
                (#[trigger] self.addresses[i]).device_id,
            )
        &&& forall|i: int|
            0 <= i < self.hazards.len() ==> self.has_device(
                (#[trigger] self.hazards[i]).device_id,
            )
        &&& forall|i: int|
            0 <= i < self.main_routes.len() ==> self.has_device(
                (#[trigger] self.main_routes[i]).device_id,
            )
        &&& forall|i: int|
            0 <= i < self.booleans.len() ==> self.has_route((#[trigger] self.booleans[i]).route_id)
        &&& forall|i: int|
            0 <= i < self.ranges_u64.len() ==> self.has_route(
                (#[trigger] self.ranges_u64[i]).route_id,
            )
        &&& forall|i: int|
            0 <= i < self.ranges_f64.len() ==> self.has_route(
                (#[trigger] self.ranges_f64[i]).route_id,
            )
    }

    /// The store after a device was inserted under the next identifier.
    pub open spec fn insert_device(self, port: u16, scheme: Seq<char>, path: Seq<char>) -> StoreView
        recommends
            self.last_device_id < u16::MAX,
    {
        let id = (self.last_device_id + 1) as u16;
        StoreView {
            devices: self.devices.push(MetadataView { id, port, scheme, path }),
            last_device_id: id,
            ..self
        }
    }

    /// The store after an address of a device was inserted.
    pub open spec fn insert_address(self, address: Seq<char>, device_id: u16) -> StoreView {
        StoreView { addresses: self.addresses.push(AddressRowView { device_id, address }), ..self }
    }

    /// The store after a hazard of a device was inserted.
    pub open spec fn insert_hazard(self, hazard_id: u16, device_id: u16) -> StoreView {
        StoreView { hazards: self.hazards.push(HazardRow { device_id, hazard_id }), ..self }
    }

    /// The store after the main route of a device was inserted.
    pub open spec fn insert_main_route(self, route: Seq<char>, device_id: u16) -> StoreView {
        StoreView {
            main_routes: self.main_routes.push(MainRouteRowView { device_id, route }),
            ..self
        }
    }

    /// The store after a route of a device was inserted under the next
    /// identifier.
    pub open spec fn insert_route(self, route: Seq<char>, device_id: u16) -> StoreView
        recommends
            self.last_route_id < u16::MAX,
    {
        let id = (self.last_route_id + 1) as u16;
        StoreView {
            routes: self.routes.push(RouteRowView { id, device_id, route }),
            last_route_id: id,
            ..self
        }
    }

    /// The store after a boolean input of a route was inserted.
    pub open spec fn insert_boolean_input(
        self,
        name: Seq<char>,
        default: bool,
        value: bool,
        route_id: u16,
    ) -> StoreView {
        StoreView {
            booleans: self.booleans.push(BooleanRowView { route_id, name, default, value }),
            ..self
        }
    }

    /// The store after a range input over unsigned integers was inserted.
    pub open spec fn insert_rangeu64_input(
        self,
        range: RangeInputView<u64>,
        route_id: u16,
    ) -> StoreView {
        StoreView { ranges_u64: self.ranges_u64.push(range_row(route_id, range)), ..self }
    }

    /// The store after a range input over double-precision numbers was
    /// inserted.
    pub open spec fn insert_rangef64_input(
        self,
        range: RangeInputView<Binary64>,
        route_id: u16,
    ) -> StoreView {
        StoreView { ranges_f64: self.ranges_f64.push(range_row(route_id, range)), ..self }
    }

    /// The store after a device was deleted with all that hangs from it: its
    /// addresses, hazards, main route and routes, and the inputs of those
    /// routes. The other rows keep their order.
    pub open spec fn delete_device(self, id: u16) -> StoreView {
        let routes = routes_of(self.routes, id);
        StoreView {
            devices: self.devices.filter(hangs_from_none::<Metadata>(seq![id])),
            addresses: self.addresses.filter(hangs_from_none::<AddressRow>(seq![id])),
            hazards: self.hazards.filter(hangs_from_none::<HazardRow>(seq![id])),
            main_routes: self.main_routes.filter(hangs_from_none::<MainRouteRow>(seq![id])),
            routes: self.routes.filter(hangs_from_none::<RouteRow>(seq![id])),
            booleans: self.booleans.filter(hangs_from_none::<BooleanRow>(routes)),
            ranges_u64: self.ranges_u64.filter(hangs_from_none::<RangeRow<u64>>(routes)),
            ranges_f64: self.ranges_f64.filter(hangs_from_none::<RangeRow<Binary64>>(routes)),
            last_device_id: self.last_device_id,
            last_route_id: self.last_route_id,
        }
    }
}

} // verus!
