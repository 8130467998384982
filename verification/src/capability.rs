//! The capability model: what a device says of itself in its manifest.
//!
//! A device exposes routes. Each route names the hazards that using it may
//! cause and the typed inputs that it takes.

use vstd::prelude::*;

use crate::binary64::Binary64;

verus! {

/// The kind of a device.
#[derive(Clone, Copy, Debug, PartialEq, Eq, Hash, Structural)]
pub enum DeviceKind {
    Unknown,
    Light,
    Fridge,
    Camera,
}

/// The REST verb through which a route is reached.
#[derive(Clone, Copy, Debug, PartialEq, Eq, Hash, Structural)]
pub enum RestKind {
    Get,
    Put,
    Post,
    Delete,
}

/// The bounds of an input over unsigned integers.
#[derive(Clone, Copy, Debug, PartialEq, Eq, Hash, Structural)]
pub struct RangeU64 {
    pub minimum: u64,
    pub maximum: u64,
    pub step: u64,
    pub default: u64,
}

/// The bounds of an input over double-precision numbers.
#[derive(Clone, Copy, Debug, PartialEq, Eq, Hash, Structural)]
pub struct RangeF64 {
    pub minimum: Binary64,
    pub maximum: Binary64,
    pub step: Binary64,
    pub default: Binary64,
}

/// The type of an input, with its default value.
#[derive(Clone, Copy, Debug, PartialEq, Eq, Hash, Structural)]
pub enum InputType {
    RangeU64(RangeU64),
    RangeF64(RangeF64),
    Bool(bool),
}

/// A typed input of a route.
#[derive(Clone, Debug, PartialEq, Eq)]
pub struct Input {
    pub name: String,
    pub datatype: InputType,
}

/// The mathematical value of an [`Input`].
pub struct InputView {
    pub name: Seq<char>,
    pub datatype: InputType,
}

impl DeepView for Input {
    type V = InputView;

    open spec fn deep_view(&self) -> InputView {
        InputView { name: self.name@, datatype: self.datatype }
    }
}

/// What a route is called and what it takes.
#[derive(Clone, Debug, PartialEq, Eq)]
pub struct RouteData {
    pub name: String,
    pub description: Option<String>,
    pub stateless: bool,
    pub inputs: Vec<Input>,
}

/// The mathematical value of a [`RouteData`].
pub struct RouteDataView {
    pub name: Seq<char>,
    pub description: Option<Seq<char>>,
    pub stateless: bool,
    pub inputs: Seq<InputView>,
}

impl DeepView for RouteData {
    type V = RouteDataView;

    open spec fn deep_view(&self) -> RouteDataView {
        RouteDataView {
            name: self.name@,
            description: self.description.deep_view(),
            stateless: self.stateless,
            inputs: self.inputs.deep_view(),
        }
    }
}

/// One operation that a device exposes.
#[derive(Clone, Debug, PartialEq, Eq)]
pub struct RouteConfig {
    pub rest_kind: RestKind,
    /// Identifiers into the hazard catalog.
    pub hazards: Vec<u16>,
    pub data: RouteData,
}

/// The mathematical value of a [`RouteConfig`].
pub struct RouteConfigView {
    pub rest_kind: RestKind,
    pub hazards: Seq<u16>,
    pub data: RouteDataView,
}

impl DeepView for RouteConfig {
    type V = RouteConfigView;

    open spec fn deep_view(&self) -> RouteConfigView {
        RouteConfigView {
            rest_kind: self.rest_kind,
            hazards: self.hazards@,
            data: self.data.deep_view(),
        }
    }
}

/// The manifest of a device.
#[derive(Clone, Debug, PartialEq, Eq)]
pub struct DeviceData {
    pub kind: DeviceKind,
    pub main_route: String,
    pub routes: Vec<RouteConfig>,
}

/// The mathematical value of a [`DeviceData`].
pub struct DeviceDataView {
    pub kind: DeviceKind,
    pub main_route: Seq<char>,
    pub routes: Seq<RouteConfigView>,
}

impl DeepView for DeviceData {
    type V = DeviceDataView;

    open spec fn deep_view(&self) -> DeviceDataView {
        DeviceDataView {
            kind: self.kind,
            main_route: self.main_route@,
            routes: self.routes.deep_view(),
        }
    }
}

impl RouteConfigView {
    /// No hazard is named twice and no two inputs share a name.
    pub open spec fn valid(self) -> bool {
        &&& self.hazards.no_duplicates()
        &&& forall|i: int, j: int|
            0 <= i < j < self.data.inputs.len() ==> self.data.inputs[i].name
                != self.data.inputs[j].name
    }
}

impl DeviceDataView {
    /// Every route is valid.
    pub open spec fn valid(self) -> bool {
        forall|r: int| 0 <= r < self.routes.len() ==> (#[trigger] self.routes[r]).valid()
    }
}

/// Whether `hazards[..upto]` holds `hazards[upto]` already.
fn hazard_seen(hazards: &Vec<u16>, upto: usize) -> (seen: bool)
    requires
        upto < hazards.len(),
    ensures
        seen == exists|i: int| 0 <= i < upto && hazards[i] == hazards[upto as int],
{
    let mut i: usize = 0;
    while i < upto
        invariant
            i <= upto < hazards.len(),
            forall|k: int| 0 <= k < i ==> hazards[k] != hazards[upto as int],
        decreases upto - i,
    {
        if hazards[i] == hazards[upto] {
            return true;
        }
        i += 1;
    }
    false
}

/// Whether one of `inputs[..upto]` has the name of `inputs[upto]`.
fn name_seen(inputs: &Vec<Input>, upto: usize) -> (seen: bool)
    requires
        upto < inputs.len(),
    ensures
        seen == exists|i: int| 0 <= i < upto && inputs[i].name@ == inputs[upto as int].name@,
{
    let mut i: usize = 0;
    while i < upto
        invariant
            i <= upto < inputs.len(),
            forall|k: int| 0 <= k < i ==> inputs[k].name@ != inputs[upto as int].name@,
        decreases upto - i,
    {
        if inputs[i].name == inputs[upto].name {
            return true;
        }
        i += 1;
    }
    false
}

impl RouteConfig {
    /// Checks that no hazard is named twice and no two inputs share a name.
    pub fn is_valid(&self) -> (ok: bool)
        ensures
            ok == self.deep_view().valid(),
    {
        let mut h: usize = 0;
        while h < self.hazards.len()
            invariant
                h <= self.hazards.len(),
                forall|i: int, j: int| 0 <= i < j < h ==> self.hazards[i] != self.hazards[j],
            decreases self.hazards.len() - h,
        {
            if hazard_seen(&self.hazards, h) {
                return false;
            }
            h += 1;
        }
        let ghost inputs = self.deep_view().data.inputs;
        let mut n: usize = 0;
        while n < self.data.inputs.len()
            invariant
                n <= self.data.inputs.len(),
                inputs == self.data.inputs.deep_view(),
                forall|i: int, j: int| 0 <= i < j < n ==> inputs[i].name != inputs[j].name,
            decreases self.data.inputs.len() - n,
        {
            if name_seen(&self.data.inputs, n) {
                proof {
                    let i = choose|i: int|
                        0 <= i < n && self.data.inputs[i].name@ == self.data.inputs[n as int].name@;
                    assert(inputs[i].name == inputs[n as int].name);
                }
                return false;
            }
            proof {
                assert forall|i: int, j: int| 0 <= i < j < n + 1 implies inputs[i].name
                    != inputs[j].name by {
                    if j == n {
                        assert(inputs[i].name == self.data.inputs[i].name@);
                    }
                }
            }
            n += 1;
        }
        true
    }
}

impl DeviceData {
    /// Checks that every route is valid.
    pub fn is_valid(&self) -> (ok: bool)
        ensures
            ok == self.deep_view().valid(),
    {
        let mut r: usize = 0;
        while r < self.routes.len()
            invariant
                r <= self.routes.len(),
                forall|k: int| 0 <= k < r ==> (#[trigger] self.routes.deep_view()[k]).valid(),
            decreases self.routes.len() - r,
        {
            if !self.routes[r].is_valid() {
                assert(self.routes.deep_view()[r as int] == self.routes[r as int].deep_view());
                assert(!self.deep_view().routes[r as int].valid());
                return false;
            }
            assert(self.routes.deep_view()[r as int] == self.routes[r as int].deep_view());
            r += 1;
        }
        true
    }
}

} // verus!
