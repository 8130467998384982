//! Controllers: how the data of a device is laid out for its kind.

use vstd::prelude::*;

verus! {

/// The controller of a light.
#[derive(Clone, Copy, Debug, PartialEq, Eq, Structural)]
pub struct Light {
    pub on: bool,
    pub off: bool,
    pub toggle: bool,
}

/// The controller of a fridge.
#[derive(Clone, Copy, Debug, PartialEq, Eq, Structural)]
pub struct Fridge {
    pub camera: bool,
}

/// The controller of a device, by its kind.
#[derive(Clone, Copy, Debug, PartialEq, Eq, Structural)]
pub enum Controller {
    Light(Light),
    Fridge(Fridge),
}

impl Controller {
    /// The controller of a light that is switched off.
    pub fn light() -> (controller: Self)
        ensures
            controller == Controller::Light(Light { on: false, off: true, toggle: false }),
    {
        Self::Light(Light { on: false, off: true, toggle: false })
    }

    /// The controller of a fridge whose camera is off.
    pub fn fridge() -> (controller: Self)
        ensures
            controller == Controller::Fridge(Fridge { camera: false }),
    {
        Self::Fridge(Fridge { camera: false })
    }
}

} // verus!
