//! Control descriptors: the widgets through which a user drives a device.

use vstd::prelude::*;

verus! {

/// A button that fires a route.
#[derive(Clone, Debug, PartialEq, Eq)]
pub struct Button {
    pub route_id: u16,
    pub name: String,
    pub with_state: bool,
}

/// The mathematical value of a [`Button`].
pub struct ButtonView {
    pub route_id: u16,
    pub name: Seq<char>,
    pub with_state: bool,
}

impl DeepView for Button {
    type V = ButtonView;

    open spec fn deep_view(&self) -> ButtonView {
        ButtonView { route_id: self.route_id, name: self.name@, with_state: self.with_state }
    }
}

impl Button {
    /// A plain button, with no value of its own.
    pub fn init(route_id: u16, name: String) -> (button: Self)
        ensures
            button.deep_view() == (ButtonView { route_id, name: name@, with_state: false }),
    {
        Self { route_id, name, with_state: false }
    }

    /// A button that keeps a state.
    pub fn with_state(route_id: u16, name: String) -> (button: Self)
        ensures
            button.deep_view() == (ButtonView { route_id, name: name@, with_state: true }),
    {
        Self { route_id, name, with_state: true }
    }
}

/// A slider over values of type `T`.
#[derive(Clone, Debug, PartialEq, Eq)]
pub struct Slider<T> {
    pub route_id: u16,
    pub name: String,
    pub min: T,
    pub max: T,
    pub step: T,
    pub value: T,
}

/// The mathematical value of a [`Slider`].
pub struct SliderView<T> {
    pub route_id: u16,
    pub name: Seq<char>,
    pub min: T,
    pub max: T,
    pub step: T,
    pub value: T,
}

impl<T> DeepView for Slider<T> {
    type V = SliderView<T>;

    open spec fn deep_view(&self) -> SliderView<T> {
        SliderView {
            route_id: self.route_id,
            name: self.name@,
            min: self.min,
            max: self.max,
            step: self.step,
            value: self.value,
        }
    }
}

impl<T> Slider<T> {
    /// A slider from `min` to `max` in steps of `step`, standing at `value`.
    pub fn new(route_id: u16, name: String, min: T, max: T, step: T, value: T) -> (slider: Self)
        ensures
            slider.deep_view() == (SliderView { route_id, name: name@, min, max, step, value }),
    {
        Self { route_id, name, min, max, step, value }
    }
}

/// A checkbox for a boolean input.
#[derive(Clone, Debug, PartialEq, Eq)]
pub struct CheckBox {
    pub route_id: u16,
    pub name: String,
    pub value: bool,
}

/// The mathematical value of a [`CheckBox`].
pub struct CheckBoxView {
    pub route_id: u16,
    pub name: Seq<char>,
    pub value: bool,
}

impl DeepView for CheckBox {
    type V = CheckBoxView;

    open spec fn deep_view(&self) -> CheckBoxView {
        CheckBoxView { route_id: self.route_id, name: self.name@, value: self.value }
    }
}

impl CheckBox {
    /// A checkbox that is not ticked.
    pub fn init(route_id: u16, name: String) -> (checkbox: Self)
        ensures
            checkbox.deep_view() == (CheckBoxView { route_id, name: name@, value: false }),
    {
        Self { route_id, name, value: false }
    }

    /// A checkbox that is ticked.
    pub fn checked(route_id: u16, name: String) -> (checkbox: Self)
        ensures
            checkbox.deep_view() == (CheckBoxView { route_id, name: name@, value: true }),
    {
        Self { route_id, name, value: true }
    }
}

} // verus!
