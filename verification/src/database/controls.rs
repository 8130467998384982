//! The controls of a device, kept in step with the rows of its inputs.
//!
//! Each control is created by the function that inserts the row of its
//! input, so that the store and the controls never say different things.

use vstd::prelude::*;

use crate::binary64::Binary64;
use crate::capability::{InputType, InputView, RangeF64, RangeU64, RouteDataView};
use crate::database::query::{lemma_deep_view_push, Store};
use crate::database::{RangeInput, RangeInputView, StoreError};
use crate::form::{Button, ButtonView, CheckBox, CheckBoxView, Slider, SliderView};
use crate::route_label::cleaned_route;

verus! {

/// The checkbox of a boolean input: it starts at the default of the input.
pub open spec fn checkbox_of(route_id: u16) -> spec_fn(InputView) -> Option<CheckBoxView> {
    |input: InputView|
        match input.datatype {
            InputType::Bool(default) => Some(
                CheckBoxView { route_id, name: input.name, value: default },
            ),
            _ => None,
        }
}

/// The slider of a range input over unsigned integers: it has the bounds and
/// the step of the input and starts at its default.
pub open spec fn slider_u64_of(route_id: u16) -> spec_fn(InputView) -> Option<SliderView<u64>> {
    |input: InputView|
        match input.datatype {
            InputType::RangeU64(range) => Some(
                SliderView {
                    route_id,
                    name: input.name,
                    min: range.minimum,
                    max: range.maximum,
                    step: range.step,
                    value: range.default,
                },
            ),
            _ => None,
        }
}

/// The slider of a range input over double-precision numbers: it has the
/// bounds and the step of the input and starts at its default.
pub open spec fn slider_f64_of(route_id: u16) -> spec_fn(InputView) -> Option<
    SliderView<Binary64>,
> {
    |input: InputView|
        match input.datatype {
            InputType::RangeF64(range) => Some(
                SliderView {
                    route_id,
                    name: input.name,
                    min: range.minimum,
                    max: range.maximum,
                    step: range.step,
                    value: range.default,
                },
            ),
            _ => None,
        }
}

/// The button of a route: a plain button labelled by the cleaned name of the
/// route.
pub open spec fn button_of(route_id: u16, route_name: Seq<char>) -> ButtonView {
    ButtonView { route_id, name: cleaned_route(route_name), with_state: false }
}

/// The range input, standing at its default, that an input named `name`
/// with the bounds `range` hands to the store.
pub open spec fn rangeu64_input_of(name: Seq<char>, range: RangeU64) -> RangeInputView<u64> {
    RangeInputView {
        name,
        min: range.minimum,
        max: range.maximum,
        step: range.step,
        default: range.default,
        value: range.default,
    }
}

/// The range input, standing at its default, that an input named `name`
/// with the bounds `range` hands to the store.
pub open spec fn rangef64_input_of(name: Seq<char>, range: RangeF64) -> RangeInputView<Binary64> {
    RangeInputView {
        name,
        min: range.minimum,
        max: range.maximum,
        step: range.step,
        default: range.default,
        value: range.default,
    }
}

/// The controls of a device.
#[derive(Clone, Debug, PartialEq, Eq)]
pub struct StateControls {
    pub sliders_u64: Vec<Slider<u64>>,
    pub sliders_f64: Vec<Slider<Binary64>>,
    pub checkboxes: Vec<CheckBox>,
    pub buttons: Vec<Button>,
}

/// The mathematical value of a [`StateControls`].
pub struct StateControlsView {
    pub sliders_u64: Seq<SliderView<u64>>,
    pub sliders_f64: Seq<SliderView<Binary64>>,
    pub checkboxes: Seq<CheckBoxView>,
    pub buttons: Seq<ButtonView>,
}

impl DeepView for StateControls {
    type V = StateControlsView;

    open spec fn deep_view(&self) -> StateControlsView {
        StateControlsView {
            sliders_u64: self.sliders_u64.deep_view(),
            sliders_f64: self.sliders_f64.deep_view(),
            checkboxes: self.checkboxes.deep_view(),
            buttons: self.buttons.deep_view(),
        }
    }
}

impl StateControlsView {
    /// No control.
    pub open spec fn empty() -> StateControlsView {
        StateControlsView {
            sliders_u64: Seq::empty(),
            sliders_f64: Seq::empty(),
            checkboxes: Seq::empty(),
            buttons: Seq::empty(),
        }
    }

    /// How many controls there are that are no button.
    pub open spec fn input_controls(self) -> nat {
        self.checkboxes.len() + self.sliders_u64.len() + self.sliders_f64.len()
    }

    /// The controls after those of the inputs of a route were added: one
    /// checkbox for each boolean input and one slider for each range input,
    /// each kind in the order of the inputs.
    pub open spec fn with_inputs(self, route_id: u16, inputs: Seq<InputView>) -> StateControlsView {
        StateControlsView {
            sliders_u64: self.sliders_u64 + inputs.filter_map(slider_u64_of(route_id)),
            sliders_f64: self.sliders_f64 + inputs.filter_map(slider_f64_of(route_id)),
            checkboxes: self.checkboxes + inputs.filter_map(checkbox_of(route_id)),
            buttons: self.buttons,
        }
    }

    /// The controls after those of a route were added: the controls of its
    /// inputs and one button for the route itself.
    pub open spec fn with_route(self, route_id: u16, route: RouteDataView) -> StateControlsView {
        let inputs = self.with_inputs(route_id, route.inputs);
        StateControlsView { buttons: self.buttons.push(button_of(route_id, route.name)), ..inputs }
    }
}

impl Default for StateControls {
    /// No control.
    fn default() -> (controls: Self)
        ensures
            controls.deep_view() == StateControlsView::empty(),
    {
        let controls = StateControls {
            sliders_u64: Vec::new(),
            sliders_f64: Vec::new(),
            checkboxes: Vec::new(),
            buttons: Vec::new(),
        };
        proof {
            let empty = StateControlsView::empty();
            assert(controls.deep_view().sliders_u64 =~= empty.sliders_u64);
            assert(controls.deep_view().sliders_f64 =~= empty.sliders_f64);
            assert(controls.deep_view().checkboxes =~= empty.checkboxes);
            assert(controls.deep_view().buttons =~= empty.buttons);
        }
        controls
    }
}

impl StateControls {
    /// Inserts the boolean row that stands for a route, not set, and adds
    /// the button of the route. Fails, and changes nothing, when the store
    /// does not hold the route.
    pub fn init_button(
        &mut self,
        db: &mut Store,
        route_name: &str,
        cleaned_route_name: String,
        route_id: u16,
    ) -> (result: Result<(), StoreError>)
        requires
            old(db).wf(),
        ensures
            final(db).wf(),
            match result {
                Ok(_) => {
                    &&& old(db)@.has_route(route_id)
                    &&& final(db)@ == old(db)@.insert_boolean_input(
                        route_name@,
                        false,
                        false,
                        route_id,
                    )
                    &&& final(self).deep_view() == (StateControlsView {
                        buttons: old(self).deep_view().buttons.push(
                            ButtonView { route_id, name: cleaned_route_name@, with_state: false },
                        ),
                        ..old(self).deep_view()
                    })
                },
                Err(error) => {
                    &&& error == StoreError::UnknownRoute
                    &&& !old(db)@.has_route(route_id)
                    &&& final(db)@ == old(db)@
                    &&& final(self).deep_view() == old(self).deep_view()
                },
            },
    {
        match db.insert_boolean_input(route_name, false, false, route_id) {
            Ok(_) => {},
            Err(error) => {
                return Err(error);
            },
        }
        let ghost before = self.buttons;
        let button = Button::init(route_id, cleaned_route_name);
        self.buttons.push(button);
        proof {
            lemma_deep_view_push(before, self.buttons, button);
        }
        Ok(())
    }

    /// Inserts the row of a boolean input, standing at its default, and adds
    /// its checkbox, ticked where the default is. Fails, and changes
    /// nothing, when the store does not hold the route.
    pub fn init_checkbox(
        &mut self,
        db: &mut Store,
        default: bool,
        route_id: u16,
        input_name: String,
    ) -> (result: Result<(), StoreError>)
        requires
            old(db).wf(),
        ensures
            final(db).wf(),
            match result {
                Ok(_) => {
                    &&& old(db)@.has_route(route_id)
                    &&& final(db)@ == old(db)@.insert_boolean_input(
                        input_name@,
                        default,
                        default,
                        route_id,
                    )
                    &&& final(self).deep_view() == (StateControlsView {
                        checkboxes: old(self).deep_view().checkboxes.push(
                            CheckBoxView { route_id, name: input_name@, value: default },
                        ),
                        ..old(self).deep_view()
                    })
                },
                Err(error) => {
                    &&& error == StoreError::UnknownRoute
                    &&& !old(db)@.has_route(route_id)
                    &&& final(db)@ == old(db)@
                    &&& final(self).deep_view() == old(self).deep_view()
                },
            },
    {
        match db.insert_boolean_input(input_name.as_str(), default, default, route_id) {
            Ok(_) => {},
            Err(error) => {
                return Err(error);
            },
        }
        let ghost before = self.checkboxes;
        let checkbox = if default {
            CheckBox::checked(route_id, input_name)
        } else {
            CheckBox::init(route_id, input_name)
        };
        self.checkboxes.push(checkbox);
        proof {
            lemma_deep_view_push(before, self.checkboxes, checkbox);
        }
        Ok(())
    }

    /// Inserts the row of a range input over unsigned integers, standing at
    /// its default, and adds its slider. Fails, and changes nothing, when
    /// the store does not hold the route.
    pub fn init_slider_u64(
        &mut self,
        db: &mut Store,
        route_id: u16,
        input_name: String,
        range: &RangeU64,
    ) -> (result: Result<(), StoreError>)
        requires
            old(db).wf(),
        ensures
            final(db).wf(),
            match result {
                Ok(_) => {
                    &&& old(db)@.has_route(route_id)
                    &&& final(db)@ == old(db)@.insert_rangeu64_input(
                        rangeu64_input_of(input_name@, *range),
                        route_id,
                    )
                    &&& final(self).deep_view() == (StateControlsView {
                        sliders_u64: old(self).deep_view().sliders_u64.push(
                            SliderView {
                                route_id,
                                name: input_name@,
                                min: range.minimum,
                                max: range.maximum,
                                step: range.step,
                                value: range.default,
                            },
                        ),
                        ..old(self).deep_view()
                    })
                },
                Err(error) => {
                    &&& error == StoreError::UnknownRoute
                    &&& !old(db)@.has_route(route_id)
                    &&& final(db)@ == old(db)@
                    &&& final(self).deep_view() == old(self).deep_view()
                },
            },
    {
        let range_db = RangeInput {
            name: input_name.clone(),
            min: range.minimum,
            max: range.maximum,
            step: range.step,
            default: range.default,
            value: range.default,
        };
        match db.insert_rangeu64_input(range_db, route_id) {
            Ok(_) => {},
            Err(error) => {
                return Err(error);
            },
        }
        let ghost before = self.sliders_u64;
        let slider = Slider::<u64>::new(
            route_id,
            input_name,
            range.minimum,
            range.maximum,
            range.step,
            range.default,
        );
        self.sliders_u64.push(slider);
        proof {
            lemma_deep_view_push(before, self.sliders_u64, slider);
        }
        Ok(())
    }

    /// Inserts the row of a range input over double-precision numbers,
    /// standing at its default, and adds its slider. Fails, and changes
    /// nothing, when the store does not hold the route.
    pub fn init_slider_f64(
        &mut self,
        db: &mut Store,
        route_id: u16,
        input_name: String,
        range: &RangeF64,
    ) -> (result: Result<(), StoreError>)
        requires
            old(db).wf(),
        ensures
            final(db).wf(),
            match result {
                Ok(_) => {
                    &&& old(db)@.has_route(route_id)
                    &&& final(db)@ == old(db)@.insert_rangef64_input(
                        rangef64_input_of(input_name@, *range),
                        route_id,
                    )
                    &&& final(self).deep_view() == (StateControlsView {
                        sliders_f64: old(self).deep_view().sliders_f64.push(
                            SliderView {
                                route_id,
                                name: input_name@,
                                min: range.minimum,
                                max: range.maximum,
                                step: range.step,
                                value: range.default,
                            },
                        ),
                        ..old(self).deep_view()
                    })
                },
                Err(error) => {
                    &&& error == StoreError::UnknownRoute
                    &&& !old(db)@.has_route(route_id)
                    &&& final(db)@ == old(db)@
                    &&& final(self).deep_view() == old(self).deep_view()
                },
            },
    {
        let range_db = RangeInput {
            name: input_name.clone(),
            min: range.minimum,
            max: range.maximum,
            step: range.step,
            default: range.default,
            value: range.default,
        };
        match db.insert_rangef64_input(range_db, route_id) {
            Ok(_) => {},
            Err(error) => {
                return Err(error);
            },
        }
        let ghost before = self.sliders_f64;
        let slider = Slider::<Binary64>::new(
            route_id,
            input_name,
            range.minimum,
            range.maximum,
            range.step,
            range.default,
        );
        self.sliders_f64.push(slider);
        proof {
            lemma_deep_view_push(before, self.sliders_f64, slider);
        }
        Ok(())
    }
}

} // verus!
