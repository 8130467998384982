use ascot_gateway::binary64::Binary64;
use ascot_gateway::controller::{Controller, Fridge, Light};
use ascot_gateway::form::{Button, CheckBox, Slider};

#[test]
fn plain_button() {
    let button = Button::init(3, "on".to_string());
    assert_eq!(button, Button { route_id: 3, name: "on".to_string(), with_state: false });
}

#[test]
fn button_with_state() {
    let button = Button::with_state(4, "toggle".to_string());
    assert_eq!(button, Button { route_id: 4, name: "toggle".to_string(), with_state: true });
}

#[test]
fn slider_over_integers() {
    let slider = Slider::<u64>::new(5, "dimmer".to_string(), 0, 15, 1, 2);
    assert_eq!(slider.route_id, 5);
    assert_eq!(slider.name, "dimmer");
    assert_eq!((slider.min, slider.max, slider.step, slider.value), (0, 15, 1, 2));
}

#[test]
fn slider_over_reals() {
    let bits = |value: f64| Binary64::from_bits(value.to_bits());
    let slider = Slider::new(6, "brightness".to_string(), bits(0.), bits(20.), bits(0.1), bits(0.));
    assert_eq!(f64::from_bits(slider.min.to_bits()), 0.);
    assert_eq!(f64::from_bits(slider.max.to_bits()), 20.);
    assert_eq!(f64::from_bits(slider.step.to_bits()), 0.1);
    assert_eq!(f64::from_bits(slider.value.to_bits()), 0.);
}

#[test]
fn checkbox_not_ticked() {
    assert_eq!(
        CheckBox::init(7, "save-energy".to_string()),
        CheckBox { route_id: 7, name: "save-energy".to_string(), value: false }
    );
}

#[test]
fn checkbox_ticked() {
    assert_eq!(
        CheckBox::checked(8, "save-energy".to_string()),
        CheckBox { route_id: 8, name: "save-energy".to_string(), value: true }
    );
}

#[test]
fn binary64_keeps_the_bits() {
    for value in [0.0f64, -0.0, 0.1, 20.0, f64::MAX, f64::MIN_POSITIVE, f64::INFINITY] {
        assert_eq!(Binary64::from_bits(value.to_bits()).to_bits(), value.to_bits());
    }
    assert!(f64::from_bits(Binary64::from_bits(f64::NAN.to_bits()).to_bits()).is_nan());
    assert_ne!(Binary64::from_bits(0.0f64.to_bits()), Binary64::from_bits((-0.0f64).to_bits()));
}

#[test]
fn light_controller() {
    assert_eq!(
        Controller::light(),
        Controller::Light(Light { on: false, off: true, toggle: false })
    );
}

#[test]
fn fridge_controller() {
    assert_eq!(Controller::fridge(), Controller::Fridge(Fridge { camera: false }));
}
