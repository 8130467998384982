use ascot_gateway::binary64::Binary64;
use ascot_gateway::capability::{
    DeviceData, DeviceKind, Input, InputType, RangeF64, RangeU64, RestKind, RouteConfig, RouteData,
};
use ascot_gateway::database::controls::StateControls;
use ascot_gateway::database::device::{Device, DeviceAddress};
use ascot_gateway::database::query::Store;
use ascot_gateway::database::{
    Address, BooleanRow, HazardRow, MainRouteRow, Metadata, RangeRow, RouteRow, StoreError,
};
use ascot_gateway::decimal::port_to_string;
use ascot_gateway::form::{Button, CheckBox, Slider};

fn number(value: f64) -> Binary64 {
    Binary64::from_bits(value.to_bits())
}

fn range_f64(name: &str, (minimum, maximum, step, default): (f64, f64, f64, f64)) -> Input {
    Input {
        name: name.to_string(),
        datatype: InputType::RangeF64(RangeF64 {
            minimum: number(minimum),
            maximum: number(maximum),
            step: number(step),
            default: number(default),
        }),
    }
}

fn range_u64(name: &str, (minimum, maximum, step, default): (u64, u64, u64, u64)) -> Input {
    Input {
        name: name.to_string(),
        datatype: InputType::RangeU64(RangeU64 { minimum, maximum, step, default }),
    }
}

fn boolean(name: &str, default: bool) -> Input {
    Input { name: name.to_string(), datatype: InputType::Bool(default) }
}

fn route(name: &str, description: Option<&str>, hazards: Vec<u16>, inputs: Vec<Input>) -> RouteConfig {
    RouteConfig {
        rest_kind: RestKind::Put,
        hazards,
        data: RouteData {
            name: name.to_string(),
            description: description.map(str::to_string),
            stateless: false,
            inputs,
        },
    }
}

fn light_on() -> RouteConfig {
    route(
        "/on/<brightness>/<save-energy>",
        Some("Light on"),
        vec![0, 1],
        vec![range_f64("brightness", (0., 20., 0.1, 0.)), boolean("save-energy", false)],
    )
}

/// A light with three routes, of which two take no input.
fn device1() -> Device {
    Device {
        metadata: Metadata {
            id: 1,
            port: 8080,
            scheme: "http".to_string(),
            path: "here".to_string(),
        },
        addresses: Vec::new(),
        data: DeviceData {
            kind: DeviceKind::Light,
            main_route: "/light".to_string(),
            routes: vec![
                light_on(),
                route("/off", Some("Light off"), vec![], vec![]),
                route("/toggle", None, vec![], vec![]),
            ],
        },
        state_controls: StateControls::default(),
    }
}

/// A light with three routes, of which one takes no input.
fn device2() -> Device {
    Device {
        metadata: Metadata {
            id: 2,
            port: 8085,
            scheme: "https".to_string(),
            path: "second".to_string(),
        },
        addresses: Vec::new(),
        data: DeviceData {
            kind: DeviceKind::Light,
            main_route: "/light".to_string(),
            routes: vec![
                light_on(),
                route("/off", Some("Light off"), vec![], vec![]),
                route("/toggle", None, vec![], vec![range_u64("dimmer", (0, 15, 1, 2))]),
            ],
        },
        state_controls: StateControls::default(),
    }
}

/// Clears the store and inserts both sample devices with their manifests.
fn generate_devices_and_init_db(db: &mut Store) -> Result<Vec<Device>, StoreError> {
    let mut devices = vec![device1(), device2()];
    db.clear_all();
    for device in devices.iter_mut() {
        let id = db.insert_device(
            device.metadata.port,
            &device.metadata.scheme,
            &device.metadata.path,
        )?;
        assert_eq!(id, device.metadata.id);
        for address in device.addresses.iter() {
            db.insert_address(address.address.clone(), id)?;
        }
        device.insert_routes(db)?;
    }
    Ok(devices)
}

fn boolean_row(route_id: u16, name: &str, default: bool) -> BooleanRow {
    BooleanRow { route_id, name: name.to_string(), default, value: default }
}

#[test]
fn a_manifest_becomes_rows() {
    let mut db = Store::new();
    let devices = generate_devices_and_init_db(&mut db).unwrap();
    assert_eq!(devices.len(), 2);
    assert_eq!(
        db.main_routes(),
        &vec![
            MainRouteRow { device_id: 1, route: "/light".to_string() },
            MainRouteRow { device_id: 2, route: "/light".to_string() },
        ]
    );
    assert_eq!(
        db.routes(),
        &vec![
            RouteRow { id: 1, device_id: 1, route: "/on/<brightness>/<save-energy>".to_string() },
            RouteRow { id: 2, device_id: 1, route: "/off".to_string() },
            RouteRow { id: 3, device_id: 1, route: "/toggle".to_string() },
            RouteRow { id: 4, device_id: 2, route: "/on/<brightness>/<save-energy>".to_string() },
            RouteRow { id: 5, device_id: 2, route: "/off".to_string() },
            RouteRow { id: 6, device_id: 2, route: "/toggle".to_string() },
        ]
    );
    assert_eq!(
        db.hazards(),
        &vec![
            HazardRow { device_id: 1, hazard_id: 0 },
            HazardRow { device_id: 1, hazard_id: 1 },
            HazardRow { device_id: 2, hazard_id: 0 },
            HazardRow { device_id: 2, hazard_id: 1 },
        ]
    );
    assert_eq!(
        db.booleans(),
        &vec![
            boolean_row(1, "save-energy", false),
            boolean_row(1, "/on/<brightness>/<save-energy>", false),
            boolean_row(2, "/off", false),
            boolean_row(3, "/toggle", false),
            boolean_row(4, "save-energy", false),
            boolean_row(4, "/on/<brightness>/<save-energy>", false),
            boolean_row(5, "/off", false),
            boolean_row(6, "/toggle", false),
        ]
    );
    assert_eq!(
        db.ranges_f64(),
        &vec![
            RangeRow {
                route_id: 1,
                name: "brightness".to_string(),
                min: number(0.),
                max: number(20.),
                step: number(0.1),
                default: number(0.),
                value: number(0.),
            },
            RangeRow {
                route_id: 4,
                name: "brightness".to_string(),
                min: number(0.),
                max: number(20.),
                step: number(0.1),
                default: number(0.),
                value: number(0.),
            },
        ]
    );
    assert_eq!(
        db.ranges_u64(),
        &vec![RangeRow {
            route_id: 6,
            name: "dimmer".to_string(),
            min: 0,
            max: 15,
            step: 1,
            default: 2,
            value: 2,
        }]
    );
}

#[test]
fn a_manifest_becomes_controls() {
    let mut db = Store::new();
    let devices = generate_devices_and_init_db(&mut db).unwrap();
    let first = &devices[0].state_controls;
    assert_eq!(
        first.buttons,
        vec![
            Button { route_id: 1, name: "on".to_string(), with_state: false },
            Button { route_id: 2, name: "off".to_string(), with_state: false },
            Button { route_id: 3, name: "toggle".to_string(), with_state: false },
        ]
    );
    assert_eq!(
        first.checkboxes,
        vec![CheckBox { route_id: 1, name: "save-energy".to_string(), value: false }]
    );
    assert_eq!(
        first.sliders_f64,
        vec![Slider {
            route_id: 1,
            name: "brightness".to_string(),
            min: number(0.),
            max: number(20.),
            step: number(0.1),
            value: number(0.),
        }]
    );
    assert!(first.sliders_u64.is_empty());

    let second = &devices[1].state_controls;
    assert_eq!(
        second.buttons,
        vec![
            Button { route_id: 4, name: "on".to_string(), with_state: false },
            Button { route_id: 5, name: "off".to_string(), with_state: false },
            Button { route_id: 6, name: "toggle".to_string(), with_state: false },
        ]
    );
    assert_eq!(
        second.sliders_u64,
        vec![Slider { route_id: 6, name: "dimmer".to_string(), min: 0, max: 15, step: 1, value: 2 }]
    );
    assert_eq!(second.sliders_f64.len(), 1);
    assert_eq!(second.checkboxes.len(), 1);
}

#[test]
fn a_route_without_inputs_makes_one_button_and_one_boolean_row() {
    let mut db = Store::new();
    let id = db.insert_device(80, "http", "/").unwrap();
    let mut device = Device {
        metadata: Metadata { id, port: 80, scheme: "http".to_string(), path: "/".to_string() },
        addresses: Vec::new(),
        data: DeviceData {
            kind: DeviceKind::Light,
            main_route: "/light".to_string(),
            routes: vec![route("/off", None, vec![], vec![])],
        },
        state_controls: StateControls::default(),
    };
    assert_eq!(device.insert_routes(&mut db), Ok(()));
    assert_eq!(db.booleans(), &vec![boolean_row(1, "/off", false)]);
    assert!(db.ranges_u64().is_empty());
    assert!(db.ranges_f64().is_empty());
    assert_eq!(
        device.state_controls.buttons,
        vec![Button { route_id: 1, name: "off".to_string(), with_state: false }]
    );
    assert!(device.state_controls.checkboxes.is_empty());
    assert!(device.state_controls.sliders_u64.is_empty());
    assert!(device.state_controls.sliders_f64.is_empty());
}

#[test]
fn every_input_makes_one_control_and_every_route_one_button() {
    let mut db = Store::new();
    let id = db.insert_device(80, "http", "/").unwrap();
    let inputs = vec![
        boolean("a", true),
        range_u64("b", (1, 9, 2, 3)),
        boolean("c", false),
        range_f64("d", (-1., 1., 0.5, 0.5)),
        range_u64("e", (0, 1, 1, 0)),
    ];
    let mut device = Device {
        metadata: Metadata { id, port: 80, scheme: "http".to_string(), path: "/".to_string() },
        addresses: Vec::new(),
        data: DeviceData {
            kind: DeviceKind::Unknown,
            main_route: "/main".to_string(),
            routes: vec![
                route("/set/<a>", None, vec![], inputs),
                route("/one", None, vec![], vec![boolean("x", false)]),
            ],
        },
        state_controls: StateControls::default(),
    };
    assert_eq!(device.insert_routes(&mut db), Ok(()));
    let controls = &device.state_controls;
    assert_eq!(controls.buttons.len(), 2);
    assert_eq!(
        controls.checkboxes.len() + controls.sliders_u64.len() + controls.sliders_f64.len(),
        6
    );
    assert_eq!(
        controls.checkboxes,
        vec![
            CheckBox { route_id: 1, name: "a".to_string(), value: true },
            CheckBox { route_id: 1, name: "c".to_string(), value: false },
            CheckBox { route_id: 2, name: "x".to_string(), value: false },
        ]
    );
    assert_eq!(
        controls.sliders_u64,
        vec![
            Slider { route_id: 1, name: "b".to_string(), min: 1, max: 9, step: 2, value: 3 },
            Slider { route_id: 1, name: "e".to_string(), min: 0, max: 1, step: 1, value: 0 },
        ]
    );
    assert_eq!(
        controls.sliders_f64,
        vec![Slider {
            route_id: 1,
            name: "d".to_string(),
            min: number(-1.),
            max: number(1.),
            step: number(0.5),
            value: number(0.5),
        }]
    );
    assert_eq!(
        db.booleans(),
        &vec![
            boolean_row(1, "a", true),
            boolean_row(1, "c", false),
            boolean_row(1, "/set/<a>", false),
            boolean_row(2, "x", false),
            boolean_row(2, "/one", false),
        ]
    );
    assert_eq!(db.ranges_u64().len(), 2);
    assert_eq!(db.ranges_f64().len(), 1);
}

#[test]
fn insert_routes_continues_controls_that_are_there() {
    let mut db = Store::new();
    let id = db.insert_device(80, "http", "/").unwrap();
    let mut device = device1();
    device.metadata.id = id;
    device.state_controls.buttons.push(Button::with_state(77, "kept".to_string()));
    assert_eq!(device.insert_routes(&mut db), Ok(()));
    assert_eq!(device.state_controls.buttons.len(), 4);
    assert_eq!(
        device.state_controls.buttons[0],
        Button { route_id: 77, name: "kept".to_string(), with_state: true }
    );
}

#[test]
fn insert_routes_of_an_unknown_device_changes_nothing() {
    let mut db = Store::new();
    db.insert_device(80, "http", "/").unwrap();
    let before = db.clone();
    let mut device = device2();
    assert_eq!(device.insert_routes(&mut db), Err(StoreError::UnknownDevice));
    assert_eq!(db, before);
    assert_eq!(device, device2());
}

#[test]
fn insert_routes_without_enough_identifiers_changes_nothing() {
    let mut db = Store::new();
    let id = db.insert_device(80, "http", "/").unwrap();
    for _ in 0..(u16::MAX - 2) {
        db.insert_route("/r", id).unwrap();
    }
    assert_eq!(db.route_ids_left(), 2);
    let before = db.clone();
    let mut device = device1();
    assert_eq!(device.insert_routes(&mut db), Err(StoreError::IdsExhausted));
    assert_eq!(db, before);
    assert_eq!(device, device1());

    device.data.routes.pop();
    assert_eq!(device.insert_routes(&mut db), Ok(()));
    assert_eq!(db.route_ids_left(), 0);
    assert_eq!(device.state_controls.buttons.len(), 2);
    assert_eq!(device.state_controls.buttons[1].route_id, u16::MAX);
}

#[test]
fn inserted_manifest_is_deleted_whole() {
    let mut db = Store::new();
    let other = db.insert_device(1, "http", "/other").unwrap();
    db.insert_address("10.0.0.9".to_string(), other).unwrap();
    let route_id = db.insert_route("/r", other).unwrap();
    db.insert_boolean_input("/r", false, false, route_id).unwrap();
    let before = db.clone();

    let id = db.insert_device(8080, "http", "here").unwrap();
    db.insert_address("10.0.0.1".to_string(), id).unwrap();
    let mut device = device2();
    device.metadata.id = id;
    assert_eq!(device.insert_routes(&mut db), Ok(()));
    assert_eq!(db.routes().len(), 4);

    db.delete_device(id);
    assert_eq!(db.devices(), before.devices());
    assert_eq!(db.addresses(), before.addresses());
    assert_eq!(db.hazards(), before.hazards());
    assert_eq!(db.main_routes(), before.main_routes());
    assert_eq!(db.routes(), before.routes());
    assert_eq!(db.booleans(), before.booleans());
    assert_eq!(db.ranges_u64(), before.ranges_u64());
    assert_eq!(db.ranges_f64(), before.ranges_f64());
}

#[test]
fn new_device_needs_a_manifest() {
    let metadata = Metadata::fake1();
    assert_eq!(Device::new(metadata.clone(), Vec::new(), None), None);
    let data = device1().data;
    let device = Device::new(metadata.clone(), Vec::new(), Some(data.clone())).unwrap();
    assert_eq!(device.metadata, metadata);
    assert_eq!(device.data, data);
    assert!(device.addresses.is_empty());
    assert_eq!(device.state_controls, StateControls::default());
}

#[test]
fn default_controls_are_empty() {
    let controls = StateControls::default();
    assert!(controls.buttons.is_empty());
    assert!(controls.checkboxes.is_empty());
    assert!(controls.sliders_u64.is_empty());
    assert!(controls.sliders_f64.is_empty());
}

fn ip(address: &str) -> Option<Address> {
    Some(Address { address: address.to_string() })
}

#[test]
fn addresses_make_requests() {
    let metadata = Metadata {
        id: 3,
        port: 8080,
        scheme: "http".to_string(),
        path: "/.well-known/ascot".to_string(),
    };
    let addresses = vec![ip("192.168.1.2"), ip("fe80::1")];
    assert_eq!(
        DeviceAddress::addresses(&metadata, addresses),
        vec![
            DeviceAddress {
                recheable: true,
                address: "192.168.1.2".to_string(),
                request: "http://192.168.1.2:8080/.well-known/ascot".to_string(),
            },
            DeviceAddress {
                recheable: true,
                address: "fe80::1".to_string(),
                request: "http://fe80::1:8080/.well-known/ascot".to_string(),
            },
        ]
    );
    assert!(DeviceAddress::addresses(&metadata, Vec::new()).is_empty());
}

#[test]
fn a_text_that_is_no_ip_address_makes_no_candidate() {
    let metadata = Metadata {
        id: 1,
        port: 8080,
        scheme: "http".to_string(),
        path: "/.well-known/ascot".to_string(),
    };
    // What the texts "192.168.1.5", "not-an-ip" and "10.0.0.7" are read as.
    let addresses = vec![ip("192.168.1.5"), None, ip("10.0.0.7")];
    let result = DeviceAddress::addresses(&metadata, addresses);
    assert_eq!(result.len(), 2);
    assert_eq!(result[0].address, "192.168.1.5");
    assert_eq!(result[0].request, "http://192.168.1.5:8080/.well-known/ascot");
    assert_eq!(result[1].address, "10.0.0.7");
    assert_eq!(result[1].request, "http://10.0.0.7:8080/.well-known/ascot");
    assert!(result[0].recheable);
    assert!(result[1].recheable);
}

#[test]
fn texts_of_which_none_is_an_ip_address_make_no_candidate() {
    let metadata = Metadata::fake1();
    assert!(DeviceAddress::addresses(&metadata, vec![None, None]).is_empty());
    let last = DeviceAddress::addresses(&metadata, vec![None, None, ip("10.0.0.1")]);
    assert_eq!(last.len(), 1);
    assert_eq!(last[0].request, "http://10.0.0.1:8080here");
    let first = DeviceAddress::addresses(&metadata, vec![ip("10.0.0.2"), None]);
    assert_eq!(first.len(), 1);
    assert_eq!(first[0].address, "10.0.0.2");
}

#[test]
fn new_address_is_reachable() {
    let address = DeviceAddress::new("https://h:1/p".to_string(), "h".to_string());
    assert!(address.recheable);
    assert_eq!(address.address, "h");
    assert_eq!(address.request, "https://h:1/p");
}

#[test]
fn ports_are_written_in_decimal() {
    assert_eq!(port_to_string(0), "0");
    assert_eq!(port_to_string(7), "7");
    assert_eq!(port_to_string(10), "10");
    assert_eq!(port_to_string(443), "443");
    assert_eq!(port_to_string(8080), "8080");
    assert_eq!(port_to_string(65535), "65535");
    for port in [1u16, 9, 99, 100, 1000, 9999, 10000, 12345, 60006] {
        assert_eq!(port_to_string(port), port.to_string());
    }
}

#[test]
fn a_device_is_reachable_while_one_address_is() {
    let mut device = device1();
    assert!(!device.is_recheable());
    device.addresses = vec![
        DeviceAddress { recheable: false, address: "a".to_string(), request: "ra".to_string() },
        DeviceAddress { recheable: true, address: "b".to_string(), request: "rb".to_string() },
    ];
    assert!(device.is_recheable());
    device.addresses[1].recheable = false;
    assert!(!device.is_recheable());
}

#[test]
fn controls_follow_their_rows() {
    let mut db = Store::new();
    let device = db.insert_device(80, "http", "/").unwrap();
    let route_id = db.insert_route("/on/<x>", device).unwrap();
    let mut controls = StateControls::default();

    assert_eq!(controls.init_checkbox(&mut db, true, route_id, "x".to_string()), Ok(()));
    assert_eq!(
        controls.init_slider_u64(
            &mut db,
            route_id,
            "n".to_string(),
            &RangeU64 { minimum: 1, maximum: 5, step: 2, default: 3 },
        ),
        Ok(())
    );
    assert_eq!(
        controls.init_slider_f64(
            &mut db,
            route_id,
            "r".to_string(),
            &RangeF64 { minimum: number(0.), maximum: number(1.), step: number(0.25), default: number(0.75) },
        ),
        Ok(())
    );
    assert_eq!(controls.init_button(&mut db, "/on/<x>", "on".to_string(), route_id), Ok(()));

    assert_eq!(controls.checkboxes, vec![CheckBox::checked(route_id, "x".to_string())]);
    assert_eq!(
        controls.sliders_u64,
        vec![Slider::new(route_id, "n".to_string(), 1, 5, 2, 3)]
    );
    assert_eq!(
        controls.sliders_f64,
        vec![Slider::new(route_id, "r".to_string(), number(0.), number(1.), number(0.25), number(0.75))]
    );
    assert_eq!(controls.buttons, vec![Button::init(route_id, "on".to_string())]);
    assert_eq!(
        db.booleans(),
        &vec![boolean_row(route_id, "x", true), boolean_row(route_id, "/on/<x>", false)]
    );
    assert_eq!(db.ranges_u64()[0].value, 3);
    assert_eq!(f64::from_bits(db.ranges_f64()[0].value.to_bits()), 0.75);
    assert_eq!(f64::from_bits(db.ranges_f64()[0].default.to_bits()), 0.75);
}

#[test]
fn controls_of_an_unknown_route_are_refused() {
    let mut db = Store::new();
    let mut controls = StateControls::default();
    let range = RangeU64 { minimum: 1, maximum: 5, step: 2, default: 3 };
    let reals =
        RangeF64 { minimum: number(0.), maximum: number(1.), step: number(0.25), default: number(0.75) };
    assert_eq!(
        controls.init_checkbox(&mut db, true, 1, "x".to_string()),
        Err(StoreError::UnknownRoute)
    );
    assert_eq!(
        controls.init_slider_u64(&mut db, 1, "n".to_string(), &range),
        Err(StoreError::UnknownRoute)
    );
    assert_eq!(
        controls.init_slider_f64(&mut db, 1, "r".to_string(), &reals),
        Err(StoreError::UnknownRoute)
    );
    assert_eq!(
        controls.init_button(&mut db, "/on", "on".to_string(), 1),
        Err(StoreError::UnknownRoute)
    );
    assert_eq!(controls, StateControls::default());
    assert_eq!(db, Store::new());
}
