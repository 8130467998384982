use ascot_gateway::binary64::Binary64;
use ascot_gateway::capability::{
    DeviceData, DeviceKind, Input, InputType, RangeF64, RestKind, RouteConfig, RouteData,
};
use ascot_gateway::database::query::Store;
use ascot_gateway::database::{AddressRow, BooleanRow, Metadata, StoreError};
use ascot_gateway::discovery::{
    save_device, search_devices, DiscoveredDevice, Pass, PassError, PassState, Property,
    DEFAULT_SCHEME, WELL_KNOWN_URI,
};
use ascot_gateway::form::{Button, CheckBox, Slider};
use ascot_gateway::hazards::{all_hazards, merge};

fn number(value: f64) -> Binary64 {
    Binary64::from_bits(value.to_bits())
}

fn record(port: u16, addresses: &[&str]) -> DiscoveredDevice {
    DiscoveredDevice {
        port,
        scheme: None,
        path: None,
        addresses: addresses.iter().map(|address| address.to_string()).collect(),
        properties: Vec::new(),
    }
}

fn route(name: &str, hazards: Vec<u16>, inputs: Vec<Input>) -> RouteConfig {
    RouteConfig {
        rest_kind: RestKind::Put,
        hazards,
        data: RouteData { name: name.to_string(), description: None, stateless: false, inputs },
    }
}

/// A light with a route that takes two inputs and a route that takes none.
fn light() -> DeviceData {
    DeviceData {
        kind: DeviceKind::Light,
        main_route: "/light".to_string(),
        routes: vec![
            route(
                "/on/<b>/<s>",
                vec![0, 1],
                vec![
                    Input {
                        name: "brightness".to_string(),
                        datatype: InputType::RangeF64(RangeF64 {
                            minimum: number(0.),
                            maximum: number(20.),
                            step: number(0.1),
                            default: number(0.),
                        }),
                    },
                    Input { name: "save-energy".to_string(), datatype: InputType::Bool(false) },
                ],
            ),
            route("/off", vec![], vec![]),
        ],
    }
}

fn fridge() -> DeviceData {
    DeviceData {
        kind: DeviceKind::Fridge,
        main_route: "/fridge".to_string(),
        routes: vec![route("/open", vec![1, 5], vec![])],
    }
}

fn used_store() -> Store {
    let mut db = Store::new();
    let id = db.insert_device(1, "http", "/old").unwrap();
    db.insert_address("10.9.9.9".to_string(), id).unwrap();
    let route_id = db.insert_route("/old", id).unwrap();
    db.insert_boolean_input("/old", true, true, route_id).unwrap();
    db
}

#[test]
fn records_without_addresses_are_dropped() {
    let found = vec![
        record(1, &["10.0.0.1"]),
        record(2, &[]),
        record(3, &["10.0.0.3", "10.0.0.4"]),
        record(4, &[]),
    ];
    let kept = search_devices(found);
    assert_eq!(kept, vec![record(1, &["10.0.0.1"]), record(3, &["10.0.0.3", "10.0.0.4"])]);
    assert!(search_devices(Vec::new()).is_empty());
    assert!(search_devices(vec![record(9, &[])]).is_empty());
}

#[test]
fn a_device_is_saved_with_defaults() {
    let mut db = Store::new();
    let metadata = save_device(&mut db, &record(8080, &["10.0.0.1", "10.0.0.2"])).unwrap();
    assert_eq!(DEFAULT_SCHEME, "http");
    assert_eq!(WELL_KNOWN_URI, "/.well-known/ascot");
    assert_eq!(
        metadata,
        Metadata {
            id: 1,
            port: 8080,
            scheme: "http".to_string(),
            path: "/.well-known/ascot".to_string()
        }
    );
    assert_eq!(db.devices(), &vec![metadata]);
    assert_eq!(
        db.addresses(),
        &vec![
            AddressRow { device_id: 1, address: "10.0.0.1".to_string() },
            AddressRow { device_id: 1, address: "10.0.0.2".to_string() },
        ]
    );
}

#[test]
fn a_device_is_saved_with_what_it_advertises() {
    let mut db = used_store();
    let advertised = DiscoveredDevice {
        port: 443,
        scheme: Some("https".to_string()),
        path: Some("/manifest".to_string()),
        addresses: vec!["10.0.0.1".to_string()],
        properties: vec![Property { key: "vendor".to_string(), value: "acme".to_string() }],
    };
    let metadata = save_device(&mut db, &advertised).unwrap();
    assert_eq!(
        metadata,
        Metadata {
            id: 2,
            port: 443,
            scheme: "https".to_string(),
            path: "/manifest".to_string()
        }
    );
    assert_eq!(db.devices()[1], metadata);
    assert_eq!(db.addresses().len(), 2);
}

#[test]
fn an_empty_batch_leaves_the_store_as_it_was() {
    let mut db = used_store();
    let before = db.clone();
    let pass = Pass::start(&mut db, Vec::new());
    assert_eq!(pass.state(), PassState::Completed);
    assert_eq!(pass.request(), None);
    assert!(!pass.cleared_store());
    assert_eq!(db, before);
    assert_eq!(pass.finish(), Ok(Vec::new()));
    assert_eq!(db, before);
}

#[test]
fn a_batch_without_addresses_leaves_the_store_as_it_was() {
    let mut db = used_store();
    let before = db.clone();
    let mut pass = Pass::start(&mut db, vec![record(1, &[]), record(2, &[])]);
    assert!(!pass.cleared_store());
    assert_eq!(pass.state(), PassState::Completed);
    assert_eq!(pass.request(), None);
    pass.respond(&mut db, Some(light()));
    assert_eq!(db, before);
    assert_eq!(pass.finish(), Ok(Vec::new()));
}

#[test]
fn a_pass_from_manifest_to_controls() {
    let mut db = used_store();
    let mut pass = Pass::start(&mut db, vec![record(8080, &["10.0.0.1"])]);
    assert_eq!(pass.state(), PassState::PerDevice);
    assert!(pass.cleared_store());
    assert_eq!(pass.request(), Some("http://10.0.0.1:8080/.well-known/ascot"));
    assert_eq!(db.devices().len(), 1);
    assert_eq!(db.devices()[0].id, 1);
    assert_eq!(db.addresses().len(), 1);
    assert!(db.routes().is_empty());
    assert!(db.booleans().is_empty());

    pass.respond(&mut db, Some(light()));
    assert_eq!(pass.state(), PassState::Completed);
    assert_eq!(pass.request(), None);

    let devices = pass.finish().unwrap();
    assert_eq!(devices.len(), 1);
    let device = &devices[0];
    assert_eq!(device.metadata.id, 1);
    assert_eq!(device.data, light());
    assert_eq!(device.addresses.len(), 1);
    assert!(device.addresses[0].recheable);
    assert!(device.is_recheable());
    assert_eq!(
        device.state_controls.buttons,
        vec![
            Button { route_id: 1, name: "on".to_string(), with_state: false },
            Button { route_id: 2, name: "off".to_string(), with_state: false },
        ]
    );
    assert_eq!(
        device.state_controls.sliders_f64,
        vec![Slider {
            route_id: 1,
            name: "brightness".to_string(),
            min: number(0.),
            max: number(20.),
            step: number(0.1),
            value: number(0.),
        }]
    );
    assert_eq!(
        device.state_controls.checkboxes,
        vec![CheckBox { route_id: 1, name: "save-energy".to_string(), value: false }]
    );
    assert!(device.state_controls.sliders_u64.is_empty());

    let row = |route_id: u16, name: &str| BooleanRow {
        route_id,
        name: name.to_string(),
        default: false,
        value: false,
    };
    assert_eq!(
        db.booleans(),
        &vec![row(1, "save-energy"), row(1, "/on/<b>/<s>"), row(2, "/off")]
    );
    assert_eq!(db.ranges_f64().len(), 1);
    assert_eq!(db.ranges_f64()[0].name, "brightness");
    assert!(db.ranges_u64().is_empty());
    assert_eq!(db.main_routes().len(), 1);
    assert_eq!(db.main_routes()[0].route, "/light");
    assert_eq!(db.routes().len(), 2);
    assert_eq!(db.all_hazards(), vec![0, 1]);
}

#[test]
fn a_pass_asks_the_addresses_in_order_and_drops_silent_devices() {
    let mut db = used_store();
    let found = vec![
        record(80, &["10.0.0.1", "10.0.0.2", "10.0.0.3"]),
        record(81, &[]),
        record(82, &["10.0.1.1", "10.0.1.2"]),
        record(83, &["10.0.2.1"]),
    ];
    let mut pass = Pass::start(&mut db, found);

    assert_eq!(pass.request(), Some("http://10.0.0.1:80/.well-known/ascot"));
    pass.respond(&mut db, None);
    assert_eq!(pass.request(), Some("http://10.0.0.2:80/.well-known/ascot"));
    pass.respond(&mut db, Some(light()));

    assert_eq!(pass.request(), Some("http://10.0.1.1:82/.well-known/ascot"));
    assert!(db.has_device(2));
    pass.respond(&mut db, None);
    assert_eq!(pass.request(), Some("http://10.0.1.2:82/.well-known/ascot"));
    pass.respond(&mut db, None);
    assert!(!db.has_device(2));

    assert_eq!(pass.state(), PassState::PerDevice);
    assert_eq!(pass.request(), Some("http://10.0.2.1:83/.well-known/ascot"));
    pass.respond(&mut db, Some(fridge()));
    assert_eq!(pass.state(), PassState::Completed);
    assert_eq!(pass.request(), None);

    let devices = pass.finish().unwrap();
    assert_eq!(devices.len(), 2);
    assert_eq!(devices[0].metadata.id, 1);
    assert_eq!(devices[0].metadata.port, 80);
    assert_eq!(devices[1].metadata.id, 3);
    assert_eq!(devices[1].metadata.port, 83);
    assert_eq!(devices[1].data, fridge());

    let reachable: Vec<bool> = devices[0].addresses.iter().map(|a| a.recheable).collect();
    assert_eq!(reachable, vec![false, true, true]);
    assert_eq!(devices[0].addresses[2].request, "http://10.0.0.3:80/.well-known/ascot");

    let ids: Vec<u16> = db.devices().iter().map(|device| device.id).collect();
    assert_eq!(ids, vec![1, 3]);
    let owners: Vec<u16> = db.addresses().iter().map(|row| row.device_id).collect();
    assert_eq!(owners, vec![1, 1, 1, 3]);
    let routes: Vec<(u16, u16)> = db.routes().iter().map(|row| (row.id, row.device_id)).collect();
    assert_eq!(routes, vec![(1, 1), (2, 1), (3, 3)]);
    assert_eq!(devices[1].state_controls.buttons[0].route_id, 3);
    assert_eq!(devices[1].state_controls.buttons[0].name, "open");
    assert_eq!(all_hazards(&devices), vec![0, 1, 5]);
    assert_eq!(db.all_hazards(), vec![0, 1, 5]);
}

#[test]
fn a_pass_in_which_no_device_answers_leaves_an_empty_store() {
    let mut db = used_store();
    let mut pass = Pass::start(&mut db, vec![record(80, &["a"]), record(81, &["b", "c"])]);
    let mut asked = Vec::new();
    while let Some(request) = pass.request() {
        asked.push(request.to_string());
        pass.respond(&mut db, None);
    }
    assert_eq!(
        asked,
        vec![
            "http://a:80/.well-known/ascot".to_string(),
            "http://b:81/.well-known/ascot".to_string(),
            "http://c:81/.well-known/ascot".to_string(),
        ]
    );
    assert_eq!(pass.finish(), Ok(Vec::new()));
    assert!(db.is_db_empty());
    assert!(db.addresses().is_empty());
    assert!(db.booleans().is_empty());
    assert!(db.routes().is_empty());
}

#[test]
fn an_unfinished_pass_has_no_result() {
    let mut db = Store::new();
    let pass = Pass::start(&mut db, vec![record(80, &["a"])]);
    assert_eq!(pass.state(), PassState::PerDevice);
    assert_eq!(pass.finish(), Err(PassError::Unfinished));
}

#[test]
fn a_pass_is_aborted_when_the_store_refuses() {
    let mut db = Store::new();
    let mut pass = Pass::start(&mut db, vec![record(80, &["a"]), record(81, &["b"])]);
    let device = db.devices()[0].id;
    for _ in 0..(u16::MAX - 1) {
        db.insert_route("/filler", device).unwrap();
    }
    let before = db.clone();
    pass.respond(&mut db, Some(light()));
    assert_eq!(pass.state(), PassState::Aborted);
    assert_eq!(pass.request(), None);
    assert_eq!(db, before);
    pass.respond(&mut db, Some(light()));
    assert_eq!(db, before);
    assert_eq!(pass.finish(), Err(PassError::Store(StoreError::IdsExhausted)));
}

#[test]
fn a_pass_is_aborted_when_its_device_is_gone() {
    let mut db = Store::new();
    let mut pass = Pass::start(&mut db, vec![record(80, &["a"])]);
    db.clear_all();
    pass.respond(&mut db, Some(light()));
    assert_eq!(pass.state(), PassState::Aborted);
    assert_eq!(pass.finish(), Err(PassError::Store(StoreError::UnknownDevice)));
}

#[test]
fn an_invalid_manifest_is_no_answer() {
    let mut db = Store::new();
    let mut pass = Pass::start(&mut db, vec![record(80, &["a", "b"])]);
    let mut invalid = light();
    invalid.routes[0].hazards = vec![3, 3];
    pass.respond(&mut db, Some(invalid));
    assert_eq!(pass.request(), Some("http://b:80/.well-known/ascot"));
    pass.respond(&mut db, Some(light()));
    let devices = pass.finish().unwrap();
    assert!(!devices[0].addresses[0].recheable);
    assert!(devices[0].addresses[1].recheable);
}

#[test]
fn hazards_are_merged_once() {
    let mut seen = vec![4, 2];
    merge(&mut seen, &vec![2, 9, 4, 9, 1]);
    assert_eq!(seen, vec![4, 2, 9, 1]);
    merge(&mut seen, &Vec::new());
    assert_eq!(seen, vec![4, 2, 9, 1]);
    let mut none = Vec::new();
    merge(&mut none, &vec![3, 3, 3]);
    assert_eq!(none, vec![3]);
    assert!(all_hazards(&Vec::new()).is_empty());
}
