use ascot_gateway::binary64::Binary64;
use ascot_gateway::database::query::Store;
use ascot_gateway::database::{
    AddressRow, BooleanRow, HazardRow, MainRouteRow, Metadata, RangeInput, RangeRow, RouteRow,
    StoreError,
};

fn range_u64(name: &str) -> RangeInput<u64> {
    RangeInput { name: name.to_string(), min: 0, max: 15, step: 1, default: 2, value: 2 }
}

fn range_f64(name: &str) -> RangeInput<Binary64> {
    RangeInput {
        name: name.to_string(),
        min: Binary64::from_bits(0.0f64.to_bits()),
        max: Binary64::from_bits(20.0f64.to_bits()),
        step: Binary64::from_bits(0.1f64.to_bits()),
        default: Binary64::from_bits(0.0f64.to_bits()),
        value: Binary64::from_bits(0.0f64.to_bits()),
    }
}

/// A store with two devices: the first with two routes and inputs on both,
/// the second with one route.
fn two_devices() -> Store {
    let mut db = Store::new();
    let first = db.insert_device(8080, "http", "/here").unwrap();
    db.insert_address("192.168.1.2".to_string(), first).unwrap();
    db.insert_address("fe80::1".to_string(), first).unwrap();
    db.insert_hazard(0, first).unwrap();
    db.insert_hazard(1, first).unwrap();
    db.insert_main_route("/light", first).unwrap();
    let on = db.insert_route("/on", first).unwrap();
    db.insert_rangef64_input(range_f64("brightness"), on).unwrap();
    db.insert_boolean_input("save-energy", false, false, on).unwrap();
    db.insert_boolean_input("/on", false, false, on).unwrap();

    let second = db.insert_device(8085, "https", "/second").unwrap();
    db.insert_address("192.168.1.3".to_string(), second).unwrap();
    db.insert_hazard(1, second).unwrap();
    db.insert_main_route("/fridge", second).unwrap();
    let open = db.insert_route("/open", second).unwrap();
    db.insert_rangeu64_input(range_u64("angle"), open).unwrap();
    db.insert_boolean_input("/open", false, false, open).unwrap();

    let toggle = db.insert_route("/toggle", first).unwrap();
    db.insert_rangeu64_input(range_u64("dimmer"), toggle).unwrap();
    db.insert_boolean_input("/toggle", true, true, toggle).unwrap();
    db
}

#[test]
fn new_store_is_empty() {
    let db = Store::new();
    assert!(db.is_db_empty());
    assert!(db.devices().is_empty());
    assert!(db.addresses().is_empty());
    assert!(db.hazards().is_empty());
    assert!(db.main_routes().is_empty());
    assert!(db.routes().is_empty());
    assert!(db.booleans().is_empty());
    assert!(db.ranges_u64().is_empty());
    assert!(db.ranges_f64().is_empty());
    assert_eq!(db.device_ids_left(), u16::MAX);
    assert_eq!(db.route_ids_left(), u16::MAX);
}

#[test]
fn insert_device_hands_out_identifiers_from_one() {
    let mut db = Store::new();
    assert_eq!(db.insert_device(8080, "http", "/a"), Ok(1));
    assert_eq!(db.insert_device(8081, "https", "/b"), Ok(2));
    assert_eq!(db.insert_device(8082, "http", "/c"), Ok(3));
    assert_eq!(
        db.devices(),
        &vec![
            Metadata { id: 1, port: 8080, scheme: "http".to_string(), path: "/a".to_string() },
            Metadata { id: 2, port: 8081, scheme: "https".to_string(), path: "/b".to_string() },
            Metadata { id: 3, port: 8082, scheme: "http".to_string(), path: "/c".to_string() },
        ]
    );
    assert!(!db.is_db_empty());
    assert!(db.has_device(2));
    assert!(!db.has_device(4));
    assert!(!db.has_device(0));
    assert_eq!(db.device_ids_left(), u16::MAX - 3);
}

#[test]
fn insert_route_hands_out_identifiers_from_one() {
    let mut db = Store::new();
    let device = db.insert_device(8080, "http", "/a").unwrap();
    assert_eq!(db.insert_route("/on", device), Ok(1));
    assert_eq!(db.insert_route("/off", device), Ok(2));
    assert_eq!(
        db.routes(),
        &vec![
            RouteRow { id: 1, device_id: 1, route: "/on".to_string() },
            RouteRow { id: 2, device_id: 1, route: "/off".to_string() },
        ]
    );
    assert!(db.has_route(1));
    assert!(db.has_route(2));
    assert!(!db.has_route(3));
    assert_eq!(db.route_ids_left(), u16::MAX - 2);
}

#[test]
fn rows_of_an_unknown_device_are_refused() {
    let mut db = Store::new();
    db.insert_device(8080, "http", "/a").unwrap();
    let before = db.clone();
    assert_eq!(db.insert_address("10.0.0.1".to_string(), 2), Err(StoreError::UnknownDevice));
    assert_eq!(db.insert_hazard(3, 2), Err(StoreError::UnknownDevice));
    assert_eq!(db.insert_main_route("/light", 2), Err(StoreError::UnknownDevice));
    assert_eq!(db.insert_route("/on", 2), Err(StoreError::UnknownDevice));
    assert_eq!(db, before);
}

#[test]
fn rows_of_an_unknown_route_are_refused() {
    let mut db = Store::new();
    let device = db.insert_device(8080, "http", "/a").unwrap();
    db.insert_route("/on", device).unwrap();
    let before = db.clone();
    assert_eq!(db.insert_boolean_input("x", true, true, 2), Err(StoreError::UnknownRoute));
    assert_eq!(db.insert_rangeu64_input(range_u64("y"), 2), Err(StoreError::UnknownRoute));
    assert_eq!(db.insert_rangef64_input(range_f64("z"), 2), Err(StoreError::UnknownRoute));
    assert_eq!(db, before);
}

#[test]
fn rows_are_stored_as_given() {
    let db = two_devices();
    assert_eq!(
        db.addresses(),
        &vec![
            AddressRow { device_id: 1, address: "192.168.1.2".to_string() },
            AddressRow { device_id: 1, address: "fe80::1".to_string() },
            AddressRow { device_id: 2, address: "192.168.1.3".to_string() },
        ]
    );
    assert_eq!(
        db.hazards(),
        &vec![
            HazardRow { device_id: 1, hazard_id: 0 },
            HazardRow { device_id: 1, hazard_id: 1 },
            HazardRow { device_id: 2, hazard_id: 1 },
        ]
    );
    assert_eq!(
        db.main_routes(),
        &vec![
            MainRouteRow { device_id: 1, route: "/light".to_string() },
            MainRouteRow { device_id: 2, route: "/fridge".to_string() },
        ]
    );
    assert_eq!(
        db.ranges_u64(),
        &vec![
            RangeRow {
                route_id: 2,
                name: "angle".to_string(),
                min: 0,
                max: 15,
                step: 1,
                default: 2,
                value: 2
            },
            RangeRow {
                route_id: 3,
                name: "dimmer".to_string(),
                min: 0,
                max: 15,
                step: 1,
                default: 2,
                value: 2
            },
        ]
    );
    assert_eq!(db.ranges_f64().len(), 1);
    let brightness = &db.ranges_f64()[0];
    assert_eq!(brightness.route_id, 1);
    assert_eq!(brightness.name, "brightness");
    assert_eq!(f64::from_bits(brightness.min.to_bits()), 0.0);
    assert_eq!(f64::from_bits(brightness.max.to_bits()), 20.0);
    assert_eq!(f64::from_bits(brightness.step.to_bits()), 0.1);
    assert_eq!(f64::from_bits(brightness.default.to_bits()), 0.0);
    assert_eq!(f64::from_bits(brightness.value.to_bits()), 0.0);
    assert_eq!(
        db.booleans()[3],
        BooleanRow { route_id: 3, name: "/toggle".to_string(), default: true, value: true }
    );
}

#[test]
fn duplicate_addresses_and_hazards_are_not_refused() {
    let mut db = Store::new();
    let device = db.insert_device(8080, "http", "/a").unwrap();
    db.insert_address("10.0.0.1".to_string(), device).unwrap();
    db.insert_address("10.0.0.1".to_string(), device).unwrap();
    db.insert_hazard(7, device).unwrap();
    db.insert_hazard(7, device).unwrap();
    assert_eq!(db.addresses().len(), 2);
    assert_eq!(db.hazards().len(), 2);
}

#[test]
fn clear_all_empties_every_table() {
    let mut db = two_devices();
    db.clear_all();
    assert_eq!(db, Store::new());
    assert!(db.is_db_empty());
    assert!(db.addresses().is_empty());
    assert!(db.hazards().is_empty());
    assert!(db.main_routes().is_empty());
    assert!(db.routes().is_empty());
    assert!(db.booleans().is_empty());
    assert!(db.ranges_u64().is_empty());
    assert!(db.ranges_f64().is_empty());
}

#[test]
fn clear_all_starts_the_identifiers_anew() {
    let mut db = two_devices();
    db.clear_all();
    assert_eq!(db.insert_device(1, "http", "/"), Ok(1));
    assert_eq!(db.insert_route("/on", 1), Ok(1));
}

#[test]
fn delete_device_deletes_all_that_hangs_from_it() {
    let mut db = two_devices();
    db.delete_device(1);
    assert_eq!(
        db.devices(),
        &vec![Metadata {
            id: 2,
            port: 8085,
            scheme: "https".to_string(),
            path: "/second".to_string()
        }]
    );
    assert_eq!(
        db.addresses(),
        &vec![AddressRow { device_id: 2, address: "192.168.1.3".to_string() }]
    );
    assert_eq!(db.hazards(), &vec![HazardRow { device_id: 2, hazard_id: 1 }]);
    assert_eq!(
        db.main_routes(),
        &vec![MainRouteRow { device_id: 2, route: "/fridge".to_string() }]
    );
    assert_eq!(db.routes(), &vec![RouteRow { id: 2, device_id: 2, route: "/open".to_string() }]);
    assert_eq!(
        db.booleans(),
        &vec![BooleanRow {
            route_id: 2,
            name: "/open".to_string(),
            default: false,
            value: false
        }]
    );
    assert_eq!(db.ranges_u64().len(), 1);
    assert_eq!(db.ranges_u64()[0].name, "angle");
    assert!(db.ranges_f64().is_empty());
}

#[test]
fn delete_device_keeps_the_other_devices_whole() {
    let mut db = two_devices();
    db.delete_device(2);
    assert_eq!(db.devices().len(), 1);
    assert_eq!(db.addresses().len(), 2);
    assert_eq!(db.hazards().len(), 2);
    assert_eq!(db.main_routes().len(), 1);
    assert_eq!(db.routes().len(), 2);
    assert_eq!(db.booleans().len(), 3);
    assert_eq!(db.ranges_u64().len(), 1);
    assert_eq!(db.ranges_u64()[0].name, "dimmer");
    assert_eq!(db.ranges_f64().len(), 1);
}

#[test]
fn delete_device_of_an_unknown_device_changes_nothing() {
    let mut db = two_devices();
    let before = db.clone();
    db.delete_device(9);
    assert_eq!(db, before);
}

#[test]
fn deleted_identifiers_are_not_handed_out_again() {
    let mut db = two_devices();
    db.delete_device(2);
    assert_eq!(db.insert_device(1, "http", "/"), Ok(3));
    assert_eq!(db.insert_route("/x", 3), Ok(4));
}

#[test]
fn deleting_every_device_leaves_no_row() {
    let mut db = two_devices();
    db.delete_device(1);
    db.delete_device(2);
    assert!(db.is_db_empty());
    assert!(db.addresses().is_empty());
    assert!(db.hazards().is_empty());
    assert!(db.main_routes().is_empty());
    assert!(db.routes().is_empty());
    assert!(db.booleans().is_empty());
    assert!(db.ranges_u64().is_empty());
    assert!(db.ranges_f64().is_empty());
}

#[test]
fn device_identifiers_run_out() {
    let mut db = Store::new();
    for expected in 1..=u16::MAX {
        assert_eq!(db.insert_device(1, "http", "/"), Ok(expected));
    }
    assert_eq!(db.device_ids_left(), 0);
    let before = db.devices().len();
    assert_eq!(db.insert_device(1, "http", "/"), Err(StoreError::IdsExhausted));
    assert_eq!(db.devices().len(), before);
}

#[test]
fn route_identifiers_run_out() {
    let mut db = Store::new();
    let device = db.insert_device(1, "http", "/").unwrap();
    for expected in 1..=u16::MAX {
        assert_eq!(db.insert_route("/r", device), Ok(expected));
    }
    assert_eq!(db.route_ids_left(), 0);
    assert_eq!(db.insert_route("/r", device), Err(StoreError::IdsExhausted));
    assert_eq!(db.insert_route("/r", 2), Err(StoreError::UnknownDevice));
    assert_eq!(db.routes().len(), usize::from(u16::MAX));
}

#[test]
fn select_device_metadata_gives_every_device_by_identifier() {
    let db = two_devices();
    let devices = db.select_device_metadata();
    assert_eq!(devices.len(), 2);
    assert_eq!(devices[0].id, 1);
    assert_eq!(devices[0].port, 8080);
    assert_eq!(devices[0].scheme, "http");
    assert_eq!(devices[0].path, "/here");
    assert_eq!(devices[1].id, 2);
    assert_eq!(devices[1].scheme, "https");
}

#[test]
fn select_device_addresses_gives_the_addresses_of_one_device() {
    let db = two_devices();
    let first: Vec<String> =
        db.select_device_addresses(1).into_iter().map(|row| row.address).collect();
    assert_eq!(first, vec!["192.168.1.2".to_string(), "fe80::1".to_string()]);
    let second: Vec<String> =
        db.select_device_addresses(2).into_iter().map(|row| row.address).collect();
    assert_eq!(second, vec!["192.168.1.3".to_string()]);
    assert!(db.select_device_addresses(3).is_empty());
}

#[test]
fn all_hazards_names_each_hazard_once() {
    let mut db = two_devices();
    assert_eq!(db.all_hazards(), vec![0, 1]);
    db.insert_hazard(9, 2).unwrap();
    db.insert_hazard(0, 2).unwrap();
    assert_eq!(db.all_hazards(), vec![0, 1, 9]);
    db.delete_device(1);
    assert_eq!(db.all_hazards(), vec![1, 9, 0]);
    db.clear_all();
    assert!(db.all_hazards().is_empty());
}

#[test]
fn sample_metadata() {
    let first = Metadata::fake1();
    assert_eq!(first.id, 0);
    assert_eq!(first.port, 8080);
    assert_eq!(first.scheme, "http");
    assert_eq!(first.path, "here");
    assert_eq!(Metadata::fake2(), first);
}
