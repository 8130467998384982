use ascot_gateway::capability::{
    DeviceData, DeviceKind, Input, InputType, RestKind, RouteConfig, RouteData,
};
use ascot_gateway::database::device::DeviceAddress;
use ascot_gateway::manifest_client::Retrieval;

fn address(name: &str) -> DeviceAddress {
    DeviceAddress::new(format!("http://{name}:80/m"), name.to_string())
}

fn manifest(main_route: &str) -> DeviceData {
    DeviceData { kind: DeviceKind::Light, main_route: main_route.to_string(), routes: Vec::new() }
}

fn manifest_with_hazards(hazards: Vec<u16>) -> DeviceData {
    DeviceData {
        kind: DeviceKind::Light,
        main_route: "/light".to_string(),
        routes: vec![RouteConfig {
            rest_kind: RestKind::Get,
            hazards,
            data: RouteData {
                name: "/on".to_string(),
                description: None,
                stateless: true,
                inputs: Vec::new(),
            },
        }],
    }
}

#[test]
fn the_first_answer_wins_and_later_addresses_are_not_asked() {
    let mut retrieval = Retrieval::new(vec![address("a"), address("b"), address("c")]);
    assert!(!retrieval.is_done());
    assert_eq!(retrieval.tried(), 0);

    assert_eq!(retrieval.request(), Some("http://a:80/m"));
    retrieval.respond(None);
    assert!(!retrieval.is_done());

    assert_eq!(retrieval.request(), Some("http://b:80/m"));
    retrieval.respond(Some(manifest("/from-b")));
    assert!(retrieval.is_done());
    assert_eq!(retrieval.request(), None);
    assert_eq!(retrieval.tried(), 2);

    let (addresses, data) = retrieval.finish();
    assert_eq!(data, Some(manifest("/from-b")));
    assert!(!addresses[0].recheable);
    assert!(addresses[1].recheable);
    assert!(addresses[2].recheable);
    assert_eq!(addresses[0].address, "a");
    assert_eq!(addresses[1].address, "b");
    assert_eq!(addresses[2].address, "c");
    assert_eq!(addresses[2].request, "http://c:80/m");
}

#[test]
fn the_first_address_may_answer() {
    let mut retrieval = Retrieval::new(vec![address("a"), address("b")]);
    retrieval.respond(Some(manifest("/from-a")));
    assert!(retrieval.is_done());
    assert_eq!(retrieval.tried(), 1);
    let (addresses, data) = retrieval.finish();
    assert_eq!(data, Some(manifest("/from-a")));
    assert!(addresses[0].recheable);
    assert!(addresses[1].recheable);
}

#[test]
fn no_answer_marks_every_address() {
    let mut retrieval = Retrieval::new(vec![address("a"), address("b")]);
    retrieval.respond(None);
    assert_eq!(retrieval.request(), Some("http://b:80/m"));
    retrieval.respond(None);
    assert!(retrieval.is_done());
    assert_eq!(retrieval.request(), None);
    assert_eq!(retrieval.tried(), 2);
    let (addresses, data) = retrieval.finish();
    assert_eq!(data, None);
    assert!(!addresses[0].recheable);
    assert!(!addresses[1].recheable);
}

#[test]
fn an_answer_after_the_end_changes_nothing() {
    let mut retrieval = Retrieval::new(vec![address("a"), address("b")]);
    retrieval.respond(Some(manifest("/first")));
    retrieval.respond(Some(manifest("/second")));
    retrieval.respond(None);
    assert_eq!(retrieval.tried(), 1);
    let (addresses, data) = retrieval.finish();
    assert_eq!(data, Some(manifest("/first")));
    assert!(addresses[0].recheable);
    assert!(addresses[1].recheable);
}

#[test]
fn a_retrieval_without_addresses_has_ended() {
    let mut retrieval = Retrieval::new(Vec::new());
    assert!(retrieval.is_done());
    assert_eq!(retrieval.request(), None);
    retrieval.respond(Some(manifest("/late")));
    let (addresses, data) = retrieval.finish();
    assert!(addresses.is_empty());
    assert_eq!(data, None);
}

#[test]
fn an_invalid_manifest_counts_as_no_answer() {
    let mut retrieval = Retrieval::new(vec![address("a"), address("b")]);
    retrieval.respond(Some(manifest_with_hazards(vec![4, 4])));
    assert!(!retrieval.is_done());
    assert_eq!(retrieval.request(), Some("http://b:80/m"));
    retrieval.respond(Some(manifest_with_hazards(vec![4, 5])));
    assert!(retrieval.is_done());
    let (addresses, data) = retrieval.finish();
    assert_eq!(data, Some(manifest_with_hazards(vec![4, 5])));
    assert!(!addresses[0].recheable);
    assert!(addresses[1].recheable);
}

#[test]
fn manifests_are_checked() {
    assert!(manifest("/light").is_valid());
    assert!(manifest_with_hazards(vec![]).is_valid());
    assert!(manifest_with_hazards(vec![1, 2, 3]).is_valid());
    assert!(!manifest_with_hazards(vec![1, 2, 1]).is_valid());
    assert!(!manifest_with_hazards(vec![7, 7]).is_valid());

    let input = |name: &str, default: bool| Input {
        name: name.to_string(),
        datatype: InputType::Bool(default),
    };
    let mut data = manifest_with_hazards(vec![1]);
    data.routes[0].data.inputs = vec![input("a", true), input("b", true), input("c", false)];
    assert!(data.is_valid());
    assert!(data.routes[0].is_valid());
    data.routes[0].data.inputs.push(input("b", false));
    assert!(!data.routes[0].is_valid());
    assert!(!data.is_valid());

    let mut two = manifest_with_hazards(vec![1]);
    two.routes.push(manifest_with_hazards(vec![1]).routes.remove(0));
    assert!(two.is_valid());
    two.routes.push(manifest_with_hazards(vec![2, 2]).routes.remove(0));
    assert!(!two.is_valid());
}
