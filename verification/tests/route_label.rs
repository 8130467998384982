use ascot_gateway::database::device::Device;
use ascot_gateway::route_label::clean_route;

#[test]
fn clean_route_takes_the_first_segment() {
    assert_eq!(clean_route("/on/<brightness>/<save-energy>"), "on");
}

#[test]
fn clean_route_takes_the_whole_name_without_second_slash() {
    assert_eq!(clean_route("/toggle"), "toggle");
}

#[test]
fn clean_route_without_leading_slash_is_unknown() {
    assert_eq!(clean_route("toggle"), "<unknown route>");
    assert_eq!(clean_route("on/off"), "<unknown route>");
    assert_eq!(clean_route(""), "<unknown route>");
}

#[test]
fn clean_route_of_a_lone_slash_is_empty() {
    assert_eq!(clean_route("/"), "");
    assert_eq!(clean_route("//off"), "");
}

#[test]
fn clean_route_keeps_characters_beyond_ascii() {
    assert_eq!(clean_route("/caf\u{e9}/x"), "caf\u{e9}");
}

#[test]
fn device_clean_route_agrees() {
    assert_eq!(Device::clean_route("/off"), "off");
}
