use winevents_xml_transform::builtin::CEF_FIELDS;
use winevents_xml_transform::fields::CefMap;

#[test]
fn cef_map_test_get_cef_field_for() {
    let cef_map = CefMap::from_mapping(CEF_FIELDS);
    let cef_field_name = cef_map.get_cef_field_for("deviceAction");
    let expected = Some(String::from("act"));
    assert_eq!(cef_field_name, expected);

    let cef_field_name = cef_map.get_cef_field_for("Destination User ID");
    let expected = Some(String::from("duid"));
    assert_eq!(cef_field_name, expected);

    let cef_field_name = cef_map.get_cef_field_for("");
    assert_eq!(cef_field_name, None);
}

#[test]
fn test_get_cef_field_for() {
    let cef_map = CefMap::load_cef_map();
    let cef_field_name = cef_map.get_cef_field("deviceAction");
    assert_eq!(cef_field_name, Some(String::from("act")));

    let cef_field_name = cef_map.get_cef_field("Destination User ID");
    assert_eq!(cef_field_name, Some(String::from("duid")));

    let cef_field_name = cef_map.get_cef_field("");
    assert_eq!(cef_field_name, None);

    let cef_field_name = cef_map.get_cef_field_or_default("SomeUnknownField");
    assert_eq!(cef_field_name, "someUnknownField");
}

#[test]
fn resolve_ignores_white_space_and_case() {
    let cef_map = CefMap::load_cef_map();
    let a = cef_map.get_cef_field_or_default("deviceAction");
    let b = cef_map.get_cef_field_or_default("Device Action");
    let c = cef_map.get_cef_field_or_default("  DEVICE\tACTION ");
    assert_eq!(a, "act");
    assert_eq!(b, "act");
    assert_eq!(c, "act");
}

#[test]
fn unknown_label_becomes_camel_case() {
    let cef_map = CefMap::load_cef_map();
    assert_eq!(cef_map.get_cef_field_or_default("Destination Foo Bar"), "destinationFooBar");
    assert_eq!(cef_map.get_cef_field_for("Destination Foo Bar"), None);
}

#[test]
fn every_label_of_a_row_resolves() {
    let cef_map = CefMap::from_mapping("act,deviceAction,Device Action\nduid,destinationUserId");
    assert_eq!(cef_map.get_cef_field_for("device action"), Some("act".to_string()));
    assert_eq!(cef_map.get_cef_field_for("DeviceAction"), Some("act".to_string()));
    assert_eq!(cef_map.get_cef_field_for("Destination UserId"), Some("duid".to_string()));
    assert_eq!(cef_map.map.len(), 2);
}

#[test]
fn later_row_for_same_key_replaces_earlier() {
    let cef_map = CefMap::from_mapping("  act,first\nact,second  ");
    assert_eq!(cef_map.map.len(), 1);
    assert_eq!(cef_map.map[0].1, vec!["second".to_string()]);
    assert_eq!(cef_map.get_cef_field_for("second"), Some("act".to_string()));
    assert_eq!(cef_map.get_cef_field_for("first"), None);
}

#[test]
fn value_hash_strips_space_and_lowers() {
    assert_eq!(CefMap::get_cef_value_hash(" Destination User ID ".to_string()), "destinationuserid");
}
