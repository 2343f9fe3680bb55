use winevents_xml_transform::event::{default_device_vendor, eventdata_map, eventid_map, Data, DataShape};
use winevents_xml_transform::{load_mapping, EventMappingGetters};

fn kv(name: &str, value: Option<&str>) -> Data {
    Data::KV { name: name.to_string(), value: value.map(|v| v.to_string()) }
}

fn v(value: Option<&str>) -> Data {
    Data::V { value: value.map(|v| v.to_string()) }
}

#[test]
fn test_mappings() {
    let event_map = load_mapping();
    let event_name = event_map.get_info(&4760);
    assert!(event_name.is_some());
    let event_name = event_name.unwrap();
    assert_eq!(event_name.name, "A security-disabled universal group was changed.".to_string());
    assert!(event_name.mapping_info.is_some());
    assert_eq!(event_name.channel, "Security")
}

#[test]
fn mapping_getters_read_one_entry() {
    let m = load_mapping();
    assert_eq!(m.get_category(&4624).unwrap(), "Logon/Logoff");
    assert_eq!(m.get_sub_category(&4624).unwrap(), "Logon");
    assert_eq!(m.get_outcome(&4625).unwrap(), "Failure");
    assert_eq!(m.get_channel(&7036).unwrap(), "System");
    assert_eq!(m.get_name(&1).is_none(), true);
    let rules = m.get_mapping_info(&4624).unwrap();
    assert!(rules.contains(&(
        "Source User Name".to_string(),
        "one_of(SubjectUserName,SubjectUserSid)".to_string()
    )));
    assert_eq!(rules[0], ("Message".to_string(), "An account was successfully logged on".to_string()));
}

#[test]
fn event_id_gets_its_name() {
    let info = eventid_map(4624);
    assert_eq!(info.event_id, 4624);
    assert_eq!(info.event_name, "An account was successfully logged on.");
    assert_eq!(eventid_map(99).event_name, "EventID-99");
    assert_eq!(default_device_vendor(), "Microsoft");
}

#[test]
fn payload_shapes() {
    let both = eventdata_map(Some(vec![kv("a", Some("1")), v(Some("x")), kv("a", Some("2")), v(None), v(Some("y"))]));
    match both {
        DataShape::Both(m, p) => {
            assert_eq!(m, vec![("a".to_string(), Some("2".to_string()))]);
            assert_eq!(p, vec!["x".to_string(), "y".to_string()]);
        },
        _ => panic!("expected both shapes"),
    }
    match eventdata_map(Some(vec![v(Some("x")), v(None)])) {
        DataShape::Positional(p) => assert_eq!(p, vec!["x".to_string()]),
        _ => panic!("expected positional"),
    }
    match eventdata_map(Some(vec![kv("b", None), kv("a", Some("1"))])) {
        DataShape::Keyed(m) => assert_eq!(m, vec![("b".to_string(), None), ("a".to_string(), Some("1".to_string()))]),
        _ => panic!("expected keyed"),
    }
    assert!(matches!(eventdata_map(Some(vec![v(None)])), DataShape::Empty));
    assert!(matches!(eventdata_map(None), DataShape::Empty));
}
