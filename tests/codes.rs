use winevents_xml_transform::codes::{
    from_string_to_usize, from_usize_to_string, get_event_log_tasks_mapping, get_event_mapping,
    get_map, get_sa_tasks_mapping, get_setup_tasks_mapping, keywords_map, opcode_map, task_name_for,
};
use winevents_xml_transform::mapping::get_event_name_mapping;

#[test]
fn event_name_test_events_map() {
    let evt = get_event_name_mapping(4781);
    assert_eq!(evt, "The name of an account was changed:");
    let evt = get_event_name_mapping(1);
    assert_eq!(evt, "EventID-1")
}

#[test]
fn events_test_events_map() {
    let evt = get_event_mapping(4781);
    assert_eq!(evt, "The name of an account was changed");
    let evt = get_event_mapping(1);
    assert_eq!(evt, "EventID-1")
}

#[test]
fn tasks_test_sa_tasks_map() {
    let evt = get_sa_tasks_mapping(12289);
    assert_eq!(evt, "Security System Extension");
    let evt = get_sa_tasks_mapping(1);
    assert_eq!(evt, "(1)")
}

#[test]
fn test_sa_tasks_map() {
    let evt = get_sa_tasks_mapping(12289);
    assert_eq!(evt, "Security System Extension");
    let evt = get_sa_tasks_mapping(1);
    assert_eq!(evt, "(1)")
}

#[test]
fn test_event_log_tasks_map() {
    let evt = get_event_log_tasks_mapping(103);
    assert_eq!(evt, "Service shutdown");
    let evt = get_event_log_tasks_mapping(1);
    assert_eq!(evt, "(1)")
}

#[test]
fn test_setup_tasks_map() {
    let evt = get_setup_tasks_mapping(3000);
    assert_eq!(evt, "Setup information");
    let evt = get_setup_tasks_mapping(1);
    assert_eq!(evt, "(1)")
}

#[test]
fn unknown_codes_fall_back_to_literals() {
    let sa = "Microsoft-Windows-Security-Auditing".to_string();
    let el = "Microsoft-Windows-Eventlog".to_string();
    let other = "Service Control Manager".to_string();
    assert_eq!(task_name_for(Some(&sa), 0), "None");
    assert_eq!(task_name_for(Some(&sa), 12544), "Logon");
    assert_eq!(task_name_for(Some(&sa), 77), "(77)");
    assert_eq!(task_name_for(Some(&el), 104), "Log clear");
    assert_eq!(task_name_for(Some(&other), 12544), "(12544)");
    assert_eq!(task_name_for(None, 1), "(1)");
    assert_eq!(from_usize_to_string(&0), "Information");
    assert_eq!(from_usize_to_string(&4), "Information");
    assert_eq!(from_usize_to_string(&3), "Warning");
    assert_eq!(from_usize_to_string(&42), "42");
    assert_eq!(opcode_map(240), "Receive");
    assert_eq!(opcode_map(0), "Info");
    assert_eq!(opcode_map(12), "12");
    assert_eq!(keywords_map("0x8020000000000000"), "Audit Success");
    assert_eq!(keywords_map("0x8010000000000000"), "Audit Failure");
    assert_eq!(keywords_map("0x80000000000000"), "Classic");
    assert_eq!(keywords_map("0x1"), "0x1");
    assert_eq!(get_event_mapping(1234567), "EventID-1234567");
    assert_eq!(get_event_name_mapping(0), "EventID-0");
}

#[test]
fn severity_of_level_names() {
    assert_eq!(from_string_to_usize(&"Information".to_string()), 2);
    assert_eq!(from_string_to_usize(&"Critical".to_string()), 10);
    assert_eq!(from_string_to_usize(&"Error".to_string()), 7);
    assert_eq!(from_string_to_usize(&"Warning".to_string()), 6);
    assert_eq!(from_string_to_usize(&"Verbose".to_string()), 4);
    assert_eq!(from_string_to_usize(&"information".to_string()), 0);
}

#[test]
fn code_table_skips_malformed_lines_and_last_wins() {
    let t = get_map("x,1,one\nbad line\ny,two,2\nz,1,uno\n", '\n', ',', (1, 2));
    assert_eq!(t, vec![(1, "one".to_string()), (1, "uno".to_string())]);
}
