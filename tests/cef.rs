use winevents_xml_transform::cef::{
    build_cef_extension, cef_string, get_class_id, get_event_data, get_event_outcome, start_value,
};
use winevents_xml_transform::event::{
    Correlation, Data, DataShape, EventData, Execution, Provider, RawEvent, RawEventData,
    RawSystem, TimeCreated,
};
use winevents_xml_transform::{Event, ToCEF};

fn kv(name: &str, value: &str) -> Data {
    Data::KV { name: name.to_string(), value: Some(value.to_string()) }
}

fn raw_event(event_id: usize, time: &str, data: Option<Vec<Data>>) -> RawEvent {
    RawEvent {
        xmlns: "http://schemas.microsoft.com/win/2004/08/events/event".to_string(),
        system: RawSystem {
            provider: Some(Provider {
                name: Some("Microsoft-Windows-Security-Auditing".to_string()),
                guid: Some("{54849625-5478-4994-a5ba-3e3b0328c30d}".to_string()),
                event_source_name: None,
            }),
            device_vendor: None,
            event_record_id: 26893,
            event_id,
            level: 0,
            task: 12544,
            opcode: 0,
            keywords: "0x8020000000000000".to_string(),
            time_created: TimeCreated { system_time: time.to_string() },
            correlation: Correlation { activity_id: Some("{1f813878-e986-0000-f838-811f86e9d601}".to_string()) },
            execution: Execution { process_id: 648, thread_id: 2368 },
            channel: "Security".to_string(),
            computer: "DESKTOP-G089JUF".to_string(),
            security: None,
            version: 2,
        },
        event_data: data.map(|d| RawEventData { data: Some(d), binary: None }),
        user_data: None,
    }
}

fn logon_event(time: &str) -> Event {
    Event::from_raw(raw_event(
        4624,
        time,
        Some(vec![
            kv("SubjectUserSid", "S-1-5-18"),
            kv("SubjectUserName", "DESKTOP-G089JUF$"),
            kv("SubjectDomainName", "WORKGROUP"),
            kv("TargetUserName", "SYSTEM"),
            kv("LogonType", "5"),
            kv("IpAddress", "-"),
        ]),
    ))
}

const RAW: &str = r#"{"xmlns":"http://schemas.microsoft.com/win/2004/08/events/event","System":{"EventRecordID":26893}}"#;

fn pairs(items: &[(&str, &str)]) -> Vec<(String, String)> {
    items.iter().map(|(k, v)| (k.to_string(), v.to_string())).collect()
}

#[test]
fn end_to_end_logon_line() {
    let e = logon_event("2021-01-26T11:17:29.4856969Z");
    let line = e.to_cef(RAW);
    assert!(line.starts_with("CEF:0|Microsoft|Windows|Windows 7|"));
    assert!(line.starts_with(
        "CEF:0|Microsoft|Windows|Windows 7|Microsoft-Windows-Security-Auditing|An account was successfully logged on.|2|"
    ));
    assert!(line.contains("outcome=/Success"));
    assert_eq!(line.matches("msg=").count(), 1);
    assert_eq!(line.matches("rawEvent=").count(), 1);
    let raw = line.split("rawEvent=").nth(1).unwrap();
    let parsed: serde_json::Value = serde_json::from_str(raw).unwrap();
    assert!(parsed.is_object());
    assert!(line.contains("start=1611659849"));
    assert!(line.contains("externalId=4624"));
    assert!(line.contains("suser=DESKTOP-G089JUF$"));
    assert!(line.contains("cs4=5 cs4Label=LogonType"));
    assert!(line.contains("shost=localhost"));
    assert!(!line.contains("c6a2="));
}

#[test]
fn transform_is_deterministic() {
    let a = logon_event("2021-01-26T11:17:29.4856969Z").to_cef(RAW);
    let b = logon_event("2021-01-26T11:17:29.4856969Z").to_cef(RAW);
    assert_eq!(a, b);
}

#[test]
fn unreadable_time_stands_verbatim() {
    let e = logon_event("yesterday at noon");
    let ext = build_cef_extension(&e);
    assert_eq!(ext[0], ("start".to_string(), "yesterday at noon".to_string()));
    assert!(cef_string(&e, RAW).contains("start=yesterday at noon "));
    assert_eq!(start_value(&"1970-01-01T00:00:00Z".to_string()), "0");
    assert_eq!(start_value(&"1969-12-31T23:59:00Z".to_string()), "-60");
}

#[test]
fn baseline_fields_come_first() {
    let e = Event::from_raw(raw_event(1, "2021-01-26T11:17:29Z", None));
    assert_eq!(e.system.task, "Logon");
    assert_eq!(e.system.level, "Information");
    assert_eq!(e.system.opcode, "Info");
    assert_eq!(e.system.keywords, "Audit Success");
    assert_eq!(e.system.device_vendor, "Microsoft");
    assert_eq!(e.system.event.event_name, "EventID-1");
    let ext = build_cef_extension(&e);
    assert_eq!(
        ext,
        pairs(&[
            ("start", "1611659849"),
            ("externalId", "1"),
            ("outcome", "/Success"),
            ("cn5Label", "EventRecordId"),
            ("cn5", "26893"),
            ("cs2Label", "Keywords"),
            ("cs2", "Audit Success"),
        ])
    );
    let line = e.to_cef("{}");
    assert_eq!(
        line,
        "CEF:0|Microsoft|Windows|Windows 7|Microsoft-Windows-Security-Auditing|EventID-1|2|msg=EventID-1 start=1611659849 externalId=1 outcome=/Success cn5Label=EventRecordId cn5=26893 cs2Label=Keywords cs2=Audit Success rawEvent={}"
    );
}

#[test]
fn class_id_falls_back_to_channel() {
    let mut raw = raw_event(1, "x", None);
    raw.system.provider = None;
    let e = Event::from_raw(raw);
    assert_eq!(get_class_id(&e), "Security");
    let mut raw = raw_event(1, "x", None);
    raw.system.provider = Some(Provider { name: None, guid: None, event_source_name: None });
    assert_eq!(get_class_id(&Event::from_raw(raw)), "Security");
}

#[test]
fn outcome_of_keywords() {
    assert_eq!(get_event_outcome(&"Audit Success".to_string()), "/Success");
    assert_eq!(get_event_outcome(&"Audit Failure".to_string()), "/Failure");
    assert_eq!(get_event_outcome(&"Classic".to_string()), "");
}

#[test]
fn positional_payload_goes_to_cs6() {
    let d = EventData {
        data: DataShape::Positional(vec!["a".to_string(), "b\"c".to_string()]),
        binary: None,
    };
    assert_eq!(get_event_data(&1, Some(&d)), pairs(&[("cs6Label", "EventData"), ("cs6", "a,b\\c")]));
}

#[test]
fn mixed_payload_keeps_both_parts() {
    let d = EventData {
        data: DataShape::Both(
            vec![("z".to_string(), Some("1".to_string())), ("a".to_string(), None)],
            vec!["p".to_string()],
        ),
        binary: None,
    };
    assert_eq!(
        get_event_data(&1, Some(&d)),
        pairs(&[("cs6Label", "EventData"), ("cs6", "{a:null,z:1},[p]")])
    );
}

#[test]
fn keyed_payload_without_mapping_gives_nothing() {
    let d = EventData {
        data: DataShape::Keyed(vec![("a".to_string(), Some("1".to_string()))]),
        binary: None,
    };
    assert_eq!(get_event_data(&1, Some(&d)), pairs(&[]));
    assert_eq!(get_event_data(&1, None), pairs(&[]));
}

#[test]
fn keyed_payload_names_lose_backslashes() {
    let d = EventData {
        data: DataShape::Keyed(vec![
            ("\\TargetUserName\\".to_string(), Some("\\bob\\".to_string())),
            ("TargetDomainName".to_string(), None),
        ]),
        binary: None,
    };
    let ext = get_event_data(&4634, Some(&d));
    assert_eq!(
        ext,
        pairs(&[("msg", "TargetUserName: bob"), ("duser", "bob"), ("cs4Label", "LogonType")])
    );
}
