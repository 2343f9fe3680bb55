use winevents_xml_transform::fields::CefMap;
use winevents_xml_transform::rules::{
    all_of, all_of_text, build_extension, do_all_of, do_all_of_data, do_both, do_ipv6,
    do_msg_concat, do_one_of, mapper, one_of, one_of_text, parse_rule, rule_arguments, Rule,
};

fn data(pairs: &[(&str, &str)]) -> Vec<(String, String)> {
    pairs.iter().map(|(k, v)| (k.to_string(), v.to_string())).collect()
}

fn strings(items: &[&str]) -> Vec<String> {
    items.iter().map(|s| s.to_string()).collect()
}

#[test]
fn test_one_of() {
    let a = "";
    let b = "b";
    let c = "c";
    let one_of_abc = one_of(&strings(&[a, b, c]));
    assert_eq!(one_of_abc, "b".to_string());

    let one_of_cb = one_of(&strings(&[c, b]));
    assert_eq!(one_of_cb, "c".to_string());

    let one_of_ab_strings = one_of(&vec![a.to_string(), b.to_string()]);
    assert_eq!(one_of_ab_strings, "b".to_string());

    let a = ",b,c";
    let one_of_abc = one_of_text(a);
    assert_eq!(one_of_abc, "b".to_string())
}

#[test]
fn test_all_of() {
    let a = String::new();
    let b = String::from("b");
    let c = String::from("c");
    let all_of_abc = all_of(&vec![a.clone(), b.clone(), c.clone()]);
    assert_eq!(all_of_abc, "b c".to_string());

    let all_of_cb = all_of(&vec![c.clone(), b.clone()]);
    assert_eq!(all_of_cb, "c b".to_string());

    let all_ac = all_of(&vec![a.clone(), c.clone()]);
    assert_eq!(all_ac, "c".to_string());
}

#[test]
fn one_of_skips_blank_values() {
    assert_eq!(one_of(&strings(&["  ", "\t", "x"])), "x");
    assert_eq!(one_of(&strings(&["", " "])), "");
    assert_eq!(one_of(&strings(&[])), "");
    assert_eq!(all_of_text("a,,b, "), "a b");
}

#[test]
fn one_of_rule_picks_first_filled_field() {
    let evt = data(&[("SubjectUserName", ""), ("SubjectUserSid", "S-1-5-18")]);
    let rule = "one_of(SubjectUserName,SubjectUserSid)".to_string();
    assert_eq!(do_one_of(&rule, &evt), "S-1-5-18");
    let rule = "one_of(Missing,localhost)".to_string();
    assert_eq!(do_one_of(&rule, &evt), "localhost");
    let rule = "one_of(Missing,SubjectUserName)".to_string();
    assert_eq!(do_one_of(&rule, &evt), "");
}

#[test]
fn all_of_rule_joins_filled_fields() {
    let evt = data(&[("a", ""), ("b", "x"), ("c", "y")]);
    assert_eq!(do_all_of(&"all_of(a,b,c)".to_string(), &evt), "x y");
    assert_eq!(do_all_of(&"all_of(c,nope,b)".to_string(), &evt), "y x");
}

#[test]
fn both_rule_keeps_empty_segments() {
    let evt = data(&[("a", "x"), ("c", "y")]);
    assert_eq!(do_both(&"both(a,b,c)".to_string(), &evt), "x  y");
}

#[test]
fn concatenate_substitutes_parameters() {
    let evt = data(&[("param1", " Spooler "), ("param2", "running")]);
    let rule = "concatenate(The ,%1, service entered the ,%2, state.)".to_string();
    assert_eq!(do_msg_concat(&rule, &evt), "The Spooler service entered the running state.");
    let rule = "concatenate(x ,%9,\"y\")".to_string();
    assert_eq!(do_msg_concat(&rule, &evt), "x y");
}

#[test]
fn all_of_data_lists_filled_fields() {
    let evt = data(&[("A", "1"), ("B", ""), ("C", "say \"hi\"")]);
    assert_eq!(do_all_of_data(&evt), "A: 1\nC: say hi");
}

#[test]
fn ipv6_rule_needs_a_colon() {
    let rule = "IpAddress (IPv6 Address)".to_string();
    assert_eq!(do_ipv6(&rule, &data(&[("IpAddress", "fe80::1")])), "fe80::1");
    assert_eq!(do_ipv6(&rule, &data(&[("IpAddress", "10.0.0.1")])), "");
    assert_eq!(do_ipv6(&rule, &data(&[])), "");
}

#[test]
fn rule_forms_are_told_apart() {
    assert_eq!(parse_rule("Message", "concatenate(a,%1)"), Rule::MessageConcat);
    assert_eq!(parse_rule("MESSAGE", "All_Of_Data"), Rule::MessageAllOfData);
    assert_eq!(parse_rule("message", "hello"), Rule::MessageLiteral);
    assert_eq!(parse_rule("Device Action", "Logon Failed"), Rule::ActionLiteral);
    assert_eq!(parse_rule("device action", "Action"), Rule::ActionLookup);
    assert_eq!(parse_rule("Source User Name", "one_of(a,b)"), Rule::OneOf);
    assert_eq!(parse_rule("Source User Name", "all_of(a,b)"), Rule::AllOf);
    assert_eq!(parse_rule("Source User Name", "both(a,b)"), Rule::Both);
    assert_eq!(parse_rule("Source User Name", "concatenate(a,b)"), Rule::Concatenate);
    assert_eq!(parse_rule("Source Address", "IpAddress (IPv6 Address)"), Rule::Ipv6Filter);
    assert_eq!(parse_rule("Source Address", "%3"), Rule::ParamSubstitute);
    assert_eq!(parse_rule("Source Address", "%3%"), Rule::DirectLookup);
    assert_eq!(parse_rule("Source Address", "IpAddress"), Rule::DirectLookup);
}

#[test]
fn rule_arguments_drop_wrapper_and_parens() {
    assert_eq!(rule_arguments("one_of(a,b)", "one_of("), strings(&["a", "b"]));
    assert_eq!(rule_arguments("both(x)", "both("), strings(&["x"]));
}

#[test]
fn custom_fields_get_a_label_entry() {
    let cef_map = CefMap::load_cef_map();
    let evt = data(&[("LogonType", "3"), ("TargetUserName", "bob")]);
    let rules = data(&[("Device Custom String 4", "LogonType"), ("Destination User Name", "TargetUserName")]);
    let ext = build_extension(&cef_map, &rules, &evt);
    assert_eq!(
        ext,
        data(&[("cs4", "3"), ("cs4Label", "LogonType"), ("duser", "bob")])
    );
}

#[test]
fn empty_values_and_messages_are_dropped_or_kept() {
    let cef_map = CefMap::load_cef_map();
    let evt = data(&[("Action", "blocked"), ("param2", "7")]);
    let rules = data(&[
        ("Message", "A thing happened"),
        ("Device Action", "Action"),
        ("Destination User Name", "Missing"),
        ("Source Port", "%2"),
    ]);
    let ext = build_extension(&cef_map, &rules, &evt);
    assert_eq!(ext, data(&[("msg", "A thing happened"), ("act", "blocked"), ("spt", "7")]));
}

#[test]
fn later_rule_for_same_key_wins_in_place() {
    let cef_map = CefMap::load_cef_map();
    let evt = data(&[("a", "1"), ("b", "2")]);
    let rules = data(&[("Source Port", "a"), ("Message", "m"), ("sourcePort", "b")]);
    let ext = build_extension(&cef_map, &rules, &evt);
    assert_eq!(ext, data(&[("spt", "2"), ("msg", "m")]));
}

#[test]
fn mapper_uses_the_shipped_tables() {
    let evt = data(&[("param1", "Spooler"), ("param2", "running")]);
    let ext = mapper(&7036, &evt).unwrap();
    assert_eq!(
        ext,
        data(&[
            ("msg", "The Spooler service entered the running state."),
            ("destinationServiceName", "Spooler"),
            ("cs1", "running"),
            ("cs1Label", "%2"),
        ])
    );
    assert_eq!(mapper(&1, &evt), None);
}
