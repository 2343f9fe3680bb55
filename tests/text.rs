use winevents_xml_transform::slots::{get_cn_keys, get_cs_keys, get_next_cn, get_next_cs, next_usable_number, parse_int};
use winevents_xml_transform::text::{i64_text, parse_usize, split, trim, usize_text};

#[test]
fn numbers_read_and_written() {
    assert_eq!(parse_usize("4624"), Some(4624));
    assert_eq!(parse_usize("+7"), Some(7));
    assert_eq!(parse_usize(""), None);
    assert_eq!(parse_usize("12a"), None);
    assert_eq!(parse_usize("99999999999999999999999"), None);
    assert_eq!(usize_text(0), "0");
    assert_eq!(usize_text(26893), "26893");
    assert_eq!(i64_text(-9223372036854775808), "-9223372036854775808");
}

#[test]
fn trimming_and_splitting() {
    assert_eq!(trim(" \t a b \u{3000}\n"), "a b");
    assert_eq!(split(",b,c", ','), vec!["".to_string(), "b".to_string(), "c".to_string()]);
}

#[test]
fn slot_numbers() {
    assert_eq!(parse_int("cs12Label"), Some(12));
    assert_eq!(parse_int("msg"), None);
    assert_eq!(next_usable_number(vec![2, 1, 4]), 3);
    assert_eq!(next_usable_number(vec![1, 2, 3]), 4);
    assert_eq!(next_usable_number(vec![]), 1);
    assert_eq!(get_next_cn(&vec!["cn1".to_string(), "cn2".to_string()]), "cn3");
    assert_eq!(get_next_cs(&vec!["cs2".to_string(), "cs6".to_string()]), "cs1");
    let ext = vec![
        ("cn5Label".to_string(), "x".to_string()),
        ("cn5".to_string(), "1".to_string()),
        ("cs2".to_string(), "k".to_string()),
        ("msg".to_string(), "m".to_string()),
    ];
    assert_eq!(get_cn_keys(&ext), vec!["cn5".to_string()]);
    assert_eq!(get_cs_keys(&ext), vec!["cs2".to_string()]);
}
