use fancontrol::text::{
    lines, parse_csv_u32s, parse_u32, sort_strings, split, str_eq, trim, u32_to_string,
    u64_to_string,
};

#[test]
fn parse_u32_accepts_decimals() {
    assert_eq!(parse_u32("0"), Some(0));
    assert_eq!(parse_u32("1600"), Some(1600));
    assert_eq!(parse_u32("+5"), Some(5));
    assert_eq!(parse_u32("4294967295"), Some(u32::MAX));
}

#[test]
fn parse_u32_rejects_garbage_and_overflow() {
    assert_eq!(parse_u32(""), None);
    assert_eq!(parse_u32("+"), None);
    assert_eq!(parse_u32("-1"), None);
    assert_eq!(parse_u32("12a"), None);
    assert_eq!(parse_u32(" 12"), None);
    assert_eq!(parse_u32("4294967296"), None);
    assert_eq!(parse_u32("99999999999999999999"), None);
}

#[test]
fn trim_strips_ascii_whitespace() {
    assert_eq!(trim("  hello\t\r\n"), "hello");
    assert_eq!(trim("hello"), "hello");
    assert_eq!(trim("   "), "");
}

#[test]
fn split_keeps_empty_fields() {
    assert_eq!(split("a|b|c", '|'), vec!["a", "b", "c"]);
    assert_eq!(split("a||c", '|'), vec!["a", "", "c"]);
    assert_eq!(split("|", '|'), vec!["", ""]);
    assert_eq!(split("", '|'), vec![""]);
}

#[test]
fn lines_handle_crlf_and_trailing_newline() {
    assert_eq!(lines("a\r\nb\r\n"), vec!["a", "b"]);
    assert_eq!(lines("a\nb"), vec!["a", "b"]);
    assert_eq!(lines(""), Vec::<String>::new());
    assert_eq!(lines("a\n\n"), vec!["a", ""]);
}

#[test]
fn csv_drops_unparseable_entries() {
    assert_eq!(parse_csv_u32s("1600,2100,2700"), vec![1600, 2100, 2700]);
    assert_eq!(parse_csv_u32s("1, x, 3"), vec![1, 3]);
    assert_eq!(parse_csv_u32s(""), Vec::<u32>::new());
}

#[test]
fn decimal_formatting_round_trips() {
    assert_eq!(u32_to_string(0), "0");
    assert_eq!(u32_to_string(42), "42");
    assert_eq!(u32_to_string(u32::MAX), "4294967295");
    assert_eq!(u64_to_string(1234567890123), "1234567890123");
    assert_eq!(parse_u32(u32_to_string(98765).as_str()), Some(98765));
}

#[test]
fn string_equality_compares_contents() {
    assert!(str_eq("fan0", "fan0"));
    assert!(!str_eq("fan0", "fan1"));
    assert!(!str_eq("fan", "fan0"));
}

#[test]
fn sorting_orders_lexicographically() {
    let names = vec![
        "hwmon1".to_string(),
        "hwmon0".to_string(),
        "hwmon10".to_string(),
        "hwmon0".to_string(),
    ];
    let sorted = sort_strings(&names);
    assert_eq!(sorted, vec!["hwmon0", "hwmon0", "hwmon1", "hwmon10"]);
}
