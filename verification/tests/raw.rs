use ts3_query::raw::{
    bool_val_parser, int_list_val_parser, int_val_parser, int_val_parser_opt, parse_hashmap,
    parse_multi_hashmap, parse_single_line_hashmap, string_val_parser, string_val_parser_opt,
};
use ts3_query::error::Ts3Error;
use ts3_query::record::Record;

fn text(r: &Record, key: &str) -> Option<String> {
    r.get(key).and_then(|v| v.clone())
}

fn record(fields: &[(&str, Option<&str>)]) -> Record {
    let mut r = Record::new();
    for (k, v) in fields {
        r.insert(k.to_string(), v.map(|s| s.to_string()));
    }
    r
}

/// Verify all escape sequences are valid utf-8 the easy way.
#[test]
fn test_escaped_input() {
    let v: Vec<u8> = vec![b'\\', b'/', 7, 8, 12, 11, b'\t', b'\r', b'\n'];

    assert!(true, "{}", String::from_utf8(v).is_ok());
}

#[test]
fn verify_single_map() {
    let v = "clid=1776 client_database_id=18106 client_nickname=FOOBAR\\s\\p\\sNora\\s\\p\\sLaptop client_type=1";
    let mut map = Record::new();
    parse_single_line_hashmap(v, &mut map, false);
    assert_eq!(
        Some("1776"),
        map.get("clid")
            .map(|v| v.as_ref().map(|v| v.as_str()))
            .flatten()
    );
    assert_eq!(
        Some("18106"),
        map.get("client_database_id")
            .map(|v| v.as_ref().map(|v| v.as_str()))
            .flatten()
    );
    assert_eq!(
        Some("FOOBAR\\s\\p\\sNora\\s\\p\\sLaptop"),
        map.get("client_nickname")
            .map(|v| v.as_ref().map(|v| v.as_str()))
            .flatten()
    );
    assert_eq!(
        Some("1"),
        map.get("client_type")
            .map(|v| v.as_ref().map(|v| v.as_str()))
            .flatten()
    );
    // verify public function does the same
    assert_eq!(map, parse_hashmap(vec![v.to_string()], false));

    let mut map = Record::new();
    parse_single_line_hashmap(v, &mut map, true);
    assert_eq!(
        Some("1776"),
        map.get("clid")
            .map(|v| v.as_ref().map(|v| v.as_str()))
            .flatten()
    );
    assert_eq!(
        Some("18106"),
        map.get("client_database_id")
            .map(|v| v.as_ref().map(|v| v.as_str()))
            .flatten()
    );
    assert_eq!(
        Some(r#"FOOBAR | Nora | Laptop"#),
        map.get("client_nickname")
            .map(|v| v.as_ref().map(|v| v.as_str()))
            .flatten()
    );
    assert_eq!(
        Some("1"),
        map.get("client_type")
            .map(|v| v.as_ref().map(|v| v.as_str()))
            .flatten()
    );
    // verify public function does the same
    assert_eq!(map, parse_hashmap(vec![v.to_string()], true));
}

#[test]
fn verify_single_map_optional() {
    let v = "client_type=123 client_away=456 client_away_message client_flag_talking=789";
    let mut map = Record::new();
    parse_single_line_hashmap(v, &mut map, false);

    let mut expected = Record::new();
    expected.insert("client_type".to_string(), Some("123".to_string()));
    expected.insert("client_away".to_string(), Some("456".to_string()));
    expected.insert("client_away_message".to_string(), None);
    expected.insert("client_flag_talking".to_string(), Some("789".to_string()));

    assert_eq!(map, expected);
}

#[test]
fn verify_multi_map() {
    let v = "clid=1776 client_database_id=18106|client_nickname=FOOBAR\\s\\p\\sNora\\s\\p\\sLaptop client_type=1";
    let result = parse_multi_hashmap(vec![v.to_string()], true);
    let first = &result[0];
    assert_eq!(
        Some("1776"),
        first
            .get("clid")
            .map(|v| v.as_ref().map(|v| v.as_str()))
            .flatten()
    );
    assert_eq!(
        Some("18106"),
        first
            .get("client_database_id")
            .map(|v| v.as_ref().map(|v| v.as_str()))
            .flatten()
    );
    let second = &result[1];
    assert_eq!(
        Some(r#"FOOBAR | Nora | Laptop"#),
        second
            .get("client_nickname")
            .map(|v| v.as_ref().map(|v| v.as_str()))
            .flatten()
    );
    assert_eq!(
        Some("1"),
        second
            .get("client_type")
            .map(|v| v.as_ref().map(|v| v.as_str()))
            .flatten()
    );
}

#[test]
fn record_of_a_line_with_a_bare_flag() {
    let mut map = Record::new();
    parse_single_line_hashmap("clid=1776 cid=9391 foo client_type=1", &mut map, false);
    assert_eq!(
        map,
        record(&[
            ("clid", Some("1776")),
            ("cid", Some("9391")),
            ("foo", None),
            ("client_type", Some("1")),
        ])
    );
    assert_eq!(map.len(), 4);
}

#[test]
fn list_line_gives_one_record_per_piece() {
    let result = parse_multi_hashmap(vec!["a=1 b=2|c=3 d=4".to_string()], false);
    assert_eq!(result.len(), 2);
    assert_eq!(result[0], record(&[("a", Some("1")), ("b", Some("2"))]));
    assert_eq!(result[1], record(&[("c", Some("3")), ("d", Some("4"))]));
}

#[test]
fn list_lines_are_flattened_in_order() {
    let result = parse_multi_hashmap(
        vec!["a=1|a=2".to_string(), "a=3".to_string(), "a=4|".to_string()],
        false,
    );
    assert_eq!(result.len(), 5);
    for (i, want) in ["1", "2", "3", "4"].iter().enumerate() {
        assert_eq!(text(&result[i], "a").as_deref(), Some(*want));
    }
    assert!(result[4].is_empty());
}

#[test]
fn lines_merge_and_later_fields_overwrite() {
    let input: Vec<String> = vec!["clid=28631 cid=9391 foo", "client_type=1", "", "cid=7"]
        .into_iter()
        .map(ToOwned::to_owned)
        .collect();
    let expected = record(&[
        ("clid", Some("28631")),
        ("cid", Some("7")),
        ("foo", None),
        ("client_type", Some("1")),
    ]);
    assert_eq!(expected, parse_hashmap(input, false));
}

#[test]
fn tokens_split_at_runs_of_whitespace_and_first_equals() {
    let mut map = Record::new();
    parse_single_line_hashmap("  a=1\t\tb=x=y \n c= =d ", &mut map, false);
    assert_eq!(
        map,
        record(&[("a", Some("1")), ("b", Some("x=y")), ("c", Some("")), ("", Some("d"))])
    );
}

#[test]
fn string_parsers_take_the_field_and_unescape() {
    let mut v = record(&[("abc", Some("a\\sd")), ("def", None)]);
    assert_eq!(Some("a d".to_string()), string_val_parser_opt(&mut v, "abc").unwrap());
    assert!(!v.contains_key("abc"));
    assert_eq!(None, string_val_parser_opt(&mut v, "def").unwrap());
    assert!(matches!(
        string_val_parser_opt(&mut v, "def"),
        Err(Ts3Error::NoEntryResponse { key: "def" })
    ));

    let mut v = record(&[("abc", Some("asd")), ("def", None)]);
    assert_eq!("asd".to_string(), string_val_parser(&mut v, "abc").unwrap());
    assert!(matches!(
        string_val_parser(&mut v, "def"),
        Err(Ts3Error::NoValueResponse { key: "def" })
    ));
    assert!(matches!(
        string_val_parser(&mut v, "xyz"),
        Err(Ts3Error::NoEntryResponse { key: "xyz" })
    ));
}

#[test]
fn int_parsers_read_the_requested_type() {
    let mut v = record(&[("abc", Some("123")), ("def", None), ("neg", Some("-5")), ("big", Some("256"))]);
    assert_eq!(Some(123), int_val_parser_opt::<i32>(&mut v, "abc").unwrap());
    assert_eq!(None, int_val_parser_opt::<i32>(&mut v, "def").unwrap());
    assert!(matches!(
        int_val_parser_opt::<i32>(&mut v, "abc"),
        Err(Ts3Error::NoEntryResponse { key: "abc" })
    ));
    assert!(matches!(
        int_val_parser::<u8>(&mut v, "big"),
        Err(Ts3Error::InvalidIntResponse { data }) if data == "256"
    ));
    assert!(matches!(
        int_val_parser::<u64>(&mut v, "neg"),
        Err(Ts3Error::InvalidIntResponse { data }) if data == "-5"
    ));

    let mut v = record(&[("abc", Some("123")), ("def", None), ("neg", Some("-128")), ("plus", Some("+7"))]);
    assert_eq!(123, int_val_parser::<i32>(&mut v, "abc").unwrap());
    assert_eq!(-128, int_val_parser::<i8>(&mut v, "neg").unwrap());
    assert_eq!(7, int_val_parser::<u16>(&mut v, "plus").unwrap());
    assert!(matches!(
        int_val_parser::<i32>(&mut v, "def"),
        Err(Ts3Error::NoValueResponse { key: "def" })
    ));
}

#[test]
fn int_parser_accepts_the_bounds_of_each_type() {
    let mut v = record(&[
        ("a", Some("18446744073709551615")),
        ("b", Some("18446744073709551616")),
        ("c", Some("-9223372036854775808")),
        ("d", Some("-9223372036854775809")),
        ("e", Some("000000000000000000000000000000000000000000012")),
        ("f", Some("")),
        ("g", Some("-")),
        ("h", Some("1_0")),
    ]);
    assert_eq!(u64::MAX, int_val_parser::<u64>(&mut v, "a").unwrap());
    assert!(int_val_parser::<u64>(&mut v, "b").is_err());
    assert_eq!(i64::MIN, int_val_parser::<i64>(&mut v, "c").unwrap());
    assert!(int_val_parser::<i64>(&mut v, "d").is_err());
    assert_eq!(12u8, int_val_parser::<u8>(&mut v, "e").unwrap());
    assert!(int_val_parser::<i32>(&mut v, "f").is_err());
    assert!(int_val_parser::<i32>(&mut v, "g").is_err());
    assert!(int_val_parser::<i32>(&mut v, "h").is_err());
    assert!(v.is_empty());
}

#[test]
fn bool_parser_is_true_above_zero() {
    let mut v = record(&[("abc", Some("1")), ("def", Some("0")), ("neg", Some("-1")), ("two", Some("2"))]);
    assert_eq!(true, bool_val_parser(&mut v, "abc").unwrap());
    assert_eq!(false, bool_val_parser(&mut v, "def").unwrap());
    assert_eq!(false, bool_val_parser(&mut v, "neg").unwrap());
    assert_eq!(true, bool_val_parser(&mut v, "two").unwrap());
    assert!(bool_val_parser(&mut v, "foobar").is_err());
}

#[test]
fn int_list_parser_splits_at_commas() {
    let mut v = record(&[("abc", Some("123,345,123")), ("def", None), ("bad", Some("1,,2")), ("one", Some("9"))]);
    let got: Vec<i32> = int_list_val_parser(&mut v, "abc").unwrap();
    assert_eq!(vec![123, 345, 123], got);
    let one: Vec<u64> = int_list_val_parser(&mut v, "one").unwrap();
    assert_eq!(vec![9], one);
    assert!(matches!(
        int_list_val_parser::<i32>(&mut v, "bad"),
        Err(Ts3Error::InvalidIntResponse { data }) if data.is_empty()
    ));
    assert!(matches!(
        int_list_val_parser::<i32>(&mut v, "def"),
        Err(Ts3Error::NoValueResponse { key: "def" })
    ));
}

#[test]
fn record_insert_get_remove() {
    let mut r = Record::new();
    assert!(r.is_empty());
    assert_eq!(r.insert("k".to_string(), Some("1".to_string())), None);
    assert_eq!(r.insert("k".to_string(), None), Some(Some("1".to_string())));
    assert_eq!(r.len(), 1);
    assert_eq!(r.get("k"), Some(&None));
    assert_eq!(r.get("other"), None);
    assert_eq!(r.remove("k"), Some(None));
    assert_eq!(r.remove("k"), None);
    assert!(r.is_empty());
    assert!(r != record(&[("k", None)]));
}

#[test]
fn record_lists_each_field_once() {
    let mut r = record(&[("a", Some("1")), ("b", None)]);
    r.insert("a".to_string(), Some("2".to_string()));
    let mut fields = r.fields().clone();
    fields.sort();
    assert_eq!(
        fields,
        vec![("a".to_string(), Some("2".to_string())), ("b".to_string(), None)]
    );
    assert!(r.same_as(&record(&[("b", None), ("a", Some("2"))])));
    assert!(!r.same_as(&record(&[("b", None), ("a", Some("1"))])));
    assert!(!r.same_as(&record(&[("a", Some("2"))])));
    assert!(!r.same_as(&record(&[("a", Some("2")), ("b", None), ("c", None)])));
    assert!(!r.same_as(&record(&[("a", Some("2")), ("b", Some(""))])));
}

#[test]
fn int_parser_reads_the_widest_types() {
    let mut v = record(&[
        ("a", Some("340282366920938463463374607431768211455")),
        ("b", Some("340282366920938463463374607431768211456")),
        ("c", Some("-170141183460469231731687303715884105728")),
        ("d", Some("-170141183460469231731687303715884105729")),
        ("e", Some("170141183460469231731687303715884105727")),
        ("f", Some("170141183460469231731687303715884105728")),
        ("g", Some("-0")),
        ("h", Some("-0")),
        ("i", Some("3402823669209384634633746074317682114550")),
    ]);
    assert_eq!(u128::MAX, int_val_parser::<u128>(&mut v, "a").unwrap());
    assert!(int_val_parser::<u128>(&mut v, "b").is_err());
    assert_eq!(i128::MIN, int_val_parser::<i128>(&mut v, "c").unwrap());
    assert!(int_val_parser::<i128>(&mut v, "d").is_err());
    assert_eq!(i128::MAX, int_val_parser::<i128>(&mut v, "e").unwrap());
    assert!(int_val_parser::<i128>(&mut v, "f").is_err());
    assert_eq!(0, int_val_parser::<i128>(&mut v, "g").unwrap());
    assert!(int_val_parser::<u128>(&mut v, "h").is_err());
    assert!(int_val_parser::<u128>(&mut v, "i").is_err());
}

#[test]
fn int_parser_reads_pointer_sized_types() {
    let lo = isize::MIN.to_string();
    let hi = isize::MAX.to_string();
    let top = usize::MAX.to_string();
    let over = format!("{}0", hi);
    let mut v = record(&[
        ("lo", Some(lo.as_str())),
        ("hi", Some(hi.as_str())),
        ("top", Some(top.as_str())),
        ("over", Some(over.as_str())),
        ("neg", Some("-17")),
        ("list", Some("-1,0,+1")),
    ]);
    assert_eq!(isize::MIN, int_val_parser::<isize>(&mut v, "lo").unwrap());
    assert_eq!(isize::MAX, int_val_parser::<isize>(&mut v, "hi").unwrap());
    assert_eq!(usize::MAX, int_val_parser::<usize>(&mut v, "top").unwrap());
    assert!(int_val_parser::<isize>(&mut v, "over").is_err());
    assert_eq!(Some(-17), int_val_parser_opt::<isize>(&mut v, "neg").unwrap());
    let list: Vec<isize> = int_list_val_parser(&mut v, "list").unwrap();
    assert_eq!(vec![-1, 0, 1], list);
}

#[test]
fn int_parser_agrees_with_the_language_on_each_type() {
    let texts = [
        "0", "-0", "+0", "1", "-1", "+1", "127", "128", "-128", "-129", "255", "256", "32767",
        "32768", "-32768", "-32769", "65535", "65536", "2147483647", "2147483648", "-2147483648",
        "-2147483649", "4294967295", "4294967296", "9223372036854775807", "9223372036854775808",
        "-9223372036854775808", "-9223372036854775809", "18446744073709551615",
        "18446744073709551616", "", "+", "-", "++1", "--1", "+-1", "1-", "0x10", " 1", "1 ", "١",
        "0000000000000000000000000000000000000000000000255", "-000128",
    ];
    for t in texts {
        let mut v = record(&[
            ("a", Some(t)), ("b", Some(t)), ("c", Some(t)), ("d", Some(t)), ("e", Some(t)),
            ("f", Some(t)), ("g", Some(t)), ("h", Some(t)), ("i", Some(t)), ("j", Some(t)),
            ("k", Some(t)), ("l", Some(t)),
        ]);
        assert_eq!(int_val_parser::<u8>(&mut v, "a").ok(), t.parse::<u8>().ok(), "{:?}", t);
        assert_eq!(int_val_parser::<u16>(&mut v, "b").ok(), t.parse::<u16>().ok(), "{:?}", t);
        assert_eq!(int_val_parser::<u32>(&mut v, "c").ok(), t.parse::<u32>().ok(), "{:?}", t);
        assert_eq!(int_val_parser::<u64>(&mut v, "d").ok(), t.parse::<u64>().ok(), "{:?}", t);
        assert_eq!(int_val_parser::<u128>(&mut v, "e").ok(), t.parse::<u128>().ok(), "{:?}", t);
        assert_eq!(int_val_parser::<usize>(&mut v, "f").ok(), t.parse::<usize>().ok(), "{:?}", t);
        assert_eq!(int_val_parser::<i8>(&mut v, "g").ok(), t.parse::<i8>().ok(), "{:?}", t);
        assert_eq!(int_val_parser::<i16>(&mut v, "h").ok(), t.parse::<i16>().ok(), "{:?}", t);
        assert_eq!(int_val_parser::<i32>(&mut v, "i").ok(), t.parse::<i32>().ok(), "{:?}", t);
        assert_eq!(int_val_parser::<i64>(&mut v, "j").ok(), t.parse::<i64>().ok(), "{:?}", t);
        assert_eq!(int_val_parser::<i128>(&mut v, "k").ok(), t.parse::<i128>().ok(), "{:?}", t);
        assert_eq!(int_val_parser::<isize>(&mut v, "l").ok(), t.parse::<isize>().ok(), "{:?}", t);
    }
}
