use cyan_backend::json::{parse_json, read_stored_list, Json};

#[test]
fn members_are_read_by_key() {
    let v = parse_json(r#"{"a":"x","n":-3,"f":1.5,"t":true,"l":["p",1,"q"],"z":null}"#).unwrap();
    assert_eq!(v.get_str("a"), Some("x"));
    assert_eq!(v.get_text("missing", "d"), "d");
    assert_eq!(v.get_text("n", "d"), "d");
    assert_eq!(v.get_i64("n", 0), -3);
    assert_eq!(v.get_i64("f", 9), 9);
    assert_eq!(v.get_real("f").unwrap().bits, 1.5f64.to_bits());
    assert_eq!(v.get_real("n").unwrap().bits, (-3.0f64).to_bits());
    assert!(v.get_bool("t"));
    assert!(!v.get_bool("a"));
    assert!(matches!(v.get("z"), Some(Json::Null)));
    assert!(v.get("y").is_none());
    assert_eq!(v.get_opt_text("a"), Some("x".to_string()));
    assert_eq!(v.get_opt_text("z"), None);
    assert!(parse_json("[]").unwrap().get("a").is_none());
}

#[test]
fn what_is_not_json_is_refused() {
    assert!(parse_json("{").is_none());
    assert!(parse_json("").is_none());
    assert!(parse_json("{}").is_some());
}

#[test]
fn stored_lists_hold_texts() {
    assert_eq!(read_stored_list(r#"["a","b"]"#), vec!["a".to_string(), "b".to_string()]);
    assert!(read_stored_list("[1]").is_empty());
    assert!(read_stored_list("nonsense").is_empty());
}

#[test]
fn numbers_beyond_the_signed_range_are_no_integers() {
    let v = parse_json("18446744073709551615").unwrap();
    assert_eq!(v.as_i64(), None);
    assert!(v.as_str().is_none());
}
