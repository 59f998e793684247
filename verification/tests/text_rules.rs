use multiverse::jsontext::decode_quoted;
use multiverse::keyval::{parse_key_val, separate_relation_fields, KeyValError};
use multiverse::number::parse_i32_str;
use multiverse::query::{validate_select_only, QueryError};
use multiverse::text::{decimal_chars, framed_number, pad3_chars, prefixed, signed_decimal_chars};

fn text(v: Vec<char>) -> String {
    v.into_iter().collect()
}

#[test]
fn key_val_splits_at_first_equals() {
    let (k, v) = parse_key_val("display_name=Fenrik Mealor").unwrap();
    assert_eq!(k, "display_name");
    assert_eq!(v, "Fenrik Mealor");
    let (k, v) = parse_key_val("formula=a=b").unwrap();
    assert_eq!(k, "formula");
    assert_eq!(v, "a=b");
    let (k, v) = parse_key_val("=x").unwrap();
    assert_eq!(k, "");
    assert_eq!(v, "x");
    let (k, v) = parse_key_val("empty=").unwrap();
    assert_eq!(k, "empty");
    assert_eq!(v, "");
}

#[test]
fn key_val_without_equals_is_refused() {
    match parse_key_val("noequals") {
        Err(KeyValError::MissingEquals(t)) => assert_eq!(t, "noequals"),
        other => panic!("unexpected {:?}", other),
    }
}

#[test]
fn key_val_round_trip_on_values() {
    for (k, v) in [("lifespan", "1000"), ("a", "b=c"), ("", "")] {
        let joined = format!("{}={}", k, v);
        let (k2, v2) = parse_key_val(&joined).unwrap();
        assert_eq!(k2, k);
        assert_eq!(v2, v);
    }
}

#[test]
fn relation_fields_are_separated_in_order() {
    let args = vec![
        ("system".to_string(), "aetherial_magic".to_string()),
        ("lifespan".to_string(), "1000".to_string()),
        ("system".to_string(), "runes".to_string()),
        ("description".to_string(), "Nobili elfi".to_string()),
    ];
    let (relations, fields) = separate_relation_fields(args, &["system"]);
    assert_eq!(relations, vec![
        ("system".to_string(), "aetherial_magic".to_string()),
        ("system".to_string(), "runes".to_string()),
    ]);
    assert_eq!(fields, vec![
        ("lifespan".to_string(), "1000".to_string()),
        ("description".to_string(), "Nobili elfi".to_string()),
    ]);
}

#[test]
fn i32_literals_are_read_as_rust_reads_them() {
    assert_eq!(parse_i32_str("25"), Some(25));
    assert_eq!(parse_i32_str("+7"), Some(7));
    assert_eq!(parse_i32_str("-0"), Some(0));
    assert_eq!(parse_i32_str("-2147483648"), Some(i32::MIN));
    assert_eq!(parse_i32_str("2147483647"), Some(i32::MAX));
    assert_eq!(parse_i32_str("2147483648"), None);
    assert_eq!(parse_i32_str(""), None);
    assert_eq!(parse_i32_str("-"), None);
    assert_eq!(parse_i32_str("1.5"), None);
    assert_eq!(parse_i32_str(" 1"), None);
    assert_eq!(parse_i32_str("explorer"), None);
}

#[test]
fn decimal_and_padding() {
    assert_eq!(text(decimal_chars(0)), "0");
    assert_eq!(text(decimal_chars(1000)), "1000");
    assert_eq!(text(signed_decimal_chars(-42)), "-42");
    assert_eq!(text(signed_decimal_chars(i64::MIN)), "-9223372036854775808");
    assert_eq!(text(pad3_chars(1)), "001");
    assert_eq!(text(pad3_chars(42)), "042");
    assert_eq!(text(pad3_chars(1234)), "1234");
    assert_eq!(text(pad3_chars(-5)), "-05");
    assert_eq!(framed_number("(", 12, ")"), "(12)");
    assert_eq!(prefixed("      M  ", "a.md"), "      M  a.md");
}

#[test]
fn decimal_reads_back() {
    for n in [0i32, 7, -7, 123456, i32::MAX, i32::MIN] {
        let t = text(signed_decimal_chars(n as i64));
        assert_eq!(parse_i32_str(&t), Some(n));
    }
}

#[test]
fn quoted_text_decodes() {
    assert_eq!(decode_quoted("Active"), Some("Active".to_string()));
    assert_eq!(decode_quoted("Dr\\u0061ft"), Some("Draft".to_string()));
    assert_eq!(decode_quoted("bad\"quote"), None);
    assert_eq!(decode_quoted("trailing\\"), None);
}

#[test]
fn keywords_inside_names_do_not_count() {
    assert!(validate_select_only("select name, created_at from characters").is_ok());
    assert!(validate_select_only("SELECT * FROM updates WHERE dropped = 0").is_ok());
    assert!(validate_select_only("\u{3000}select\tname from races\u{a0}").is_ok());
}

#[test]
fn select_queries_pass() {
    assert!(validate_select_only("SELECT * FROM characters").is_ok());
    assert!(validate_select_only("   select name from races  ").is_ok());
}

#[test]
fn non_select_queries_are_refused() {
    assert!(matches!(validate_select_only("DELETE FROM characters"), Err(QueryError::NotSelect)));
    assert!(matches!(validate_select_only(""), Err(QueryError::NotSelect)));
}

#[test]
fn forbidden_keywords_are_reported() {
    match validate_select_only("  SELECT * FROM a; DROP TABLE a") {
        Err(QueryError::ForbiddenKeyword(k)) => assert_eq!(k, "drop"),
        other => panic!("unexpected {:?}", other),
    }
    match validate_select_only("select * from t where x = 1 or update_count > 0; UPDATE t SET x = 2") {
        Err(QueryError::ForbiddenKeyword(k)) => assert_eq!(k, "update"),
        other => panic!("unexpected {:?}", other),
    }
    match validate_select_only("SELECT * FROM t WHERE x = 'Insert' AND y = 'pragma'") {
        Err(QueryError::ForbiddenKeyword(k)) => assert_eq!(k, "insert"),
        other => panic!("unexpected {:?}", other),
    }
}

#[test]
fn error_messages_name_what_was_refused() {
    assert_eq!(
        parse_key_val("novalue").unwrap_err().message(),
        "invalid KEY=value: no `=` found in `novalue`"
    );
    assert_eq!(validate_select_only("delete from x").unwrap_err().message(), "Only SELECT queries are allowed");
    assert_eq!(
        validate_select_only("select 1; drop table x").unwrap_err().message(),
        "Query contains forbidden keyword: drop"
    );
    assert_eq!(
        QueryError::ForbiddenKeyword("alter".to_string()).message(),
        "Query contains forbidden keyword: alter"
    );
    let k = KeyValError::MissingEquals(String::new());
    assert_eq!(k.message(), "invalid KEY=value: no `=` found in ``");
}
