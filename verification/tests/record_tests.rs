use gpu_stats::numtext::u64_to_string;
use gpu_stats::order::{key_cmp, KeyOrder};
use gpu_stats::record::Record;
use gpu_stats::value::Value;

#[test]
fn empty_record_renders_empty_object() {
    let r = Record::new();
    assert_eq!(r.to_json_line(), "{}");
}

#[test]
fn keys_come_out_sorted_regardless_of_insert_order() {
    let mut r = Record::new();
    r.insert(String::from("b"), Value::Uint(2));
    r.insert(String::from("a"), Value::Uint(1));
    r.insert(String::from("c"), Value::Uint(3));
    assert_eq!(r.to_json_line(), "{\"a\":1,\"b\":2,\"c\":3}");
}

#[test]
fn inserting_twice_replaces_the_binding() {
    let mut r = Record::new();
    r.insert(String::from("k"), Value::Uint(1));
    r.insert(String::from("k"), Value::Uint(2));
    assert_eq!(r.len(), 1);
    assert_eq!(r.to_json_line(), "{\"k\":2}");
}

#[test]
fn numeric_index_order_is_lexicographic() {
    // As in a string-keyed ordered map, gpu.10 sorts before gpu.2.
    let mut r = Record::new();
    r.insert(String::from("gpu.2.name"), Value::Uint(2));
    r.insert(String::from("gpu.10.name"), Value::Uint(10));
    assert_eq!(r.to_json_line(), "{\"gpu.10.name\":10,\"gpu.2.name\":2}");
}

#[test]
fn key_cmp_orders_by_code_point() {
    assert!(matches!(key_cmp("a", "b"), KeyOrder::Less));
    assert!(matches!(key_cmp("b", "a"), KeyOrder::Greater));
    assert!(matches!(key_cmp("abc", "abc"), KeyOrder::Equal));
    assert!(matches!(key_cmp("ab", "abc"), KeyOrder::Less));
    assert!(matches!(key_cmp("gpu.10.x", "gpu.2.x"), KeyOrder::Less));
    assert!(matches!(key_cmp("_timestamp", "cuda_version"), KeyOrder::Less));
}

#[test]
fn string_values_are_escaped_and_parse_back() {
    let mut r = Record::new();
    r.insert(
        String::from("k"),
        Value::Text(String::from("a\"b\\c\nd\te")),
    );
    let line = r.to_json_line();
    let parsed: serde_json::Value = serde_json::from_str(&line).expect("line must be valid JSON");
    assert_eq!(parsed["k"].as_str().unwrap(), "a\"b\\c\nd\te");
}

#[test]
fn bool_and_text_values_render() {
    let mut r = Record::new();
    r.insert(String::from("t"), Value::Bool(true));
    r.insert(String::from("f"), Value::Bool(false));
    r.insert(String::from("s"), Value::Text(String::from("plain")));
    assert_eq!(r.to_json_line(), "{\"f\":false,\"s\":\"plain\",\"t\":true}");
}

#[test]
fn ratio_values_render_with_six_fraction_digits() {
    let mut r = Record::new();
    r.insert(String::from("w"), Value::Ratio { num: 12345, den: 1000 });
    r.insert(String::from("p"), Value::Ratio { num: 100, den: 3 });
    assert_eq!(r.to_json_line(), "{\"p\":33.333333,\"w\":12.345000}");
}

#[test]
fn u64_to_string_matches_decimal() {
    assert_eq!(u64_to_string(0), "0");
    assert_eq!(u64_to_string(7), "7");
    assert_eq!(u64_to_string(1000000), "1000000");
    assert_eq!(u64_to_string(u64::MAX), "18446744073709551615");
}
