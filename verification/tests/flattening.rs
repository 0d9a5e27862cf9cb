use rustc_hash::FxHashMap;
use serde_json::Number;
use zip_templates::{flatten_json, JsonValue, ZipTemplate};

fn string(s: &str) -> JsonValue {
    JsonValue::String(s.to_string())
}

fn whole(n: i64) -> JsonValue {
    JsonValue::Number(Number::from(n))
}

fn float(f: f64) -> JsonValue {
    JsonValue::Number(Number::from_f64(f).unwrap())
}

fn object(members: Vec<(&str, JsonValue)>) -> JsonValue {
    JsonValue::Object(members.into_iter().map(|(name, value)| (name.to_string(), value)).collect())
}

fn expect(flat: &FxHashMap<String, String>, pairs: &[(&str, &str)]) {
    assert_eq!(flat.len(), pairs.len(), "{flat:?}");
    for (key, value) in pairs {
        assert_eq!(flat.get(*key).map(String::as_str), Some(*value), "key {key:?} in {flat:?}");
    }
}

fn account() -> JsonValue {
    object(vec![
        ("user", object(vec![("name", object(vec![("first", string("Sam"))]))])),
        ("account", object(vec![("balance", float(12.34))])),
        ("meta", object(vec![("count", whole(5))])),
    ])
}

#[test]
fn nested_objects_give_dotted_paths() {
    let flat = flatten_json(&account());
    expect(
        &flat,
        &[("user.name.first", "Sam"), ("account.balance", "12.34"), ("meta.count", "5")],
    );
}

#[test]
fn items_of_an_array_stand_under_their_index() {
    let flat = flatten_json(&object(vec![("tags", JsonValue::Array(vec![string("admin"), string("ops")]))]));
    expect(&flat, &[("tags.0", "admin"), ("tags.1", "ops")]);
}

#[test]
fn flattened_value_renders_a_template() {
    let parsed = ZipTemplate::parse(
        "Hi, {{user.name.first}} — balance: {{account.balance}} USD. Messages: {{meta.count}}.",
    );
    let out = parsed.render(&flatten_json(&account()));
    assert_eq!(out, "Hi, Sam — balance: 12.34 USD. Messages: 5.");
}

#[test]
fn object_with_array_and_boolean() {
    let value = object(vec![
        ("user", object(vec![("name", string("Alice")), ("tags", JsonValue::Array(vec![string("admin")]))])),
        ("active", JsonValue::Bool(true)),
    ]);
    let flat = flatten_json(&value);
    expect(&flat, &[("user.name", "Alice"), ("user.tags.0", "admin"), ("active", "true")]);
}

#[test]
fn null_gives_the_empty_text() {
    let flat = flatten_json(&object(vec![("a", JsonValue::Null)]));
    expect(&flat, &[("a", "")]);
}

#[test]
fn booleans_are_written_out() {
    let flat = flatten_json(&object(vec![("yes", JsonValue::Bool(true)), ("no", JsonValue::Bool(false))]));
    expect(&flat, &[("yes", "true"), ("no", "false")]);
}

#[test]
fn strings_are_kept_as_they_are() {
    let flat = flatten_json(&object(vec![
        ("plain", string("Sam")),
        ("empty", string("")),
        ("quoted", string("say \"hi\"")),
        ("quote", string("\"")),
        ("slash", string("a\\b")),
        ("lines", string("one\ntwo\t")),
        ("wide", string("日本語 ✓")),
    ]));
    expect(
        &flat,
        &[
            ("plain", "Sam"),
            ("empty", ""),
            ("quoted", "say \"hi\""),
            ("quote", "\""),
            ("slash", "a\\b"),
            ("lines", "one\ntwo\t"),
            ("wide", "日本語 ✓"),
        ],
    );
}

#[test]
fn numbers_are_written_in_decimal() {
    let numbers = [
        (whole(0), "0"),
        (whole(5), "5"),
        (whole(-3), "-3"),
        (whole(i64::MIN), "-9223372036854775808"),
        (JsonValue::Number(Number::from(u64::MAX)), "18446744073709551615"),
        (float(12.34), "12.34"),
        (float(1.0), "1.0"),
        (float(-0.5), "-0.5"),
    ];
    for (value, written) in numbers {
        let flat = flatten_json(&object(vec![("n", value)]));
        expect(&flat, &[("n", written)]);
    }
}

#[test]
fn numbers_are_written_as_serde_json_writes_them() {
    let floats = [0.0, -0.0, 0.1, 1e21, 2.5e-7, 1.7976931348623157e308, 5e-324, 123456789.125];
    for f in floats {
        let number = Number::from_f64(f).unwrap();
        let written = serde_json::Value::Number(number.clone()).to_string();
        assert!(!written.is_empty());
        assert_eq!(written.parse::<f64>().unwrap(), f);
        let flat = flatten_json(&JsonValue::Array(vec![JsonValue::Number(number)]));
        expect(&flat, &[("0", written.as_str())]);
    }
}

#[test]
fn a_scalar_at_the_root_stands_under_the_empty_key() {
    expect(&flatten_json(&string("x")), &[("", "x")]);
    expect(&flatten_json(&JsonValue::Null), &[("", "")]);
    expect(&flatten_json(&JsonValue::Bool(false)), &[("", "false")]);
    expect(&flatten_json(&whole(7)), &[("", "7")]);
}

#[test]
fn an_array_at_the_root_gives_bare_indices() {
    let flat = flatten_json(&JsonValue::Array(vec![string("a"), object(vec![("b", string("c"))])]));
    expect(&flat, &[("0", "a"), ("1.b", "c")]);
}

#[test]
fn empty_arrays_and_objects_give_nothing() {
    expect(&flatten_json(&JsonValue::Array(Vec::new())), &[]);
    expect(&flatten_json(&JsonValue::Object(Vec::new())), &[]);
    let flat = flatten_json(&object(vec![
        ("a", JsonValue::Array(Vec::new())),
        ("b", object(vec![])),
        ("c", string("d")),
    ]));
    expect(&flat, &[("c", "d")]);
}

#[test]
fn indices_are_written_in_decimal() {
    let items: Vec<JsonValue> = (0..1234).map(whole).collect();
    let flat = flatten_json(&object(vec![("items", JsonValue::Array(items))]));
    assert_eq!(flat.len(), 1234);
    for index in [0usize, 1, 9, 10, 11, 99, 100, 101, 999, 1000, 1233] {
        let key = format!("items.{index}");
        assert_eq!(flat.get(&key), Some(&index.to_string()), "{key}");
    }
    assert_eq!(flat.get("items.1234"), None);
    assert_eq!(flat.get("items.01"), None);
    assert_eq!(flat.get("items"), None);
}

#[test]
fn arrays_in_arrays_chain_their_indices() {
    let value = JsonValue::Array(vec![
        JsonValue::Array(vec![string("a"), string("b")]),
        JsonValue::Array(vec![JsonValue::Array(vec![string("c")])]),
    ]);
    expect(&flatten_json(&value), &[("0.0", "a"), ("0.1", "b"), ("1.0.0", "c")]);
}

#[test]
fn an_empty_name_counts_as_a_name_below_the_root_only() {
    let flat = flatten_json(&object(vec![("", string("r")), ("a", object(vec![("", string("x"))]))]));
    expect(&flat, &[("", "r"), ("a.", "x")]);
    let flat = flatten_json(&object(vec![("", object(vec![("b", string("y"))]))]));
    expect(&flat, &[("b", "y")]);
}

#[test]
fn of_two_scalars_with_one_path_the_later_stays() {
    let flat = flatten_json(&object(vec![("a", object(vec![("b", string("first"))])), ("a.b", string("second"))]));
    expect(&flat, &[("a.b", "second")]);
    let flat = flatten_json(&object(vec![("a.b", string("first")), ("a", object(vec![("b", string("second"))]))]));
    expect(&flat, &[("a.b", "second")]);
    let flat = flatten_json(&object(vec![("k", string("1")), ("k", string("2")), ("k", string("3"))]));
    expect(&flat, &[("k", "3")]);
}

#[test]
fn names_are_not_trimmed_or_split() {
    let flat = flatten_json(&object(vec![(" a ", string("1")), ("x.y", object(vec![("z", string("2"))]))]));
    expect(&flat, &[(" a ", "1"), ("x.y.z", "2")]);
}

#[test]
fn flattening_leaves_the_value_as_it_was() {
    let value = account();
    let first = flatten_json(&value);
    let second = flatten_json(&value);
    assert_eq!(first, second);
}
