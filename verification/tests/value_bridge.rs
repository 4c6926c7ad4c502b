//! The value bridge: totality, shape mapping, and key policy.

use imprintor::value::{convert, DictEntry, HostTerm, MapEntry, Value};

fn text(s: &str) -> HostTerm {
    HostTerm::Text(s.as_bytes().to_vec())
}

#[test]
fn scalar_shapes_map_directly() {
    assert_eq!(convert(&HostTerm::Truth(true)), Value::Bool(true));
    assert_eq!(convert(&HostTerm::Int(1)), Value::Int(1));
    assert_eq!(convert(&HostTerm::Symbol(String::from("ok"))), Value::Str(String::from("ok")));
    assert_eq!(convert(&text("x")), Value::Str(String::from("x")));
    let bits = 2.5_f64.to_bits();
    assert_eq!(convert(&HostTerm::FloatBits(bits)), Value::FloatBits(bits));
}

#[test]
fn mapping_with_nested_list() {
    // {"a": 1, "b": [true, null, "x"]}
    let term = HostTerm::Mapping(vec![
        MapEntry { key: text("a"), value: HostTerm::Int(1) },
        MapEntry {
            key: text("b"),
            value: HostTerm::List(vec![HostTerm::Truth(true), HostTerm::Null, text("x")]),
        },
    ]);
    let expected = Value::Dict(vec![
        DictEntry { key: String::from("a"), value: Value::Int(1) },
        DictEntry {
            key: String::from("b"),
            value: Value::Array(vec![
                Value::Bool(true),
                Value::Null,
                Value::Str(String::from("x")),
            ]),
        },
    ]);
    assert_eq!(convert(&term), expected);
}

#[test]
fn unsupported_shapes_degrade_to_null() {
    assert_eq!(convert(&HostTerm::Other), Value::Null);
    assert_eq!(convert(&HostTerm::Null), Value::Null);
    let invalid = HostTerm::Text(vec![0xff, 0xfe, 0x41]);
    assert_eq!(convert(&invalid), Value::Null);
}

#[test]
fn non_string_keys_are_skipped() {
    let term = HostTerm::Mapping(vec![
        MapEntry { key: HostTerm::Int(3), value: HostTerm::Int(30) },
        MapEntry { key: text("kept"), value: HostTerm::Int(7) },
        MapEntry { key: HostTerm::Text(vec![0xff]), value: HostTerm::Int(9) },
    ]);
    let expected = Value::Dict(vec![DictEntry {
        key: String::from("kept"),
        value: Value::Int(7),
    }]);
    assert_eq!(convert(&term), expected);
}

#[test]
fn duplicate_key_overwrites_in_place() {
    let term = HostTerm::Mapping(vec![
        MapEntry { key: text("k"), value: HostTerm::Int(1) },
        MapEntry { key: text("z"), value: HostTerm::Int(2) },
        MapEntry { key: HostTerm::Symbol(String::from("k")), value: HostTerm::Int(3) },
    ]);
    let expected = Value::Dict(vec![
        DictEntry { key: String::from("k"), value: Value::Int(3) },
        DictEntry { key: String::from("z"), value: Value::Int(2) },
    ]);
    assert_eq!(convert(&term), expected);
}

#[test]
fn empty_shapes() {
    assert_eq!(convert(&HostTerm::List(vec![])), Value::Array(vec![]));
    assert_eq!(convert(&HostTerm::Mapping(vec![])), Value::Dict(vec![]));
    assert_eq!(convert(&text("")), Value::Str(String::new()));
}

#[test]
fn deep_nesting_converts_recursively() {
    let term = HostTerm::List(vec![HostTerm::List(vec![HostTerm::Mapping(vec![MapEntry {
        key: text("n"),
        value: HostTerm::List(vec![HostTerm::Int(-5)]),
    }])])]);
    let expected = Value::Array(vec![Value::Array(vec![Value::Dict(vec![DictEntry {
        key: String::from("n"),
        value: Value::Array(vec![Value::Int(-5)]),
    }])])]);
    assert_eq!(convert(&term), expected);
}
