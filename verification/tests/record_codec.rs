use deez::avmap::AttrMap;
use deez::error::DeezError;
use deez::schema::{DynamoType, IndexKey, IndexKeys, Key, Schema};
use deez::value::{AttrValue, AttributeValueError};

fn str_key(field: &str, composite: &[&str]) -> Key {
    Key {
        field: field.to_string(),
        composite: composite.iter().map(|c| c.to_string()).collect(),
    }
}

fn foo_schema(lenient: bool, overrides: Vec<(String, bool)>) -> Schema {
    Schema::new(
        "footable".to_string(),
        "fooservice".to_string(),
        "fooentity".to_string(),
        IndexKeys {
            partition_key: IndexKey::Partition(str_key("pk", &["foo_string_1"])),
            sort_key: IndexKey::Sort(str_key("sk", &[])),
        },
        vec![(
            "gsi1".to_string(),
            IndexKeys {
                partition_key: IndexKey::Partition(str_key("gsi1pk", &["foo_string_2"])),
                sort_key: IndexKey::Sort(str_key("gsi1sk", &["foo_string_3", "foo_string_4"])),
            },
        )],
        vec![
            ("foo_string_1".to_string(), DynamoType::DynamoString),
            ("foo_string_2".to_string(), DynamoType::DynamoString),
            ("foo_string_3".to_string(), DynamoType::DynamoString),
            ("foo_string_4".to_string(), DynamoType::DynamoString),
            ("foo_string".to_string(), DynamoType::DynamoString),
            ("foo_usize".to_string(), DynamoType::DynamoNumber),
            ("foo_bool".to_string(), DynamoType::DynamoBool),
        ],
        lenient,
        overrides,
    )
    .unwrap()
}

fn full_foo() -> AttrMap {
    let mut a = AttrMap::new();
    a.insert("foo_string_1", AttrValue::Str("foo".to_string()));
    a.insert("foo_string_2", AttrValue::Str("bar".to_string()));
    a.insert("foo_string_3", AttrValue::Str("baz".to_string()));
    a.insert("foo_string_4", AttrValue::Str("asdf".to_string()));
    a.insert("foo_string", AttrValue::Str("bar".to_string()));
    a.insert("foo_usize", AttrValue::Num("3".to_string()));
    a.insert("foo_bool", AttrValue::Boolean(true));
    a
}

#[test]
fn unit_1() {
    println!("unit");
    let schema = foo_schema(false, vec![]);
    let a = full_foo();

    let b = schema.to_av_map_with_keys(&a);

    assert_eq!(
        b.get("foo_string").unwrap().as_s().unwrap().to_string(),
        "bar".to_string()
    );
    assert_eq!(b.get("foo_usize").unwrap().as_n().unwrap().to_string(), "3");
}

#[test]
fn round_trip_returns_the_entity() {
    let schema = foo_schema(false, vec![]);
    let a = full_foo();
    let record = schema.to_av_map_with_keys(&a);
    let parsed = schema.from_av_map(&record).unwrap();

    assert_eq!(parsed.len(), a.len());
    for (name, value) in a.entries.iter() {
        assert_eq!(parsed.get(name.as_str()), Some(value));
    }
    // The generated key fields are dropped on the way back.
    assert!(parsed.get("pk").is_none());
    assert!(parsed.get("sk").is_none());
    assert!(parsed.get("gsi1pk").is_none());
    assert!(parsed.get("gsi1sk").is_none());
}

#[test]
fn strict_read_fails_on_absent_field() {
    let schema = foo_schema(false, vec![]);
    let a = full_foo();
    let record = schema.to_av_map_with_keys(&a);

    let mut partial = AttrMap::new();
    for (name, value) in record.entries.iter() {
        if name != "foo_usize" {
            partial.insert(name.as_str(), value.dup());
        }
    }
    match schema.from_av_map(&partial) {
        Err(DeezError::MapKey(n)) => assert_eq!(n, "foo_usize"),
        other => panic!("unexpected result: {:?}", other),
    }
}

#[test]
fn lenient_read_fills_zero_values() {
    let schema = foo_schema(true, vec![]);
    let mut record = AttrMap::new();
    record.insert("foo_string_1", AttrValue::Str("foo".to_string()));

    let parsed = schema.from_av_map(&record).unwrap();
    assert_eq!(
        parsed.get("foo_string_1"),
        Some(&AttrValue::Str("foo".to_string()))
    );
    assert_eq!(
        parsed.get("foo_string_2"),
        Some(&AttrValue::Str(String::new()))
    );
    assert_eq!(parsed.get("foo_usize"), Some(&AttrValue::Num("0".to_string())));
    assert_eq!(parsed.get("foo_bool"), Some(&AttrValue::Boolean(false)));
}

#[test]
fn per_field_override_beats_the_default() {
    let schema = foo_schema(false, vec![("foo_usize".to_string(), true)]);
    let mut record = full_foo();
    record.entries.retain(|e| e.0 != "foo_usize");

    // The override makes this one field lenient under a strict default.
    let parsed = schema.from_av_map(&record).unwrap();
    assert_eq!(parsed.get("foo_usize"), Some(&AttrValue::Num("0".to_string())));

    let strict = foo_schema(false, vec![]);
    match strict.from_av_map(&record) {
        Err(DeezError::MapKey(n)) => assert_eq!(n, "foo_usize"),
        other => panic!("unexpected result: {:?}", other),
    }
}

#[test]
fn read_fails_on_wrong_tag() {
    let schema = foo_schema(false, vec![]);
    let mut record = full_foo();
    record.insert("foo_usize", AttrValue::Str("not a number".to_string()));
    match schema.from_av_map(&record) {
        Err(DeezError::AWSAttributeValue(AttributeValueError)) => {}
        other => panic!("unexpected result: {:?}", other),
    }
}

#[test]
fn slice_read_parses_each_record() {
    let schema = foo_schema(false, vec![]);
    let a = full_foo();
    let records = vec![
        schema.to_av_map_with_keys(&a),
        schema.to_av_map_with_keys(&a),
    ];
    let parsed = schema.from_av_map_slice(&records).unwrap();
    assert_eq!(parsed.len(), 2);
    assert_eq!(
        parsed[0].get("foo_string_1"),
        Some(&AttrValue::Str("foo".to_string()))
    );
}

#[test]
fn value_accessors_check_the_tag() {
    let v = AttrValue::Str("x".to_string());
    assert!(v.as_s().is_ok());
    assert_eq!(v.as_n(), Err(AttributeValueError));
    assert_eq!(v.as_bool(), Err(AttributeValueError));
    let n = AttrValue::Num("12".to_string());
    assert_eq!(n.as_n().unwrap(), "12");
    let b = AttrValue::Boolean(true);
    assert_eq!(b.as_bool(), Ok(true));
}

#[test]
fn error_messages_name_the_item() {
    assert_eq!(
        DeezError::UnknownSchemaIndex("gsi9".to_string()).message(),
        "unknown key: gsi9"
    );
    assert_eq!(
        DeezError::MapKey("foo".to_string()).message(),
        "missing key in map: foo"
    );
    assert_eq!(
        DeezError::AWSAttributeValue(AttributeValueError).message(),
        "AttributeValue error"
    );
}
