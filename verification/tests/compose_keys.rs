use deez::avmap::AttrMap;
use deez::error::DeezError;
use deez::schema::{DynamoType, IndexKey, IndexKeys, Key, Schema};
use deez::value::AttrValue;

fn str_key(field: &str, composite: &[&str]) -> Key {
    Key {
        field: field.to_string(),
        composite: composite.iter().map(|c| c.to_string()).collect(),
    }
}

fn task_schema() -> Schema {
    Schema::new(
        "TaskTable".to_string(),
        "TaskService".to_string(),
        "Task".to_string(),
        IndexKeys {
            partition_key: IndexKey::Partition(str_key("pk", &["task_id"])),
            sort_key: IndexKey::Sort(str_key("sk", &["employee", "project"])),
        },
        vec![
            (
                "task_gsi1".to_string(),
                IndexKeys {
                    partition_key: IndexKey::Partition(str_key("gsi1pk", &["project"])),
                    sort_key: IndexKey::Sort(str_key("gsi1sk", &["employee", "task_id"])),
                },
            ),
            (
                "task_gsi2".to_string(),
                IndexKeys {
                    partition_key: IndexKey::Partition(str_key("gsi2pk", &["employee"])),
                    sort_key: IndexKey::Sort(str_key("gsi2sk", &["project", "task_id"])),
                },
            ),
        ],
        vec![
            ("task_id".to_string(), DynamoType::DynamoString),
            ("project".to_string(), DynamoType::DynamoString),
            ("employee".to_string(), DynamoType::DynamoString),
            ("description".to_string(), DynamoType::DynamoString),
        ],
        false,
        vec![],
    )
    .unwrap()
}

fn full_task() -> AttrMap {
    let mut a = AttrMap::new();
    a.insert("task_id", AttrValue::Str("1a2b3c4d".to_string()));
    a.insert("project", AttrValue::Str("foo_project".to_string()));
    a.insert("employee", AttrValue::Str("e42069".to_string()));
    a.insert(
        "description",
        AttrValue::Str("nothin' but chillin' 20's".to_string()),
    );
    a
}

fn str_of(m: &AttrMap, field: &str) -> String {
    m.get(field).unwrap().as_s().unwrap().clone()
}

#[test]
fn index_names() {
    let schema = task_schema();
    assert_eq!(schema.global_secondary_indexes[0].0, "task_gsi1");
    assert_eq!(schema.global_secondary_indexes[1].0, "task_gsi2");
}

#[test]
fn to_from() {
    let schema = task_schema();
    let a = full_task();

    let b = schema.to_av_map_with_keys(&a);

    assert_eq!(str_of(&b, "pk"), "$TaskService#Task#task_id_1a2b3c4d");
    assert_eq!(str_of(&b, "sk"), "$Task#employee_e42069#project_foo_project");
    assert_eq!(str_of(&b, "gsi1pk"), "$TaskService#Task#project_foo_project");
    assert_eq!(str_of(&b, "gsi1sk"), "$Task#employee_e42069#task_id_1a2b3c4d");
    assert_eq!(str_of(&b, "gsi2pk"), "$TaskService#Task#employee_e42069");
    assert_eq!(str_of(&b, "gsi2sk"), "$Task#project_foo_project#task_id_1a2b3c4d");

    let parsed = schema.from_av_map(&b).unwrap();

    // An entity is reconstructed over its defaults: fields outside the
    // schema, like this metadata, keep the default the caller chose.
    let mut c = AttrMap::new();
    c.insert("some_metadata", AttrValue::Str("it's true".to_string()));
    for (name, value) in parsed.entries.iter() {
        c.insert(name.as_str(), value.dup());
    }

    assert_eq!(str_of(&c, "task_id"), "1a2b3c4d");
    assert_eq!(str_of(&c, "project"), "foo_project");
    assert_eq!(str_of(&c, "employee"), "e42069");
    assert_eq!(str_of(&c, "description"), "nothin' but chillin' 20's");
    assert_eq!(str_of(&c, "some_metadata"), "it's true");
}

#[test]
fn partial_keys() {
    let schema = task_schema();
    let mut task = AttrMap::new();
    task.insert("task_id", AttrValue::Str("1a2b3c4d".to_string()));
    task.insert(
        "description",
        AttrValue::Str("nothin' but chillin' 20's".to_string()),
    );

    {
        let map = schema.to_av_map_with_keys(&task);
        assert_eq!(str_of(&map, "sk"), "$Task");
    }

    {
        task.insert("employee", AttrValue::Str("e42069".to_string()));
        let map = schema.to_av_map_with_keys(&task);
        assert_eq!(str_of(&map, "sk"), "$Task#employee_e42069");
    }
}

#[test]
fn composition_is_deterministic() {
    let schema = task_schema();
    let a = full_task();
    let first = schema.to_av_map_with_keys(&a);
    let second = schema.to_av_map_with_keys(&a);
    assert_eq!(str_of(&first, "pk"), str_of(&second, "pk"));
    assert_eq!(str_of(&first, "sk"), str_of(&second, "sk"));
    assert_eq!(str_of(&first, "gsi1sk"), str_of(&second, "gsi1sk"));
}

#[test]
fn partial_key_is_prefix() {
    let schema = task_schema();
    let full = full_task();
    let mut partial = AttrMap::new();
    partial.insert("task_id", AttrValue::Str("1a2b3c4d".to_string()));
    partial.insert("employee", AttrValue::Str("e42069".to_string()));

    let whole = schema.to_av_map_with_keys(&full);
    let cut = schema.to_av_map_with_keys(&partial);
    assert!(str_of(&whole, "sk").starts_with(&str_of(&cut, "sk")));
    assert!(str_of(&whole, "gsi1sk").starts_with(&str_of(&cut, "gsi1sk")));
}

#[test]
fn zero_composites_compose_to_prefix() {
    let schema = Schema::new(
        "footable".to_string(),
        "fooservice".to_string(),
        "fooentity".to_string(),
        IndexKeys {
            partition_key: IndexKey::Partition(str_key("pk", &["foo_string_1"])),
            sort_key: IndexKey::Sort(str_key("sk", &[])),
        },
        vec![],
        vec![("foo_string_1".to_string(), DynamoType::DynamoString)],
        false,
        vec![],
    )
    .unwrap();

    let mut a = AttrMap::new();
    a.insert("foo_string_1", AttrValue::Str("foo".to_string()));
    let m = schema.to_av_map_with_keys(&a);
    assert_eq!(str_of(&m, "sk"), "$fooentity");
    assert_eq!(str_of(&m, "pk"), "$fooservice#fooentity#foo_string_1_foo");

    let empty = AttrMap::new();
    let m2 = schema.to_av_map_with_keys(&empty);
    assert_eq!(str_of(&m2, "sk"), "$fooentity");
    assert_eq!(str_of(&m2, "pk"), "$fooservice#fooentity");
}

#[test]
fn zero_value_truncates() {
    let schema = Schema::new(
        "t".to_string(),
        "s".to_string(),
        "e".to_string(),
        IndexKeys {
            partition_key: IndexKey::Partition(str_key("pk", &["a"])),
            sort_key: IndexKey::Sort(str_key("sk", &["n", "b"])),
        },
        vec![],
        vec![
            ("a".to_string(), DynamoType::DynamoString),
            ("n".to_string(), DynamoType::DynamoNumber),
            ("b".to_string(), DynamoType::DynamoString),
        ],
        false,
        vec![],
    )
    .unwrap();

    let mut a = AttrMap::new();
    a.insert("a", AttrValue::Str("x".to_string()));
    a.insert("n", AttrValue::Num("0".to_string()));
    a.insert("b", AttrValue::Str("y".to_string()));
    let m = schema.to_av_map_with_keys(&a);
    // The canonical numeric zero reads as absent and cuts the key before b.
    assert_eq!(str_of(&m, "sk"), "$e");

    a.insert("n", AttrValue::Num("7".to_string()));
    let m2 = schema.to_av_map_with_keys(&a);
    assert_eq!(str_of(&m2, "sk"), "$e#n_7#b_y");
}

#[test]
fn key_from_positions_orders_composites() {
    let k = Key::from_positions(
        "sk".to_string(),
        vec![("project".to_string(), 1), ("employee".to_string(), 0)],
    )
    .unwrap();
    assert_eq!(k.field, "sk");
    assert_eq!(k.composite, vec!["employee".to_string(), "project".to_string()]);
}

#[test]
fn key_from_positions_rejects_gap() {
    let r = Key::from_positions(
        "sk".to_string(),
        vec![("project".to_string(), 2), ("employee".to_string(), 0)],
    );
    match r {
        Err(DeezError::SchemaConflict(f)) => assert_eq!(f, "sk"),
        other => panic!("unexpected result: {:?}", other),
    }
}

#[test]
fn schema_rejects_field_colliding_with_attribute() {
    let r = Schema::new(
        "t".to_string(),
        "s".to_string(),
        "e".to_string(),
        IndexKeys {
            partition_key: IndexKey::Partition(str_key("pk", &["a"])),
            sort_key: IndexKey::Sort(str_key("sk", &[])),
        },
        vec![],
        vec![
            ("a".to_string(), DynamoType::DynamoString),
            ("pk".to_string(), DynamoType::DynamoString),
        ],
        false,
        vec![],
    );
    match r {
        Err(DeezError::SchemaConflict(f)) => assert_eq!(f, "pk"),
        other => panic!("unexpected result: {:?}", other),
    }
}

#[test]
fn schema_rejects_undeclared_composite() {
    let r = Schema::new(
        "t".to_string(),
        "s".to_string(),
        "e".to_string(),
        IndexKeys {
            partition_key: IndexKey::Partition(str_key("pk", &["missing"])),
            sort_key: IndexKey::Sort(str_key("sk", &[])),
        },
        vec![],
        vec![("a".to_string(), DynamoType::DynamoString)],
        false,
        vec![],
    );
    match r {
        Err(DeezError::SchemaConflict(f)) => assert_eq!(f, "missing"),
        other => panic!("unexpected result: {:?}", other),
    }
}
