use deez::avmap::AttrMap;
use deez::batch::{batch_write, WriteUnit};
use deez::error::DeezError;
use deez::query::DeezQueryBuilder;
use deez::schema::{DynamoType, Index, IndexKey, IndexKeys, Key, Schema};
use deez::value::AttrValue;

fn str_key(field: &str, composite: &[&str]) -> Key {
    Key {
        field: field.to_string(),
        composite: composite.iter().map(|c| c.to_string()).collect(),
    }
}

fn task_schema() -> Schema {
    Schema::new(
        "TaskTable".to_string(),
        "TaskService".to_string(),
        "Task".to_string(),
        IndexKeys {
            partition_key: IndexKey::Partition(str_key("pk", &["task_id"])),
            sort_key: IndexKey::Sort(str_key("sk", &["employee", "project"])),
        },
        vec![(
            "task_gsi1".to_string(),
            IndexKeys {
                partition_key: IndexKey::Partition(str_key("gsi1pk", &["project"])),
                sort_key: IndexKey::Sort(str_key("gsi1sk", &["employee", "project"])),
            },
        )],
        vec![
            ("task_id".to_string(), DynamoType::DynamoString),
            ("project".to_string(), DynamoType::DynamoString),
            ("employee".to_string(), DynamoType::DynamoString),
            ("description".to_string(), DynamoType::DynamoString),
        ],
        false,
        vec![],
    )
    .unwrap()
}

fn full_task() -> AttrMap {
    let mut a = AttrMap::new();
    a.insert("task_id", AttrValue::Str("1a2b3c4d".to_string()));
    a.insert("project", AttrValue::Str("foo_project".to_string()));
    a.insert("employee", AttrValue::Str("e42069".to_string()));
    a.insert("description", AttrValue::Str("ddd".to_string()));
    a
}

#[test]
fn create_demands_absence() {
    let schema = task_schema();
    let r = schema.create(&full_task());
    assert_eq!(r.table, "TaskTable");
    assert_eq!(
        r.condition_expression.as_deref(),
        Some("attribute_not_exists(#pk) AND attribute_not_exists(#sk)")
    );
    assert_eq!(
        r.expression_attribute_names,
        vec![
            ("#pk".to_string(), "pk".to_string()),
            ("#sk".to_string(), "sk".to_string())
        ]
    );
    assert_eq!(
        r.item.get("pk"),
        Some(&AttrValue::Str(
            "$TaskService#Task#task_id_1a2b3c4d".to_string()
        ))
    );
}

#[test]
fn put_is_unconditional() {
    let schema = task_schema();
    let r = schema.put(&full_task());
    assert!(r.condition_expression.is_none());
    assert!(r.expression_attribute_names.is_empty());
}

#[test]
fn delete_and_remove_target_the_primary_key() {
    let schema = task_schema();
    let e = full_task();
    let d = schema.delete(&e);
    assert_eq!(
        d.key,
        vec![
            (
                "pk".to_string(),
                "$TaskService#Task#task_id_1a2b3c4d".to_string()
            ),
            (
                "sk".to_string(),
                "$Task#employee_e42069#project_foo_project".to_string()
            )
        ]
    );
    assert!(d.condition_expression.is_none());

    let rm = schema.remove(&e);
    assert_eq!(rm.key, d.key);
    assert_eq!(
        rm.condition_expression.as_deref(),
        Some("attribute_exists(#pk) AND attribute_exists(#sk)")
    );
}

#[test]
fn query_defaults_to_begins_with() {
    let schema = task_schema();
    let r = schema.query(Index::Primary, &full_task()).unwrap().build();
    assert_eq!(
        r.key_condition_expression,
        "#pk = :pk and begins_with(#sk1, :sk1)"
    );
    assert!(r.index_name.is_none());
    assert_eq!(
        r.expression_attribute_names,
        vec![
            ("#pk".to_string(), "pk".to_string()),
            ("#sk1".to_string(), "sk".to_string())
        ]
    );
    assert_eq!(
        r.expression_attribute_values,
        vec![
            (
                ":pk".to_string(),
                AttrValue::Str("$TaskService#Task#task_id_1a2b3c4d".to_string())
            ),
            (
                ":sk1".to_string(),
                AttrValue::Str("$Task#employee_e42069#project_foo_project".to_string())
            )
        ]
    );
}

#[test]
fn query_selects_the_secondary_index() {
    let schema = task_schema();
    let r = schema
        .query(Index::Gsi("task_gsi1".to_string()), &full_task())
        .unwrap()
        .build();
    assert_eq!(r.index_name.as_deref(), Some("task_gsi1"));
    assert_eq!(
        r.expression_attribute_values[0],
        (
            ":pk".to_string(),
            AttrValue::Str("$TaskService#Task#project_foo_project".to_string())
        )
    );
}

#[test]
fn query_rejects_an_unknown_index() {
    let schema = task_schema();
    match schema.query(Index::Gsi("nope".to_string()), &full_task()) {
        Err(DeezError::UnknownSchemaIndex(n)) => assert_eq!(n, "nope"),
        other => panic!("unexpected result: {:?}", other.map(|_| ())),
    }
}

#[test]
fn query_operators_swap_the_sort_comparison() {
    let schema = task_schema();
    let e = full_task();
    let mut low = AttrMap::new();
    low.insert("task_id", AttrValue::Str("1a2b3c4d".to_string()));
    low.insert("employee", AttrValue::Str("a".to_string()));
    let mut high = AttrMap::new();
    high.insert("task_id", AttrValue::Str("1a2b3c4d".to_string()));
    high.insert("employee", AttrValue::Str("z".to_string()));

    let gte = schema.query(Index::Primary, &e).unwrap().gte(&low).unwrap().build();
    assert_eq!(gte.key_condition_expression, "#pk = :pk and #sk1 >= :sk1");
    assert_eq!(
        gte.expression_attribute_values[1],
        (":sk1".to_string(), AttrValue::Str("$Task#employee_a".to_string()))
    );

    let lt = schema.query(Index::Primary, &e).unwrap().lt(&low).unwrap().build();
    assert_eq!(lt.key_condition_expression, "#pk = :pk and #sk1 < :sk1");

    let begins = schema.query(Index::Primary, &e).unwrap().begins(&low).unwrap().build();
    assert_eq!(
        begins.key_condition_expression,
        "#pk = :pk and begins_with(#sk1, :sk1)"
    );

    let between = schema
        .query(Index::Primary, &e)
        .unwrap()
        .between(&low, &high)
        .unwrap()
        .build();
    assert_eq!(
        between.key_condition_expression,
        "#pk = :pk and #sk1 BETWEEN :sk1 AND :sk2"
    );
    assert_eq!(
        between.expression_attribute_values[2],
        (":sk2".to_string(), AttrValue::Str("$Task#employee_z".to_string()))
    );
}

#[test]
fn query_builder_without_sort_value_is_refused() {
    let schema = task_schema();
    let b = DeezQueryBuilder {
        schema: &schema,
        index: Index::Primary,
        index_name: None,
        exp: "#pk = :pk".to_string(),
        exp_appendix: "and begins_with(#sk1, :sk1)".to_string(),
        names: vec![],
        values: vec![],
    };
    match b.begins(&full_task()) {
        Err(DeezError::UnknownAttributeValueKey(n)) => assert_eq!(n, ":sk1"),
        other => panic!("unexpected result: {:?}", other.map(|_| ())),
    }
}

#[test]
fn update_restages_touched_secondary_keys() {
    let schema = task_schema();
    let mut e = AttrMap::new();
    e.insert("task_id", AttrValue::Str("1a2b3c4d".to_string()));
    e.insert("employee", AttrValue::Str(String::new()));

    let b = schema.update(&e);
    let b = b
        .set_string(&vec![("employee".to_string(), "e42069".to_string())])
        .unwrap();

    // The secondary sort key composes over employee then project; project is
    // absent, so the restaged key truncates after the new employee value.
    let staged = b.sets.iter().find(|a| a.name == "gsi1sk").unwrap();
    assert_eq!(
        staged.value,
        AttrValue::Str("$Task#employee_e42069".to_string())
    );
    // The scalar write itself is staged too.
    let scalar = b.sets.iter().find(|a| a.name == "employee").unwrap();
    assert_eq!(scalar.value, AttrValue::Str("e42069".to_string()));
    // The partition side of that index does not compose over employee and
    // is left alone.
    assert!(b.sets.iter().all(|a| a.name != "gsi1pk"));
}

#[test]
fn update_rejects_an_unknown_attribute() {
    let schema = task_schema();
    let e = full_task();
    let r = schema
        .update(&e)
        .set_string(&vec![("nope".to_string(), "x".to_string())]);
    match r {
        Err(DeezError::UnknownAttribute(n)) => assert_eq!(n, "nope"),
        other => panic!("unexpected result: {:?}", other.map(|_| ())),
    }
}

#[test]
fn update_builder() {
    let schema = task_schema();
    let e = full_task();

    let u = schema
        .update(&e)
        .set_string(&vec![("description".to_string(), "rofl".to_string())])
        .unwrap()
        .set_string(&vec![("description".to_string(), "lmao".to_string())])
        .unwrap()
        .add(&vec![("description".to_string(), "3".to_string())])
        .subtract(&vec![("description".to_string(), "1".to_string())])
        .build();

    assert_eq!(
        u.update_expression,
        "SET #description = :description_u0, #description = :description_u1, \
         #description = #description - :description_u3 ADD #description :description_u2"
    );
    assert_eq!(u.key[0].0, "pk");
    assert_eq!(u.key[0].1, "$TaskService#Task#task_id_1a2b3c4d");
    assert_eq!(
        u.expression_attribute_values[0],
        (":description_u0".to_string(), AttrValue::Str("rofl".to_string()))
    );
    assert_eq!(
        u.expression_attribute_values[1],
        (":description_u1".to_string(), AttrValue::Str("lmao".to_string()))
    );
    assert!(u.condition_expression.is_none());
}

#[test]
fn patch_demands_absence() {
    let schema = task_schema();
    let u = schema.patch(&full_task()).build();
    assert_eq!(
        u.condition_expression.as_deref(),
        Some("attribute_not_exists(#pk) AND attribute_not_exists(#sk)")
    );
    assert_eq!(u.expression_attribute_names[0].0, "#pk");
    assert_eq!(u.expression_attribute_names[1].0, "#sk");
    assert_eq!(u.update_expression, "");
}

#[test]
fn set_bool_stages_without_resync() {
    let schema = task_schema();
    let b = schema
        .update(&full_task())
        .set_bool(&vec![("description".to_string(), true)]);
    assert_eq!(b.sets.len(), 1);
    assert_eq!(b.sets[0].value, AttrValue::Boolean(true));
}

#[test]
fn batch_write_groups_by_table() {
    let schema = task_schema();
    let mut e2 = full_task();
    e2.insert("task_id", AttrValue::Str("zzz".to_string()));

    let r = batch_write()
        .put(&schema, &vec![full_task(), e2])
        .delete(&schema, &vec![full_task()])
        .build();

    assert_eq!(r.requests.len(), 1);
    assert_eq!(r.requests[0].0, "TaskTable");
    assert_eq!(r.requests[0].1.len(), 3);
    match &r.requests[0].1[0] {
        WriteUnit::Put(m) => {
            assert_eq!(
                m.get("pk"),
                Some(&AttrValue::Str(
                    "$TaskService#Task#task_id_1a2b3c4d".to_string()
                ))
            );
        }
        other => panic!("unexpected unit: {:?}", other),
    }
    match &r.requests[0].1[2] {
        WriteUnit::Delete(k) => {
            assert_eq!(k[0].0, "pk");
            assert_eq!(k[0].1, "$TaskService#Task#task_id_1a2b3c4d");
        }
        other => panic!("unexpected unit: {:?}", other),
    }
}

#[test]
fn batch_get_lists_every_primary_key() {
    let schema = task_schema();
    let r = schema.batch_get(&vec![full_task(), full_task()]);
    assert_eq!(r.table, "TaskTable");
    assert_eq!(r.keys.len(), 2);
    assert_eq!(r.keys[0].partition_key.0, "pk");
    assert_eq!(
        r.keys[0].partition_key.1,
        "$TaskService#Task#task_id_1a2b3c4d"
    );
    assert_eq!(
        r.keys[1].sort_key.1,
        "$Task#employee_e42069#project_foo_project"
    );
}

#[test]
fn index_selector_names() {
    assert_eq!(Index::Primary.name(), "primary");
    assert_eq!(Index::Gsi("task_gsi1".to_string()).name(), "task_gsi1");
}
