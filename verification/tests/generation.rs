use field_accessor::error::GenError;
use field_accessor::record::Record;
use field_accessor::schema::{extract_schema, Field, FieldsShape, RecordDef, Schema};
use field_accessor::synth::{describe, group_by_type, swap_pairs};
use field_accessor::value::{TypeDesc, Value};

fn field(name: &str, ty: TypeDesc) -> Field {
    Field { name: name.to_string(), ty }
}

fn dog_def() -> RecordDef {
    RecordDef::Struct {
        name: "Dog".to_string(),
        fields: FieldsShape::Named(vec![
            field("name", TypeDesc::Text),
            field("age", TypeDesc::Integer),
            field("life_expectancy", TypeDesc::Integer),
            field("friends", TypeDesc::TextList),
        ]),
    }
}

fn dog_schema() -> Schema {
    extract_schema(&dog_def()).unwrap()
}

#[test]
fn test_extract_rejects_other_shapes() {
    let unnamed = RecordDef::Struct {
        name: "Point".to_string(),
        fields: FieldsShape::Unnamed(2),
    };
    assert_eq!(extract_schema(&unnamed).unwrap_err(), GenError::UnsupportedShape);
    let unit = RecordDef::Struct { name: "Nothing".to_string(), fields: FieldsShape::Unit };
    assert_eq!(extract_schema(&unit).unwrap_err(), GenError::UnsupportedShape);
    let sum = RecordDef::Enum { name: "Choice".to_string() };
    assert_eq!(extract_schema(&sum).unwrap_err(), GenError::UnsupportedShape);
    let union_def = RecordDef::Union { name: "Raw".to_string() };
    assert_eq!(extract_schema(&union_def).unwrap_err(), GenError::UnsupportedShape);
}

#[test]
fn test_extract_rejects_repeated_name() {
    let def = RecordDef::Struct {
        name: "Dup".to_string(),
        fields: FieldsShape::Named(vec![
            field("x", TypeDesc::Text),
            field("x", TypeDesc::Integer),
        ]),
    };
    assert_eq!(extract_schema(&def).unwrap_err(), GenError::UnsupportedShape);
}

#[test]
fn test_no_default_for_named_type() {
    let def = RecordDef::Struct {
        name: "User".to_string(),
        fields: FieldsShape::Named(vec![
            field("name", TypeDesc::Text),
            field("data", TypeDesc::Named("UserData".to_string())),
        ]),
    };
    let schema = extract_schema(&def).unwrap();
    let err = Record::new(schema).unwrap_err();
    assert_eq!(err, GenError::NoDefaultAvailable(TypeDesc::Named("UserData".to_string())));
    let err2 = field_accessor::synth::derive(&def).unwrap_err();
    assert_eq!(err2, GenError::NoDefaultAvailable(TypeDesc::Named("UserData".to_string())));
}

#[test]
fn test_group_by_type_first_occurrence_order() {
    let schema = dog_schema();
    let groups = group_by_type(&schema.fields);
    assert_eq!(groups.len(), 3);
    assert_eq!(groups[0].ty, TypeDesc::Text);
    assert_eq!(groups[0].members, vec!["name".to_string()]);
    assert_eq!(groups[1].ty, TypeDesc::Integer);
    assert_eq!(
        groups[1].members,
        vec!["age".to_string(), "life_expectancy".to_string()]
    );
    assert_eq!(groups[2].ty, TypeDesc::TextList);
    assert_eq!(groups[2].members, vec!["friends".to_string()]);
}

#[test]
fn test_swap_pairs_enumeration() {
    let schema = dog_schema();
    let pairs = swap_pairs(&schema.fields);
    assert_eq!(pairs.len(), 2);
    assert_eq!(pairs[0].first, "age".to_string());
    assert_eq!(pairs[0].second, "life_expectancy".to_string());
    assert_eq!(pairs[0].ty, TypeDesc::Integer);
    assert_eq!(pairs[1].first, "life_expectancy".to_string());
    assert_eq!(pairs[1].second, "age".to_string());
    assert_eq!(pairs[1].ty, TypeDesc::Integer);
}

#[test]
fn test_describe_snapshot() {
    let schema = dog_schema();
    let info = describe(&schema);
    assert_eq!(
        info.field_names,
        vec![
            "name".to_string(),
            "age".to_string(),
            "life_expectancy".to_string(),
            "friends".to_string(),
        ]
    );
    assert_eq!(
        info.field_types,
        vec![
            "text".to_string(),
            "integer".to_string(),
            "integer".to_string(),
            "text list".to_string(),
        ]
    );
    assert_eq!(info.struct_name, "Dog".to_string());
}

#[test]
fn test_derive_pipeline_emits_all_artifacts() {
    let generated = field_accessor::synth::derive(&dog_def()).unwrap();
    assert_eq!(generated.schema.struct_name, "Dog".to_string());
    assert_eq!(generated.schema.fields.len(), 4);
    assert_eq!(generated.groups.len(), 3);
    assert_eq!(generated.pairs.len(), 2);
    assert_eq!(generated.info.struct_name, "Dog".to_string());
    assert_eq!(generated.info.field_names.len(), 4);
}

#[test]
fn test_new_record_starts_at_defaults() {
    let rec = Record::new(dog_schema()).unwrap();
    let name = rec.get(&TypeDesc::Text, &"name".to_string()).unwrap();
    assert_eq!(name, &Value::Text(String::new()));
    let age = rec.get(&TypeDesc::Integer, &"age".to_string()).unwrap();
    assert_eq!(age, &Value::Integer(0));
    let friends = rec.get(&TypeDesc::TextList, &"friends".to_string()).unwrap();
    assert_eq!(friends, &Value::TextList(Vec::new()));
}

fn taro() -> Record {
    let mut rec = Record::new(dog_schema()).unwrap();
    rec.set(&"name".to_string(), Value::Text("Taro".to_string())).unwrap();
    rec.set(&"age".to_string(), Value::Integer(3)).unwrap();
    rec.set(&"life_expectancy".to_string(), Value::Integer(9)).unwrap();
    rec.set(
        &"friends".to_string(),
        Value::TextList(vec!["Mike".to_string(), "Nozomi".to_string()]),
    )
    .unwrap();
    rec
}

#[test]
fn test_round_trip_every_field() {
    let mut rec = taro();
    let cases = vec![
        ("name", TypeDesc::Text, Value::Text("Jiro".to_string())),
        ("age", TypeDesc::Integer, Value::Integer(4)),
        (
            "friends",
            TypeDesc::TextList,
            Value::TextList(vec!["Makoto".to_string()]),
        ),
    ];
    for (name, ty, value) in cases.into_iter() {
        let key = name.to_string();
        rec.set(&key, value.clone()).unwrap();
        assert_eq!(rec.get(&ty, &key).unwrap(), &value);
    }
}

#[test]
fn test_take_twice_yields_default() {
    let mut rec = taro();
    let key = "friends".to_string();
    let first = rec.take(&TypeDesc::TextList, &key).unwrap();
    assert_eq!(
        first,
        Value::TextList(vec!["Mike".to_string(), "Nozomi".to_string()])
    );
    let second = rec.take(&TypeDesc::TextList, &key).unwrap();
    assert_eq!(second, Value::TextList(Vec::new()));
}

#[test]
fn test_replace_returns_prior_value() {
    let mut rec = taro();
    let key = "age".to_string();
    let prior = rec.replace(&key, Value::Integer(4)).unwrap();
    assert_eq!(prior, Value::Integer(3));
    assert_eq!(rec.get(&TypeDesc::Integer, &key).unwrap(), &Value::Integer(4));
}

#[test]
fn test_swap_twice_restores_record() {
    let mut rec = taro();
    let x = "age".to_string();
    let y = "life_expectancy".to_string();
    rec.swap(&x, &y).unwrap();
    rec.swap(&x, &y).unwrap();
    assert_eq!(rec.get(&TypeDesc::Integer, &x).unwrap(), &Value::Integer(3));
    assert_eq!(rec.get(&TypeDesc::Integer, &y).unwrap(), &Value::Integer(9));
}

#[test]
fn test_swap_failures_mutate_nothing() {
    let mut rec = taro();
    // different declared types
    assert!(rec.swap(&"name".to_string(), &"age".to_string()).is_err());
    // one name twice
    assert!(rec.swap(&"age".to_string(), &"age".to_string()).is_err());
    // a name the schema does not know
    assert!(rec.swap(&"age".to_string(), &"bogus".to_string()).is_err());
    assert_eq!(
        rec.get(&TypeDesc::Text, &"name".to_string()).unwrap(),
        &Value::Text("Taro".to_string())
    );
    assert_eq!(
        rec.get(&TypeDesc::Integer, &"age".to_string()).unwrap(),
        &Value::Integer(3)
    );
    assert_eq!(
        rec.get(&TypeDesc::Integer, &"life_expectancy".to_string()).unwrap(),
        &Value::Integer(9)
    );
}

#[test]
fn test_variant_carries_get_value() {
    let rec = taro();
    for name in vec!["name", "age", "life_expectancy", "friends"].into_iter() {
        let key = name.to_string();
        let variant = rec.getenum(&key).unwrap();
        assert_eq!(variant.name, key);
        let ty = variant.value.kind();
        assert_eq!(rec.get(&ty, &key).unwrap(), &variant.value);
    }
}

#[test]
fn test_enumeration_follows_introspection_order() {
    let rec = taro();
    let info = rec.getstructinfo();
    let expected = vec![
        Value::Text("Taro".to_string()),
        Value::Integer(3),
        Value::Integer(9),
        Value::TextList(vec!["Mike".to_string(), "Nozomi".to_string()]),
    ];
    assert_eq!(info.field_names.len(), expected.len());
    for (name, want) in info.field_names.iter().zip(expected.iter()) {
        let variant = rec.getenum(name).unwrap();
        assert_eq!(&variant.name, name);
        assert_eq!(&variant.value, want);
    }
}

#[test]
fn test_unknown_name_stable_across_operations() {
    let mut rec = taro();
    let bogus = "bogus".to_string();
    let e1 = rec.get(&TypeDesc::Text, &bogus).unwrap_err();
    assert_eq!(e1.message(), "invalid field name to get 'bogus'".to_string());
    let e2 = rec.get_mut(&TypeDesc::Text, &bogus).unwrap_err();
    assert_eq!(e2.message(), "invalid field name to get_mut 'bogus'".to_string());
    let e3 = rec.set(&bogus, Value::Integer(1)).unwrap_err();
    assert_eq!(e3.message(), "invalid field name to set 'bogus'".to_string());
    let e4 = rec.take(&TypeDesc::Integer, &bogus).unwrap_err();
    assert_eq!(e4.message(), "invalid field name to take 'bogus'".to_string());
    let e5 = rec.replace(&bogus, Value::Integer(1)).unwrap_err();
    assert_eq!(e5.message(), "invalid field name to replace 'bogus'".to_string());
    let e6 = rec.getenum(&bogus).unwrap_err();
    assert_eq!(e6.message(), "invalid field name to getenum 'bogus'".to_string());
    // the record is exactly as it was
    let info = rec.getstructinfo();
    let expected = vec![
        Value::Text("Taro".to_string()),
        Value::Integer(3),
        Value::Integer(9),
        Value::TextList(vec!["Mike".to_string(), "Nozomi".to_string()]),
    ];
    for (name, want) in info.field_names.iter().zip(expected.iter()) {
        assert_eq!(&rec.getenum(name).unwrap().value, want);
    }
}

#[test]
fn test_name_of_other_group_is_not_found() {
    let mut rec = taro();
    // "age" is a field, but of the integer group, not the text group
    let err = rec.get(&TypeDesc::Text, &"age".to_string()).unwrap_err();
    assert_eq!(err.message(), "invalid field name to get 'age'".to_string());
    let err = rec.set(&"age".to_string(), Value::Text("four".to_string())).unwrap_err();
    assert_eq!(err.message(), "invalid field name to set 'age'".to_string());
    assert_eq!(
        rec.get(&TypeDesc::Integer, &"age".to_string()).unwrap(),
        &Value::Integer(3)
    );
}

#[test]
fn test_example_scenario() {
    let def = RecordDef::Struct {
        name: "Person".to_string(),
        fields: FieldsShape::Named(vec![
            field("name", TypeDesc::Text),
            field("age", TypeDesc::Integer),
            field("life_expectancy", TypeDesc::Integer),
        ]),
    };
    let mut rec = Record::new(extract_schema(&def).unwrap()).unwrap();
    rec.set(&"name".to_string(), Value::Text("Taro".to_string())).unwrap();
    rec.set(&"age".to_string(), Value::Integer(3)).unwrap();
    rec.set(&"life_expectancy".to_string(), Value::Integer(9)).unwrap();

    rec.set(&"name".to_string(), Value::Text("Jiro".to_string())).unwrap();
    assert_eq!(
        rec.get(&TypeDesc::Text, &"name".to_string()).unwrap(),
        &Value::Text("Jiro".to_string())
    );
    rec.set(&"age".to_string(), Value::Integer(4)).unwrap();
    assert_eq!(
        rec.get(&TypeDesc::Integer, &"age".to_string()).unwrap(),
        &Value::Integer(4)
    );
    rec.swap(&"age".to_string(), &"life_expectancy".to_string()).unwrap();
    assert_eq!(
        rec.get(&TypeDesc::Integer, &"age".to_string()).unwrap(),
        &Value::Integer(9)
    );
    assert_eq!(
        rec.get(&TypeDesc::Integer, &"life_expectancy".to_string()).unwrap(),
        &Value::Integer(4)
    );
    let err = rec.get(&TypeDesc::Text, &"bogus".to_string()).unwrap_err();
    assert!(err.message().contains("bogus"));
}
