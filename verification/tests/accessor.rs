use field_accessor::error::AccessError;
use field_accessor::record::{FieldVariant, Record};
use field_accessor::schema::{extract_schema, Field, FieldsShape, RecordDef, Schema};
use field_accessor::value::{TypeDesc, Value};

fn field(name: &str, ty: TypeDesc) -> Field {
    Field { name: name.to_string(), ty }
}

fn schema_of(record_name: &str, fields: Vec<Field>) -> Schema {
    let def = RecordDef::Struct {
        name: record_name.to_string(),
        fields: FieldsShape::Named(fields),
    };
    extract_schema(&def).unwrap()
}

fn dog() -> Record {
    let schema = schema_of(
        "Dog",
        vec![
            field("name", TypeDesc::Text),
            field("age", TypeDesc::Integer),
            field("life_expectancy", TypeDesc::Integer),
        ],
    );
    let mut dog = Record::new(schema).unwrap();
    dog.set(&"name".to_string(), Value::Text("Taro".to_string())).unwrap();
    dog.set(&"age".to_string(), Value::Integer(3)).unwrap();
    dog.set(&"life_expectancy".to_string(), Value::Integer(9)).unwrap();
    dog
}

fn dog_with_friends() -> Record {
    let schema = schema_of(
        "Dog",
        vec![
            field("name", TypeDesc::Text),
            field("age", TypeDesc::Integer),
            field("life_expectancy", TypeDesc::Integer),
            field("friends", TypeDesc::TextList),
        ],
    );
    let mut dog = Record::new(schema).unwrap();
    dog.set(&"name".to_string(), Value::Text("Taro".to_string())).unwrap();
    dog.set(&"age".to_string(), Value::Integer(3)).unwrap();
    dog.set(&"life_expectancy".to_string(), Value::Integer(9)).unwrap();
    dog.set(
        &"friends".to_string(),
        Value::TextList(vec!["Mike".to_string(), "Nozomi".to_string()]),
    )
    .unwrap();
    dog
}

#[test]
fn test_get_on_invalid_name() {
    let mut dog = dog();
    let field_name = "name".to_string();
    let value_to_update = Value::Text("Jiro".to_string());
    dog.set(&field_name, value_to_update).unwrap();
    let value_on_error;
    let fieldvalue: &Value = match dog.get(&TypeDesc::Text, &"invalid_name".to_string()) {
        Ok(value) => value,
        Err(_) => {
            value_on_error = Value::Text("Ken".to_string());
            &value_on_error
        }
    };
    assert_eq!(fieldvalue, &Value::Text("Ken".to_string()));
}

#[test]
fn test_get_mut() {
    let mut dog = dog();
    let v: &mut Value = dog.get_mut(&TypeDesc::Text, &"name".to_string()).unwrap();
    *v = Value::Text("Jiro".to_string());
    assert_eq!(
        dog.get(&TypeDesc::Text, &"name".to_string()).unwrap(),
        &Value::Text("Jiro".to_string())
    );
}

#[test]
fn test_set() {
    let mut dog = dog();
    let field_name = "age".to_string();
    let value_to_update = Value::Integer(4);
    dog.set(&field_name, value_to_update).unwrap();
    let fieldvalue: &Value = dog.get(&TypeDesc::Integer, &field_name).unwrap();
    assert_eq!(fieldvalue, &Value::Integer(4));
}

#[test]
fn test_get_error() {
    let dog = dog();
    let field_name = "favorite_food".to_string();
    let fieldvalue: Result<&Value, AccessError> = dog.get(&TypeDesc::Text, &field_name);
    assert!(fieldvalue.is_err());
}

#[test]
fn test_set_error_message() {
    let mut dog = dog();
    let error = dog
        .set(&"height".to_string(), Value::Text("short".to_string()))
        .unwrap_err();
    assert_eq!(error.message(), "invalid field name to set 'height'".to_string());
}

#[test]
fn test_iterate_with_enum() {
    let dog = dog();
    let fields = vec![
        "name".to_string(),
        "age".to_string(),
        "life_expectancy".to_string(),
    ];
    let mut fieldvalues = Vec::new();
    for field_name in fields.into_iter() {
        fieldvalues.push(dog.getenum(&field_name).unwrap());
    }
    assert!(matches!(
        &fieldvalues[0],
        FieldVariant { name, value: Value::Text(value) } if name == "name" && value == "Taro"
    ));
    assert!(matches!(
        &fieldvalues[1],
        FieldVariant { name, value: Value::Integer(value) } if name == "age" && *value == 3
    ));
    assert!(matches!(
        &fieldvalues[2],
        FieldVariant { name, value: Value::Integer(value) }
            if name == "life_expectancy" && *value == 9
    ));
}

#[test]
fn test_take() {
    let mut dog = dog_with_friends();
    let field_name = "name".to_string();
    let v: Value = dog.take(&TypeDesc::Text, &field_name).unwrap();
    assert_eq!(v, Value::Text("Taro".to_string()));
    assert_eq!(
        dog.get(&TypeDesc::Text, &field_name).unwrap(),
        &Value::Text("".to_string())
    );
}

#[test]
fn test_replace() {
    let mut dog = dog_with_friends();
    let field_name = "name".to_string();
    let v: Value = dog
        .replace(&field_name, Value::Text("Taro_replaced".to_string()))
        .unwrap();
    assert_eq!(v, Value::Text("Taro".to_string()));
    assert_eq!(
        dog.get(&TypeDesc::Text, &field_name).unwrap(),
        &Value::Text("Taro_replaced".to_string())
    );
}

#[test]
fn test_swap() {
    let mut dog = dog_with_friends();
    let field_name = "age".to_string();
    let field_name_for_swap = "life_expectancy".to_string();
    dog.swap(&field_name, &field_name_for_swap).unwrap();
    assert_eq!(
        dog.get(&TypeDesc::Integer, &field_name).unwrap(),
        &Value::Integer(9)
    );
    assert_eq!(
        dog.get(&TypeDesc::Integer, &field_name_for_swap).unwrap(),
        &Value::Integer(3)
    );
}

#[test]
fn test_swap_invalid_combination() {
    let mut dog = dog_with_friends();
    let err = dog.swap(&"age".to_string(), &"name".to_string()).unwrap_err();
    assert_eq!(err.message(), "invalid field name to swap".to_string());
}

#[test]
fn test_simple_vector_field() {
    let mut dog = dog_with_friends();
    let field_name = "friends".to_string();
    let value_to_update = Value::TextList(vec!["Makoto".to_string(), "Maya".to_string()]);
    dog.set(&field_name, value_to_update).unwrap();
    let fieldvalue: &Value = dog.get(&TypeDesc::TextList, &field_name).unwrap();
    assert_eq!(
        fieldvalue,
        &Value::TextList(vec!["Makoto".to_string(), "Maya".to_string()])
    );
}

#[test]
fn test_getstructinfo() {
    let dog = dog();
    let info = dog.getstructinfo();
    let mut fieldvalues = Vec::new();
    for i in info.field_names.iter() {
        fieldvalues.push(dog.getenum(i).unwrap());
    }
    assert!(matches!(
        &fieldvalues[0],
        FieldVariant { name, value: Value::Text(value) } if name == "name" && value == "Taro"
    ));
    assert!(matches!(
        &fieldvalues[1],
        FieldVariant { name, value: Value::Integer(value) } if name == "age" && *value == 3
    ));
    assert!(matches!(
        &fieldvalues[2],
        FieldVariant { name, value: Value::Integer(value) }
            if name == "life_expectancy" && *value == 9
    ));
}

#[test]
fn test_multiple_derive() {
    let schema = schema_of("Test", vec![field("name", TypeDesc::Text)]);
    let mut test = Record::new(schema).unwrap();
    test.set(&"name".to_string(), Value::Text("first".to_string())).unwrap();
    test.set(&"name".to_string(), Value::Text("updated".to_string())).unwrap();
    let schema2 = schema_of("Test2", vec![field("name", TypeDesc::Text)]);
    let mut test2 = Record::new(schema2).unwrap();
    test2.set(&"name".to_string(), Value::Text("second".to_string())).unwrap();
    let _ = test2.get(&TypeDesc::Text, &"name".to_string()).unwrap();
}
