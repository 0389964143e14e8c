use serde_json::Value;
use speq::builder::{ref_node, schema_ref_to_node, schema_to_node};
use speq::json::{json_display, json_display_of, text_member, text_or_empty};
use speq::schema::{
    ArrayType, Format, IntegerFormat, IntegerType, NumberFormat, NumberType, ObjectType, Schema,
    SchemaData, SchemaKind, SchemaRef, StringFormat, StringType,
};
use speq::tree::NodeKind;

fn no_data() -> SchemaData {
    SchemaData { description: None, example: None, default: None }
}

fn schema(kind: SchemaKind) -> Schema {
    Schema { data: no_data(), kind }
}

fn item(kind: SchemaKind) -> SchemaRef {
    SchemaRef::Item(Box::new(schema(kind)))
}

fn reference(path: &str) -> SchemaRef {
    SchemaRef::Reference { reference: path.to_string() }
}

fn string_type() -> StringType {
    StringType {
        format: Format::Absent,
        pattern: None,
        enumeration: Vec::new(),
        min_length: None,
        max_length: None,
    }
}

fn integer_type() -> IntegerType {
    IntegerType {
        format: Format::Absent,
        multiple_of: None,
        exclusive_minimum: false,
        exclusive_maximum: false,
        minimum: None,
        maximum: None,
        enumeration: Vec::new(),
    }
}

fn number_type() -> NumberType {
    NumberType {
        format: Format::Absent,
        multiple_of: None,
        exclusive_minimum: false,
        exclusive_maximum: false,
        minimum: None,
        maximum: None,
        enumeration: Vec::new(),
    }
}

fn object_type(properties: Vec<(&str, SchemaRef)>, required: Vec<&str>) -> ObjectType {
    ObjectType {
        properties: properties.into_iter().map(|(k, v)| (k.to_string(), v)).collect(),
        required: required.into_iter().map(|s| s.to_string()).collect(),
        min_properties: None,
        max_properties: None,
    }
}

fn texts(items: &[&str]) -> Vec<String> {
    items.iter().map(|s| s.to_string()).collect()
}

#[test]
fn object_with_three_properties() {
    let id = item(SchemaKind::Integer(IntegerType {
        format: Format::Known(IntegerFormat::Int64),
        ..integer_type()
    }));
    let pet = schema(SchemaKind::Object(object_type(
        vec![
            ("id", id),
            ("name", item(SchemaKind::Str(string_type()))),
            ("tag", item(SchemaKind::Str(string_type()))),
        ],
        vec!["id", "name"],
    )));
    let node = schema_to_node("Pet".to_string(), &pet, false);
    assert!(matches!(node.info.kind, NodeKind::Object));
    assert_eq!(node.name, "Pet");
    assert!(!node.info.required);
    assert!(!node.expanded);
    assert_eq!(node.children.len(), 3);
    let names: Vec<&str> = node.children.iter().map(|c| c.name.as_str()).collect();
    assert_eq!(names, vec!["id", "name", "tag"]);
    let id = &node.children[0];
    assert!(matches!(id.info.kind, NodeKind::Integer));
    assert_eq!(id.info.format.as_deref(), Some("int64"));
    assert!(id.info.required);
    assert!(node.children[1].info.required);
    assert!(matches!(node.children[1].info.kind, NodeKind::Str));
    assert!(!node.children[2].info.required);
    assert!(node.children.iter().all(|c| c.children.is_empty() && !c.expanded));
}

#[test]
fn array_of_references() {
    let pets = schema(SchemaKind::Array(ArrayType {
        items: Some(reference("#/components/schemas/Pet")),
        min_items: None,
        max_items: None,
        unique_items: false,
    }));
    let node = schema_to_node("Pets".to_string(), &pets, false);
    assert!(matches!(node.info.kind, NodeKind::Array));
    assert_eq!(node.children.len(), 1);
    let items = &node.children[0];
    assert_eq!(items.name, "items");
    assert!(matches!(&items.info.kind, NodeKind::Ref(t) if t == "Pet"));
    assert!(!items.info.required);
    assert!(items.children.is_empty());
    assert!(node.info.constraints.is_empty());
}

#[test]
fn array_without_items_has_no_child() {
    let list = schema(SchemaKind::Array(ArrayType {
        items: None,
        min_items: Some(1),
        max_items: Some(20),
        unique_items: true,
    }));
    let node = schema_to_node("list".to_string(), &list, true);
    assert!(node.children.is_empty());
    assert!(node.info.required);
    assert_eq!(
        node.info.constraints,
        texts(&["minItems: 1", "maxItems: 20", "uniqueItems: true"])
    );
}

#[test]
fn string_length_constraints_in_order() {
    let s = schema(SchemaKind::Str(StringType {
        min_length: Some(1),
        max_length: Some(10),
        ..string_type()
    }));
    let node = schema_to_node("code".to_string(), &s, false);
    assert_eq!(node.info.constraints, texts(&["minLength: 1", "maxLength: 10"]));
    assert!(node.info.enum_values.is_empty());
    assert_eq!(node.info.format, None);
}

#[test]
fn string_pattern_format_and_enum() {
    let s = schema(SchemaKind::Str(StringType {
        format: Format::Known(StringFormat::DateTime),
        pattern: Some("^[a-z]+$".to_string()),
        enumeration: vec![Some("cat".to_string()), None, Some("dog".to_string())],
        min_length: None,
        max_length: Some(3),
    }));
    let node = schema_to_node("kind".to_string(), &s, false);
    assert_eq!(node.info.format.as_deref(), Some("date-time"));
    assert_eq!(node.info.constraints, texts(&["maxLength: 3", "pattern: ^[a-z]+$"]));
    assert_eq!(node.info.enum_values, texts(&["\"cat\"", "\"dog\""]));
}

#[test]
fn format_words() {
    let with = |format: Format<StringFormat>| {
        schema_to_node(
            "s".to_string(),
            &schema(SchemaKind::Str(StringType { format, ..string_type() })),
            false,
        )
        .info
        .format
    };
    assert_eq!(with(Format::Known(StringFormat::Date)).as_deref(), Some("date"));
    assert_eq!(with(Format::Known(StringFormat::Password)).as_deref(), Some("password"));
    assert_eq!(with(Format::Known(StringFormat::Byte)).as_deref(), Some("byte"));
    assert_eq!(with(Format::Known(StringFormat::Binary)).as_deref(), Some("binary"));
    assert_eq!(with(Format::Other("uuid".to_string())).as_deref(), Some("uuid"));
    assert_eq!(with(Format::Absent), None);
    let int32 = schema_to_node(
        "i".to_string(),
        &schema(SchemaKind::Integer(IntegerType {
            format: Format::Known(IntegerFormat::Int32),
            ..integer_type()
        })),
        false,
    );
    assert_eq!(int32.info.format.as_deref(), Some("int32"));
    let number = |format: Format<NumberFormat>| {
        schema_to_node(
            "n".to_string(),
            &schema(SchemaKind::Number(NumberType { format, ..number_type() })),
            false,
        )
        .info
        .format
    };
    assert_eq!(number(Format::Known(NumberFormat::Float)).as_deref(), Some("float"));
    assert_eq!(number(Format::Known(NumberFormat::Double)).as_deref(), Some("double"));
}

#[test]
fn integer_bounds_inclusive_and_exclusive() {
    let inclusive = schema(SchemaKind::Integer(IntegerType {
        minimum: Some(0),
        maximum: Some(100),
        multiple_of: Some(5),
        enumeration: vec![Some(5), None, Some(-10)],
        ..integer_type()
    }));
    let node = schema_to_node("n".to_string(), &inclusive, false);
    assert_eq!(node.info.constraints, texts(&["min: 0", "max: 100", "multipleOf: 5"]));
    assert_eq!(node.info.enum_values, texts(&["5", "-10"]));

    let exclusive = schema(SchemaKind::Integer(IntegerType {
        minimum: Some(-3),
        maximum: Some(7),
        exclusive_minimum: true,
        exclusive_maximum: true,
        ..integer_type()
    }));
    let node = schema_to_node("n".to_string(), &exclusive, false);
    assert_eq!(node.info.constraints, texts(&["min: >-3", "max: <7"]));

    // the flags say nothing where the bound is absent
    let flags_only = schema(SchemaKind::Integer(IntegerType {
        exclusive_minimum: true,
        exclusive_maximum: true,
        ..integer_type()
    }));
    assert!(schema_to_node("n".to_string(), &flags_only, false).info.constraints.is_empty());
}

#[test]
fn number_bounds_use_the_given_texts() {
    let n = schema(SchemaKind::Number(NumberType {
        minimum: Some("0.5".to_string()),
        maximum: Some("99.9".to_string()),
        exclusive_maximum: true,
        multiple_of: Some("0.1".to_string()),
        enumeration: vec![None, Some("1.5".to_string())],
        ..number_type()
    }));
    let node = schema_to_node("ratio".to_string(), &n, false);
    assert!(matches!(node.info.kind, NodeKind::Number));
    assert_eq!(node.info.constraints, texts(&["min: 0.5", "max: <99.9", "multipleOf: 0.1"]));
    assert_eq!(node.info.enum_values, texts(&["1.5"]));
}

#[test]
fn object_size_constraints() {
    let o = schema(SchemaKind::Object(ObjectType {
        min_properties: Some(2),
        max_properties: Some(12),
        ..object_type(vec![], vec![])
    }));
    let node = schema_to_node("o".to_string(), &o, false);
    assert_eq!(node.info.constraints, texts(&["minProperties: 2", "maxProperties: 12"]));
    assert!(node.children.is_empty());
}

#[test]
fn boolean_and_unknown_are_leaves() {
    let b = schema_to_node("flag".to_string(), &schema(SchemaKind::Boolean), true);
    assert!(matches!(b.info.kind, NodeKind::Boolean));
    assert!(b.children.is_empty());
    assert!(b.info.required);
    for kind in [SchemaKind::Not, SchemaKind::Any] {
        let u = schema_to_node("what".to_string(), &schema(kind), true);
        assert!(matches!(u.info.kind, NodeKind::Unknown));
        assert!(u.children.is_empty());
        assert!(u.info.constraints.is_empty());
        assert!(u.info.enum_values.is_empty());
        assert_eq!(u.info.format, None);
        assert!(u.info.required);
    }
}

#[test]
fn compositions_name_their_branches_by_position() {
    let branches = || {
        vec![
            reference("#/components/schemas/Cat"),
            item(SchemaKind::Str(string_type())),
            item(SchemaKind::Object(object_type(
                vec![("x", item(SchemaKind::Boolean))],
                vec!["x"],
            ))),
        ]
    };
    let all = schema_to_node(
        "all".to_string(),
        &schema(SchemaKind::AllOf { all_of: branches() }),
        false,
    );
    assert!(matches!(all.info.kind, NodeKind::AllOf));
    let names: Vec<&str> = all.children.iter().map(|c| c.name.as_str()).collect();
    assert_eq!(names, vec!["[0]", "[1]", "[2]"]);
    assert!(all.children.iter().all(|c| !c.info.required));
    assert!(matches!(&all.children[0].info.kind, NodeKind::Ref(t) if t == "Cat"));
    assert!(matches!(all.children[2].info.kind, NodeKind::Object));
    assert!(all.children[2].children[0].info.required);
    assert!(all.info.constraints.is_empty());

    let one = schema_to_node(
        "one".to_string(),
        &schema(SchemaKind::OneOf { one_of: branches() }),
        false,
    );
    assert!(matches!(one.info.kind, NodeKind::OneOf));
    assert_eq!(one.children.len(), 3);
    let any = schema_to_node(
        "any".to_string(),
        &schema(SchemaKind::AnyOf { any_of: Vec::new() }),
        false,
    );
    assert!(matches!(any.info.kind, NodeKind::AnyOf));
    assert!(any.children.is_empty());
}

#[test]
fn branch_names_count_past_nine() {
    let many: Vec<SchemaRef> = (0..12).map(|_| item(SchemaKind::Boolean)).collect();
    let node = schema_to_node(
        "many".to_string(),
        &schema(SchemaKind::OneOf { one_of: many }),
        false,
    );
    assert_eq!(node.children[9].name, "[9]");
    assert_eq!(node.children[10].name, "[10]");
    assert_eq!(node.children[11].name, "[11]");
}

#[test]
fn reference_node_is_a_leaf_named_by_its_last_piece() {
    let node = ref_node("owner".to_string(), "#/components/schemas/User", true);
    assert_eq!(node.name, "owner");
    assert!(matches!(&node.info.kind, NodeKind::Ref(t) if t == "User"));
    assert!(node.info.required);
    assert!(node.children.is_empty());
    assert!(!node.expanded);
    assert_eq!(node.info.format, None);
    assert_eq!(node.info.description, None);
    assert!(node.info.constraints.is_empty());
    let bare = schema_ref_to_node("x".to_string(), &reference("Thing"), false);
    assert!(matches!(&bare.info.kind, NodeKind::Ref(t) if t == "Thing"));
    assert!(bare.children.is_empty());
}

#[test]
fn description_example_and_default_are_copied() {
    let object: Value = serde_json::from_str("{\"a\": [1, 2], \"b\": null}").unwrap();
    let s = Schema {
        data: SchemaData {
            description: Some("A pet's tag".to_string()),
            example: Some(object),
            default: Some(Value::String("none".to_string())),
        },
        kind: SchemaKind::Str(string_type()),
    };
    let node = schema_to_node("tag".to_string(), &s, false);
    assert_eq!(node.info.description.as_deref(), Some("A pet's tag"));
    assert_eq!(node.info.example.as_deref(), Some("{\"a\":[1,2],\"b\":null}"));
    assert_eq!(node.info.default_val.as_deref(), Some("\"none\""));

    let n = Schema {
        data: SchemaData {
            description: None,
            example: Some(Value::from(42)),
            default: Some(Value::Bool(true)),
        },
        kind: SchemaKind::Any,
    };
    let node = schema_to_node("n".to_string(), &n, false);
    assert_eq!(node.info.example.as_deref(), Some("42"));
    assert_eq!(node.info.default_val.as_deref(), Some("true"));
    assert_eq!(node.info.description, None);
}

#[test]
fn nested_objects_keep_their_own_required_lists() {
    let inner = item(SchemaKind::Object(object_type(
        vec![
            ("street", item(SchemaKind::Str(string_type()))),
            ("zip", item(SchemaKind::Str(string_type()))),
        ],
        vec!["zip"],
    )));
    let outer = schema(SchemaKind::Object(object_type(
        vec![("address", inner), ("zip", item(SchemaKind::Boolean))],
        vec!["address"],
    )));
    let node = schema_to_node("Person".to_string(), &outer, false);
    let address = &node.children[0];
    assert!(address.info.required);
    assert!(!node.children[1].info.required);
    assert!(!address.children[0].info.required);
    assert!(address.children[1].info.required);
}

#[test]
fn json_values_are_shown_as_compact_json() {
    let value: Value = serde_json::from_str("{ \"name\" : \"Rex\", \"tags\" : [ ] }").unwrap();
    assert_eq!(json_display(&value), "{\"name\":\"Rex\",\"tags\":[]}");
    assert_eq!(json_display(&Value::Null), "null");
    assert_eq!(json_display(&Value::String("a\"b".to_string())), "\"a\\\"b\"");
    assert_eq!(json_display_of(&None), None);
    assert_eq!(json_display_of(&Some(Value::from(-7))).as_deref(), Some("-7"));
}

#[test]
fn a_value_that_cannot_be_written_shows_as_nothing() {
    let failure = serde_json::from_str::<Value>("{").unwrap_err();
    assert_eq!(text_or_empty(Err(failure)), "");
    assert_eq!(text_or_empty(Ok("[1]".to_string())), "[1]");
}

#[test]
fn text_member_reads_only_strings_of_objects() {
    let value: Value =
        serde_json::from_str("{\"a\": \"x\", \"b\": 1, \"c\": {\"a\": \"y\"}}").unwrap();
    assert_eq!(text_member(&value, "a"), Some("x"));
    assert_eq!(text_member(&value, "b"), None);
    assert_eq!(text_member(&value, "c"), None);
    assert_eq!(text_member(&value, "missing"), None);
    assert_eq!(text_member(&Value::String("a".to_string()), "a"), None);
    assert_eq!(text_member(&value["c"], "a"), Some("y"));
}
