use indexmap::map::MutableKeys;
use indexmap::IndexMap;
use speq::document::{
    build_tree, check_version, detect_version, load_document, probe_version, resolve_version,
    schema_names, Document, LoadError, LoadedSpec, SpecVersion,
};
use speq::schema::{
    ArrayType, Format, IntegerFormat, IntegerType, ObjectType, Schema, SchemaData, SchemaKind,
    SchemaRef, StringType,
};
use speq::tree::NodeKind;

fn item(kind: SchemaKind) -> SchemaRef {
    SchemaRef::Item(Box::new(Schema {
        data: SchemaData { description: None, example: None, default: None },
        kind,
    }))
}

fn string() -> SchemaRef {
    item(SchemaKind::Str(StringType {
        format: Format::Absent,
        pattern: None,
        enumeration: Vec::new(),
        min_length: None,
        max_length: None,
    }))
}

fn integer(format: IntegerFormat) -> SchemaRef {
    item(SchemaKind::Integer(IntegerType {
        format: Format::Known(format),
        multiple_of: None,
        exclusive_minimum: false,
        exclusive_maximum: false,
        minimum: None,
        maximum: None,
        enumeration: Vec::new(),
    }))
}

fn object(properties: Vec<(&str, SchemaRef)>, required: Vec<&str>) -> SchemaRef {
    item(SchemaKind::Object(ObjectType {
        properties: properties.into_iter().map(|(k, v)| (k.to_string(), v)).collect(),
        required: required.into_iter().map(|s| s.to_string()).collect(),
        min_properties: None,
        max_properties: None,
    }))
}

fn named(schemas: Vec<(&str, SchemaRef)>) -> IndexMap<String, SchemaRef> {
    schemas.into_iter().map(|(name, schema)| (name.to_string(), schema)).collect()
}

/// The pet store, as a decoder hands it over: its schemas in source order.
fn petstore() -> Document {
    let pets = item(SchemaKind::Array(ArrayType {
        items: Some(SchemaRef::Reference {
            reference: "#/components/schemas/Pet".to_string(),
        }),
        min_items: None,
        max_items: None,
        unique_items: false,
    }));
    let error = object(
        vec![("code", integer(IntegerFormat::Int32)), ("message", string())],
        vec!["code", "message"],
    );
    let pet = object(
        vec![("id", integer(IntegerFormat::Int64)), ("name", string()), ("tag", string())],
        vec!["id", "name"],
    );
    let new_pet = object(vec![("name", string()), ("tag", string())], vec!["name"]);
    Document {
        title: "Petstore".to_string(),
        openapi: "3.0.0".to_string(),
        schemas: named(vec![("Pets", pets), ("Error", error), ("Pet", pet), ("NewPet", new_pet)]),
    }
}

fn parse() -> Result<LoadedSpec, LoadError> {
    Ok(load_document(&petstore()))
}

#[test]
fn parses_petstore_schema_names() {
    let spec = parse().expect("should parse petstore fixture");
    assert_eq!(spec.title, "Petstore");
    // Should find Error, NewPet, Pet, Pets (sorted alphabetically)
    assert_eq!(spec.schema_names, vec!["Error", "NewPet", "Pet", "Pets"]);
}

#[test]
fn detects_openapi_30() {
    let spec = parse().expect("should parse petstore fixture");
    assert_eq!(spec.version, SpecVersion::V30);
}

#[test]
fn builds_pet_tree() {
    let spec = parse().expect("should parse petstore fixture");
    // Find Pet node
    let pet = spec
        .schema_nodes
        .iter()
        .find(|n| n.name == "Pet")
        .expect("Pet schema should exist");
    assert!(matches!(pet.info.kind, NodeKind::Object));
    assert_eq!(pet.children.len(), 3); // id, name, tag
    // id should be required integer/int64
    let id = pet.children.iter().find(|n| n.name == "id").unwrap();
    assert!(matches!(id.info.kind, NodeKind::Integer));
    assert!(id.info.required);
    assert_eq!(id.info.format.as_deref(), Some("int64"));
}

#[test]
fn builds_pets_array_with_ref() {
    let spec = parse().expect("should parse petstore fixture");
    let pets = spec
        .schema_nodes
        .iter()
        .find(|n| n.name == "Pets")
        .expect("Pets schema should exist");
    assert!(matches!(pets.info.kind, NodeKind::Array));
    assert_eq!(pets.children.len(), 1);
    let items = &pets.children[0];
    assert!(matches!(&items.info.kind, NodeKind::Ref(t) if t == "Pet"));
}

#[test]
fn roots_come_in_alphabetical_order() {
    let doc = petstore();
    let roots = build_tree(&doc.schemas);
    let names: Vec<&str> = roots.iter().map(|n| n.name.as_str()).collect();
    assert_eq!(names, vec!["Error", "NewPet", "Pet", "Pets"]);
    assert!(roots.iter().all(|n| !n.info.required && !n.expanded));
    assert!(matches!(roots[3].info.kind, NodeKind::Array));
    assert_eq!(roots[0].children.len(), 2);
    assert_eq!(schema_names(&doc.schemas), vec!["Error", "NewPet", "Pet", "Pets"]);
}

#[test]
fn a_document_without_schemas_loads_empty() {
    let doc = Document {
        title: "Empty".to_string(),
        openapi: "3.1.0".to_string(),
        schemas: IndexMap::new(),
    };
    let spec = load_document(&doc);
    assert_eq!(spec.title, "Empty");
    assert_eq!(spec.openapi_version, "3.1.0");
    assert_eq!(spec.version, SpecVersion::V31);
    assert!(spec.schema_names.is_empty());
    assert!(spec.schema_nodes.is_empty());
}

#[test]
fn upper_case_sorts_before_lower_case() {
    let schemas = named(vec![("apple", string()), ("Zoo", string()), ("Apple", string())]);
    assert_eq!(schema_names(&schemas), vec!["Apple", "Zoo", "apple"]);
    let roots = build_tree(&schemas);
    let names: Vec<&str> = roots.iter().map(|n| n.name.as_str()).collect();
    assert_eq!(names, vec!["Apple", "Zoo", "apple"]);
}

#[test]
fn version_labels() {
    assert_eq!(SpecVersion::V20.label(), "Swagger 2.0");
    assert_eq!(SpecVersion::V30.label(), "OpenAPI 3.0");
    assert_eq!(SpecVersion::V31.label(), "OpenAPI 3.1");
}

#[test]
fn version_is_read_from_the_declared_text() {
    assert_eq!(resolve_version("3.1.0"), SpecVersion::V31);
    assert_eq!(resolve_version("3.1"), SpecVersion::V31);
    assert_eq!(resolve_version("3.0.3"), SpecVersion::V30);
    assert_eq!(resolve_version("3.10.0"), SpecVersion::V31);
    assert_eq!(resolve_version("3"), SpecVersion::V30);
}

#[test]
fn version_fields_decide_what_is_loaded() {
    assert_eq!(detect_version(None, Some("3.0.0")), Ok(SpecVersion::V30));
    assert_eq!(detect_version(None, Some("3.1.0")), Ok(SpecVersion::V31));
    assert_eq!(detect_version(Some("2.0"), None), Err(LoadError::SwaggerUnsupported));
    // a Swagger 2 field wins over an OpenAPI field
    assert_eq!(
        detect_version(Some("2.0"), Some("3.0.0")),
        Err(LoadError::SwaggerUnsupported)
    );
    // another swagger value is passed over
    assert_eq!(detect_version(Some("1.2"), Some("3.0.0")), Ok(SpecVersion::V30));
    assert_eq!(detect_version(None, None), Err(LoadError::UnknownVersion));
    assert_eq!(detect_version(None, Some("4.0.0")), Err(LoadError::UnknownVersion));
    assert_eq!(detect_version(Some("3.0"), None), Err(LoadError::UnknownVersion));
}

#[test]
fn error_messages() {
    assert_eq!(
        LoadError::SwaggerUnsupported.message(),
        "Swagger 2.0 support is not yet implemented"
    );
    assert_eq!(
        LoadError::UnknownVersion.message(),
        "Cannot determine OpenAPI version from spec (expected 'openapi: 3.x' or 'swagger: 2.0')"
    );
    assert_eq!(
        LoadError::Malformed("line 1".to_string()).message(),
        "failed to parse spec as YAML/JSON"
    );
}

#[test]
fn probe_reads_the_version_from_yaml() {
    let text = "openapi: 3.0.0\ninfo:\n  title: Petstore\n  version: 1.0.0\npaths: {}\n";
    assert_eq!(probe_version(text), Ok(SpecVersion::V30));
    assert_eq!(probe_version("openapi: \"3.1.0\"\n"), Ok(SpecVersion::V31));
    assert_eq!(probe_version("swagger: \"2.0\"\n"), Err(LoadError::SwaggerUnsupported));
    assert_eq!(probe_version("title: nothing\n"), Err(LoadError::UnknownVersion));
    // a version that is a number and no text is not read
    assert_eq!(probe_version("openapi: 3.0\n"), Err(LoadError::UnknownVersion));
    // a list has no fields
    assert_eq!(probe_version("- openapi\n- 3.0.0\n"), Err(LoadError::UnknownVersion));
}

#[test]
fn probe_reads_the_version_from_json() {
    assert_eq!(
        probe_version("{\"openapi\": \"3.0.2\", \"paths\": {}}"),
        Ok(SpecVersion::V30)
    );
    assert_eq!(
        probe_version("{\"swagger\": \"2.0\", \"openapi\": \"3.0.2\"}"),
        Err(LoadError::SwaggerUnsupported)
    );
}

#[test]
fn probe_refuses_text_that_is_not_yaml() {
    match probe_version("openapi: [3.0.0\n") {
        Err(LoadError::Malformed(cause)) => assert!(!cause.is_empty()),
        other => panic!("expected a malformed document, got {:?}", other),
    }
}

#[test]
fn check_version_reads_a_decoded_value() {
    let value: serde_json::Value =
        serde_json::from_str("{\"openapi\": \"3.1.0\", \"swagger\": 2}").unwrap();
    assert_eq!(check_version(&value), Ok(SpecVersion::V31));
    assert_eq!(
        check_version(&serde_json::Value::Null),
        Err(LoadError::UnknownVersion)
    );
}

#[test]
fn a_name_put_in_twice_gives_one_root() {
    let mut schemas = named(vec![("B", string()), ("A", string())]);
    schemas.insert("B".to_string(), integer(IntegerFormat::Int32));
    let roots = build_tree(&schemas);
    assert_eq!(roots.len(), 2);
    assert_eq!(roots[0].name, "A");
    assert_eq!(roots[1].name, "B");
    assert!(matches!(roots[1].info.kind, NodeKind::Integer));
    assert_eq!(schema_names(&schemas), vec!["A", "B"]);
}

#[test]
fn entries_with_one_name_keep_their_order() {
    let mut schemas = named(vec![
        ("B", string()),
        ("A", string()),
        ("C", integer(IntegerFormat::Int64)),
    ]);
    // a key changed in place is not compared with the others
    if let Some((key, _)) = schemas.get_index_mut2(2) {
        *key = "A".to_string();
    }
    assert_eq!(schema_names(&schemas), vec!["A", "A", "B"]);
    let roots = build_tree(&schemas);
    let names: Vec<&str> = roots.iter().map(|n| n.name.as_str()).collect();
    assert_eq!(names, vec!["A", "A", "B"]);
    assert!(matches!(roots[0].info.kind, NodeKind::Str));
    assert!(matches!(roots[1].info.kind, NodeKind::Integer));
}
