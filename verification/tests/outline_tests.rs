use openapi_kit::document::{
    ArrayType, Components, NumberFormat, NumberType, ObjectType, OpenAPI as Document, Operation,
    PathItem, Paths, ReferenceOr, Responses, Schema, SchemaData, SchemaKind, StringType, Type,
    VariantOrUnknownOrEmpty,
};
use openapi_kit::outline::{MaybeFrom, OpenAPI, OpenAPIOperation, OpenAPIPath};
use openapi_kit::schema::OpenAPIModel;

fn schema(kind: SchemaKind) -> Schema {
    Schema { schema_data: SchemaData { description: Some("A pet".to_string()) }, schema_kind: kind }
}

fn boxed(kind: SchemaKind) -> ReferenceOr<Box<Schema>> {
    ReferenceOr::Item(Box::new(schema(kind)))
}

fn reference<T>(r: &str) -> ReferenceOr<T> {
    ReferenceOr::Reference { reference: r.to_string() }
}

fn operation(id: Option<&str>) -> Operation {
    Operation {
        operation_id: id.map(|s| s.to_string()),
        parameters: vec![],
        request_body: None,
        responses: Responses { responses: vec![] },
    }
}

fn pet_schema() -> Schema {
    let props: Vec<(String, ReferenceOr<Box<Schema>>)> = vec![
        ("id".to_string(), boxed(SchemaKind::Type(Type::String(StringType { format: VariantOrUnknownOrEmpty::Unknown("uuid".to_string()) })))),
        ("name".to_string(), boxed(SchemaKind::Type(Type::String(StringType { format: VariantOrUnknownOrEmpty::Empty })))),
        ("weight".to_string(), boxed(SchemaKind::Type(Type::Number(NumberType { format: VariantOrUnknownOrEmpty::Item(NumberFormat::Double) })))),
        ("legs".to_string(), boxed(SchemaKind::Type(Type::Number(NumberType { format: VariantOrUnknownOrEmpty::Empty })))),
        ("age".to_string(), boxed(SchemaKind::Type(Type::Integer))),
        ("owner".to_string(), reference("#/components/schemas/Owner")),
        ("tags".to_string(), boxed(SchemaKind::Type(Type::Array(ArrayType { items: Some(reference("#/components/schemas/Tag")) })))),
        ("scores".to_string(), boxed(SchemaKind::Type(Type::Array(ArrayType { items: Some(boxed(SchemaKind::Type(Type::Integer))) })))),
        ("alive".to_string(), boxed(SchemaKind::Type(Type::Boolean))),
        ("extra".to_string(), boxed(SchemaKind::Type(Type::Object(ObjectType { properties: vec![], required: vec![] })))),
        ("either".to_string(), boxed(SchemaKind::AnyOf)),
    ];
    schema(SchemaKind::Type(Type::Object(ObjectType {
        properties: props,
        required: vec!["id".to_string(), "name".to_string(), "tags".to_string()],
    })))
}

#[test]
fn model_wraps_optional_properties() {
    let model = OpenAPIModel::maybe_from(pet_schema()).expect("an object schema has a model");
    assert_eq!(model.description.as_deref(), Some("A pet"));
    let got: Vec<(&str, &str)> = model.properties.iter().map(|(k, v)| (k.as_str(), v.as_str())).collect();
    assert_eq!(
        got,
        vec![
            ("id", "uuid::Uuid"),
            ("name", "String"),
            ("weight", "Option<f64>"),
            ("legs", "Option<i64>"),
            ("age", "Option<i64>"),
            ("owner", "Option<Owner>"),
            ("tags", "Vec<Tag>"),
            ("scores", "Option<Vec<>>"),
            ("alive", "Option<bool>"),
            ("extra", "Option<Value>"),
        ]
    );
}

#[test]
fn non_object_schema_has_no_model() {
    assert!(OpenAPIModel::maybe_from(schema(SchemaKind::Type(Type::Boolean))).is_none());
    assert!(OpenAPIModel::maybe_from(schema(SchemaKind::AllOf)).is_none());
}

#[test]
fn operation_needs_an_id() {
    assert_eq!(OpenAPIOperation::maybe_from(operation(Some("listPets"))).unwrap().operation_id, "listPets");
    assert!(OpenAPIOperation::maybe_from(operation(None)).is_none());
}

#[test]
fn path_lists_present_operations_in_method_order() {
    let item = PathItem {
        get: Some(operation(Some("getPet"))),
        put: None,
        post: Some(operation(Some("addPet"))),
        delete: Some(operation(Some("deletePet"))),
        patch: Some(operation(None)),
    };
    let path = OpenAPIPath::from(item);
    assert!(path.patch.is_none());
    let got: Vec<(&str, String)> = path.into_iter().into_iter().map(|(m, op)| (m, op.operation_id)).collect();
    assert_eq!(
        got,
        vec![("post", "addPet".to_string()), ("get", "getPet".to_string()), ("delete", "deletePet".to_string())]
    );
}

#[test]
fn outline_of_document() {
    let doc = Document {
        paths: Paths {
            paths: vec![
                ("/pets".to_string(), ReferenceOr::Item(PathItem { get: Some(operation(Some("listPets"))), put: None, post: None, delete: None, patch: None })),
                ("/other".to_string(), reference("#/paths/other")),
            ],
        },
        components: Some(Components {
            schemas: vec![
                ("Pet".to_string(), ReferenceOr::Item(pet_schema())),
                ("Id".to_string(), ReferenceOr::Item(schema(SchemaKind::Type(Type::Integer)))),
                ("Alias".to_string(), reference("#/components/schemas/Pet")),
            ],
        }),
    };
    let outline = OpenAPI::from(doc);
    let paths: Vec<&str> = outline.paths.keys().map(|k| k.as_str()).collect();
    assert_eq!(paths, vec!["/pets"]);
    assert_eq!(outline.paths["/pets"].get.as_ref().unwrap().operation_id, "listPets");
    let models: Vec<&str> = outline.models.keys().map(|k| k.as_str()).collect();
    assert_eq!(models, vec!["Pet"]);
    assert_eq!(outline.models["Pet"].properties["owner"], "Option<Owner>");
}
