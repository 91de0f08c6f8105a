use openapi_kit::document::{
    ArrayType, Components, MediaType, NumberFormat, NumberType, ObjectType, OpenAPI as Document,
    Operation, Parameter, ParameterData, ParameterSchemaOrContent, PathItem, Paths, ReferenceOr,
    RequestBody, Response, Responses, Schema, SchemaData, SchemaKind, StatusCode, StringFormat,
    StringType, Type, VariantOrUnknownOrEmpty,
};
use openapi_kit::schema::{
    code_string, is_resolvable, reference_or, resolve_boxed_schema, resolve_schema, OpenAPI,
    OpenAPIModel, OpenAPIOperation, OpenAPIPath,
};

fn schema(kind: SchemaKind) -> Schema {
    Schema { schema_data: SchemaData { description: None }, schema_kind: kind }
}

fn string_schema(format: VariantOrUnknownOrEmpty<StringFormat>) -> Schema {
    schema(SchemaKind::Type(Type::String(StringType { format })))
}

fn reference<T>(r: &str) -> ReferenceOr<T> {
    ReferenceOr::Reference { reference: r.to_string() }
}

fn object(properties: Vec<(&str, ReferenceOr<Box<Schema>>)>, required: Vec<&str>) -> Schema {
    schema(SchemaKind::Type(Type::Object(ObjectType {
        properties: properties.into_iter().map(|(k, v)| (k.to_string(), v)).collect(),
        required: required.into_iter().map(|s| s.to_string()).collect(),
    })))
}

fn boxed(s: Schema) -> ReferenceOr<Box<Schema>> {
    ReferenceOr::Item(Box::new(s))
}

fn media(schema: Option<ReferenceOr<Schema>>) -> MediaType {
    MediaType { schema }
}

fn parameter(kind: &str, name: &str, format: ParameterSchemaOrContent) -> ReferenceOr<Parameter> {
    let parameter_data = ParameterData { name: name.to_string(), format };
    ReferenceOr::Item(match kind {
        "query" => Parameter::Query { parameter_data },
        "header" => Parameter::Header { parameter_data },
        "path" => Parameter::Path { parameter_data },
        _ => Parameter::Cookie { parameter_data },
    })
}

fn operation(id: Option<&str>) -> Operation {
    Operation {
        operation_id: id.map(|s| s.to_string()),
        parameters: vec![],
        request_body: None,
        responses: Responses { responses: vec![] },
    }
}

fn empty_path() -> PathItem {
    PathItem { get: None, put: None, post: None, delete: None, patch: None }
}

#[test]
fn resolves_reference_to_its_name() {
    assert_eq!(resolve_schema(reference("#/components/schemas/Pet")), "Pet");
}

#[test]
fn resolves_uuid_strings() {
    let s = string_schema(VariantOrUnknownOrEmpty::Unknown("uuid".to_string()));
    assert_eq!(resolve_schema(ReferenceOr::Item(s)), "uuid::Uuid");
}

#[test]
fn resolves_other_strings() {
    let s = string_schema(VariantOrUnknownOrEmpty::Unknown("email".to_string()));
    assert_eq!(resolve_schema(ReferenceOr::Item(s)), "String");
    let s = string_schema(VariantOrUnknownOrEmpty::Item(StringFormat::DateTime));
    assert_eq!(resolve_schema(ReferenceOr::Item(s)), "String");
    let s = string_schema(VariantOrUnknownOrEmpty::Empty);
    assert_eq!(resolve_schema(ReferenceOr::Item(s)), "String");
}

#[test]
fn resolves_plain_types() {
    assert_eq!(resolve_schema(ReferenceOr::Item(schema(SchemaKind::Type(Type::Boolean)))), "bool");
    assert_eq!(resolve_schema(ReferenceOr::Item(schema(SchemaKind::Type(Type::Integer)))), "i64");
    let n = NumberType { format: VariantOrUnknownOrEmpty::Item(NumberFormat::Float) };
    assert_eq!(resolve_schema(ReferenceOr::Item(schema(SchemaKind::Type(Type::Number(n))))), "f64");
}

#[test]
fn resolves_arrays_by_their_items() {
    let items = reference("#/components/schemas/Pet");
    let array = schema(SchemaKind::Type(Type::Array(ArrayType { items: Some(items) })));
    assert_eq!(resolve_boxed_schema(boxed(array)), "Vec< Pet >");
    let inner = schema(SchemaKind::Type(Type::Array(ArrayType {
        items: Some(boxed(schema(SchemaKind::Type(Type::Boolean)))),
    })));
    let outer = schema(SchemaKind::Type(Type::Array(ArrayType { items: Some(boxed(inner)) })));
    assert_eq!(resolve_boxed_schema(boxed(outer)), "Vec< Vec< bool > >");
}

#[test]
fn reference_or_calls_back_on_items() {
    let r: ReferenceOr<u8> = ReferenceOr::Item(7);
    assert_eq!(reference_or(r, |n| format!("n{n}")), "n7");
    let r: ReferenceOr<u8> = reference("a/b/Thing");
    assert_eq!(reference_or(r, |n| format!("n{n}")), "Thing");
}

#[test]
fn status_codes_as_text() {
    assert_eq!(code_string(StatusCode::Code(200)), "200");
    assert_eq!(code_string(StatusCode::Range(4)), "4XX");
}

#[test]
fn operation_keeps_schema_parameters_in_order() {
    let mut op = operation(Some("listPets"));
    op.parameters = vec![
        parameter("query", "limit", ParameterSchemaOrContent::Schema(ReferenceOr::Item(schema(SchemaKind::Type(Type::Integer))))),
        reference("#/components/parameters/Skip"),
        parameter("header", "token", ParameterSchemaOrContent::Content(vec![])),
        parameter("path", "id", ParameterSchemaOrContent::Schema(reference("#/components/schemas/Id"))),
        parameter("cookie", "session", ParameterSchemaOrContent::Schema(ReferenceOr::Item(string_schema(VariantOrUnknownOrEmpty::Empty)))),
    ];
    let converted = OpenAPIOperation::from(op);
    assert_eq!(converted.operation_id.as_deref(), Some("listPets"));
    let got: Vec<(&str, &str, &str)> = converted
        .parameters
        .iter()
        .map(|p| (p.location.as_str(), p.name.as_str(), p.kind.as_str()))
        .collect();
    assert_eq!(got, vec![("query", "limit", "i64"), ("path", "id", "Id"), ("cookie", "session", "String")]);
}

#[test]
fn request_takes_first_media_type_with_schema() {
    let mut op = operation(None);
    op.request_body = Some(ReferenceOr::Item(RequestBody {
        content: vec![
            ("text/plain".to_string(), media(None)),
            ("application/json".to_string(), media(Some(reference("#/components/schemas/Pet")))),
            ("application/xml".to_string(), media(Some(reference("#/components/schemas/PetXml")))),
        ],
    }));
    let converted = OpenAPIOperation::from(op);
    let request = converted.request.expect("a request body");
    assert_eq!(request.kind, "Pet");
    assert_eq!(request.media, "application/json");
}

#[test]
fn request_by_reference_is_left_out() {
    let mut op = operation(None);
    op.request_body = Some(reference("#/components/requestBodies/Pet"));
    assert!(OpenAPIOperation::from(op).request.is_none());
}

#[test]
fn responses_by_code_take_their_last_media_type() {
    let mut op = operation(Some("getPet"));
    op.responses = Responses {
        responses: vec![
            (
                StatusCode::Code(200),
                ReferenceOr::Item(Response {
                    content: vec![
                        ("application/json".to_string(), media(Some(reference("#/s/Pet")))),
                        ("application/xml".to_string(), media(Some(reference("#/s/PetXml")))),
                        ("text/plain".to_string(), media(None)),
                    ],
                }),
            ),
            (StatusCode::Code(404), reference("#/components/responses/NotFound")),
            (
                StatusCode::Range(5),
                ReferenceOr::Item(Response {
                    content: vec![("application/json".to_string(), media(Some(reference("#/s/Error"))))],
                }),
            ),
        ],
    };
    let converted = OpenAPIOperation::from(op);
    let got: Vec<(&str, &str, &str)> = converted
        .response
        .iter()
        .map(|(k, v)| (k.as_str(), v.kind.as_str(), v.media.as_str()))
        .collect();
    assert_eq!(got, vec![("200", "PetXml", "application/xml"), ("5XX", "Error", "application/json")]);
}

#[test]
fn path_converts_each_method() {
    let mut item = empty_path();
    item.get = Some(operation(Some("getPet")));
    item.delete = Some(operation(None));
    let path = OpenAPIPath::from(item);
    assert_eq!(path.get.unwrap().operation_id.as_deref(), Some("getPet"));
    assert!(path.delete.unwrap().operation_id.is_none());
    assert!(path.post.is_none() && path.put.is_none() && path.patch.is_none());
}

#[test]
fn model_of_object_schema() {
    let s = object(
        vec![
            ("id", boxed(string_schema(VariantOrUnknownOrEmpty::Unknown("uuid".to_string())))),
            ("owner", reference("#/components/schemas/Owner")),
        ],
        vec!["id"],
    );
    let model = OpenAPIModel::from(s);
    let got: Vec<(&str, &str)> = model.properties.iter().map(|(k, v)| (k.as_str(), v.as_str())).collect();
    assert_eq!(got, vec![("id", "uuid::Uuid"), ("owner", "Owner")]);
}

fn petstore() -> Document {
    let mut pets = empty_path();
    pets.get = Some(operation(Some("listPets")));
    let mut first = empty_path();
    first.post = Some(operation(Some("first")));
    let mut again = empty_path();
    again.put = Some(operation(Some("again")));
    Document {
        paths: Paths {
            paths: vec![
                ("/a".to_string(), ReferenceOr::Item(first)),
                ("/pets".to_string(), ReferenceOr::Item(pets)),
                ("/shared".to_string(), reference("#/paths/shared")),
                ("/a".to_string(), ReferenceOr::Item(again)),
            ],
        },
        components: Some(Components {
            schemas: vec![
                ("Pet".to_string(), ReferenceOr::Item(object(vec![("name", boxed(string_schema(VariantOrUnknownOrEmpty::Empty)))], vec![]))),
                ("Name".to_string(), ReferenceOr::Item(string_schema(VariantOrUnknownOrEmpty::Empty))),
                ("Alias".to_string(), reference("#/components/schemas/Pet")),
            ],
        }),
    }
}

#[test]
fn document_keeps_paths_and_object_models() {
    let doc = petstore();
    assert!(is_resolvable(&doc));
    let api = OpenAPI::from(doc);
    let keys: Vec<&str> = api.paths.keys().map(|k| k.as_str()).collect();
    assert_eq!(keys, vec!["/a", "/pets"]);
    let a = &api.paths["/a"];
    assert!(a.post.is_none());
    assert_eq!(a.put.as_ref().unwrap().operation_id.as_deref(), Some("again"));
    let models: Vec<&str> = api.models.keys().map(|k| k.as_str()).collect();
    assert_eq!(models, vec!["Pet"]);
    assert_eq!(api.models["Pet"].properties["name"], "String");
}

#[test]
fn document_without_components_has_no_models() {
    let doc = Document { paths: Paths { paths: vec![] }, components: None };
    let api = OpenAPI::from(doc);
    assert!(api.paths.is_empty() && api.models.is_empty());
}

#[test]
fn objects_inside_models_cannot_be_named() {
    let nested = object(vec![("inner", boxed(object(vec![], vec![])))], vec![]);
    let doc = Document {
        paths: Paths { paths: vec![] },
        components: Some(Components { schemas: vec![("Outer".to_string(), ReferenceOr::Item(nested))] }),
    };
    assert!(!is_resolvable(&doc));
}

#[test]
fn arrays_without_items_cannot_be_named() {
    let mut op = operation(None);
    op.parameters = vec![parameter(
        "query",
        "ids",
        ParameterSchemaOrContent::Schema(ReferenceOr::Item(schema(SchemaKind::Type(Type::Array(ArrayType { items: None }))))),
    )];
    let mut item = empty_path();
    item.get = Some(op);
    let doc = Document { paths: Paths { paths: vec![("/x".to_string(), ReferenceOr::Item(item))] }, components: None };
    assert!(!is_resolvable(&doc));
}

#[test]
fn combined_schemas_cannot_be_named() {
    let mut op = operation(None);
    op.responses = Responses {
        responses: vec![(
            StatusCode::Code(200),
            ReferenceOr::Item(Response { content: vec![("a/b".to_string(), media(Some(ReferenceOr::Item(schema(SchemaKind::OneOf)))))] }),
        )],
    };
    let mut item = empty_path();
    item.post = Some(op);
    let doc = Document { paths: Paths { paths: vec![("/x".to_string(), ReferenceOr::Item(item))] }, components: None };
    assert!(!is_resolvable(&doc));
}

#[test]
fn parameters_in_place_are_all_kept() {
    let mut op = operation(None);
    op.parameters = vec![
        parameter("path", "id", ParameterSchemaOrContent::Schema(reference("#/s/Id"))),
        parameter("query", "page", ParameterSchemaOrContent::Schema(ReferenceOr::Item(schema(SchemaKind::Type(Type::Integer))))),
    ];
    let converted = OpenAPIOperation::from(op);
    let names: Vec<(&str, &str)> = converted.parameters.iter().map(|p| (p.location.as_str(), p.name.as_str())).collect();
    assert_eq!(names, vec![("path", "id"), ("query", "page")]);
}
