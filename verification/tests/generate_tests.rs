use openapi_kit::document::{parse_document, LoadError, ReferenceOr, SchemaKind, Type};
use openapi_kit::generate::{
    parse, reference_from_literal, schema_file_or_default, FileTemplateError, LiteralReferenceError,
};
use openapi_kit::outline;
use openapi_kit::schema::{self, check_properties, is_resolvable};
use openapi_kit::workspace::{ReferenceError, WorkspaceError};

const PETSTORE: &str = r##"
openapi: "3.0.0"
info:
  title: Petstore
  version: "1.0.0"
paths:
  /pets:
    get:
      operationId: listPets
      parameters:
        - name: limit
          in: query
          schema:
            type: integer
      responses:
        "200":
          description: A list of pets
          content:
            application/json:
              schema:
                type: array
                items:
                  $ref: "#/components/schemas/Pet"
components:
  schemas:
    Pet:
      type: object
      description: A pet
      required: [id]
      properties:
        id:
          type: string
          format: uuid
        tag:
          type: string
"##;

#[test]
fn reads_a_document() {
    let doc = parse_document(PETSTORE).expect("the document reads");
    assert_eq!(doc.paths.paths.len(), 1);
    assert_eq!(doc.paths.paths[0].0, "/pets");
    let schemas = &doc.components.as_ref().unwrap().schemas;
    assert_eq!(schemas[0].0, "Pet");
    match &schemas[0].1 {
        ReferenceOr::Item(s) => {
            assert_eq!(s.schema_data.description.as_deref(), Some("A pet"));
            match &s.schema_kind {
                SchemaKind::Type(Type::Object(o)) => {
                    assert_eq!(o.required, vec!["id".to_string()]);
                    let names: Vec<&str> = o.properties.iter().map(|(k, _)| k.as_str()).collect();
                    assert_eq!(names, vec!["id", "tag"]);
                    assert!(check_properties(&o.properties));
                }
                _ => panic!("Pet is an object"),
            }
        }
        _ => panic!("Pet is given in place"),
    }
}

#[test]
fn read_document_converts() {
    let doc = parse_document(PETSTORE).unwrap();
    assert!(is_resolvable(&doc));
    let api = schema::OpenAPI::from(doc);
    let op = api.paths["/pets"].get.as_ref().unwrap();
    assert_eq!(op.operation_id.as_deref(), Some("listPets"));
    assert_eq!(op.parameters[0].kind, "i64");
    assert_eq!(op.response["200"].kind, "Vec< Pet >");
    assert_eq!(api.models["Pet"].properties["id"], "uuid::Uuid");
    let outline = outline::OpenAPI::from(parse_document(PETSTORE).unwrap());
    assert_eq!(outline.models["Pet"].properties["tag"], "Option<String>");
}

#[test]
fn text_that_is_no_document_is_refused() {
    assert!(matches!(parse_document("just: [unclosed"), Err(LoadError::Serde(_))));
    assert!(matches!(parse_document("a: 1"), Err(LoadError::Serde(_))));
}

#[test]
fn references_from_literals() {
    let r = reference_from_literal("\"api:models\"").ok().unwrap();
    assert_eq!((r.project.as_str(), r.template.as_str()), ("api", "models"));
    assert_eq!(reference_from_literal("api:models").err(), Some(LiteralReferenceError::NotAStringLiteral));
    assert_eq!(
        reference_from_literal("\"api\"").err(),
        Some(LiteralReferenceError::Reference(ReferenceError::MissingSeparator))
    );
    assert_eq!(
        reference_from_literal("\"api:\"").err(),
        Some(LiteralReferenceError::Reference(ReferenceError::EmptyTemplate))
    );
}

#[test]
fn file_templates_render_with_the_schema() {
    assert_eq!(parse("{{info.title}} v{{info.version}}", PETSTORE).unwrap(), "Petstore v1.0.0");
    assert_eq!(parse("{{info.title}}", "a: 1").err(), Some(FileTemplateError::InvalidSchema));
    assert_eq!(parse("{{#if}}", PETSTORE).err(), Some(FileTemplateError::RenderFailed));
}

#[test]
fn schema_file_defaults() {
    assert_eq!(schema_file_or_default(None), "openapi.yaml");
    assert_eq!(schema_file_or_default(Some("api.yaml".to_string())), "api.yaml");
}

#[test]
fn workspace_error_messages() {
    assert_eq!(WorkspaceError::NoWorkspaceFound.message(), "No workspace found");
    let e = WorkspaceError::IO(std::io::Error::new(std::io::ErrorKind::NotFound, "gone"));
    assert_eq!(e.message(), "gone");
}
