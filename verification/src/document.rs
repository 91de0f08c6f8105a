//! The parts of an OpenAPI document that the conversions read: schemas, paths,
//! operations, parameters, request bodies and responses. Maps of the document
//! are held as their entries, in document order.
use indexmap::IndexMap;
use openapiv3::MediaType as OutsideMediaType;
use openapiv3::NumberFormat as OutsideNumberFormat;
use openapiv3::OpenAPI as OutsideOpenAPI;
use openapiv3::Operation as OutsideOperation;
use openapiv3::Parameter as OutsideParameter;
use openapiv3::ParameterData as OutsideParameterData;
use openapiv3::ParameterSchemaOrContent as OutsideParameterFormat;
use openapiv3::PathItem as OutsidePathItem;
use openapiv3::ReferenceOr as OutsideRef;
use openapiv3::Schema as OutsideSchema;
use openapiv3::SchemaKind as OutsideSchemaKind;
use openapiv3::StatusCode as OutsideStatusCode;
use openapiv3::StringFormat as OutsideStringFormat;
use openapiv3::Type as OutsideType;
use openapiv3::VariantOrUnknownOrEmpty as OutsideFormat;
use vstd::prelude::*;

verus! {

/// Either a `$ref` to a definition elsewhere in the document, or the item itself.
#[derive(Debug)]
pub enum ReferenceOr<T> {
    Reference { reference: String },
    Item(T),
}

/// The data shared by every schema that the conversions read.
#[derive(Debug)]
pub struct SchemaData {
    pub description: Option<String>,
}

#[derive(Debug)]
pub struct Schema {
    pub schema_data: SchemaData,
    pub schema_kind: SchemaKind,
}

/// What kind of schema this is: a plain type, or a combination of schemas.
#[derive(Debug)]
pub enum SchemaKind {
    Type(Type),
    OneOf,
    AllOf,
    AnyOf,
    Not,
    Any,
}

#[derive(Debug)]
pub enum Type {
    String(StringType),
    Number(NumberType),
    Integer,
    Object(ObjectType),
    Array(ArrayType),
    Boolean,
}

/// A format that is either one the standard names, some other text, or absent.
#[derive(Debug)]
pub enum VariantOrUnknownOrEmpty<T> {
    Item(T),
    Unknown(String),
    Empty,
}

#[derive(Clone, Copy, Debug, PartialEq, Eq)]
pub enum StringFormat {
    Date,
    DateTime,
    Password,
    Byte,
    Binary,
}

#[derive(Clone, Copy, Debug, PartialEq, Eq)]
pub enum NumberFormat {
    Float,
    Double,
}

#[derive(Debug)]
pub struct StringType {
    pub format: VariantOrUnknownOrEmpty<StringFormat>,
}

#[derive(Debug)]
pub struct NumberType {
    pub format: VariantOrUnknownOrEmpty<NumberFormat>,
}

#[derive(Debug)]
pub struct ObjectType {
    pub properties: Vec<(String, ReferenceOr<Box<Schema>>)>,
    pub required: Vec<String>,
}

#[derive(Debug)]
pub struct ArrayType {
    pub items: Option<ReferenceOr<Box<Schema>>>,
}

#[derive(Debug)]
pub struct MediaType {
    pub schema: Option<ReferenceOr<Schema>>,
}

/// How a parameter's value is described: by a schema, or by media types.
#[derive(Debug)]
pub enum ParameterSchemaOrContent {
    Schema(ReferenceOr<Schema>),
    Content(Vec<(String, MediaType)>),
}

#[derive(Debug)]
pub struct ParameterData {
    pub name: String,
    pub format: ParameterSchemaOrContent,
}

/// A parameter, by where it is passed.
#[derive(Debug)]
pub enum Parameter {
    Query { parameter_data: ParameterData },
    Header { parameter_data: ParameterData },
    Path { parameter_data: ParameterData },
    Cookie { parameter_data: ParameterData },
}

impl Parameter {
    pub open spec fn spec_parameter_data(self) -> ParameterData {
        match self {
            Parameter::Query { parameter_data } => parameter_data,
            Parameter::Header { parameter_data } => parameter_data,
            Parameter::Path { parameter_data } => parameter_data,
            Parameter::Cookie { parameter_data } => parameter_data,
        }
    }

    /// The data common to all kinds of parameter.
    #[verifier::when_used_as_spec(spec_parameter_data)]
    pub fn parameter_data(self) -> (data: ParameterData)
        ensures
            data == self.spec_parameter_data(),
    {
        match self {
            Parameter::Query { parameter_data } => parameter_data,
            Parameter::Header { parameter_data } => parameter_data,
            Parameter::Path { parameter_data } => parameter_data,
            Parameter::Cookie { parameter_data } => parameter_data,
        }
    }
}

#[derive(Debug)]
pub struct RequestBody {
    pub content: Vec<(String, MediaType)>,
}

#[derive(Debug)]
pub struct Response {
    pub content: Vec<(String, MediaType)>,
}

/// A response code, or a range of them written as its first digit and `XX`.
#[derive(Clone, Copy, Debug, PartialEq, Eq)]
pub enum StatusCode {
    Code(u16),
    Range(u16),
}

#[derive(Debug)]
pub struct Responses {
    pub responses: Vec<(StatusCode, ReferenceOr<Response>)>,
}

#[derive(Debug)]
pub struct Operation {
    pub operation_id: Option<String>,
    pub parameters: Vec<ReferenceOr<Parameter>>,
    pub request_body: Option<ReferenceOr<RequestBody>>,
    pub responses: Responses,
}

/// The operations of one path, by HTTP method.
#[derive(Debug)]
pub struct PathItem {
    pub get: Option<Operation>,
    pub put: Option<Operation>,
    pub post: Option<Operation>,
    pub delete: Option<Operation>,
    pub patch: Option<Operation>,
}

#[derive(Debug)]
pub struct Paths {
    pub paths: Vec<(String, ReferenceOr<PathItem>)>,
}

#[derive(Debug)]
pub struct Components {
    pub schemas: Vec<(String, ReferenceOr<Schema>)>,
}

/// An OpenAPI document.
#[derive(Debug)]
pub struct OpenAPI {
    pub paths: Paths,
    pub components: Option<Components>,
}

/// What can go wrong when loading a document: reading the file, or reading
/// its YAML.
#[derive(Debug)]
pub enum LoadError {
    Io(std::io::Error),
    Serde(serde_yml::Error),
}

/// A document of the `openapiv3` crate, carried through as it is.
#[verifier::external_type_specification]
#[verifier::external_body]
pub struct ExOutsideOpenAPI(OutsideOpenAPI);

/// A reference or item of the `openapiv3` crate, carried through as it is.
#[verifier::external_type_specification]
#[verifier::external_body]
#[verifier::reject_recursive_types(T)]
pub struct ExOutsideRef<T>(OutsideRef<T>);

/// A path item of the `openapiv3` crate, carried through as it is.
#[verifier::external_type_specification]
#[verifier::external_body]
pub struct ExOutsidePathItem(OutsidePathItem);

/// An operation of the `openapiv3` crate, carried through as it is.
#[verifier::external_type_specification]
#[verifier::external_body]
pub struct ExOutsideOperation(OutsideOperation);

/// A response code of the `openapiv3` crate, carried through as it is.
#[verifier::external_type_specification]
#[verifier::external_body]
pub struct ExOutsideStatusCode(OutsideStatusCode);

/// A media type of the `openapiv3` crate, carried through as it is.
#[verifier::external_type_specification]
#[verifier::external_body]
pub struct ExOutsideMediaType(OutsideMediaType);

/// A parameter of the `openapiv3` crate, carried through as it is.
#[verifier::external_type_specification]
#[verifier::external_body]
pub struct ExOutsideParameter(OutsideParameter);

/// The data of a parameter of the `openapiv3` crate, carried through as it is.
#[verifier::external_type_specification]
#[verifier::external_body]
pub struct ExOutsideParameterData(OutsideParameterData);

/// A schema of the `openapiv3` crate, carried through as it is.
#[verifier::external_type_specification]
#[verifier::external_body]
pub struct ExOutsideSchema(OutsideSchema);

/// A plain schema type of the `openapiv3` crate, carried through as it is.
#[verifier::external_type_specification]
#[verifier::external_body]
pub struct ExOutsideType(OutsideType);

/// A format of the `openapiv3` crate, carried through as it is.
#[verifier::external_type_specification]
#[verifier::external_body]
#[verifier::reject_recursive_types(T)]
pub struct ExOutsideFormat<T>(OutsideFormat<T>);

/// A string format of the `openapiv3` crate, carried through as it is.
#[verifier::external_type_specification]
#[verifier::external_body]
pub struct ExOutsideStringFormat(OutsideStringFormat);

/// A number format of the `openapiv3` crate, carried through as it is.
#[verifier::external_type_specification]
#[verifier::external_body]
pub struct ExOutsideNumberFormat(OutsideNumberFormat);

/// What the `serde_yml` crate makes of `text` as a document of the `openapiv3`
/// crate, in the library's terms; `None` when it does not read as one.
pub uninterp spec fn parsed_document(text: Seq<char>) -> Option<OpenAPI>;

/// Calls `serde_yml::from_str` to read `text` as an `openapiv3::OpenAPI` and
/// maps that document one for one into the library's `OpenAPI` (through the
/// converters below), keeping the parts that the conversions read, in
/// document order. Its result is named, not described: the document is
/// `parsed_document(text)`, and a text that does not read is the YAML
/// reader's error.
#[verifier::external_body]
pub fn parse_document(text: &str) -> (r: Result<OpenAPI, LoadError>)
    ensures
        match r {
            Ok(d) => parsed_document(text@) == Some(d),
            Err(e) => parsed_document(text@) is None && e is Serde,
        },
{
    let d: OutsideOpenAPI = serde_yml::from_str(text).map_err(LoadError::Serde)?;
    Ok(document_from(d))
}

// The converters below map values of the `openapiv3` crate one for one into
// the library's document; each serves `parse_document` alone and calls
// nothing of that crate.

/// Maps a document's paths and component schemas, in order.
#[verifier::external_body]
fn document_from(d: OutsideOpenAPI) -> OpenAPI {
    let paths = d.paths.paths.into_iter().map(|(k, v)| (k, reference_from(v, path_item_from)));
    let components = d.components.map(|c| Components {
        schemas: c.schemas.into_iter().map(|(k, v)| (k, reference_from(v, schema_from))).collect(),
    });
    OpenAPI { paths: Paths { paths: paths.collect() }, components }
}

/// Maps a reference as it is, and an item by `f`.
#[verifier::external_body]
fn reference_from<T, U>(r: OutsideRef<T>, f: impl FnOnce(T) -> U) -> ReferenceOr<U> {
    match r {
        OutsideRef::Reference { reference } => ReferenceOr::Reference { reference },
        OutsideRef::Item(item) => ReferenceOr::Item(f(item)),
    }
}

/// Maps the operations of a path by method.
#[verifier::external_body]
fn path_item_from(p: OutsidePathItem) -> PathItem {
    PathItem {
        get: p.get.map(operation_from),
        put: p.put.map(operation_from),
        post: p.post.map(operation_from),
        delete: p.delete.map(operation_from),
        patch: p.patch.map(operation_from),
    }
}

/// Maps an operation's id, parameters, request body and responses.
#[verifier::external_body]
fn operation_from(o: OutsideOperation) -> Operation {
    let responses = o.responses.responses.into_iter().map(|(c, r)| {
        (status_from(c), reference_from(r, |r| Response { content: content_from(r.content) }))
    });
    Operation {
        operation_id: o.operation_id,
        parameters: o.parameters.into_iter().map(|p| reference_from(p, parameter_from)).collect(),
        request_body: o.request_body.map(|r| {
            reference_from(r, |b| RequestBody { content: content_from(b.content) })
        }),
        responses: Responses { responses: responses.collect() },
    }
}

/// Maps a response code.
#[verifier::external_body]
fn status_from(c: OutsideStatusCode) -> StatusCode {
    match c {
        OutsideStatusCode::Code(n) => StatusCode::Code(n),
        OutsideStatusCode::Range(n) => StatusCode::Range(n),
    }
}

/// Maps media types, in order, each with its schema.
#[verifier::external_body]
fn content_from(c: IndexMap<String, OutsideMediaType>) -> Vec<(String, MediaType)> {
    c.into_iter()
        .map(|(k, m)| (k, MediaType { schema: m.schema.map(|s| reference_from(s, schema_from)) }))
        .collect()
}

/// Maps a parameter by where it is passed.
#[verifier::external_body]
fn parameter_from(p: OutsideParameter) -> Parameter {
    match p {
        OutsideParameter::Query { parameter_data, .. } => Parameter::Query { parameter_data: data_from(parameter_data) },
        OutsideParameter::Header { parameter_data, .. } => Parameter::Header { parameter_data: data_from(parameter_data) },
        OutsideParameter::Path { parameter_data, .. } => Parameter::Path { parameter_data: data_from(parameter_data) },
        OutsideParameter::Cookie { parameter_data, .. } => Parameter::Cookie { parameter_data: data_from(parameter_data) },
    }
}

/// Maps a parameter's name and its schema or media types.
#[verifier::external_body]
fn data_from(d: OutsideParameterData) -> ParameterData {
    let format = match d.format {
        OutsideParameterFormat::Schema(s) => ParameterSchemaOrContent::Schema(reference_from(s, schema_from)),
        OutsideParameterFormat::Content(c) => ParameterSchemaOrContent::Content(content_from(c)),
    };
    ParameterData { name: d.name, format }
}

/// Maps a schema's description and kind.
#[verifier::external_body]
fn schema_from(s: OutsideSchema) -> Schema {
    let schema_kind = match s.schema_kind {
        OutsideSchemaKind::Type(t) => SchemaKind::Type(type_from(t)),
        OutsideSchemaKind::OneOf { .. } => SchemaKind::OneOf,
        OutsideSchemaKind::AllOf { .. } => SchemaKind::AllOf,
        OutsideSchemaKind::AnyOf { .. } => SchemaKind::AnyOf,
        OutsideSchemaKind::Not { .. } => SchemaKind::Not,
        OutsideSchemaKind::Any(_) => SchemaKind::Any,
    };
    Schema { schema_data: SchemaData { description: s.schema_data.description }, schema_kind }
}

/// Maps a boxed schema, or its reference.
#[verifier::external_body]
fn boxed_from(r: OutsideRef<Box<OutsideSchema>>) -> ReferenceOr<Box<Schema>> {
    reference_from(r, |b| Box::new(schema_from(*b)))
}

/// Maps a plain type: the formats of strings and numbers, the properties and
/// required names of objects, the items of arrays.
#[verifier::external_body]
fn type_from(t: OutsideType) -> Type {
    match t {
        OutsideType::String(s) => Type::String(StringType { format: format_from(s.format, string_format_from) }),
        OutsideType::Number(n) => Type::Number(NumberType { format: format_from(n.format, number_format_from) }),
        OutsideType::Integer(_) => Type::Integer,
        OutsideType::Object(o) => Type::Object(ObjectType {
            properties: o.properties.into_iter().map(|(k, v)| (k, boxed_from(v))).collect(),
            required: o.required,
        }),
        OutsideType::Array(a) => Type::Array(ArrayType { items: a.items.map(boxed_from) }),
        OutsideType::Boolean(_) => Type::Boolean,
    }
}

/// Maps a format: a standard one by `f`, any other text as it is, or none.
#[verifier::external_body]
fn format_from<T, U>(v: OutsideFormat<T>, f: impl FnOnce(T) -> U) -> VariantOrUnknownOrEmpty<U> {
    match v {
        OutsideFormat::Item(t) => VariantOrUnknownOrEmpty::Item(f(t)),
        OutsideFormat::Unknown(s) => VariantOrUnknownOrEmpty::Unknown(s),
        OutsideFormat::Empty => VariantOrUnknownOrEmpty::Empty,
    }
}

/// Maps a standard string format.
#[verifier::external_body]
fn string_format_from(f: OutsideStringFormat) -> StringFormat {
    match f {
        OutsideStringFormat::Date => StringFormat::Date,
        OutsideStringFormat::DateTime => StringFormat::DateTime,
        OutsideStringFormat::Password => StringFormat::Password,
        OutsideStringFormat::Byte => StringFormat::Byte,
        OutsideStringFormat::Binary => StringFormat::Binary,
    }
}

/// Maps a standard number format.
#[verifier::external_body]
fn number_format_from(f: OutsideNumberFormat) -> NumberFormat {
    match f {
        OutsideNumberFormat::Float => NumberFormat::Float,
        OutsideNumberFormat::Double => NumberFormat::Double,
    }
}

} // verus!
