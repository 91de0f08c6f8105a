//! What the templates of a project see of an OpenAPI document: each path with
//! its operations, and each object schema as a model whose properties carry
//! the name of a Rust type.
use crate::document::{
    self, MediaType, Operation, Parameter, ParameterSchemaOrContent, PathItem, ReferenceOr,
    RequestBody, Response, Schema, SchemaKind, StatusCode, StringFormat, Type,
    VariantOrUnknownOrEmpty,
};
use crate::entries::{
    insert_entry, law_lookup_after_insert, lookup, insert_model, insert_path, insert_response, insert_text, lemma_insert_entry_map,
    map_entry_values, model_entries, new_model_map, new_path_map, new_response_map, new_text_map,
    path_entries, response_entries, text_entries,
};
use crate::text::{
    decimal_string, decimal_text, decimal_value, last_path_segment, last_segment, law_decimal_text,
    text_eq,
};
use indexmap::IndexMap;
use vstd::prelude::*;

verus! {

/// The Rust type that a string schema with this format stands for.
pub open spec fn string_type_name(format: VariantOrUnknownOrEmpty<StringFormat>) -> Seq<char> {
    match format {
        VariantOrUnknownOrEmpty::Unknown(f) => if f@ == "uuid"@ {
            "uuid::Uuid"@
        } else {
            "String"@
        },
        _ => "String"@,
    }
}

/// Whether a schema can be named as a Rust type: a `$ref`, or a plain type
/// other than an object, where an array names the type of its items.
pub open spec fn resolvable(r: ReferenceOr<Box<Schema>>) -> bool
    decreases r,
{
    match r {
        ReferenceOr::Reference { .. } => true,
        ReferenceOr::Item(s) => match s.schema_kind {
            SchemaKind::Type(Type::Array(a)) => match a.items {
                Some(item) => resolvable(item),
                None => false,
            },
            SchemaKind::Type(Type::Object(_)) => false,
            SchemaKind::Type(_) => true,
            _ => false,
        },
    }
}

/// The Rust type that a schema names: the last segment of a `$ref`, or the
/// type of a plain schema.
pub open spec fn resolved_type(r: ReferenceOr<Box<Schema>>) -> Seq<char>
    decreases r,
{
    match r {
        ReferenceOr::Reference { reference } => last_segment(reference@),
        ReferenceOr::Item(s) => match s.schema_kind {
            SchemaKind::Type(Type::String(st)) => string_type_name(st.format),
            SchemaKind::Type(Type::Boolean) => "bool"@,
            SchemaKind::Type(Type::Array(a)) => match a.items {
                Some(item) => "Vec< "@ + resolved_type(item) + " >"@,
                None => Seq::empty(),
            },
            SchemaKind::Type(Type::Number(_)) => "f64"@,
            SchemaKind::Type(Type::Integer) => "i64"@,
            _ => Seq::empty(),
        },
    }
}

/// A schema that is not boxed, seen as the same schema boxed.
pub open spec fn boxed(r: ReferenceOr<Schema>) -> ReferenceOr<Box<Schema>> {
    match r {
        ReferenceOr::Reference { reference } => ReferenceOr::Reference { reference },
        ReferenceOr::Item(s) => ReferenceOr::Item(Box::new(s)),
    }
}

/// The name of a `$ref`, or what `callback` makes of the item.
pub fn reference_or<F, T>(ref_or_item: ReferenceOr<T>, callback: F) -> (r: String) where
    F: FnOnce(T) -> String,

    requires
        ref_or_item matches ReferenceOr::Item(item) ==> call_requires(callback, (item,)),
    ensures
        match ref_or_item {
            ReferenceOr::Reference { reference } => r@ == last_segment(reference@),
            ReferenceOr::Item(item) => call_ensures(callback, (item,), r),
        },
{
    match ref_or_item {
        ReferenceOr::Reference { reference } => last_path_segment(reference.as_str()),
        ReferenceOr::Item(item) => callback(item),
    }
}

/// The Rust type that a schema names.
pub fn resolve_schema(ref_or_schema: ReferenceOr<Schema>) -> (r: String)
    requires
        resolvable(boxed(ref_or_schema)),
    ensures
        r@ == resolved_type(boxed(ref_or_schema)),
{
    let callback = |schema: Schema| -> (r: String)
        requires
            resolvable(ReferenceOr::Item(Box::new(schema))),
        ensures
            r@ == resolved_type(ReferenceOr::Item(Box::new(schema))),
    {
        resolve_boxed_schema(ReferenceOr::Item(Box::new(schema)))
    };
    reference_or(ref_or_schema, callback)
}

/// The Rust type that a boxed schema names.
pub fn resolve_boxed_schema(ref_or_boxed_schema: ReferenceOr<Box<Schema>>) -> (r: String)
    requires
        resolvable(ref_or_boxed_schema),
    ensures
        r@ == resolved_type(ref_or_boxed_schema),
    decreases ref_or_boxed_schema, 1nat,
{
    let ghost whole = ref_or_boxed_schema;
    let callback = |schema: Box<Schema>| -> (r: String)
        requires
            resolvable(ReferenceOr::Item(schema)),
            decreases_to!(whole => schema),
        ensures
            r@ == resolved_type(ReferenceOr::Item(schema)),
    {
        resolve_item(schema, Ghost(whole))
    };
    reference_or(ref_or_boxed_schema, callback)
}

/// The Rust type that a schema given in place names.
fn resolve_item(schema: Box<Schema>, Ghost(whole): Ghost<ReferenceOr<Box<Schema>>>) -> (r: String)
    requires
        resolvable(ReferenceOr::Item(schema)),
        decreases_to!(whole => schema),
    ensures
        r@ == resolved_type(ReferenceOr::Item(schema)),
    decreases whole, 0nat,
{
    let schema = *schema;
    match schema.schema_kind {
        SchemaKind::Type(schema_type) => match schema_type {
            Type::String(string) => {
                if let VariantOrUnknownOrEmpty::Unknown(format) = string.format {
                    if text_eq(format.as_str(), "uuid") {
                        return String::from_str("uuid::Uuid");
                    }
                }
                String::from_str("String")
            },
            Type::Boolean => String::from_str("bool"),
            Type::Array(array) => match array.items {
                Some(item) => {
                    let kind = resolve_boxed_schema(item);
                    let mut out = String::from_str("Vec< ");
                    out.append(kind.as_str());
                    out.append(" >");
                    out
                },
                None => {
                    proof {
                        assert(false);
                    }
                    String::new()
                },
            },
            Type::Object(_) => {
                proof {
                    assert(false);
                }
                String::new()
            },
            Type::Number(_) => String::from_str("f64"),
            Type::Integer => String::from_str("i64"),
        },
        _ => {
            proof {
                assert(false);
            }
            String::new()
        },
    }
}

/// A parameter of an operation: where it is passed, its name and its type.
#[derive(Clone, Debug)]
pub struct OpenAPIParameter {
    pub location: String,
    pub name: String,
    pub kind: String,
}

/// A parameter by view.
pub struct ParameterView {
    pub location: Seq<char>,
    pub name: Seq<char>,
    pub kind: Seq<char>,
}

impl View for OpenAPIParameter {
    type V = ParameterView;

    open spec fn view(&self) -> ParameterView {
        ParameterView { location: self.location@, name: self.name@, kind: self.kind@ }
    }
}

/// The body of a response: the type of its content and its media type.
#[derive(Clone, Debug)]
pub struct OpenAPIResponse {
    pub kind: String,
    pub media: String,
}

/// The body of a request: the type of its content and its media type.
#[derive(Clone, Debug)]
pub struct OpenAPIRequest {
    pub kind: String,
    pub media: String,
}

/// A typed body by view.
pub struct BodyView {
    pub kind: Seq<char>,
    pub media: Seq<char>,
}

impl View for OpenAPIResponse {
    type V = BodyView;

    open spec fn view(&self) -> BodyView {
        BodyView { kind: self.kind@, media: self.media@ }
    }
}

impl View for OpenAPIRequest {
    type V = BodyView;

    open spec fn view(&self) -> BodyView {
        BodyView { kind: self.kind@, media: self.media@ }
    }
}

/// An operation: its id, parameters, request body and a response body by code.
#[derive(Debug)]
pub struct OpenAPIOperation {
    pub operation_id: Option<String>,
    pub parameters: Vec<OpenAPIParameter>,
    pub request: Option<OpenAPIRequest>,
    pub response: IndexMap<String, OpenAPIResponse>,
}

/// An operation by view.
pub struct OperationView {
    pub operation_id: Option<Seq<char>>,
    pub parameters: Seq<ParameterView>,
    pub request: Option<BodyView>,
    pub response: Seq<(Seq<char>, BodyView)>,
}

/// A text that may be absent, by view.
pub open spec fn opt_text(s: Option<String>) -> Option<Seq<char>> {
    match s {
        Some(t) => Some(t@),
        None => None,
    }
}

impl View for OpenAPIOperation {
    type V = OperationView;

    open spec fn view(&self) -> OperationView {
        OperationView {
            operation_id: opt_text(self.operation_id),
            parameters: self.parameters@.map_values(|p: OpenAPIParameter| p@),
            request: match self.request {
                Some(r) => Some(r@),
                None => None,
            },
            response: map_entry_values(
                response_entries(self.response),
                |r: OpenAPIResponse| r@,
            ),
        }
    }
}

/// The operations of one path, by HTTP method.
#[derive(Debug)]
pub struct OpenAPIPath {
    pub post: Option<OpenAPIOperation>,
    pub get: Option<OpenAPIOperation>,
    pub put: Option<OpenAPIOperation>,
    pub patch: Option<OpenAPIOperation>,
    pub delete: Option<OpenAPIOperation>,
}

/// The operations of one path by view.
pub struct PathView {
    pub post: Option<OperationView>,
    pub get: Option<OperationView>,
    pub put: Option<OperationView>,
    pub patch: Option<OperationView>,
    pub delete: Option<OperationView>,
}

/// An operation that may be absent, by view.
pub open spec fn opt_operation(o: Option<OpenAPIOperation>) -> Option<OperationView> {
    match o {
        Some(op) => Some(op@),
        None => None,
    }
}

impl View for OpenAPIPath {
    type V = PathView;

    open spec fn view(&self) -> PathView {
        PathView {
            post: opt_operation(self.post),
            get: opt_operation(self.get),
            put: opt_operation(self.put),
            patch: opt_operation(self.patch),
            delete: opt_operation(self.delete),
        }
    }
}

/// A model: the description of an object schema and the type of each property.
#[derive(Debug)]
pub struct OpenAPIModel {
    pub description: Option<String>,
    pub properties: IndexMap<String, String>,
}

/// A model by view.
pub struct ModelView {
    pub description: Option<Seq<char>>,
    pub properties: Seq<(Seq<char>, Seq<char>)>,
}

impl View for OpenAPIModel {
    type V = ModelView;

    open spec fn view(&self) -> ModelView {
        ModelView {
            description: opt_text(self.description),
            properties: text_entries(self.properties),
        }
    }
}

/// A document as the templates see it: its paths and its models.
#[derive(Debug)]
pub struct OpenAPI {
    pub paths: IndexMap<String, OpenAPIPath>,
    pub models: IndexMap<String, OpenAPIModel>,
}

/// A document by view.
pub struct ApiView {
    pub paths: Seq<(Seq<char>, PathView)>,
    pub models: Seq<(Seq<char>, ModelView)>,
}

impl View for OpenAPI {
    type V = ApiView;

    open spec fn view(&self) -> ApiView {
        ApiView {
            paths: map_entry_values(path_entries(self.paths), |p: OpenAPIPath| p@),
            models: map_entry_values(model_entries(self.models), |m: OpenAPIModel| m@),
        }
    }
}

/// Where a parameter is passed, as text.
pub open spec fn location_name(p: Parameter) -> Seq<char> {
    match p {
        Parameter::Header { .. } => "header"@,
        Parameter::Cookie { .. } => "cookie"@,
        Parameter::Path { .. } => "path"@,
        Parameter::Query { .. } => "query"@,
    }
}

/// The parameters that are given in place and described by a schema, in order,
/// each with where it is passed, its name and the type its schema names.
pub open spec fn converted_parameters(ps: Seq<ReferenceOr<Parameter>>) -> Seq<ParameterView>
    decreases ps.len(),
{
    if ps.len() == 0 {
        Seq::empty()
    } else {
        let before = converted_parameters(ps.drop_last());
        match ps.last() {
            ReferenceOr::Reference { .. } => before,
            ReferenceOr::Item(p) => match p.spec_parameter_data().format {
                ParameterSchemaOrContent::Content(_) => before,
                ParameterSchemaOrContent::Schema(s) => before.push(
                    ParameterView {
                        location: location_name(p),
                        name: p.spec_parameter_data().name@,
                        kind: resolved_type(boxed(s)),
                    },
                ),
            },
        }
    }
}

/// Whether the schema of each parameter given in place can be named.
pub open spec fn parameters_resolvable(ps: Seq<ReferenceOr<Parameter>>) -> bool {
    forall|i: int|
        0 <= i < ps.len() ==> match #[trigger] ps[i] {
            ReferenceOr::Item(p) => match p.spec_parameter_data().format {
                ParameterSchemaOrContent::Schema(s) => resolvable(boxed(s)),
                _ => true,
            },
            _ => true,
        }
}

/// The parameters of an operation, as templates see them.
pub fn convert_parameters(parameters: Vec<ReferenceOr<Parameter>>) -> (output: Vec<
    OpenAPIParameter,
>)
    requires
        parameters_resolvable(parameters@),
    ensures
        output@.map_values(|p: OpenAPIParameter| p@) == converted_parameters(parameters@),
{
    let ghost all = parameters@;
    let mut output: Vec<OpenAPIParameter> = Vec::new();
    for ref_or_parameter in it: parameters.into_iter()
        invariant
            it.seq() == all,
            parameters_resolvable(all),
            output@.map_values(|p: OpenAPIParameter| p@) == converted_parameters(
                all.take(it.index() as int),
            ),
    {
        let ghost i = it.index() as int;
        proof {
            assert(all.take(i + 1).drop_last() =~= all.take(i));
            assert(all.take(i + 1).last() == all[i]);
        }
        match ref_or_parameter {
            ReferenceOr::Reference { reference: _ } => {},
            ReferenceOr::Item(parameter) => {
                let location = match parameter {
                    Parameter::Header { .. } => String::from_str("header"),
                    Parameter::Cookie { .. } => String::from_str("cookie"),
                    Parameter::Path { .. } => String::from_str("path"),
                    Parameter::Query { .. } => String::from_str("query"),
                };
                let data = parameter.parameter_data();
                match data.format {
                    ParameterSchemaOrContent::Content(_) => {},
                    ParameterSchemaOrContent::Schema(ref_or_schema) => {
                        let kind = resolve_schema(ref_or_schema);
                        let ghost before = output@;
                        output.push(OpenAPIParameter { location, name: data.name, kind });
                        assert(output@.map_values(|p: OpenAPIParameter| p@) =~= before.map_values(
                            |p: OpenAPIParameter| p@,
                        ).push(output@.last()@));
                    },
                }
            },
        }
    }
    proof {
        assert(all.take(all.len() as int) =~= all);
    }
    output
}

/// The first media type of `content` that has a schema, with that schema.
pub open spec fn first_media_schema(content: Seq<(String, MediaType)>) -> Option<
    (Seq<char>, ReferenceOr<Schema>),
>
    decreases content.len(),
{
    if content.len() == 0 {
        None
    } else {
        match content[0].1.schema {
            Some(s) => Some((content[0].0@, s)),
            None => first_media_schema(content.drop_first()),
        }
    }
}

/// The body of a request given in place: the first of its media types that has
/// a schema, with the type that schema names.
pub open spec fn converted_request(r: ReferenceOr<RequestBody>) -> Option<BodyView> {
    match r {
        ReferenceOr::Item(req) => match first_media_schema(req.content@) {
            Some(found) => Some(BodyView { kind: resolved_type(boxed(found.1)), media: found.0 }),
            None => None,
        },
        ReferenceOr::Reference { .. } => None,
    }
}

/// Whether the schema that `converted_request` names can be named.
pub open spec fn request_resolvable(r: ReferenceOr<RequestBody>) -> bool {
    match r {
        ReferenceOr::Item(req) => match first_media_schema(req.content@) {
            Some(found) => resolvable(boxed(found.1)),
            None => true,
        },
        ReferenceOr::Reference { .. } => true,
    }
}

proof fn lemma_first_media_schema_skip(content: Seq<(String, MediaType)>, i: int)
    requires
        0 <= i < content.len(),
        content[i].1.schema is None,
    ensures
        first_media_schema(content.skip(i)) == first_media_schema(content.skip(i + 1)),
{
    assert(content.skip(i).drop_first() =~= content.skip(i + 1));
}

/// The body of a request, as templates see it.
fn convert_request(ref_or_request: ReferenceOr<RequestBody>) -> (r: Option<OpenAPIRequest>)
    requires
        request_resolvable(ref_or_request),
    ensures
        match r {
            Some(req) => converted_request(ref_or_request) == Some(req@),
            None => converted_request(ref_or_request) is None,
        },
{
    if let ReferenceOr::Item(request) = ref_or_request {
        let ghost all = request.content@;
        proof {
            assert(all.skip(0) =~= all);
        }
        for entry in it: request.content.into_iter()
            invariant
                it.seq() == all,
                ref_or_request matches ReferenceOr::Item(r) && r.content@ == all,
                first_media_schema(all) == first_media_schema(all.skip(it.index() as int)),
                match first_media_schema(all) {
                    Some(found) => resolvable(boxed(found.1)),
                    None => true,
                },
        {
            let ghost i = it.index() as int;
            assert(all.skip(i)[0] == all[i]);
            let (media_type, media) = entry;
            if let Some(ref_or_schema) = media.schema {
                let kind = resolve_schema(ref_or_schema);
                let req = OpenAPIRequest { kind, media: media_type };
                return Some(req);
            }
            proof {
                lemma_first_media_schema_skip(all, i);
            }
        }
        proof {
            assert(all.skip(all.len() as int) =~= Seq::<(String, MediaType)>::empty());
        }
    }
    None
}

/// A response code as text: the number, or for a range its first digit and `XX`.
pub open spec fn code_text(c: StatusCode) -> Seq<char> {
    match c {
        StatusCode::Code(n) => decimal_text(n as nat),
        StatusCode::Range(n) => decimal_text(n as nat) + "XX"@,
    }
}

/// A response code as text.
pub fn code_string(c: StatusCode) -> (r: String)
    ensures
        r@ == code_text(c),
{
    match c {
        StatusCode::Code(n) => decimal_string(n),
        StatusCode::Range(n) => {
            let mut s = decimal_string(n);
            s.append("XX");
            s
        },
    }
}

/// `acc` after putting, under `code`, each media type of `content` that has a
/// schema, in order: a later one takes the place of an earlier one.
pub open spec fn response_bodies(
    acc: Seq<(Seq<char>, BodyView)>,
    code: Seq<char>,
    content: Seq<(String, MediaType)>,
) -> Seq<(Seq<char>, BodyView)>
    decreases content.len(),
{
    if content.len() == 0 {
        acc
    } else {
        let before = response_bodies(acc, code, content.drop_last());
        match content.last().1.schema {
            Some(s) => insert_entry(
                before,
                code,
                BodyView { kind: resolved_type(boxed(s)), media: content.last().0@ },
            ),
            None => before,
        }
    }
}

/// The body of each response given in place, by the text of its code.
pub open spec fn converted_responses(rs: Seq<(StatusCode, ReferenceOr<Response>)>) -> Seq<
    (Seq<char>, BodyView),
>
    decreases rs.len(),
{
    if rs.len() == 0 {
        Seq::empty()
    } else {
        let before = converted_responses(rs.drop_last());
        match rs.last().1 {
            ReferenceOr::Item(resp) => response_bodies(before, code_text(rs.last().0), resp.content@),
            ReferenceOr::Reference { .. } => before,
        }
    }
}

/// Whether every schema of `content` can be named.
pub open spec fn content_resolvable(content: Seq<(String, MediaType)>) -> bool {
    forall|j: int|
        0 <= j < content.len() ==> match (#[trigger] content[j]).1.schema {
            Some(s) => resolvable(boxed(s)),
            None => true,
        }
}

/// Whether every schema of a response given in place can be named.
pub open spec fn response_resolvable(r: ReferenceOr<Response>) -> bool {
    match r {
        ReferenceOr::Item(resp) => content_resolvable(resp.content@),
        ReferenceOr::Reference { .. } => true,
    }
}

pub open spec fn responses_resolvable(rs: Seq<(StatusCode, ReferenceOr<Response>)>) -> bool {
    forall|i: int| 0 <= i < rs.len() ==> response_resolvable(#[trigger] rs[i].1)
}

/// The responses of an operation, as templates see them.
fn convert_response(responses_object: document::Responses) -> (responses: IndexMap<
    String,
    OpenAPIResponse,
>)
    requires
        responses_resolvable(responses_object.responses@),
    ensures
        map_entry_values(response_entries(responses), |r: OpenAPIResponse| r@)
            == converted_responses(responses_object.responses@),
{
    let ghost all = responses_object.responses@;
    let mut responses = new_response_map();
    proof {
        assert(map_entry_values(response_entries(responses), |r: OpenAPIResponse| r@) =~= Seq::empty());
    }
    for entry in it: responses_object.responses.into_iter()
        invariant
            it.seq() == all,
            responses_resolvable(all),
            map_entry_values(response_entries(responses), |r: OpenAPIResponse| r@) == converted_responses(
                all.take(it.index() as int),
            ),
    {
        let ghost i = it.index() as int;
        proof {
            assert(all.take(i + 1).drop_last() =~= all.take(i));
            assert(all.take(i + 1).last() == all[i]);
        }
        let (code, response) = entry;
        if let ReferenceOr::Item(response) = response {
            let ghost start = map_entry_values(response_entries(responses), |r: OpenAPIResponse| r@);
            let ghost content = response.content@;
            assert(response_resolvable(all[i].1));
            for media_entry in jt: response.content.into_iter()
                invariant
                    jt.seq() == content,
                    content_resolvable(content),
                    map_entry_values(response_entries(responses), |r: OpenAPIResponse| r@) == response_bodies(
                        start,
                        code_text(code),
                        content.take(jt.index() as int),
                    ),
            {
                let ghost j = jt.index() as int;
                proof {
                    assert(content.take(j + 1).drop_last() =~= content.take(j));
                    assert(content.take(j + 1).last() == content[j]);
                }
                let (media_type, media) = media_entry;
                if let Some(ref_or_schema) = media.schema {
                    let ghost before = response_entries(responses);
                    let body = OpenAPIResponse { kind: resolve_schema(ref_or_schema), media: media_type };
                    let key = code_string(code);
                    insert_response(&mut responses, key, body);
                    proof {
                        lemma_insert_entry_map(before, code_text(code), body, |r: OpenAPIResponse| r@);
                    }
                }
            }
            proof {
                assert(content.take(content.len() as int) =~= content);
            }
        }
    }
    proof {
        assert(all.take(all.len() as int) =~= all);
    }
    responses
}

/// An operation, as templates see it.
pub open spec fn converted_operation(o: Operation) -> OperationView {
    OperationView {
        operation_id: opt_text(o.operation_id),
        parameters: converted_parameters(o.parameters@),
        request: match o.request_body {
            Some(r) => converted_request(r),
            None => None,
        },
        response: converted_responses(o.responses.responses@),
    }
}

/// Whether every schema that the conversion of an operation names can be named.
pub open spec fn operation_resolvable(o: Operation) -> bool {
    &&& parameters_resolvable(o.parameters@)
    &&& o.request_body matches Some(r) ==> request_resolvable(r)
    &&& responses_resolvable(o.responses.responses@)
}

impl OpenAPIOperation {
    /// The operation as templates see it.
    pub fn from(value: Operation) -> (r: Self)
        requires
            operation_resolvable(value),
        ensures
            r@ == converted_operation(value),
    {
        let request = match value.request_body {
            Some(r) => convert_request(r),
            None => None,
        };
        let r = OpenAPIOperation {
            operation_id: value.operation_id,
            parameters: convert_parameters(value.parameters),
            request,
            response: convert_response(value.responses),
        };
        assert(r@.request == converted_operation(value).request);
        r
    }
}

/// An operation that may be absent, as templates see it.
pub open spec fn converted_opt_operation(o: Option<Operation>) -> Option<OperationView> {
    match o {
        Some(op) => Some(converted_operation(op)),
        None => None,
    }
}

pub open spec fn opt_operation_resolvable(o: Option<Operation>) -> bool {
    o matches Some(op) ==> operation_resolvable(op)
}

/// The operations of a path, as templates see them.
pub open spec fn converted_path(p: PathItem) -> PathView {
    PathView {
        post: converted_opt_operation(p.post),
        get: converted_opt_operation(p.get),
        put: converted_opt_operation(p.put),
        patch: converted_opt_operation(p.patch),
        delete: converted_opt_operation(p.delete),
    }
}

pub open spec fn path_resolvable(p: PathItem) -> bool {
    &&& opt_operation_resolvable(p.post)
    &&& opt_operation_resolvable(p.get)
    &&& opt_operation_resolvable(p.put)
    &&& opt_operation_resolvable(p.patch)
    &&& opt_operation_resolvable(p.delete)
}

fn convert_opt_operation(o: Option<Operation>) -> (r: Option<OpenAPIOperation>)
    requires
        opt_operation_resolvable(o),
    ensures
        opt_operation(r) == converted_opt_operation(o),
{
    match o {
        Some(op) => Some(OpenAPIOperation::from(op)),
        None => None,
    }
}

impl OpenAPIPath {
    /// The operations of a path, as templates see them.
    pub fn from(value: PathItem) -> (r: Self)
        requires
            path_resolvable(value),
        ensures
            r@ == converted_path(value),
    {
        OpenAPIPath {
            post: convert_opt_operation(value.post),
            get: convert_opt_operation(value.get),
            put: convert_opt_operation(value.put),
            patch: convert_opt_operation(value.patch),
            delete: convert_opt_operation(value.delete),
        }
    }
}

/// The paths given in place, each with its operations, in document order; a
/// path that comes twice keeps its first place and takes its last operations.
pub open spec fn converted_paths(ps: Seq<(String, ReferenceOr<PathItem>)>) -> Seq<
    (Seq<char>, PathView),
>
    decreases ps.len(),
{
    if ps.len() == 0 {
        Seq::empty()
    } else {
        let before = converted_paths(ps.drop_last());
        match ps.last().1 {
            ReferenceOr::Item(p) => insert_entry(before, ps.last().0@, converted_path(p)),
            ReferenceOr::Reference { .. } => before,
        }
    }
}

pub open spec fn paths_resolvable(ps: Seq<(String, ReferenceOr<PathItem>)>) -> bool {
    forall|i: int|
        0 <= i < ps.len() ==> ((#[trigger] ps[i]).1 matches ReferenceOr::Item(p) ==> path_resolvable(
            p,
        ))
}

fn convert_paths(paths: document::Paths) -> (output: IndexMap<String, OpenAPIPath>)
    requires
        paths_resolvable(paths.paths@),
    ensures
        map_entry_values(path_entries(output), |p: OpenAPIPath| p@) == converted_paths(
            paths.paths@,
        ),
{
    let ghost all = paths.paths@;
    let mut output = new_path_map();
    proof {
        assert(map_entry_values(path_entries(output), |p: OpenAPIPath| p@) =~= Seq::empty());
    }
    for entry in it: paths.paths.into_iter()
        invariant
            it.seq() == all,
            paths_resolvable(all),
            map_entry_values(path_entries(output), |p: OpenAPIPath| p@) == converted_paths(
                all.take(it.index() as int),
            ),
    {
        let ghost i = it.index() as int;
        proof {
            assert(all.take(i + 1).drop_last() =~= all.take(i));
            assert(all.take(i + 1).last() == all[i]);
        }
        let (path, ref_or_item) = entry;
        if let ReferenceOr::Item(item) = ref_or_item {
            assert(paths_resolvable(all) ==> path_resolvable(item));
            let ghost before = path_entries(output);
            let converted = OpenAPIPath::from(item);
            let ghost key = path@;
            insert_path(&mut output, path, converted);
            proof {
                lemma_insert_entry_map(before, key, converted, |p: OpenAPIPath| p@);
            }
        }
    }
    proof {
        assert(all.take(all.len() as int) =~= all);
    }
    output
}

/// The type that each property names, by property name, in order.
pub open spec fn converted_properties(props: Seq<(String, ReferenceOr<Box<Schema>>)>) -> Seq<
    (Seq<char>, Seq<char>),
>
    decreases props.len(),
{
    if props.len() == 0 {
        Seq::empty()
    } else {
        insert_entry(
            converted_properties(props.drop_last()),
            props.last().0@,
            resolved_type(props.last().1),
        )
    }
}

pub open spec fn properties_resolvable(props: Seq<(String, ReferenceOr<Box<Schema>>)>) -> bool {
    forall|i: int| 0 <= i < props.len() ==> resolvable(#[trigger] props[i].1)
}

fn convert_properties(props: Vec<(String, ReferenceOr<Box<Schema>>)>) -> (properties: IndexMap<
    String,
    String,
>)
    requires
        properties_resolvable(props@),
    ensures
        text_entries(properties) == converted_properties(props@),
{
    let ghost all = props@;
    let mut properties = new_text_map();
    for entry in it: props.into_iter()
        invariant
            it.seq() == all,
            properties_resolvable(all),
            text_entries(properties) == converted_properties(all.take(it.index() as int)),
    {
        let ghost i = it.index() as int;
        proof {
            assert(all.take(i + 1).drop_last() =~= all.take(i));
            assert(all.take(i + 1).last() == all[i]);
        }
        let (property, ref_or_schema) = entry;
        assert(resolvable(all[i].1));
        let kind = resolve_boxed_schema(ref_or_schema);
        insert_text(&mut properties, property, kind);
    }
    proof {
        assert(all.take(all.len() as int) =~= all);
    }
    properties
}

/// The model of each object schema given in place, by schema name, in order.
pub open spec fn converted_models(schemas: Seq<(String, ReferenceOr<Schema>)>) -> Seq<
    (Seq<char>, ModelView),
>
    decreases schemas.len(),
{
    if schemas.len() == 0 {
        Seq::empty()
    } else {
        let before = converted_models(schemas.drop_last());
        match schemas.last().1 {
            ReferenceOr::Item(item) => match item.schema_kind {
                SchemaKind::Type(Type::Object(object)) => insert_entry(
                    before,
                    schemas.last().0@,
                    ModelView {
                        description: opt_text(item.schema_data.description),
                        properties: converted_properties(object.properties@),
                    },
                ),
                _ => before,
            },
            ReferenceOr::Reference { .. } => before,
        }
    }
}

/// Whether every property of every object schema given in place can be named.
pub open spec fn models_resolvable(schemas: Seq<(String, ReferenceOr<Schema>)>) -> bool {
    forall|i: int|
        0 <= i < schemas.len() ==> match (#[trigger] schemas[i]).1 {
            ReferenceOr::Item(item) => match item.schema_kind {
                SchemaKind::Type(Type::Object(object)) => properties_resolvable(
                    object.properties@,
                ),
                _ => true,
            },
            ReferenceOr::Reference { .. } => true,
        }
}

pub open spec fn converted_components(components: Option<document::Components>) -> Seq<
    (Seq<char>, ModelView),
> {
    match components {
        Some(c) => converted_models(c.schemas@),
        None => Seq::empty(),
    }
}

pub open spec fn components_resolvable(components: Option<document::Components>) -> bool {
    components matches Some(c) ==> models_resolvable(c.schemas@)
}

fn convert_components(components: Option<document::Components>) -> (output: IndexMap<
    String,
    OpenAPIModel,
>)
    requires
        components_resolvable(components),
    ensures
        map_entry_values(model_entries(output), |m: OpenAPIModel| m@) == converted_components(
            components,
        ),
{
    let mut output = new_model_map();
    proof {
        assert(map_entry_values(model_entries(output), |m: OpenAPIModel| m@) =~= Seq::empty());
    }
    if let Some(components) = components {
        let ghost all = components.schemas@;
        for entry in it: components.schemas.into_iter()
            invariant
                it.seq() == all,
                models_resolvable(all),
                map_entry_values(model_entries(output), |m: OpenAPIModel| m@) == converted_models(
                    all.take(it.index() as int),
                ),
        {
            let ghost i = it.index() as int;
            proof {
                assert(all.take(i + 1).drop_last() =~= all.take(i));
                assert(all.take(i + 1).last() == all[i]);
            }
            let (name, ref_or_item) = entry;
            if let ReferenceOr::Item(item) = ref_or_item {
                let data = item.schema_data;
                if let SchemaKind::Type(Type::Object(object)) = item.schema_kind {
                    assert(properties_resolvable(object.properties@));
                    let properties = convert_properties(object.properties);
                    let model = OpenAPIModel { description: data.description, properties };
                    let ghost before = model_entries(output);
                    let ghost key = name@;
                    insert_model(&mut output, name, model);
                    proof {
                        lemma_insert_entry_map(before, key, model, |m: OpenAPIModel| m@);
                    }
                }
            }
        }
        proof {
            assert(all.take(all.len() as int) =~= all);
        }
    }
    output
}

impl OpenAPIModel {
    /// The model of an object schema: its description and the type of each property.
    pub fn from(value: Schema) -> (r: Self)
        requires
            value.schema_kind matches SchemaKind::Type(Type::Object(object))
                && properties_resolvable(object.properties@),
        ensures
            value.schema_kind matches SchemaKind::Type(Type::Object(object)) && r@ == (ModelView {
                description: opt_text(value.schema_data.description),
                properties: converted_properties(object.properties@),
            }),
    {
        match value.schema_kind {
            SchemaKind::Type(Type::Object(object)) => OpenAPIModel {
                description: value.schema_data.description,
                properties: convert_properties(object.properties),
            },
            _ => {
                proof {
                    assert(false);
                }
                OpenAPIModel { description: None, properties: new_text_map() }
            },
        }
    }
}

/// A document, as templates see it.
pub open spec fn converted_document(d: document::OpenAPI) -> ApiView {
    ApiView {
        paths: converted_paths(d.paths.paths@),
        models: converted_components(d.components),
    }
}

/// Whether every schema that the conversion of a document names can be named.
pub open spec fn document_resolvable(d: document::OpenAPI) -> bool {
    paths_resolvable(d.paths.paths@) && components_resolvable(d.components)
}

impl OpenAPI {
    /// The document as templates see it.
    pub fn from(value: document::OpenAPI) -> (r: Self)
        requires
            document_resolvable(value),
        ensures
            r@ == converted_document(value),
    {
        OpenAPI { paths: convert_paths(value.paths), models: convert_components(value.components) }
    }
}

/// Every path given in place is in the converted document, and nothing else:
/// a path referred to by `$ref` is left out.
pub proof fn law_paths_given_in_place(ps: Seq<(String, ReferenceOr<PathItem>)>, k: Seq<char>)
    ensures
        lookup(converted_paths(ps), k) is Some <==> exists|i: int|
            0 <= i < ps.len() && (#[trigger] ps[i]).0@ == k && ps[i].1 is Item,
    decreases ps.len(),
{
    if ps.len() > 0 {
        let init = ps.drop_last();
        law_paths_given_in_place(init, k);
        assert forall|i: int| 0 <= i < init.len() implies #[trigger] init[i] == ps[i] by {}
        if let ReferenceOr::Item(p) = ps.last().1 {
            law_lookup_after_insert(converted_paths(init), ps.last().0@, converted_path(p), k);
        }
        if exists|i: int| 0 <= i < ps.len() && (#[trigger] ps[i]).0@ == k && ps[i].1 is Item {
            let i = choose|i: int| 0 <= i < ps.len() && (#[trigger] ps[i]).0@ == k && ps[i].1 is Item;
            if i < init.len() {
                assert(init[i] == ps[i]);
            }
        }
    }
}

/// A schema given in place that is an object.
pub open spec fn is_object_schema(r: ReferenceOr<Schema>) -> bool {
    r matches ReferenceOr::Item(s) && s.schema_kind matches SchemaKind::Type(Type::Object(_))
}

/// A parameter given in place and described by a schema.
pub open spec fn is_schema_parameter(r: ReferenceOr<Parameter>) -> bool {
    r matches ReferenceOr::Item(p) && p.spec_parameter_data().format is Schema
}

/// Every object schema given in place becomes a model of the same name, and
/// nothing else does.
pub proof fn law_models_are_object_schemas(schemas: Seq<(String, ReferenceOr<Schema>)>, k: Seq<char>)
    ensures
        lookup(converted_models(schemas), k) is Some <==> exists|i: int|
            0 <= i < schemas.len() && (#[trigger] schemas[i]).0@ == k && is_object_schema(schemas[i].1),
    decreases schemas.len(),
{
    if schemas.len() > 0 {
        let init = schemas.drop_last();
        law_models_are_object_schemas(init, k);
        assert forall|i: int| 0 <= i < init.len() implies #[trigger] init[i] == schemas[i] by {}
        if let ReferenceOr::Item(item) = schemas.last().1 {
            if let SchemaKind::Type(Type::Object(object)) = item.schema_kind {
                law_lookup_after_insert(
                    converted_models(init),
                    schemas.last().0@,
                    ModelView {
                        description: opt_text(item.schema_data.description),
                        properties: converted_properties(object.properties@),
                    },
                    k,
                );
            }
        }
        if exists|i: int|
            0 <= i < schemas.len() && (#[trigger] schemas[i]).0@ == k && is_object_schema(schemas[i].1) {
            let i = choose|i: int|
                0 <= i < schemas.len() && (#[trigger] schemas[i]).0@ == k && is_object_schema(schemas[i].1);
            if i < init.len() {
                assert(init[i] == schemas[i]);
            }
        }
    }
}

/// Keys that are all different, by view.
pub open spec fn names_distinct<T>(entries: Seq<(String, T)>) -> bool {
    forall|i: int, j: int|
        0 <= i < entries.len() && 0 <= j < entries.len() && i != j ==> (#[trigger] entries[i]).0@
            != (#[trigger] entries[j]).0@
}

/// Each property of a model has the type its schema names.
pub proof fn law_property_types(props: Seq<(String, ReferenceOr<Box<Schema>>)>, i: int)
    requires
        names_distinct(props),
        0 <= i < props.len(),
    ensures
        lookup(converted_properties(props), props[i].0@) == Some(resolved_type(props[i].1)),
    decreases props.len(),
{
    let init = props.drop_last();
    let k = props[i].0@;
    law_lookup_after_insert(
        converted_properties(init),
        props.last().0@,
        resolved_type(props.last().1),
        k,
    );
    if i < props.len() - 1 {
        assert forall|a: int, b: int|
            0 <= a < init.len() && 0 <= b < init.len() && a != b implies (#[trigger] init[a]).0@
            != (#[trigger] init[b]).0@ by {
            assert(init[a] == props[a]);
            assert(init[b] == props[b]);
        }
        assert(init[i] == props[i]);
        law_property_types(init, i);
    }
}

/// With parameters all given in place and described by a schema, each one is
/// kept, in order, with where it is passed, its name and the type it names.
pub proof fn law_parameters_kept(ps: Seq<ReferenceOr<Parameter>>)
    requires
        forall|i: int|
            0 <= i < ps.len() ==> is_schema_parameter(#[trigger] ps[i]),
    ensures
        converted_parameters(ps).len() == ps.len(),
        forall|i: int|
            0 <= i < ps.len() ==> match #[trigger] ps[i] {
                ReferenceOr::Item(p) => converted_parameters(ps)[i].name
                    == p.spec_parameter_data().name@
                    && (p is Query ==> converted_parameters(ps)[i].location == "query"@)
                    && (p is Header ==> converted_parameters(ps)[i].location == "header"@)
                    && (p is Path ==> converted_parameters(ps)[i].location == "path"@)
                    && (p is Cookie ==> converted_parameters(ps)[i].location == "cookie"@),
                _ => false,
            },
    decreases ps.len(),
{
    if ps.len() > 0 {
        let init = ps.drop_last();
        assert forall|i: int| 0 <= i < init.len() implies #[trigger] init[i] == ps[i] by {}
        law_parameters_kept(init);
        assert(ps[ps.len() - 1] == ps.last());
        assert forall|i: int| 0 <= i < ps.len() implies match #[trigger] ps[i] {
            ReferenceOr::Item(p) => converted_parameters(ps)[i].name
                == p.spec_parameter_data().name@
                && (p is Query ==> converted_parameters(ps)[i].location == "query"@)
                && (p is Header ==> converted_parameters(ps)[i].location == "header"@)
                && (p is Path ==> converted_parameters(ps)[i].location == "path"@)
                && (p is Cookie ==> converted_parameters(ps)[i].location == "cookie"@),
            _ => false,
        } by {
            if i < init.len() {
                assert(init[i] == ps[i]);
            }
        }
    }
}

/// The four places a parameter is passed have four different names.
pub proof fn law_locations_distinct()
    ensures
        "query"@ != "header"@,
        "query"@ != "path"@,
        "query"@ != "cookie"@,
        "header"@ != "path"@,
        "header"@ != "cookie"@,
        "path"@ != "cookie"@,
{
    reveal_strlit("query");
    reveal_strlit("header");
    reveal_strlit("path");
    reveal_strlit("cookie");
    assert("query"@[0] != "header"@[0]);
    assert("query"@[0] != "path"@[0]);
    assert("query"@[0] != "cookie"@[0]);
    assert("header"@[0] != "path"@[0]);
    assert("header"@[0] != "cookie"@[0]);
    assert("path"@[0] != "cookie"@[0]);
}

/// The Rust type that each plain schema given in place names: every string
/// is `String`, but one whose format is the text `uuid`, which is
/// `uuid::Uuid`; every number is `f64`, whatever its format; every integer
/// `i64`; every boolean `bool`; an array the type of its items in
/// `Vec< .. >`; a `$ref` names the last segment of its path.
pub proof fn law_type_names(s: Schema)
    ensures
        s.schema_kind matches SchemaKind::Type(Type::Number(_)) ==> resolved_type(
            ReferenceOr::Item(Box::new(s)),
        ) == "f64"@,
        s.schema_kind matches SchemaKind::Type(Type::Integer) ==> resolved_type(
            ReferenceOr::Item(Box::new(s)),
        ) == "i64"@,
        s.schema_kind matches SchemaKind::Type(Type::Boolean) ==> resolved_type(
            ReferenceOr::Item(Box::new(s)),
        ) == "bool"@,
        s.schema_kind matches SchemaKind::Type(Type::String(st)) ==> resolved_type(
            ReferenceOr::Item(Box::new(s)),
        ) == if st.format matches VariantOrUnknownOrEmpty::Unknown(f) && f@ == "uuid"@ {
            "uuid::Uuid"@
        } else {
            "String"@
        },
        s.schema_kind matches SchemaKind::Type(Type::Array(a)) ==> (a.items matches Some(item)
            ==> resolved_type(ReferenceOr::Item(Box::new(s))) == "Vec< "@ + resolved_type(item)
            + " >"@),
{
}

/// A schema given in place can be named when it is a string, a number, an
/// integer or a boolean, or an array whose items can be named; an object, an
/// array without items, or a schema that is not one plain type cannot.
pub proof fn law_nameable_schemas(s: Schema)
    ensures
        resolvable(ReferenceOr::Item(Box::new(s))) <==> (s.schema_kind matches SchemaKind::Type(t) && (
        t is String || t is Number || t is Integer || t is Boolean || (t matches Type::Array(a)
            && a.items matches Some(item) && resolvable(item)))),
{
}

/// A `$ref` can always be named: by the last segment of its path, given in
/// place or boxed.
pub proof fn law_reference_names(reference: String)
    ensures
        resolvable(ReferenceOr::Reference { reference }),
        resolved_type(ReferenceOr::Reference { reference }) == last_segment(reference@),
        resolved_type(boxed(ReferenceOr::<Schema>::Reference { reference })) == last_segment(
            reference@,
        ),
{
}

/// Each HTTP method of a converted path carries the conversion of the
/// operation of that same method, and a method absent from the path is
/// absent from the conversion.
pub proof fn law_path_methods(p: PathItem)
    ensures
        converted_path(p).post == converted_opt_operation(p.post),
        converted_path(p).get == converted_opt_operation(p.get),
        converted_path(p).put == converted_opt_operation(p.put),
        converted_path(p).patch == converted_opt_operation(p.patch),
        converted_path(p).delete == converted_opt_operation(p.delete),
        converted_path(p).post is Some <==> p.post is Some,
        converted_path(p).get is Some <==> p.get is Some,
        converted_path(p).put is Some <==> p.put is Some,
        converted_path(p).patch is Some <==> p.patch is Some,
        converted_path(p).delete is Some <==> p.delete is Some,
        p.post matches Some(op) ==> converted_path(p).post.unwrap().operation_id == opt_text(
            op.operation_id,
        ),
        p.get matches Some(op) ==> converted_path(p).get.unwrap().operation_id == opt_text(
            op.operation_id,
        ),
        p.put matches Some(op) ==> converted_path(p).put.unwrap().operation_id == opt_text(
            op.operation_id,
        ),
        p.patch matches Some(op) ==> converted_path(p).patch.unwrap().operation_id == opt_text(
            op.operation_id,
        ),
        p.delete matches Some(op) ==> converted_path(p).delete.unwrap().operation_id == opt_text(
            op.operation_id,
        ),
{
}

/// The body of a request given in place is its first media type that has a
/// schema, with the type that schema names; a request with no such media type,
/// or referred to by `$ref`, has no body.
pub proof fn law_request_body(r: ReferenceOr<RequestBody>)
    ensures
        r is Reference ==> converted_request(r) is None,
        r matches ReferenceOr::Item(req) ==> match converted_request(r) {
            Some(b) => exists|i: int|
                0 <= i < req.content.len() && (#[trigger] req.content@[i]).1.schema is Some
                    && b.media == req.content@[i].0@ && b.kind == resolved_type(
                    boxed(req.content@[i].1.schema.unwrap()),
                ) && forall|j: int| 0 <= j < i ==> req.content@[j].1.schema is None,
            None => forall|j: int| 0 <= j < req.content.len() ==> (#[trigger] req.content@[j]).1.schema is None,
        },
{
    if let ReferenceOr::Item(req) = r {
        lemma_first_media_schema(req.content@);
    }
}

/// `first_media_schema` finds the first media type with a schema.
proof fn lemma_first_media_schema(content: Seq<(String, MediaType)>)
    ensures
        match first_media_schema(content) {
            Some(found) => exists|i: int|
                0 <= i < content.len() && (#[trigger] content[i]).1.schema == Some(found.1)
                    && found.0 == content[i].0@ && forall|j: int| 0 <= j < i ==> content[j].1.schema is None,
            None => forall|j: int| 0 <= j < content.len() ==> (#[trigger] content[j]).1.schema is None,
        },
    decreases content.len(),
{
    if content.len() > 0 {
        let rest = content.drop_first();
        lemma_first_media_schema(rest);
        assert forall|j: int| 0 < j < content.len() implies #[trigger] content[j] == rest[j - 1] by {}
        if content[0].1.schema is None {
            match first_media_schema(rest) {
                Some(found) => {
                    let i = choose|i: int|
                        0 <= i < rest.len() && (#[trigger] rest[i]).1.schema == Some(found.1)
                            && found.0 == rest[i].0@ && forall|j: int| 0 <= j < i ==> rest[j].1.schema is None;
                    assert(content[i + 1] == rest[i]);
                    assert forall|j: int| 0 <= j < i + 1 implies content[j].1.schema is None by {
                        if j > 0 {
                            assert(content[j] == rest[j - 1]);
                        }
                    }
                },
                None => {},
            }
        }
    }
}

/// Whether a boxed schema can be named as a Rust type.
pub fn boxed_schema_resolvable(r: &ReferenceOr<Box<Schema>>) -> (b: bool)
    ensures
        b == resolvable(*r),
    decreases *r, 1nat,
{
    match r {
        ReferenceOr::Reference { .. } => true,
        ReferenceOr::Item(s) => schema_item_resolvable(&**s, Ghost(*r)),
    }
}

fn schema_item_resolvable(s: &Schema, Ghost(whole): Ghost<ReferenceOr<Box<Schema>>>) -> (b: bool)
    requires
        decreases_to!(whole => *s),
    ensures
        b == resolvable(ReferenceOr::Item(Box::new(*s))),
    decreases whole, 0nat,
{
    match &s.schema_kind {
        SchemaKind::Type(Type::Array(a)) => match &a.items {
            Some(item) => boxed_schema_resolvable(item),
            None => false,
        },
        SchemaKind::Type(Type::Object(_)) => false,
        SchemaKind::Type(_) => true,
        _ => false,
    }
}

/// Whether a schema can be named as a Rust type.
pub fn schema_resolvable(r: &ReferenceOr<Schema>) -> (b: bool)
    ensures
        b == resolvable(boxed(*r)),
{
    match r {
        ReferenceOr::Reference { .. } => true,
        ReferenceOr::Item(s) => {
            let ghost whole = ReferenceOr::Item(Box::new(*s));
            schema_item_resolvable(s, Ghost(whole))
        },
    }
}

/// Whether the schema of each parameter given in place can be named.
pub fn check_parameters(ps: &Vec<ReferenceOr<Parameter>>) -> (b: bool)
    ensures
        b == parameters_resolvable(ps@),
{
    let mut i: usize = 0;
    while i < ps.len()
        invariant
            i <= ps.len(),
            parameters_resolvable(ps@.take(i as int)),
        decreases ps.len() - i,
    {
        if let ReferenceOr::Item(p) = &ps[i] {
            let format = match p {
                Parameter::Query { parameter_data } => &parameter_data.format,
                Parameter::Header { parameter_data } => &parameter_data.format,
                Parameter::Path { parameter_data } => &parameter_data.format,
                Parameter::Cookie { parameter_data } => &parameter_data.format,
            };
            if let ParameterSchemaOrContent::Schema(s) = format {
                if !schema_resolvable(s) {
                    assert(ps@[i as int] == ps@[i as int]);
                    return false;
                }
            }
        }
        assert forall|j: int| 0 <= j < i + 1 implies match #[trigger] ps@.take(i + 1)[j] {
            ReferenceOr::Item(p) => match p.spec_parameter_data().format {
                ParameterSchemaOrContent::Schema(s) => resolvable(boxed(s)),
                _ => true,
            },
            _ => true,
        } by {
            if j < i {
                assert(ps@.take(i as int)[j] == ps@.take(i + 1)[j]);
            }
        }
        i = i + 1;
    }
    assert(ps@.take(ps.len() as int) =~= ps@);
    true
}

/// Whether every schema of the media types of `content` can be named.
pub fn check_content(content: &Vec<(String, MediaType)>) -> (b: bool)
    ensures
        b == content_resolvable(content@),
{
    let mut i: usize = 0;
    while i < content.len()
        invariant
            i <= content.len(),
            content_resolvable(content@.take(i as int)),
        decreases content.len() - i,
    {
        if let Some(s) = &content[i].1.schema {
            if !schema_resolvable(s) {
                assert(content@[i as int] == content@[i as int]);
                return false;
            }
        }
        assert forall|j: int| 0 <= j < i + 1 implies match (
        #[trigger] content@.take(i + 1)[j]).1.schema {
            Some(s) => resolvable(boxed(s)),
            None => true,
        } by {
            if j < i {
                assert(content@.take(i as int)[j] == content@.take(i + 1)[j]);
            }
        }
        i = i + 1;
    }
    assert(content@.take(content.len() as int) =~= content@);
    true
}

/// Whether the schema that names the body of a request can be named.
#[verifier::loop_isolation(false)]
pub fn check_request(r: &ReferenceOr<RequestBody>) -> (b: bool)
    ensures
        b == request_resolvable(*r),
{
    match r {
        ReferenceOr::Reference { .. } => true,
        ReferenceOr::Item(req) => {
            let mut i: usize = 0;
            proof {
                assert(req.content@.skip(0) =~= req.content@);
            }
            while i < req.content.len()
                invariant
                    i <= req.content.len(),
                    first_media_schema(req.content@) == first_media_schema(
                        req.content@.skip(i as int),
                    ),
                decreases req.content.len() - i,
            {
                if let Some(s) = &req.content[i].1.schema {
                    assert(req.content@.skip(i as int)[0] == req.content@[i as int]);
                    return schema_resolvable(s);
                }
                proof {
                    lemma_first_media_schema_skip(req.content@, i as int);
                }
                i = i + 1;
            }
            proof {
                assert(req.content@.skip(i as int) =~= Seq::<(String, MediaType)>::empty());
            }
            true
        },
    }
}

/// Whether every schema of every response given in place can be named.
pub fn check_responses(rs: &Vec<(StatusCode, ReferenceOr<Response>)>) -> (b: bool)
    ensures
        b == responses_resolvable(rs@),
{
    let mut i: usize = 0;
    while i < rs.len()
        invariant
            i <= rs.len(),
            forall|j: int| 0 <= j < i ==> response_resolvable(#[trigger] rs@[j].1),
        decreases rs.len() - i,
    {
        if let ReferenceOr::Item(resp) = &rs[i].1 {
            if !check_content(&resp.content) {
                assert(!response_resolvable(rs@[i as int].1));
                return false;
            }
        }
        i = i + 1;
    }
    true
}

/// Whether every schema that the conversion of an operation names can be named.
pub fn check_operation(o: &Option<Operation>) -> (b: bool)
    ensures
        b == opt_operation_resolvable(*o),
{
    match o {
        Some(op) => {
            let request_ok = match &op.request_body {
                Some(r) => check_request(r),
                None => true,
            };
            check_parameters(&op.parameters) && request_ok && check_responses(
                &op.responses.responses,
            )
        },
        None => true,
    }
}

/// Whether every schema that the conversion of a path names can be named.
pub fn check_path(p: &PathItem) -> (b: bool)
    ensures
        b == path_resolvable(*p),
{
    check_operation(&p.post) && check_operation(&p.get) && check_operation(&p.put)
        && check_operation(&p.patch) && check_operation(&p.delete)
}

/// Whether the schema of each property can be named.
pub fn check_properties(props: &Vec<(String, ReferenceOr<Box<Schema>>)>) -> (b: bool)
    ensures
        b == properties_resolvable(props@),
{
    let mut i: usize = 0;
    while i < props.len()
        invariant
            i <= props.len(),
            forall|j: int| 0 <= j < i ==> resolvable(#[trigger] props@[j].1),
        decreases props.len() - i,
    {
        if !boxed_schema_resolvable(&props[i].1) {
            return false;
        }
        i = i + 1;
    }
    true
}

/// Whether every schema that `OpenAPI::from` names can be named; the
/// conversion is defined exactly on the documents where this holds.
#[verifier::loop_isolation(false)]
pub fn is_resolvable(doc: &document::OpenAPI) -> (b: bool)
    ensures
        b == document_resolvable(*doc),
{
    let paths = &doc.paths.paths;
    let mut i: usize = 0;
    while i < paths.len()
        invariant
            i <= paths.len(),
            forall|j: int|
                0 <= j < i ==> ((#[trigger] paths@[j]).1 matches ReferenceOr::Item(p)
                    ==> path_resolvable(p)),
        decreases paths.len() - i,
    {
        if let ReferenceOr::Item(p) = &paths[i].1 {
            if !check_path(p) {
                assert(paths@[i as int].1 matches ReferenceOr::Item(q) && !path_resolvable(q));
                return false;
            }
        }
        i = i + 1;
    }
    match &doc.components {
        None => true,
        Some(c) => {
            let schemas = &c.schemas;
            let mut k: usize = 0;
            while k < schemas.len()
                invariant
                    k <= schemas.len(),
                    paths_resolvable(doc.paths.paths@),
                    forall|j: int|
                        0 <= j < k ==> match (#[trigger] schemas@[j]).1 {
                            ReferenceOr::Item(item) => match item.schema_kind {
                                SchemaKind::Type(Type::Object(object)) => properties_resolvable(
                                    object.properties@,
                                ),
                                _ => true,
                            },
                            ReferenceOr::Reference { .. } => true,
                        },
                decreases schemas.len() - k,
            {
                if let ReferenceOr::Item(item) = &schemas[k].1 {
                    if let SchemaKind::Type(Type::Object(object)) = &item.schema_kind {
                        if !check_properties(&object.properties) {
                            assert(schemas@[k as int] == schemas@[k as int]);
                            return false;
                        }
                    }
                }
                k = k + 1;
            }
            true
        },
    }
}

/// The text of a response code reads back as the code: a single code is its
/// number in decimal digits; a range is the decimal digits of its first digit
/// followed by `XX`.
pub proof fn law_code_text(c: StatusCode)
    ensures
        c matches StatusCode::Code(n) ==> decimal_value(code_text(c)) == n && code_text(c).len() > 0
            && forall|i: int|
            0 <= i < code_text(c).len() ==> '0' <= #[trigger] code_text(c)[i] <= '9',
        c matches StatusCode::Range(n) ==> code_text(c).len() >= 3 && code_text(c)[code_text(c).len()
            - 1] == 'X' && code_text(c)[code_text(c).len() - 2] == 'X' && decimal_value(
            code_text(c).subrange(0, code_text(c).len() - 2),
        ) == n && forall|i: int|
            0 <= i < code_text(c).len() - 2 ==> '0' <= #[trigger] code_text(c)[i] <= '9',
{
    reveal_strlit("XX");
    match c {
        StatusCode::Code(n) => {
            law_decimal_text(n as nat);
        },
        StatusCode::Range(n) => {
            law_decimal_text(n as nat);
            let d = decimal_text(n as nat);
            let t = code_text(c);
            assert(t.subrange(0, t.len() - 2) =~= d);
            assert forall|i: int| 0 <= i < t.len() - 2 implies '0' <= #[trigger] t[i] <= '9' by {
                assert(t[i] == d[i]);
            }
        },
    }
}

/// Under the code of a response, the body is its last media type that has a
/// schema, with the type that schema names; with no such media type the
/// entry under that code is what it was. Entries under other codes stay.
pub proof fn law_response_bodies(
    acc: Seq<(Seq<char>, BodyView)>,
    code: Seq<char>,
    content: Seq<(String, MediaType)>,
    other: Seq<char>,
)
    ensures
        other != code ==> lookup(response_bodies(acc, code, content), other) == lookup(acc, other),
        (forall|j: int| 0 <= j < content.len() ==> (#[trigger] content[j]).1.schema is None)
            ==> lookup(response_bodies(acc, code, content), code) == lookup(acc, code),
        forall|i: int|
            0 <= i < content.len() && (#[trigger] content[i]).1.schema is Some && (forall|j: int|
                i < j < content.len() ==> (#[trigger] content[j]).1.schema is None)
                ==> lookup(response_bodies(acc, code, content), code) == Some(
                BodyView {
                    kind: resolved_type(boxed(content[i].1.schema.unwrap())),
                    media: content[i].0@,
                },
            ),
    decreases content.len(),
{
    if content.len() > 0 {
        let init = content.drop_last();
        let last = content.len() - 1;
        law_response_bodies(acc, code, init, other);
        assert forall|j: int| 0 <= j < init.len() implies #[trigger] init[j] == content[j] by {}
        let before = response_bodies(acc, code, init);
        assert(content.last() == content[last]);
        match content.last().1.schema {
            Some(s) => {
                law_lookup_after_insert(
                    before,
                    code,
                    BodyView { kind: resolved_type(boxed(s)), media: content.last().0@ },
                    other,
                );
            },
            None => {
                assert forall|i: int|
                    0 <= i < content.len() && (#[trigger] content[i]).1.schema is Some && (forall|
                        j: int,
                    | i < j < content.len() ==> (#[trigger] content[j]).1.schema is None) implies lookup(
                    response_bodies(acc, code, content),
                    code,
                ) == Some(
                    BodyView {
                        kind: resolved_type(boxed(content[i].1.schema.unwrap())),
                        media: content[i].0@,
                    },
                ) by {
                    assert(i < last);
                    assert(init[i] == content[i]);
                    assert forall|j: int| i < j < init.len() implies (#[trigger] init[j]).1.schema is None by {
                        assert(init[j] == content[j]);
                    }
                }
                assert((forall|j: int| 0 <= j < content.len() ==> (#[trigger] content[j]).1.schema is None)
                    ==> (forall|j: int| 0 <= j < init.len() ==> (#[trigger] init[j]).1.schema is None));
            },
        }
    }
}

} // verus!
