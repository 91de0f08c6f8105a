//! A short outline of an OpenAPI document for templates: the operation id of
//! each operation of each path, and for each object schema a model whose
//! properties carry a Rust type, wrapped in `Option<..>` when not required.
use crate::document::{
    self, NumberType, Operation, PathItem, ReferenceOr, Schema, SchemaKind, Type,
    VariantOrUnknownOrEmpty,
};
use crate::entries::{
    insert_entry, law_lookup_after_insert, lookup, insert_model, insert_outline_path, insert_text, lemma_insert_entry_map,
    map_entry_values, model_entries, new_model_map, new_outline_path_map, new_text_map,
    outline_path_entries, text_entries,
};
use crate::schema::{is_object_schema, names_distinct, opt_text, string_type_name, ModelView, OpenAPIModel};
use crate::text::{last_path_segment, last_segment, text_eq};
use indexmap::IndexMap;
use vstd::prelude::*;

verus! {

/// Conversion that may find nothing to convert.
pub trait MaybeFrom<T>: Sized {
    fn maybe_from(value: T) -> Option<Self>;
}

/// An operation of the outline: its id.
#[derive(Clone, Debug)]
pub struct OpenAPIOperation {
    pub operation_id: String,
}

impl View for OpenAPIOperation {
    type V = Seq<char>;

    open spec fn view(&self) -> Seq<char> {
        self.operation_id@
    }
}

/// The operations of one path that have an id, by HTTP method.
#[derive(Clone, Debug)]
pub struct OpenAPIPath {
    pub post: Option<OpenAPIOperation>,
    pub get: Option<OpenAPIOperation>,
    pub put: Option<OpenAPIOperation>,
    pub patch: Option<OpenAPIOperation>,
    pub delete: Option<OpenAPIOperation>,
}

/// The operation ids of one path, by HTTP method.
pub struct OutlinePathView {
    pub post: Option<Seq<char>>,
    pub get: Option<Seq<char>>,
    pub put: Option<Seq<char>>,
    pub patch: Option<Seq<char>>,
    pub delete: Option<Seq<char>>,
}

pub open spec fn opt_id(o: Option<OpenAPIOperation>) -> Option<Seq<char>> {
    match o {
        Some(op) => Some(op@),
        None => None,
    }
}

impl View for OpenAPIPath {
    type V = OutlinePathView;

    open spec fn view(&self) -> OutlinePathView {
        OutlinePathView {
            post: opt_id(self.post),
            get: opt_id(self.get),
            put: opt_id(self.put),
            patch: opt_id(self.patch),
            delete: opt_id(self.delete),
        }
    }
}

/// The outline of a document: its paths and its models.
#[derive(Debug)]
pub struct OpenAPI {
    pub paths: IndexMap<String, OpenAPIPath>,
    pub models: IndexMap<String, OpenAPIModel>,
}

/// The outline of a document by view.
pub struct OutlineView {
    pub paths: Seq<(Seq<char>, OutlinePathView)>,
    pub models: Seq<(Seq<char>, ModelView)>,
}

impl View for OpenAPI {
    type V = OutlineView;

    open spec fn view(&self) -> OutlineView {
        OutlineView {
            paths: map_entry_values(outline_path_entries(self.paths), |p: OpenAPIPath| p@),
            models: map_entry_values(model_entries(self.models), |m: OpenAPIModel| m@),
        }
    }
}

/// The id of an operation that may be absent, when it has one.
pub open spec fn operation_id_of(o: Option<Operation>) -> Option<Seq<char>> {
    match o {
        Some(op) => opt_text(op.operation_id),
        None => None,
    }
}

impl MaybeFrom<Operation> for OpenAPIOperation {
    /// The operation of the outline, when the operation has an id.
    fn maybe_from(value: Operation) -> (r: Option<Self>)
        ensures
            opt_id(r) == opt_text(value.operation_id),
    {
        if let Some(operation_id) = value.operation_id {
            return Some(OpenAPIOperation { operation_id });
        }
        None
    }
}

fn id_of(o: Option<Operation>) -> (r: Option<OpenAPIOperation>)
    ensures
        opt_id(r) == operation_id_of(o),
{
    match o {
        Some(op) => OpenAPIOperation::maybe_from(op),
        None => None,
    }
}

/// The operation ids of a path, by HTTP method.
pub open spec fn outline_path(p: PathItem) -> OutlinePathView {
    OutlinePathView {
        post: operation_id_of(p.post),
        get: operation_id_of(p.get),
        put: operation_id_of(p.put),
        patch: operation_id_of(p.patch),
        delete: operation_id_of(p.delete),
    }
}

impl OpenAPIPath {
    /// The operations of a path that have an id.
    pub fn from(value: PathItem) -> (r: Self)
        ensures
            r@ == outline_path(value),
    {
        OpenAPIPath {
            post: id_of(value.post),
            get: id_of(value.get),
            put: id_of(value.put),
            patch: id_of(value.patch),
            delete: id_of(value.delete),
        }
    }

    /// The operations that are present, each with its HTTP method, in the
    /// order post, get, put, patch, delete.
    pub fn into_iter(self) -> (r: Vec<(&'static str, OpenAPIOperation)>)
        ensures
            r@.map_values(|e: (&'static str, OpenAPIOperation)| (e.0@, e.1@)) == present_operations(
                self@,
            ),
    {
        let mut out: Vec<(&'static str, OpenAPIOperation)> = Vec::new();
        let ghost v = self@;
        if let Some(op) = self.post {
            out.push(("post", op));
        }
        let ghost s1 = out@;
        if let Some(op) = self.get {
            out.push(("get", op));
        }
        let ghost s2 = out@;
        if let Some(op) = self.put {
            out.push(("put", op));
        }
        let ghost s3 = out@;
        if let Some(op) = self.patch {
            out.push(("patch", op));
        }
        let ghost s4 = out@;
        if let Some(op) = self.delete {
            out.push(("delete", op));
        }
        assert(out@.map_values(|e: (&'static str, OpenAPIOperation)| (e.0@, e.1@))
            =~= present_operations(v));
        out
    }
}

/// The method of an operation that may be absent, with its id, as a list of
/// zero or one entries.
pub open spec fn present(method: Seq<char>, id: Option<Seq<char>>) -> Seq<(Seq<char>, Seq<char>)> {
    match id {
        Some(i) => seq![(method, i)],
        None => Seq::empty(),
    }
}

/// The operations of a path that are present, with their method, in the order
/// post, get, put, patch, delete.
pub open spec fn present_operations(p: OutlinePathView) -> Seq<(Seq<char>, Seq<char>)> {
    present("post"@, p.post) + present("get"@, p.get) + present("put"@, p.put) + present(
        "patch"@,
        p.patch,
    ) + present("delete"@, p.delete)
}

/// The Rust type that a property of a model names, if any: the last segment of
/// a `$ref`, or the type of a plain schema; `None` for a combined schema.
pub open spec fn property_kind(r: ReferenceOr<Box<Schema>>) -> Option<Seq<char>> {
    match r {
        ReferenceOr::Reference { reference } => Some(last_segment(reference@)),
        ReferenceOr::Item(property) => match property.schema_kind {
            SchemaKind::Type(t) => Some(
                match t {
                    Type::String(s) => string_type_name(s.format),
                    Type::Number(n) => number_type_name(n),
                    Type::Integer => "i64"@,
                    Type::Array(a) => "Vec<"@ + match a.items {
                        Some(ReferenceOr::Reference { reference }) => last_segment(reference@),
                        _ => Seq::empty(),
                    } + ">"@,
                    Type::Boolean => "bool"@,
                    Type::Object(_) => "Value"@,
                },
            ),
            _ => None,
        },
    }
}

/// A number with a standard format (float or double) is a float; any other is an integer.
pub open spec fn number_type_name(n: NumberType) -> Seq<char> {
    match n.format {
        VariantOrUnknownOrEmpty::Item(_) => "f64"@,
        _ => "i64"@,
    }
}

/// Whether `key` is among the names of `required`.
pub open spec fn is_required(required: Seq<String>, key: Seq<char>) -> bool {
    exists|i: int| 0 <= i < required.len() && (#[trigger] required[i])@ == key
}

/// The type a property is declared with: its type when required, else that
/// type in `Option<..>`.
pub open spec fn declared_type(kind: Seq<char>, required: bool) -> Seq<char> {
    if required {
        kind
    } else {
        "Option<"@ + kind + ">"@
    }
}

/// The declared type of each property that names a type, by property name, in order.
pub open spec fn outline_properties(
    props: Seq<(String, ReferenceOr<Box<Schema>>)>,
    required: Seq<String>,
) -> Seq<(Seq<char>, Seq<char>)>
    decreases props.len(),
{
    if props.len() == 0 {
        Seq::empty()
    } else {
        let before = outline_properties(props.drop_last(), required);
        match property_kind(props.last().1) {
            Some(kind) => insert_entry(
                before,
                props.last().0@,
                declared_type(kind, is_required(required, props.last().0@)),
            ),
            None => before,
        }
    }
}

/// The model of an object schema; other schemas have none.
pub open spec fn outline_model(s: Schema) -> Option<ModelView> {
    match s.schema_kind {
        SchemaKind::Type(Type::Object(o)) => Some(
            ModelView {
                description: opt_text(s.schema_data.description),
                properties: outline_properties(o.properties@, o.required@),
            },
        ),
        _ => None,
    }
}

/// Each property of an outline model that names a type is declared with it,
/// wrapped in `Option<..>` exactly when the property is not required; one that
/// names no type is left out.
pub proof fn law_declared_property_type(
    props: Seq<(String, ReferenceOr<Box<Schema>>)>,
    required: Seq<String>,
    i: int,
)
    requires
        names_distinct(props),
        0 <= i < props.len(),
    ensures
        lookup(outline_properties(props, required), props[i].0@) == match property_kind(
            props[i].1,
        ) {
            Some(kind) => Some(
                if exists|j: int| 0 <= j < required.len() && (#[trigger] required[j])@ == props[i].0@ {
                    kind
                } else {
                    "Option<"@ + kind + ">"@
                },
            ),
            None => None,
        },
    decreases props.len(),
{
    let init = props.drop_last();
    let k = props[i].0@;
    let before = outline_properties(init, required);
    if let Some(kind) = property_kind(props.last().1) {
        law_lookup_after_insert(
            before,
            props.last().0@,
            declared_type(kind, is_required(required, props.last().0@)),
            k,
        );
    }
    if i < props.len() - 1 {
        assert forall|a: int, b: int|
            0 <= a < init.len() && 0 <= b < init.len() && a != b implies (#[trigger] init[a]).0@
            != (#[trigger] init[b]).0@ by {
            assert(init[a] == props[a]);
            assert(init[b] == props[b]);
        }
        assert(init[i] == props[i]);
        law_declared_property_type(init, required, i);
    } else {
        if property_kind(props.last().1) is None {
            lemma_key_absent(init, required, k);
        }
    }
}

/// A name held by no property is in no outline model.
proof fn lemma_key_absent(
    props: Seq<(String, ReferenceOr<Box<Schema>>)>,
    required: Seq<String>,
    k: Seq<char>,
)
    requires
        forall|j: int| 0 <= j < props.len() ==> (#[trigger] props[j]).0@ != k,
    ensures
        lookup(outline_properties(props, required), k) is None,
    decreases props.len(),
{
    if props.len() > 0 {
        let init = props.drop_last();
        assert forall|j: int| 0 <= j < init.len() implies (#[trigger] init[j]).0@ != k by {
            assert(init[j] == props[j]);
        }
        lemma_key_absent(init, required, k);
        if let Some(kind) = property_kind(props.last().1) {
            law_lookup_after_insert(
                outline_properties(init, required),
                props.last().0@,
                declared_type(kind, is_required(required, props.last().0@)),
                k,
            );
        }
    }
}

/// The type a property of an outline model names: a `$ref` the last segment
/// of its path; a string `String`, but `uuid::Uuid` exactly when its format
/// is the text `uuid`; a number with a standard format (float or double)
/// `f64` and any other number `i64`; an integer `i64`; a boolean `bool`; an
/// object `Value`; an array `Vec<..>` around the last segment of its items'
/// `$ref` (empty for items given in place); a combined schema names none.
pub proof fn law_property_kinds(r: ReferenceOr<Box<Schema>>)
    ensures
        r matches ReferenceOr::Reference { reference } ==> property_kind(r) == Some(
            last_segment(reference@),
        ),
        r matches ReferenceOr::Item(s) ==> match s.schema_kind {
            SchemaKind::Type(Type::String(st)) => property_kind(r) == Some(
                if st.format matches VariantOrUnknownOrEmpty::Unknown(f) && f@ == "uuid"@ {
                    "uuid::Uuid"@
                } else {
                    "String"@
                },
            ),
            SchemaKind::Type(Type::Number(n)) => property_kind(r) == Some(
                if n.format is Item {
                    "f64"@
                } else {
                    "i64"@
                },
            ),
            SchemaKind::Type(Type::Integer) => property_kind(r) == Some("i64"@),
            SchemaKind::Type(Type::Boolean) => property_kind(r) == Some("bool"@),
            SchemaKind::Type(Type::Object(_)) => property_kind(r) == Some("Value"@),
            SchemaKind::Type(Type::Array(a)) => property_kind(r) == Some(
                "Vec<"@ + match a.items {
                    Some(ReferenceOr::Reference { reference }) => last_segment(reference@),
                    _ => Seq::empty(),
                } + ">"@,
            ),
            _ => property_kind(r) is None,
        },
{
}

/// In the outline each HTTP method of a path carries the id of the input's
/// operation of that same method, when it has one; a method absent from the
/// input is absent from the outline.
pub proof fn law_outline_path_methods(p: PathItem)
    ensures
        outline_path(p).post == match p.post {
            Some(op) => opt_text(op.operation_id),
            None => None,
        },
        outline_path(p).get == match p.get {
            Some(op) => opt_text(op.operation_id),
            None => None,
        },
        outline_path(p).put == match p.put {
            Some(op) => opt_text(op.operation_id),
            None => None,
        },
        outline_path(p).patch == match p.patch {
            Some(op) => opt_text(op.operation_id),
            None => None,
        },
        outline_path(p).delete == match p.delete {
            Some(op) => opt_text(op.operation_id),
            None => None,
        },
{
}

/// The operations listed for a path are those present, each once under its
/// own method: one entry per method that has an operation, in the order
/// post, get, put, patch, delete.
pub proof fn law_present_operations(v: OutlinePathView)
    ensures
        present_operations(v).len() == (if v.post is Some { 1int } else { 0int }) + (if v.get is Some {
            1int
        } else {
            0int
        }) + (if v.put is Some { 1int } else { 0int }) + (if v.patch is Some { 1int } else { 0int })
            + (if v.delete is Some { 1int } else { 0int }),
        v.post matches Some(id) ==> present_operations(v)[0] == ("post"@, id),
        v.get matches Some(id) ==> present_operations(v).contains(("get"@, id)),
        v.put matches Some(id) ==> present_operations(v).contains(("put"@, id)),
        v.patch matches Some(id) ==> present_operations(v).contains(("patch"@, id)),
        v.delete matches Some(id) ==> present_operations(v).last() == ("delete"@, id),
        forall|i: int|
            0 <= i < present_operations(v).len() ==> {
                let e = #[trigger] present_operations(v)[i];
                ||| e.0 == "post"@ && v.post == Some(e.1)
                ||| e.0 == "get"@ && v.get == Some(e.1)
                ||| e.0 == "put"@ && v.put == Some(e.1)
                ||| e.0 == "patch"@ && v.patch == Some(e.1)
                ||| e.0 == "delete"@ && v.delete == Some(e.1)
            },
{
    let a = present("post"@, v.post);
    let b = present("get"@, v.get);
    let c = present("put"@, v.put);
    let d = present("patch"@, v.patch);
    let e = present("delete"@, v.delete);
    let all = a + b + c + d + e;
    assert(present_operations(v) == all);
    if let Some(id) = v.get {
        assert(all[a.len() as int] == ("get"@, id));
    }
    if let Some(id) = v.put {
        assert(all[(a.len() + b.len()) as int] == ("put"@, id));
    }
    if let Some(id) = v.patch {
        assert(all[(a.len() + b.len() + c.len()) as int] == ("patch"@, id));
    }
    assert forall|i: int| 0 <= i < all.len() implies {
        let x = #[trigger] all[i];
        ||| x.0 == "post"@ && v.post == Some(x.1)
        ||| x.0 == "get"@ && v.get == Some(x.1)
        ||| x.0 == "put"@ && v.put == Some(x.1)
        ||| x.0 == "patch"@ && v.patch == Some(x.1)
        ||| x.0 == "delete"@ && v.delete == Some(x.1)
    } by {
        if i < a.len() {
            assert(all[i] == a[i]);
        } else if i < a.len() + b.len() {
            assert(all[i] == b[i - a.len()]);
        } else if i < a.len() + b.len() + c.len() {
            assert(all[i] == c[i - a.len() - b.len()]);
        } else if i < a.len() + b.len() + c.len() + d.len() {
            assert(all[i] == d[i - a.len() - b.len() - c.len()]);
        } else {
            assert(all[i] == e[i - a.len() - b.len() - c.len() - d.len()]);
        }
    }
}

fn required_contains(required: &Vec<String>, key: &String) -> (b: bool)
    ensures
        b == is_required(required@, key@),
{
    let mut i: usize = 0;
    while i < required.len()
        invariant
            i <= required.len(),
            forall|j: int| 0 <= j < i ==> (#[trigger] required@[j])@ != key@,
        decreases required.len() - i,
    {
        if text_eq(required[i].as_str(), key.as_str()) {
            return true;
        }
        i = i + 1;
    }
    false
}

fn property_kind_of(r: ReferenceOr<Box<Schema>>) -> (kind: Option<String>)
    ensures
        match kind {
            Some(k) => property_kind(r) == Some(k@),
            None => property_kind(r) is None,
        },
{
    match r {
        ReferenceOr::Reference { reference } => Some(last_path_segment(reference.as_str())),
        ReferenceOr::Item(property) => {
            let property = *property;
            if let SchemaKind::Type(property_kind) = property.schema_kind {
                Some(
                    match property_kind {
                        Type::String(s) => match s.format {
                            VariantOrUnknownOrEmpty::Unknown(format) => {
                                if text_eq(format.as_str(), "uuid") {
                                    String::from_str("uuid::Uuid")
                                } else {
                                    String::from_str("String")
                                }
                            },
                            _ => String::from_str("String"),
                        },
                        Type::Number(number_type) => match number_type.format {
                            VariantOrUnknownOrEmpty::Item(_) => String::from_str("f64"),
                            _ => String::from_str("i64"),
                        },
                        Type::Integer => String::from_str("i64"),
                        Type::Array(array_type) => {
                            let mut builder = String::from_str("Vec<");
                            if let Some(ReferenceOr::Reference { reference }) = array_type.items {
                                let kind = last_path_segment(reference.as_str());
                                builder.append(kind.as_str());
                            }
                            builder.append(">");
                            builder
                        },
                        Type::Boolean => String::from_str("bool"),
                        _ => String::from_str("Value"),
                    },
                )
            } else {
                None
            }
        },
    }
}

impl MaybeFrom<Schema> for OpenAPIModel {
    /// The model of an object schema: its description and the declared type of
    /// each property that names a type; other schemas give none.
    fn maybe_from(value: Schema) -> (r: Option<Self>)
        ensures
            match r {
                Some(m) => outline_model(value) == Some(m@),
                None => outline_model(value) is None,
            },
    {
        match value.schema_kind {
            SchemaKind::Type(Type::Object(object_type)) => {
                let mut properties = new_text_map();
                let required = object_type.required;
                let ghost all = object_type.properties@;
                for entry in it: object_type.properties.into_iter()
                    invariant
                        it.seq() == all,
                        text_entries(properties) == outline_properties(
                            all.take(it.index() as int),
                            required@,
                        ),
                {
                    let ghost i = it.index() as int;
                    proof {
                        assert(all.take(i + 1).drop_last() =~= all.take(i));
                        assert(all.take(i + 1).last() == all[i]);
                    }
                    let (key, ref_or_property) = entry;
                    let kind = property_kind_of(ref_or_property);
                    if let Some(kind) = kind {
                        let mut builder = String::new();
                        let is_required = required_contains(&required, &key);
                        if !is_required {
                            builder.append("Option<");
                        }
                        builder.append(kind.as_str());
                        if !is_required {
                            builder.append(">");
                        }
                        proof {
                            assert(builder@ =~= declared_type(kind@, is_required));
                        }
                        insert_text(&mut properties, key, builder);
                    }
                }
                proof {
                    assert(all.take(all.len() as int) =~= all);
                }
                Some(OpenAPIModel { description: value.schema_data.description, properties })
            },
            _ => None,
        }
    }
}

/// The paths given in place, each with the ids of its operations, in order.
pub open spec fn outline_paths(ps: Seq<(String, ReferenceOr<PathItem>)>) -> Seq<
    (Seq<char>, OutlinePathView),
>
    decreases ps.len(),
{
    if ps.len() == 0 {
        Seq::empty()
    } else {
        let before = outline_paths(ps.drop_last());
        match ps.last().1 {
            ReferenceOr::Item(p) => insert_entry(before, ps.last().0@, outline_path(p)),
            ReferenceOr::Reference { .. } => before,
        }
    }
}

/// The model of each object schema given in place, by schema name, in order.
pub open spec fn outline_models(schemas: Seq<(String, ReferenceOr<Schema>)>) -> Seq<
    (Seq<char>, ModelView),
>
    decreases schemas.len(),
{
    if schemas.len() == 0 {
        Seq::empty()
    } else {
        let before = outline_models(schemas.drop_last());
        match schemas.last().1 {
            ReferenceOr::Item(s) => match outline_model(s) {
                Some(m) => insert_entry(before, schemas.last().0@, m),
                None => before,
            },
            ReferenceOr::Reference { .. } => before,
        }
    }
}

/// Every object schema given in place has a model in the outline, under its
/// name, and nothing else has.
pub proof fn law_outline_models_are_object_schemas(
    schemas: Seq<(String, ReferenceOr<Schema>)>,
    k: Seq<char>,
)
    ensures
        lookup(outline_models(schemas), k) is Some <==> exists|i: int|
            0 <= i < schemas.len() && (#[trigger] schemas[i]).0@ == k && is_object_schema(
                schemas[i].1,
            ),
    decreases schemas.len(),
{
    if schemas.len() > 0 {
        let init = schemas.drop_last();
        law_outline_models_are_object_schemas(init, k);
        assert forall|i: int| 0 <= i < init.len() implies #[trigger] init[i] == schemas[i] by {}
        if let ReferenceOr::Item(s) = schemas.last().1 {
            if let Some(m) = outline_model(s) {
                law_lookup_after_insert(outline_models(init), schemas.last().0@, m, k);
            }
        }
        if exists|i: int|
            0 <= i < schemas.len() && (#[trigger] schemas[i]).0@ == k && is_object_schema(
                schemas[i].1,
            ) {
            let i = choose|i: int|
                0 <= i < schemas.len() && (#[trigger] schemas[i]).0@ == k && is_object_schema(
                    schemas[i].1,
                );
            if i < init.len() {
                assert(init[i] == schemas[i]);
            }
        }
    }
}

/// The outline of a document.
pub open spec fn outline_document(d: document::OpenAPI) -> OutlineView {
    OutlineView {
        paths: outline_paths(d.paths.paths@),
        models: match d.components {
            Some(c) => outline_models(c.schemas@),
            None => Seq::empty(),
        },
    }
}

impl OpenAPI {
    /// The outline of a document.
    pub fn from(value: document::OpenAPI) -> (r: Self)
        ensures
            r@ == outline_document(value),
    {
        let mut paths = new_outline_path_map();
        let mut models = new_model_map();
        let ghost all = value.paths.paths@;
        proof {
            assert(map_entry_values(outline_path_entries(paths), |p: OpenAPIPath| p@)
                =~= Seq::empty());
            assert(map_entry_values(model_entries(models), |m: OpenAPIModel| m@) =~= Seq::empty());
        }
        for entry in it: value.paths.paths.into_iter()
            invariant
                it.seq() == all,
                map_entry_values(outline_path_entries(paths), |p: OpenAPIPath| p@) == outline_paths(
                    all.take(it.index() as int),
                ),
        {
            let ghost i = it.index() as int;
            proof {
                assert(all.take(i + 1).drop_last() =~= all.take(i));
                assert(all.take(i + 1).last() == all[i]);
            }
            let (endpoint, ref_or_path_item) = entry;
            if let ReferenceOr::Item(path_item) = ref_or_path_item {
                let ghost before = outline_path_entries(paths);
                let ghost key = endpoint@;
                let path = OpenAPIPath::from(path_item);
                insert_outline_path(&mut paths, endpoint, path);
                proof {
                    lemma_insert_entry_map(before, key, path, |p: OpenAPIPath| p@);
                }
            }
        }
        proof {
            assert(all.take(all.len() as int) =~= all);
        }
        if let Some(components) = value.components {
            let ghost schemas = components.schemas@;
            for entry in jt: components.schemas.into_iter()
                invariant
                    jt.seq() == schemas,
                    map_entry_values(model_entries(models), |m: OpenAPIModel| m@) == outline_models(
                        schemas.take(jt.index() as int),
                    ),
            {
                let ghost j = jt.index() as int;
                proof {
                    assert(schemas.take(j + 1).drop_last() =~= schemas.take(j));
                    assert(schemas.take(j + 1).last() == schemas[j]);
                }
                let (key, ref_or_schema) = entry;
                if let ReferenceOr::Item(schema) = ref_or_schema {
                    if let Some(model) = OpenAPIModel::maybe_from(schema) {
                        let ghost before = model_entries(models);
                        let ghost k = key@;
                        insert_model(&mut models, key, model);
                        proof {
                            lemma_insert_entry_map(before, k, model, |m: OpenAPIModel| m@);
                        }
                    }
                }
            }
            proof {
                assert(schemas.take(schemas.len() as int) =~= schemas);
            }
        }
        OpenAPI { paths, models }
    }
}

} // verus!
