//! Generating code from the arguments that a generator is called with: a
//! reference `"<project>:<template>"` written as a string literal, or a
//! handlebars template with the text of an OpenAPI document.
use crate::document::{parse_document, parsed_document};
use crate::workspace::{read_reference, Reference, ReferenceError};
use handlebars::Handlebars;
use vstd::prelude::*;

verus! {

/// The value of `input` read by the `syn` crate as one Rust string literal;
/// `None` when it is not one.
pub uninterp spec fn string_literal_value(input: Seq<char>) -> Option<Seq<char>>;

/// Calls `syn::parse_str::<syn::LitStr>` on `input` and then `LitStr::value`;
/// the value is named, not described.
#[verifier::external_body]
fn parse_string_literal(input: &str) -> (r: Option<String>)
    ensures
        match r {
            Some(v) => string_literal_value(input@) == Some(v@),
            None => string_literal_value(input@) is None,
        },
{
    syn::parse_str::<syn::LitStr>(input).ok().map(|literal| literal.value())
}

/// Why the argument of a generator does not name a template.
#[derive(Clone, Copy, Debug, PartialEq, Eq)]
pub enum LiteralReferenceError {
    NotAStringLiteral,
    Reference(ReferenceError),
}

/// Reads the argument of a generator: a string literal whose value is a
/// reference `<project>:<template>`.
pub fn reference_from_literal(input: &str) -> (r: Result<Reference, LiteralReferenceError>)
    ensures
        match string_literal_value(input@) {
            None => r == Err::<Reference, _>(LiteralReferenceError::NotAStringLiteral),
            Some(v) => match read_reference(v) {
                Ok((p, t)) => r matches Ok(reference) && reference.project@ == p
                    && reference.template@ == t,
                Err(e) => r == Err::<Reference, _>(LiteralReferenceError::Reference(e)),
            },
        },
{
    match parse_string_literal(input) {
        None => Err(LiteralReferenceError::NotAStringLiteral),
        Some(value) => match Reference::parse(value.as_str()) {
            Ok(reference) => Ok(reference),
            Err(e) => Err(LiteralReferenceError::Reference(e)),
        },
    }
}

/// What the `handlebars` crate renders of `template` with the document that
/// `schema_text` reads as (by `serde_yml`, as an `openapiv3::OpenAPI`);
/// `None` when the text does not read as one or the template does not render.
pub uninterp spec fn rendered_template(template: Seq<char>, schema_text: Seq<char>) -> Option<
    Seq<char>,
>;

/// Calls `serde_yml::from_str` to read `schema_text` as an
/// `openapiv3::OpenAPI`, and `Handlebars::render_template` of a new registry
/// with `template` and that document; the text is named, not described.
#[verifier::external_body]
fn render_template_with_schema(template: &str, schema_text: &str) -> (r: Option<String>)
    ensures
        match r {
            Some(s) => rendered_template(template@, schema_text@) == Some(s@),
            None => rendered_template(template@, schema_text@) is None,
        },
{
    let schema: openapiv3::OpenAPI = serde_yml::from_str(schema_text).ok()?;
    Handlebars::new().render_template(template, &schema).ok()
}

/// Why a template file could not be rendered with a schema file.
#[derive(Clone, Copy, Debug, PartialEq, Eq)]
pub enum FileTemplateError {
    InvalidSchema,
    RenderFailed,
}

/// Renders the handlebars template `content` with the OpenAPI document that
/// `schema_text` holds: a text that is no document is refused first, then a
/// template that does not render.
pub fn parse(content: &str, schema_text: &str) -> (r: Result<String, FileTemplateError>)
    ensures
        match parsed_document(schema_text@) {
            None => r == Err::<String, _>(FileTemplateError::InvalidSchema),
            Some(_) => match rendered_template(content@, schema_text@) {
                Some(s) => r matches Ok(out) && out@ == s,
                None => r == Err::<String, _>(FileTemplateError::RenderFailed),
            },
        },
{
    if parse_document(schema_text).is_err() {
        return Err(FileTemplateError::InvalidSchema);
    }
    match render_template_with_schema(content, schema_text) {
        Some(output) => Ok(output),
        None => Err(FileTemplateError::RenderFailed),
    }
}

/// The file a generator reads its schema from when it is given none.
pub fn schema_file_or_default(schema: Option<String>) -> (r: String)
    ensures
        r@ == match schema {
            Some(s) => s@,
            None => "openapi.yaml"@,
        },
{
    match schema {
        Some(s) => s,
        None => String::from_str("openapi.yaml"),
    }
}

} // verus!
