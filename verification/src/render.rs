//! The filters that templates apply to text: case conversions, done by the
//! `convert_case` crate, and wrapping a type name in `Vec<..>`.
use convert_case::{Case, Casing};
use vstd::prelude::*;

verus! {

/// The error of a template engine, carried through as it is.
#[verifier::external_type_specification]
#[verifier::external_body]
pub struct ExTeraError(tera::Error);

/// What can go wrong when rendering: the engine fails, or a filter is given
/// something it cannot work on.
#[derive(Debug)]
pub enum RenderError {
    Render(tera::Error),
    FilterError(String),
}

impl From<tera::Error> for RenderError {
    fn from(value: tera::Error) -> (r: Self) {
        RenderError::Render(value)
    }
}

impl vstd::std_specs::convert::FromSpecImpl<tera::Error> for RenderError {
    open spec fn obeys_from_spec() -> bool {
        true
    }

    open spec fn from_spec(value: tera::Error) -> Self {
        RenderError::Render(value)
    }
}

/// The cases that the filters convert text into.
#[derive(Clone, Copy, Debug, PartialEq, Eq)]
pub enum TextCase {
    Upper,
    Pascal,
    Snake,
    Camel,
}

/// The text that the `convert_case` crate makes of `text` in `case`.
pub uninterp spec fn case_converted(text: Seq<char>, case: TextCase) -> Seq<char>;

/// Calls `Casing::to_case` of the `convert_case` crate with the case of the
/// same name; its result is named, not described.
#[verifier::external_body]
fn to_case(text: &str, case: TextCase) -> (r: String)
    ensures
        r@ == case_converted(text@, case),
{
    let case = match case {
        TextCase::Upper => Case::Upper,
        TextCase::Pascal => Case::Pascal,
        TextCase::Snake => Case::Snake,
        TextCase::Camel => Case::Camel,
    };
    text.to_case(case)
}

/// The message of a filter given a value that is not text.
pub open spec fn not_a_string() -> Seq<char> {
    "Value is not a string"@
}

/// Whether `r` is the error a filter gives for a value that is not text.
pub open spec fn is_not_a_string_error(r: RenderError) -> bool {
    r matches RenderError::FilterError(m) && m@ == not_a_string()
}

fn not_a_string_error() -> (e: RenderError)
    ensures
        is_not_a_string_error(e),
{
    RenderError::FilterError(String::from_str("Value is not a string"))
}

/// The result of a filter that converts text into `case`.
pub open spec fn case_filter_result(value: Option<&str>, case: TextCase, r: Result<String, RenderError>) -> bool {
    match value {
        Some(t) => r matches Ok(s) && s@ == case_converted(t@, case),
        None => r matches Err(e) && is_not_a_string_error(e),
    }
}

fn case_filter(value: Option<&str>, case: TextCase) -> (r: Result<String, RenderError>)
    ensures
        case_filter_result(value, case, r),
{
    match value {
        Some(text) => Ok(to_case(text, case)),
        None => Err(not_a_string_error()),
    }
}

/// The text given, as the type of a list of it: `Vec<text>`.
pub fn as_list(value: Option<&str>) -> (r: Result<String, RenderError>)
    ensures
        match value {
            Some(t) => r matches Ok(s) && s@ == "Vec<"@ + t@ + ">"@,
            None => r matches Err(e) && is_not_a_string_error(e),
        },
{
    match value {
        Some(text) => {
            let mut s = String::from_str("Vec<");
            s.append(text);
            s.append(">");
            Ok(s)
        },
        None => Err(not_a_string_error()),
    }
}

/// The text given, in upper case.
pub fn upper(value: Option<&str>) -> (r: Result<String, RenderError>)
    ensures
        case_filter_result(value, TextCase::Upper, r),
{
    case_filter(value, TextCase::Upper)
}

/// The text given, in Pascal case.
pub fn pascal(value: Option<&str>) -> (r: Result<String, RenderError>)
    ensures
        case_filter_result(value, TextCase::Pascal, r),
{
    case_filter(value, TextCase::Pascal)
}

/// The text given, in snake case.
pub fn snake(value: Option<&str>) -> (r: Result<String, RenderError>)
    ensures
        case_filter_result(value, TextCase::Snake, r),
{
    case_filter(value, TextCase::Snake)
}

/// The text given, in camel case.
pub fn camel(value: Option<&str>) -> (r: Result<String, RenderError>)
    ensures
        case_filter_result(value, TextCase::Camel, r),
{
    case_filter(value, TextCase::Camel)
}

/// The text given (none is taken as empty), in Pascal case.
pub fn pascal_case(value: Option<&str>) -> (r: String)
    ensures
        r@ == case_converted(text_or_empty(value), TextCase::Pascal),
{
    proof {
        reveal_strlit("");
    }
    let text = match value {
        Some(t) => t,
        None => "",
    };
    assert(text@ == text_or_empty(value));
    to_case(text, TextCase::Pascal)
}

/// The text given (none is taken as empty), in snake case.
pub fn snake_case(value: Option<&str>) -> (r: String)
    ensures
        r@ == case_converted(text_or_empty(value), TextCase::Snake),
{
    proof {
        reveal_strlit("");
    }
    let text = match value {
        Some(t) => t,
        None => "",
    };
    assert(text@ == text_or_empty(value));
    to_case(text, TextCase::Snake)
}

/// The text given (none is taken as empty), in camel case.
pub fn camel_case(value: Option<&str>) -> (r: String)
    ensures
        r@ == case_converted(text_or_empty(value), TextCase::Camel),
{
    proof {
        reveal_strlit("");
    }
    let text = match value {
        Some(t) => t,
        None => "",
    };
    assert(text@ == text_or_empty(value));
    to_case(text, TextCase::Camel)
}

/// The text given, or the empty text.
pub open spec fn text_or_empty(value: Option<&str>) -> Seq<char> {
    match value {
        Some(t) => t@,
        None => Seq::empty(),
    }
}

} // verus!
