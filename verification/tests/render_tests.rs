use openapi_kit::render::{as_list, camel, camel_case, pascal, pascal_case, snake, snake_case, upper, RenderError};

fn is_not_a_string(r: Result<String, RenderError>) -> bool {
    matches!(r, Err(RenderError::FilterError(m)) if m == "Value is not a string")
}

#[test]
fn as_list_wraps_in_vec() {
    assert_eq!(as_list(Some("Pet")).unwrap(), "Vec<Pet>");
    assert!(is_not_a_string(as_list(None)));
}

#[test]
fn case_filters_convert() {
    assert_eq!(upper(Some("hello world")).unwrap(), "HELLO WORLD");
    assert_eq!(pascal(Some("hello_world")).unwrap(), "HelloWorld");
    assert_eq!(snake(Some("HelloWorld")).unwrap(), "hello_world");
    assert_eq!(camel(Some("hello world")).unwrap(), "helloWorld");
}

#[test]
fn case_filters_refuse_values_that_are_not_text() {
    assert!(is_not_a_string(upper(None)));
    assert!(is_not_a_string(pascal(None)));
    assert!(is_not_a_string(snake(None)));
    assert!(is_not_a_string(camel(None)));
}

#[test]
fn lenient_case_filters() {
    assert_eq!(pascal_case(Some("list_pets")), "ListPets");
    assert_eq!(snake_case(Some("listPets")), "list_pets");
    assert_eq!(camel_case(Some("list-pets")), "listPets");
    assert_eq!(pascal_case(None), "");
    assert_eq!(snake_case(None), "");
    assert_eq!(camel_case(None), "");
}

#[test]
fn engine_errors_become_render_errors() {
    let e: RenderError = tera::Error::msg("boom").into();
    assert!(matches!(e, RenderError::Render(_)));
}
