use openapi_kit::text::{decimal_string, find_char, last_path_segment, text_eq};

#[test]
fn last_segment_of_reference() {
    assert_eq!(last_path_segment("#/components/schemas/Pet"), "Pet");
}

#[test]
fn last_segment_without_slash() {
    assert_eq!(last_path_segment("Pet"), "Pet");
}

#[test]
fn last_segment_after_trailing_slash_is_empty() {
    assert_eq!(last_path_segment("a/b/"), "");
    assert_eq!(last_path_segment(""), "");
}

#[test]
fn last_segment_of_non_ascii_text() {
    assert_eq!(last_path_segment("#/schemas/Größe"), "Größe");
}

#[test]
fn decimal_strings() {
    assert_eq!(decimal_string(0), "0");
    assert_eq!(decimal_string(7), "7");
    assert_eq!(decimal_string(200), "200");
    assert_eq!(decimal_string(404), "404");
    assert_eq!(decimal_string(65535), "65535");
}

#[test]
fn text_equality() {
    assert!(text_eq("uuid", "uuid"));
    assert!(!text_eq("uuid", "uuid4"));
    assert!(!text_eq("uuid", "UUID"));
    assert!(text_eq("", ""));
}

#[test]
fn first_char_position() {
    assert_eq!(find_char("api:models", ':'), Some(3));
    assert_eq!(find_char("a:b:c", ':'), Some(1));
    assert_eq!(find_char("api", ':'), None);
}
