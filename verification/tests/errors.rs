//! The all-or-nothing error behavior: the first grammar mismatch aborts
//! the whole compilation, with a position and a description of what was
//! acceptable.

use avosetta::html;

#[test]
fn void_element_body_rejected() {
    // A void element has no body slot at all: a brace group after the
    // semicolon cannot start a node, so the grammar rejects it.
    let e = html(r#"br; { "x" }"#).unwrap_err();
    assert_eq!(e.pos, 2);
}

#[test]
fn unterminated_string_literal() {
    let e = html(r#""abc"#).unwrap_err();
    assert_eq!(e.pos, 4);
    assert!(e.expected.contains("quote"));
}

#[test]
fn unknown_string_escape() {
    let e = html(r#""a\q""#).unwrap_err();
    assert_eq!(e.pos, 3);
}

#[test]
fn missing_closing_brace() {
    assert!(html("div {").is_err());
}

#[test]
fn missing_body_after_attrs() {
    // A name with attributes but neither a brace nor a semicolon is not an
    // element, and the attribute bracket cannot start a node either.
    assert!(html("div[a]").is_err());
}

#[test]
fn unterminated_attribute_list() {
    assert!(html("div[ {}").is_err());
}

#[test]
fn interpolation_needs_expression() {
    assert!(html("div { @ }").is_err());
}

#[test]
fn match_arm_needs_group_or_literal() {
    assert!(html("@match x { 1 => div{} }").is_err());
}

#[test]
fn for_needs_in() {
    assert!(html("@for i of xs { }").is_err());
}

#[test]
fn stray_punctuation_rejected() {
    assert!(html("; div {}").is_err());
}

#[test]
fn first_error_aborts_no_partial_output() {
    // The template starts with valid static content; the later error still
    // means no program at all.
    assert!(html(r#"div { "ok" } span { ] }"#).is_err());
}
