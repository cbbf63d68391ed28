use hack_scraper::body::{check_body, check_nesting, MAX_BODY_BYTES, MAX_DEPTH};
use hack_scraper::error::ParseError;

#[test]
fn limits_are_as_documented() {
    assert_eq!(MAX_BODY_BYTES, (1u64 << 31) / 3);
    assert_eq!(MAX_DEPTH, 512);
}

#[test]
fn empty_body_is_refused() {
    assert_eq!(check_body(""), Err(ParseError::EmptyInput));
}

#[test]
fn any_other_body_of_moderate_size_is_taken() {
    assert_eq!(check_body(" "), Ok(()));
    assert_eq!(check_body("<html></html>"), Ok(()));
    assert_eq!(check_body("no markup at all"), Ok(()));
    assert_eq!(check_body(&"x".repeat(1 << 20)), Ok(()));
}

fn nested(levels: usize) -> String {
    format!("{}x{}", "<div>".repeat(levels), "</div>".repeat(levels))
}

#[test]
fn nesting_check_keeps_the_grounds_of_size() {
    assert_eq!(check_nesting(""), Err(ParseError::EmptyInput));
    assert_eq!(check_nesting(" "), Ok(()));
    assert_eq!(check_nesting("<p>x</p>"), Ok(()));
}

#[test]
fn nesting_is_counted_from_the_document_node() {
    // html, body, the divs and the text make up the chain below the document node
    assert_eq!(check_nesting(&nested(MAX_DEPTH - 3)), Ok(()));
    assert_eq!(check_nesting(&nested(MAX_DEPTH - 2)), Err(ParseError::TooDeep));
    assert_eq!(check_nesting(&"<div>".repeat(MAX_DEPTH - 2)), Ok(()));
    assert_eq!(check_nesting(&"<div>".repeat(MAX_DEPTH - 1)), Err(ParseError::TooDeep));
}

#[test]
fn wide_markup_is_not_deep() {
    let body = format!("<ul>{}</ul>", "<li><a href=\"/x\">x</a></li>".repeat(20_000));
    assert_eq!(check_nesting(&body), Ok(()));
}

#[test]
fn very_deep_markup_is_refused() {
    assert_eq!(check_nesting(&"<div>".repeat(8_000)), Err(ParseError::TooDeep));
    assert_eq!(check_nesting(&"<table><td>".repeat(2_000)), Err(ParseError::TooDeep));
    assert_eq!(check_nesting(&"<b><i>".repeat(2_000)), Err(ParseError::TooDeep));
}

#[test]
fn body_over_the_size_limit_is_refused() {
    let over = "x".repeat(MAX_BODY_BYTES as usize + 1);
    assert_eq!(check_body(&over), Err(ParseError::TooLarge));
    assert_eq!(check_nesting(&over), Err(ParseError::TooLarge));
}
