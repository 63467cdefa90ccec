use guestbook::color::validate_color;
use guestbook::submission::{
    accept_submission, normalize_domain, parse_submission, Entry, ParseError, SubmitError,
};

#[test]
fn color_lowercase_token_kept() {
    assert_eq!(validate_color("#a1b2c3"), "#a1b2c3");
}

#[test]
fn color_uppercase_token_kept() {
    assert_eq!(validate_color("#ABCDEF"), "#ABCDEF");
}

#[test]
fn color_bad_digit_defaults() {
    assert_eq!(validate_color("#12345g"), "#000000");
}

#[test]
fn color_without_hash_defaults() {
    assert_eq!(validate_color("1234567"), "#000000");
}

#[test]
fn color_wrong_length_defaults() {
    assert_eq!(validate_color("#12345"), "#000000");
    assert_eq!(validate_color("#1234567"), "#000000");
    assert_eq!(validate_color(""), "#000000");
}

#[test]
fn domain_gets_scheme() {
    assert_eq!(normalize_domain("example.com"), "https://example.com");
}

#[test]
fn domain_with_scheme_unchanged() {
    assert_eq!(normalize_domain("https://example.com"), "https://example.com");
}

#[test]
fn domain_with_other_scheme_prefixed() {
    assert_eq!(normalize_domain("http://a.b"), "https://http://a.b");
    assert_eq!(normalize_domain(""), "https://");
}

#[test]
fn parse_full_body() {
    let s = parse_submission("color=#00ff00&name=Ann&domain=ann.dev&message=Hello there").unwrap();
    assert_eq!(s.color, "#00ff00");
    assert_eq!(s.name, "Ann");
    assert_eq!(s.domain, "https://ann.dev");
    assert_eq!(s.message, "Hello there");
}

#[test]
fn parse_sanitises_color() {
    let s = parse_submission("color=red!!!!&name=A&domain=&message=").unwrap();
    assert_eq!(s.color, "#000000");
    assert_eq!(s.name, "A");
    assert_eq!(s.domain, "https://");
    assert_eq!(s.message, "");
}

#[test]
fn parse_missing_color() {
    assert_eq!(
        parse_submission("colour=#000000&name=A&domain=b&message=c").err(),
        Some(ParseError::MissingColor)
    );
    assert_eq!(parse_submission("color=#00").err(), Some(ParseError::MissingColor));
}

#[test]
fn parse_missing_markers() {
    assert_eq!(
        parse_submission("color=#000000&domain=b&message=c").err(),
        Some(ParseError::MissingName)
    );
    assert_eq!(
        parse_submission("color=#000000&name=a&message=c").err(),
        Some(ParseError::MissingDomain)
    );
    assert_eq!(
        parse_submission("color=#000000&name=a&domain=b").err(),
        Some(ParseError::MissingMessage)
    );
}

#[test]
fn parse_out_of_order() {
    assert_eq!(
        parse_submission("color=#000000&domain=b&name=a&message=c").err(),
        Some(ParseError::OutOfOrder)
    );
}

#[test]
fn accept_decodes_percent_escapes() {
    let e: Entry =
        accept_submission("color=%23ff0000&name=Bob%20B&domain=bob.dev&message=Hi%21", 1700000000)
            .unwrap();
    assert_eq!(e.color, "#ff0000");
    assert_eq!(e.name, "Bob B");
    assert_eq!(e.domain, "https://bob.dev");
    assert_eq!(e.message, "Hi!");
    assert_eq!(e.time, 1700000000);
    assert!(e.public);
}

#[test]
fn accept_keeps_plus_sign() {
    let e = accept_submission("color=#123456&name=a+b&domain=x&message=y", 5).unwrap();
    assert_eq!(e.name, "a+b");
}

#[test]
fn accept_rejects_bad_utf8() {
    assert_eq!(
        accept_submission("color=%ff%fe&name=a&domain=b&message=c", 1).err(),
        Some(SubmitError::Undecodable)
    );
}

#[test]
fn accept_reports_malformed_body() {
    assert_eq!(
        accept_submission("name=a", 1).err(),
        Some(SubmitError::Malformed(ParseError::MissingColor))
    );
}
