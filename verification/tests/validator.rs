use esp_sensor::line_proto::{validate_str, Error};
use esp_sensor::sink::SinkError;

#[test]
fn leading_underscore_is_refused() {
    assert_eq!(validate_str("_"), Err(Error::StartsWithUnderscore));
    assert_eq!(validate_str("_bad"), Err(Error::StartsWithUnderscore));
    assert_eq!(validate_str("__x"), Err(Error::StartsWithUnderscore));
}

#[test]
fn newline_is_refused() {
    assert_eq!(validate_str("\n"), Err(Error::ContainsNewline));
    assert_eq!(validate_str("a\nb"), Err(Error::ContainsNewline));
    assert_eq!(validate_str("ab\n"), Err(Error::ContainsNewline));
}

#[test]
fn quote_is_refused() {
    assert_eq!(validate_str("\""), Err(Error::ContainsQuotes));
    assert_eq!(validate_str("say \"hi\""), Err(Error::ContainsQuotes));
}

#[test]
fn other_strings_pass() {
    assert_eq!(validate_str(""), Ok(()));
    assert_eq!(validate_str("dht22"), Ok(()));
    assert_eq!(validate_str("living room #1"), Ok(()));
    assert_eq!(validate_str("a_b"), Ok(()));
    assert_eq!(validate_str("b_"), Ok(()));
    assert_eq!(validate_str("a,b=c"), Ok(()));
    assert_eq!(validate_str("caf\u{e9} \u{1F321}"), Ok(()));
    assert_eq!(validate_str("it's"), Ok(()));
}

#[test]
fn first_broken_rule_decides() {
    assert_eq!(validate_str("_a\nb"), Err(Error::StartsWithUnderscore));
    assert_eq!(validate_str("_a\"b"), Err(Error::StartsWithUnderscore));
    assert_eq!(validate_str("a\"b\nc"), Err(Error::ContainsNewline));
    assert_eq!(validate_str("a\nb\"c"), Err(Error::ContainsNewline));
}

#[test]
fn errors_have_words() {
    assert_eq!(Error::StartsWithUnderscore.message(), "value starts with underscore");
    assert_eq!(Error::ContainsNewline.message(), "value contains new line");
    assert_eq!(Error::ContainsQuotes.message(), "value contains quotes");
    assert_eq!(Error::Write(SinkError::Full).message(), "sink is full");
}
