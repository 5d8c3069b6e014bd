use boppo_core::{LanguageTag, LanguageTagParseError};
use std::str::FromStr;

#[test]
fn valid_tags_are_allowed() {
    assert!(LanguageTag::new("en-US").is_some());
    assert!(LanguageTag::new("pt-BR").is_some());
}

#[test]
fn case_conversion() {
    assert_eq!(LanguageTag::new("en-us").unwrap().as_string(), "en-US");
    assert_eq!(LanguageTag::new("EN-us").unwrap().as_string(), "en-US");
    assert_eq!(LanguageTag::new("EN-US").unwrap().as_string(), "en-US");
    assert_eq!(LanguageTag::new("en-US").unwrap().as_string(), "en-US");
}

#[test]
fn invalid_tags_are_refused() {
    assert!(LanguageTag::new("en_US").is_none());
    assert!(LanguageTag::new("enUS").is_none());
    assert!(LanguageTag::new("en-USA").is_none());
    assert!(LanguageTag::new("e1-US").is_none());
    assert!(LanguageTag::new("é-US").is_none());
    assert!(LanguageTag::new("").is_none());
    assert_eq!(LanguageTag::from_str("xx"), Err(LanguageTagParseError));
    assert_eq!(LanguageTag::from_str("pt-br"), Ok(LanguageTag::portuguese()));
}

#[test]
fn named_tags() {
    assert_eq!(LanguageTag::english().as_bytes(), *b"en-US");
    assert_eq!(LanguageTag::portuguese().as_string(), "pt-BR");
    assert_eq!(LanguageTag::new("EN-us"), Some(LanguageTag::english()));
    let t = LanguageTag::new("Pt-bR").unwrap();
    assert_eq!(LanguageTag::new(&t.as_string()), Some(t));
}
