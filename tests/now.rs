use django_rusty_templates::now::{NowError, NowLexer};
use django_rusty_templates::tag::TagParts;
use django_rusty_templates::types::TemplateString;

#[test]
fn test_lex_format_success() {
    let template = r#"{% now "Y-m-d" %}"#;
    let parts = TagParts { at: (7, 7) };
    let mut lexer = NowLexer::new(TemplateString(template), parts);
    assert_eq!(lexer.lex_format().unwrap(), (7, 7));
}

#[test]
fn test_lex_format_incomplete_string() {
    let template = r#"{% now "Y-m-d %}"#;
    let parts = TagParts { at: (7, 6) };
    let mut lexer = NowLexer::new(TemplateString(template), parts);
    assert_eq!(lexer.lex_format().unwrap(), (7, 6));
}

#[test]
fn test_lex_format_missing() {
    let template = r#"{% now %}"#;
    let parts = TagParts { at: (7, 0) };
    let mut lexer = NowLexer::new(TemplateString(template), parts);
    assert!(matches!(
        lexer.lex_format(),
        Err(NowError::MissingFormat { .. })
    ));
}

#[test]
fn test_lex_variable_as_success() {
    let template = r#"{% now "Y" as current_year %}"#;
    let parts = TagParts { at: (7, 19) };
    let mut lexer = NowLexer::new(TemplateString(template), parts);
    lexer.lex_format().unwrap();
    assert_eq!(lexer.lex_variable().unwrap(), Some((14, 12)));
}

#[test]
fn test_lex_variable_missing_after_as() {
    let template = r#"{% now "Y" as %}"#;
    let parts = TagParts { at: (7, 6) };
    let mut lexer = NowLexer::new(TemplateString(template), parts);
    lexer.lex_format().unwrap();
    assert!(matches!(
        lexer.lex_variable(),
        Err(NowError::MissingVariableAfterAs { .. })
    ));
}

#[test]
fn test_lex_extra_token_error() {
    let template = r#"{% now "Y" as x y %}"#;
    let parts = TagParts { at: (7, 10) };
    let mut lexer = NowLexer::new(TemplateString(template), parts);
    lexer.lex_format().unwrap();
    lexer.lex_variable().unwrap();
    assert!(matches!(
        lexer.extra_token(),
        Err(NowError::UnexpectedAfterVariable { .. })
    ));
}

#[test]
fn test_lex_format_invalid_remainder() {
    let template = r#"{% now "Y"invalid %}"#;
    let parts = TagParts { at: (7, 10) };
    let mut lexer = NowLexer::new(TemplateString(template), parts);
    // "Y" is (7, 3), invalid starts at 10.
    // next_element should return everything from start_of_tag (7) to end of junk.
    assert_eq!(lexer.lex_format().unwrap(), (7, 10));
}

#[test]
fn test_lex_format_incomplete_translated_string() {
    let template = r#"{% now _("Y") %}"#;
    let parts = TagParts { at: (7, 5) }; // _("Y"
    let mut lexer = NowLexer::new(TemplateString(template), parts);
    assert_eq!(lexer.lex_format().unwrap(), (7, 5));
}

#[test]
fn test_lex_format_missing_translated_string() {
    let template = r#"{% now _() %}"#;
    let parts = TagParts { at: (7, 3) }; // _()
    let mut lexer = NowLexer::new(TemplateString(template), parts);
    assert_eq!(lexer.lex_format().unwrap(), (7, 3));
}

#[test]
fn test_lex_variable_none() {
    let template = r#"{% now "Y" %}"#;
    let parts = TagParts { at: (7, 3) };
    let mut lexer = NowLexer::new(TemplateString(template), parts);
    lexer.lex_format().unwrap();
    assert_eq!(lexer.lex_variable().unwrap(), None);
}

#[test]
fn test_lex_variable_unexpected_after_format() {
    let template = r#"{% now "Y" "junk" %}"#;
    let parts = TagParts { at: (7, 10) };
    let mut lexer = NowLexer::new(TemplateString(template), parts);
    lexer.lex_format().unwrap();
    assert!(matches!(
        lexer.lex_variable(),
        Err(NowError::UnexpectedAfterFormat { .. })
    ));
}

#[test]
fn test_extra_token_none() {
    let template = r#"{% now "Y" as var %}"#;
    let parts = TagParts { at: (7, 10) };
    let mut lexer = NowLexer::new(TemplateString(template), parts);
    lexer.lex_format().unwrap();
    lexer.lex_variable().unwrap();
    assert_eq!(lexer.extra_token().unwrap(), None);
}

