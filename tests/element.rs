use django_rusty_templates::comment::CommentLexer;
use django_rusty_templates::common::LexerError;
use django_rusty_templates::element::{TagElementLexer, TagElementToken, TagElementTokenType};
use django_rusty_templates::tag::TagParts;
use django_rusty_templates::types::TemplateString;

fn collect(mut lexer: TagElementLexer) -> Vec<Result<TagElementToken, LexerError>> {
    let mut tokens = Vec::new();
    while let Some(token) = lexer.next() {
        tokens.push(token);
    }
    tokens
}

#[test]
fn test_lex_text() {
    let template = "{% url 'foo' %}";
    let parts = TagParts { at: (7, 5) };
    let lexer = TagElementLexer::new(TemplateString(template), parts);
    let tokens = collect(lexer);
    let name = TagElementToken {
        at: (7, 5),
        token_type: TagElementTokenType::Text,
    };
    assert_eq!(tokens, vec![Ok(name)]);
}

#[test]
fn test_lex_text_double_quotes() {
    let template = "{% url \"foo\" %}";
    let parts = TagParts { at: (7, 5) };
    let lexer = TagElementLexer::new(TemplateString(template), parts);
    let tokens = collect(lexer);
    let name = TagElementToken {
        at: (7, 5),
        token_type: TagElementTokenType::Text,
    };
    assert_eq!(tokens, vec![Ok(name)]);
}

#[test]
fn test_lex_text_incomplete() {
    let template = "{% url 'foo %}";
    let parts = TagParts { at: (7, 4) };
    let mut lexer = TagElementLexer::new(TemplateString(template), parts);
    let error = lexer.next().unwrap().unwrap_err();
    assert_eq!(error, LexerError::IncompleteString { at: (7, 4) });
}

#[test]
fn test_lex_variable() {
    let template = "{% url foo %}";
    let parts = TagParts { at: (7, 3) };
    let lexer = TagElementLexer::new(TemplateString(template), parts);
    let tokens = collect(lexer);
    let name = TagElementToken {
        at: (7, 3),
        token_type: TagElementTokenType::Variable,
    };
    assert_eq!(tokens, vec![Ok(name)]);
}

#[test]
fn test_lex_filter() {
    let template = "{% url foo|default:'home' %}";
    let parts = TagParts { at: (7, 18) };
    let lexer = TagElementLexer::new(TemplateString(template), parts);
    let tokens = collect(lexer);
    let name = TagElementToken {
        at: (7, 18),
        token_type: TagElementTokenType::Variable,
    };
    assert_eq!(tokens, vec![Ok(name)]);
}

#[test]
fn test_lex_filter_inner_double_quote() {
    let template = "{% url foo|default:'home\"' %}";
    let parts = TagParts { at: (7, 19) };
    let lexer = TagElementLexer::new(TemplateString(template), parts);
    let tokens = collect(lexer);
    let name = TagElementToken {
        at: (7, 19),
        token_type: TagElementTokenType::Variable,
    };
    assert_eq!(tokens, vec![Ok(name)]);
}

#[test]
fn test_lex_filter_inner_single_quote() {
    let template = "{% url foo|default:\"home'\" %}";
    let parts = TagParts { at: (7, 19) };
    let lexer = TagElementLexer::new(TemplateString(template), parts);
    let tokens = collect(lexer);
    let name = TagElementToken {
        at: (7, 19),
        token_type: TagElementTokenType::Variable,
    };
    assert_eq!(tokens, vec![Ok(name)]);
}

#[test]
fn test_lex_filter_inner_whitespace() {
    let template = "{% url foo|default:'home url' %}";
    let parts = TagParts { at: (7, 22) };
    let lexer = TagElementLexer::new(TemplateString(template), parts);
    let tokens = collect(lexer);
    let name = TagElementToken {
        at: (7, 22),
        token_type: TagElementTokenType::Variable,
    };
    assert_eq!(tokens, vec![Ok(name)]);
}

#[test]
fn test_lex_leading_underscore() {
    let template = "{% url _foo %}";
    let parts = TagParts { at: (7, 4) };
    let lexer = TagElementLexer::new(TemplateString(template), parts);
    let tokens = collect(lexer);
    let name = TagElementToken {
        at: (7, 4),
        token_type: TagElementTokenType::Variable,
    };
    assert_eq!(tokens, vec![Ok(name)]);
}

#[test]
fn test_lex_translated() {
    let template = "{% url _('foo') %}";
    let parts = TagParts { at: (7, 8) };
    let lexer = TagElementLexer::new(TemplateString(template), parts);
    let tokens = collect(lexer);
    let name = TagElementToken {
        at: (7, 8),
        token_type: TagElementTokenType::TranslatedText,
    };
    assert_eq!(tokens, vec![Ok(name)]);
}

#[test]
fn test_lex_translated_incomplete() {
    let template = "{% url _('foo' %}";
    let parts = TagParts { at: (7, 7) };
    let mut lexer = TagElementLexer::new(TemplateString(template), parts);
    let error = lexer.next().unwrap().unwrap_err();
    assert_eq!(
        error,
        LexerError::IncompleteTranslatedString { at: (7, 7) }
    );
}

#[test]
fn test_lex_numeric() {
    let template = "{% url 5 %}";
    let parts = TagParts { at: (7, 1) };
    let lexer = TagElementLexer::new(TemplateString(template), parts);
    let tokens = collect(lexer);
    let name = TagElementToken {
        at: (7, 1),
        token_type: TagElementTokenType::Numeric,
    };
    assert_eq!(tokens, vec![Ok(name)]);
}

#[test]
fn test_lex_multiple_tokens() {
    let template = "{% url 'home' next %}";
    let parts = TagParts { at: (7, 11) };
    let lexer = TagElementLexer::new(TemplateString(template), parts);
    let tokens = collect(lexer);
    let home = TagElementToken {
        at: (7, 6),
        token_type: TagElementTokenType::Text,
    };
    let next = TagElementToken {
        at: (14, 4),
        token_type: TagElementTokenType::Variable,
    };
    assert_eq!(tokens, vec![Ok(home), Ok(next)]);
}

#[test]
fn test_lex_incomplete_kwarg() {
    let template = "{% url name= %}";
    let parts = TagParts { at: (7, 5) };
    let mut lexer = TagElementLexer::new(TemplateString(template), parts);
    let error = lexer.next().unwrap().unwrap_err();
    assert_eq!(error, LexerError::InvalidRemainder { at: (11, 1) });
}

#[test]
fn test_lex_incomplete_kwarg_args() {
    let template = "{% url name= foo %}";
    let parts = TagParts { at: (7, 9) };
    let mut lexer = TagElementLexer::new(TemplateString(template), parts);
    let error = lexer.next().unwrap().unwrap_err();
    assert_eq!(error, LexerError::InvalidRemainder { at: (11, 1) });
}

#[test]
fn test_lex_invalid_remainder() {
    let template = "{% url 'foo'remainder %}";
    let parts = TagParts { at: (7, 14) };
    let mut lexer = TagElementLexer::new(TemplateString(template), parts);
    let error = lexer.next().unwrap().unwrap_err();
    assert_eq!(error, LexerError::InvalidRemainder { at: (12, 9) });
}

#[test]
fn test_empty_comment() {
    let template = "{% comment %}{% endcomment %}";
    let parts = TagParts { at: (12, 0) };
    let mut lexer = CommentLexer::new(TemplateString(template), parts);
    assert!(lexer.next().is_none());
}

#[test]
fn test_comment_with_args() {
    let template = "{% comment \"note\" word %}";
    // "quote" (6) + space (1) + word (4) = 11
    let parts = TagParts { at: (11, 11) };
    let mut lexer = CommentLexer::new(TemplateString(template), parts);
    let mut tokens = Vec::new();
    while let Some(token) = lexer.next() {
        tokens.push(token.unwrap());
    }
    assert_eq!(tokens.len(), 2);
}

#[test]
fn translated_without_string_is_missing() {
    let template = "{% url _() %}";
    let parts = TagParts { at: (7, 3) };
    let mut lexer = TagElementLexer::new(TemplateString(template), parts);
    let error = lexer.next().unwrap().unwrap_err();
    assert_eq!(error, LexerError::MissingTranslatedString { at: (7, 3) });
}

#[test]
fn unterminated_string_spans_to_end_of_arguments() {
    let template = "{% url 'foo %}";
    let parts = TagParts { at: (7, 4) };
    let mut lexer = TagElementLexer::new(TemplateString(template), parts);
    assert_eq!(
        lexer.next(),
        Some(Err(LexerError::IncompleteString { at: (7, 4) }))
    );
    assert_eq!(lexer.next(), None);
}

#[test]
fn multibyte_whitespace_separates_elements() {
    let template = "{% url a\u{3000}b %}";
    let parts = TagParts { at: (7, 5) };
    let lexer = TagElementLexer::new(TemplateString(template), parts);
    let tokens = collect(lexer);
    let a = TagElementToken { at: (7, 1), token_type: TagElementTokenType::Variable };
    let b = TagElementToken { at: (11, 1), token_type: TagElementTokenType::Variable };
    assert_eq!(tokens, vec![Ok(a), Ok(b)]);
}
