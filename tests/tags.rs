use django_rusty_templates::lorem_text::{paragraphs, sentence, sentence_from, words, words_from, COMMON_P};
use django_rusty_templates::block::{lex_block, BlockLexerError, BlockToken, BlockType};
use django_rusty_templates::common::LexerError;
use django_rusty_templates::cycle::{lex_cycle, CycleError};
use django_rusty_templates::element::TagElementTokenType;
use django_rusty_templates::inclusion::{
    IncludeLexer, IncludeLexerError, IncludeTemplateToken, IncludeTemplateTokenType,
};
use django_rusty_templates::kwarg::{SimpleTagLexer, SimpleTagToken};
use django_rusty_templates::lorem::{lex_lorem, LoremError, LoremMethod, LoremToken};
use django_rusty_templates::nodes::{ForVariable, ForVariableName, Text, TranslatedText};
use django_rusty_templates::render::render_comment;
use django_rusty_templates::tag::TagParts;
use django_rusty_templates::types::{TemplateString, Variable};

#[test]
fn test_render_comment() {
    assert_eq!(render_comment(), "");
}

#[test]
fn block_with_name() {
    let template = "{% block content %}";
    let parts = TagParts { at: (9, 7) };
    assert_eq!(
        lex_block(TemplateString(template), parts, BlockType::Start),
        Ok(Some(BlockToken { at: (9, 7) }))
    );
}

#[test]
fn block_without_name() {
    let template = "{% endblock %}";
    let parts = TagParts { at: (12, 0) };
    assert_eq!(lex_block(TemplateString(template), parts, BlockType::End), Ok(None));
}

#[test]
fn block_with_extra_arguments() {
    let template = "{% endblock content extra more %}";
    let parts = TagParts { at: (12, 18) };
    assert_eq!(
        lex_block(TemplateString(template), parts, BlockType::End),
        Err(BlockLexerError::UnexpectedArguments { name: "endblock", at: (20, 10) })
    );
}

#[test]
fn lorem_defaults() {
    let template = "{% lorem %}";
    let parts = TagParts { at: (9, 0) };
    assert_eq!(
        lex_lorem(TemplateString(template), parts),
        Ok(LoremToken { at: (9, 0), count_at: None, method: LoremMethod::Blocks, common: true })
    );
}

#[test]
fn lorem_method_only() {
    let template = "{% lorem w %}";
    let parts = TagParts { at: (9, 1) };
    assert_eq!(
        lex_lorem(TemplateString(template), parts),
        Ok(LoremToken { at: (9, 1), count_at: None, method: LoremMethod::Words, common: true })
    );
}

#[test]
fn lorem_all_slots() {
    let template = "{% lorem 3 p random %}";
    let parts = TagParts { at: (9, 10) };
    assert_eq!(
        lex_lorem(TemplateString(template), parts),
        Ok(LoremToken {
            at: (9, 10),
            count_at: Some((9, 1)),
            method: LoremMethod::Paragraphs,
            common: false
        })
    );
}

#[test]
fn lorem_duplicates() {
    let template = "{% lorem 3 w p %}";
    let parts = TagParts { at: (9, 5) };
    assert_eq!(
        lex_lorem(TemplateString(template), parts),
        Err(LoremError::DuplicateMethod { first: (11, 1), second: (13, 1) })
    );
    let template = "{% lorem 3 random random %}";
    let parts = TagParts { at: (9, 15) };
    assert_eq!(
        lex_lorem(TemplateString(template), parts),
        Err(LoremError::DuplicateRandom { first: (11, 6), second: (18, 6) })
    );
    let template = "{% lorem 3 4 %}";
    let parts = TagParts { at: (9, 3) };
    assert_eq!(
        lex_lorem(TemplateString(template), parts),
        Err(LoremError::DuplicateCount { first: (9, 1), second: (11, 1) })
    );
}

#[test]
fn lorem_count_after_method() {
    let template = "{% lorem w 3 %}";
    let parts = TagParts { at: (9, 3) };
    assert_eq!(
        lex_lorem(TemplateString(template), parts),
        Err(LoremError::CountAfterMethodOrRandom { at: (11, 1) })
    );
}

#[test]
fn cycle_values_named_silent() {
    let template = "{% cycle 'a' b as name silent %}";
    let parts = TagParts { at: (9, 20) };
    let token = lex_cycle(TemplateString(template), parts).unwrap();
    assert_eq!(token.expressions, vec![(9, 3), (13, 1)]);
    assert_eq!(token.name, Some((18, 4)));
    assert!(token.silent);
}

#[test]
fn cycle_errors() {
    let template = "{% cycle %}";
    assert_eq!(
        lex_cycle(TemplateString(template), TagParts { at: (9, 0) }),
        Err(CycleError::TooFewArguments { at: (9, 0) })
    );
    let template = "{% cycle a as %}";
    assert_eq!(
        lex_cycle(TemplateString(template), TagParts { at: (9, 4) }),
        Err(CycleError::MissingAsName { at: (11, 2) })
    );
    let template = "{% cycle a as n loud %}";
    assert_eq!(
        lex_cycle(TemplateString(template), TagParts { at: (9, 11) }),
        Err(CycleError::InvalidFlag { flag: "loud".to_string(), at: (16, 4) })
    );
    let template = "{% cycle 'a %}";
    assert_eq!(
        lex_cycle(TemplateString(template), TagParts { at: (9, 2) }),
        Err(CycleError::LexerError(LexerError::IncompleteString { at: (9, 2) }))
    );
}

#[test]
fn inclusion_template_names() {
    let template = "{% include 'a.html' %}";
    let mut lexer = IncludeLexer::new(TemplateString(template), TagParts { at: (11, 8) });
    let token = lexer.lex_template().unwrap().unwrap();
    assert_eq!(
        token,
        IncludeTemplateToken { at: (11, 8), token_type: IncludeTemplateTokenType::Text }
    );
    assert_eq!(token.content_at(), (12, 6));
    let template = "{% include 5 %}";
    let mut lexer = IncludeLexer::new(TemplateString(template), TagParts { at: (11, 1) });
    assert_eq!(
        lexer.lex_template(),
        Err(IncludeLexerError::InvalidTemplateName { at: (11, 1) })
    );
    let template = "{% include name=x %}";
    let mut lexer = IncludeLexer::new(TemplateString(template), TagParts { at: (11, 6) });
    assert_eq!(
        lexer.lex_template(),
        Err(IncludeLexerError::UnexpectedKeywordArgument { at: (11, 4) })
    );
    let template = "{% include %}";
    let mut lexer = IncludeLexer::new(TemplateString(template), TagParts { at: (11, 0) });
    assert_eq!(lexer.lex_template(), Ok(None));
}

#[test]
fn keyword_arguments() {
    let template = "{% x a k='v' n= %}";
    let mut lexer = SimpleTagLexer::new(TemplateString(template), TagParts { at: (5, 10) });
    assert_eq!(
        lexer.next(),
        Some(Ok(SimpleTagToken { at: (5, 1), token_type: TagElementTokenType::Variable, kwarg: None }))
    );
    assert_eq!(
        lexer.next(),
        Some(Ok(SimpleTagToken { at: (9, 3), token_type: TagElementTokenType::Text, kwarg: Some((7, 1)) }))
    );
    assert_eq!(lexer.next(), Some(Err(LexerError::InvalidRemainder { at: (15, 0) })));
    assert_eq!(lexer.next(), None);
}

#[test]
fn variable_parts() {
    let template = "{{ foo.bar.baz }}";
    let variable = Variable::new((3, 11));
    let mut parts = variable.parts(TemplateString(template));
    assert_eq!(parts.next(), Some(("foo", (3, 3))));
    assert_eq!(parts.next(), Some(("bar", (7, 3))));
    assert_eq!(parts.next(), Some(("baz", (11, 3))));
    assert_eq!(parts.next(), None);
}

#[test]
fn node_constructors() {
    assert_eq!(Text::new((1, 2)).at, (1, 2));
    assert_eq!(TranslatedText::new((3, 4)).at, (3, 4));
    let v = ForVariable { variant: ForVariableName::Counter, parent_count: 0 };
    assert_eq!(v.variant, ForVariableName::Counter);
}

#[test]
fn lorem_paragraphs() {
    let paras = paragraphs(3, true);
    assert_eq!(paras.len(), 3);
    assert_eq!(paras[0], COMMON_P);
    for p in &paras[1..] {
        assert!(p.ends_with('.') || p.ends_with('?'));
        assert!(p.chars().next().unwrap().is_ascii_uppercase());
    }
    let paras = paragraphs(2, false);
    assert_eq!(paras.len(), 2);
    assert_ne!(paras[0], COMMON_P);
    assert!(paragraphs(0, true).is_empty());
    let s = sentence();
    assert!(s.ends_with('.') || s.ends_with('?'));
    let words = s.split([' ', ',']).filter(|w| !w.is_empty()).count();
    assert!((3..=60).contains(&words));
}

#[test]
fn lorem_random_alone() {
    let template = "{% lorem random %}";
    assert_eq!(
        lex_lorem(TemplateString(template), TagParts { at: (9, 6) }),
        Ok(LoremToken { at: (9, 6), count_at: None, method: LoremMethod::Blocks, common: false })
    );
}

#[test]
fn cycle_needs_a_value_before_as() {
    let template = "{% cycle as x %}";
    assert_eq!(
        lex_cycle(TemplateString(template), TagParts { at: (9, 4) }),
        Err(CycleError::TooFewArguments { at: (9, 4) })
    );
}

#[test]
fn lorem_words() {
    assert_eq!(words(3, true), "lorem ipsum dolor");
    assert_eq!(words(0, true), "");
    let many = words(25, true);
    assert!(many.starts_with("lorem ipsum dolor sit amet"));
    assert_eq!(many.split(' ').count(), 25);
    assert_eq!(words(7, false).split(' ').count(), 7);
}

#[test]
fn lorem_assembled_from_draws() {
    assert_eq!(words_from(2, &vec![0, 1]), "lorem ipsum exercitationem perferendis");
    assert_eq!(words_from(0, &vec![3]), "laborum");
    assert_eq!(
        sentence_from(&vec![vec![0, 1, 2], vec![3, 4, 5]], true),
        "Exercitationem perferendis perspiciatis, laborum eveniet sunt?"
    );
    assert_eq!(sentence_from(&vec![vec![5, 6, 7]], false), "Sunt iure name.");
}
