use django_rusty_templates::element::{TagElementToken, TagElementTokenType};
use django_rusty_templates::forloop::{parse_for_loop, ForLexerInError, ForParseError, ForTag};
use django_rusty_templates::ifcondition::{parse_if_condition, IfCondition, IfParseError};
use django_rusty_templates::loopvar::parse_for_variable;
use django_rusty_templates::nodes::{ForVariable, ForVariableName};
use django_rusty_templates::now::lex_now;
use django_rusty_templates::scanner::{tokenize, ScanError, Token, TokenType};
use django_rusty_templates::tag::TagParts;
use django_rusty_templates::types::{TemplateString, Variable};
use django_rusty_templates::operand::{FilterKind, OperandError, TagElement, Filter, filter_kind};
use django_rusty_templates::variable::{lex_variable_or_filter, FilterToken, VariableChain, VariableLexerError};
use django_rusty_templates::common::LexerError;

fn var(at: (usize, usize)) -> IfCondition {
    IfCondition::Variable(TagElement::Variable(Variable { at }))
}

#[test]
fn if_or_binds_looser_than_and() {
    let template = "{% if a or b and c %}";
    let parsed = parse_if_condition(TemplateString(template), TagParts { at: (6, 12) }, (0, 21), 0, &vec![]);
    let expected = IfCondition::Or(Box::new((
        var((6, 1)),
        IfCondition::And(Box::new((var((11, 1)), var((17, 1))))),
    )));
    assert_eq!(parsed, Ok(expected));
}

#[test]
fn if_not_binds_tighter_than_and() {
    let template = "{% if not a and b %}";
    let parsed = parse_if_condition(TemplateString(template), TagParts { at: (6, 11) }, (0, 20), 0, &vec![]);
    let expected = IfCondition::And(Box::new((
        IfCondition::Not(Box::new(var((10, 1)))),
        var((16, 1)),
    )));
    assert_eq!(parsed, Ok(expected));
}

#[test]
fn if_comparison_binds_tighter_than_in() {
    let template = "{% if a in b == c %}";
    let parsed = parse_if_condition(TemplateString(template), TagParts { at: (6, 11) }, (0, 20), 0, &vec![]);
    let expected = IfCondition::In(Box::new((
        var((6, 1)),
        IfCondition::Equal(Box::new((var((11, 1)), var((16, 1))))),
    )));
    assert_eq!(parsed, Ok(expected));
}

#[test]
fn if_not_in_is_one_operator() {
    let template = "{% if a not in b %}";
    let parsed = parse_if_condition(TemplateString(template), TagParts { at: (6, 10) }, (0, 19), 0, &vec![]);
    let expected = IfCondition::NotIn(Box::new((var((6, 1)), var((15, 1)))));
    assert_eq!(parsed, Ok(expected));
}

#[test]
fn if_errors() {
    let template = "{% if %}";
    assert_eq!(
        parse_if_condition(TemplateString(template), TagParts { at: (6, 0) }, (0, 8), 0, &vec![]),
        Err(IfParseError::MissingBooleanExpression { at: (0, 8) })
    );
    let template = "{% if a b %}";
    assert_eq!(
        parse_if_condition(TemplateString(template), TagParts { at: (6, 3) }, (0, 12), 0, &vec![]),
        Err(IfParseError::UnusedExpression { at: (8, 1) })
    );
    let template = "{% if a or %}";
    assert_eq!(
        parse_if_condition(TemplateString(template), TagParts { at: (6, 4) }, (0, 13), 0, &vec![]),
        Err(IfParseError::UnexpectedEndExpression { at: (8, 2) })
    );
    let template = "{% if and a %}";
    assert_eq!(
        parse_if_condition(TemplateString(template), TagParts { at: (6, 5) }, (0, 14), 0, &vec![]),
        Err(IfParseError::InvalidIfPosition { at: (6, 3) })
    );
}

#[test]
fn for_dangling_comma_is_missing_variable() {
    let template = "{% for a, in x %}";
    assert_eq!(
        parse_for_loop(TemplateString(template), TagParts { at: (7, 7) }, (0, 17)),
        Err(ForParseError::MissingVariable { at: (7, 1) })
    );
}

#[test]
fn for_in_without_names() {
    let template = "{% for in x %}";
    assert_eq!(
        parse_for_loop(TemplateString(template), TagParts { at: (7, 4) }, (0, 14)),
        Err(ForParseError::MissingVariableBeforeIn { at: (7, 2) })
    );
}

#[test]
fn for_missing_comma() {
    let template = "{% for a b in x %}";
    assert_eq!(
        parse_for_loop(TemplateString(template), TagParts { at: (7, 8) }, (0, 18)),
        Err(ForParseError::ForLexerInError(ForLexerInError::MissingComma { at: (9, 1) }))
    );
}

#[test]
fn for_names_iterable_reversed() {
    let template = "{% for a, b in items reversed %}";
    assert_eq!(
        parse_for_loop(TemplateString(template), TagParts { at: (7, 22) }, (0, 32)),
        Ok(ForTag {
            names: vec![(7, 1), (10, 1)],
            names_at: (7, 4),
            iterable: TagElementToken { at: (15, 5), token_type: TagElementTokenType::Variable },
            reversed: true,
        })
    );
}

#[test]
fn for_number_is_not_iterable() {
    let template = "{% for x in 5 %}";
    assert_eq!(
        parse_for_loop(TemplateString(template), TagParts { at: (7, 6) }, (0, 16)),
        Err(ForParseError::NotIterable { at: (12, 1) })
    );
}

#[test]
fn loop_variables_by_depth() {
    let t = TemplateString("forloop.counter");
    assert_eq!(
        parse_for_variable(t, (0, 15), 1),
        Some(ForVariable { variant: ForVariableName::Counter, parent_count: 0 })
    );
    assert_eq!(parse_for_variable(t, (0, 15), 0), None);
    let t = TemplateString("forloop.parentloop.counter");
    assert_eq!(
        parse_for_variable(t, (0, 26), 1),
        Some(ForVariable { variant: ForVariableName::Counter, parent_count: 1 })
    );
    let t = TemplateString("forloop.parentloop");
    assert_eq!(
        parse_for_variable(t, (0, 18), 1),
        Some(ForVariable { variant: ForVariableName::Object, parent_count: 1 })
    );
    let t = TemplateString("forloop");
    assert_eq!(
        parse_for_variable(t, (0, 7), 1),
        Some(ForVariable { variant: ForVariableName::Object, parent_count: 0 })
    );
    let t = TemplateString("forloop.parentloop.parentloop.first");
    assert_eq!(parse_for_variable(t, (0, 35), 1), None);
    let t = TemplateString("forloop.other");
    assert_eq!(parse_for_variable(t, (0, 13), 1), None);
}

#[test]
fn variable_with_filter_chain() {
    let template = "{{ foo.bar|default:'x'|lower }}";
    assert_eq!(
        lex_variable_or_filter(TemplateString(template), (3, 25)),
        Ok(Some(VariableChain {
            operand: TagElementToken { at: (3, 7), token_type: TagElementTokenType::Variable },
            filters: vec![
                FilterToken {
                    at: (11, 7),
                    argument: Some(TagElementToken { at: (19, 3), token_type: TagElementTokenType::Text }),
                },
                FilterToken { at: (23, 5), argument: None },
            ],
        }))
    );
}

#[test]
fn variable_errors() {
    let template = "{{ _foo }}";
    assert_eq!(
        lex_variable_or_filter(TemplateString(template), (3, 4)),
        Err(VariableLexerError::LexerError(LexerError::InvalidVariableName { at: (3, 4) }))
    );
    let template = "{{ foo| }}";
    assert_eq!(
        lex_variable_or_filter(TemplateString(template), (3, 4)),
        Err(VariableLexerError::MissingFilterName { at: (7, 0) })
    );
    let template = "{{ }}";
    assert_eq!(lex_variable_or_filter(TemplateString(template), (3, 0)), Ok(None));
}

#[test]
fn scanner_segments_and_round_trip() {
    let template = "Hi {{ name }}!{# c #}{% if x %}";
    let tokens = tokenize(TemplateString(template)).unwrap();
    assert_eq!(
        tokens,
        vec![
            Token { at: (0, 3), content_at: (0, 3), token_type: TokenType::Text },
            Token { at: (3, 10), content_at: (6, 4), token_type: TokenType::Variable },
            Token { at: (13, 1), content_at: (13, 1), token_type: TokenType::Text },
            Token { at: (14, 7), content_at: (17, 1), token_type: TokenType::Comment },
            Token { at: (21, 10), content_at: (24, 4), token_type: TokenType::Tag },
        ]
    );
    let mut joined = String::new();
    for t in &tokens {
        joined.push_str(&template[t.at.0..t.at.0 + t.at.1]);
    }
    assert_eq!(joined, template);
    assert_eq!(tokenize(TemplateString(template)).unwrap(), tokens);
}

#[test]
fn scanner_variable_path() {
    let template = "{{ foo.bar.baz }}";
    let tokens = tokenize(TemplateString(template)).unwrap();
    assert_eq!(tokens.len(), 1);
    assert_eq!(tokens[0].token_type, TokenType::Variable);
    assert_eq!(tokens[0].content_at, (3, 11));
}

#[test]
fn scanner_unterminated() {
    assert_eq!(
        tokenize(TemplateString("a {{ b")),
        Err(ScanError::UnterminatedDelimiter { at: (2, 2) })
    );
    assert_eq!(tokenize(TemplateString("")), Ok(vec![]));
}

#[test]
fn now_with_variable() {
    let template = "{% now \"Y\" as year %}";
    assert_eq!(lex_now(TemplateString(template), TagParts { at: (7, 11) }), Ok(((7, 3), Some((14, 4)))));
}

#[test]
fn if_operand_filters_and_loop_variables() {
    let template = "{% if forloop.first|lower %}";
    let parsed = parse_if_condition(TemplateString(template), TagParts { at: (6, 19) }, (0, 28), 1, &vec![]);
    let expected = IfCondition::Variable(TagElement::Filter(Box::new(Filter {
        at: (20, 5),
        kind: FilterKind::Lower,
        left: TagElement::ForVariable(ForVariable { variant: ForVariableName::First, parent_count: 0 }),
        argument: None,
    })));
    assert_eq!(parsed, Ok(expected));
    let template = "{% if a|f: %}";
    assert_eq!(
        parse_if_condition(TemplateString(template), TagParts { at: (6, 4) }, (0, 13), 0, &vec![]),
        Err(IfParseError::OperandError(OperandError::VariableLexerError(VariableLexerError::MissingArgument { at: (10, 0) })))
    );
}

#[test]
fn filter_kinds() {
    let t = TemplateString("x|lower|default|upper:1|mine|other");
    assert_eq!(filter_kind(t, (2, 5), None, &vec![]), Ok(FilterKind::Lower));
    assert_eq!(filter_kind(t, (8, 7), None, &vec![]), Err(OperandError::MissingArgument { at: (8, 7) }));
    assert_eq!(filter_kind(t, (16, 5), Some((22, 1)), &vec![]), Err(OperandError::UnexpectedArgument { at: (22, 1) }));
    assert_eq!(filter_kind(t, (24, 4), None, &vec!["mine".to_string()]), Ok(FilterKind::External));
    assert_eq!(filter_kind(t, (29, 5), None, &vec!["mine".to_string()]), Err(OperandError::InvalidFilter { at: (29, 5) }));
}
