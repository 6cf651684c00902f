use django_rusty_templates::element::{TagElementToken, TagElementTokenType};
use django_rusty_templates::forloop::{ForParseError, ForTag};
use django_rusty_templates::ifcondition::IfCondition;
use django_rusty_templates::lorem::LoremMethod;
use django_rusty_templates::nodes::{ForVariable, ForVariableName, Text};
use django_rusty_templates::parse::{parse, ParseError, Tag, TokenTree};
use django_rusty_templates::operand::{OperandError, TagElement};
use django_rusty_templates::tag::TagLexerError;
use django_rusty_templates::common::LexerError;
use django_rusty_templates::url::Url;
use django_rusty_templates::inclusion_tag::{Include, IncludeTemplateName};
use django_rusty_templates::operand::{Filter, FilterKind};
use django_rusty_templates::ifcondition::{fold_condition, parse_if_condition};
use django_rusty_templates::custom_tag::{tag_params, SimpleTagContext};
use django_rusty_templates::tag::TagParts;
use django_rusty_templates::inclusion::IncludeLexerError;
use django_rusty_templates::templatetag::TemplateTag;
use django_rusty_templates::types::{TemplateString, Variable};

#[test]
fn parse_empty_and_text() {
    assert_eq!(parse(TemplateString(""), &vec![], None, &vec![]), Ok(vec![]));
    assert_eq!(
        parse(TemplateString("Some text"), &vec![], None, &vec![]),
        Ok(vec![TokenTree::Text(Text { at: (0, 9) })])
    );
    assert_eq!(parse(TemplateString("{# A comment #}"), &vec![], None, &vec![]), Ok(vec![]));
}

#[test]
fn parse_variable_path() {
    assert_eq!(
        parse(TemplateString("{{ foo.bar.baz }}"), &vec![], None, &vec![]),
        Ok(vec![TokenTree::Element(TagElement::Variable(Variable { at: (3, 11) }))])
    );
}

#[test]
fn parse_empty_variable_and_tags() {
    assert_eq!(
        parse(TemplateString("{{ }}"), &vec![], None, &vec![]),
        Err(ParseError::EmptyVariable { at: (0, 5) })
    );
    assert_eq!(
        parse(TemplateString("{%  %}"), &vec![], None, &vec![]),
        Err(ParseError::TagLexerError(TagLexerError::EmptyTag { at: (0, 6) }))
    );
    assert_eq!(
        parse(TemplateString("{% url'foo' %}"), &vec![], None, &vec![]),
        Err(ParseError::TagLexerError(TagLexerError::InvalidTagName { at: (3, 8) }))
    );
    assert_eq!(
        parse(TemplateString("{% frobnicate %}"), &vec![], None, &vec![]),
        Err(ParseError::UnknownTag { at: (3, 10) })
    );
}

#[test]
fn parse_if_else() {
    let parsed = parse(TemplateString("{% if a %}x{% else %}y{% endif %}"), &vec![], None, &vec![]);
    let expected = TokenTree::Tag(Tag::If {
        condition: IfCondition::Variable(TagElement::Variable(Variable { at: (6, 1) })),
        truthy: vec![TokenTree::Text(Text { at: (10, 1) })],
        falsey: Some(vec![TokenTree::Text(Text { at: (21, 1) })]),
    });
    assert_eq!(parsed, Ok(vec![expected]));
}

#[test]
fn parse_for_with_loop_variable() {
    let parsed = parse(TemplateString("{% for x in items %}{{ forloop.counter }}{% endfor %}"), &vec![], None, &vec![]);
    let expected = TokenTree::Tag(Tag::For {
        tag: ForTag {
            names: vec![(7, 1)],
            names_at: (7, 1),
            iterable: TagElementToken { at: (12, 5), token_type: TagElementTokenType::Variable },
            reversed: false,
        },
        iterable: TagElement::Variable(Variable { at: (12, 5) }),
        body: vec![TokenTree::Element(TagElement::ForVariable(ForVariable {
            variant: ForVariableName::Counter,
            parent_count: 0,
        }))],
        empty: None,
    });
    assert_eq!(parsed, Ok(vec![expected]));
    assert_eq!(
        parse(TemplateString("{{ forloop.counter }}"), &vec![], None, &vec![]),
        Ok(vec![TokenTree::Element(TagElement::Variable(Variable { at: (3, 15) }))])
    );
}

#[test]
fn parse_end_tag_errors() {
    assert_eq!(
        parse(TemplateString("{% endif %}"), &vec![], None, &vec![]),
        Err(ParseError::UnexpectedEndTag { at: (0, 11) })
    );
    assert_eq!(
        parse(TemplateString("{% if a %}{% endfor %}"), &vec![], None, &vec![]),
        Err(ParseError::WrongEndTag { at: (10, 12), start_at: (0, 10) })
    );
    assert_eq!(
        parse(TemplateString("{% if a %}"), &vec![], None, &vec![]),
        Err(ParseError::MissingEndTag { at: (0, 10) })
    );
}

#[test]
fn parse_for_dangling_comma() {
    assert_eq!(
        parse(TemplateString("{% for a, in x %}{% endfor %}"), &vec![], None, &vec![]),
        Err(ParseError::ForParseError(ForParseError::MissingVariable { at: (7, 1) }))
    );
}

#[test]
fn parse_simple_tags() {
    assert_eq!(
        parse(TemplateString("{% lorem %}"), &vec![], None, &vec![]),
        Ok(vec![TokenTree::Tag(Tag::Lorem { count: None, method: LoremMethod::Blocks, common: true })])
    );
    assert_eq!(
        parse(TemplateString("{% templatetag openblock %}"), &vec![], None, &vec![]),
        Ok(vec![TokenTree::Tag(Tag::TemplateTag(TemplateTag::OpenBlock))])
    );
    assert_eq!(
        parse(TemplateString("{% csrf_token %}"), &vec![], None, &vec![]),
        Ok(vec![TokenTree::Tag(Tag::CsrfToken)])
    );
    assert_eq!(
        parse(TemplateString("{% comment %}hidden{% endcomment %}"), &vec![], None, &vec![]),
        Ok(vec![TokenTree::Tag(Tag::Comment)])
    );
    assert_eq!(
        parse(TemplateString("{% now \"Y\" %}"), &vec![], None, &vec![]),
        Ok(vec![TokenTree::Tag(Tag::Now { format: (8, 1), asvar: None })])
    );
    assert_eq!(
        parse(TemplateString("{% autoescape off %}x{% endautoescape %}"), &vec![], None, &vec![]),
        Ok(vec![TokenTree::Tag(Tag::Autoescape {
            enabled: false,
            nodes: vec![TokenTree::Text(Text { at: (20, 1) })],
        })])
    );
}

#[test]
fn parse_lorem_count_and_filters() {
    assert_eq!(
        parse(TemplateString("{% lorem 3 w %}"), &vec![], None, &vec![]),
        Ok(vec![TokenTree::Tag(Tag::Lorem {
            count: Some(TagElement::Numeric((9, 1))),
            method: LoremMethod::Words,
            common: true,
        })])
    );
    assert_eq!(
        parse(TemplateString("{% lorem random %}"), &vec![], None, &vec![]),
        Ok(vec![TokenTree::Tag(Tag::Lorem { count: None, method: LoremMethod::Blocks, common: false })])
    );
    assert_eq!(
        parse(TemplateString("{{ foo|bar }}"), &vec![], None, &vec![]),
        Err(ParseError::OperandError(OperandError::InvalidFilter { at: (7, 3) }))
    );
    assert_eq!(
        parse(TemplateString("{{ foo|lower:baz }}"), &vec![], None, &vec![]),
        Err(ParseError::OperandError(OperandError::UnexpectedArgument { at: (13, 3) }))
    );
    assert_eq!(
        parse(TemplateString("{{ foo|default|baz }}"), &vec!["baz".to_string()], None, &vec![]),
        Err(ParseError::OperandError(OperandError::MissingArgument { at: (7, 7) }))
    );
}

fn one(template: &str) -> Result<Vec<TokenTree>, ParseError> {
    parse(TemplateString(template), &vec![], None, &vec![])
}

#[test]
fn parse_url_forms() {
    assert_eq!(
        one("{% url 'some-url-name' %}"),
        Ok(vec![TokenTree::Tag(Tag::Url(Url {
            view_name: TagElement::Text(Text { at: (8, 13) }),
            args: vec![],
            kwargs: vec![],
            asvar: None,
        }))])
    );
    assert_eq!(one("{% url %}"), Err(ParseError::UrlTagNoArguments { at: (0, 9) }));
    assert_eq!(
        one("{% url 'foo %}"),
        Err(ParseError::LexerError(LexerError::IncompleteString { at: (7, 4) }))
    );
    assert_eq!(
        one("{% url some_view_name foo='foo' extra=-64 %}"),
        Ok(vec![TokenTree::Tag(Tag::Url(Url {
            view_name: TagElement::Variable(Variable { at: (7, 14) }),
            args: vec![],
            kwargs: vec![
                ((22, 3), TagElement::Text(Text { at: (27, 3) })),
                ((32, 5), TagElement::Numeric((38, 3))),
            ],
            asvar: None,
        }))])
    );
    assert_eq!(
        one("{% url some_view_name 'foo' as some_url %}"),
        Ok(vec![TokenTree::Tag(Tag::Url(Url {
            view_name: TagElement::Variable(Variable { at: (7, 14) }),
            args: vec![TagElement::Text(Text { at: (23, 3) })],
            kwargs: vec![],
            asvar: Some((31, 8)),
        }))])
    );
    assert_eq!(
        one("{% url some_view_name 'foo' arg name=arg2 %}"),
        Err(ParseError::MixedArgsKwargs { at: (0, 44) })
    );
}

#[test]
fn parse_inclusion_forms() {
    assert_eq!(
        one("{% include 'a.html' only with x=1 %}"),
        Ok(vec![TokenTree::Tag(Tag::Include(Include {
            template_name: IncludeTemplateName::Element(TagElement::Text(Text { at: (12, 6) })),
            kwargs: vec![((30, 1), TagElement::Numeric((32, 1)))],
            only: true,
        }))])
    );
    assert_eq!(
        one("{% include 'a.html' only only %}"),
        Err(ParseError::IncludeOnlyTwice { first_at: (20, 4), second_at: (25, 4) })
    );
    assert_eq!(
        one("{% include 'a.html' with %}"),
        Err(ParseError::MissingKeywordArgument { at: (20, 4) })
    );
    assert_eq!(one("{% include %}"), Err(ParseError::MissingArgument { at: (0, 13) }));
    assert_eq!(
        one("{% include 5 %}"),
        Err(ParseError::IncludeLexerError(IncludeLexerError::InvalidTemplateName { at: (11, 1) }))
    );
}

#[test]
fn parse_for_iterable_is_an_operand() {
    assert_eq!(
        one("{% for x in y|nosuchfilter %}{% endfor %}"),
        Err(ParseError::OperandError(OperandError::InvalidFilter { at: (14, 12) }))
    );
}

#[test]
fn parse_inclusion_relative_names() {
    assert_eq!(
        parse(TemplateString("{% include './b.html' %}"), &vec![], Some("a/c.html"), &vec![]),
        Ok(vec![TokenTree::Tag(Tag::Include(Include {
            template_name: IncludeTemplateName::Relative { path: "a/b.html".to_string(), at: (12, 8) },
            kwargs: vec![],
            only: false,
        }))])
    );
    assert_eq!(
        parse(TemplateString("{% include './b.html' %}"), &vec![], None, &vec![]),
        Err(ParseError::UnknownOrigin { at: (12, 8) })
    );
    assert_eq!(
        parse(TemplateString("{% include '../../x.html' %}"), &vec![], Some("a/c.html"), &vec![]),
        Err(ParseError::RelativePathOutside { at: (12, 12) })
    );
}

#[test]
fn condition_folding() {
    let template = "{% if a or b and c %}";
    let c = parse_if_condition(TemplateString(template), TagParts { at: (6, 12) }, (0, 21), 0, &vec![]).unwrap();
    // a or (b and c) with a false, b true, c true is true; with c false it is false.
    assert_eq!(fold_condition(&c, &vec![Some(false), Some(true), Some(true)]), Some(true));
    assert_eq!(fold_condition(&c, &vec![Some(false), Some(true), Some(false)]), Some(false));
    assert_eq!(fold_condition(&c, &vec![Some(true), Some(false), Some(false)]), Some(true));
    let template = "{% if not a and b %}";
    let c = parse_if_condition(TemplateString(template), TagParts { at: (6, 11) }, (0, 20), 0, &vec![]).unwrap();
    // (not a) and b
    assert_eq!(fold_condition(&c, &vec![Some(false), Some(true)]), Some(true));
    assert_eq!(fold_condition(&c, &vec![Some(true), Some(true)]), Some(false));
    assert_eq!(fold_condition(&c, &vec![None, Some(true)]), Some(false));
}

#[test]
fn registered_tag_parameters() {
    let p = |v: &[&str]| v.iter().map(|s| s.to_string()).collect::<Vec<String>>();
    assert_eq!(tag_params(&p(&["a"]), false, false, (0, 5)), Ok(0));
    assert_eq!(tag_params(&p(&["context", "a"]), true, false, (0, 5)), Ok(1));
    assert_eq!(tag_params(&p(&["a"]), true, false, (0, 5)), Err(ParseError::RequiresContext { at: (0, 5) }));
    assert_eq!(tag_params(&p(&["content"]), false, true, (0, 5)), Ok(1));
    assert_eq!(tag_params(&p(&["a"]), false, true, (0, 5)), Err(ParseError::RequiresContent { at: (0, 5) }));
    assert_eq!(tag_params(&p(&["context", "content", "x"]), true, true, (0, 5)), Ok(2));
    assert_eq!(
        tag_params(&p(&["context"]), true, true, (0, 5)),
        Err(ParseError::RequiresContextAndContent { at: (0, 5) })
    );
}

#[test]
fn test_empty_template() {
    assert_eq!(one(""), Ok(vec![]));
}

#[test]
fn test_text() {
    assert_eq!(one("Some text"), Ok(vec![TokenTree::Text(Text { at: (0, 9) })]));
}

#[test]
fn test_comment() {
    assert_eq!(one("{# A comment #}"), Ok(vec![]));
}

#[test]
fn test_empty_variable() {
    assert_eq!(one("{{ }}"), Err(ParseError::EmptyVariable { at: (0, 5) }));
}

#[test]
fn test_variable() {
    assert_eq!(
        one("{{ foo }}"),
        Ok(vec![TokenTree::Element(TagElement::Variable(Variable { at: (3, 3) }))])
    );
}

#[test]
fn test_variable_attribute() {
    assert_eq!(
        one("{{ foo.bar.baz }}"),
        Ok(vec![TokenTree::Element(TagElement::Variable(Variable { at: (3, 11) }))])
    );
}

#[test]
fn test_parse_empty_tag() {
    assert_eq!(
        one("{%  %}"),
        Err(ParseError::TagLexerError(TagLexerError::EmptyTag { at: (0, 6) }))
    );
}

#[test]
fn test_block_error() {
    assert_eq!(
        one("{% url'foo' %}"),
        Err(ParseError::TagLexerError(TagLexerError::InvalidTagName { at: (3, 8) }))
    );
}

#[test]
fn test_parse_url_no_arguments() {
    assert_eq!(one("{% url %}"), Err(ParseError::UrlTagNoArguments { at: (0, 9) }));
}

#[test]
fn test_filter_argument_bigint() {
    let nodes = parse(TemplateString("{{ foo|bar:99999999999999999 }}"), &vec!["bar".to_string()], None, &vec![]);
    let bar = TokenTree::Element(TagElement::Filter(Box::new(Filter {
        at: (7, 3),
        kind: FilterKind::External,
        left: TagElement::Variable(Variable { at: (3, 3) }),
        argument: Some(TagElement::Numeric((11, 17))),
    })));
    assert_eq!(nodes, Ok(vec![bar]));
}

#[test]
fn parse_registered_simple_tag() {
    let tags = vec![(
        "mytag".to_string(),
        SimpleTagContext {
            params: vec!["a".to_string()],
            defaults_count: 0,
            varargs: false,
            kwonly: vec![],
            kwonly_defaults: vec![],
            varkw: false,
            end_name: None,
        },
    )];
    assert_eq!(
        parse(TemplateString("{% mytag 1 as v %}"), &vec![], None, &tags),
        Ok(vec![TokenTree::Tag(Tag::SimpleTag {
            tag: 0,
            args: vec![TagElement::Numeric((9, 1))],
            kwargs: vec![],
            asvar: Some((14, 1)),
        })])
    );
    assert_eq!(
        parse(TemplateString("{% mytag %}"), &vec![], None, &tags),
        Err(ParseError::MissingArguments { at: (8, 0) })
    );
    assert_eq!(
        parse(TemplateString("{% other %}"), &vec![], None, &tags),
        Err(ParseError::UnknownTag { at: (3, 5) })
    );
}

#[test]
fn parse_load_forms() {
    assert_eq!(
        one("{% load a b from lib %}"),
        Ok(vec![TokenTree::Tag(Tag::Load { names: vec![(8, 1), (10, 1)], library: Some((17, 3)) })])
    );
    assert_eq!(
        one("{% load x y %}"),
        Ok(vec![TokenTree::Tag(Tag::Load { names: vec![(8, 1), (10, 1)], library: None })])
    );
}

#[test]
fn parse_registered_block_tag() {
    let tags = vec![(
        "box".to_string(),
        SimpleTagContext {
            params: vec![],
            defaults_count: 0,
            varargs: false,
            kwonly: vec![],
            kwonly_defaults: vec![],
            varkw: false,
            end_name: Some("endbox".to_string()),
        },
    )];
    assert_eq!(
        parse(TemplateString("{% box %}x{% endbox %}"), &vec![], None, &tags),
        Ok(vec![TokenTree::Tag(Tag::SimpleBlockTag {
            tag: 0,
            args: vec![],
            kwargs: vec![],
            asvar: None,
            nodes: vec![TokenTree::Text(Text { at: (9, 1) })],
        })])
    );
    assert_eq!(
        parse(TemplateString("{% box %}x"), &vec![], None, &tags),
        Err(ParseError::MissingEndTag { at: (0, 9) })
    );
    assert_eq!(
        parse(TemplateString("{% endbox %}"), &vec![], None, &tags),
        Err(ParseError::UnexpectedEndTag { at: (0, 12) })
    );
}
