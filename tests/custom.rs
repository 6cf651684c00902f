use django_rusty_templates::custom_tag::{parse_custom_tag_parts, CustomTagError, SimpleTagContext};
use django_rusty_templates::operand::TagElement;
use django_rusty_templates::tag::TagParts;
use django_rusty_templates::types::TemplateString;

fn context() -> SimpleTagContext {
    SimpleTagContext {
        params: vec!["a".to_string(), "b".to_string()],
        defaults_count: 0,
        varargs: false,
        kwonly: vec![],
        kwonly_defaults: vec![],
        varkw: false,
        end_name: None,
    }
}

fn run(template: &str, parts: (usize, usize)) -> Result<(Vec<TagElement>, Vec<((usize, usize), TagElement)>, Option<(usize, usize)>), CustomTagError> {
    parse_custom_tag_parts(TemplateString(template), TagParts { at: parts }, &context(), 0, &vec![])
}

#[test]
fn custom_tag_arguments() {
    assert_eq!(
        run("{% mytag 1 b=2 as v %}", (9, 10)),
        Ok((
            vec![TagElement::Numeric((9, 1))],
            vec![((11, 1), TagElement::Numeric((13, 1)))],
            Some((18, 1)),
        ))
    );
}

#[test]
fn custom_tag_errors() {
    assert_eq!(
        run("{% mytag b=2 1 %}", (9, 5)),
        Err(CustomTagError::PositionalAfterKeyword { at: (13, 1), after: (9, 3) })
    );
    assert_eq!(
        run("{% mytag 1 2 3 %}", (9, 5)),
        Err(CustomTagError::TooManyPositionalArguments { at: (13, 1) })
    );
    assert_eq!(
        run("{% mytag c=1 %}", (9, 3)),
        Err(CustomTagError::UnexpectedKeywordArgument { at: (9, 3) })
    );
    assert_eq!(
        run("{% mytag a=1 a=2 %}", (9, 7)),
        Err(CustomTagError::DuplicateKeywordArgument { first_at: (9, 3), second_at: (13, 3) })
    );
    assert_eq!(
        run("{% mytag %}", (9, 0)),
        Err(CustomTagError::MissingArguments { at: (9, 0), params: vec![0, 1], kwonly: vec![] })
    );
}
