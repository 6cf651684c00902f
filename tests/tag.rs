use django_rusty_templates::tag::{lex_tag, TagLexerError, TagParts};
use django_rusty_templates::types::TemplateString;
use django_rusty_templates::{END_TAG_LEN, START_TAG_LEN};

fn trim_tag(template: &str) -> &str {
    &template[START_TAG_LEN..(template.len() - END_TAG_LEN)]
}

#[test]
fn test_lex_empty() {
    let template = "{%  %}";
    let tag = trim_tag(template);
    let error = lex_tag(tag, START_TAG_LEN).unwrap_err();
    assert_eq!(error, TagLexerError::EmptyTag { at: (0, 6) })
}

#[test]
fn test_lex_tag() {
    let template = "{% csrftoken %}";
    let tag = trim_tag(template);
    let tag = lex_tag(tag, START_TAG_LEN).unwrap();
    assert_eq!(tag.at, (3, 9));
    assert_eq!(tag.content(TemplateString(template)), "csrftoken");
    assert_eq!(tag.parts, TagParts { at: (12, 0) })
}

#[test]
fn test_lex_invalid_tag() {
    let template = "{% url'foo' %}";
    let tag = trim_tag(template);
    let error = lex_tag(tag, START_TAG_LEN).unwrap_err();
    assert_eq!(error, TagLexerError::InvalidTagName { at: (3, 8) })
}

#[test]
fn test_lex_invalid_tag_rest() {
    let template = "{% url'foo' bar %}";
    let tag = trim_tag(template);
    let error = lex_tag(tag, START_TAG_LEN).unwrap_err();
    assert_eq!(error, TagLexerError::InvalidTagName { at: (3, 8) })
}

#[test]
fn test_lex_tag_rest() {
    let template = "{% url name arg %}";
    let tag = trim_tag(template);
    let tag = lex_tag(tag, START_TAG_LEN).unwrap();
    assert_eq!(tag.at, (3, 3));
    assert_eq!(tag.content(TemplateString(template)), "url");
    assert_eq!(tag.parts, TagParts { at: (7, 8) })
}

#[test]
fn test_template_content_impl() {
    let template = "{% url name arg %}";
    let template_string = TemplateString("{% url name arg %}");
    let tag = lex_tag(trim_tag(template), START_TAG_LEN).unwrap();
    assert_eq!(tag.content(TemplateString(template)), "url");
    assert_eq!(
        template_string.content(tag.at),
        tag.content(template_string)
    );
    assert_eq!(tag.parts.content(template_string), "name arg");
    assert_eq!(
        template_string.content(tag.parts.at),
        tag.parts.content(template_string)
    );
}


#[test]
fn lex_tag_at_another_offset_moves_spans() {
    let tag = " url name arg ";
    let a = lex_tag(tag, 2).unwrap();
    let b = lex_tag(tag, 12).unwrap();
    assert_eq!(b.at, (a.at.0 + 10, a.at.1));
    assert_eq!(b.parts.at, (a.parts.at.0 + 10, a.parts.at.1));
}
