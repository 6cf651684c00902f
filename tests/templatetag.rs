use django_rusty_templates::tag::TagParts;
use django_rusty_templates::templatetag::{lex_templatetag, TemplateTag, TemplateTagError};
use django_rusty_templates::types::TemplateString;

#[test]
fn test_lex_openblock() {
    let template = "{% templatetag openblock %}";
    let parts = TagParts { at: (15, 9) };
    let tag_type = lex_templatetag(TemplateString(template), parts).unwrap();
    assert_eq!(tag_type, TemplateTag::OpenBlock);
}

#[test]
fn test_lex_closeblock() {
    let template = "{% templatetag closeblock %}";
    let parts = TagParts { at: (15, 10) };
    let tag_type = lex_templatetag(TemplateString(template), parts).unwrap();
    assert_eq!(tag_type, TemplateTag::CloseBlock);
}

#[test]
fn test_lex_openvariable() {
    let template = "{% templatetag openvariable %}";
    let parts = TagParts { at: (15, 12) };
    let tag_type = lex_templatetag(TemplateString(template), parts).unwrap();
    assert_eq!(tag_type, TemplateTag::OpenVariable);
}

#[test]
fn test_lex_closevariable() {
    let template = "{% templatetag closevariable %}";
    let parts = TagParts { at: (15, 13) };
    let tag_type = lex_templatetag(TemplateString(template), parts).unwrap();
    assert_eq!(tag_type, TemplateTag::CloseVariable);
}

#[test]
fn test_lex_openbrace() {
    let template = "{% templatetag openbrace %}";
    let parts = TagParts { at: (15, 9) };
    let tag_type = lex_templatetag(TemplateString(template), parts).unwrap();
    assert_eq!(tag_type, TemplateTag::OpenBrace);
}

#[test]
fn test_lex_closebrace() {
    let template = "{% templatetag closebrace %}";
    let parts = TagParts { at: (15, 10) };
    let tag_type = lex_templatetag(TemplateString(template), parts).unwrap();
    assert_eq!(tag_type, TemplateTag::CloseBrace);
}

#[test]
fn test_lex_opencomment() {
    let template = "{% templatetag opencomment %}";
    let parts = TagParts { at: (15, 11) };
    let tag_type = lex_templatetag(TemplateString(template), parts).unwrap();
    assert_eq!(tag_type, TemplateTag::OpenComment);
}

#[test]
fn test_lex_closecomment() {
    let template = "{% templatetag closecomment %}";
    let parts = TagParts { at: (15, 12) };
    let tag_type = lex_templatetag(TemplateString(template), parts).unwrap();
    assert_eq!(tag_type, TemplateTag::CloseComment);
}

#[test]
fn test_lex_missing_argument() {
    let template = "{% templatetag %}";
    let parts = TagParts { at: (15, 0) };
    assert!(matches!(
        lex_templatetag(TemplateString(template), parts),
        Err(TemplateTagError::MissingArgument { .. })
    ));
}

#[test]
fn test_lex_invalid_argument() {
    let template = "{% templatetag invalid %}";
    let parts = TagParts { at: (15, 7) };
    assert!(matches!(
        lex_templatetag(TemplateString(template), parts),
        Err(TemplateTagError::InvalidArgument { .. })
    ));
}

#[test]
fn test_lex_extra_argument() {
    let template = "{% templatetag openblock extra %}";
    let parts = TagParts { at: (15, 15) };
    assert!(matches!(
        lex_templatetag(TemplateString(template), parts),
        Err(TemplateTagError::ExtraArgument { .. })
    ));
}

#[test]
fn test_lex_string_argument_is_invalid() {
    let template = r#"{% templatetag "openblock" %}"#;
    let parts = TagParts { at: (15, 11) };
    assert!(matches!(
        lex_templatetag(TemplateString(template), parts),
        Err(TemplateTagError::InvalidArgument { .. })
    ));
}

#[test]
fn templatetag_outputs() {
    assert_eq!(TemplateTag::OpenBlock.output(), "{%");
    assert_eq!(TemplateTag::CloseBlock.output(), "%}");
    assert_eq!(TemplateTag::OpenVariable.output(), "{{");
    assert_eq!(TemplateTag::CloseVariable.output(), "}}");
    assert_eq!(TemplateTag::OpenBrace.output(), "{");
    assert_eq!(TemplateTag::CloseBrace.output(), "}");
    assert_eq!(TemplateTag::OpenComment.output(), "{#");
    assert_eq!(TemplateTag::CloseComment.output(), "#}");
}

#[test]
fn templatetag_invalid_argument_names_it() {
    let template = "{% templatetag invalid %}";
    let parts = TagParts { at: (15, 7) };
    assert_eq!(
        lex_templatetag(TemplateString(template), parts),
        Err(TemplateTagError::InvalidArgument { at: (15, 7) })
    );
}
