//! The `templatetag` tag, which outputs one of the template syntax's
//! delimiters.
use vstd::prelude::*;
use vstd::string::StringSliceAdditionalSpecFns;
use crate::common::{span_is, LexerError};
use crate::element::{next_element, TagElementLexer, TagElementToken, TagElementTokenType};
use crate::tag::TagParts;
use crate::types::{span_bytes, span_ok, At, TemplateString};

verus! {

/// The delimiter that a `templatetag` tag outputs.
#[derive(Debug, Clone, Copy, PartialEq, Eq)]
pub enum TemplateTag {
    OpenBlock,
    CloseBlock,
    OpenVariable,
    CloseVariable,
    OpenBrace,
    CloseBrace,
    OpenComment,
    CloseComment,
}

/// The text that each delimiter stands for.
pub open spec fn output_of(t: TemplateTag) -> &'static str {
    match t {
        TemplateTag::OpenBlock => "{%",
        TemplateTag::CloseBlock => "%}",
        TemplateTag::OpenVariable => "{{",
        TemplateTag::CloseVariable => "}}",
        TemplateTag::OpenBrace => "{",
        TemplateTag::CloseBrace => "}",
        TemplateTag::OpenComment => "{#",
        TemplateTag::CloseComment => "#}",
    }
}

/// The delimiter that a keyword names.
pub open spec fn templatetag_of(w: Seq<u8>) -> Option<TemplateTag> {
    if w == "openblock".spec_bytes() {
        Some(TemplateTag::OpenBlock)
    } else if w == "closeblock".spec_bytes() {
        Some(TemplateTag::CloseBlock)
    } else if w == "openvariable".spec_bytes() {
        Some(TemplateTag::OpenVariable)
    } else if w == "closevariable".spec_bytes() {
        Some(TemplateTag::CloseVariable)
    } else if w == "openbrace".spec_bytes() {
        Some(TemplateTag::OpenBrace)
    } else if w == "closebrace".spec_bytes() {
        Some(TemplateTag::CloseBrace)
    } else if w == "opencomment".spec_bytes() {
        Some(TemplateTag::OpenComment)
    } else if w == "closecomment".spec_bytes() {
        Some(TemplateTag::CloseComment)
    } else {
        None
    }
}

impl TemplateTag {
    /// The text that the tag outputs.
    pub fn output(&self) -> (r: &'static str)
        ensures
            r == output_of(*self),
    {
        match self {
            Self::OpenBlock => "{%",
            Self::CloseBlock => "%}",
            Self::OpenVariable => "{{",
            Self::CloseVariable => "}}",
            Self::OpenBrace => "{",
            Self::CloseBrace => "}",
            Self::OpenComment => "{#",
            Self::CloseComment => "#}",
        }
    }
}

/// Why a `templatetag` tag is malformed.
#[derive(Debug, Clone, Copy, PartialEq, Eq)]
pub enum TemplateTagError {
    LexerError(LexerError),
    /// The tag has no argument.
    MissingArgument { at: (usize, usize) },
    /// The argument is not one of the eight keywords; the span covers it.
    InvalidArgument { at: (usize, usize) },
    /// The tag has more than one argument.
    ExtraArgument { at: (usize, usize) },
}

fn keyword(b: &[u8], tok: TagElementToken) -> (r: Option<TemplateTag>)
    requires
        tok.at.0 + tok.at.1 <= b@.len(),
    ensures
        r == templatetag_of(b@.subrange(tok.at.0 as int, tok.at.0 + tok.at.1)),
{
    let at = tok.at;
    if span_is(b, at, "openblock".as_bytes()) {
        Some(TemplateTag::OpenBlock)
    } else if span_is(b, at, "closeblock".as_bytes()) {
        Some(TemplateTag::CloseBlock)
    } else if span_is(b, at, "openvariable".as_bytes()) {
        Some(TemplateTag::OpenVariable)
    } else if span_is(b, at, "closevariable".as_bytes()) {
        Some(TemplateTag::CloseVariable)
    } else if span_is(b, at, "openbrace".as_bytes()) {
        Some(TemplateTag::OpenBrace)
    } else if span_is(b, at, "closebrace".as_bytes()) {
        Some(TemplateTag::CloseBrace)
    } else if span_is(b, at, "opencomment".as_bytes()) {
        Some(TemplateTag::OpenComment)
    } else if span_is(b, at, "closecomment".as_bytes()) {
        Some(TemplateTag::CloseComment)
    } else {
        None
    }
}

/// What lexing the arguments `parts` of a `templatetag` tag gives: exactly
/// one unquoted keyword.
pub open spec fn templatetag_result(b: Seq<u8>, parts: At) -> Result<TemplateTag, TemplateTagError> {
    match next_element(b, parts.0 as int, parts.0 + parts.1) {
        None => Err(TemplateTagError::MissingArgument { at: parts }),
        Some((Err(e), _)) => Err(TemplateTagError::LexerError(e)),
        Some((Ok(tok), next)) => {
            let word = templatetag_of(span_bytes(b, tok.at));
            if tok.token_type != TagElementTokenType::Variable || word is None {
                Err(TemplateTagError::InvalidArgument { at: tok.at })
            } else {
                match next_element(b, next, parts.0 + parts.1) {
                    None => Ok(word.unwrap()),
                    Some((Err(e), _)) => Err(TemplateTagError::LexerError(e)),
                    Some((Ok(extra), _)) => Err(TemplateTagError::ExtraArgument { at: extra.at }),
                }
            }
        },
    }
}

/// Lexes the argument of a `templatetag` tag: exactly one unquoted keyword.
pub fn lex_templatetag(template: TemplateString<'_>, parts: TagParts) -> (r: Result<
    TemplateTag,
    TemplateTagError,
>)
    requires
        span_ok(template.bytes(), parts.at),
    ensures
        r == templatetag_result(template.bytes(), parts.at),
{
    let mut lexer = TagElementLexer::new(template, parts);
    let b = template.0.as_bytes();
    let token = match lexer.next() {
        None => return Err(TemplateTagError::MissingArgument { at: parts.at }),
        Some(Err(e)) => return Err(TemplateTagError::LexerError(e)),
        Some(Ok(token)) => token,
    };
    let tag_type = if token.token_type != TagElementTokenType::Variable {
        None
    } else {
        keyword(b, token)
    };
    let tag_type = match tag_type {
        Some(t) => t,
        None => return Err(TemplateTagError::InvalidArgument { at: token.at }),
    };
    match lexer.next() {
        None => Ok(tag_type),
        Some(Err(e)) => Err(TemplateTagError::LexerError(e)),
        Some(Ok(extra)) => Err(TemplateTagError::ExtraArgument { at: extra.at }),
    }
}

} // verus!
