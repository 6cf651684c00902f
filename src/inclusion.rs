//! The name of the template that an inclusion tag renders, and how it may
//! be written.
use vstd::prelude::*;
use crate::common::{text_content_at, translated_text_content_at, LexerError};
use crate::element::{element_content, TagElementTokenType};
use crate::kwarg::{next_argument, SimpleTagLexer};
use crate::tag::TagParts;
use crate::types::{span_ok, At, TemplateString};

verus! {

/// How the template name is written.
#[derive(Debug, Clone, Copy, PartialEq, Eq, Structural)]
pub enum IncludeTemplateTokenType {
    Text,
    TranslatedText,
    Variable,
}

/// The template name of an inclusion tag.
#[derive(Debug, Clone, Copy, PartialEq, Eq)]
pub struct IncludeTemplateToken {
    pub at: At,
    pub token_type: IncludeTemplateTokenType,
}

/// The element kind that each way of writing a template name is.
pub open spec fn element_kind(t: IncludeTemplateTokenType) -> TagElementTokenType {
    match t {
        IncludeTemplateTokenType::Text => TagElementTokenType::Text,
        IncludeTemplateTokenType::TranslatedText => TagElementTokenType::TranslatedText,
        IncludeTemplateTokenType::Variable => TagElementTokenType::Variable,
    }
}

impl IncludeTemplateToken {
    /// The span of the name itself, without quotes or `_("` and `")`.
    pub fn content_at(&self) -> (r: At)
        requires
            self.at.0 + self.at.1 <= usize::MAX,
            self.token_type == IncludeTemplateTokenType::Text ==> self.at.1 >= 2,
            self.token_type == IncludeTemplateTokenType::TranslatedText ==> self.at.1 >= 5,
        ensures
            r == element_content(self.at, element_kind(self.token_type)),
    {
        match self.token_type {
            IncludeTemplateTokenType::Variable => self.at,
            IncludeTemplateTokenType::Text => text_content_at(self.at),
            IncludeTemplateTokenType::TranslatedText => translated_text_content_at(self.at),
        }
    }
}

/// Why the template name of an inclusion tag is malformed.
#[derive(Debug, Clone, Copy, PartialEq, Eq)]
pub enum IncludeLexerError {
    LexerError(LexerError),
    /// A number cannot name a template.
    InvalidTemplateName { at: At },
    /// The template name is given as a keyword argument.
    UnexpectedKeywordArgument { at: At },
}

/// Lexes the arguments of an inclusion tag.
pub struct IncludeLexer<'t> {
    pub lexer: SimpleTagLexer<'t>,
}

impl<'t> IncludeLexer<'t> {
    pub fn new(template: TemplateString<'t>, parts: TagParts) -> (r: Self)
        requires
            span_ok(template.bytes(), parts.at),
        ensures
            r.lexer.wf(),
            r.lexer.lexer.template == template,
            r.lexer.lexer.byte == parts.at.0,
            r.lexer.lexer.end == parts.at.0 + parts.at.1,
    {
        IncludeLexer { lexer: SimpleTagLexer::new(template, parts) }
    }

    /// The template name: the first argument, which must be a string, a
    /// translated string or a variable, not given by keyword. `None` when
    /// there are no arguments.
    pub fn lex_template(&mut self) -> (r: Result<Option<IncludeTemplateToken>, IncludeLexerError>)
        requires
            old(self).lexer.wf(),
        ensures
            final(self).lexer.wf(),
            final(self).lexer.lexer.template == old(self).lexer.lexer.template,
            match next_argument(
                old(self).lexer.lexer.bytes(),
                old(self).lexer.lexer.byte as int,
                old(self).lexer.lexer.end as int,
            ) {
                None => r == Ok::<Option<IncludeTemplateToken>, IncludeLexerError>(None),
                Some((Err(e), _)) => r == Err::<Option<IncludeTemplateToken>, IncludeLexerError>(
                    IncludeLexerError::LexerError(e),
                ),
                Some((Ok(tok), _)) => match tok.kwarg {
                    Some(k) => r == Err::<Option<IncludeTemplateToken>, IncludeLexerError>(
                        IncludeLexerError::UnexpectedKeywordArgument { at: k },
                    ),
                    None => match tok.token_type {
                        TagElementTokenType::Numeric => r == Err::<
                            Option<IncludeTemplateToken>,
                            IncludeLexerError,
                        >(IncludeLexerError::InvalidTemplateName { at: tok.at }),
                        TagElementTokenType::Text => r == Ok::<
                            Option<IncludeTemplateToken>,
                            IncludeLexerError,
                        >(
                            Some(
                                IncludeTemplateToken {
                                    at: tok.at,
                                    token_type: IncludeTemplateTokenType::Text,
                                },
                            ),
                        ),
                        TagElementTokenType::TranslatedText => r == Ok::<
                            Option<IncludeTemplateToken>,
                            IncludeLexerError,
                        >(
                            Some(
                                IncludeTemplateToken {
                                    at: tok.at,
                                    token_type: IncludeTemplateTokenType::TranslatedText,
                                },
                            ),
                        ),
                        TagElementTokenType::Variable => r == Ok::<
                            Option<IncludeTemplateToken>,
                            IncludeLexerError,
                        >(
                            Some(
                                IncludeTemplateToken {
                                    at: tok.at,
                                    token_type: IncludeTemplateTokenType::Variable,
                                },
                            ),
                        ),
                    },
                },
            },
    {
        let token = match self.lexer.next() {
            None => return Ok(None),
            Some(Err(e)) => return Err(IncludeLexerError::LexerError(e)),
            Some(Ok(token)) => token,
        };
        match token.kwarg {
            Some(kwarg_at) => Err(IncludeLexerError::UnexpectedKeywordArgument { at: kwarg_at }),
            None => {
                let token_type = match token.token_type {
                    TagElementTokenType::Numeric => {
                        return Err(IncludeLexerError::InvalidTemplateName { at: token.at });
                    },
                    TagElementTokenType::Text => IncludeTemplateTokenType::Text,
                    TagElementTokenType::TranslatedText => IncludeTemplateTokenType::TranslatedText,
                    TagElementTokenType::Variable => IncludeTemplateTokenType::Variable,
                };
                Ok(Some(IncludeTemplateToken { at: token.at, token_type }))
            },
        }
    }
}

} // verus!
