//! The `now` tag: a format string, optionally stored `as` a variable.
use vstd::prelude::*;
use vstd::string::StringSliceAdditionalSpecFns;
use crate::common::{span_is, LexerError};
use crate::element::{next_element, span_within, TagElementLexer, TagElementToken, TagElementTokenType};
use crate::tag::TagParts;
use crate::types::{span_bytes, span_ok, At, TemplateString};

verus! {

/// Why a `now` tag is malformed.
#[derive(Debug, Clone, Copy, PartialEq, Eq)]
pub enum NowError {
    LexerError(LexerError),
    /// Something other than `as` follows the format string.
    UnexpectedAfterFormat { at: At },
    /// `as` is not followed by a name; the span is empty, right after `as`.
    MissingVariableAfterAs { at: At },
    /// Something follows the variable name.
    UnexpectedAfterVariable { at: At },
    /// The tag has no format string.
    MissingFormat { at: At },
}

/// The next element of a `now` tag's arguments. A malformed element is read
/// as a plain element rather than an error, as the host's own tokenizer
/// does: an element with characters stuck to it covers everything from the
/// start of the arguments to the end of those characters.
pub open spec fn now_element(b: Seq<u8>, i: int, end: int, start: int) -> Option<
    (TagElementToken, int),
> {
    match next_element(b, i, end) {
        None => None,
        Some((Ok(tok), next)) => Some((tok, next)),
        Some((Err(LexerError::InvalidRemainder { at }), next)) => Some(
            (
                TagElementToken {
                    at: (start as usize, (at.0 + at.1 - start) as usize),
                    token_type: TagElementTokenType::Variable,
                },
                next,
            ),
        ),
        Some((Err(e), next)) => Some(
            (TagElementToken { at: e.span(), token_type: TagElementTokenType::Variable }, next),
        ),
    }
}

/// Lexes the arguments of a `now` tag, one step at a time.
pub struct NowLexer<'t> {
    pub template: TemplateString<'t>,
    pub lexer: TagElementLexer<'t>,
    pub parts: TagParts,
}

impl<'t> NowLexer<'t> {
    pub open spec fn wf(&self) -> bool {
        &&& self.lexer.wf()
        &&& self.lexer.template == self.template
        &&& span_ok(self.template.bytes(), self.parts.at)
        &&& self.parts.at.0 <= self.lexer.byte
        &&& self.lexer.end == self.parts.at.0 + self.parts.at.1
    }

    /// The next element from where the lexer stands.
    pub open spec fn peek(&self) -> Option<(TagElementToken, int)> {
        now_element(
            self.template.bytes(),
            self.lexer.byte as int,
            self.lexer.end as int,
            self.parts.at.0 as int,
        )
    }

    pub fn new(template: TemplateString<'t>, parts: TagParts) -> (r: Self)
        requires
            span_ok(template.bytes(), parts.at),
        ensures
            r.wf(),
            r.template == template,
            r.parts == parts,
            r.lexer.byte == parts.at.0,
    {
        NowLexer { template, lexer: TagElementLexer::new(template, parts), parts }
    }

    fn next_element(&mut self) -> (r: Result<Option<TagElementToken>, NowError>)
        requires
            old(self).wf(),
        ensures
            final(self).wf(),
            final(self).template == old(self).template,
            final(self).parts == old(self).parts,
            match old(self).peek() {
                None => r == Ok::<Option<TagElementToken>, NowError>(None) && final(self).lexer.byte
                    == old(self).lexer.byte,
                Some((tok, next)) => r == Ok::<Option<TagElementToken>, NowError>(Some(tok))
                    && final(self).lexer.byte == next,
            },
            r matches Ok(Some(tok)) ==> span_within(
                old(self).template.bytes(),
                tok.at,
                old(self).parts.at.0 as int,
                old(self).lexer.end as int,
            ),
    {
        match self.lexer.next() {
            None => Ok(None),
            Some(Ok(tok)) => Ok(Some(tok)),
            Some(Err(LexerError::InvalidRemainder { at })) => {
                let start = self.parts.at.0;
                Ok(
                    Some(
                        TagElementToken {
                            at: (start, at.0 + at.1 - start),
                            token_type: TagElementTokenType::Variable,
                        },
                    ),
                )
            },
            Some(Err(LexerError::IncompleteString { at }))
            | Some(Err(LexerError::IncompleteTranslatedString { at }))
            | Some(Err(LexerError::MissingTranslatedString { at }))
            | Some(Err(LexerError::InvalidVariableName { at })) => Ok(
                Some(TagElementToken { at, token_type: TagElementTokenType::Variable }),
            ),
        }
    }

    /// The span of the format string.
    pub fn lex_format(&mut self) -> (r: Result<At, NowError>)
        requires
            old(self).wf(),
        ensures
            final(self).wf(),
            final(self).template == old(self).template,
            final(self).parts == old(self).parts,
            match old(self).peek() {
                None => r == Err::<At, NowError>(NowError::MissingFormat { at: old(self).parts.at }),
                Some((tok, next)) => r == Ok::<At, NowError>(tok.at) && final(self).lexer.byte == next,
            },
    {
        match self.next_element()? {
            None => Err(NowError::MissingFormat { at: self.parts.at }),
            Some(token) => Ok(token.at),
        }
    }

    /// The span of the variable named after `as`, if there is one.
    pub fn lex_variable(&mut self) -> (r: Result<Option<At>, NowError>)
        requires
            old(self).wf(),
        ensures
            final(self).wf(),
            final(self).template == old(self).template,
            final(self).parts == old(self).parts,
            match old(self).peek() {
                None => r == Ok::<Option<At>, NowError>(None),
                Some((tok, next)) => if span_bytes(old(self).template.bytes(), tok.at)
                    == "as".spec_bytes() {
                    match now_element(
                        old(self).template.bytes(),
                        next,
                        old(self).lexer.end as int,
                        old(self).parts.at.0 as int,
                    ) {
                        None => r == Err::<Option<At>, NowError>(
                            NowError::MissingVariableAfterAs {
                                at: ((tok.at.0 + tok.at.1) as usize, 0),
                            },
                        ),
                        Some((var, after)) => r == Ok::<Option<At>, NowError>(Some(var.at))
                            && final(self).lexer.byte == after,
                    }
                } else {
                    r == Err::<Option<At>, NowError>(
                        NowError::UnexpectedAfterFormat { at: tok.at },
                    )
                },
            },
    {
        let token = match self.next_element()? {
            None => return Ok(None),
            Some(token) => token,
        };
        let b = self.template.0.as_bytes();
        if span_is(b, token.at, "as".as_bytes()) {
            match self.next_element()? {
                None => Err(NowError::MissingVariableAfterAs { at: (token.at.0 + token.at.1, 0) }),
                Some(var) => Ok(Some(var.at)),
            }
        } else {
            Err(NowError::UnexpectedAfterFormat { at: token.at })
        }
    }

    /// An error for any element left after the variable name.
    pub fn extra_token(&mut self) -> (r: Result<Option<TagElementToken>, NowError>)
        requires
            old(self).wf(),
        ensures
            final(self).wf(),
            final(self).template == old(self).template,
            final(self).parts == old(self).parts,
            match old(self).peek() {
                None => r == Ok::<Option<TagElementToken>, NowError>(None),
                Some((tok, _)) => r == Err::<Option<TagElementToken>, NowError>(
                    NowError::UnexpectedAfterVariable { at: tok.at },
                ),
            },
    {
        match self.next_element()? {
            None => Ok(None),
            Some(token) => Err(NowError::UnexpectedAfterVariable { at: token.at }),
        }
    }
}

} // verus!

verus! {

/// What lexing the arguments `parts` of a `now` tag gives: the span of the
/// format and of the variable named after `as`, if any.
pub open spec fn now_result(b: Seq<u8>, parts: At) -> Result<(At, Option<At>), NowError> {
    let s = parts.0 as int;
    let e = parts.0 + parts.1;
    match now_element(b, s, e, s) {
        None => Err(NowError::MissingFormat { at: parts }),
        Some((f, i1)) => match now_element(b, i1, e, s) {
            None => Ok((f.at, None)),
            Some((t, i2)) => if span_bytes(b, t.at) == "as".spec_bytes() {
                match now_element(b, i2, e, s) {
                    None => Err(NowError::MissingVariableAfterAs { at: ((t.at.0 + t.at.1) as usize, 0) }),
                    Some((v, i3)) => match now_element(b, i3, e, s) {
                        None => Ok((f.at, Some(v.at))),
                        Some((x, _)) => Err(NowError::UnexpectedAfterVariable { at: x.at }),
                    },
                }
            } else {
                Err(NowError::UnexpectedAfterFormat { at: t.at })
            },
        },
    }
}

/// Lexes the arguments of a `now` tag: a format, then optionally `as` and a
/// variable name, and nothing else.
pub fn lex_now(template: TemplateString<'_>, parts: TagParts) -> (r: Result<(At, Option<At>), NowError>)
    requires
        span_ok(template.bytes(), parts.at),
    ensures
        r == now_result(template.bytes(), parts.at),
{
    let mut lexer = NowLexer::new(template, parts);
    let format = lexer.lex_format()?;
    let asvar = lexer.lex_variable()?;
    if asvar.is_some() {
        lexer.extra_token()?;
    }
    Ok((format, asvar))
}

} // verus!
