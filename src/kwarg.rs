//! The element lexer for tags that take keyword arguments (`name=value`).
use vstd::prelude::*;
use crate::common::LexerError;
use crate::element::{
    text_quoted, TagElementToken, element_shaped, next_element, span_within, TagElementLexer, TagElementTokenType,
};
use crate::tag::TagParts;
use crate::text::{boundary, find_whitespace, find_ws, lemma_boundary_step, skip_xid, xid_end};
use crate::types::{span_ok, At, TemplateString};

verus! {

/// An argument, with the span of its keyword when it is given as
/// `name=value`.
#[derive(Debug, Clone, Copy, PartialEq, Eq)]
pub struct SimpleTagToken {
    pub at: At,
    pub token_type: TagElementTokenType,
    pub kwarg: Option<At>,
}

/// The next argument of `[i, end)` and the position after it.
pub open spec fn next_argument(b: Seq<u8>, i: int, end: int) -> Option<
    (Result<SimpleTagToken, LexerError>, int),
> {
    if i >= end {
        None
    } else {
        let k = xid_end(b, i, end);
        if k > i && k < end && b[k] == 0x3d {
            if find_ws(b, k + 1, end) == k + 1 {
                Some((Err(LexerError::InvalidRemainder { at: ((k + 1) as usize, 0) }), end))
            } else {
                match next_element(b, k + 1, end) {
                    None => None,
                    Some((Err(e), next)) => Some((Err(e), next)),
                    Some((Ok(t), next)) => Some(
                        (
                            Ok(
                                SimpleTagToken {
                                    at: t.at,
                                    token_type: t.token_type,
                                    kwarg: Some((i as usize, (k - i) as usize)),
                                },
                            ),
                            next,
                        ),
                    ),
                }
            }
        } else {
            match next_element(b, i, end) {
                None => None,
                Some((Err(e), next)) => Some((Err(e), next)),
                Some((Ok(t), next)) => Some(
                    (Ok(SimpleTagToken { at: t.at, token_type: t.token_type, kwarg: None }), next),
                ),
            }
        }
    }
}

/// Lexes arguments that may be given by keyword.
pub struct SimpleTagLexer<'t> {
    pub lexer: TagElementLexer<'t>,
}

impl<'t> SimpleTagLexer<'t> {
    pub open spec fn wf(&self) -> bool {
        self.lexer.wf()
    }

    pub fn new(template: TemplateString<'t>, parts: TagParts) -> (r: Self)
        requires
            span_ok(template.bytes(), parts.at),
        ensures
            r.wf(),
            r.lexer.template == template,
            r.lexer.byte == parts.at.0,
            r.lexer.end == parts.at.0 + parts.at.1,
    {
        SimpleTagLexer { lexer: TagElementLexer::new(template, parts) }
    }

    /// The next argument, or `None` once they are used up. After an error
    /// the lexer yields nothing more.
    pub fn next(&mut self) -> (r: Option<Result<SimpleTagToken, LexerError>>)
        requires
            old(self).wf(),
        ensures
            final(self).wf(),
            final(self).lexer.template == old(self).lexer.template,
            final(self).lexer.end == old(self).lexer.end,
            match next_argument(
                old(self).lexer.bytes(),
                old(self).lexer.byte as int,
                old(self).lexer.end as int,
            ) {
                None => r.is_none(),
                Some((x, next)) => r == Some(x) && final(self).lexer.byte == next,
            },
            r.is_some() ==> final(self).lexer.end - final(self).lexer.byte < old(self).lexer.end
                - old(self).lexer.byte,
            r matches Some(Ok(tok)) ==> span_within(
                old(self).lexer.bytes(),
                tok.at,
                old(self).lexer.byte as int,
                old(self).lexer.end as int,
            ) && element_shaped(tok.at, tok.token_type) && (tok.kwarg matches Some(n) ==> n.0 + n.1 + 1 == tok.at.0)
                && text_quoted(old(self).lexer.bytes(), TagElementToken { at: tok.at, token_type: tok.token_type }),
    {
        let i = self.lexer.byte;
        let end = self.lexer.end;
        if i >= end {
            return None;
        }
        let b = self.lexer.template.0.as_bytes();
        proof {
            self.lexer.template.lemma_valid();
        }
        let k = skip_xid(b, i, end);
        if k > i && k < end && b[k] == 0x3d {
            proof {
                lemma_boundary_step(b@, k as int);
            }
            let w = find_whitespace(b, k + 1, end);
            if w == k + 1 {
                self.lexer.byte = end;
                return Some(Err(LexerError::InvalidRemainder { at: (k + 1, 0) }));
            }
            self.lexer.byte = k + 1;
            match self.lexer.next() {
                None => None,
                Some(Err(e)) => Some(Err(e)),
                Some(Ok(t)) => Some(
                    Ok(
                        SimpleTagToken {
                            at: t.at,
                            token_type: t.token_type,
                            kwarg: Some((i, k - i)),
                        },
                    ),
                ),
            }
        } else {
            match self.lexer.next() {
                None => None,
                Some(Err(e)) => Some(Err(e)),
                Some(Ok(t)) => Some(
                    Ok(SimpleTagToken { at: t.at, token_type: t.token_type, kwarg: None }),
                ),
            }
        }
    }
}

} // verus!
