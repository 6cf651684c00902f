//! The element lexer: yields the elements of a tag's arguments one at a time.
use vstd::prelude::*;
use vstd::utf8::valid_utf8;
use crate::common::{
    lemma_find_byte_bounds, find_byte, is_quote, numeric_end, remainder_result, scan_byte, scan_numeric, scan_variable,
    text_content_at, text_inner, text_result, translated_inner, translated_result,
    translated_text_content_at, variable_end, LexerError,
};
use crate::tag::TagParts;
use crate::text::{
    find_ws, boundary, find_whitespace, is_ws, lemma_boundary_step, lemma_ends, skip_whitespace, ws_width,
};
use crate::types::{span_ok, At, TemplateString};

verus! {

/// The kind of an element of a tag's arguments.
#[derive(Debug, Clone, Copy, PartialEq, Eq, Structural)]
pub enum TagElementTokenType {
    Numeric,
    Text,
    TranslatedText,
    Variable,
}

/// An element of a tag's arguments.
#[derive(Debug, Clone, Copy, PartialEq, Eq)]
pub struct TagElementToken {
    pub at: At,
    pub token_type: TagElementTokenType,
}

/// The span of what an element stands for: a quoted text without its quotes,
/// a translated text without `_("` and `")`, else the element itself.
pub open spec fn element_content(at: At, kind: TagElementTokenType) -> At {
    match kind {
        TagElementTokenType::Text => text_inner(at),
        TagElementTokenType::TranslatedText => translated_inner(at),
        _ => at,
    }
}

/// The shape that every element has: quotes around a text, `_("` and `")`
/// around a translated text.
pub open spec fn element_shaped(at: At, kind: TagElementTokenType) -> bool {
    &&& at.0 + at.1 <= usize::MAX
    &&& (kind == TagElementTokenType::Text ==> at.1 >= 2)
    &&& (kind == TagElementTokenType::TranslatedText ==> at.1 >= 5)
}

impl TagElementToken {
    /// The span of what the element stands for.
    pub fn content_at(&self) -> (r: At)
        requires
            element_shaped(self.at, self.token_type),
        ensures
            r == element_content(self.at, self.token_type),
    {
        match self.token_type {
            TagElementTokenType::Variable => self.at,
            TagElementTokenType::Numeric => self.at,
            TagElementTokenType::Text => text_content_at(self.at),
            TagElementTokenType::TranslatedText => translated_text_content_at(self.at),
        }
    }
}

/// The end of the element that starts at `i`, and its kind: the grammar of
/// one element.
pub open spec fn element_end(b: Seq<u8>, i: int, end: int) -> Result<
    (int, TagElementTokenType),
    LexerError,
> {
    let c = b[i];
    if c == 0x5f && i + 1 < end && b[i + 1] == 0x28 {
        match translated_result(b, i, end) {
            Ok(t) => Ok((t, TagElementTokenType::TranslatedText)),
            Err(e) => Err(e),
        }
    } else if is_quote(c) {
        match text_result(b, i, end) {
            Ok(t) => Ok((t, TagElementTokenType::Text)),
            Err(e) => Err(e),
        }
    } else if (0x30 <= c <= 0x39) || c == 0x2d {
        Ok((numeric_end(b, i, end), TagElementTokenType::Numeric))
    } else {
        Ok((variable_end(b, i, end, 0), TagElementTokenType::Variable))
    }
}

/// The next element of `[i, end)` and the position after it; after an
/// error, the lexer is at `end`.
pub open spec fn next_element(b: Seq<u8>, i: int, end: int) -> Option<
    (Result<TagElementToken, LexerError>, int),
> {
    if i >= end {
        None
    } else {
        match element_end(b, i, end) {
            Err(e) => Some((Err(e), end)),
            Ok((t, kind)) => match remainder_result(b, t, end) {
                Ok(next) => Some(
                    (Ok(TagElementToken { at: (i as usize, (t - i) as usize), token_type: kind }), next),
                ),
                Err(e) => Some((Err(e), end)),
            },
        }
    }
}

/// A span of `b` that lies in `[lo, hi]` and has boundaries at both ends.
pub open spec fn span_within(b: Seq<u8>, at: At, lo: int, hi: int) -> bool {
    lo <= at.0 && at.0 + at.1 <= hi && span_ok(b, at)
}

/// A quoted text element starts and ends with a quote.
pub open spec fn text_quoted(b: Seq<u8>, tok: TagElementToken) -> bool {
    tok.token_type == TagElementTokenType::Text ==> is_quote(b[tok.at.0 as int]) && is_quote(
        b[tok.at.0 + tok.at.1 - 1],
    )
}

/// Lexes the elements of a tag's arguments.
pub struct TagElementLexer<'t> {
    pub template: TemplateString<'t>,
    /// Where the rest of the arguments starts.
    pub byte: usize,
    /// Where the arguments end.
    pub end: usize,
}

impl<'t> TagElementLexer<'t> {
    /// The lexer is positioned inside the template, at a character boundary.
    pub open spec fn wf(&self) -> bool {
        &&& self.byte <= self.end <= self.template.bytes().len()
        &&& boundary(self.template.bytes(), self.byte as int)
        &&& boundary(self.template.bytes(), self.end as int)
    }

    pub open spec fn bytes(&self) -> Seq<u8> {
        self.template.bytes()
    }

    pub fn new(template: TemplateString<'t>, parts: TagParts) -> (r: Self)
        requires
            span_ok(template.bytes(), parts.at),
        ensures
            r.wf(),
            r.template == template,
            r.byte == parts.at.0,
            r.end == parts.at.0 + parts.at.1,
    {
        let n = template.len();
        TagElementLexer { template, byte: parts.at.0, end: parts.at.0 + parts.at.1 }
    }

    fn lex_numeric(&mut self) -> (r: TagElementToken)
        requires
            old(self).wf(),
            old(self).byte < old(self).end,
            valid_utf8(old(self).bytes()),
        ensures
            final(self).byte >= old(self).byte,
            final(self).template == old(self).template,
            final(self).end == old(self).end,
            final(self).wf(),
            final(self).byte == numeric_end(old(self).bytes(), old(self).byte as int, old(self).end as int),
            r == (TagElementToken {
                at: (old(self).byte, (final(self).byte - old(self).byte) as usize),
                token_type: TagElementTokenType::Numeric,
            }),
    {
        let b = self.template.0.as_bytes();
        let t = scan_numeric(b, self.byte, self.end);
        let at = (self.byte, t - self.byte);
        self.byte = t;
        TagElementToken { at, token_type: TagElementTokenType::Numeric }
    }

    fn lex_text(&mut self) -> (r: Result<TagElementToken, LexerError>)
        requires
            old(self).wf(),
            old(self).byte < old(self).end,
            valid_utf8(old(self).bytes()),
            is_quote(old(self).bytes()[old(self).byte as int]),
        ensures
            final(self).byte >= old(self).byte,
            final(self).template == old(self).template,
            final(self).end == old(self).end,
            final(self).wf(),
            match text_result(old(self).bytes(), old(self).byte as int, old(self).end as int) {
                Ok(t) => final(self).byte == t && r == Ok::<TagElementToken, LexerError>(
                    TagElementToken {
                        at: (old(self).byte, (t - old(self).byte) as usize),
                        token_type: TagElementTokenType::Text,
                    },
                ),
                Err(e) => final(self).byte == final(self).end && r == Err::<TagElementToken, LexerError>(e),
            },
            r matches Err(e) ==> span_within(old(self).bytes(), e.span(), old(self).byte as int, old(self).end as int),
    {
        let b = self.template.0.as_bytes();
        let i = self.byte;
        let j = scan_byte(b, i + 1, self.end, b[i]);
        if j < self.end {
            proof {
                lemma_boundary_step(b@, j as int);
            }
            self.byte = j + 1;
            Ok(TagElementToken { at: (i, j + 1 - i), token_type: TagElementTokenType::Text })
        } else {
            let at = (i, self.end - i);
            self.byte = self.end;
            Err(LexerError::IncompleteString { at })
        }
    }

    fn lex_translated(&mut self) -> (r: Result<TagElementToken, LexerError>)
        requires
            old(self).wf(),
            old(self).byte + 1 < old(self).end,
            valid_utf8(old(self).bytes()),
        ensures
            final(self).byte >= old(self).byte,
            final(self).template == old(self).template,
            final(self).end == old(self).end,
            final(self).wf(),
            match translated_result(old(self).bytes(), old(self).byte as int, old(self).end as int) {
                Ok(t) => final(self).byte == t && r == Ok::<TagElementToken, LexerError>(
                    TagElementToken {
                        at: (old(self).byte, (t - old(self).byte) as usize),
                        token_type: TagElementTokenType::TranslatedText,
                    },
                ),
                Err(e) => final(self).byte == final(self).end && r == Err::<TagElementToken, LexerError>(e),
            },
            r matches Err(e) ==> span_within(old(self).bytes(), e.span(), old(self).byte as int, old(self).end as int),
    {
        let b = self.template.0.as_bytes();
        let i = self.byte;
        let end = self.end;
        let q = i + 2;
        if q < end && (b[q] == 0x22 || b[q] == 0x27) {
            let j = scan_byte(b, q + 1, end, b[q]);
            if j < end && end - j > 1 && b[j + 1] == 0x29 {
                proof {
                    lemma_boundary_step(b@, j as int);
                    lemma_boundary_step(b@, j + 1);
                }
                self.byte = j + 2;
                return Ok(TagElementToken { at: (i, j + 2 - i), token_type: TagElementTokenType::TranslatedText });
            }
            self.byte = end;
            Err(LexerError::IncompleteTranslatedString { at: (i, end - i) })
        } else if q >= end {
            self.byte = end;
            Err(LexerError::IncompleteTranslatedString { at: (i, end - i) })
        } else {
            let w = find_whitespace(b, i, end);
            self.byte = end;
            Err(LexerError::MissingTranslatedString { at: (i, w - i) })
        }
    }

    fn lex_variable_or_filter(&mut self) -> (r: Result<TagElementToken, LexerError>)
        requires
            old(self).wf(),
        ensures
            final(self).byte >= old(self).byte,
            final(self).template == old(self).template,
            final(self).end == old(self).end,
            final(self).wf(),
            final(self).byte == variable_end(old(self).bytes(), old(self).byte as int, old(self).end as int, 0),
            r == Ok::<TagElementToken, LexerError>(TagElementToken {
                at: (old(self).byte, (final(self).byte - old(self).byte) as usize),
                token_type: TagElementTokenType::Variable,
            }),
    {
        let b = self.template.0.as_bytes();
        let t = scan_variable(b, self.byte, self.end);
        let at = (self.byte, t - self.byte);
        self.byte = t;
        Ok(TagElementToken { at, token_type: TagElementTokenType::Variable })
    }

    fn lex_remainder(&mut self, token: Result<TagElementToken, LexerError>) -> (r: Result<
        TagElementToken,
        LexerError,
    >)
        requires
            old(self).wf(),
            valid_utf8(old(self).bytes()),
            token is Ok,
        ensures
            final(self).byte >= old(self).byte,
            old(self).byte < old(self).end ==> final(self).byte > old(self).byte,
            final(self).template == old(self).template,
            final(self).end == old(self).end,
            final(self).wf(),
            match remainder_result(old(self).bytes(), old(self).byte as int, old(self).end as int) {
                Ok(next) => final(self).byte == next && r == token,
                Err(e) => final(self).byte == final(self).end && r == Err::<TagElementToken, LexerError>(e),
            },
            r matches Err(e) ==> span_within(old(self).bytes(), e.span(), old(self).byte as int, old(self).end as int),
    {
        let b = self.template.0.as_bytes();
        let t = self.byte;
        let w = find_whitespace(b, t, self.end);
        if w == t {
            proof {
                if t < self.end {
                    assert(is_ws(b@, t as int) && t + ws_width(b@, t as int) <= self.end);
                    crate::text::lemma_skip_ws_bounds(b@, t + ws_width(b@, t as int), self.end as int);
                }
            }
            self.byte = skip_whitespace(b, t, self.end);
            token
        } else {
            self.byte = self.end;
            Err(LexerError::InvalidRemainder { at: (t, w - t) })
        }
    }

    /// The next element, or `None` once the arguments are used up. After an
    /// error the lexer yields nothing more.
    pub fn next(&mut self) -> (r: Option<Result<TagElementToken, LexerError>>)
        requires
            old(self).wf(),
        ensures
            final(self).template == old(self).template,
            final(self).end == old(self).end,
            final(self).wf(),
            match next_element(old(self).bytes(), old(self).byte as int, old(self).end as int) {
                None => r.is_none() && final(self).byte == old(self).byte,
                Some((x, next)) => r == Some(x) && final(self).byte == next,
            },
            r.is_some() ==> final(self).end - final(self).byte < old(self).end - old(self).byte,
            r matches Some(Ok(tok)) ==> span_within(old(self).bytes(), tok.at, old(self).byte as int, old(self).end as int)
                && element_shaped(tok.at, tok.token_type) && text_quoted(old(self).bytes(), tok),
            r matches Some(Err(e)) ==> span_within(old(self).bytes(), e.span(), old(self).byte as int, old(self).end as int),
    {
        if self.byte >= self.end {
            return None;
        }
        proof {
            self.template.lemma_valid();
        }
        let b = self.template.0.as_bytes();
        let i = self.byte;
        let c = b[i];
        let token = if c == 0x5f && i + 1 < self.end && b[i + 1] == 0x28 {
            self.lex_translated()
        } else if c == 0x22 || c == 0x27 {
            self.lex_text()
        } else if (0x30 <= c && c <= 0x39) || c == 0x2d {
            Ok(self.lex_numeric())
        } else {
            self.lex_variable_or_filter()
        };
        if token.is_err() {
            return Some(token);
        }
        proof {
            let tok = token.unwrap();
            assert(boundary(b@, self.byte as int));
            assert(tok.at == (i, (self.byte - i) as usize));
            assert(span_within(b@, tok.at, i as int, self.end as int));
            if c == 0x5f && i + 1 < self.end && b@[i + 1] == 0x28 {
                crate::common::lemma_find_byte_bounds(b@, i + 3, self.end as int, b@[i + 2]);
            } else if c == 0x22 || c == 0x27 {
                crate::common::lemma_find_byte_bounds(b@, i + 1, self.end as int, c);
            }
        }
        Some(self.lex_remainder(token))
    }
}

/// All the elements of `[i, end)`, or the first error.
pub open spec fn elements(b: Seq<u8>, i: int, end: int) -> Result<Seq<TagElementToken>, LexerError>
    decreases end - i,
{
    match next_element(b, i, end) {
        None => Ok(Seq::empty()),
        Some((Err(e), _)) => Err(e),
        Some((Ok(t), next)) => if next <= i || next > end {
            Ok(Seq::empty())
        } else {
            match elements(b, next, end) {
                Ok(rest) => Ok(seq![t] + rest),
                Err(e) => Err(e),
            }
        },
    }
}

/// The element that `next_element` gives starts where the lexer stands and
/// ends no later than where the next one starts.
pub proof fn lemma_next_element_bounds(b: Seq<u8>, i: int, end: int)
    requires
        0 <= i <= end <= b.len(),
        end <= usize::MAX,
    ensures
        next_element(b, i, end) matches Some((x, next)) ==> i < next <= end && (x matches Ok(t) ==> t.at.0 == i && i + t.at.1 <= next),
{
    if i < end {
        let c = b[i];
        if c == 0x5f && i + 1 < end && b[i + 1] == 0x28 {
            if i + 3 <= end {
                lemma_find_byte_bounds(b, i + 3, end, b[i + 2]);
            }
        } else if is_quote(c) {
            lemma_find_byte_bounds(b, i + 1, end, c);
        } else if (0x30 <= c <= 0x39) || c == 0x2d {
            crate::common::lemma_numeric_end_bounds(b, i, end);
        } else {
            crate::common::lemma_variable_end_bounds(b, i, end, 0);
        }
        match element_end(b, i, end) {
            Ok((t, _)) => {
                crate::text::lemma_find_ws_bounds(b, t, end);
                crate::text::lemma_skip_ws_bounds(b, t, end);
                if t < end && find_ws(b, t, end) == t {
                    crate::text::lemma_find_ws_bounds(b, t + 1, end);
                    assert(is_ws(b, t) && t + ws_width(b, t) <= end);
                    crate::text::lemma_skip_ws_bounds(b, t + ws_width(b, t), end);
                }
            },
            Err(_) => {},
        }
    }
}

#[verifier::spinoff_prover]
#[verifier::rlimit(100)]
/// The elements of `[i, end)` lie inside it, in order, none overlapping
/// the next, and each starts where whitespace after the one before ends.
pub proof fn lemma_elements_ordered(b: Seq<u8>, i: int, end: int)
    requires
        0 <= i <= end <= b.len(),
        end <= usize::MAX,
    ensures
        elements(b, i, end) matches Ok(ts) ==> (forall|k: int| 0 <= k < ts.len() ==> i <= (#[trigger] ts[k]).at.0 && ts[k].at.0 + ts[k].at.1 <= end)
            && (forall|k: int| 0 <= k < ts.len() - 1 ==> (#[trigger] ts[k]).at.0 + ts[k].at.1 <= ts[k + 1].at.0),
    decreases end - i,
{
    lemma_next_element_bounds(b, i, end);
    match next_element(b, i, end) {
        Some((Ok(t), next)) => {
            if !(next <= i || next > end) {
                lemma_elements_ordered(b, next, end);
                if let Ok(rest) = elements(b, next, end) {
                    lemma_next_element_bounds(b, next, end);
                    let ts = seq![t] + rest;
                    if rest.len() > 0 {
                        assert(rest[0].at.0 >= next);
                    }
                    assert forall|k: int| 0 <= k < ts.len() implies i <= (#[trigger] ts[k]).at.0 && ts[k].at.0 + ts[k].at.1 <= end by {
                        if k > 0 {
                            assert(ts[k] == rest[k - 1]);
                        }
                    }
                    assert forall|k: int| 0 <= k < ts.len() - 1 implies (#[trigger] ts[k]).at.0 + ts[k].at.1 <= ts[k + 1].at.0 by {
                        assert(ts[k + 1] == rest[k]);
                        if k > 0 {
                            assert(ts[k] == rest[k - 1]);
                        }
                    }
                }
            }
        },
        _ => {},
    }
}

/// Lexing the same arguments twice gives the same elements and errors: the
/// result depends on the template and the span alone.
pub proof fn lemma_elements_deterministic(template: TemplateString<'_>, parts: TagParts, first: Result<Seq<TagElementToken>, LexerError>, second: Result<Seq<TagElementToken>, LexerError>)
    requires
        first == elements(template.bytes(), parts.at.0 as int, parts.at.0 + parts.at.1),
        second == elements(template.bytes(), parts.at.0 as int, parts.at.0 + parts.at.1),
    ensures
        first == second,
{
}

} // verus!
