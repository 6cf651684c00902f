//! The arguments of a `comment` tag, which are lexed and then ignored.
use vstd::prelude::*;
use crate::common::LexerError;
use crate::element::{next_element, TagElementLexer, TagElementToken};
use crate::tag::TagParts;
use crate::types::{span_ok, TemplateString};

verus! {

/// Lexes the elements of a `comment` tag's arguments.
pub struct CommentLexer<'t> {
    pub lexer: TagElementLexer<'t>,
}

impl<'t> CommentLexer<'t> {
    pub fn new(template: TemplateString<'t>, parts: TagParts) -> (r: Self)
        requires
            span_ok(template.bytes(), parts.at),
        ensures
            r.lexer.wf(),
            r.lexer.template == template,
            r.lexer.byte == parts.at.0,
            r.lexer.end == parts.at.0 + parts.at.1,
    {
        CommentLexer { lexer: TagElementLexer::new(template, parts) }
    }

    /// The next element, exactly as the element lexer gives it.
    pub fn next(&mut self) -> (r: Option<Result<TagElementToken, LexerError>>)
        requires
            old(self).lexer.wf(),
        ensures
            final(self).lexer.wf(),
            final(self).lexer.template == old(self).lexer.template,
            final(self).lexer.end == old(self).lexer.end,
            match next_element(
                old(self).lexer.bytes(),
                old(self).lexer.byte as int,
                old(self).lexer.end as int,
            ) {
                None => r.is_none() && final(self).lexer.byte == old(self).lexer.byte,
                Some((x, next)) => r == Some(x) && final(self).lexer.byte == next,
            },
            r.is_some() ==> final(self).lexer.end - final(self).lexer.byte < old(self).lexer.end
                - old(self).lexer.byte,
    {
        self.lexer.next()
    }
}

} // verus!
