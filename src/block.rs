//! The `block` and `endblock` tags: an optional block name and nothing else.
use vstd::prelude::*;
use crate::tag::TagParts;
use crate::text::{find_whitespace, find_ws, skip_whitespace, skip_ws};
use crate::types::{span_ok, At, TemplateString};

verus! {

/// The name of a block.
#[derive(Debug, Clone, Copy, PartialEq, Eq)]
pub struct BlockToken {
    pub at: At,
}

/// A `block` or `endblock` tag with more than its name.
#[derive(Debug, Clone, Copy, PartialEq, Eq)]
pub enum BlockLexerError {
    UnexpectedArguments { name: &'static str, at: At },
}

/// Whether the tag opens or closes a block.
#[derive(Debug, Clone, Copy, PartialEq, Eq)]
pub enum BlockType {
    Start,
    End,
}

/// The tag's own name, for messages.
pub open spec fn block_tag_name(t: BlockType) -> &'static str {
    match t {
        BlockType::Start => "block",
        BlockType::End => "endblock",
    }
}

/// What lexing the arguments `[s, e)` of a block tag gives.
pub open spec fn block_result(b: Seq<u8>, s: int, e: int, t: BlockType) -> Result<
    Option<BlockToken>,
    BlockLexerError,
> {
    if s >= e {
        Ok(None)
    } else {
        let w = find_ws(b, s, e);
        let next = skip_ws(b, w, e);
        if next >= e {
            Ok(Some(BlockToken { at: (s as usize, (w - s) as usize) }))
        } else {
            Err(
                BlockLexerError::UnexpectedArguments {
                    name: block_tag_name(t),
                    at: (next as usize, (e - next) as usize),
                },
            )
        }
    }
}

/// Lexes the arguments of a `block` or `endblock` tag: at most one name.
pub fn lex_block(template: TemplateString, parts: TagParts, block_type: BlockType) -> (r: Result<
    Option<BlockToken>,
    BlockLexerError,
>)
    requires
        span_ok(template.bytes(), parts.at),
    ensures
        r == block_result(
            template.bytes(),
            parts.at.0 as int,
            parts.at.0 + parts.at.1,
            block_type,
        ),
{
    let b = template.0.as_bytes();
    let n = b.len();
    let s = parts.at.0;
    let e = parts.at.0 + parts.at.1;
    if s >= e {
        return Ok(None);
    }
    let w = find_whitespace(b, s, e);
    let next = skip_whitespace(b, w, e);
    if next >= e {
        Ok(Some(BlockToken { at: (s, w - s) }))
    } else {
        let name = match block_type {
            BlockType::Start => "block",
            BlockType::End => "endblock",
        };
        Err(BlockLexerError::UnexpectedArguments { name, at: (next, e - next) })
    }
}

} // verus!
