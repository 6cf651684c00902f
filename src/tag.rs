//! The tag-name lexer: splits the text between `{%` and `%}` into the tag's
//! name and the rest of its arguments.
use vstd::prelude::*;
use vstd::string::StringSliceAdditionalSpecFns;
use vstd::utf8::valid_utf8;
use crate::text::{
    boundary, content_end, find_whitespace, find_ws, lemma_ends, skip_whitespace, skip_ws,
    skip_xid, trim_end, xid_end,
};
use crate::types::{span_ok, At, TemplateString};
use crate::{END_TAG_LEN, START_TAG_LEN};

verus! {

/// Why the text of a tag has no valid name.
#[derive(Debug, Clone, Copy, PartialEq, Eq)]
pub enum TagLexerError {
    /// The name runs straight into a character that cannot be part of it.
    InvalidTagName { at: At },
    /// The tag holds only whitespace; the span covers the whole tag with its
    /// delimiters.
    EmptyTag { at: At },
}

/// The arguments of a tag: what follows its name, trimmed.
#[derive(Debug, Clone, Copy, PartialEq, Eq)]
pub struct TagParts {
    pub at: At,
}

impl TagParts {
    pub fn content<'t>(&self, template: TemplateString<'t>) -> (r: &'t str)
        requires
            span_ok(template.bytes(), self.at),
        ensures
            r.spec_bytes() == template.bytes().subrange(self.at.0 as int, self.at.0 + self.at.1),
    {
        template.content(self.at)
    }
}

/// A lexed tag: the span of its name and its arguments.
#[derive(Debug, Clone, Copy, PartialEq, Eq)]
pub struct Tag {
    pub at: At,
    pub parts: TagParts,
}

impl Tag {
    pub fn content<'t>(&self, template: TemplateString<'t>) -> (r: &'t str)
        requires
            span_ok(template.bytes(), self.at),
        ensures
            r.spec_bytes() == template.bytes().subrange(self.at.0 as int, self.at.0 + self.at.1),
    {
        template.content(self.at)
    }
}

/// A span of `b`, which starts at `start` in the template, as a span of the
/// template.
pub open spec fn shifted(start: int, from: int, to: int) -> At {
    ((start + from) as usize, (to - from) as usize)
}

/// What lexing the tag text `b`, found at offset `start`, gives.
pub open spec fn tag_result(b: Seq<u8>, start: int) -> Result<Tag, TagLexerError> {
    let n = b.len() as int;
    let s = skip_ws(b, 0, n);
    if s == n {
        Err(
            TagLexerError::EmptyTag {
                at: ((start - START_TAG_LEN) as usize, (START_TAG_LEN + n + END_TAG_LEN) as usize),
            },
        )
    } else {
        let e = content_end(b, s, n, s);
        let name_end = xid_end(b, s, e);
        if name_end == e {
            Ok(Tag { at: shifted(start, s, e), parts: TagParts { at: shifted(start, e, e) } })
        } else {
            let ws = find_ws(b, s, e);
            if ws > name_end {
                Err(TagLexerError::InvalidTagName { at: shifted(start, s, ws) })
            } else {
                let p = skip_ws(b, name_end, e);
                Ok(
                    Tag {
                        at: shifted(start, s, name_end),
                        parts: TagParts { at: shifted(start, p, e) },
                    },
                )
            }
        }
    }
}

/// `at`, a span of the template, is a sound span of `b`, found at `start`.
pub open spec fn sound_in(b: Seq<u8>, start: int, at: At) -> bool {
    at.0 >= start && span_ok(b, ((at.0 - start) as usize, at.1))
}

/// Tokenizes the text between `{%` and `%}` into a `Tag`: the span of the
/// name and the span of the remaining arguments, both trimmed. `start` is the
/// offset of `tag` in the template.
pub fn lex_tag(tag: &str, start: usize) -> (r: Result<Tag, TagLexerError>)
    requires
        START_TAG_LEN <= start,
        start + tag.spec_bytes().len() + END_TAG_LEN <= usize::MAX,
    ensures
        r == tag_result(tag.spec_bytes(), start as int),
        r matches Ok(t) ==> sound_in(tag.spec_bytes(), start as int, t.at) && sound_in(
            tag.spec_bytes(),
            start as int,
            t.parts.at,
        ),
        r matches Err(TagLexerError::InvalidTagName { at }) ==> sound_in(
            tag.spec_bytes(),
            start as int,
            at,
        ),
{
    let b = tag.as_bytes();
    let n = b.len();
    proof {
        vstd::utf8::encode_utf8_valid_utf8(tag@);
        lemma_ends(b@);
    }
    let s = skip_whitespace(b, 0, n);
    if s == n {
        return Err(
            TagLexerError::EmptyTag {
                at: (start - START_TAG_LEN, START_TAG_LEN + n + END_TAG_LEN),
            },
        );
    }
    let e = trim_end(b, s, n);
    let name_end = skip_xid(b, s, e);
    if name_end == e {
        return Ok(Tag { at: (start + s, e - s), parts: TagParts { at: (start + e, 0) } });
    }
    let ws = find_whitespace(b, s, e);
    if ws > name_end {
        return Err(TagLexerError::InvalidTagName { at: (start + s, ws - s) });
    }
    let p = skip_whitespace(b, name_end, e);
    Ok(Tag { at: (start + s, name_end - s), parts: TagParts { at: (start + p, e - p) } })
}

/// `at` moved `k` bytes further into the template.
pub open spec fn moved(at: At, k: int) -> At {
    ((at.0 + k) as usize, at.1)
}

/// A lexing result with every span moved `k` bytes further.
pub open spec fn moved_result(r: Result<Tag, TagLexerError>, k: int) -> Result<Tag, TagLexerError> {
    match r {
        Ok(t) => Ok(Tag { at: moved(t.at, k), parts: TagParts { at: moved(t.parts.at, k) } }),
        Err(TagLexerError::InvalidTagName { at }) => Err(TagLexerError::InvalidTagName { at: moved(at, k) }),
        Err(TagLexerError::EmptyTag { at }) => Err(TagLexerError::EmptyTag { at: moved(at, k) }),
    }
}

/// Lexing the same tag text at an offset `k` bytes further gives the same
/// shape of result, every span moved by `k`: where a tag stands does not
/// change how it lexes.
pub proof fn lemma_lex_tag_moved(b: Seq<u8>, start: int, k: int)
    requires
        START_TAG_LEN <= start,
        0 <= k,
        start + k + b.len() + END_TAG_LEN <= usize::MAX,
    ensures
        tag_result(b, start + k) == moved_result(tag_result(b, start), k),
{
    let n = b.len() as int;
    crate::text::lemma_skip_ws_bounds(b, 0, n);
    let s = skip_ws(b, 0, n);
    if s < n {
        crate::text::lemma_content_end_bounds(b, s, n, s);
        let e = content_end(b, s, n, s);
        crate::text::lemma_xid_end_bounds(b, s, e);
        let name_end = xid_end(b, s, e);
        crate::text::lemma_find_ws_bounds(b, s, e);
        crate::text::lemma_skip_ws_bounds(b, name_end, e);
    }
}

/// Span soundness of a lexed tag: the name is non-empty, lies in the tag
/// text, and comes before the arguments, which end inside the tag text.
pub proof fn lemma_lex_tag_order(b: Seq<u8>, start: int)
    requires
        START_TAG_LEN <= start,
        start + b.len() + END_TAG_LEN <= usize::MAX,
    ensures
        tag_result(b, start) matches Ok(t) ==> start <= t.at.0 && t.at.1 > 0 && t.at.0 + t.at.1
            <= t.parts.at.0 && t.parts.at.0 + t.parts.at.1 <= start + b.len(),
{
    let n = b.len() as int;
    crate::text::lemma_skip_ws_bounds(b, 0, n);
    let s = skip_ws(b, 0, n);
    if s < n {
        crate::text::lemma_content_end_bounds(b, s + 1, n, s + 1);
        crate::text::lemma_content_end_bounds(b, s, n, s);
        let e = content_end(b, s, n, s);
        assert(e > s);
        crate::text::lemma_xid_end_bounds(b, s, e);
        let name_end = xid_end(b, s, e);
        crate::text::lemma_find_ws_bounds(b, s, e);
        crate::text::lemma_find_ws_bounds(b, s + 1, e);
        crate::text::lemma_skip_ws_bounds(b, name_end, e);
    }
}

} // verus!
