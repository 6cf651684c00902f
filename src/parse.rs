//! The parser: turns the segments of a template into a syntax tree, matching
//! block tags with their end tags and tracking how deeply `for` loops nest.
use vstd::prelude::*;
use vstd::string::StringSliceAdditionalSpecFns;
use crate::common::{span_is, LexerError};
use crate::url::{parse_url, url_result, Url};
use crate::inclusion::IncludeLexerError;
use crate::inclusion_tag::{include_result, name_models, parse_include, Include, IncludeNameShape};
use crate::path::origin_of;
use crate::load::{lex_load, load_result};
use crate::custom_tag::{custom_parts_result, fault_error, find_end, find_end_x, find_tag, find_tag_x, simple_tag_parts, SimpleTagContext};
use crate::element::TagElementToken;
use crate::forloop::{for_result, parse_for_loop, ForParseError, ForTag};
use crate::ifcondition::{condition_result, parse_if_condition, IfCondition, IfParseError};
use crate::lorem::{lex_lorem, lorem_result, LoremError, LoremToken};
use crate::nodes::Text;
use crate::lorem::LoremMethod;
use crate::now::{lex_now, now_result, NowError};
use crate::scanner::{segments, token_sound, tokenize, ScanError, Token, TokenType};
use crate::tag::{lex_tag, tag_result, TagLexerError, TagParts};
use crate::templatetag::{lex_templatetag, templatetag_result, TemplateTag, TemplateTagError};
use crate::text::{boundary, find_whitespace, find_ws};
use crate::types::{span_bytes, span_ok, At, TemplateString, Variable};
use crate::operand::{inner, inner_x, operand_result, parse_operand, OperandError, TagElement};

verus! {

broadcast use vstd::std_specs::vec::group_vec_axioms;

/// A node of the syntax tree.
#[derive(Debug, PartialEq, Eq)]
pub enum TokenTree {
    Text(Text),
    Element(TagElement),
    Tag(Tag),
}

/// A tag node.
#[derive(Debug, PartialEq, Eq)]
pub enum Tag {
    Autoescape { enabled: bool, nodes: Vec<TokenTree> },
    If { condition: IfCondition, truthy: Vec<TokenTree>, falsey: Option<Vec<TokenTree>> },
    /// The loop, with its iterable parsed one loop deeper, as its body is.
    For { tag: ForTag, iterable: TagElement, body: Vec<TokenTree>, empty: Option<Vec<TokenTree>> },
    Url(Url),
    /// A block tag that the host registers, by its index in the registry,
    /// with its arguments and its body.
    SimpleBlockTag { tag: usize, args: Vec<TagElement>, kwargs: Vec<(At, TagElement)>, asvar: Option<At>, nodes: Vec<TokenTree> },
    /// The spans of the names, and of the library after `from`.
    Load { names: Vec<At>, library: Option<At> },
    Include(Include),
    /// A simple tag that the host registers, by its index in the registry,
    /// with its positional and keyword arguments and the variable after `as`.
    SimpleTag { tag: usize, args: Vec<TagElement>, kwargs: Vec<(At, TagElement)>, asvar: Option<At> },
    CsrfToken,
    /// The count (one when it is absent), the method, and whether the
    /// text starts with the common paragraph.
    Lorem { count: Option<TagElement>, method: LoremMethod, common: bool },
    Comment,
    /// The span of the format without its quotes, and of the variable to
    /// store the date in.
    Now { format: At, asvar: Option<At> },
    TemplateTag(TemplateTag),
}

/// The shape of a node, with sequences for bodies.
pub enum Node {
    Text(At),
    Element(TagElement),
    Autoescape(bool, Seq<Node>),
    If(IfCondition, Seq<Node>, Option<Seq<Node>>),
    For(Seq<At>, At, TagElement, bool, Seq<Node>, Option<Seq<Node>>),
    Url(TagElement, Seq<TagElement>, Seq<(At, TagElement)>, Option<At>),
    Load(Seq<At>, Option<At>),
    SimpleBlockTag(usize, Seq<TagElement>, Seq<(At, TagElement)>, Option<At>, Seq<Node>),
    Include(IncludeNameShape, Seq<(At, TagElement)>, bool),
    SimpleTag(usize, Seq<TagElement>, Seq<(At, TagElement)>, Option<At>),
    CsrfToken,
    Lorem(Option<TagElement>, LoremMethod, bool),
    Comment,
    Now(At, Option<At>),
    TemplateTag(TemplateTag),
}

/// The tree `t` has the shape `n`.
#[verifier::opaque]
pub open spec fn models(t: TokenTree, n: Node) -> bool
    decreases t, 0int,
{
    match t {
        TokenTree::Text(x) => n == Node::Text(x.at),
        TokenTree::Element(e) => n == Node::Element(e),
        TokenTree::Tag(tag) => match tag {
            Tag::Autoescape { enabled, nodes } => match n {
                Node::Autoescape(en, ns) => en == enabled && models_seq(nodes@, ns),
                _ => false,
            },
            Tag::If { condition, truthy, falsey } => match n {
                Node::If(c, ts, fs) => c == condition && models_seq(truthy@, ts) && match (falsey, fs) {
                    (None, None) => true,
                    (Some(v), Some(s)) => models_seq(v@, s),
                    _ => false,
                },
                _ => false,
            },
            Tag::For { tag, iterable, body, empty } => match n {
                Node::For(names, names_at, it, rev, bs, es) => tag.names@ == names && tag.names_at == names_at
                    && iterable == it && tag.reversed == rev && models_seq(body@, bs) && match (empty, es) {
                    (None, None) => true,
                    (Some(v), Some(s)) => models_seq(v@, s),
                    _ => false,
                },
                _ => false,
            },
            Tag::Url(u) => n == Node::Url(u.view_name, u.args@, u.kwargs@, u.asvar),
            Tag::Include(i) => match n {
                Node::Include(name, kwargs, only) => name_models(i.template_name, name) && i.kwargs@ == kwargs && i.only == only,
                _ => false,
            },
            Tag::SimpleTag { tag, args, kwargs, asvar } => n == Node::SimpleTag(tag, args@, kwargs@, asvar),
            Tag::Load { names, library } => n == Node::Load(names@, library),
            Tag::SimpleBlockTag { tag, args, kwargs, asvar, nodes } => match n {
                Node::SimpleBlockTag(t, a, kw, v, ns) => t == tag && a == args@ && kw == kwargs@ && v == asvar && models_seq(nodes@, ns),
                _ => false,
            },
            Tag::CsrfToken => n == Node::CsrfToken,
            Tag::Lorem { count, method, common } => n == Node::Lorem(count, method, common),
            Tag::Comment => n == Node::Comment,
            Tag::Now { format, asvar } => n == Node::Now(format, asvar),
            Tag::TemplateTag(t) => n == Node::TemplateTag(t),
        },
    }
}

/// Each tree of `v` has the shape at the same place of `ns`.
pub open spec fn models_seq(v: Seq<TokenTree>, ns: Seq<Node>) -> bool
    decreases v, 1int,
{
    &&& v.len() == ns.len()
    &&& forall|i: int| 0 <= i < ns.len() ==> models(#[trigger] v[i], ns[i])
}

} // verus!

verus! {

/// Why a template cannot be parsed. Every variant carries spans into the
/// template.
#[derive(Debug, Clone, Copy, PartialEq, Eq)]
pub enum ParseError {
    ScanError(ScanError),
    TagLexerError(TagLexerError),
    OperandError(OperandError),
    IfParseError(IfParseError),
    ForParseError(ForParseError),
    LoremError(LoremError),
    NowError(NowError),
    TemplateTagError(TemplateTagError),
    LexerError(LexerError),
    /// A `url` tag without a view name.
    UrlTagNoArguments { at: At },
    /// `as` is the last argument.
    MissingVariableAfterAs { at: At },
    /// Arguments follow the variable after `as`; the span covers the first.
    UnexpectedTokensAfterAsVariable { at: At },
    /// Positional and keyword arguments are mixed.
    MixedArgsKwargs { at: At },
    IncludeLexerError(IncludeLexerError),
    /// A tag that needs an argument has none; the span is the tag's.
    MissingArgument { at: At },
    /// An argument where none is allowed.
    UnexpectedArgument { at: At },
    /// `only` is given twice.
    IncludeOnlyTwice { first_at: At, second_at: At },
    /// `with` is followed by no keyword argument.
    MissingKeywordArgument { at: At },
    /// A relative template name climbs out of the referring template's
    /// directory tree; the span covers the name.
    RelativePathOutside { at: At },
    /// A relative template name, but the referring template's name is not
    /// known.
    UnknownOrigin { at: At },
    /// A registered block tag's function does not take `content` first.
    RequiresContent { at: At },
    /// A registered block tag's function that takes the context does not
    /// take `context` and `content` first.
    RequiresContextAndContent { at: At },
    /// A registered tag's function that takes the context does not take
    /// `context` first.
    RequiresContext { at: At },
    /// A positional argument of a simple tag at `at` follows the keyword
    /// argument at `after`.
    PositionalAfterKeyword { at: At, after: At },
    TooManyPositionalArguments { at: At },
    UnexpectedKeywordArgument { at: At },
    DuplicateKeywordArgument { first_at: At, second_at: At },
    /// Parameters of a simple tag's function are given no value; the span
    /// covers the arguments.
    MissingArguments { at: At },
    /// `{{ }}` holds nothing.
    EmptyVariable { at: At },
    /// The argument of `autoescape` is neither `on` nor `off`.
    InvalidAutoescape { at: At },
    /// A tag that is not one of the built-in tags.
    UnknownTag { at: At },
    /// An end tag with no open block tag.
    UnexpectedEndTag { at: At },
    /// An end tag that does not close the open block tag at `start_at`.
    WrongEndTag { at: At, start_at: At },
    /// The block tag at `at` is never closed.
    MissingEndTag { at: At },
}

/// A closing or continuing tag.
#[derive(Debug, Clone, Copy, PartialEq, Eq, Structural)]
pub enum EndKind {
    /// The end tag of the registered block tag with this index.
    Custom(usize),
    EndAutoescape,
    Elif,
    Else,
    EndIf,
    Empty,
    EndFor,
}

/// An end tag: the span of its segment, its kind and its arguments.
#[derive(Debug, Clone, Copy, PartialEq, Eq)]
pub struct EndTag {
    pub at: At,
    pub kind: EndKind,
    pub parts: At,
}

/// Which end tags may close the block being parsed.
#[derive(Debug, Clone, Copy, PartialEq, Eq, Structural)]
pub enum Until {
    /// `elif`, `else` or `endif`.
    IfBody,
    /// `endif`.
    ElseBody,
    /// `empty` or `endfor`.
    ForBody,
    /// `endfor`.
    EmptyBody,
    /// `endautoescape`.
    AutoescapeBody,
    /// The end tag of the registered block tag with this index.
    Custom(usize),
}

pub open spec fn accepts(u: Until, k: EndKind) -> bool {
    match u {
        Until::IfBody => k == EndKind::Elif || k == EndKind::Else || k == EndKind::EndIf,
        Until::ElseBody => k == EndKind::EndIf,
        Until::ForBody => k == EndKind::Empty || k == EndKind::EndFor,
        Until::EmptyBody => k == EndKind::EndFor,
        Until::AutoescapeBody => k == EndKind::EndAutoescape,
        Until::Custom(i) => k == EndKind::Custom(i),
    }
}

/// What one segment gives: a node, an end tag or nothing, with the index
/// of the segment after it.
pub enum Step {
    Node(Node, int),
    End(EndTag, int),
    Skip(int),
}

/// The nesting depth inside one more loop.
pub open spec fn deeper(depth: usize) -> usize {
    if depth < usize::MAX {
        (depth + 1) as usize
    } else {
        depth
    }
}

/// The span between `{%` and `%}` of a tag segment.
pub open spec fn tag_inner(at: At) -> At {
    ((at.0 + 2) as usize, (at.1 - 4) as usize)
}

pub open spec fn word_is(b: Seq<u8>, at: At, w: &str) -> bool {
    span_bytes(b, at) == w.spec_bytes()
}

/// The index of the first segment from `i` on that is an `endcomment` tag,
/// or the number of segments.
pub open spec fn comment_end(b: Seq<u8>, toks: Seq<Token>, i: int) -> int
    decreases toks.len() - i,
{
    if i >= toks.len() || i < 0 {
        toks.len() as int
    } else {
        let t = toks[i];
        let c = t.content_at;
        if t.token_type == TokenType::Tag && b.subrange(c.0 as int, find_ws(b, c.0 as int, c.0 + c.1)) == "endcomment".spec_bytes() {
            i
        } else {
            comment_end(b, toks, i + 1)
        }
    }
}

/// The argument of `autoescape`: `on` or `off`.
pub open spec fn autoescape_result(b: Seq<u8>, parts: At) -> Result<bool, ParseError> {
    if word_is(b, parts, "on") {
        Ok(true)
    } else if word_is(b, parts, "off") {
        Ok(false)
    } else {
        Err(ParseError::InvalidAutoescape { at: parts })
    }
}

/// What the segment at `pos` gives inside `depth` loops.
#[verifier::opaque]
pub open spec fn step(b: Seq<u8>, toks: Seq<Token>, pos: int, depth: usize, ext: Seq<String>, org: Option<Seq<char>>, tg: Seq<(String, SimpleTagContext)>) -> Result<Step, ParseError>
    decreases toks.len() - pos, 4int,
{
    if pos < 0 || pos >= toks.len() {
        Ok(Step::Skip(pos + 1))
    } else {
        let seg = toks[pos];
        match seg.token_type {
            TokenType::Text => Ok(Step::Node(Node::Text(seg.at), pos + 1)),
            TokenType::Comment => Ok(Step::Skip(pos + 1)),
            TokenType::Variable => match operand_result(b, seg.content_at.0 as int, seg.content_at.0 + seg.content_at.1, depth, ext) {
                Err(e) => Err(ParseError::OperandError(e)),
                Ok(None) => Err(ParseError::EmptyVariable { at: seg.at }),
                Ok(Some(e)) => Ok(Step::Node(Node::Element(e), pos + 1)),
            },
            TokenType::Tag => {
                let inside = tag_inner(seg.at);
                match tag_result(span_bytes(b, inside), inside.0 as int) {
                    Err(e) => Err(ParseError::TagLexerError(e)),
                    Ok(tag) => tag_step(b, toks, pos, depth, seg.at, tag.at, tag.parts.at, ext, org, tg),
                }
            },
        }
    }
}

/// What a tag that opens no block gives: an end tag, a one-segment node, or
/// an error for an unknown name.
pub open spec fn simple_step(b: Seq<u8>, pos: int, at: At, name: At, parts: At, depth: usize, ext: Seq<String>, org: Option<Seq<char>>, tg: Seq<(String, SimpleTagContext)>) -> Result<Step, ParseError> {
    if word_is(b, name, "elif") {
        Ok(Step::End(EndTag { at, kind: EndKind::Elif, parts }, pos + 1))
    } else if word_is(b, name, "else") {
        Ok(Step::End(EndTag { at, kind: EndKind::Else, parts }, pos + 1))
    } else if word_is(b, name, "endif") {
        Ok(Step::End(EndTag { at, kind: EndKind::EndIf, parts }, pos + 1))
    } else if word_is(b, name, "empty") {
        Ok(Step::End(EndTag { at, kind: EndKind::Empty, parts }, pos + 1))
    } else if word_is(b, name, "endfor") {
        Ok(Step::End(EndTag { at, kind: EndKind::EndFor, parts }, pos + 1))
    } else if word_is(b, name, "endautoescape") {
        Ok(Step::End(EndTag { at, kind: EndKind::EndAutoescape, parts }, pos + 1))
    } else if find_end(tg, span_bytes(b, name), 0) is Some {
        Ok(Step::End(EndTag { at, kind: EndKind::Custom(find_end(tg, span_bytes(b, name), 0).unwrap() as usize), parts }, pos + 1))
    } else {
        content_step(b, pos, at, name, parts, depth, ext, org, tg)
    }
}

/// What a tag that opens no block and is no end tag gives.
pub open spec fn content_step(b: Seq<u8>, pos: int, at: At, name: At, parts: At, depth: usize, ext: Seq<String>, org: Option<Seq<char>>, tg: Seq<(String, SimpleTagContext)>) -> Result<Step, ParseError> {
    if word_is(b, name, "load") {
        Ok(Step::Node(Node::Load(load_result(b, parts).0, load_result(b, parts).1), pos + 1))
    } else if word_is(b, name, "lorem") {
        match lorem_result(b, parts) {
            Err(e) => Err(ParseError::LoremError(e)),
            Ok(l) => match l.count_at {
                None => Ok(Step::Node(Node::Lorem(None, l.method, l.common), pos + 1)),
                Some(c) => match operand_result(b, c.0 as int, c.0 + c.1, depth, ext) {
                    Err(e) => Err(ParseError::OperandError(e)),
                    Ok(count) => Ok(Step::Node(Node::Lorem(count, l.method, l.common), pos + 1)),
                },
            },
        }
    } else if word_is(b, name, "now") {
        match now_result(b, parts) {
            Err(e) => Err(ParseError::NowError(e)),
            Ok((format, asvar)) => Ok(Step::Node(Node::Now(inner(format, 1, 2), asvar), pos + 1)),
        }
    } else if word_is(b, name, "templatetag") {
        match templatetag_result(b, parts) {
            Err(e) => Err(ParseError::TemplateTagError(e)),
            Ok(t) => Ok(Step::Node(Node::TemplateTag(t), pos + 1)),
        }
    } else if word_is(b, name, "url") {
        match url_result(b, parts, at, depth, ext) {
            Err(e) => Err(e),
            Ok((view, args, kwargs, asvar)) => Ok(Step::Node(Node::Url(view, args, kwargs, asvar), pos + 1)),
        }
    } else {
        more_step(b, pos, at, name, parts, depth, ext, org, tg)
    }
}

/// What the inclusion tag, `csrf_token` or a registered simple tag gives.
pub open spec fn more_step(b: Seq<u8>, pos: int, at: At, name: At, parts: At, depth: usize, ext: Seq<String>, org: Option<Seq<char>>, tg: Seq<(String, SimpleTagContext)>) -> Result<Step, ParseError> {
    if word_is(b, name, "include") {
        match include_result(b, parts, at, depth, ext, org) {
            Err(e) => Err(e),
            Ok((template_name, kwargs, only)) => Ok(Step::Node(Node::Include(template_name, kwargs, only), pos + 1)),
        }
    } else if word_is(b, name, "csrf_token") {
        Ok(Step::Node(Node::CsrfToken, pos + 1))
    } else {
        match find_tag(tg, span_bytes(b, name), 0) {
            None => Err(ParseError::UnknownTag { at: name }),
            Some(i) => match custom_parts_result(b, parts, tg[i].1, depth, ext) {
                Err(f) => Err(fault_error(f, parts)),
                Ok((a, kw, asvar)) => Ok(Step::Node(Node::SimpleTag(i as usize, a, kw, asvar), pos + 1)),
            },
        }
    }
}

/// What the tag at `pos`, named at `name` with arguments `parts`, gives.
#[verifier::opaque]
pub open spec fn tag_step(b: Seq<u8>, toks: Seq<Token>, pos: int, depth: usize, at: At, name: At, parts: At, ext: Seq<String>, org: Option<Seq<char>>, tg: Seq<(String, SimpleTagContext)>) -> Result<Step, ParseError>
    decreases toks.len() - pos, 3int,
{
    let n = toks.len() as int;
    if pos < 0 || pos >= n {
        Err(ParseError::MissingEndTag { at })
    } else if word_is(b, name, "if") {
        match if_chain(b, toks, pos, parts, at, depth, ext, org, tg) {
            Ok((node, q)) => Ok(Step::Node(node, q)),
            Err(e) => Err(e),
        }
    } else if word_is(b, name, "for") {
        for_step(b, toks, pos, depth, at, parts, ext, org, tg)
    } else if word_is(b, name, "autoescape") {
        autoescape_step(b, toks, pos, depth, at, parts, ext, org, tg)
    } else if word_is(b, name, "comment") {
        let q = comment_end(b, toks, pos + 1);
        if q >= n {
            Err(ParseError::MissingEndTag { at })
        } else {
            Ok(Step::Node(Node::Comment, q + 1))
        }
    } else if is_block_name(tg, b, name) {
        block_step(b, toks, pos, depth, at, parts, ext, org, tg, find_tag(tg, span_bytes(b, name), 0).unwrap())
    } else {
        simple_step(b, pos, at, name, parts, depth, ext, org, tg)
    }
}

/// `name` names a registered block tag.
pub open spec fn is_block_name(tg: Seq<(String, SimpleTagContext)>, b: Seq<u8>, name: At) -> bool {
    match find_tag(tg, span_bytes(b, name), 0) {
        Some(i) => tg[i].1.end_name is Some,
        None => false,
    }
}

/// A registered block tag at `pos`: its arguments, and its body up to its
/// end tag.
#[verifier::opaque]
pub open spec fn block_step(b: Seq<u8>, toks: Seq<Token>, pos: int, depth: usize, at: At, parts: At, ext: Seq<String>, org: Option<Seq<char>>, tg: Seq<(String, SimpleTagContext)>, i: int) -> Result<Step, ParseError>
    decreases toks.len() - pos, 2int,
{
    if pos < 0 || pos >= toks.len() || i < 0 || i >= tg.len() {
        Err(ParseError::MissingEndTag { at })
    } else {
        match custom_parts_result(b, parts, tg[i].1, depth, ext) {
            Err(f) => Err(fault_error(f, parts)),
            Ok((a, kw, asvar)) => match until(b, toks, pos + 1, depth, Until::Custom(i as usize), at, ext, org, tg) {
                Err(e) => Err(e),
                Ok((nodes, _, q)) => Ok(Step::Node(Node::SimpleBlockTag(i as usize, a, kw, asvar, nodes), q)),
            },
        }
    }
}

/// A `for` tag at `pos`: its body one loop deeper, up to `empty` or
/// `endfor`, and the `empty` branch up to `endfor`.
#[verifier::opaque]
pub open spec fn for_step(b: Seq<u8>, toks: Seq<Token>, pos: int, depth: usize, at: At, parts: At, ext: Seq<String>, org: Option<Seq<char>>, tg: Seq<(String, SimpleTagContext)>) -> Result<Step, ParseError>
    decreases toks.len() - pos, 2int,
{
    let n = toks.len() as int;
    if pos < 0 || pos >= n {
        Err(ParseError::MissingEndTag { at })
    } else {
        match for_result(b, parts, at) {
            Err(e) => Err(ParseError::ForParseError(e)),
            Ok((names, names_at, tok, rev)) => match operand_result(b, tok.at.0 as int, tok.at.0 + tok.at.1, deeper(depth), ext) {
                Err(e) => Err(ParseError::OperandError(e)),
                Ok(None) => Err(ParseError::EmptyVariable { at: tok.at }),
                Ok(Some(it)) => match until(b, toks, pos + 1, deeper(depth), Until::ForBody, at, ext, org, tg) {
                    Err(e) => Err(e),
                    Ok((body, end, q)) => if q <= pos || q > n {
                        Err(ParseError::MissingEndTag { at })
                    } else if end.kind == EndKind::Empty {
                        match until(b, toks, q, depth, Until::EmptyBody, end.at, ext, org, tg) {
                            Err(e) => Err(e),
                            Ok((empty, _, r)) => Ok(Step::Node(Node::For(names, names_at, it, rev, body, Some(empty)), r)),
                        }
                    } else {
                        Ok(Step::Node(Node::For(names, names_at, it, rev, body, None), q))
                    },
                },
            },
        }
    }
}

/// An `autoescape` tag at `pos`: `on` or `off`, and its body up to
/// `endautoescape`.
#[verifier::opaque]
pub open spec fn autoescape_step(b: Seq<u8>, toks: Seq<Token>, pos: int, depth: usize, at: At, parts: At, ext: Seq<String>, org: Option<Seq<char>>, tg: Seq<(String, SimpleTagContext)>) -> Result<Step, ParseError>
    decreases toks.len() - pos, 2int,
{
    if pos < 0 || pos >= toks.len() {
        Err(ParseError::MissingEndTag { at })
    } else {
        match autoescape_result(b, parts) {
            Err(e) => Err(e),
            Ok(enabled) => match until(b, toks, pos + 1, depth, Until::AutoescapeBody, at, ext, org, tg) {
                Err(e) => Err(e),
                Ok((nodes, _, q)) => Ok(Step::Node(Node::Autoescape(enabled, nodes), q)),
            },
        }
    }
}

/// An `if` (or `elif`) tag at `pos` with the condition `parts`: its node and
/// the index of the segment after its `endif`.
#[verifier::opaque]
pub open spec fn if_chain(b: Seq<u8>, toks: Seq<Token>, pos: int, parts: At, at: At, depth: usize, ext: Seq<String>, org: Option<Seq<char>>, tg: Seq<(String, SimpleTagContext)>) -> Result<(Node, int), ParseError>
    decreases toks.len() - pos, 2int,
{
    if pos < 0 || pos >= toks.len() {
        Err(ParseError::MissingEndTag { at })
    } else {
    match condition_result(b, parts, at, depth, ext) {
        Err(e) => Err(ParseError::IfParseError(e)),
        Ok(cond) => match until(b, toks, pos + 1, depth, Until::IfBody, at, ext, org, tg) {
            Err(e) => Err(e),
            Ok((truthy, end, q)) => if q <= pos + 1 || q > toks.len() {
                Err(ParseError::MissingEndTag { at })
            } else if end.kind == EndKind::Elif {
                match if_chain(b, toks, q - 1, end.parts, end.at, depth, ext, org, tg) {
                    Err(e) => Err(e),
                    Ok((node, r)) => Ok((Node::If(cond, truthy, Some(seq![node])), r)),
                }
            } else if end.kind == EndKind::Else {
                match until(b, toks, q, depth, Until::ElseBody, end.at, ext, org, tg) {
                    Err(e) => Err(e),
                    Ok((falsey, _, r)) => Ok((Node::If(cond, truthy, Some(falsey)), r)),
                }
            } else {
                Ok((Node::If(cond, truthy, None), q))
            },
        },
    }
    }
}

/// The nodes from `pos` up to an end tag that `u` accepts: the nodes, the
/// end tag, and the index of the segment after it. The block was opened at
/// `start_at`.
#[verifier::opaque]
pub open spec fn until(b: Seq<u8>, toks: Seq<Token>, pos: int, depth: usize, u: Until, start_at: At, ext: Seq<String>, org: Option<Seq<char>>, tg: Seq<(String, SimpleTagContext)>) -> Result<(Seq<Node>, EndTag, int), ParseError>
    decreases toks.len() - pos, 5int,
{
    if pos < 0 || pos >= toks.len() {
        Err(ParseError::MissingEndTag { at: start_at })
    } else {
        match step(b, toks, pos, depth, ext, org, tg) {
            Err(e) => Err(e),
            Ok(Step::End(e, q)) => if accepts(u, e.kind) {
                Ok((Seq::empty(), e, q))
            } else {
                Err(ParseError::WrongEndTag { at: e.at, start_at })
            },
            Ok(Step::Skip(q)) => if q <= pos || q > toks.len() {
                Err(ParseError::MissingEndTag { at: start_at })
            } else {
                until(b, toks, q, depth, u, start_at, ext, org, tg)
            },
            Ok(Step::Node(node, q)) => if q <= pos || q > toks.len() {
                Err(ParseError::MissingEndTag { at: start_at })
            } else {
                match until(b, toks, q, depth, u, start_at, ext, org, tg) {
                    Err(e) => Err(e),
                    Ok((ns, e, r)) => Ok((seq![node] + ns, e, r)),
                }
            },
        }
    }
}

/// The top-level nodes from `pos` on, outside any block.
#[verifier::opaque]
pub open spec fn top(b: Seq<u8>, toks: Seq<Token>, pos: int, ext: Seq<String>, org: Option<Seq<char>>, tg: Seq<(String, SimpleTagContext)>) -> Result<Seq<Node>, ParseError>
    decreases toks.len() - pos, 6int,
{
    if pos < 0 || pos >= toks.len() {
        Ok(Seq::empty())
    } else {
        match step(b, toks, pos, 0, ext, org, tg) {
            Err(e) => Err(e),
            Ok(Step::End(e, _)) => Err(ParseError::UnexpectedEndTag { at: e.at }),
            Ok(Step::Skip(q)) => if q <= pos || q > toks.len() {
                Ok(Seq::empty())
            } else {
                top(b, toks, q, ext, org, tg)
            },
            Ok(Step::Node(node, q)) => if q <= pos || q > toks.len() {
                Ok(Seq::empty())
            } else {
                match top(b, toks, q, ext, org, tg) {
                    Err(e) => Err(e),
                    Ok(ns) => Ok(seq![node] + ns),
                }
            },
        }
    }
}

/// What parsing a whole template gives.
pub open spec fn parse_result(b: Seq<u8>, ext: Seq<String>, org: Option<Seq<char>>, tg: Seq<(String, SimpleTagContext)>) -> Result<Seq<Node>, ParseError> {
    match segments(b, 0) {
        Err(e) => Err(ParseError::ScanError(e)),
        Ok(toks) => top(b, toks, 0, ext, org, tg),
    }
}

} // verus!

verus! {

/// What one segment gives, in the tree's own types.
pub enum StepX {
    Node(TokenTree, usize),
    End(EndTag, usize),
    Skip(usize),
}

pub open spec fn step_matches(r: Result<StepX, ParseError>, s: Result<Step, ParseError>) -> bool {
    match (r, s) {
        (Err(e1), Err(e2)) => e1 == e2,
        (Ok(StepX::Node(t, q1)), Ok(Step::Node(n, q2))) => models(t, n) && q1 == q2,
        (Ok(StepX::End(e1, q1)), Ok(Step::End(e2, q2))) => e1 == e2 && q1 == q2,
        (Ok(StepX::Skip(q1)), Ok(Step::Skip(q2))) => q1 == q2,
        _ => false,
    }
}

/// The segments are those of the template, each of them sound.
pub open spec fn sound_segments(b: Seq<u8>, toks: Seq<Token>) -> bool {
    forall|k: int| 0 <= k < toks.len() ==> token_sound(b, #[trigger] toks[k])
}

proof fn lemma_models_push(v: Seq<TokenTree>, ns: Seq<Node>, t: TokenTree, n: Node)
    requires
        models_seq(v, ns),
        models(t, n),
    ensures
        models_seq(v.push(t), ns.push(n)),
{
    reveal_with_fuel(models, 2);
    reveal_with_fuel(models_seq, 2);
    assert forall|i: int| 0 <= i < ns.push(n).len() implies models(#[trigger] v.push(t)[i], ns.push(n)[i]) by {
        if i < ns.len() {
            assert(v.push(t)[i] == v[i]);
            assert(ns.push(n)[i] == ns[i]);
            assert(models(v[i], ns[i]));
        } else {
            assert(v.push(t)[i] == t);
            assert(ns.push(n)[i] == n);
        }
    }
}

proof fn lemma_sound_sub(b: Seq<u8>, inside: At, at: At)
    requires
        span_ok(b, inside),
        crate::tag::sound_in(span_bytes(b, inside), inside.0 as int, at),
    ensures
        span_ok(b, at),
{
    let sub = span_bytes(b, inside);
    let k0 = at.0 - inside.0;
    let k1 = at.0 + at.1 - inside.0;
    if k0 < sub.len() {
        assert(sub[k0] == b[at.0 as int]);
    }
    if k1 < sub.len() {
        assert(sub[k1] == b[at.0 + at.1]);
    }
}

fn word_x(b: &[u8], at: At, w: &str) -> (r: bool)
    requires
        at.0 + at.1 <= b@.len(),
    ensures
        r == (b@.subrange(at.0 as int, at.0 + at.1) == w.spec_bytes()),
{
    span_is(b, at, w.as_bytes())
}

#[verifier::rlimit(100)]
#[verifier::spinoff_prover]
fn step_x(template: TemplateString<'_>, toks: &Vec<Token>, pos: usize, depth: usize, external: &Vec<String>, origin: Option<&str>, tags: &Vec<(String, SimpleTagContext)>) -> (r: Result<StepX, ParseError>)
    requires
        sound_segments(template.bytes(), toks@),
        pos < toks@.len(),
        depth <= pos,
    ensures
        step_matches(r, step(template.bytes(), toks@, pos as int, depth, external@, origin_of(origin), tags@)),
        r matches Ok(StepX::End(e, _)) ==> span_ok(template.bytes(), e.parts),
    decreases toks@.len() - pos, 4int,
{
    reveal(step);
    reveal(models);
    let count = toks.len();
    let size = template.len();
    let seg = toks[pos];
    assert(token_sound(template.bytes(), toks@[pos as int]));
    match seg.token_type {
        TokenType::Text => Ok(StepX::Node(TokenTree::Text(Text::new(seg.at)), pos + 1)),
        TokenType::Comment => Ok(StepX::Skip(pos + 1)),
        TokenType::Variable => match parse_operand(template, seg.content_at, depth, external) {
            Err(e) => Err(ParseError::OperandError(e)),
            Ok(None) => Err(ParseError::EmptyVariable { at: seg.at }),
            Ok(Some(e)) => Ok(StepX::Node(TokenTree::Element(e), pos + 1)),
        },
        TokenType::Tag => {
            let inside = (seg.at.0 + 2, seg.at.1 - 4);
            let content = template.content(inside);
            proof {
                template.lemma_valid();
            }
            let b = template.0.as_bytes();
            let n = b.len();
            match lex_tag(content, inside.0) {
                Err(e) => Err(ParseError::TagLexerError(e)),
                Ok(tag) => {
                    proof {
                        lemma_sound_sub(b@, inside, tag.at);
                        lemma_sound_sub(b@, inside, tag.parts.at);
                    }
                    tag_step_x(template, toks, pos, depth, seg.at, tag.at, tag.parts.at, external, origin, tags)
                },
            }
        },
    }
}

fn comment_end_x(template: TemplateString<'_>, toks: &Vec<Token>, from: usize) -> (r: usize)
    requires
        sound_segments(template.bytes(), toks@),
        from <= toks@.len(),
    ensures
        r == comment_end(template.bytes(), toks@, from as int),
{
    let b = template.0.as_bytes();
    let n = b.len();
    let mut i = from;
    while i < toks.len()
        invariant
            from <= i <= toks@.len(),
            n == b@.len(),
            b@ == template.bytes(),
            sound_segments(b@, toks@),
            comment_end(b@, toks@, i as int) == comment_end(b@, toks@, from as int),
        decreases toks.len() - i,
    {
        let t = toks[i];
        assert(token_sound(b@, toks@[i as int]));
        let c = t.content_at;
        if t.token_type == TokenType::Tag {
            let w = find_whitespace(b, c.0, c.0 + c.1);
            if span_is(b, (c.0, w - c.0), "endcomment".as_bytes()) {
                return i;
            }
        }
        i = i + 1;
    }
    i
}

#[verifier::spinoff_prover]
#[verifier::rlimit(100)]
fn simple_step_x(template: TemplateString<'_>, pos: usize, at: At, name: At, parts: At, depth: usize, external: &Vec<String>, origin: Option<&str>, tags: &Vec<(String, SimpleTagContext)>) -> (r: Result<StepX, ParseError>)
    requires
        pos < usize::MAX,
        span_ok(template.bytes(), name),
        span_ok(template.bytes(), parts),
    ensures
        step_matches(r, simple_step(template.bytes(), pos as int, at, name, parts, depth, external@, origin_of(origin), tags@)),
        r matches Ok(StepX::End(e, _)) ==> span_ok(template.bytes(), e.parts),
{
    reveal(models);
    let size = template.len();
    let b = template.0.as_bytes();
    let tp = TagParts { at: parts };
    if word_x(b, name, "elif") {
        Ok(StepX::End(EndTag { at, kind: EndKind::Elif, parts }, pos + 1))
    } else if word_x(b, name, "else") {
        Ok(StepX::End(EndTag { at, kind: EndKind::Else, parts }, pos + 1))
    } else if word_x(b, name, "endif") {
        Ok(StepX::End(EndTag { at, kind: EndKind::EndIf, parts }, pos + 1))
    } else if word_x(b, name, "empty") {
        Ok(StepX::End(EndTag { at, kind: EndKind::Empty, parts }, pos + 1))
    } else if word_x(b, name, "endfor") {
        Ok(StepX::End(EndTag { at, kind: EndKind::EndFor, parts }, pos + 1))
    } else if word_x(b, name, "endautoescape") {
        Ok(StepX::End(EndTag { at, kind: EndKind::EndAutoescape, parts }, pos + 1))
    } else {
        match find_end_x(b, name, tags) {
            Some(i) => Ok(StepX::End(EndTag { at, kind: EndKind::Custom(i), parts }, pos + 1)),
            None => content_step_x(template, pos, at, name, parts, depth, external, origin, tags),
        }
    }
}

#[verifier::spinoff_prover]
#[verifier::rlimit(100)]
fn content_step_x(template: TemplateString<'_>, pos: usize, at: At, name: At, parts: At, depth: usize, external: &Vec<String>, origin: Option<&str>, tags: &Vec<(String, SimpleTagContext)>) -> (r: Result<StepX, ParseError>)
    requires
        pos < usize::MAX,
        span_ok(template.bytes(), name),
        span_ok(template.bytes(), parts),
    ensures
        step_matches(r, content_step(template.bytes(), pos as int, at, name, parts, depth, external@, origin_of(origin), tags@)),
        !(r matches Ok(StepX::End(_, _))),
{
    reveal(models);
    let size = template.len();
    let b = template.0.as_bytes();
    let tp = TagParts { at: parts };
    if word_x(b, name, "load") {
        let (names, library) = lex_load(template, tp);
        Ok(StepX::Node(TokenTree::Tag(Tag::Load { names, library }), pos + 1))
    } else if word_x(b, name, "lorem") {
        match lex_lorem(template, tp) {
            Err(e) => Err(ParseError::LoremError(e)),
            Ok(l) => match l.count_at {
                None => Ok(StepX::Node(TokenTree::Tag(Tag::Lorem { count: None, method: l.method, common: l.common }), pos + 1)),
                Some(c) => {
                    proof {
                        crate::lorem::lemma_lorem_count_in(template.bytes(), parts);
                    }
                    match parse_operand(template, c, depth, external) {
                        Err(e) => Err(ParseError::OperandError(e)),
                        Ok(count) => Ok(StepX::Node(TokenTree::Tag(Tag::Lorem { count, method: l.method, common: l.common }), pos + 1)),
                    }
                },
            },
        }
    } else if word_x(b, name, "now") {
        match lex_now(template, tp) {
            Err(e) => Err(ParseError::NowError(e)),
            Ok((format, asvar)) => Ok(StepX::Node(TokenTree::Tag(Tag::Now { format: inner_x(format, 1, 2), asvar }), pos + 1)),
        }
    } else if word_x(b, name, "templatetag") {
        match lex_templatetag(template, tp) {
            Err(e) => Err(ParseError::TemplateTagError(e)),
            Ok(t) => Ok(StepX::Node(TokenTree::Tag(Tag::TemplateTag(t)), pos + 1)),
        }
    } else if word_x(b, name, "url") {
        match parse_url(template, tp, at, depth, external) {
            Err(e) => Err(e),
            Ok(u) => Ok(StepX::Node(TokenTree::Tag(Tag::Url(u)), pos + 1)),
        }
    } else {
        more_step_x(template, pos, at, name, parts, depth, external, origin, tags)
    }
}

#[verifier::spinoff_prover]
#[verifier::rlimit(100)]
fn more_step_x(template: TemplateString<'_>, pos: usize, at: At, name: At, parts: At, depth: usize, external: &Vec<String>, origin: Option<&str>, tags: &Vec<(String, SimpleTagContext)>) -> (r: Result<StepX, ParseError>)
    requires
        pos < usize::MAX,
        span_ok(template.bytes(), name),
        span_ok(template.bytes(), parts),
    ensures
        step_matches(r, more_step(template.bytes(), pos as int, at, name, parts, depth, external@, origin_of(origin), tags@)),
        !(r matches Ok(StepX::End(_, _))),
{
    reveal(models);
    let size = template.len();
    let b = template.0.as_bytes();
    let tp = TagParts { at: parts };
    if word_x(b, name, "include") {
        match parse_include(template, tp, at, depth, external, origin) {
            Err(e) => Err(e),
            Ok(i) => Ok(StepX::Node(TokenTree::Tag(Tag::Include(i)), pos + 1)),
        }
    } else if word_x(b, name, "csrf_token") {
        Ok(StepX::Node(TokenTree::Tag(Tag::CsrfToken), pos + 1))
    } else {
        match find_tag_x(b, name, tags) {
            None => Err(ParseError::UnknownTag { at: name }),
            Some(i) => {
                assert(find_tag(tags@, span_bytes(template.bytes(), name), 0) == Some(i as int));
                match simple_tag_parts(template, tp, &tags[i].1, depth, external) {
                    Err(e) => Err(e),
                    Ok((args, kwargs, asvar)) => {
                        let tree = TokenTree::Tag(Tag::SimpleTag { tag: i, args, kwargs, asvar });
                        assert(models(tree, Node::SimpleTag(i, args@, kwargs@, asvar)));
                        Ok(StepX::Node(tree, pos + 1))
                    },
                }
            },
        }
    }
}

#[verifier::rlimit(100)]
#[verifier::spinoff_prover]
fn tag_step_x(template: TemplateString<'_>, toks: &Vec<Token>, pos: usize, depth: usize, at: At, name: At, parts: At, external: &Vec<String>, origin: Option<&str>, tags: &Vec<(String, SimpleTagContext)>) -> (r: Result<StepX, ParseError>)
    requires
        sound_segments(template.bytes(), toks@),
        pos < toks@.len(),
        depth <= pos,
        span_ok(template.bytes(), name),
        span_ok(template.bytes(), parts),
    ensures
        step_matches(r, tag_step(template.bytes(), toks@, pos as int, depth, at, name, parts, external@, origin_of(origin), tags@)),
        r matches Ok(StepX::End(e, _)) ==> span_ok(template.bytes(), e.parts),
    decreases toks@.len() - pos, 3int,
{
    reveal(tag_step);
    reveal(models);
    let count = toks.len();
    let b = template.0.as_bytes();
    if word_x(b, name, "if") {
        return match if_chain_x(template, toks, pos, parts, at, depth, external, origin, tags) {
            Ok((t, q)) => Ok(StepX::Node(t, q)),
            Err(e) => Err(e),
        };
    }
    if word_x(b, name, "for") {
        return for_step_x(template, toks, pos, depth, at, parts, external, origin, tags);
    }
    if word_x(b, name, "autoescape") {
        return autoescape_x(template, toks, pos, depth, at, parts, external, origin, tags);
    }
    if word_x(b, name, "comment") {
        let q = comment_end_x(template, toks, pos + 1);
        if q >= toks.len() {
            return Err(ParseError::MissingEndTag { at });
        }
        return Ok(StepX::Node(TokenTree::Tag(Tag::Comment), q + 1));
    }
    if let Some(i) = find_tag_x(b, name, tags) {
        if tags[i].1.end_name.is_some() {
            return block_step_x(template, toks, pos, depth, at, parts, external, origin, tags, i);
        }
    }
    simple_step_x(template, pos, at, name, parts, depth, external, origin, tags)
}

#[verifier::spinoff_prover]
#[verifier::rlimit(100)]
fn block_step_x(template: TemplateString<'_>, toks: &Vec<Token>, pos: usize, depth: usize, at: At, parts: At, external: &Vec<String>, origin: Option<&str>, tags: &Vec<(String, SimpleTagContext)>, i: usize) -> (r: Result<StepX, ParseError>)
    requires
        sound_segments(template.bytes(), toks@),
        pos < toks@.len(),
        depth <= pos,
        span_ok(template.bytes(), parts),
        i < tags@.len(),
    ensures
        step_matches(r, block_step(template.bytes(), toks@, pos as int, depth, at, parts, external@, origin_of(origin), tags@, i as int)),
        !(r matches Ok(StepX::End(_, _))),
    decreases toks@.len() - pos, 2int,
{
    reveal(block_step);
    reveal(models);
    let count = toks.len();
    let (args, kwargs, asvar) = simple_tag_parts(template, TagParts { at: parts }, &tags[i].1, depth, external)?;
    let (nodes, _, q) = until_x(template, toks, pos + 1, depth, Until::Custom(i), at, external, origin, tags)?;
    Ok(StepX::Node(TokenTree::Tag(Tag::SimpleBlockTag { tag: i, args, kwargs, asvar, nodes }), q))
}

#[verifier::rlimit(100)]
#[verifier::spinoff_prover]
fn for_step_x(template: TemplateString<'_>, toks: &Vec<Token>, pos: usize, depth: usize, at: At, parts: At, external: &Vec<String>, origin: Option<&str>, tags: &Vec<(String, SimpleTagContext)>) -> (r: Result<StepX, ParseError>)
    requires
        sound_segments(template.bytes(), toks@),
        pos < toks@.len(),
        depth <= pos,
        span_ok(template.bytes(), parts),
    ensures
        step_matches(r, for_step(template.bytes(), toks@, pos as int, depth, at, parts, external@, origin_of(origin), tags@)),
        !(r matches Ok(StepX::End(_, _))),
    decreases toks@.len() - pos, 2int,
{
    reveal(for_step);
    reveal(models);
    let count = toks.len();
    let tag = match parse_for_loop(template, TagParts { at: parts }, at) {
        Err(e) => return Err(ParseError::ForParseError(e)),
        Ok(tag) => tag,
    };
    let iterable = match parse_operand(template, tag.iterable.at, depth + 1, external) {
        Err(e) => return Err(ParseError::OperandError(e)),
        Ok(None) => return Err(ParseError::EmptyVariable { at: tag.iterable.at }),
        Ok(Some(it)) => it,
    };
    let (body, end, q) = until_x(template, toks, pos + 1, depth + 1, Until::ForBody, at, external, origin, tags)?;
    if q <= pos || q > toks.len() {
        return Err(ParseError::MissingEndTag { at });
    }
    if end.kind == EndKind::Empty {
        let (empty, _, r) = until_x(template, toks, q, depth, Until::EmptyBody, end.at, external, origin, tags)?;
        return Ok(StepX::Node(TokenTree::Tag(Tag::For { tag, iterable, body, empty: Some(empty) }), r));
    }
    Ok(StepX::Node(TokenTree::Tag(Tag::For { tag, iterable, body, empty: None }), q))
}

#[verifier::rlimit(100)]
#[verifier::spinoff_prover]
fn autoescape_x(template: TemplateString<'_>, toks: &Vec<Token>, pos: usize, depth: usize, at: At, parts: At, external: &Vec<String>, origin: Option<&str>, tags: &Vec<(String, SimpleTagContext)>) -> (r: Result<StepX, ParseError>)
    requires
        sound_segments(template.bytes(), toks@),
        pos < toks@.len(),
        depth <= pos,
        span_ok(template.bytes(), parts),
    ensures
        step_matches(r, autoescape_step(template.bytes(), toks@, pos as int, depth, at, parts, external@, origin_of(origin), tags@)),
        !(r matches Ok(StepX::End(_, _))),
    decreases toks@.len() - pos, 2int,
{
    reveal(autoescape_step);
    reveal(models);
    let count = toks.len();
    let b = template.0.as_bytes();
    let enabled = if word_x(b, parts, "on") {
        true
    } else if word_x(b, parts, "off") {
        false
    } else {
        return Err(ParseError::InvalidAutoescape { at: parts });
    };
    let ghost spec_enabled = autoescape_result(template.bytes(), parts);
    assert(spec_enabled == Ok::<bool, ParseError>(enabled));
    let ghost body = until(template.bytes(), toks@, pos + 1, depth, Until::AutoescapeBody, at, external@, origin_of(origin), tags@);
    let (nodes, _, q) = match until_x(template, toks, pos + 1, depth, Until::AutoescapeBody, at, external, origin, tags) {
        Err(e) => {
            assert(body == Err::<(Seq<Node>, EndTag, int), ParseError>(e));
            return Err(e);
        },
        Ok(x) => x,
    };
    let ghost ns = match body {
        Ok((ns, _, _)) => ns,
        Err(_) => Seq::empty(),
    };
    let tree = TokenTree::Tag(Tag::Autoescape { enabled, nodes });
    assert(models(tree, Node::Autoescape(enabled, ns)));
    Ok(StepX::Node(tree, q))
}

#[verifier::rlimit(100)]
#[verifier::spinoff_prover]
fn if_chain_x(template: TemplateString<'_>, toks: &Vec<Token>, pos: usize, parts: At, at: At, depth: usize, external: &Vec<String>, origin: Option<&str>, tags: &Vec<(String, SimpleTagContext)>) -> (r: Result<(TokenTree, usize), ParseError>)
    requires
        sound_segments(template.bytes(), toks@),
        pos < toks@.len(),
        depth <= pos,
        span_ok(template.bytes(), parts),
    ensures
        match if_chain(template.bytes(), toks@, pos as int, parts, at, depth, external@, origin_of(origin), tags@) {
            Ok((n, q)) => r matches Ok((t, q2)) && models(t, n) && q2 == q,
            Err(e) => r == Err::<(TokenTree, usize), ParseError>(e),
        },
    decreases toks@.len() - pos, 2int,
{
    reveal_with_fuel(if_chain, 1);
    reveal(models);
    let count = toks.len();
    let condition = match parse_if_condition(template, TagParts { at: parts }, at, depth, external) {
        Err(e) => return Err(ParseError::IfParseError(e)),
        Ok(c) => c,
    };
    let (truthy, end, q) = until_x(template, toks, pos + 1, depth, Until::IfBody, at, external, origin, tags)?;
    if q <= pos + 1 || q > toks.len() {
        return Err(ParseError::MissingEndTag { at });
    }
    if end.kind == EndKind::Elif {
        let (node, r) = if_chain_x(template, toks, q - 1, end.parts, end.at, depth, external, origin, tags)?;
        let mut falsey: Vec<TokenTree> = Vec::new();
        falsey.push(node);
        proof {
            let ghost n = match if_chain(template.bytes(), toks@, q - 1, end.parts, end.at, depth, external@, origin_of(origin), tags@) {
                Ok((n, _)) => n,
                Err(_) => Node::Comment,
            };
            assert(seq![n] =~= Seq::<Node>::empty().push(n));
            lemma_models_push(Seq::<TokenTree>::empty(), Seq::<Node>::empty(), falsey@[0], n);
            assert(falsey@ =~= Seq::<TokenTree>::empty().push(falsey@[0]));
        }
        return Ok((TokenTree::Tag(Tag::If { condition, truthy, falsey: Some(falsey) }), r));
    }
    if end.kind == EndKind::Else {
        let (falsey, _, r) = until_x(template, toks, q, depth, Until::ElseBody, end.at, external, origin, tags)?;
        return Ok((TokenTree::Tag(Tag::If { condition, truthy, falsey: Some(falsey) }), r));
    }
    Ok((TokenTree::Tag(Tag::If { condition, truthy, falsey: None }), q))
}

#[verifier::rlimit(100)]
#[verifier::spinoff_prover]
fn until_x(template: TemplateString<'_>, toks: &Vec<Token>, pos: usize, depth: usize, u: Until, start_at: At, external: &Vec<String>, origin: Option<&str>, tags: &Vec<(String, SimpleTagContext)>) -> (r: Result<(Vec<TokenTree>, EndTag, usize), ParseError>)
    requires
        sound_segments(template.bytes(), toks@),
        pos <= toks@.len(),
        depth <= pos,
    ensures
        match until(template.bytes(), toks@, pos as int, depth, u, start_at, external@, origin_of(origin), tags@) {
            Ok((ns, e, q)) => r matches Ok((v, e2, q2)) && models_seq(v@, ns) && e2 == e && q2 == q && span_ok(template.bytes(), e.parts),
            Err(e) => r == Err::<(Vec<TokenTree>, EndTag, usize), ParseError>(e),
        },
    decreases toks@.len() - pos, 5int,
{
    let ghost b = template.bytes();
    let ghost goal = until(b, toks@, pos as int, depth, u, start_at, external@, origin_of(origin), tags@);
    let mut nodes: Vec<TokenTree> = Vec::new();
    let ghost mut shapes: Seq<Node> = Seq::empty();
    let mut i = pos;
    loop
        invariant
            pos <= i <= toks@.len(),
            depth <= pos,
            b == template.bytes(),
            goal == until(b, toks@, pos as int, depth, u, start_at, external@, origin_of(origin), tags@),
            sound_segments(b, toks@),
            models_seq(nodes@, shapes),
            goal == match until(b, toks@, i as int, depth, u, start_at, external@, origin_of(origin), tags@) {
                Ok((ns, e, q)) => Ok::<(Seq<Node>, EndTag, int), ParseError>((shapes + ns, e, q)),
                Err(e) => Err(e),
            },
        decreases toks@.len() - i,
    {
        reveal_with_fuel(until, 1);
        if i >= toks.len() {
            return Err(ParseError::MissingEndTag { at: start_at });
        }
        let ghost spec_step = step(b, toks@, i as int, depth, external@, origin_of(origin), tags@);
        match step_x(template, toks, i, depth, external, origin, tags)? {
            StepX::End(e, q) => {
                let ok = match u {
                    Until::IfBody => e.kind == EndKind::Elif || e.kind == EndKind::Else || e.kind == EndKind::EndIf,
                    Until::ElseBody => e.kind == EndKind::EndIf,
                    Until::ForBody => e.kind == EndKind::Empty || e.kind == EndKind::EndFor,
                    Until::EmptyBody => e.kind == EndKind::EndFor,
                    Until::AutoescapeBody => e.kind == EndKind::EndAutoescape,
                    Until::Custom(i) => e.kind == EndKind::Custom(i),
                };
                if ok {
                    proof {
                        assert(shapes + Seq::<Node>::empty() =~= shapes);
                    }
                    return Ok((nodes, e, q));
                }
                return Err(ParseError::WrongEndTag { at: e.at, start_at });
            },
            StepX::Skip(q) => {
                if q <= i || q > toks.len() {
                    return Err(ParseError::MissingEndTag { at: start_at });
                }
                i = q;
            },
            StepX::Node(t, q) => {
                if q <= i || q > toks.len() {
                    return Err(ParseError::MissingEndTag { at: start_at });
                }
                let ghost n = match spec_step {
                    Ok(Step::Node(n, _)) => n,
                    _ => Node::Comment,
                };
                proof {
                    lemma_models_push(nodes@, shapes, t, n);
                    match until(b, toks@, q as int, depth, u, start_at, external@, origin_of(origin), tags@) {
                        Ok((ns, e, r)) => {
                            assert(shapes + (seq![n] + ns) =~= shapes.push(n) + ns);
                        },
                        Err(_) => {},
                    }
                }
                nodes.push(t);
                proof {
                    shapes = shapes.push(n);
                }
                i = q;
            },
        }
    }
}

/// Parses a template into its top-level nodes. Each block tag's body runs
/// up to one of the end tags it accepts; any other end tag, or the end of
/// the template, is an error that names the span of the block tag. `for`
/// bodies are parsed one loop deeper, which decides which `forloop`
/// variables resolve to loop state.
/// `external` names the filters the host registers; `origin` is the name of
/// the template being parsed, against which relative template names
/// resolve; `tags` are the simple tags the host registers, by name.
pub fn parse(template: TemplateString<'_>, external: &Vec<String>, origin: Option<&str>, tags: &Vec<(String, SimpleTagContext)>) -> (r: Result<Vec<TokenTree>, ParseError>)
    ensures
        match parse_result(template.bytes(), external@, origin_of(origin), tags@) {
            Ok(ns) => r matches Ok(v) && models_seq(v@, ns),
            Err(e) => r == Err::<Vec<TokenTree>, ParseError>(e),
        },
{
    let toks = match tokenize(template) {
        Err(e) => return Err(ParseError::ScanError(e)),
        Ok(toks) => toks,
    };
    let ghost b = template.bytes();
    let ghost goal = top(b, toks@, 0, external@, origin_of(origin), tags@);
    let mut nodes: Vec<TokenTree> = Vec::new();
    let ghost mut shapes: Seq<Node> = Seq::empty();
    let mut i: usize = 0;
    loop
        invariant
            i <= toks@.len(),
            b == template.bytes(),
            sound_segments(b, toks@),
            segments(b, 0) == Ok::<Seq<Token>, ScanError>(toks@),
            models_seq(nodes@, shapes),
            goal == top(b, toks@, 0, external@, origin_of(origin), tags@),
            goal == match top(b, toks@, i as int, external@, origin_of(origin), tags@) {
                Ok(ns) => Ok::<Seq<Node>, ParseError>(shapes + ns),
                Err(e) => Err(e),
            },
        decreases toks@.len() - i,
    {
        reveal(top);
        if i >= toks.len() {
            proof {
                assert(shapes + Seq::<Node>::empty() =~= shapes);
            }
            return Ok(nodes);
        }
        let ghost spec_step = step(b, toks@, i as int, 0, external@, origin_of(origin), tags@);
        match step_x(template, &toks, i, 0, external, origin, tags)? {
            StepX::End(e, _) => {
                return Err(ParseError::UnexpectedEndTag { at: e.at });
            },
            StepX::Skip(q) => {
                if q <= i || q > toks.len() {
                    proof {
                        assert(shapes + Seq::<Node>::empty() =~= shapes);
                    }
                    return Ok(nodes);
                }
                i = q;
            },
            StepX::Node(t, q) => {
                if q <= i || q > toks.len() {
                    proof {
                        assert(shapes + Seq::<Node>::empty() =~= shapes);
                    }
                    return Ok(nodes);
                }
                let ghost n = match spec_step {
                    Ok(Step::Node(n, _)) => n,
                    _ => Node::Comment,
                };
                proof {
                    lemma_models_push(nodes@, shapes, t, n);
                    match top(b, toks@, q as int, external@, origin_of(origin), tags@) {
                        Ok(ns) => {
                            assert(shapes + (seq![n] + ns) =~= shapes.push(n) + ns);
                        },
                        Err(_) => {},
                    }
                }
                nodes.push(t);
                proof {
                    shapes = shapes.push(n);
                }
                i = q;
            },
        }
    }
}

} // verus!
