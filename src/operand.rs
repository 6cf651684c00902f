//! Operands: literals, variables, loop variables and filter chains, as tags
//! and `{{ ... }}` use them, with each filter checked against the built-in
//! filters and those the host registers.
use vstd::prelude::*;
use vstd::string::StringSliceAdditionalSpecFns;
use vstd::utf8::encode_utf8;
use crate::common::span_is;
use crate::element::{TagElementToken, TagElementTokenType};
use crate::loopvar::{for_variable_of, parse_for_variable};
use crate::nodes::{ForVariable, Text, TranslatedText};
use crate::types::{span_bytes, span_ok, At, TemplateString, Variable};
use crate::variable::{chain_result, filters_within, lex_variable_or_filter, FilterToken, VariableLexerError};

verus! {

/// The filters that the library knows, and filters that the host registers.
#[derive(Debug, Clone, Copy, PartialEq, Eq, Structural)]
pub enum FilterKind {
    Add,
    AddSlashes,
    Capfirst,
    Center,
    Cut,
    Date,
    Default,
    DefaultIfNone,
    Escape,
    Escapejs,
    Length,
    Lower,
    Safe,
    Slugify,
    Title,
    Upper,
    Wordcount,
    Wordwrap,
    Yesno,
    /// A filter that the host registers by name.
    External,
}

/// Whether a filter takes an argument.
#[derive(Debug, Clone, Copy, PartialEq, Eq, Structural)]
pub enum Arity {
    Required,
    Forbidden,
    Optional,
}

pub open spec fn arity(k: FilterKind) -> Arity {
    match k {
        FilterKind::Add | FilterKind::Center | FilterKind::Cut | FilterKind::Default
        | FilterKind::DefaultIfNone | FilterKind::Wordwrap => Arity::Required,
        FilterKind::Date | FilterKind::Yesno | FilterKind::External => Arity::Optional,
        _ => Arity::Forbidden,
    }
}

/// The built-in filter that a name names.
pub open spec fn builtin_of(w: Seq<u8>) -> Option<FilterKind> {
    if w == "add".spec_bytes() { Some(FilterKind::Add) }
    else if w == "addslashes".spec_bytes() { Some(FilterKind::AddSlashes) }
    else if w == "capfirst".spec_bytes() { Some(FilterKind::Capfirst) }
    else if w == "center".spec_bytes() { Some(FilterKind::Center) }
    else if w == "cut".spec_bytes() { Some(FilterKind::Cut) }
    else if w == "date".spec_bytes() { Some(FilterKind::Date) }
    else if w == "default".spec_bytes() { Some(FilterKind::Default) }
    else if w == "default_if_none".spec_bytes() { Some(FilterKind::DefaultIfNone) }
    else if w == "escape".spec_bytes() { Some(FilterKind::Escape) }
    else if w == "escapejs".spec_bytes() { Some(FilterKind::Escapejs) }
    else if w == "length".spec_bytes() { Some(FilterKind::Length) }
    else if w == "lower".spec_bytes() { Some(FilterKind::Lower) }
    else if w == "safe".spec_bytes() { Some(FilterKind::Safe) }
    else if w == "slugify".spec_bytes() { Some(FilterKind::Slugify) }
    else if w == "title".spec_bytes() { Some(FilterKind::Title) }
    else if w == "upper".spec_bytes() { Some(FilterKind::Upper) }
    else if w == "wordcount".spec_bytes() { Some(FilterKind::Wordcount) }
    else if w == "wordwrap".spec_bytes() { Some(FilterKind::Wordwrap) }
    else if w == "yesno".spec_bytes() { Some(FilterKind::Yesno) }
    else { None }
}

/// `w` is one of the names the host registers.
pub open spec fn registered(ext: Seq<String>, w: Seq<u8>) -> bool {
    exists|i: int| 0 <= i < ext.len() && encode_utf8(#[trigger] ext[i]@) == w
}

/// Why an operand is malformed.
#[derive(Debug, Clone, Copy, PartialEq, Eq)]
pub enum OperandError {
    VariableLexerError(VariableLexerError),
    /// The filter named at `at` needs an argument.
    MissingArgument { at: At },
    /// The filter takes no argument; the span covers the argument.
    UnexpectedArgument { at: At },
    /// No filter has the name at `at`.
    InvalidFilter { at: At },
}

/// What the filter named `w` at `at`, with an argument at `argument` or
/// none, is.
#[verifier::opaque]
pub open spec fn filter_result(w: Seq<u8>, at: At, argument: Option<At>, ext: Seq<String>) -> Result<FilterKind, OperandError> {
    match builtin_of(w) {
        Some(k) => match (arity(k), argument) {
            (Arity::Required, None) => Err(OperandError::MissingArgument { at }),
            (Arity::Forbidden, Some(a)) => Err(OperandError::UnexpectedArgument { at: a }),
            _ => Ok(k),
        },
        None => if registered(ext, w) {
            Ok(FilterKind::External)
        } else {
            Err(OperandError::InvalidFilter { at })
        },
    }
}

/// An operand.
#[derive(Debug, PartialEq, Eq)]
pub enum TagElement {
    Text(Text),
    TranslatedText(TranslatedText),
    /// A numeric literal, by its span; the host reads it as an integer or a
    /// float.
    Numeric(At),
    Variable(Variable),
    ForVariable(ForVariable),
    Filter(Box<Filter>),
}

/// A filter, by the span of its name and its kind, applied to `left` with an
/// optional argument.
#[derive(Debug, PartialEq, Eq)]
pub struct Filter {
    pub at: At,
    pub kind: FilterKind,
    pub left: TagElement,
    pub argument: Option<TagElement>,
}

/// `at` with `lo` bytes cut at the front and `cut - lo` at the back.
pub open spec fn inner(at: At, lo: usize, cut: usize) -> At {
    if at.1 >= cut && at.0 <= usize::MAX - lo {
        ((at.0 + lo) as usize, (at.1 - cut) as usize)
    } else {
        at
    }
}

/// A variable, or the loop state that it names inside `depth` loops.
pub open spec fn resolve(b: Seq<u8>, at: At, depth: usize) -> TagElement {
    let found = if at.0 + at.1 <= b.len() {
        for_variable_of(b, at, depth)
    } else {
        None
    };
    match found {
        Some(v) => TagElement::ForVariable(v),
        None => TagElement::Variable(Variable { at }),
    }
}

/// The operand that an element stands for.
pub open spec fn element_of(b: Seq<u8>, tok: TagElementToken, depth: usize) -> TagElement {
    match tok.token_type {
        TagElementTokenType::Text => TagElement::Text(Text { at: inner(tok.at, 1, 2) }),
        TagElementTokenType::TranslatedText => TagElement::TranslatedText(
            TranslatedText { at: inner(tok.at, 3, 5) },
        ),
        TagElementTokenType::Numeric => TagElement::Numeric(tok.at),
        TagElementTokenType::Variable => resolve(b, tok.at, depth),
    }
}

pub open spec fn argument_at(f: FilterToken) -> Option<At> {
    match f.argument {
        Some(a) => Some(a.at),
        None => None,
    }
}

/// `left` with the filters applied in order: `a|b|c` is `c` applied to `b`
/// applied to `a`. The first filter that is not allowed is the error.
pub open spec fn with_filters(b: Seq<u8>, left: TagElement, fs: Seq<FilterToken>, depth: usize, ext: Seq<String>) -> Result<TagElement, OperandError>
    decreases fs.len(),
{
    if fs.len() == 0 {
        Ok(left)
    } else {
        let f = fs[0];
        match filter_result(span_bytes(b, f.at), f.at, argument_at(f), ext) {
            Err(e) => Err(e),
            Ok(kind) => {
                let argument = match f.argument {
                    Some(a) => Some(element_of(b, a, depth)),
                    None => None,
                };
                with_filters(b, TagElement::Filter(Box::new(Filter { at: f.at, kind, left, argument })), fs.drop_first(), depth, ext)
            },
        }
    }
}

/// What the operand written in `[s, e)` is: `None` when it is empty.
pub open spec fn operand_result(b: Seq<u8>, s: int, e: int, depth: usize, ext: Seq<String>) -> Result<Option<TagElement>, OperandError> {
    match chain_result(b, s, e) {
        Err(x) => Err(OperandError::VariableLexerError(x)),
        Ok(None) => Ok(None),
        Ok(Some((op, fs))) => match with_filters(b, element_of(b, op, depth), fs, depth, ext) {
            Ok(t) => Ok(Some(t)),
            Err(x) => Err(x),
        },
    }
}

pub fn inner_x(at: At, lo: usize, cut: usize) -> (r: At)
    ensures
        r == inner(at, lo, cut),
{
    if at.1 >= cut && at.0 <= usize::MAX - lo {
        (at.0 + lo, at.1 - cut)
    } else {
        at
    }
}

fn element(template: TemplateString<'_>, tok: TagElementToken, depth: usize) -> (r: TagElement)
    ensures
        r == element_of(template.bytes(), tok, depth),
{
    match tok.token_type {
        TagElementTokenType::Text => TagElement::Text(Text::new(inner_x(tok.at, 1, 2))),
        TagElementTokenType::TranslatedText => TagElement::TranslatedText(TranslatedText::new(inner_x(tok.at, 3, 5))),
        TagElementTokenType::Numeric => TagElement::Numeric(tok.at),
        TagElementTokenType::Variable => {
            let n = template.len();
            let found = if tok.at.0 <= n && tok.at.1 <= n - tok.at.0 {
                parse_for_variable(template, tok.at, depth)
            } else {
                None
            };
            match found {
                Some(v) => TagElement::ForVariable(v),
                None => TagElement::Variable(Variable::new(tok.at)),
            }
        },
    }
}

fn builtin(b: &[u8], at: At) -> (r: Option<FilterKind>)
    requires
        at.0 + at.1 <= b@.len(),
    ensures
        r == builtin_of(b@.subrange(at.0 as int, at.0 + at.1)),
{
    if span_is(b, at, "add".as_bytes()) { Some(FilterKind::Add) }
    else if span_is(b, at, "addslashes".as_bytes()) { Some(FilterKind::AddSlashes) }
    else if span_is(b, at, "capfirst".as_bytes()) { Some(FilterKind::Capfirst) }
    else if span_is(b, at, "center".as_bytes()) { Some(FilterKind::Center) }
    else if span_is(b, at, "cut".as_bytes()) { Some(FilterKind::Cut) }
    else if span_is(b, at, "date".as_bytes()) { Some(FilterKind::Date) }
    else if span_is(b, at, "default".as_bytes()) { Some(FilterKind::Default) }
    else if span_is(b, at, "default_if_none".as_bytes()) { Some(FilterKind::DefaultIfNone) }
    else if span_is(b, at, "escape".as_bytes()) { Some(FilterKind::Escape) }
    else if span_is(b, at, "escapejs".as_bytes()) { Some(FilterKind::Escapejs) }
    else if span_is(b, at, "length".as_bytes()) { Some(FilterKind::Length) }
    else if span_is(b, at, "lower".as_bytes()) { Some(FilterKind::Lower) }
    else if span_is(b, at, "safe".as_bytes()) { Some(FilterKind::Safe) }
    else if span_is(b, at, "slugify".as_bytes()) { Some(FilterKind::Slugify) }
    else if span_is(b, at, "title".as_bytes()) { Some(FilterKind::Title) }
    else if span_is(b, at, "upper".as_bytes()) { Some(FilterKind::Upper) }
    else if span_is(b, at, "wordcount".as_bytes()) { Some(FilterKind::Wordcount) }
    else if span_is(b, at, "wordwrap".as_bytes()) { Some(FilterKind::Wordwrap) }
    else if span_is(b, at, "yesno".as_bytes()) { Some(FilterKind::Yesno) }
    else { None }
}

/// The kind of the filter named at `at`, given the span of its argument if
/// it has one and the names of the filters the host registers.
pub fn filter_kind(template: TemplateString<'_>, at: At, argument: Option<At>, external: &Vec<String>) -> (r: Result<FilterKind, OperandError>)
    requires
        at.0 + at.1 <= template.bytes().len(),
    ensures
        r == filter_result(span_bytes(template.bytes(), at), at, argument, external@),
{
    reveal(filter_result);
    let b = template.0.as_bytes();
    match builtin(b, at) {
        Some(k) => {
            let needs = match k {
                FilterKind::Add | FilterKind::Center | FilterKind::Cut | FilterKind::Default
                | FilterKind::DefaultIfNone | FilterKind::Wordwrap => Arity::Required,
                FilterKind::Date | FilterKind::Yesno | FilterKind::External => Arity::Optional,
                _ => Arity::Forbidden,
            };
            match (needs, argument) {
                (Arity::Required, None) => Err(OperandError::MissingArgument { at }),
                (Arity::Forbidden, Some(a)) => Err(OperandError::UnexpectedArgument { at: a }),
                _ => Ok(k),
            }
        },
        None => {
            if registered_x(b, at, external) {
                Ok(FilterKind::External)
            } else {
                Err(OperandError::InvalidFilter { at })
            }
        },
    }
}

fn registered_x(b: &[u8], at: At, external: &Vec<String>) -> (r: bool)
    requires
        at.0 + at.1 <= b@.len(),
    ensures
        r == registered(external@, span_bytes(b@, at)),
{
    let mut i: usize = 0;
    while i < external.len()
        invariant
            i <= external@.len(),
            at.0 + at.1 <= b@.len(),
            forall|j: int| 0 <= j < i ==> encode_utf8(#[trigger] external@[j]@) != span_bytes(b@, at),
        decreases external.len() - i,
    {
        let name = external[i].as_str();
        if span_is(b, at, name.as_bytes()) {
            assert(encode_utf8(external@[i as int]@) == span_bytes(b@, at));
            return true;
        }
        i = i + 1;
    }
    false
}

#[verifier::spinoff_prover]
fn apply_filters(template: TemplateString<'_>, op: TagElement, fs: &Vec<FilterToken>, depth: usize, external: &Vec<String>) -> (r: Result<TagElement, OperandError>)
    requires
        forall|k: int| 0 <= k < fs@.len() ==> #[trigger] fs@[k].at.0 + fs@[k].at.1 <= template.bytes().len(),
    ensures
        r == with_filters(template.bytes(), op, fs@, depth, external@),
{
    let ghost b = template.bytes();
    let ghost goal = with_filters(b, op, fs@, depth, external@);
    let mut acc = op;
    let mut k: usize = 0;
    proof {
        assert(fs@.subrange(0, fs@.len() as int) =~= fs@);
    }
    while k < fs.len()
        invariant
            k <= fs@.len(),
            b == template.bytes(),
            goal == with_filters(b, op, fs@, depth, external@),
            forall|m: int| 0 <= m < fs@.len() ==> #[trigger] fs@[m].at.0 + fs@[m].at.1 <= b.len(),
            with_filters(b, acc, fs@.subrange(k as int, fs@.len() as int), depth, external@) == goal,
        decreases fs.len() - k,
    {
        let f = fs[k];
        let arg_at = match f.argument {
            Some(a) => Some(a.at),
            None => None,
        };
        proof {
            assert(fs@.subrange(k as int, fs@.len() as int)[0] == f);
            assert(fs@.subrange(k as int, fs@.len() as int).drop_first() =~= fs@.subrange(k + 1, fs@.len() as int));
        }
        assert(arg_at == argument_at(f));
        let kind = match filter_kind(template, f.at, arg_at, external) {
            Ok(kind) => kind,
            Err(e) => {
                assert(with_filters(b, acc, fs@.subrange(k as int, fs@.len() as int), depth, external@) == Err::<TagElement, OperandError>(e));
                return Err(e);
            },
        };
        let argument = match f.argument {
            Some(a) => Some(element(template, a, depth)),
            None => None,
        };
        acc = TagElement::Filter(Box::new(Filter { at: f.at, kind, left: acc, argument }));
        k = k + 1;
    }
    proof {
        assert(fs@.subrange(k as int, fs@.len() as int).len() == 0);
    }
    Ok(acc)
}

/// Parses the operand written in `at`, inside `depth` loops: `None` when it
/// is empty, else the literal or variable with its filters applied.
pub fn parse_operand(template: TemplateString<'_>, at: At, depth: usize, external: &Vec<String>) -> (r: Result<Option<TagElement>, OperandError>)
    requires
        at.0 + at.1 <= template.bytes().len(),
    ensures
        r == operand_result(template.bytes(), at.0 as int, at.0 + at.1, depth, external@),
{
    match lex_variable_or_filter(template, at) {
        Err(e) => Err(OperandError::VariableLexerError(e)),
        Ok(None) => Ok(None),
        Ok(Some(chain)) => {
            let op = element(template, chain.operand, depth);
            match apply_filters(template, op, &chain.filters, depth, external) {
                Ok(t) => Ok(Some(t)),
                Err(e) => Err(e),
            }
        },
    }
}

} // verus!
