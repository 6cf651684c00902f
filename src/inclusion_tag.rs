//! The tag that renders another template: its name, then optionally `only`
//! and `with` followed by keyword arguments.
use vstd::prelude::*;
use vstd::string::StringSliceAdditionalSpecFns;
use crate::common::span_is;
use crate::element::{element_shaped, span_within, text_quoted, TagElementToken, TagElementTokenType};
use crate::operand::{inner, inner_x};
use crate::path::{construct_relative_path, origin_of, relative_result, RelativeFault, RelativePathError};
use crate::text::lemma_boundary_step;
use vstd::utf8::decode_utf8;
use crate::inclusion::{IncludeLexer, IncludeLexerError, IncludeTemplateTokenType};
use crate::kwarg::{next_argument, SimpleTagToken};
use crate::operand::TagElement;
use crate::parse::ParseError;
use crate::tag::TagParts;
use crate::types::{span_bytes, span_ok, At, TemplateString};
use crate::url::{arguments, collect_arguments, value, value_of};

verus! {

/// The name of the template to render.
#[derive(Debug, PartialEq, Eq)]
pub enum IncludeTemplateName {
    /// A string or a variable, as written.
    Element(TagElement),
    /// A relative name (`./x`, `../x`) resolved against the referring
    /// template, with the span of the name as written.
    Relative { path: String, at: At },
}

/// The shape of a template name, with the path as characters.
pub enum IncludeNameShape {
    Element(TagElement),
    Relative(Seq<char>, At),
}

pub open spec fn name_models(n: IncludeTemplateName, s: IncludeNameShape) -> bool {
    match (n, s) {
        (IncludeTemplateName::Element(e), IncludeNameShape::Element(f)) => e == f,
        (IncludeTemplateName::Relative { path, at }, IncludeNameShape::Relative(p, a)) => path@ == p && at == a,
        _ => false,
    }
}

/// A parsed inclusion tag.
#[derive(Debug, PartialEq, Eq)]
pub struct Include {
    pub template_name: IncludeTemplateName,
    /// Each keyword after `with` by its span, with its value.
    pub kwargs: Vec<(At, TagElement)>,
    /// Whether `only` was given.
    pub only: bool,
}

pub open spec fn is_word_arg(b: Seq<u8>, t: SimpleTagToken, w: &str) -> bool {
    t.kwarg is None && t.token_type == TagElementTokenType::Variable && span_bytes(b, t.at) == w.spec_bytes()
}

/// The keyword arguments after `with` from the `k`-th argument on, with the
/// `only` seen so far; every argument is a keyword argument or `only`.
pub open spec fn with_tail(b: Seq<u8>, ts: Seq<SimpleTagToken>, k: int, only: Option<At>) -> Result<(Seq<SimpleTagToken>, Option<At>), ParseError>
    decreases ts.len() - k,
{
    if k >= ts.len() || k < 0 {
        Ok((Seq::empty(), only))
    } else if is_word_arg(b, ts[k], "only") {
        match only {
            Some(first) => Err(ParseError::IncludeOnlyTwice { first_at: first, second_at: ts[k].at }),
            None => with_tail(b, ts, k + 1, Some(ts[k].at)),
        }
    } else if ts[k].kwarg is Some {
        match with_tail(b, ts, k + 1, only) {
            Err(e) => Err(e),
            Ok((kws, o)) => Ok((seq![ts[k]] + kws, o)),
        }
    } else {
        Err(ParseError::UnexpectedArgument { at: ts[k].at })
    }
}

/// What the arguments after the template name give: the keyword
/// arguments, and whether `only` was given.
pub open spec fn include_tail(b: Seq<u8>, ts: Seq<SimpleTagToken>) -> Result<(Seq<SimpleTagToken>, bool), ParseError> {
    let (start, only, with_at) = if ts.len() >= 1 && is_word_arg(b, ts[0], "only") {
        if ts.len() >= 2 && is_word_arg(b, ts[1], "with") {
            (2int, Some(ts[0].at), Some(ts[1].at))
        } else {
            (1int, Some(ts[0].at), None)
        }
    } else if ts.len() >= 1 && is_word_arg(b, ts[0], "with") {
        (1int, None, Some(ts[0].at))
    } else {
        (0int, None, None)
    };
    match with_at {
        None => if start >= ts.len() {
            Ok((Seq::empty(), only is Some))
        } else if is_word_arg(b, ts[start], "only") && only is Some {
            Err(ParseError::IncludeOnlyTwice { first_at: only.unwrap(), second_at: ts[start].at })
        } else {
            Err(ParseError::UnexpectedArgument { at: ts[start].at })
        },
        Some(w) => match with_tail(b, ts, start, only) {
            Err(e) => Err(e),
            Ok((kws, o)) => if kws.len() == 0 {
                Err(ParseError::MissingKeywordArgument { at: w })
            } else {
                Ok((kws, o is Some))
            },
        },
    }
}

/// The template name that the argument `tok` gives, resolving a relative
/// string name against `origin`, the name of the referring template.
pub open spec fn name_result(b: Seq<u8>, tok: SimpleTagToken, depth: usize, ext: Seq<String>, origin: Option<Seq<char>>) -> Result<IncludeNameShape, ParseError> {
    let inside = inner(tok.at, 1, 2);
    if tok.token_type == TagElementTokenType::Text {
        match relative_result(decode_utf8(span_bytes(b, inside)), origin) {
            Err(RelativeFault::Outside) => Err(ParseError::RelativePathOutside { at: inside }),
            Err(RelativeFault::UnknownOrigin) => Err(ParseError::UnknownOrigin { at: inside }),
            Ok(Some(p)) => Ok(IncludeNameShape::Relative(p, inside)),
            Ok(None) => match value_of(b, tok, depth, ext) {
                Err(e) => Err(e),
                Ok(v) => Ok(IncludeNameShape::Element(v)),
            },
        }
    } else {
        match value_of(b, tok, depth, ext) {
            Err(e) => Err(e),
            Ok(v) => Ok(IncludeNameShape::Element(v)),
        }
    }
}

/// What parsing the arguments `parts` of an inclusion tag at `at` gives:
/// the template name, the keyword arguments and whether `only` was given.
pub open spec fn include_result(b: Seq<u8>, parts: At, at: At, depth: usize, ext: Seq<String>, origin: Option<Seq<char>>) -> Result<(IncludeNameShape, Seq<(At, TagElement)>, bool), ParseError> {
    let end = parts.0 + parts.1;
    match next_argument(b, parts.0 as int, end) {
        None => Err(ParseError::MissingArgument { at }),
        Some((Err(e), _)) => Err(ParseError::IncludeLexerError(IncludeLexerError::LexerError(e))),
        Some((Ok(tok), next)) => if tok.kwarg is Some {
            Err(ParseError::IncludeLexerError(IncludeLexerError::UnexpectedKeywordArgument { at: tok.kwarg.unwrap() }))
        } else if tok.token_type == TagElementTokenType::Numeric || tok.token_type == TagElementTokenType::TranslatedText {
            Err(ParseError::IncludeLexerError(IncludeLexerError::InvalidTemplateName { at: tok.at }))
        } else {
            match name_result(b, tok, depth, ext, origin) {
                Err(e) => Err(e),
                Ok(name) => match arguments(b, next, end) {
                    Err(e) => Err(ParseError::LexerError(e)),
                    Ok(rest) => match include_tail(b, rest) {
                        Err(e) => Err(e),
                        Ok((kws, only)) => match crate::url::values(b, kws, depth, ext) {
                            Err(e) => Err(e),
                            Ok(vs) => Ok((name, Seq::new(vs.len(), |i: int| (kws[i].kwarg.unwrap(), vs[i])), only)),
                        },
                    },
                },
            }
        },
    }
}

fn word_arg(b: &[u8], t: SimpleTagToken, w: &str) -> (r: bool)
    requires
        t.at.0 + t.at.1 <= b@.len(),
    ensures
        r == is_word_arg(b@, t, w),
{
    t.kwarg.is_none() && t.token_type == TagElementTokenType::Variable && span_is(b, t.at, w.as_bytes())
}

#[verifier::spinoff_prover]
fn with_tail_x(b: &[u8], ts: &Vec<SimpleTagToken>, start: usize, only0: Option<At>) -> (r: Result<(Vec<SimpleTagToken>, Option<At>), ParseError>)
    requires
        start <= ts@.len(),
        forall|m: int| 0 <= m < ts@.len() ==> #[trigger] ts@[m].at.0 + ts@[m].at.1 <= b@.len(),
    ensures
        match with_tail(b@, ts@, start as int, only0) {
            Ok((kws, o)) => r matches Ok((v, o2)) && v@ == kws && o2 == o,
            Err(e) => r == Err::<(Vec<SimpleTagToken>, Option<At>), ParseError>(e),
        },
        r matches Ok((v, _)) ==> forall|m: int| 0 <= m < v@.len() ==> (#[trigger] v@[m]).kwarg is Some && v@[m].at.0 + v@[m].at.1 <= b@.len(),
{
    let n = ts.len();
    let ghost goal = with_tail(b@, ts@, start as int, only0);
    let mut only = only0;
    let mut kws: Vec<SimpleTagToken> = Vec::new();
    let mut k = start;
    while k < n
        invariant
            start <= k <= n == ts@.len(),
            forall|m: int| 0 <= m < ts@.len() ==> #[trigger] ts@[m].at.0 + ts@[m].at.1 <= b@.len(),
            goal == with_tail(b@, ts@, start as int, only0),
            forall|m: int| 0 <= m < kws@.len() ==> (#[trigger] kws@[m]).kwarg is Some && kws@[m].at.0 + kws@[m].at.1 <= b@.len(),
            goal == match with_tail(b@, ts@, k as int, only) {
                Ok((more, o)) => Ok::<(Seq<SimpleTagToken>, Option<At>), ParseError>((kws@ + more, o)),
                Err(e) => Err(e),
            },
        decreases n - k,
    {
        let t = ts[k];
        if word_arg(b, t, "only") {
            if let Some(first) = only {
                return Err(ParseError::IncludeOnlyTwice { first_at: first, second_at: t.at });
            }
            only = Some(t.at);
        } else if t.kwarg.is_some() {
            proof {
                match with_tail(b@, ts@, k + 1, only) {
                    Ok((more, o)) => {
                        assert(kws@ + (seq![t] + more) =~= kws@.push(t) + more);
                    },
                    Err(_) => {},
                }
            }
            kws.push(t);
        } else {
            return Err(ParseError::UnexpectedArgument { at: t.at });
        }
        k = k + 1;
    }
    proof {
        assert(kws@ + Seq::<SimpleTagToken>::empty() =~= kws@);
    }
    Ok((kws, only))
}

#[verifier::spinoff_prover]
fn tail_x(bs: &[u8], ts: &Vec<SimpleTagToken>) -> (r: Result<(Vec<SimpleTagToken>, bool), ParseError>)
    requires
        forall|m: int| 0 <= m < ts@.len() ==> #[trigger] ts@[m].at.0 + ts@[m].at.1 <= bs@.len(),
    ensures
        match include_tail(bs@, ts@) {
            Ok((kws, only)) => r matches Ok((v, o)) && v@ == kws && o == only,
            Err(e) => r == Err::<(Vec<SimpleTagToken>, bool), ParseError>(e),
        },
        r matches Ok((v, _)) ==> forall|m: int| 0 <= m < v@.len() ==> (#[trigger] v@[m]).kwarg is Some && v@[m].at.0 + v@[m].at.1 <= bs@.len(),
{
    let b = bs;
    let n = ts.len();
    let mut start: usize = 0;
    let mut only: Option<At> = None;
    let mut with_at: Option<At> = None;
    if n >= 1 && word_arg(b, ts[0], "only") {
        only = Some(ts[0].at);
        if n >= 2 && word_arg(b, ts[1], "with") {
            start = 2;
            with_at = Some(ts[1].at);
        } else {
            start = 1;
        }
    } else if n >= 1 && word_arg(b, ts[0], "with") {
        start = 1;
        with_at = Some(ts[0].at);
    }
    let w = match with_at {
        None => {
            if start >= n {
                return Ok((Vec::new(), only.is_some()));
            }
            if word_arg(b, ts[start], "only") && only.is_some() {
                return Err(ParseError::IncludeOnlyTwice { first_at: only.unwrap(), second_at: ts[start].at });
            }
            return Err(ParseError::UnexpectedArgument { at: ts[start].at });
        },
        Some(w) => w,
    };
    let (kws, only) = with_tail_x(b, ts, start, only)?;
    if kws.len() == 0 {
        return Err(ParseError::MissingKeywordArgument { at: w });
    }
    Ok((kws, only.is_some()))
}

fn name_x(template: TemplateString<'_>, tok: SimpleTagToken, depth: usize, external: &Vec<String>, origin: Option<&str>) -> (r: Result<IncludeTemplateName, ParseError>)
    requires
        span_ok(template.bytes(), tok.at),
        tok.kwarg is None,
        element_shaped(tok.at, tok.token_type),
        text_quoted(template.bytes(), TagElementToken { at: tok.at, token_type: tok.token_type }),
    ensures
        match name_result(template.bytes(), tok, depth, external@, origin_of(origin)) {
            Ok(n) => r matches Ok(m) && name_models(m, n),
            Err(e) => r == Err::<IncludeTemplateName, ParseError>(e),
        },
{
    if tok.token_type == TagElementTokenType::Text {
        let inside = inner_x(tok.at, 1, 2);
        let ghost b = template.bytes();
        proof {
            template.lemma_valid();
            lemma_boundary_step(b, tok.at.0 as int);
        }
        let path = template.content(inside);
        proof {
            vstd::utf8::encode_utf8_decode_utf8(path@);
        }
        match construct_relative_path(path, origin, inside) {
            Err(RelativePathError::Outside { .. }) => Err(ParseError::RelativePathOutside { at: inside }),
            Err(RelativePathError::UnknownOrigin { .. }) => Err(ParseError::UnknownOrigin { at: inside }),
            Ok(Some(p)) => Ok(IncludeTemplateName::Relative { path: p, at: inside }),
            Ok(None) => match value(template, tok, depth, external) {
                Err(e) => Err(e),
                Ok(v) => Ok(IncludeTemplateName::Element(v)),
            },
        }
    } else {
        match value(template, tok, depth, external) {
            Err(e) => Err(e),
            Ok(v) => Ok(IncludeTemplateName::Element(v)),
        }
    }
}

/// Parses the arguments of an inclusion tag at `at`, inside `depth` loops:
/// the template name (a string or a variable, not a number or a translated
/// string), then `only` and `with` with at least one keyword argument, in
/// either order, `only` at most once. A string name that starts with `./`
/// or `../` is resolved by `construct_relative_path` against `origin`, the
/// name of the referring template.
#[verifier::spinoff_prover]
#[verifier::rlimit(100)]
pub fn parse_include(template: TemplateString<'_>, parts: TagParts, at: At, depth: usize, external: &Vec<String>, origin: Option<&str>) -> (r: Result<Include, ParseError>)
    requires
        span_ok(template.bytes(), parts.at),
    ensures
        match include_result(template.bytes(), parts.at, at, depth, external@, origin_of(origin)) {
            Ok((name, kwargs, only)) => r matches Ok(i) && name_models(i.template_name, name) && i.kwargs@ == kwargs && i.only == only,
            Err(e) => r == Err::<Include, ParseError>(e),
        },
{
    let bs = template.0.as_bytes();
    let size = bs.len();
    let mut lexer = IncludeLexer::new(template, parts);
    let tok = match lexer.lexer.next() {
        None => return Err(ParseError::MissingArgument { at }),
        Some(Err(e)) => return Err(ParseError::IncludeLexerError(IncludeLexerError::LexerError(e))),
        Some(Ok(tok)) => tok,
    };
    if let Some(k) = tok.kwarg {
        return Err(ParseError::IncludeLexerError(IncludeLexerError::UnexpectedKeywordArgument { at: k }));
    }
    if tok.token_type == TagElementTokenType::Numeric || tok.token_type == TagElementTokenType::TranslatedText {
        return Err(ParseError::IncludeLexerError(IncludeLexerError::InvalidTemplateName { at: tok.at }));
    }
    let name = name_x(template, tok, depth, external, origin)?;
    let byte = lexer.lexer.lexer.byte;
    let end = lexer.lexer.lexer.end;
    let rest = match collect_arguments(template, TagParts { at: (byte, end - byte) }) {
        Err(e) => return Err(ParseError::LexerError(e)),
        Ok(rest) => rest,
    };
    let (kws, only) = tail_x(bs, &rest)?;
    proof {
        assert(crate::url::all_keyword(kws@));
    }
    let (_, kwargs) = crate::url::convert(template, &kws, true, depth, external)?;
    Ok(Include { template_name: name, kwargs, only })
}

} // verus!
