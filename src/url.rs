//! The `url` tag: a view name, then positional or keyword arguments, and
//! optionally `as` a variable.
use vstd::prelude::*;
use vstd::string::StringSliceAdditionalSpecFns;
use crate::common::{span_is, LexerError};
use crate::element::span_within;
use crate::kwarg::{next_argument, SimpleTagLexer, SimpleTagToken};
use crate::operand::{operand_result, parse_operand, TagElement};
use crate::parse::ParseError;
use crate::tag::TagParts;
use crate::types::{span_bytes, span_ok, At, TemplateString};

verus! {

/// A parsed `url` tag.
#[derive(Debug, PartialEq, Eq)]
pub struct Url {
    pub view_name: TagElement,
    pub args: Vec<TagElement>,
    /// Each keyword by its span, with its value.
    pub kwargs: Vec<(At, TagElement)>,
    /// The span of the variable to store the URL in.
    pub asvar: Option<At>,
}

/// All the arguments of `[i, end)`, or the first error.
#[verifier::opaque]
pub open spec fn arguments(b: Seq<u8>, i: int, end: int) -> Result<Seq<SimpleTagToken>, LexerError>
    decreases end - i,
{
    match next_argument(b, i, end) {
        None => Ok(Seq::empty()),
        Some((Err(e), _)) => Err(e),
        Some((Ok(t), next)) => if next <= i || next > end {
            Ok(Seq::empty())
        } else {
            match arguments(b, next, end) {
                Ok(rest) => Ok(seq![t] + rest),
                Err(e) => Err(e),
            }
        },
    }
}

/// The index of the last argument before the `k`-th that is the word `as`,
/// or -1.
pub open spec fn last_as(b: Seq<u8>, ts: Seq<SimpleTagToken>, k: int) -> int
    decreases k,
{
    if k <= 0 {
        -1
    } else if span_bytes(b, ts[k - 1].at) == "as".spec_bytes() {
        k - 1
    } else {
        last_as(b, ts, k - 1)
    }
}

/// The operand that an argument stands for; an empty one is an error.
pub open spec fn value_of(b: Seq<u8>, t: SimpleTagToken, depth: usize, ext: Seq<String>) -> Result<TagElement, ParseError> {
    match operand_result(b, t.at.0 as int, t.at.0 + t.at.1, depth, ext) {
        Err(e) => Err(ParseError::OperandError(e)),
        Ok(None) => Err(ParseError::EmptyVariable { at: t.at }),
        Ok(Some(v)) => Ok(v),
    }
}

/// The operands of the arguments, in order, or the first error.
pub open spec fn values(b: Seq<u8>, ts: Seq<SimpleTagToken>, depth: usize, ext: Seq<String>) -> Result<Seq<TagElement>, ParseError>
    decreases ts.len(),
{
    if ts.len() == 0 {
        Ok(Seq::empty())
    } else {
        match value_of(b, ts[0], depth, ext) {
            Err(e) => Err(e),
            Ok(v) => match values(b, ts.drop_first(), depth, ext) {
                Err(e) => Err(e),
                Ok(vs) => Ok(seq![v] + vs),
            },
        }
    }
}

pub open spec fn all_positional(ts: Seq<SimpleTagToken>) -> bool {
    forall|i: int| 0 <= i < ts.len() ==> (#[trigger] ts[i]).kwarg is None
}

pub open spec fn all_keyword(ts: Seq<SimpleTagToken>) -> bool {
    forall|i: int| 0 <= i < ts.len() ==> (#[trigger] ts[i]).kwarg is Some
}

/// The arguments after the view name, and the variable after `as`.
pub open spec fn split_as(b: Seq<u8>, rest: Seq<SimpleTagToken>) -> Result<(Seq<SimpleTagToken>, Option<At>), ParseError> {
    let n = rest.len() as int;
    let k = last_as(b, rest, n);
    if n < 2 || k < 0 {
        Ok((rest, None))
    } else if k == n - 1 {
        Err(ParseError::MissingVariableAfterAs { at: rest[k].at })
    } else if k == n - 2 {
        Ok((rest.take(n - 2), Some(rest[n - 1].at)))
    } else {
        Err(ParseError::UnexpectedTokensAfterAsVariable { at: rest[k + 2].at })
    }
}

/// What parsing the arguments `parts` of a `url` tag at `at` gives: the view
/// name, the positional arguments, the keyword arguments and the variable.
pub open spec fn url_result(b: Seq<u8>, parts: At, at: At, depth: usize, ext: Seq<String>) -> Result<(TagElement, Seq<TagElement>, Seq<(At, TagElement)>, Option<At>), ParseError> {
    let end = parts.0 + parts.1;
    match next_argument(b, parts.0 as int, end) {
        None => Err(ParseError::UrlTagNoArguments { at }),
        Some((Err(e), _)) => Err(ParseError::LexerError(e)),
        Some((Ok(view), next)) => match value_of(b, view, depth, ext) {
            Err(e) => Err(e),
            Ok(view_name) => match arguments(b, next, end) {
                Err(e) => Err(ParseError::LexerError(e)),
                Ok(rest) => match split_as(b, rest) {
                    Err(e) => Err(e),
                    Ok((body, asvar)) => match values(b, body, depth, ext) {
                        Err(e) => Err(e),
                        Ok(vs) => if all_positional(body) {
                            Ok((view_name, vs, Seq::empty(), asvar))
                        } else if all_keyword(body) {
                            Ok((view_name, Seq::empty(), Seq::new(vs.len(), |i: int| (body[i].kwarg.unwrap(), vs[i])), asvar))
                        } else {
                            Err(ParseError::MixedArgsKwargs { at })
                        },
                    },
                },
            },
        },
    }
}

#[verifier::spinoff_prover]
pub fn collect_arguments(template: TemplateString<'_>, parts: TagParts) -> (r: Result<Vec<SimpleTagToken>, LexerError>)
    requires
        span_ok(template.bytes(), parts.at),
    ensures
        match arguments(template.bytes(), parts.at.0 as int, parts.at.0 + parts.at.1) {
            Ok(ts) => r matches Ok(v) && v@ == ts,
            Err(e) => r == Err::<Vec<SimpleTagToken>, LexerError>(e),
        },
        r matches Ok(v) ==> forall|k: int| 0 <= k < v@.len() ==> span_within(template.bytes(), #[trigger] v@[k].at, parts.at.0 as int, parts.at.0 + parts.at.1)
            && (v@[k].kwarg matches Some(n) ==> n.0 + n.1 + 1 == v@[k].at.0),
{
    let mut lexer = SimpleTagLexer::new(template, parts);
    let mut out: Vec<SimpleTagToken> = Vec::new();
    let ghost b = template.bytes();
    let ghost end = parts.at.0 + parts.at.1;
    loop
        invariant
            lexer.wf(),
            lexer.lexer.template == template,
            lexer.lexer.end == end,
            end == parts.at.0 + parts.at.1,
            b == template.bytes(),
            parts.at.0 <= lexer.lexer.byte,
            arguments(b, parts.at.0 as int, end) == match arguments(b, lexer.lexer.byte as int, end) {
                Ok(rest) => Ok::<Seq<SimpleTagToken>, LexerError>(out@ + rest),
                Err(e) => Err(e),
            },
            forall|k: int| 0 <= k < out@.len() ==> span_within(b, #[trigger] out@[k].at, parts.at.0 as int, end)
                && (out@[k].kwarg matches Some(n) ==> n.0 + n.1 + 1 == out@[k].at.0),
        decreases lexer.lexer.end - lexer.lexer.byte,
    {
        let ghost before = out@;
        let ghost at = lexer.lexer.byte as int;
        reveal_with_fuel(arguments, 1);
        match lexer.next() {
            None => {
                proof {
                    assert(out@ + Seq::<SimpleTagToken>::empty() =~= out@);
                }
                return Ok(out);
            },
            Some(Err(e)) => return Err(e),
            Some(Ok(t)) => {
                proof {
                    let next = lexer.lexer.byte as int;
                    match arguments(b, next, end) {
                        Ok(rest) => {
                            assert(before + (seq![t] + rest) =~= (before + seq![t]) + rest);
                        },
                        Err(e) => {},
                    }
                }
                out.push(t);
                proof {
                    assert(out@ == before + seq![t]);
                    assert forall|k: int| 0 <= k < out@.len() implies span_within(b, #[trigger] out@[k].at, parts.at.0 as int, end)
                        && (out@[k].kwarg matches Some(n) ==> n.0 + n.1 + 1 == out@[k].at.0) by {
                        if k < before.len() {
                            assert(out@[k] == before[k]);
                        }
                    }
                }
            },
        }
    }
}

pub fn value(template: TemplateString<'_>, t: SimpleTagToken, depth: usize, external: &Vec<String>) -> (r: Result<TagElement, ParseError>)
    requires
        t.at.0 + t.at.1 <= template.bytes().len(),
    ensures
        r == value_of(template.bytes(), t, depth, external@),
{
    match parse_operand(template, t.at, depth, external) {
        Err(e) => Err(ParseError::OperandError(e)),
        Ok(None) => Err(ParseError::EmptyVariable { at: t.at }),
        Ok(Some(v)) => Ok(v),
    }
}

pub fn last_as_x(bs: &[u8], rest: &Vec<SimpleTagToken>) -> (r: usize)
    requires
        forall|m: int| 0 <= m < rest@.len() ==> #[trigger] rest@[m].at.0 + rest@[m].at.1 <= bs@.len(),
    ensures
        r as int - 1 == last_as(bs@, rest@, rest@.len() as int),
        r <= rest@.len(),
{
    let mut k: usize = rest.len();
    while k > 0
        invariant
            k <= rest@.len(),
            forall|m: int| 0 <= m < rest@.len() ==> #[trigger] rest@[m].at.0 + rest@[m].at.1 <= bs@.len(),
            last_as(bs@, rest@, rest@.len() as int) == last_as(bs@, rest@, k as int),
        decreases k,
    {
        if span_is(bs, rest[k - 1].at, "as".as_bytes()) {
            return k;
        }
        k = k - 1;
    }
    0
}

fn positional_x(body: &Vec<SimpleTagToken>) -> (r: (bool, bool))
    ensures
        r.0 == all_positional(body@),
        r.1 == all_keyword(body@),
{
    let mut pos = true;
    let mut kw = true;
    let mut i: usize = 0;
    while i < body.len()
        invariant
            i <= body@.len(),
            pos == (forall|j: int| 0 <= j < i ==> (#[trigger] body@[j]).kwarg is None),
            kw == (forall|j: int| 0 <= j < i ==> (#[trigger] body@[j]).kwarg is Some),
        decreases body.len() - i,
    {
        if body[i].kwarg.is_some() {
            pos = false;
        } else {
            kw = false;
        }
        i = i + 1;
    }
    (pos, kw)
}

pub fn convert(template: TemplateString<'_>, body: &Vec<SimpleTagToken>, keyword: bool, depth: usize, external: &Vec<String>) -> (r: Result<(Vec<TagElement>, Vec<(At, TagElement)>), ParseError>)
    requires
        forall|m: int| 0 <= m < body@.len() ==> #[trigger] body@[m].at.0 + body@[m].at.1 <= template.bytes().len(),
        keyword ==> all_keyword(body@),
    ensures
        match values(template.bytes(), body@, depth, external@) {
            Ok(vs) => r matches Ok((args, kwargs)) && (!keyword ==> args@ == vs && kwargs@.len() == 0) && (keyword ==> args@.len() == 0 && kwargs@ == Seq::new(vs.len(), |i: int| (body@[i].kwarg.unwrap(), vs[i]))),
            Err(e) => r == Err::<(Vec<TagElement>, Vec<(At, TagElement)>), ParseError>(e),
        },
{
    let ghost b = template.bytes();
    let ghost goal = values(b, body@, depth, external@);
    let ghost mut vs: Seq<TagElement> = Seq::empty();
    let mut args: Vec<TagElement> = Vec::new();
    let mut kwargs: Vec<(At, TagElement)> = Vec::new();
    let mut i: usize = 0;
    proof {
        assert(body@.skip(0) =~= body@);
    }
    while i < body.len()
        invariant
            i <= body@.len(),
            b == template.bytes(),
            goal == values(b, body@, depth, external@),
            forall|m: int| 0 <= m < body@.len() ==> #[trigger] body@[m].at.0 + body@[m].at.1 <= b.len(),
            keyword ==> all_keyword(body@),
            goal == match values(b, body@.skip(i as int), depth, external@) {
                Ok(more) => Ok::<Seq<TagElement>, ParseError>(vs + more),
                Err(e) => Err(e),
            },
            vs.len() == i,
            !keyword ==> args@ == vs && kwargs@.len() == 0,
            keyword ==> args@.len() == 0 && kwargs@ == Seq::new(vs.len(), |j: int| (body@[j].kwarg.unwrap(), vs[j])),
        decreases body.len() - i,
    {
        let t = body[i];
        proof {
            assert(body@.skip(i as int)[0] == t);
            assert(body@.skip(i as int).drop_first() =~= body@.skip(i + 1));
        }
        let v = match value(template, t, depth, external) {
            Ok(v) => v,
            Err(e) => return Err(e),
        };
        proof {
            match values(b, body@.skip(i + 1), depth, external@) {
                Ok(more) => {
                    assert(vs + (seq![v] + more) =~= vs.push(v) + more);
                },
                Err(_) => {},
            }
            vs = vs.push(v);
        }
        if keyword {
            let name = t.kwarg.unwrap();
            kwargs.push((name, v));
            proof {
                assert(kwargs@ =~= Seq::new(vs.len(), |j: int| (body@[j].kwarg.unwrap(), vs[j])));
            }
        } else {
            args.push(v);
        }
        i = i + 1;
    }
    proof {
        assert(body@.skip(i as int) =~= Seq::<SimpleTagToken>::empty());
        assert(vs + Seq::<TagElement>::empty() =~= vs);
    }
    Ok((args, kwargs))
}

/// Parses the arguments of a `url` tag at `at`, inside `depth` loops.
#[verifier::spinoff_prover]
#[verifier::rlimit(100)]
pub fn parse_url(template: TemplateString<'_>, parts: TagParts, at: At, depth: usize, external: &Vec<String>) -> (r: Result<Url, ParseError>)
    requires
        span_ok(template.bytes(), parts.at),
    ensures
        match url_result(template.bytes(), parts.at, at, depth, external@) {
            Ok((view, args, kwargs, asvar)) => r matches Ok(u) && u.view_name == view && u.args@ == args && u.kwargs@ == kwargs && u.asvar == asvar,
            Err(e) => r == Err::<Url, ParseError>(e),
        },
{
    let ghost b = template.bytes();
    let bs = template.0.as_bytes();
    let size = bs.len();
    let mut lexer = SimpleTagLexer::new(template, parts);
    let view = match lexer.next() {
        None => return Err(ParseError::UrlTagNoArguments { at }),
        Some(Err(e)) => return Err(ParseError::LexerError(e)),
        Some(Ok(view)) => view,
    };
    let view_name = value(template, view, depth, external)?;
    let rest = match collect_arguments(template, TagParts { at: (lexer.lexer.byte, lexer.lexer.end - lexer.lexer.byte) }) {
        Err(e) => return Err(ParseError::LexerError(e)),
        Ok(rest) => rest,
    };
    let n = rest.len();
    let k1 = last_as_x(bs, &rest);
    let keep = if n < 2 || k1 == 0 {
        n
    } else if k1 == n {
        return Err(ParseError::MissingVariableAfterAs { at: rest[n - 1].at });
    } else if k1 == n - 1 {
        n - 2
    } else {
        return Err(ParseError::UnexpectedTokensAfterAsVariable { at: rest[k1 + 1].at });
    };
    let asvar = if keep == n { None } else { Some(rest[n - 1].at) };
    let mut body: Vec<SimpleTagToken> = Vec::new();
    let mut i: usize = 0;
    while i < keep
        invariant
            i <= keep <= n == rest@.len(),
            body@ == rest@.take(i as int),
        decreases keep - i,
    {
        body.push(rest[i]);
        proof {
            assert(body@ =~= rest@.take(i + 1));
        }
        i = i + 1;
    }
    proof {
        assert(rest@.take(n as int) =~= rest@);
        assert(split_as(b, rest@) == Ok::<(Seq<SimpleTagToken>, Option<At>), ParseError>((body@, asvar)));
    }
    let (all_pos, all_kw) = positional_x(&body);
    let keyword = !all_pos && all_kw;
    let (args, kwargs) = convert(template, &body, keyword, depth, external)?;
    if !all_pos && !all_kw {
        return Err(ParseError::MixedArgsKwargs { at });
    }
    Ok(Url { view_name, args, kwargs, asvar })
}

} // verus!
