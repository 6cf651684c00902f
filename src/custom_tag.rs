//! Arguments of the simple tags that the host registers: positional and
//! keyword arguments checked against the signature of the host's function.
use vstd::prelude::*;
use vstd::string::StringSliceAdditionalSpecFns;
use vstd::utf8::encode_utf8;
use crate::common::span_is;
use crate::element::span_within;
use crate::kwarg::SimpleTagToken;
use crate::operand::TagElement;
use crate::parse::ParseError;
use crate::tag::TagParts;
use crate::types::{span_bytes, span_ok, At, TemplateString};
use crate::url::{arguments, collect_arguments, split_as, value, value_of};

verus! {

/// The signature of a simple tag's function, by parameter names.
pub struct SimpleTagContext {
    pub params: Vec<String>,
    /// How many of the last `params` have defaults.
    pub defaults_count: usize,
    /// Whether the function takes any number of positional arguments.
    pub varargs: bool,
    pub kwonly: Vec<String>,
    /// The keyword-only parameters that have defaults.
    pub kwonly_defaults: Vec<String>,
    /// Whether the function takes any keyword argument.
    pub varkw: bool,
    /// For a block tag, the name of the tag that ends its body.
    pub end_name: Option<String>,
}

/// Why the arguments of a simple tag do not fit its function.
#[derive(Debug, PartialEq, Eq)]
pub enum CustomTagError {
    ParseError(ParseError),
    /// A positional argument at `at` follows the keyword argument at `after`.
    PositionalAfterKeyword { at: At, after: At },
    TooManyPositionalArguments { at: At },
    UnexpectedKeywordArgument { at: At },
    DuplicateKeywordArgument { first_at: At, second_at: At },
    /// Parameters without a value: indices into `params` and into `kwonly`.
    MissingArguments { at: At, params: Vec<usize>, kwonly: Vec<usize> },
}

/// A failure in checking the arguments of a simple tag.
pub enum CustomTagFault {
    Parse(ParseError),
    PositionalAfterKeyword(At, At),
    TooMany(At),
    Unexpected(At),
    Duplicate(At, At),
    Missing(Seq<usize>, Seq<usize>),
}

/// `w` is one of `names`.
pub open spec fn named(names: Seq<String>, w: Seq<u8>) -> bool {
    exists|i: int| 0 <= i < names.len() && encode_utf8(#[trigger] names[i]@) == w
}

/// The span of the first keyword argument in `seen` whose keyword is `w`.
pub open spec fn first_seen(b: Seq<u8>, seen: Seq<(At, At)>, w: Seq<u8>) -> Option<At>
    decreases seen.len(),
{
    if seen.len() == 0 {
        None
    } else if span_bytes(b, seen[0].0) == w {
        Some(seen[0].1)
    } else {
        first_seen(b, seen.drop_first(), w)
    }
}

/// The span of a keyword argument: the keyword, `=` and the value.
pub open spec fn kwarg_span(name: At, t: SimpleTagToken) -> At {
    (name.0, (name.1 + 1 + t.at.1) as usize)
}

/// The arguments from the `k`-th on, checked and turned into operands in
/// order: the positional values, the keyword values, and every keyword by
/// its span and the span of its whole argument.
pub open spec fn custom_fold(b: Seq<u8>, ts: Seq<SimpleTagToken>, k: int, seen: Seq<(At, At)>, prev: At, params: Seq<String>, varargs: bool, kwonly: Seq<String>, varkw: bool, depth: usize, ext: Seq<String>) -> Result<(Seq<TagElement>, Seq<(At, TagElement)>, Seq<(At, At)>), CustomTagFault>
    decreases ts.len() - k,
{
    if k >= ts.len() || k < 0 {
        Ok((Seq::empty(), Seq::empty(), seen))
    } else {
        let t = ts[k];
        match t.kwarg {
            None => if seen.len() > 0 {
                Err(CustomTagFault::PositionalAfterKeyword(t.at, prev))
            } else if !varargs && k == params.len() {
                Err(CustomTagFault::TooMany(t.at))
            } else {
                match value_of(b, t, depth, ext) {
                    Err(e) => Err(CustomTagFault::Parse(e)),
                    Ok(v) => match custom_fold(b, ts, k + 1, seen, t.at, params, varargs, kwonly, varkw, depth, ext) {
                        Err(f) => Err(f),
                        Ok((a, kw, s)) => Ok((seq![v] + a, kw, s)),
                    },
                }
            },
            Some(name) => {
                let w = span_bytes(b, name);
                let span = kwarg_span(name, t);
                if !varkw && !named(params, w) && !named(kwonly, w) {
                    Err(CustomTagFault::Unexpected(span))
                } else {
                    match first_seen(b, seen, w) {
                        Some(first) => Err(CustomTagFault::Duplicate(first, span)),
                        None => match value_of(b, t, depth, ext) {
                            Err(e) => Err(CustomTagFault::Parse(e)),
                            Ok(v) => match custom_fold(b, ts, k + 1, seen.push((name, span)), span, params, varargs, kwonly, varkw, depth, ext) {
                                Err(f) => Err(f),
                                Ok((a, kw, s)) => Ok((a, seq![(name, v)] + kw, s)),
                            },
                        },
                    }
                }
            },
        }
    }
}

/// The indices in `[j, hi)` of `names` that no keyword in `seen` gives and,
/// when `defaults` is given, that have no default there.
pub open spec fn missing(b: Seq<u8>, seen: Seq<(At, At)>, names: Seq<String>, j: int, hi: int, defaults: Option<Seq<String>>) -> Seq<usize>
    decreases hi - j,
{
    if j >= hi || j < 0 {
        Seq::empty()
    } else {
        let rest = missing(b, seen, names, j + 1, hi, defaults);
        let w = encode_utf8(names[j]@);
        let has_default = match defaults {
            Some(d) => named(d, w),
            None => false,
        };
        if first_seen(b, seen, w) is None && !has_default {
            seq![j as usize] + rest
        } else {
            rest
        }
    }
}

/// What checking the arguments `parts` of a simple tag against `ctx` gives:
/// the positional values, the keyword values and the variable after `as`.
pub open spec fn custom_parts_result(b: Seq<u8>, parts: At, ctx: SimpleTagContext, depth: usize, ext: Seq<String>) -> Result<(Seq<TagElement>, Seq<(At, TagElement)>, Option<At>), CustomTagFault> {
    let params = ctx.params@;
    match arguments(b, parts.0 as int, parts.0 + parts.1) {
        Err(e) => Err(CustomTagFault::Parse(ParseError::LexerError(e))),
        Ok(all) => match split_as(b, all) {
            Err(e) => Err(CustomTagFault::Parse(e)),
            Ok((ts, asvar)) => match custom_fold(b, ts, 0, Seq::empty(), parts, params, ctx.varargs, ctx.kwonly@, ctx.varkw, depth, ext) {
                Err(f) => Err(f),
                Ok((args, kwargs, seen)) => {
                    let nargs = args.len() as int;
                    let mp = if params.len() > nargs + ctx.defaults_count {
                        missing(b, seen, params, nargs, params.len() - ctx.defaults_count, None)
                    } else {
                        Seq::empty()
                    };
                    let mk = missing(b, seen, ctx.kwonly@, 0, ctx.kwonly@.len() as int, Some(ctx.kwonly_defaults@));
                    if mp.len() > 0 || mk.len() > 0 {
                        Err(CustomTagFault::Missing(mp, mk))
                    } else {
                        Ok((args, kwargs, asvar))
                    }
                },
            },
        },
    }
}

fn named_x(b: &[u8], at: At, names: &Vec<String>) -> (r: bool)
    requires
        at.0 + at.1 <= b@.len(),
    ensures
        r == named(names@, span_bytes(b@, at)),
{
    let mut i: usize = 0;
    while i < names.len()
        invariant
            i <= names@.len(),
            at.0 + at.1 <= b@.len(),
            forall|j: int| 0 <= j < i ==> encode_utf8(#[trigger] names@[j]@) != span_bytes(b@, at),
        decreases names.len() - i,
    {
        let name = names[i].as_str();
        if span_is(b, at, name.as_bytes()) {
            assert(encode_utf8(names@[i as int]@) == span_bytes(b@, at));
            return true;
        }
        i = i + 1;
    }
    false
}

fn bytes_eq(x: &[u8], y: &[u8]) -> (r: bool)
    ensures
        r == (x@ == y@),
{
    let r = span_is(x, (0, x.len()), y);
    proof {
        assert(x@.subrange(0, x@.len() as int) =~= x@);
    }
    r
}

/// Whether the bytes of the spans `x` and `y` are the same.
fn same_bytes(b: &[u8], x: At, y: At) -> (r: bool)
    requires
        x.0 + x.1 <= b@.len(),
        y.0 + y.1 <= b@.len(),
    ensures
        r == (span_bytes(b@, x) == span_bytes(b@, y)),
{
    if x.1 != y.1 {
        proof {
            assert(span_bytes(b@, x).len() != span_bytes(b@, y).len());
        }
        return false;
    }
    let n = b.len();
    let mut k: usize = 0;
    while k < x.1
        invariant
            n == b@.len(),
            x.0 + x.1 <= b@.len(),
            y.0 + y.1 <= b@.len(),
            x.1 == y.1,
            k <= x.1,
            forall|m: int| 0 <= m < k ==> #[trigger] span_bytes(b@, x)[m] == span_bytes(b@, y)[m],
        decreases x.1 - k,
    {
        if b[x.0 + k] != b[y.0 + k] {
            assert(span_bytes(b@, x)[k as int] != span_bytes(b@, y)[k as int]);
            return false;
        }
        assert(span_bytes(b@, x)[k as int] == span_bytes(b@, y)[k as int]);
        k = k + 1;
    }
    assert(span_bytes(b@, x) =~= span_bytes(b@, y));
    true
}

/// The first entry of `seen` whose keyword has the bytes of `w_at`.
fn first_seen_span(b: &[u8], seen: &Vec<(At, At)>, w_at: At) -> (r: Option<At>)
    requires
        w_at.0 + w_at.1 <= b@.len(),
        forall|m: int| 0 <= m < seen@.len() ==> #[trigger] seen@[m].0.0 + seen@[m].0.1 <= b@.len(),
    ensures
        r == first_seen(b@, seen@, span_bytes(b@, w_at)),
{
    let mut i: usize = 0;
    proof {
        assert(seen@.skip(0) =~= seen@);
    }
    while i < seen.len()
        invariant
            i <= seen@.len(),
            w_at.0 + w_at.1 <= b@.len(),
            forall|m: int| 0 <= m < seen@.len() ==> #[trigger] seen@[m].0.0 + seen@[m].0.1 <= b@.len(),
            first_seen(b@, seen@, span_bytes(b@, w_at)) == first_seen(b@, seen@.skip(i as int), span_bytes(b@, w_at)),
        decreases seen.len() - i,
    {
        proof {
            assert(seen@.skip(i as int)[0] == seen@[i as int]);
            assert(seen@.skip(i as int).drop_first() =~= seen@.skip(i + 1));
        }
        if same_bytes(b, seen[i].0, w_at) {
            return Some(seen[i].1);
        }
        i = i + 1;
    }
    proof {
        assert(seen@.skip(i as int).len() == 0);
    }
    None
}

/// The first entry of `seen` whose keyword is `name`.
fn first_seen_name(b: &[u8], seen: &Vec<(At, At)>, name: &String) -> (r: bool)
    requires
        forall|m: int| 0 <= m < seen@.len() ==> #[trigger] seen@[m].0.0 + seen@[m].0.1 <= b@.len(),
    ensures
        r == (first_seen(b@, seen@, encode_utf8(name@)) is Some),
{
    let mut i: usize = 0;
    proof {
        assert(seen@.skip(0) =~= seen@);
    }
    while i < seen.len()
        invariant
            i <= seen@.len(),
            forall|m: int| 0 <= m < seen@.len() ==> #[trigger] seen@[m].0.0 + seen@[m].0.1 <= b@.len(),
            first_seen(b@, seen@, encode_utf8(name@)) == first_seen(b@, seen@.skip(i as int), encode_utf8(name@)),
        decreases seen.len() - i,
    {
        proof {
            assert(seen@.skip(i as int)[0] == seen@[i as int]);
            assert(seen@.skip(i as int).drop_first() =~= seen@.skip(i + 1));
        }
        if span_is(b, seen[i].0, name.as_str().as_bytes()) {
            return true;
        }
        i = i + 1;
    }
    proof {
        assert(seen@.skip(i as int).len() == 0);
    }
    false
}

fn missing_x(b: &[u8], seen: &Vec<(At, At)>, names: &Vec<String>, lo: usize, hi: usize, defaults: Option<&Vec<String>>) -> (r: Vec<usize>)
    requires
        lo <= hi <= names@.len(),
        forall|m: int| 0 <= m < seen@.len() ==> #[trigger] seen@[m].0.0 + seen@[m].0.1 <= b@.len(),
    ensures
        r@ == missing(b@, seen@, names@, lo as int, hi as int, match defaults { Some(d) => Some(d@), None => None }),
{
    let ghost d = match defaults { Some(d) => Some(d@), None => None::<Seq<String>> };
    let mut out: Vec<usize> = Vec::new();
    let mut j = lo;
    while j < hi
        invariant
            lo <= j <= hi <= names@.len(),
            forall|m: int| 0 <= m < seen@.len() ==> #[trigger] seen@[m].0.0 + seen@[m].0.1 <= b@.len(),
            d == match defaults { Some(dd) => Some(dd@), None => None::<Seq<String>> },
            missing(b@, seen@, names@, lo as int, hi as int, d) == out@ + missing(b@, seen@, names@, j as int, hi as int, d),
        decreases hi - j,
    {
        let seen_it = first_seen_name(b, seen, &names[j]);
        let has_default = match defaults {
            Some(dd) => {
                let mut found = false;
                let mut i: usize = 0;
                while i < dd.len()
                    invariant
                        i <= dd@.len(),
                        j < names@.len(),
                        found == (exists|m: int| 0 <= m < i && encode_utf8(#[trigger] dd@[m]@) == encode_utf8(names@[j as int]@)),
                    decreases dd.len() - i,
                {
                    if bytes_eq(dd[i].as_str().as_bytes(), names[j].as_str().as_bytes()) {
                        found = true;
                    }
                    i = i + 1;
                }
                found
            },
            None => false,
        };
        proof {
            let rest = missing(b@, seen@, names@, j + 1, hi as int, d);
            if !seen_it && !has_default {
                assert(out@ + (seq![j as usize] + rest) =~= out@.push(j as usize) + rest);
            }
        }
        if !seen_it && !has_default {
            out.push(j);
        }
        j = j + 1;
    }
    proof {
        assert(out@ + Seq::<usize>::empty() =~= out@);
    }
    out
}

/// Checks the arguments `parts` of a simple tag against the signature
/// `context` of the host's function, inside `depth` loops: positional
/// arguments first and at most as many as the parameters unless it takes
/// any number, keywords among the parameters unless it takes any, none
/// twice, and every parameter without a default given. Returns the
/// positional values, the keyword values and the variable after `as`.
#[verifier::spinoff_prover]
#[verifier::rlimit(100)]
pub fn parse_custom_tag_parts(template: TemplateString<'_>, parts: TagParts, context: &SimpleTagContext, depth: usize, external: &Vec<String>) -> (r: Result<(Vec<TagElement>, Vec<(At, TagElement)>, Option<At>), CustomTagError>)
    requires
        span_ok(template.bytes(), parts.at),
    ensures
        match custom_parts_result(template.bytes(), parts.at, *context, depth, external@) {
            Ok((a, kw, asvar)) => r matches Ok((va, vkw, s)) && va@ == a && vkw@ == kw && s == asvar,
            Err(CustomTagFault::Parse(e)) => r == Err::<(Vec<TagElement>, Vec<(At, TagElement)>, Option<At>), CustomTagError>(CustomTagError::ParseError(e)),
            Err(CustomTagFault::PositionalAfterKeyword(x, y)) => r == Err::<(Vec<TagElement>, Vec<(At, TagElement)>, Option<At>), CustomTagError>(CustomTagError::PositionalAfterKeyword { at: x, after: y }),
            Err(CustomTagFault::TooMany(x)) => r == Err::<(Vec<TagElement>, Vec<(At, TagElement)>, Option<At>), CustomTagError>(CustomTagError::TooManyPositionalArguments { at: x }),
            Err(CustomTagFault::Unexpected(x)) => r == Err::<(Vec<TagElement>, Vec<(At, TagElement)>, Option<At>), CustomTagError>(CustomTagError::UnexpectedKeywordArgument { at: x }),
            Err(CustomTagFault::Duplicate(x, y)) => r == Err::<(Vec<TagElement>, Vec<(At, TagElement)>, Option<At>), CustomTagError>(CustomTagError::DuplicateKeywordArgument { first_at: x, second_at: y }),
            Err(CustomTagFault::Missing(mp, mk)) => r matches Err(CustomTagError::MissingArguments { at, params, kwonly }) && at == parts.at && params@ == mp && kwonly@ == mk,
        },
{
    let ghost b = template.bytes();
    let bs = template.0.as_bytes();
    let size = bs.len();
    let all = match collect_arguments(template, parts) {
        Err(e) => return Err(CustomTagError::ParseError(ParseError::LexerError(e))),
        Ok(all) => all,
    };
    let n = all.len();
    let k1 = crate::url::last_as_x(bs, &all);
    let keep = if n < 2 || k1 == 0 {
        n
    } else if k1 == n {
        return Err(CustomTagError::ParseError(ParseError::MissingVariableAfterAs { at: all[n - 1].at }));
    } else if k1 == n - 1 {
        n - 2
    } else {
        return Err(CustomTagError::ParseError(ParseError::UnexpectedTokensAfterAsVariable { at: all[k1 + 1].at }));
    };
    let asvar = if keep == n { None } else { Some(all[n - 1].at) };
    proof {
        assert(forall|m: int| 0 <= m < all@.len() ==> #[trigger] all@[m].at.0 + all@[m].at.1 <= b.len() && (all@[m].kwarg matches Some(nm) ==> nm.0 + nm.1 + 1 == all@[m].at.0));
    }
    let mut ts: Vec<SimpleTagToken> = Vec::new();
    let mut i: usize = 0;
    while i < keep
        invariant
            i <= keep <= n == all@.len(),
            ts@ == all@.take(i as int),
        decreases keep - i,
    {
        ts.push(all[i]);
        proof {
            assert(ts@ =~= all@.take(i + 1));
        }
        i = i + 1;
    }
    proof {
        assert(all@.take(n as int) =~= all@);
        assert(split_as(b, all@) == Ok::<(Seq<SimpleTagToken>, Option<At>), ParseError>((ts@, asvar)));
    }
    let ghost goal = custom_fold(b, ts@, 0, Seq::empty(), parts.at, context.params@, context.varargs, context.kwonly@, context.varkw, depth, external@);
    let mut args: Vec<TagElement> = Vec::new();
    let mut kwargs: Vec<(At, TagElement)> = Vec::new();
    let mut seen: Vec<(At, At)> = Vec::new();
    let mut prev = parts.at;
    let mut k: usize = 0;
    while k < ts.len()
        invariant
            k <= ts@.len(),
            bs@ == b,
            size == bs@.len(),
            b == template.bytes(),
            arguments(b, parts.at.0 as int, parts.at.0 + parts.at.1) == Ok::<Seq<SimpleTagToken>, crate::common::LexerError>(all@),
            split_as(b, all@) == Ok::<(Seq<SimpleTagToken>, Option<At>), ParseError>((ts@, asvar)),
            forall|m: int| 0 <= m < ts@.len() ==> #[trigger] ts@[m].at.0 + ts@[m].at.1 <= b.len() && (ts@[m].kwarg matches Some(nm) ==> nm.0 + nm.1 + 1 == ts@[m].at.0),
            forall|m: int| 0 <= m < seen@.len() ==> #[trigger] seen@[m].0.0 + seen@[m].0.1 <= b.len(),
            goal == custom_fold(b, ts@, 0, Seq::empty(), parts.at, context.params@, context.varargs, context.kwonly@, context.varkw, depth, external@),
            goal == match custom_fold(b, ts@, k as int, seen@, prev, context.params@, context.varargs, context.kwonly@, context.varkw, depth, external@) {
                Ok((a, kw, s)) => Ok::<(Seq<TagElement>, Seq<(At, TagElement)>, Seq<(At, At)>), CustomTagFault>((args@ + a, kwargs@ + kw, s)),
                Err(f) => Err(f),
            },
        decreases ts.len() - k,
    {
        let t = ts[k];
        match t.kwarg {
            None => {
                if seen.len() > 0 {
                    return Err(CustomTagError::PositionalAfterKeyword { at: t.at, after: prev });
                }
                if !context.varargs && k == context.params.len() {
                    return Err(CustomTagError::TooManyPositionalArguments { at: t.at });
                }
                let v = match value(template, t, depth, external) {
                    Err(e) => return Err(CustomTagError::ParseError(e)),
                    Ok(v) => v,
                };
                proof {
                    match custom_fold(b, ts@, k + 1, seen@, t.at, context.params@, context.varargs, context.kwonly@, context.varkw, depth, external@) {
                        Ok((a, kw, s)) => {
                            assert(args@ + (seq![v] + a) =~= args@.push(v) + a);
                        },
                        Err(_) => {},
                    }
                }
                args.push(v);
                prev = t.at;
            },
            Some(name) => {
                assert(t.at.0 + t.at.1 <= b.len() && name.0 + name.1 + 1 == t.at.0);
                let span = (name.0, t.at.0 + t.at.1 - name.0);
                if !context.varkw && !named_x(bs, name, &context.params) && !named_x(bs, name, &context.kwonly) {
                    return Err(CustomTagError::UnexpectedKeywordArgument { at: span });
                }
                if let Some(first) = first_seen_span(bs, &seen, name) {
                    return Err(CustomTagError::DuplicateKeywordArgument { first_at: first, second_at: span });
                }
                let v = match value(template, t, depth, external) {
                    Err(e) => return Err(CustomTagError::ParseError(e)),
                    Ok(v) => v,
                };
                proof {
                    match custom_fold(b, ts@, k + 1, seen@.push((name, span)), span, context.params@, context.varargs, context.kwonly@, context.varkw, depth, external@) {
                        Ok((a, kw, s)) => {
                            assert(kwargs@ + (seq![(name, v)] + kw) =~= kwargs@.push((name, v)) + kw);
                        },
                        Err(_) => {},
                    }
                }
                seen.push((name, span));
                kwargs.push((name, v));
                prev = span;
            },
        }
        k = k + 1;
    }
    proof {
        assert(args@ + Seq::<TagElement>::empty() =~= args@);
        assert(kwargs@ + Seq::<(At, TagElement)>::empty() =~= kwargs@);
    }
    let nargs = args.len();
    let np = context.params.len();
    let mp = if np > nargs && np - nargs > context.defaults_count {
        missing_x(bs, &seen, &context.params, nargs, np - context.defaults_count, None)
    } else {
        Vec::new()
    };
    let mk = missing_x(bs, &seen, &context.kwonly, 0, context.kwonly.len(), Some(&context.kwonly_defaults));
    if mp.len() > 0 || mk.len() > 0 {
        return Err(CustomTagError::MissingArguments { at: parts.at, params: mp, kwonly: mk });
    }
    Ok((args, kwargs, asvar))
}

} // verus!

verus! {

/// `s` is the word `w`.
pub open spec fn is_param(s: String, w: &str) -> bool {
    encode_utf8(s@) == w.spec_bytes()
}

/// How many leading parameters of a registered tag's function the tag
/// fills itself: a block tag's function takes the rendered `content` first,
/// and a function that takes the context takes `context` before that.
pub open spec fn tag_params_result(params: Seq<String>, takes_context: bool, block: bool, at: At) -> Result<usize, ParseError> {
    if block {
        if !takes_context {
            if params.len() >= 1 && is_param(params[0], "content") {
                Ok(1)
            } else {
                Err(ParseError::RequiresContent { at })
            }
        } else if params.len() >= 2 && is_param(params[0], "context") && is_param(params[1], "content") {
            Ok(2)
        } else {
            Err(ParseError::RequiresContextAndContent { at })
        }
    } else if !takes_context {
        Ok(0)
    } else if params.len() >= 1 && is_param(params[0], "context") {
        Ok(1)
    } else {
        Err(ParseError::RequiresContext { at })
    }
}

fn param_is(s: &String, w: &str) -> (r: bool)
    ensures
        r == is_param(*s, w),
{
    bytes_eq(s.as_str().as_bytes(), w.as_bytes())
}

/// Checks the leading parameters of a registered tag's function, loaded at
/// `at`: the number of them that the tag fills itself, the rest being the
/// tag's own parameters.
pub fn tag_params(params: &Vec<String>, takes_context: bool, block: bool, at: At) -> (r: Result<usize, ParseError>)
    ensures
        r == tag_params_result(params@, takes_context, block, at),
{
    if block {
        if !takes_context {
            if params.len() >= 1 && param_is(&params[0], "content") {
                Ok(1)
            } else {
                Err(ParseError::RequiresContent { at })
            }
        } else if params.len() >= 2 && param_is(&params[0], "context") && param_is(&params[1], "content") {
            Ok(2)
        } else {
            Err(ParseError::RequiresContextAndContent { at })
        }
    } else if !takes_context {
        Ok(0)
    } else if params.len() >= 1 && param_is(&params[0], "context") {
        Ok(1)
    } else {
        Err(ParseError::RequiresContext { at })
    }
}

} // verus!

verus! {

/// The parse error that a failure in checking a simple tag's arguments is;
/// missing parameters are reported by the span of the arguments.
pub open spec fn fault_error(f: CustomTagFault, parts: At) -> ParseError {
    match f {
        CustomTagFault::Parse(e) => e,
        CustomTagFault::PositionalAfterKeyword(x, y) => ParseError::PositionalAfterKeyword { at: x, after: y },
        CustomTagFault::TooMany(x) => ParseError::TooManyPositionalArguments { at: x },
        CustomTagFault::Unexpected(x) => ParseError::UnexpectedKeywordArgument { at: x },
        CustomTagFault::Duplicate(x, y) => ParseError::DuplicateKeywordArgument { first_at: x, second_at: y },
        CustomTagFault::Missing(_, _) => ParseError::MissingArguments { at: parts },
    }
}

/// The index of the first registered simple tag named `w`.
pub open spec fn find_tag(tags: Seq<(String, SimpleTagContext)>, w: Seq<u8>, i: int) -> Option<int>
    decreases tags.len() - i,
{
    if i >= tags.len() || i < 0 {
        None
    } else if encode_utf8(tags[i].0@) == w {
        Some(i)
    } else {
        find_tag(tags, w, i + 1)
    }
}

/// The index of the first registered simple tag named by the span `at`.
pub fn find_tag_x(b: &[u8], at: At, tags: &Vec<(String, SimpleTagContext)>) -> (r: Option<usize>)
    requires
        at.0 + at.1 <= b@.len(),
    ensures
        match r {
            Some(i) => find_tag(tags@, span_bytes(b@, at), 0) == Some(i as int) && i < tags@.len(),
            None => find_tag(tags@, span_bytes(b@, at), 0) is None,
        },
{
    let mut i: usize = 0;
    while i < tags.len()
        invariant
            i <= tags@.len(),
            at.0 + at.1 <= b@.len(),
            find_tag(tags@, span_bytes(b@, at), 0) == find_tag(tags@, span_bytes(b@, at), i as int),
        decreases tags.len() - i,
    {
        if span_is(b, at, tags[i].0.as_str().as_bytes()) {
            return Some(i);
        }
        i = i + 1;
    }
    None
}

/// The arguments of a simple tag as the parser reports them.
pub fn simple_tag_parts(template: TemplateString<'_>, parts: TagParts, context: &SimpleTagContext, depth: usize, external: &Vec<String>) -> (r: Result<(Vec<TagElement>, Vec<(At, TagElement)>, Option<At>), ParseError>)
    requires
        span_ok(template.bytes(), parts.at),
    ensures
        match custom_parts_result(template.bytes(), parts.at, *context, depth, external@) {
            Ok((a, kw, asvar)) => r matches Ok((va, vkw, s)) && va@ == a && vkw@ == kw && s == asvar,
            Err(f) => r == Err::<(Vec<TagElement>, Vec<(At, TagElement)>, Option<At>), ParseError>(fault_error(f, parts.at)),
        },
{
    match parse_custom_tag_parts(template, parts, context, depth, external) {
        Ok(x) => Ok(x),
        Err(CustomTagError::ParseError(e)) => Err(e),
        Err(CustomTagError::PositionalAfterKeyword { at, after }) => Err(ParseError::PositionalAfterKeyword { at, after }),
        Err(CustomTagError::TooManyPositionalArguments { at }) => Err(ParseError::TooManyPositionalArguments { at }),
        Err(CustomTagError::UnexpectedKeywordArgument { at }) => Err(ParseError::UnexpectedKeywordArgument { at }),
        Err(CustomTagError::DuplicateKeywordArgument { first_at, second_at }) => Err(ParseError::DuplicateKeywordArgument { first_at, second_at }),
        Err(CustomTagError::MissingArguments { at, .. }) => Err(ParseError::MissingArguments { at }),
    }
}

/// The index of the first registered block tag whose end tag is named `w`.
pub open spec fn find_end(tags: Seq<(String, SimpleTagContext)>, w: Seq<u8>, i: int) -> Option<int>
    decreases tags.len() - i,
{
    if i >= tags.len() || i < 0 {
        None
    } else if tags[i].1.end_name matches Some(e) && encode_utf8(e@) == w {
        Some(i)
    } else {
        find_end(tags, w, i + 1)
    }
}

/// The index of the first registered block tag whose end tag is named by
/// the span `at`.
pub fn find_end_x(b: &[u8], at: At, tags: &Vec<(String, SimpleTagContext)>) -> (r: Option<usize>)
    requires
        at.0 + at.1 <= b@.len(),
    ensures
        match r {
            Some(i) => find_end(tags@, span_bytes(b@, at), 0) == Some(i as int) && i < tags@.len(),
            None => find_end(tags@, span_bytes(b@, at), 0) is None,
        },
{
    let mut i: usize = 0;
    while i < tags.len()
        invariant
            i <= tags@.len(),
            at.0 + at.1 <= b@.len(),
            find_end(tags@, span_bytes(b@, at), 0) == find_end(tags@, span_bytes(b@, at), i as int),
        decreases tags.len() - i,
    {
        let hit = match &tags[i].1.end_name {
            Some(e) => span_is(b, at, e.as_str().as_bytes()),
            None => false,
        };
        if hit {
            return Some(i);
        }
        i = i + 1;
    }
    None
}

} // verus!
