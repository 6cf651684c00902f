//! The `cycle` tag: values to cycle through, optionally named `as` a
//! variable and `silent`.
use vstd::prelude::*;
use vstd::string::StringSliceAdditionalSpecFns;
use vstd::utf8::encode_utf8;
use crate::common::{span_is, LexerError};
use crate::element::{elements, next_element, span_within, TagElementLexer, TagElementToken};
use crate::tag::TagParts;
use crate::types::{span_bytes, span_ok, At, TemplateString};

verus! {

/// A lexed `cycle` tag.
#[derive(Debug, PartialEq, Eq)]
pub struct CycleToken {
    pub at: At,
    pub expressions: Vec<At>,
    pub name: Option<At>,
    pub silent: bool,
}

/// Why a `cycle` tag is malformed.
#[derive(Debug, PartialEq, Eq)]
pub enum CycleError {
    LexerError(LexerError),
    /// The tag has no arguments.
    TooFewArguments { at: At },
    /// `as` is the last argument.
    MissingAsName { at: At },
    /// Something other than `silent` follows the name.
    InvalidFlag { flag: String, at: At },
    /// A cycle is referred to by a name that no earlier cycle has.
    UnknownNamedCycle { name: String, at: At },
}

pub open spec fn is_word(b: Seq<u8>, t: TagElementToken, w: &str) -> bool {
    span_bytes(b, t.at) == w.spec_bytes()
}

/// The spans of the elements before the `k`-th.
pub open spec fn spans_before(ts: Seq<TagElementToken>, k: int) -> Seq<At> {
    ts.subrange(0, k).map_values(|t: TagElementToken| t.at)
}

fn collect_elements(template: TemplateString<'_>, parts: TagParts) -> (r: Result<Vec<TagElementToken>, LexerError>)
    requires
        span_ok(template.bytes(), parts.at),
    ensures
        match elements(template.bytes(), parts.at.0 as int, parts.at.0 + parts.at.1) {
            Ok(ts) => r matches Ok(v) && v@ == ts,
            Err(e) => r == Err::<Vec<TagElementToken>, LexerError>(e),
        },
        r matches Ok(v) ==> forall|k: int| 0 <= k < v@.len() ==> span_within(template.bytes(), #[trigger] v@[k].at, parts.at.0 as int, parts.at.0 + parts.at.1),
{
    let mut lexer = TagElementLexer::new(template, parts);
    let mut out: Vec<TagElementToken> = Vec::new();
    let ghost b = template.bytes();
    let ghost end = parts.at.0 + parts.at.1;
    loop
        invariant
            lexer.wf(),
            lexer.template == template,
            lexer.end == end,
            end == parts.at.0 + parts.at.1,
            b == template.bytes(),
            parts.at.0 <= lexer.byte,
            elements(b, parts.at.0 as int, end) == match elements(b, lexer.byte as int, end) {
                Ok(rest) => Ok::<Seq<TagElementToken>, LexerError>(out@ + rest),
                Err(e) => Err(e),
            },
            forall|k: int| 0 <= k < out@.len() ==> span_within(b, #[trigger] out@[k].at, parts.at.0 as int, end),
        decreases lexer.end - lexer.byte,
    {
        let ghost at = lexer.byte as int;
        let ghost before = out@;
        match lexer.next() {
            None => {
                proof {
                    assert(out@ + Seq::<TagElementToken>::empty() =~= out@);
                }
                return Ok(out);
            },
            Some(Err(e)) => return Err(e),
            Some(Ok(t)) => {
                proof {
                    match elements(b, lexer.byte as int, end) {
                        Ok(rest) => {
                            assert(before + (seq![t] + rest) =~= (before + seq![t]) + rest);
                        },
                        Err(e) => {},
                    }
                }
                out.push(t);
                proof {
                    assert(out@ == before + seq![t]);
                    assert forall|k: int| 0 <= k < out@.len() implies span_within(b, #[trigger] out@[k].at, parts.at.0 as int, end) by {
                        if k < before.len() {
                            assert(out@[k] == before[k]);
                        }
                    }
                }
            },
        }
    }
}

/// Why the elements of a `cycle` tag do not make a cycle.
pub enum CycleFault {
    /// No value comes before the name, or there are no arguments at all.
    TooFew,
    /// `as` is the last element.
    MissingAs(At),
    /// The element after the name is not `silent`.
    Flag(At),
}

/// What the elements `ts` of a `cycle` tag give: the spans of the values,
/// the name and whether it is silent. At least one value must come first.
pub open spec fn cycle_shape(b: Seq<u8>, ts: Seq<TagElementToken>) -> Result<(Seq<At>, Option<At>, bool), CycleFault> {
    let n = ts.len() as int;
    if n == 0 {
        Err(CycleFault::TooFew)
    } else if is_word(b, ts[n - 1], "as") {
        Err(CycleFault::MissingAs(ts[n - 1].at))
    } else if n >= 2 && is_word(b, ts[n - 2], "as") {
        if n == 2 {
            Err(CycleFault::TooFew)
        } else {
            Ok((spans_before(ts, n - 2), Some(ts[n - 1].at), false))
        }
    } else if n >= 3 && is_word(b, ts[n - 3], "as") {
        if !is_word(b, ts[n - 1], "silent") {
            Err(CycleFault::Flag(ts[n - 1].at))
        } else if n == 3 {
            Err(CycleFault::TooFew)
        } else {
            Ok((spans_before(ts, n - 3), Some(ts[n - 2].at), true))
        }
    } else {
        Ok((spans_before(ts, n), None, false))
    }
}

/// Lexes the arguments of a `cycle` tag: `value... [as name [silent]]`.
pub fn lex_cycle(template: TemplateString<'_>, parts: TagParts) -> (r: Result<CycleToken, CycleError>)
    requires
        span_ok(template.bytes(), parts.at),
    ensures
        match elements(template.bytes(), parts.at.0 as int, parts.at.0 + parts.at.1) {
            Err(e) => r == Err::<CycleToken, CycleError>(CycleError::LexerError(e)),
            Ok(ts) => {
                let b = template.bytes();
                match cycle_shape(b, ts) {
                    Ok((expressions, name, silent)) => r matches Ok(t) && t.at == parts.at
                        && t.expressions@ == expressions && t.name == name && t.silent == silent,
                    Err(CycleFault::TooFew) => r == Err::<CycleToken, CycleError>(
                        CycleError::TooFewArguments { at: parts.at },
                    ),
                    Err(CycleFault::MissingAs(at)) => r == Err::<CycleToken, CycleError>(
                        CycleError::MissingAsName { at },
                    ),
                    Err(CycleFault::Flag(at)) => r matches Err(CycleError::InvalidFlag { flag, at: a })
                        && a == at && encode_utf8(flag@) == span_bytes(b, at),
                }
            },
        },
{
    let ts = match collect_elements(template, parts) {
        Ok(ts) => ts,
        Err(e) => return Err(CycleError::LexerError(e)),
    };
    let b = template.0.as_bytes();
    let n = ts.len();
    if n == 0 {
        return Err(CycleError::TooFewArguments { at: parts.at });
    }
    if span_is(b, ts[n - 1].at, "as".as_bytes()) {
        return Err(CycleError::MissingAsName { at: ts[n - 1].at });
    }
    let (keep, name, silent) = if n >= 2 && span_is(b, ts[n - 2].at, "as".as_bytes()) {
        if n == 2 {
            return Err(CycleError::TooFewArguments { at: parts.at });
        }
        (n - 2, Some(ts[n - 1].at), false)
    } else if n >= 3 && span_is(b, ts[n - 3].at, "as".as_bytes()) {
        if !span_is(b, ts[n - 1].at, "silent".as_bytes()) {
            let flag = template.content(ts[n - 1].at).to_owned();
            return Err(CycleError::InvalidFlag { flag, at: ts[n - 1].at });
        }
        if n == 3 {
            return Err(CycleError::TooFewArguments { at: parts.at });
        }
        (n - 3, Some(ts[n - 2].at), true)
    } else {
        (n, None, false)
    };
    let mut expressions: Vec<At> = Vec::new();
    let mut k: usize = 0;
    while k < keep
        invariant
            keep <= n == ts@.len(),
            k <= keep,
            expressions@ == spans_before(ts@, k as int),
        decreases keep - k,
    {
        proof {
            assert(spans_before(ts@, k + 1) =~= spans_before(ts@, k as int).push(ts@[k as int].at));
        }
        expressions.push(ts[k].at);
        k = k + 1;
    }
    Ok(CycleToken { at: parts.at, expressions, name, silent })
}

} // verus!
