//! The `for` tag: `name (, name)* in <expression> [reversed]`.
use vstd::prelude::*;
use vstd::string::StringSliceAdditionalSpecFns;
use crate::common::{span_is, LexerError};
use crate::element::{next_element, span_within, TagElementLexer, TagElementToken, TagElementTokenType};
use crate::tag::TagParts;
use crate::text::{
    boundary, find_ws, is_ws, lemma_boundary_step, lemma_find_ws_bounds, lemma_skip_ws_bounds,
    skip_whitespace, skip_ws, ws_width, ws_width_at,
};
use crate::types::{span_bytes, span_ok, At, TemplateString};

verus! {

/// A malformed part of a `for` tag, found while lexing it.
#[derive(Debug, Clone, Copy, PartialEq, Eq)]
pub enum ForLexerError {
    LexerError(LexerError),
    /// A comma stands where a loop variable's name is due.
    InvalidName { at: At },
    /// Nothing follows `in`.
    MissingExpression { at: At },
    /// Something other than `reversed` follows the expression.
    UnexpectedAfterExpression { at: At },
}

/// What stands where `in` is due.
#[derive(Debug, Clone, Copy, PartialEq, Eq)]
pub enum ForLexerInError {
    /// A word other than `in`: a comma is missing between names.
    MissingComma { at: At },
    /// The tag ends; the span is empty, at the end.
    MissingIn { at: At },
}

/// Why a `for` tag is malformed.
#[derive(Debug, Clone, Copy, PartialEq, Eq)]
pub enum ForParseError {
    ForLexerError(ForLexerError),
    ForLexerInError(ForLexerInError),
    /// A comma is followed by `in`: another name was expected after the
    /// name that the span covers.
    MissingVariable { at: At },
    /// `in` stands where a name is due; the span covers it.
    MissingVariableBeforeIn { at: At },
    /// The tag has no names at all; the span is the tag's.
    MissingVariableNames { at: At },
    /// The expression is a number, which cannot be iterated.
    NotIterable { at: At },
}

/// The end of a loop variable's name: the next whitespace or comma.
pub open spec fn name_end(b: Seq<u8>, i: int, end: int) -> int
    decreases end - i,
{
    if i >= end || b[i] == 0x2c || (is_ws(b, i) && i + ws_width(b, i) <= end) {
        i
    } else {
        name_end(b, i + 1, end)
    }
}

pub proof fn lemma_name_end_bounds(b: Seq<u8>, i: int, end: int)
    requires
        i <= end,
    ensures
        i <= name_end(b, i, end) <= end,
        name_end(b, i, end) < end ==> b[name_end(b, i, end)] == 0x2c || is_ws(b, name_end(b, i, end)),
    decreases end - i,
{
    if !(i >= end || b[i] == 0x2c || (is_ws(b, i) && i + ws_width(b, i) <= end)) {
        lemma_name_end_bounds(b, i + 1, end);
    }
}

/// The names of the loop variables from `i` on, and where what follows them
/// starts. After each name, a comma announces another.
pub open spec fn for_names(b: Seq<u8>, i: int, end: int) -> Result<(Seq<At>, int), ForLexerError>
    decreases end - i,
{
    let s = skip_ws(b, i, end);
    if s >= end || s < i {
        Ok((Seq::empty(), s))
    } else {
        let w = name_end(b, s, end);
        if w <= s || w > end {
            Err(ForLexerError::InvalidName { at: (s as usize, 1) })
        } else {
            let t = skip_ws(b, w, end);
            if t < end && b[t] == 0x2c && t >= w {
                match for_names(b, t + 1, end) {
                    Ok((rest, k)) => Ok((seq![(s as usize, (w - s) as usize)] + rest, k)),
                    Err(e) => Err(e),
                }
            } else {
                Ok((seq![(s as usize, (w - s) as usize)], t))
            }
        }
    }
}

/// `in` at `i`: the position after it.
pub open spec fn in_result(b: Seq<u8>, i: int, end: int) -> Result<int, ForLexerInError> {
    if i >= end {
        Err(ForLexerInError::MissingIn { at: (i as usize, 0) })
    } else {
        let w = find_ws(b, i, end);
        if b.subrange(i, w) == "in".spec_bytes() {
            Ok(skip_ws(b, w, end))
        } else {
            Err(ForLexerInError::MissingComma { at: (i as usize, (w - i) as usize) })
        }
    }
}

/// The expression at `i`, and the position after it.
pub open spec fn expression_result(b: Seq<u8>, i: int, end: int) -> Result<(TagElementToken, int), ForLexerError> {
    match next_element(b, i, end) {
        None => Err(ForLexerError::MissingExpression { at: (i as usize, 0) }),
        Some((Err(e), _)) => Err(ForLexerError::LexerError(e)),
        Some((Ok(t), next)) => Ok((t, next)),
    }
}

/// Whether what is left at `i` is `reversed`; nothing is left is `false`.
pub open spec fn reversed_result(b: Seq<u8>, i: int, end: int) -> Result<bool, ForLexerError> {
    if i >= end {
        Ok(false)
    } else if b.subrange(i, end) == "reversed".spec_bytes() {
        Ok(true)
    } else {
        Err(ForLexerError::UnexpectedAfterExpression { at: (i as usize, (end - i) as usize) })
    }
}

/// A lexed and checked `for` tag.
#[derive(Debug, PartialEq, Eq)]
pub struct ForTag {
    /// The spans of the loop variables' names.
    pub names: Vec<At>,
    /// The span from the first name to the end of the last.
    pub names_at: At,
    /// What is iterated over.
    pub iterable: TagElementToken,
    pub reversed: bool,
}

/// What lexing and checking the arguments `parts` of a `for` tag at `at`
/// gives: the names, the span that covers them, the iterable and whether the
/// loop is reversed.
pub open spec fn for_result(b: Seq<u8>, parts: At, at: At) -> Result<(Seq<At>, At, TagElementToken, bool), ForParseError> {
    let end = parts.0 + parts.1;
    match for_names(b, parts.0 as int, end) {
        Err(e) => Err(ForParseError::ForLexerError(e)),
        Ok((names, i)) => {
            let n = names.len() as int;
            if n == 0 {
                Err(ForParseError::MissingVariableNames { at })
            } else {
                let last = names[n - 1];
                let names_at = (names[0].0, (last.0 + last.1 - names[0].0) as usize);
                match in_result(b, i, end) {
                    Err(ie) => if span_bytes(b, last) != "in".spec_bytes() {
                        Err(ForParseError::ForLexerInError(ie))
                    } else if ie is MissingComma && n >= 2 {
                        Err(ForParseError::MissingVariable { at: names[n - 2] })
                    } else {
                        Err(ForParseError::MissingVariableBeforeIn { at: last })
                    },
                    Ok(j) => match expression_result(b, j, end) {
                        Err(e) => Err(ForParseError::ForLexerError(e)),
                        Ok((t, k)) => match reversed_result(b, k, end) {
                            Err(e) => Err(ForParseError::ForLexerError(e)),
                            Ok(rev) => if t.token_type == TagElementTokenType::Numeric {
                                Err(ForParseError::NotIterable { at: t.at })
                            } else {
                                Ok((names, names_at, t, rev))
                            },
                        },
                    },
                }
            }
        },
    }
}

proof fn lemma_for_names_in(b: Seq<u8>, i: int, end: int)
    requires
        0 <= i <= end <= b.len(),
        end <= usize::MAX,
    ensures
        for_names(b, i, end) matches Ok((names, k)) ==> i <= k <= end && (forall|m: int| 0 <= m < names.len() ==> i <= #[trigger] names[m].0 && names[m].0 + names[m].1 <= k)
            && (names.len() > 0 ==> forall|m: int| 0 <= m < names.len() ==> names[0].0 <= #[trigger] names[m].0),
    decreases end - i,
{
    lemma_skip_ws_bounds(b, i, end);
    let s = skip_ws(b, i, end);
    if !(s >= end || s < i) {
        lemma_name_end_bounds(b, s, end);
        let w = name_end(b, s, end);
        if !(w <= s || w > end) {
            lemma_skip_ws_bounds(b, w, end);
            let t = skip_ws(b, w, end);
            if t < end && b[t] == 0x2c && t >= w {
                lemma_for_names_in(b, t + 1, end);
                if let Ok((rest, k)) = for_names(b, t + 1, end) {
                    let names = seq![(s as usize, (w - s) as usize)] + rest;
                    assert forall|m: int| 0 <= m < names.len() implies i <= #[trigger] names[m].0 && names[m].0 + names[m].1 <= k && names[0].0 <= names[m].0 by {
                        if m > 0 {
                            assert(names[m] == rest[m - 1]);
                        }
                    }
                }
            }
        }
    }
}

fn scan_name(b: &[u8], i: usize, end: usize) -> (r: usize)
    requires
        i <= end <= b@.len(),
    ensures
        r == name_end(b@, i as int, end as int),
        i <= r <= end,
{
    let mut j = i;
    proof {
        lemma_name_end_bounds(b@, i as int, end as int);
    }
    while j < end
        invariant
            i <= j <= end <= b@.len(),
            name_end(b@, j as int, end as int) == name_end(b@, i as int, end as int),
        decreases end - j,
    {
        if b[j] == 0x2c {
            return j;
        }
        let w = ws_width_at(b, j);
        if w > 0 && w <= end - j {
            return j;
        }
        j = j + 1;
    }
    j
}

fn lex_names(b: &[u8], i: usize, end: usize) -> (r: Result<(Vec<At>, usize), ForLexerError>)
    requires
        i <= end <= b@.len(),
    ensures
        match for_names(b@, i as int, end as int) {
            Ok((names, k)) => r matches Ok((v, k2)) && v@ == names && k2 == k,
            Err(e) => r == Err::<(Vec<At>, usize), ForLexerError>(e),
        },
{
    let n = b.len();
    let mut out: Vec<At> = Vec::new();
    let mut j = i;
    loop
        invariant
            i <= j <= end <= b@.len(),
            n == b@.len(),
            match for_names(b@, i as int, end as int) {
                Ok((names, k)) => for_names(b@, j as int, end as int) matches Ok((rest, k2)) && names == out@ + rest && k2 == k,
                Err(e) => for_names(b@, j as int, end as int) == Err::<(Seq<At>, int), ForLexerError>(e),
            },
        decreases end - j,
    {
        let s = skip_whitespace(b, j, end);
        if s >= end {
            proof {
                assert(out@ + Seq::<At>::empty() =~= out@);
            }
            return Ok((out, s));
        }
        let w = scan_name(b, s, end);
        if w <= s {
            return Err(ForLexerError::InvalidName { at: (s, 1) });
        }
        let t = skip_whitespace(b, w, end);
        let ghost name = (s, (w - s) as usize);
        if t < end && b[t] == 0x2c {
            proof {
                match for_names(b@, t + 1, end as int) {
                    Ok((rest, k)) => {
                        assert(out@ + (seq![name] + rest) =~= (out@ + seq![name]) + rest);
                    },
                    Err(e) => {},
                }
            }
            out.push((s, w - s));
            j = t + 1;
        } else {
            proof {
                assert(out@ + seq![name] =~= out@.push(name));
            }
            out.push((s, w - s));
            return Ok((out, t));
        }
    }
}

/// Lexes and checks the arguments of a `for` tag at `at`. A dangling comma
/// before `in` (`for a, in x`) is reported as a missing variable after the
/// name before the comma; `in` where the first name is due, as a missing
/// variable before `in`.
pub fn parse_for_loop(template: TemplateString<'_>, parts: TagParts, at: At) -> (r: Result<ForTag, ForParseError>)
    requires
        span_ok(template.bytes(), parts.at),
    ensures
        match for_result(template.bytes(), parts.at, at) {
            Ok((names, names_at, t, rev)) => r matches Ok(f) && f.names@ == names && f.names_at == names_at && f.iterable == t && f.reversed == rev,
            Err(e) => r == Err::<ForTag, ForParseError>(e),
        },
        r matches Ok(f) ==> f.iterable.at.0 + f.iterable.at.1 <= template.bytes().len(),
{
    let b = template.0.as_bytes();
    let n = b.len();
    let end = parts.at.0 + parts.at.1;
    let (names, i) = match lex_names(b, parts.at.0, end) {
        Ok(x) => x,
        Err(e) => return Err(ForParseError::ForLexerError(e)),
    };
    proof {
        lemma_for_names_in(b@, parts.at.0 as int, end as int);
    }
    let count = names.len();
    if count == 0 {
        return Err(ForParseError::MissingVariableNames { at });
    }
    let last = names[count - 1];
    let names_at = (names[0].0, last.0 + last.1 - names[0].0);
    // `in`
    let j = if i >= end {
        Err(ForLexerInError::MissingIn { at: (i, 0) })
    } else {
        let w = crate::text::find_whitespace(b, i, end);
        if span_is(b, (i, w - i), "in".as_bytes()) {
            Ok(skip_whitespace(b, w, end))
        } else {
            Err(ForLexerInError::MissingComma { at: (i, w - i) })
        }
    };
    let j = match j {
        Ok(j) => j,
        Err(ie) => {
            if !span_is(b, last, "in".as_bytes()) {
                return Err(ForParseError::ForLexerInError(ie));
            }
            if count >= 2 {
                if let ForLexerInError::MissingComma { .. } = ie {
                    return Err(ForParseError::MissingVariable { at: names[count - 2] });
                }
            }
            return Err(ForParseError::MissingVariableBeforeIn { at: last });
        },
    };
    proof {
        template.lemma_valid();
        crate::text::lemma_ends(b@);
    }
    if !boundary_at(b, j) {
        return Err(ForParseError::ForLexerError(ForLexerError::MissingExpression { at: (j, 0) }));
    }
    let mut lexer = TagElementLexer { template, byte: j, end };
    let (t, k) = match lexer.next() {
        None => return Err(ForParseError::ForLexerError(ForLexerError::MissingExpression { at: (j, 0) })),
        Some(Err(e)) => return Err(ForParseError::ForLexerError(ForLexerError::LexerError(e))),
        Some(Ok(t)) => (t, lexer.byte),
    };
    let reversed = if k >= end {
        false
    } else if span_is(b, (k, end - k), "reversed".as_bytes()) {
        true
    } else {
        return Err(ForParseError::ForLexerError(ForLexerError::UnexpectedAfterExpression { at: (k, end - k) }));
    };
    if t.token_type == TagElementTokenType::Numeric {
        return Err(ForParseError::NotIterable { at: t.at });
    }
    Ok(ForTag { names, names_at, iterable: t, reversed })
}

/// Whether `j` is a character boundary.
fn boundary_at(b: &[u8], j: usize) -> (r: bool)
    requires
        j <= b@.len(),
    ensures
        r == boundary(b@, j as int),
{
    j == b.len() || !(0x80 <= b[j] && b[j] <= 0xbf)
}

} // verus!
