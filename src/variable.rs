//! The variable lexer: the content of `{{ ... }}`, a literal or a dotted
//! variable followed by a chain of `|filter` and `|filter:argument`.
use vstd::prelude::*;
use vstd::utf8::valid_utf8;
use crate::common::{
    is_quote, lemma_find_byte_bounds, lemma_numeric_end_bounds, numeric_end, scan_byte,
    scan_numeric, text_result, translated_result, LexerError,
};
use crate::element::{TagElementToken, TagElementTokenType};
use crate::text::{
    boundary, find_ws, is_ws, lemma_boundary_step, skip_xid, ws_width, ws_width_at, xid_end,
};
use crate::types::{span_ok, At, TemplateString};

verus! {

/// The end of an unquoted variable or argument from `i`: the next `|`,
/// `:` or whitespace outside quotes.
pub open spec fn plain_end(b: Seq<u8>, i: int, end: int) -> int
    decreases end - i,
{
    if i >= end || b[i] == 0x7c || b[i] == 0x3a || (is_ws(b, i) && i + ws_width(b, i) <= end) {
        i
    } else {
        plain_end(b, i + 1, end)
    }
}

pub proof fn lemma_plain_end_bounds(b: Seq<u8>, i: int, end: int)
    requires
        i <= end,
    ensures
        i <= plain_end(b, i, end) <= end,
        plain_end(b, i, end) < end ==> b[plain_end(b, i, end)] == 0x7c || b[plain_end(b, i, end)]
            == 0x3a || is_ws(b, plain_end(b, i, end)),
    decreases end - i,
{
    if !(i >= end || b[i] == 0x7c || b[i] == 0x3a || (is_ws(b, i) && i + ws_width(b, i) <= end)) {
        lemma_plain_end_bounds(b, i + 1, end);
    }
}

/// A literal or variable that starts at `i < end`: its end and kind.
pub open spec fn operand_end(b: Seq<u8>, i: int, end: int) -> Result<(int, TagElementTokenType), LexerError> {
    let c = b[i];
    if c == 0x5f && i + 1 < end && b[i + 1] == 0x28 {
        match translated_result(b, i, end) {
            Ok(t) => Ok((t, TagElementTokenType::TranslatedText)),
            Err(e) => Err(e),
        }
    } else if is_quote(c) {
        match text_result(b, i, end) {
            Ok(t) => Ok((t, TagElementTokenType::Text)),
            Err(e) => Err(e),
        }
    } else if (0x30 <= c <= 0x39) || c == 0x2d {
        Ok((numeric_end(b, i, end), TagElementTokenType::Numeric))
    } else if c == 0x5f {
        Err(LexerError::InvalidVariableName { at: (i as usize, (plain_end(b, i, end) - i) as usize) })
    } else {
        Ok((plain_end(b, i, end), TagElementTokenType::Variable))
    }
}

/// A filter: the span of its name and its argument, if any.
#[derive(Debug, Clone, Copy, PartialEq, Eq)]
pub struct FilterToken {
    pub at: At,
    pub argument: Option<TagElementToken>,
}

/// Why the content of `{{ ... }}` is malformed.
#[derive(Debug, Clone, Copy, PartialEq, Eq)]
pub enum VariableLexerError {
    LexerError(LexerError),
    /// `|` is not followed by a filter name; the span is empty, after `|`.
    MissingFilterName { at: At },
    /// `:` is not followed by an argument; the span is empty, after `:`.
    MissingArgument { at: At },
    /// Something other than `|` follows an operand or a filter.
    InvalidRemainder { at: At },
}

/// The filter chain from `i` (just after an operand) to `end`.
pub open spec fn filters(b: Seq<u8>, i: int, end: int) -> Result<Seq<FilterToken>, VariableLexerError>
    decreases end - i,
{
    if i >= end || i < 0 {
        Ok(Seq::empty())
    } else if b[i] != 0x7c {
        Err(VariableLexerError::InvalidRemainder { at: (i as usize, (end - i) as usize) })
    } else {
        let n = i + 1;
        let k = xid_end(b, n, end);
        if k <= n || k > end {
            Err(VariableLexerError::MissingFilterName { at: (n as usize, 0) })
        } else if k < end && b[k] == 0x3a {
            if k + 1 >= end {
                Err(VariableLexerError::MissingArgument { at: ((k + 1) as usize, 0) })
            } else {
                match operand_end(b, k + 1, end) {
                    Err(e) => Err(VariableLexerError::LexerError(e)),
                    Ok((t, kind)) => if t <= k + 1 || t > end {
                        Err(VariableLexerError::MissingArgument { at: ((k + 1) as usize, 0) })
                    } else {
                        match filters(b, t, end) {
                            Err(e) => Err(e),
                            Ok(rest) => Ok(seq![FilterToken { at: (n as usize, (k - n) as usize), argument: Some(TagElementToken { at: ((k + 1) as usize, (t - k - 1) as usize), token_type: kind }) }] + rest),
                        }
                    },
                }
            }
        } else {
            match filters(b, k, end) {
                Err(e) => Err(e),
                Ok(rest) => Ok(seq![FilterToken { at: (n as usize, (k - n) as usize), argument: None }] + rest),
            }
        }
    }
}

/// The filters of `[i, end)` lie inside it, with their arguments.
pub open spec fn filters_within(fs: Seq<FilterToken>, end: int) -> bool {
    forall|k: int| 0 <= k < fs.len() ==> #[trigger] fs[k].at.0 + fs[k].at.1 <= end && match fs[k].argument {
        Some(a) => a.at.0 + a.at.1 <= end,
        None => true,
    }
}

pub proof fn lemma_filters_within(b: Seq<u8>, i: int, end: int)
    requires
        0 <= i <= end <= b.len(),
        end <= usize::MAX,
    ensures
        filters(b, i, end) matches Ok(fs) ==> filters_within(fs, end),
    decreases end - i,
{
    if !(i >= end || i < 0) && b[i] == 0x7c {
        let n = i + 1;
        crate::text::lemma_xid_end_bounds(b, n, end);
        let k = xid_end(b, n, end);
        if !(k <= n || k > end) {
            if k < end && b[k] == 0x3a {
                if k + 1 < end {
                    if let Ok((t, kind)) = operand_end(b, k + 1, end) {
                        if !(t <= k + 1 || t > end) {
                            lemma_filters_within(b, t, end);
                            if let Ok(rest) = filters(b, t, end) {
                                let f = FilterToken { at: (n as usize, (k - n) as usize), argument: Some(TagElementToken { at: ((k + 1) as usize, (t - k - 1) as usize), token_type: kind }) };
                                let all = seq![f] + rest;
                                assert forall|m: int| 0 <= m < all.len() implies #[trigger] all[m].at.0 + all[m].at.1 <= end && match all[m].argument {
                                    Some(a) => a.at.0 + a.at.1 <= end,
                                    None => true,
                                } by {
                                    if m > 0 {
                                        assert(all[m] == rest[m - 1]);
                                    }
                                }
                            }
                        }
                    }
                }
            } else {
                lemma_filters_within(b, k, end);
                if let Ok(rest) = filters(b, k, end) {
                    let f = FilterToken { at: (n as usize, (k - n) as usize), argument: None };
                    let all = seq![f] + rest;
                    assert forall|m: int| 0 <= m < all.len() implies #[trigger] all[m].at.0 + all[m].at.1 <= end && match all[m].argument {
                        Some(a) => a.at.0 + a.at.1 <= end,
                        None => true,
                    } by {
                        if m > 0 {
                            assert(all[m] == rest[m - 1]);
                        }
                    }
                }
            }
        }
    }
}

/// A lexed `{{ ... }}`: the operand and its filters, in order.
#[derive(Debug, PartialEq, Eq)]
pub struct VariableChain {
    pub operand: TagElementToken,
    pub filters: Vec<FilterToken>,
}

/// What lexing the trimmed content `[s, e)` of `{{ ... }}` gives; `None`
/// when it is empty.
pub open spec fn chain_result(b: Seq<u8>, s: int, e: int) -> Result<Option<(TagElementToken, Seq<FilterToken>)>, VariableLexerError> {
    if s >= e {
        Ok(None)
    } else {
        match operand_end(b, s, e) {
            Err(x) => Err(VariableLexerError::LexerError(x)),
            Ok((t, kind)) => match filters(b, t, e) {
                Err(x) => Err(x),
                Ok(fs) => Ok(Some((TagElementToken { at: (s as usize, (t - s) as usize), token_type: kind }, fs))),
            },
        }
    }
}

fn scan_plain(b: &[u8], i: usize, end: usize) -> (r: usize)
    requires
        i <= end <= b@.len(),
    ensures
        r == plain_end(b@, i as int, end as int),
        i <= r <= end,
{
    let mut j = i;
    proof {
        lemma_plain_end_bounds(b@, i as int, end as int);
    }
    while j < end
        invariant
            i <= j <= end <= b@.len(),
            plain_end(b@, j as int, end as int) == plain_end(b@, i as int, end as int),
        decreases end - j,
    {
        let c = b[j];
        if c == 0x7c || c == 0x3a {
            return j;
        }
        let w = ws_width_at(b, j);
        if w > 0 && w <= end - j {
            return j;
        }
        j = j + 1;
    }
    j
}

fn operand(b: &[u8], i: usize, end: usize) -> (r: Result<(usize, TagElementTokenType), LexerError>)
    requires
        i < end <= b@.len(),
    ensures
        match operand_end(b@, i as int, end as int) {
            Ok((t, kind)) => r matches Ok((t2, k2)) && t2 == t && k2 == kind && i <= t <= end,
            Err(e) => r == Err::<(usize, TagElementTokenType), LexerError>(e),
        },
{
    let c = b[i];
    if c == 0x5f && i + 1 < end && b[i + 1] == 0x28 {
        let q = i + 2;
        if q < end && (b[q] == 0x22 || b[q] == 0x27) {
            let j = scan_byte(b, q + 1, end, b[q]);
            if j < end && end - j > 1 && b[j + 1] == 0x29 {
                return Ok((j + 2, TagElementTokenType::TranslatedText));
            }
            return Err(LexerError::IncompleteTranslatedString { at: (i, end - i) });
        } else if q >= end {
            return Err(LexerError::IncompleteTranslatedString { at: (i, end - i) });
        } else {
            let w = crate::text::find_whitespace(b, i, end);
            return Err(LexerError::MissingTranslatedString { at: (i, w - i) });
        }
    } else if c == 0x22 || c == 0x27 {
        let j = scan_byte(b, i + 1, end, c);
        if j < end {
            return Ok((j + 1, TagElementTokenType::Text));
        }
        return Err(LexerError::IncompleteString { at: (i, end - i) });
    } else if (0x30 <= c && c <= 0x39) || c == 0x2d {
        return Ok((scan_numeric(b, i, end), TagElementTokenType::Numeric));
    } else if c == 0x5f {
        let t = scan_plain(b, i, end);
        return Err(LexerError::InvalidVariableName { at: (i, t - i) });
    }
    Ok((scan_plain(b, i, end), TagElementTokenType::Variable))
}

fn lex_filters(b: &[u8], i: usize, end: usize) -> (r: Result<Vec<FilterToken>, VariableLexerError>)
    requires
        i <= end <= b@.len(),
    ensures
        match filters(b@, i as int, end as int) {
            Ok(fs) => r matches Ok(v) && v@ == fs,
            Err(e) => r == Err::<Vec<FilterToken>, VariableLexerError>(e),
        },
{
    let len = b.len();
    let mut out: Vec<FilterToken> = Vec::new();
    let mut j = i;
    loop
        invariant
            i <= j <= end <= b@.len(),
            len == b@.len(),
            match filters(b@, i as int, end as int) {
                Ok(fs) => filters(b@, j as int, end as int) matches Ok(rest) && fs == out@ + rest,
                Err(e) => filters(b@, j as int, end as int) == Err::<Seq<FilterToken>, VariableLexerError>(e),
            },
        decreases end - j,
    {
        if j >= end {
            proof {
                assert(out@ + Seq::<FilterToken>::empty() =~= out@);
            }
            return Ok(out);
        }
        if b[j] != 0x7c {
            return Err(VariableLexerError::InvalidRemainder { at: (j, end - j) });
        }
        let n = j + 1;
        let k = skip_xid(b, n, end);
        if k <= n {
            return Err(VariableLexerError::MissingFilterName { at: (n, 0) });
        }
        let (filter, next) = if k < end && b[k] == 0x3a {
            if k + 1 >= end {
                return Err(VariableLexerError::MissingArgument { at: (k + 1, 0) });
            }
            let (t, kind) = match operand(b, k + 1, end) {
                Err(e) => return Err(VariableLexerError::LexerError(e)),
                Ok(x) => x,
            };
            if t <= k + 1 {
                return Err(VariableLexerError::MissingArgument { at: (k + 1, 0) });
            }
            (FilterToken { at: (n, k - n), argument: Some(TagElementToken { at: (k + 1, t - k - 1), token_type: kind }) }, t)
        } else {
            (FilterToken { at: (n, k - n), argument: None }, k)
        };
        proof {
            match filters(b@, next as int, end as int) {
                Ok(rest) => {
                    assert(out@ + (seq![filter] + rest) =~= (out@ + seq![filter]) + rest);
                },
                Err(e) => {},
            }
        }
        out.push(filter);
        j = next;
    }
}

/// Lexes the trimmed content `at` of `{{ ... }}`: `None` when it is empty,
/// else the operand and its filter chain.
pub fn lex_variable_or_filter(template: TemplateString<'_>, at: At) -> (r: Result<Option<VariableChain>, VariableLexerError>)
    requires
        at.0 + at.1 <= template.bytes().len(),
    ensures
        match chain_result(template.bytes(), at.0 as int, at.0 + at.1) {
            Ok(None) => r == Ok::<Option<VariableChain>, VariableLexerError>(None),
            Ok(Some((op, fs))) => r matches Ok(Some(c)) && c.operand == op && c.filters@ == fs,
            Err(e) => r == Err::<Option<VariableChain>, VariableLexerError>(e),
        },
        chain_result(template.bytes(), at.0 as int, at.0 + at.1) matches Ok(Some((op, fs))) ==> op.at.0 + op.at.1 <= at.0 + at.1 && filters_within(fs, at.0 + at.1),
{
    let b = template.0.as_bytes();
    let len = b.len();
    let s = at.0;
    let e = at.0 + at.1;
    if s >= e {
        return Ok(None);
    }
    let (t, kind) = match operand(b, s, e) {
        Err(x) => return Err(VariableLexerError::LexerError(x)),
        Ok(x) => x,
    };
    proof {
        lemma_filters_within(b@, t as int, e as int);
    }
    let filters = lex_filters(b, t, e)?;
    Ok(Some(VariableChain { operand: TagElementToken { at: (s, t - s), token_type: kind }, filters }))
}

} // verus!
