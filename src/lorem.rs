//! The `lorem` tag: `[count] [w|p|b] [random]`.
use vstd::prelude::*;
use vstd::string::StringSliceAdditionalSpecFns;
use crate::common::span_is;
use crate::tag::TagParts;
use crate::text::{
    find_whitespace, find_ws, is_ws, lemma_find_ws_bounds, lemma_skip_ws_bounds, skip_whitespace,
    skip_ws, ws_width,
};
use crate::types::{span_bytes, span_ok, At, TemplateString};

verus! {

/// A lexed `lorem` tag. Without a count, one item is generated.
#[derive(Debug, Clone, Copy, PartialEq, Eq)]
pub struct LoremToken {
    pub at: At,
    pub count_at: Option<At>,
    pub method: LoremMethod,
    pub common: bool,
}

/// What the tag generates: words, HTML paragraphs or plain-text blocks.
#[derive(Debug, Clone, Copy, PartialEq, Eq, Structural)]
pub enum LoremMethod {
    Words,
    Paragraphs,
    Blocks,
}

/// Why a `lorem` tag is malformed.
#[derive(Debug, Clone, Copy, PartialEq, Eq)]
pub enum LoremError {
    /// A count follows the method or `random`.
    CountAfterMethodOrRandom { at: At },
    DuplicateRandom { first: At, second: At },
    DuplicateMethod { first: At, second: At },
    DuplicateCount { first: At, second: At },
}

/// The whitespace-separated words of `[i, end)`.
pub open spec fn words(b: Seq<u8>, i: int, end: int) -> Seq<At>
    decreases end - i,
{
    let s = skip_ws(b, i, end);
    if s >= end || s < i {
        Seq::empty()
    } else {
        let w = find_ws(b, s, end);
        if w <= s || w > end {
            Seq::empty()
        } else {
            seq![(s as usize, (w - s) as usize)] + words(b, w, end)
        }
    }
}

/// The method that a word names, if any.
pub open spec fn method_of(w: Seq<u8>) -> Option<LoremMethod> {
    if w == "w".spec_bytes() {
        Some(LoremMethod::Words)
    } else if w == "p".spec_bytes() {
        Some(LoremMethod::Paragraphs)
    } else if w == "b".spec_bytes() {
        Some(LoremMethod::Blocks)
    } else {
        None
    }
}

pub open spec fn is_random(w: Seq<u8>) -> bool {
    w == "random".spec_bytes()
}

/// What the words from the `k`-th on give, after the first word
/// `count_at`, with the method and `random` seen so far.
pub open spec fn lorem_rest(
    b: Seq<u8>,
    ws: Seq<At>,
    k: int,
    at: At,
    count_at: At,
    count_from_keyword: bool,
    method_at: Option<At>,
    random_at: Option<At>,
    method: LoremMethod,
    common: bool,
) -> Result<LoremToken, LoremError>
    decreases ws.len() - k,
{
    if k >= ws.len() || k < 0 {
        Ok(LoremToken { at, count_at: Some(count_at), method, common })
    } else {
        let word = span_bytes(b, ws[k]);
        match method_of(word) {
            Some(m) => match method_at {
                Some(first) => Err(LoremError::DuplicateMethod { first, second: ws[k] }),
                None => lorem_rest(b, ws, k + 1, at, count_at, count_from_keyword, Some(ws[k]), random_at, m, common),
            },
            None => if is_random(word) {
                match random_at {
                    Some(first) => Err(LoremError::DuplicateRandom { first, second: ws[k] }),
                    None => lorem_rest(b, ws, k + 1, at, count_at, count_from_keyword, method_at, Some(ws[k]), method, false),
                }
            } else if count_from_keyword {
                Err(LoremError::CountAfterMethodOrRandom { at: ws[k] })
            } else {
                Err(LoremError::DuplicateCount { first: count_at, second: ws[k] })
            },
        }
    }
}

/// What lexing the arguments `at` of a `lorem` tag gives. The first word is
/// the count, unless it is the only word and names a method or is
/// `random`: then the count is the default of one.
pub open spec fn lorem_result(b: Seq<u8>, at: At) -> Result<LoremToken, LoremError> {
    let ws = words(b, at.0 as int, at.0 + at.1);
    if ws.len() == 0 {
        Ok(LoremToken { at, count_at: None, method: LoremMethod::Blocks, common: true })
    } else if ws.len() == 1 && method_of(span_bytes(b, ws[0])) is Some {
        Ok(LoremToken { at, count_at: None, method: method_of(span_bytes(b, ws[0])).unwrap(), common: true })
    } else if ws.len() == 1 && is_random(span_bytes(b, ws[0])) {
        Ok(LoremToken { at, count_at: None, method: LoremMethod::Blocks, common: false })
    } else {
        let first = span_bytes(b, ws[0]);
        lorem_rest(b, ws, 1, at, ws[0], method_of(first) is Some || is_random(first), None, None, LoremMethod::Blocks, true)
    }
}

proof fn lemma_words_in(b: Seq<u8>, i: int, end: int)
    requires
        0 <= i <= end <= b.len(),
        end <= usize::MAX,
    ensures
        forall|k: int| 0 <= k < words(b, i, end).len() ==> i <= #[trigger] words(b, i, end)[k].0 && words(b, i, end)[k].0 + words(b, i, end)[k].1 <= end,
    decreases end - i,
{
    lemma_skip_ws_bounds(b, i, end);
    let s = skip_ws(b, i, end);
    if !(s >= end || s < i) {
        lemma_find_ws_bounds(b, s, end);
        let w = find_ws(b, s, end);
        if !(w <= s || w > end) {
            lemma_words_in(b, w, end);
            let rest = words(b, w, end);
            assert forall|k: int| 0 <= k < words(b, i, end).len() implies i <= #[trigger] words(b, i, end)[k].0 && words(b, i, end)[k].0 + words(b, i, end)[k].1 <= end by {
                if k > 0 {
                    assert(words(b, i, end)[k] == rest[k - 1]);
                }
            }
        }
    }
}

pub fn split_words(b: &[u8], i: usize, end: usize) -> (r: Vec<At>)
    requires
        i <= end <= b@.len(),
    ensures
        r@ == words(b@, i as int, end as int),
        forall|k: int| 0 <= k < r@.len() ==> i <= #[trigger] r@[k].0 && r@[k].0 + r@[k].1 <= end,
{
    let n = b.len();
    let mut out: Vec<At> = Vec::new();
    let mut j = i;
    while j < end
        invariant
            i <= j <= end <= b@.len(),
            words(b@, i as int, end as int) == out@ + words(b@, j as int, end as int),
        decreases end - j,
    {
        let s = skip_whitespace(b, j, end);
        if s >= end {
            proof {
                assert(words(b@, j as int, end as int) == Seq::<At>::empty());
                assert(out@ + Seq::<At>::empty() =~= out@);
                lemma_words_in(b@, i as int, end as int);
            }
            return out;
        }
        let w = find_whitespace(b, s, end);
        proof {
            lemma_skip_ws_bounds(b@, j as int, end as int);
            lemma_find_ws_bounds(b@, s + 1, end as int);
            assert(w > s);
            let ghost rest = words(b@, w as int, end as int);
            assert(words(b@, j as int, end as int) == seq![(s, (w - s) as usize)] + rest);
            assert(out@ + (seq![(s, (w - s) as usize)] + rest) =~= (out@ + seq![(s, (w - s) as usize)]) + rest);
        }
        out.push((s, w - s));
        j = w;
    }
    proof {
        assert(words(b@, j as int, end as int) == Seq::<At>::empty());
        assert(out@ + Seq::<At>::empty() =~= out@);
        lemma_words_in(b@, i as int, end as int);
    }
    out
}

fn method_word(b: &[u8], at: At) -> (r: Option<LoremMethod>)
    requires
        at.0 + at.1 <= b@.len(),
    ensures
        r == method_of(b@.subrange(at.0 as int, at.0 + at.1)),
{
    if span_is(b, at, "w".as_bytes()) {
        Some(LoremMethod::Words)
    } else if span_is(b, at, "p".as_bytes()) {
        Some(LoremMethod::Paragraphs)
    } else if span_is(b, at, "b".as_bytes()) {
        Some(LoremMethod::Blocks)
    } else {
        None
    }
}

/// Lexes the arguments of a `lorem` tag. The count, the method and `random`
/// may each appear once, with the count first; a single `w`, `p` or `b` is
/// the method alone, and a single `random` asks for random text.
pub fn lex_lorem(template: TemplateString<'_>, parts: TagParts) -> (r: Result<LoremToken, LoremError>)
    requires
        span_ok(template.bytes(), parts.at),
    ensures
        r == lorem_result(template.bytes(), parts.at),
{
    let b = template.0.as_bytes();
    let n = b.len();
    let at = parts.at;
    let ws = split_words(b, at.0, at.0 + at.1);
    if ws.len() == 0 {
        return Ok(LoremToken { at, count_at: None, method: LoremMethod::Blocks, common: true });
    }
    let first = method_word(b, ws[0]);
    if ws.len() == 1 {
        if let Some(m) = first {
            return Ok(LoremToken { at, count_at: None, method: m, common: true });
        }
    }
    let first_random = span_is(b, ws[0], "random".as_bytes());
    if ws.len() == 1 && first_random {
        return Ok(LoremToken { at, count_at: None, method: LoremMethod::Blocks, common: false });
    }
    let count_at = ws[0];
    let count_from_keyword = first.is_some() || first_random;
    let mut method_at: Option<At> = None;
    let mut random_at: Option<At> = None;
    let mut method = LoremMethod::Blocks;
    let mut common = true;
    let mut k: usize = 1;
    while k < ws.len()
        invariant
            1 <= k <= ws@.len(),
            n == b@.len(),
            b@ == template.bytes(),
            at == parts.at,
            ws@ == words(b@, at.0 as int, at.0 + at.1),
            forall|m: int| 0 <= m < ws@.len() ==> at.0 <= #[trigger] ws@[m].0 && ws@[m].0 + ws@[m].1 <= at.0 + at.1,
            at.0 + at.1 <= n,
            lorem_result(b@, at) == lorem_rest(b@, ws@, k as int, at, count_at, count_from_keyword, method_at, random_at, method, common),
        decreases ws.len() - k,
    {
        let w = ws[k];
        match method_word(b, w) {
            Some(m) => {
                if let Some(first) = method_at {
                    return Err(LoremError::DuplicateMethod { first, second: w });
                }
                method_at = Some(w);
                method = m;
            },
            None => {
                if span_is(b, w, "random".as_bytes()) {
                    if let Some(first) = random_at {
                        return Err(LoremError::DuplicateRandom { first, second: w });
                    }
                    random_at = Some(w);
                    common = false;
                } else if count_from_keyword {
                    return Err(LoremError::CountAfterMethodOrRandom { at: w });
                } else {
                    return Err(LoremError::DuplicateCount { first: count_at, second: w });
                }
            },
        }
        k = k + 1;
    }
    Ok(LoremToken { at, count_at: Some(count_at), method, common })
}

} // verus!

verus! {

proof fn lemma_lorem_rest_count(
    b: Seq<u8>,
    ws: Seq<At>,
    k: int,
    at: At,
    count_at: At,
    count_from_keyword: bool,
    method_at: Option<At>,
    random_at: Option<At>,
    method: LoremMethod,
    common: bool,
)
    ensures
        lorem_rest(b, ws, k, at, count_at, count_from_keyword, method_at, random_at, method, common) matches Ok(t) ==> t.count_at == Some(count_at),
    decreases ws.len() - k,
{
    if !(k >= ws.len() || k < 0) {
        let word = span_bytes(b, ws[k]);
        match method_of(word) {
            Some(m) => {
                if method_at is None {
                    lemma_lorem_rest_count(b, ws, k + 1, at, count_at, count_from_keyword, Some(ws[k]), random_at, m, common);
                }
            },
            None => {
                if is_random(word) && random_at is None {
                    lemma_lorem_rest_count(b, ws, k + 1, at, count_at, count_from_keyword, method_at, Some(ws[k]), method, false);
                }
            },
        }
    }
}

/// The count of a lexed `lorem` tag lies in the template.
pub proof fn lemma_lorem_count_in(b: Seq<u8>, parts: At)
    requires
        span_ok(b, parts),
        b.len() <= usize::MAX,
    ensures
        lorem_result(b, parts) matches Ok(l) ==> (l.count_at matches Some(c) ==> c.0 + c.1 <= b.len()),
{
    lemma_words_in(b, parts.0 as int, parts.0 + parts.1);
    let ws = words(b, parts.0 as int, parts.0 + parts.1);
    if ws.len() > 0 {
        let first = span_bytes(b, ws[0]);
        lemma_lorem_rest_count(b, ws, 1, parts, ws[0], method_of(first) is Some || is_random(first), None, None, LoremMethod::Blocks, true);
    }
}

} // verus!
