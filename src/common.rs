//! Scanning primitives shared by the tag lexers: quoted text, translated
//! text, numbers and variables with their filter chains.
use vstd::prelude::*;
use vstd::utf8::valid_utf8;
use crate::text::{
    boundary, find_ws, is_ws, lemma_boundary_step, lemma_find_ws_bounds, lemma_skip_ws_bounds,
    skip_ws, ws_width, ws_width_at,
};
use crate::types::At;

verus! {

/// A malformed element inside a tag.
#[derive(Debug, Clone, Copy, PartialEq, Eq)]
pub enum LexerError {
    /// A quoted string has no closing quote.
    IncompleteString { at: At },
    /// A `_("...")` translated string is not closed.
    IncompleteTranslatedString { at: At },
    /// `_(` is not followed by a quoted string.
    MissingTranslatedString { at: At },
    /// A variable has a name that may not be used.
    InvalidVariableName { at: At },
    /// An element is followed by something other than whitespace.
    InvalidRemainder { at: At },
}

impl LexerError {
    /// The span that the error points at.
    pub open spec fn span(self) -> At {
        match self {
            LexerError::IncompleteString { at } => at,
            LexerError::IncompleteTranslatedString { at } => at,
            LexerError::MissingTranslatedString { at } => at,
            LexerError::InvalidVariableName { at } => at,
            LexerError::InvalidRemainder { at } => at,
        }
    }
}

pub open spec fn is_quote(c: u8) -> bool {
    c == 0x22 || c == 0x27
}

/// A byte that may stand in a numeric literal: a digit, a sign, a point or an
/// exponent marker.
pub open spec fn is_numeric_byte(c: u8) -> bool {
    (0x30 <= c <= 0x39) || c == 0x2e || c == 0x2d || c == 0x2b || c == 0x65 || c == 0x45
}

/// The end of the run of numeric bytes from `i`.
pub open spec fn numeric_end(b: Seq<u8>, i: int, end: int) -> int
    decreases end - i,
{
    if i < end && is_numeric_byte(b[i]) {
        numeric_end(b, i + 1, end)
    } else {
        i
    }
}

/// The position of the first byte `c` in `[i, end)`, or `end`.
pub open spec fn find_byte(b: Seq<u8>, i: int, end: int, c: u8) -> int
    decreases end - i,
{
    if i >= end || b[i] == c {
        i
    } else {
        find_byte(b, i + 1, end, c)
    }
}

/// The end of a variable and its filter chain, scanned from `i` while inside
/// the quote `q` (0 outside any quote). Outside quotes, whitespace and `=`
/// end it.
pub open spec fn variable_end(b: Seq<u8>, i: int, end: int, q: u8) -> int
    decreases end - i,
{
    if i >= end {
        i
    } else if q != 0 {
        if b[i] == q {
            variable_end(b, i + 1, end, 0)
        } else {
            variable_end(b, i + 1, end, q)
        }
    } else if is_quote(b[i]) {
        variable_end(b, i + 1, end, b[i])
    } else if b[i] == 0x3d || (is_ws(b, i) && i + ws_width(b, i) <= end) {
        i
    } else {
        variable_end(b, i + 1, end, 0)
    }
}

/// A quoted string opened by the quote at `i`: the end of the closing quote,
/// or the error that covers the rest.
pub open spec fn text_result(b: Seq<u8>, i: int, end: int) -> Result<int, LexerError> {
    let j = find_byte(b, i + 1, end, b[i]);
    if j < end {
        Ok(j + 1)
    } else {
        Err(LexerError::IncompleteString { at: (i as usize, (end - i) as usize) })
    }
}

/// A translated string `_("...")` that starts at `i`.
pub open spec fn translated_result(b: Seq<u8>, i: int, end: int) -> Result<int, LexerError> {
    let q = i + 2;
    let incomplete = LexerError::IncompleteTranslatedString {
        at: (i as usize, (end - i) as usize),
    };
    if q < end && is_quote(b[q]) {
        let j = find_byte(b, q + 1, end, b[q]);
        if j + 1 < end && b[j + 1] == 0x29 {
            Ok(j + 2)
        } else {
            Err(incomplete)
        }
    } else if q >= end {
        Err(incomplete)
    } else {
        Err(LexerError::MissingTranslatedString { at: (i as usize, (find_ws(b, i, end) - i) as usize) })
    }
}

/// What follows an element that ends at `t`: the position of the next
/// element, or the error that covers the characters stuck to it.
pub open spec fn remainder_result(b: Seq<u8>, t: int, end: int) -> Result<int, LexerError> {
    let w = find_ws(b, t, end);
    if w == t {
        Ok(skip_ws(b, t, end))
    } else {
        Err(LexerError::InvalidRemainder { at: (t as usize, (w - t) as usize) })
    }
}

/// The span of the text inside the quotes of a quoted string.
pub open spec fn text_inner(at: At) -> At {
    ((at.0 + 1) as usize, (at.1 - 2) as usize)
}

/// The span of the text inside `_("` and `")`.
pub open spec fn translated_inner(at: At) -> At {
    ((at.0 + 3) as usize, (at.1 - 5) as usize)
}

/// The span of the text inside the quotes of a quoted string.
pub fn text_content_at(at: At) -> (r: At)
    requires
        at.1 >= 2,
        at.0 + at.1 <= usize::MAX,
    ensures
        r == text_inner(at),
{
    (at.0 + 1, at.1 - 2)
}

/// The span of the text inside `_("` and `")`.
pub fn translated_text_content_at(at: At) -> (r: At)
    requires
        at.1 >= 5,
        at.0 + at.1 <= usize::MAX,
    ensures
        r == translated_inner(at),
{
    (at.0 + 3, at.1 - 5)
}

pub proof fn lemma_numeric_end_bounds(b: Seq<u8>, i: int, end: int)
    requires
        i <= end,
    ensures
        i <= numeric_end(b, i, end) <= end,
    decreases end - i,
{
    if i < end && is_numeric_byte(b[i]) {
        lemma_numeric_end_bounds(b, i + 1, end);
    }
}

pub proof fn lemma_find_byte_bounds(b: Seq<u8>, i: int, end: int, c: u8)
    requires
        i <= end,
    ensures
        i <= find_byte(b, i, end, c) <= end,
        find_byte(b, i, end, c) < end ==> b[find_byte(b, i, end, c)] == c,
    decreases end - i,
{
    if !(i >= end || b[i] == c) {
        lemma_find_byte_bounds(b, i + 1, end, c);
    }
}

pub proof fn lemma_variable_end_bounds(b: Seq<u8>, i: int, end: int, q: u8)
    requires
        i <= end,
    ensures
        i <= variable_end(b, i, end, q) <= end,
        variable_end(b, i, end, q) == end || b[variable_end(b, i, end, q)] == 0x3d || is_ws(
            b,
            variable_end(b, i, end, q),
        ),
    decreases end - i,
{
    if i < end {
        if q != 0 {
            if b[i] == q {
                lemma_variable_end_bounds(b, i + 1, end, 0);
            } else {
                lemma_variable_end_bounds(b, i + 1, end, q);
            }
        } else if is_quote(b[i]) {
            lemma_variable_end_bounds(b, i + 1, end, b[i]);
        } else if b[i] == 0x3d || (is_ws(b, i) && i + ws_width(b, i) <= end) {
        } else {
            lemma_variable_end_bounds(b, i + 1, end, 0);
        }
    }
}

/// The end of the numeric literal that starts at `i`.
pub fn scan_numeric(b: &[u8], i: usize, end: usize) -> (r: usize)
    requires
        i <= end <= b@.len(),
    ensures
        r == numeric_end(b@, i as int, end as int),
        i <= r <= end,
        valid_utf8(b@) && boundary(b@, i as int) && boundary(b@, end as int) ==> boundary(
            b@,
            r as int,
        ),
{
    let mut j = i;
    proof {
        lemma_numeric_end_bounds(b@, i as int, end as int);
    }
    while j < end
        invariant
            i <= j <= end <= b@.len(),
            numeric_end(b@, j as int, end as int) == numeric_end(b@, i as int, end as int),
            valid_utf8(b@) && boundary(b@, i as int) && boundary(b@, end as int) ==> boundary(
                b@,
                j as int,
            ),
        decreases end - j,
    {
        let c = b[j];
        if !((0x30 <= c && c <= 0x39) || c == 0x2e || c == 0x2d || c == 0x2b || c == 0x65 || c
            == 0x45) {
            return j;
        }
        proof {
            if valid_utf8(b@) && boundary(b@, i as int) && boundary(b@, end as int) {
                lemma_boundary_step(b@, j as int);
            }
        }
        j = j + 1;
    }
    j
}

/// The position of the first byte `c` in `[i, end)`, or `end`.
pub fn scan_byte(b: &[u8], i: usize, end: usize, c: u8) -> (r: usize)
    requires
        i <= end <= b@.len(),
    ensures
        r == find_byte(b@, i as int, end as int, c),
        i <= r <= end,
        r < end ==> b@[r as int] == c,
{
    let mut j = i;
    proof {
        lemma_find_byte_bounds(b@, i as int, end as int, c);
    }
    while j < end
        invariant
            i <= j <= end <= b@.len(),
            find_byte(b@, j as int, end as int, c) == find_byte(b@, i as int, end as int, c),
        decreases end - j,
    {
        if b[j] == c {
            return j;
        }
        j = j + 1;
    }
    j
}

/// The end of the variable, with its filter chain, that starts at `i`.
pub fn scan_variable(b: &[u8], i: usize, end: usize) -> (r: usize)
    requires
        i <= end <= b@.len(),
    ensures
        r == variable_end(b@, i as int, end as int, 0),
        i <= r <= end,
        boundary(b@, end as int) ==> boundary(b@, r as int),
{
    let mut j = i;
    let mut q: u8 = 0;
    proof {
        lemma_variable_end_bounds(b@, i as int, end as int, 0);
    }
    while j < end
        invariant
            i <= j <= end <= b@.len(),
            variable_end(b@, j as int, end as int, q) == variable_end(b@, i as int, end as int, 0),
        decreases end - j,
    {
        let c = b[j];
        if q != 0 {
            if c == q {
                q = 0;
            }
        } else if c == 0x22 || c == 0x27 {
            q = c;
        } else if c == 0x3d {
            return j;
        } else {
            let w = ws_width_at(b, j);
            if w > 0 && w <= end - j {
                return j;
            }
        }
        j = j + 1;
    }
    j
}

} // verus!

verus! {

/// Whether the bytes of `at` are exactly `w`.
pub fn span_is(b: &[u8], at: At, w: &[u8]) -> (r: bool)
    requires
        at.0 + at.1 <= b@.len(),
    ensures
        r == (b@.subrange(at.0 as int, at.0 + at.1) == w@),
{
    let n = b.len();
    if at.1 != w.len() {
        return false;
    }
    let mut k: usize = 0;
    while k < at.1
        invariant
            at.0 + at.1 <= b@.len(),
            n == b@.len(),
            at.1 == w@.len(),
            k <= at.1,
            forall|m: int| 0 <= m < k ==> b@[at.0 + m] == w@[m],
        decreases at.1 - k,
    {
        if b[at.0 + k] != w[k] {
            assert(b@.subrange(at.0 as int, at.0 + at.1)[k as int] != w@[k as int]);
            return false;
        }
        k = k + 1;
    }
    assert(b@.subrange(at.0 as int, at.0 + at.1) =~= w@);
    true
}

} // verus!
