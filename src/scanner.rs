//! The top-level scanner: splits a template into text, `{{ variable }}`,
//! `{% tag %}` and `{# comment #}` segments.
use vstd::prelude::*;
use vstd::utf8::valid_utf8;
use crate::text::{
    boundary, content_end, lemma_boundary_step, lemma_ends, skip_whitespace, skip_ws, trim_end,
};
use crate::types::{span_bytes, span_ok, At, TemplateString};

verus! {

/// The kind of a segment of a template.
#[derive(Debug, Clone, Copy, PartialEq, Eq, Structural)]
pub enum TokenType {
    Text,
    Variable,
    Tag,
    Comment,
}

/// A segment of a template: its whole span, delimiters included, and the span
/// of its content. For a delimited segment the content is what stands
/// between the delimiters, trimmed; for text it is the text itself.
#[derive(Debug, Clone, Copy, PartialEq, Eq)]
pub struct Token {
    pub at: At,
    pub content_at: At,
    pub token_type: TokenType,
}

/// A delimiter that is opened and never closed.
#[derive(Debug, Clone, Copy, PartialEq, Eq)]
pub enum ScanError {
    /// The span covers the opening delimiter.
    UnterminatedDelimiter { at: At },
}

/// The kind of segment that an opening delimiter at `i` starts, if any.
pub open spec fn opener(b: Seq<u8>, i: int) -> Option<TokenType> {
    if 0 <= i && i + 1 < b.len() && b[i] == 0x7b {
        if b[i + 1] == 0x7b {
            Some(TokenType::Variable)
        } else if b[i + 1] == 0x25 {
            Some(TokenType::Tag)
        } else if b[i + 1] == 0x23 {
            Some(TokenType::Comment)
        } else {
            None
        }
    } else {
        None
    }
}

/// The first byte of the closing delimiter of each kind: `}}`, `%}`, `#}`.
pub open spec fn closer_byte(t: TokenType) -> u8 {
    match t {
        TokenType::Variable => 0x7d,
        TokenType::Tag => 0x25,
        _ => 0x23,
    }
}

/// The first opening delimiter at or after `i`, or the end.
pub open spec fn next_opener(b: Seq<u8>, i: int) -> int
    decreases b.len() - i,
{
    if i >= b.len() || opener(b, i) is Some {
        i
    } else {
        next_opener(b, i + 1)
    }
}

/// The first closing delimiter whose first byte is `c` at or after `i`, or
/// the end.
pub open spec fn next_closer(b: Seq<u8>, i: int, c: u8) -> int
    decreases b.len() - i,
{
    if i + 1 >= b.len() || (b[i] == c && b[i + 1] == 0x7d) {
        if i + 1 >= b.len() {
            b.len() as int
        } else {
            i
        }
    } else {
        next_closer(b, i + 1, c)
    }
}

/// The segment that starts at `i < b.len()`, and where the next one starts.
pub open spec fn segment(b: Seq<u8>, i: int) -> Result<(Token, int), ScanError> {
    match opener(b, i) {
        None => {
            let k = next_opener(b, i + 1);
            Ok((Token { at: (i as usize, (k - i) as usize), content_at: (i as usize, (k - i) as usize), token_type: TokenType::Text }, k))
        },
        Some(t) => {
            let j = next_closer(b, i + 2, closer_byte(t));
            if j >= b.len() {
                Err(ScanError::UnterminatedDelimiter { at: (i as usize, 2) })
            } else {
                let s = skip_ws(b, i + 2, j);
                let e = content_end(b, s, j, s);
                Ok((Token { at: (i as usize, (j + 2 - i) as usize), content_at: (s as usize, (e - s) as usize), token_type: t }, j + 2))
            }
        },
    }
}

/// The segments of `b` from `i` on.
pub open spec fn segments(b: Seq<u8>, i: int) -> Result<Seq<Token>, ScanError>
    decreases b.len() - i,
{
    if i >= b.len() || i < 0 {
        Ok(Seq::empty())
    } else {
        match segment(b, i) {
            Err(e) => Err(e),
            Ok((tok, next)) => if next <= i || next > b.len() {
                Ok(Seq::empty())
            } else {
                match segments(b, next) {
                    Err(e) => Err(e),
                    Ok(rest) => Ok(seq![tok] + rest),
                }
            },
        }
    }
}

/// The segments lie end to end from `from` to `to`.
pub open spec fn contiguous(toks: Seq<Token>, from: int, to: int) -> bool
    decreases toks.len(),
{
    if toks.len() == 0 {
        from == to
    } else {
        toks[0].at.0 == from && contiguous(toks.drop_first(), toks[0].at.0 + toks[0].at.1, to)
    }
}

/// The bytes of the segments, one after the other.
pub open spec fn joined(b: Seq<u8>, toks: Seq<Token>) -> Seq<u8>
    decreases toks.len(),
{
    if toks.len() == 0 {
        Seq::empty()
    } else {
        span_bytes(b, toks[0].at) + joined(b, toks.drop_first())
    }
}

pub proof fn lemma_next_closer_bounds(b: Seq<u8>, i: int, c: u8)
    requires
        0 <= i,
    ensures
        i <= next_closer(b, i, c) <= b.len() || (i > b.len() && next_closer(b, i, c) == b.len()),
        next_closer(b, i, c) < b.len() ==> next_closer(b, i, c) + 1 < b.len() && b[next_closer(b, i, c)] == c && b[next_closer(b, i, c) + 1] == 0x7d,
    decreases b.len() - i,
{
    if !(i + 1 >= b.len() || (b[i] == c && b[i + 1] == 0x7d)) {
        lemma_next_closer_bounds(b, i + 1, c);
    }
}

/// Every segment of a template is a sound span, and its content lies
/// inside it.
pub open spec fn token_sound(b: Seq<u8>, tok: Token) -> bool {
    &&& span_ok(b, tok.at)
    &&& span_ok(b, tok.content_at)
    &&& tok.at.0 <= tok.content_at.0
    &&& tok.content_at.0 + tok.content_at.1 <= tok.at.0 + tok.at.1
    &&& (tok.token_type != TokenType::Text ==> tok.at.1 >= 4 && boundary(b, tok.at.0 + 2)
        && boundary(b, tok.at.0 + tok.at.1 - 2))
}

/// Splits a template into segments, one at a time.
pub struct Lexer<'t> {
    pub template: TemplateString<'t>,
    pub byte: usize,
}

impl<'t> Lexer<'t> {
    pub open spec fn wf(&self) -> bool {
        &&& self.byte <= self.template.bytes().len()
        &&& boundary(self.template.bytes(), self.byte as int)
    }

    pub fn new(template: TemplateString<'t>) -> (r: Self)
        ensures
            r.wf(),
            r.template == template,
            r.byte == 0,
    {
        proof {
            template.lemma_valid();
            lemma_ends(template.bytes());
        }
        Lexer { template, byte: 0 }
    }

    /// The next segment; `None` at the end of the template. After an error
    /// the lexer is at the end.
    pub fn next(&mut self) -> (r: Option<Result<Token, ScanError>>)
        requires
            old(self).wf(),
        ensures
            final(self).wf(),
            final(self).template == old(self).template,
            old(self).byte >= old(self).template.bytes().len() ==> r is None && final(self).byte == old(self).byte,
            old(self).byte < old(self).template.bytes().len() ==> match segment(old(self).template.bytes(), old(self).byte as int) {
                Ok((tok, next)) => r == Some(Ok::<Token, ScanError>(tok)) && final(self).byte == next && next > old(self).byte && token_sound(old(self).template.bytes(), tok),
                Err(e) => r == Some(Err::<Token, ScanError>(e)) && final(self).byte == old(self).template.bytes().len(),
            },
    {
        let b = self.template.0.as_bytes();
        let n = b.len();
        let i = self.byte;
        if i >= n {
            return None;
        }
        proof {
            self.template.lemma_valid();
            lemma_ends(b@);
        }
        let kind = if i + 1 < n && b[i] == 0x7b {
            if b[i + 1] == 0x7b {
                Some(TokenType::Variable)
            } else if b[i + 1] == 0x25 {
                Some(TokenType::Tag)
            } else if b[i + 1] == 0x23 {
                Some(TokenType::Comment)
            } else {
                None
            }
        } else {
            None
        };
        match kind {
            None => {
                proof {
                    lemma_boundary_step(b@, i as int);
                }
                let k = find_opener(b, i + 1);
                self.byte = k;
                Some(Ok(Token { at: (i, k - i), content_at: (i, k - i), token_type: TokenType::Text }))
            },
            Some(t) => {
                let c: u8 = match t {
                    TokenType::Variable => 0x7d,
                    TokenType::Tag => 0x25,
                    _ => 0x23,
                };
                let j = find_closer(b, i + 2, c);
                if j >= n {
                    self.byte = n;
                    return Some(Err(ScanError::UnterminatedDelimiter { at: (i, 2) }));
                }
                proof {
                    lemma_boundary_step(b@, i as int);
                    lemma_boundary_step(b@, i + 1);
                    lemma_boundary_step(b@, j as int);
                    lemma_boundary_step(b@, j + 1);
                }
                let s = skip_whitespace(b, i + 2, j);
                let e = trim_end(b, s, j);
                self.byte = j + 2;
                Some(Ok(Token { at: (i, j + 2 - i), content_at: (s, e - s), token_type: t }))
            },
        }
    }
}

fn find_opener(b: &[u8], i: usize) -> (r: usize)
    requires
        0 < i <= b@.len(),
    ensures
        r == next_opener(b@, i as int),
        i <= r <= b@.len(),
        r < b@.len() ==> b@[r as int] == 0x7b,
{
    let n = b.len();
    let mut k = i;
    while k < n
        invariant
            i <= k <= n == b@.len(),
            next_opener(b@, k as int) == next_opener(b@, i as int),
        decreases n - k,
    {
        if n - k > 1 && b[k] == 0x7b && (b[k + 1] == 0x7b || b[k + 1] == 0x25 || b[k + 1] == 0x23) {
            return k;
        }
        k = k + 1;
    }
    k
}

fn find_closer(b: &[u8], i: usize, c: u8) -> (r: usize)
    requires
        i <= b@.len(),
    ensures
        r == next_closer(b@, i as int, c),
        i <= r <= b@.len(),
        r < b@.len() ==> r + 1 < b@.len() && b@[r as int] == c && b@[r + 1] == 0x7d,
{
    let n = b.len();
    let mut j = i;
    proof {
        lemma_next_closer_bounds(b@, i as int, c);
    }
    while j < n && n - j > 1
        invariant
            i <= j <= n == b@.len(),
            next_closer(b@, j as int, c) == next_closer(b@, i as int, c),
        decreases n - j,
    {
        if b[j] == c && b[j + 1] == 0x7d {
            return j;
        }
        j = j + 1;
    }
    n
}

/// Splits a whole template into its segments, or reports the first
/// unterminated delimiter. The segments lie end to end and cover the whole
/// template.
pub fn tokenize(template: TemplateString<'_>) -> (r: Result<Vec<Token>, ScanError>)
    ensures
        match segments(template.bytes(), 0) {
            Ok(toks) => r matches Ok(v) && v@ == toks,
            Err(e) => r == Err::<Vec<Token>, ScanError>(e),
        },
        r matches Ok(v) ==> contiguous(v@, 0, template.bytes().len() as int),
        r matches Ok(v) ==> forall|k: int| 0 <= k < v@.len() ==> token_sound(template.bytes(), #[trigger] v@[k]),
{
    let mut lexer = Lexer::new(template);
    let mut tokens: Vec<Token> = Vec::new();
    let ghost b = template.bytes();
    let n = template.len();
    while lexer.byte < n
        invariant
            lexer.wf(),
            lexer.template == template,
            n == b.len(),
            b == template.bytes(),
            segments(b, 0) == match segments(b, lexer.byte as int) {
                Ok(rest) => Ok::<Seq<Token>, ScanError>(tokens@ + rest),
                Err(e) => Err(e),
            },
            contiguous(tokens@, 0, lexer.byte as int),
            forall|k: int| 0 <= k < tokens@.len() ==> token_sound(b, #[trigger] tokens@[k]),
        decreases n - lexer.byte,
    {
        let ghost before = tokens@;
        let ghost at = lexer.byte as int;
        match lexer.next() {
            None => {
                proof {
                    assert(false);
                }
            },
            Some(Err(e)) => {
                return Err(e);
            },
            Some(Ok(tok)) => {
                proof {
                    let next = lexer.byte as int;
                    assert(segment(b, at) == Ok::<(Token, int), ScanError>((tok, next)));
                    match segments(b, next) {
                        Ok(rest) => {
                            assert(segments(b, at) == Ok::<Seq<Token>, ScanError>(seq![tok] + rest));
                            assert(before + (seq![tok] + rest) =~= (before + seq![tok]) + rest);
                        },
                        Err(e) => {
                            assert(segments(b, at) == Err::<Seq<Token>, ScanError>(e));
                        },
                    }
                }
                tokens.push(tok);
                proof {
                    assert(tokens@ == before + seq![tok]);
                    lemma_contiguous_push(before, tok, 0, at);
                    assert(tokens@[tokens@.len() - 1] == tok);
                }
            },
        }
    }
    proof {
        assert(segments(b, lexer.byte as int) == Ok::<Seq<Token>, ScanError>(Seq::empty()));
        assert(tokens@ + Seq::<Token>::empty() =~= tokens@);
    }
    Ok(tokens)
}

pub proof fn lemma_contiguous_push(toks: Seq<Token>, tok: Token, from: int, to: int)
    requires
        contiguous(toks, from, to),
        tok.at.0 == to,
    ensures
        contiguous(toks + seq![tok], from, tok.at.0 + tok.at.1),
    decreases toks.len(),
{
    if toks.len() == 0 {
        assert((toks + seq![tok]).drop_first() =~= Seq::<Token>::empty());
        assert((toks + seq![tok])[0] == tok);
        assert(contiguous(Seq::<Token>::empty(), tok.at.0 + tok.at.1, tok.at.0 + tok.at.1));
    } else {
        lemma_contiguous_push(toks.drop_first(), tok, toks[0].at.0 + toks[0].at.1, to);
        assert((toks + seq![tok]).drop_first() =~= toks.drop_first() + seq![tok]);
    }
}

/// Segments that lie end to end from `from` to `to` are, joined, the bytes
/// of `[from, to)`.
pub proof fn lemma_joined(b: Seq<u8>, toks: Seq<Token>, from: int, to: int)
    requires
        contiguous(toks, from, to),
        0 <= from,
        to <= b.len(),
        forall|k: int| 0 <= k < toks.len() ==> span_ok(b, #[trigger] toks[k].at),
    ensures
        joined(b, toks) == b.subrange(from, to),
    decreases toks.len(),
{
    if toks.len() == 0 {
        assert(b.subrange(from, to) =~= Seq::<u8>::empty());
    } else {
        let mid = toks[0].at.0 + toks[0].at.1;
        assert(span_ok(b, toks[0].at));
        assert forall|k: int| 0 <= k < toks.drop_first().len() implies span_ok(b, #[trigger] toks.drop_first()[k].at) by {
            assert(toks.drop_first()[k] == toks[k + 1]);
        }
        lemma_contiguous_bounds(toks.drop_first(), mid, to);
        lemma_joined(b, toks.drop_first(), mid, to);
        assert(b.subrange(from, to) =~= b.subrange(from, mid) + b.subrange(mid, to));
    }
}

pub proof fn lemma_contiguous_bounds(toks: Seq<Token>, from: int, to: int)
    requires
        contiguous(toks, from, to),
    ensures
        from <= to,
    decreases toks.len(),
{
    if toks.len() > 0 {
        lemma_contiguous_bounds(toks.drop_first(), toks[0].at.0 + toks[0].at.1, to);
    }
}

/// Round trip: joining the spans of all the segments of a template, with
/// their delimiters, gives back the template byte for byte.
pub proof fn lemma_round_trip(template: TemplateString<'_>, toks: Seq<Token>)
    requires
        segments(template.bytes(), 0) == Ok::<Seq<Token>, ScanError>(toks),
        contiguous(toks, 0, template.bytes().len() as int),
        forall|k: int| 0 <= k < toks.len() ==> token_sound(template.bytes(), #[trigger] toks[k]),
    ensures
        joined(template.bytes(), toks) == template.bytes(),
{
    let b = template.bytes();
    lemma_joined(b, toks, 0, b.len() as int);
    assert(b.subrange(0, b.len() as int) =~= b);
}

/// Lexing is a function of the template alone: lexing the same template
/// twice gives the same segments.
pub proof fn lemma_idempotent(
    template: TemplateString<'_>,
    first: Result<Seq<Token>, ScanError>,
    second: Result<Seq<Token>, ScanError>,
)
    requires
        first == segments(template.bytes(), 0),
        second == segments(template.bytes(), 0),
    ensures
        first == second,
{
}

} // verus!
