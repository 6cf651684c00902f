//! The `if` tag's boolean expressions: lexing into atoms and operators, and
//! parsing by precedence climbing.
use vstd::prelude::*;
use vstd::string::StringSliceAdditionalSpecFns;
use crate::common::{span_is, LexerError};
use crate::operand::{operand_result, parse_operand, OperandError, TagElement};
use crate::element::{next_element, span_within, TagElementLexer, TagElementToken};
use crate::tag::TagParts;
use crate::text::{
    boundary, find_whitespace, find_ws, lemma_find_ws_bounds, lemma_skip_ws_bounds,
    skip_whitespace, skip_ws,
};
use crate::types::{span_ok, At, TemplateString};

verus! {

/// A binary operator of a condition.
#[derive(Debug, Clone, Copy, PartialEq, Eq, Structural)]
pub enum IfConditionOperator {
    And,
    Or,
    Equal,
    NotEqual,
    LessThan,
    GreaterThan,
    LessThanEqual,
    GreaterThanEqual,
    In,
    NotIn,
    Is,
    IsNot,
}

/// The kind of a token of a condition.
#[derive(Debug, Clone, Copy, PartialEq, Eq)]
pub enum IfConditionTokenType {
    /// An operand: a literal or a variable.
    Atom(TagElementToken),
    /// The prefix operator `not`.
    Not,
    Operator(IfConditionOperator),
}

/// A token of a condition, by its span.
#[derive(Debug, Clone, Copy, PartialEq, Eq)]
pub struct IfConditionToken {
    pub at: At,
    pub token_type: IfConditionTokenType,
}

/// How tightly an operator binds: a higher power binds tighter.
pub open spec fn power(op: IfConditionOperator) -> u8 {
    match op {
        IfConditionOperator::Or => 6,
        IfConditionOperator::And => 7,
        IfConditionOperator::In | IfConditionOperator::NotIn => 9,
        _ => 10,
    }
}

/// The binding power of the prefix `not`.
pub const NOT_BINDING_POWER: u8 = 8;

/// How tightly an operator binds.
pub fn binding_power(op: IfConditionOperator) -> (r: u8)
    ensures
        r == power(op),
{
    match op {
        IfConditionOperator::Or => 6,
        IfConditionOperator::And => 7,
        IfConditionOperator::In | IfConditionOperator::NotIn => 9,
        IfConditionOperator::Is
        | IfConditionOperator::IsNot
        | IfConditionOperator::Equal
        | IfConditionOperator::NotEqual
        | IfConditionOperator::GreaterThan
        | IfConditionOperator::GreaterThanEqual
        | IfConditionOperator::LessThan
        | IfConditionOperator::LessThanEqual => 10,
    }
}

/// A parsed condition.
#[derive(Debug, PartialEq, Eq)]
pub enum IfCondition {
    Variable(TagElement),
    And(Box<(IfCondition, IfCondition)>),
    Or(Box<(IfCondition, IfCondition)>),
    Not(Box<IfCondition>),
    Equal(Box<(IfCondition, IfCondition)>),
    NotEqual(Box<(IfCondition, IfCondition)>),
    LessThan(Box<(IfCondition, IfCondition)>),
    GreaterThan(Box<(IfCondition, IfCondition)>),
    LessThanEqual(Box<(IfCondition, IfCondition)>),
    GreaterThanEqual(Box<(IfCondition, IfCondition)>),
    In(Box<(IfCondition, IfCondition)>),
    NotIn(Box<(IfCondition, IfCondition)>),
    Is(Box<(IfCondition, IfCondition)>),
    IsNot(Box<(IfCondition, IfCondition)>),
}

/// The node that an operator makes of its two operands.
pub open spec fn combine(op: IfConditionOperator, lhs: IfCondition, rhs: IfCondition) -> IfCondition {
    let inner = Box::new((lhs, rhs));
    match op {
        IfConditionOperator::And => IfCondition::And(inner),
        IfConditionOperator::Or => IfCondition::Or(inner),
        IfConditionOperator::In => IfCondition::In(inner),
        IfConditionOperator::NotIn => IfCondition::NotIn(inner),
        IfConditionOperator::Is => IfCondition::Is(inner),
        IfConditionOperator::IsNot => IfCondition::IsNot(inner),
        IfConditionOperator::Equal => IfCondition::Equal(inner),
        IfConditionOperator::NotEqual => IfCondition::NotEqual(inner),
        IfConditionOperator::GreaterThan => IfCondition::GreaterThan(inner),
        IfConditionOperator::GreaterThanEqual => IfCondition::GreaterThanEqual(inner),
        IfConditionOperator::LessThan => IfCondition::LessThan(inner),
        IfConditionOperator::LessThanEqual => IfCondition::LessThanEqual(inner),
    }
}

/// Joins two conditions with an operator.
pub fn build_condition(op: IfConditionOperator, lhs: IfCondition, rhs: IfCondition) -> (r: IfCondition)
    ensures
        r == combine(op, lhs, rhs),
{
    let inner = Box::new((lhs, rhs));
    match op {
        IfConditionOperator::And => IfCondition::And(inner),
        IfConditionOperator::Or => IfCondition::Or(inner),
        IfConditionOperator::In => IfCondition::In(inner),
        IfConditionOperator::NotIn => IfCondition::NotIn(inner),
        IfConditionOperator::Is => IfCondition::Is(inner),
        IfConditionOperator::IsNot => IfCondition::IsNot(inner),
        IfConditionOperator::Equal => IfCondition::Equal(inner),
        IfConditionOperator::NotEqual => IfCondition::NotEqual(inner),
        IfConditionOperator::GreaterThan => IfCondition::GreaterThan(inner),
        IfConditionOperator::GreaterThanEqual => IfCondition::GreaterThanEqual(inner),
        IfConditionOperator::LessThan => IfCondition::LessThan(inner),
        IfConditionOperator::LessThanEqual => IfCondition::LessThanEqual(inner),
    }
}

/// The operator that a single word spells, if any.
pub open spec fn operator_of(w: Seq<u8>) -> Option<IfConditionOperator> {
    if w == "and".spec_bytes() {
        Some(IfConditionOperator::And)
    } else if w == "or".spec_bytes() {
        Some(IfConditionOperator::Or)
    } else if w == "in".spec_bytes() {
        Some(IfConditionOperator::In)
    } else if w == "==".spec_bytes() {
        Some(IfConditionOperator::Equal)
    } else if w == "!=".spec_bytes() {
        Some(IfConditionOperator::NotEqual)
    } else if w == "<".spec_bytes() {
        Some(IfConditionOperator::LessThan)
    } else if w == ">".spec_bytes() {
        Some(IfConditionOperator::GreaterThan)
    } else if w == "<=".spec_bytes() {
        Some(IfConditionOperator::LessThanEqual)
    } else if w == ">=".spec_bytes() {
        Some(IfConditionOperator::GreaterThanEqual)
    } else {
        None
    }
}

/// The next token of `[i, end)` and the position after it. A token is a
/// whitespace-separated word: `not in` and `is not` are two words and one
/// token; a word that is no operator is an operand.
pub open spec fn if_token(b: Seq<u8>, i: int, end: int) -> Option<
    (Result<IfConditionToken, LexerError>, int),
> {
    if i >= end {
        None
    } else {
        let w = find_ws(b, i, end);
        let word = b.subrange(i, w);
        let after = skip_ws(b, w, end);
        let w2 = find_ws(b, after, end);
        let second = b.subrange(after, w2);
        if word == "not".spec_bytes() {
            if after < end && second == "in".spec_bytes() {
                Some((Ok(IfConditionToken { at: (i as usize, (w2 - i) as usize), token_type: IfConditionTokenType::Operator(IfConditionOperator::NotIn) }), skip_ws(b, w2, end)))
            } else {
                Some((Ok(IfConditionToken { at: (i as usize, (w - i) as usize), token_type: IfConditionTokenType::Not }), after))
            }
        } else if word == "is".spec_bytes() {
            if after < end && second == "not".spec_bytes() {
                Some((Ok(IfConditionToken { at: (i as usize, (w2 - i) as usize), token_type: IfConditionTokenType::Operator(IfConditionOperator::IsNot) }), skip_ws(b, w2, end)))
            } else {
                Some((Ok(IfConditionToken { at: (i as usize, (w - i) as usize), token_type: IfConditionTokenType::Operator(IfConditionOperator::Is) }), after))
            }
        } else {
            match operator_of(word) {
                Some(op) => Some((Ok(IfConditionToken { at: (i as usize, (w - i) as usize), token_type: IfConditionTokenType::Operator(op) }), after)),
                None => match next_element(b, i, end) {
                    None => None,
                    Some((Err(e), next)) => Some((Err(e), next)),
                    Some((Ok(t), next)) => Some((Ok(IfConditionToken { at: t.at, token_type: IfConditionTokenType::Atom(t) }), next)),
                },
            }
        }
    }
}

/// All the tokens of `[i, end)`, or the first error.
pub open spec fn if_tokens(b: Seq<u8>, i: int, end: int) -> Result<Seq<IfConditionToken>, LexerError>
    decreases end - i,
{
    match if_token(b, i, end) {
        None => Ok(Seq::empty()),
        Some((Err(e), _)) => Err(e),
        Some((Ok(t), next)) => if next <= i || next > end {
            Ok(Seq::empty())
        } else {
            match if_tokens(b, next, end) {
                Ok(rest) => Ok(seq![t] + rest),
                Err(e) => Err(e),
            }
        },
    }
}

/// Why a condition cannot be parsed.
#[derive(Debug, Clone, Copy, PartialEq, Eq)]
pub enum IfParseError {
    LexerError(LexerError),
    /// An operand is malformed.
    OperandError(OperandError),
    /// The `if` tag has no condition.
    MissingBooleanExpression { at: At },
    /// The condition ends where an operand is due; the span is that of the
    /// operator or tag that wants it.
    UnexpectedEndExpression { at: At },
    /// An operator stands where an operand is due.
    InvalidIfPosition { at: At },
    /// An operand follows a complete expression with no operator between.
    UnusedExpression { at: At },
}

/// Parses an expression from the `pos`-th token, folding in operators that
/// bind tighter than `min`; `at` is what an early end is blamed on. The
/// result is the expression and the position after it.
pub open spec fn parse_expr(b: Seq<u8>, toks: Seq<IfConditionToken>, pos: int, min: u8, at: At, depth: usize, ext: Seq<String>) -> Result<(IfCondition, int), IfParseError>
    decreases toks.len() - pos, 2int,
{
    match parse_primary(b, toks, pos, at, depth, ext) {
        Err(e) => Err(e),
        Ok((lhs, p)) => if p <= pos || p > toks.len() {
            Err(IfParseError::UnexpectedEndExpression { at })
        } else {
            parse_loop(b, toks, p, min, lhs, depth, ext)
        },
    }
}

/// An operand, or `not` and the expression it negates.
pub open spec fn parse_primary(b: Seq<u8>, toks: Seq<IfConditionToken>, pos: int, at: At, depth: usize, ext: Seq<String>) -> Result<(IfCondition, int), IfParseError>
    decreases toks.len() - pos, 1int,
{
    if pos >= toks.len() || pos < 0 {
        Err(IfParseError::UnexpectedEndExpression { at })
    } else {
        let t = toks[pos];
        match t.token_type {
            IfConditionTokenType::Atom(a) => match operand_result(b, a.at.0 as int, a.at.0 + a.at.1, depth, ext) {
                Err(e) => Err(IfParseError::OperandError(e)),
                Ok(None) => Err(IfParseError::UnexpectedEndExpression { at: a.at }),
                Ok(Some(e)) => Ok((IfCondition::Variable(e), pos + 1)),
            },
            IfConditionTokenType::Not => match parse_expr(b, toks, pos + 1, NOT_BINDING_POWER, t.at, depth, ext) {
                Ok((c, p)) => Ok((IfCondition::Not(Box::new(c)), p)),
                Err(e) => Err(e),
            },
            IfConditionTokenType::Operator(_) => Err(IfParseError::InvalidIfPosition { at: t.at }),
        }
    }
}

/// Folds operators into `lhs` from the `pos`-th token on while they bind
/// tighter than `min`.
pub open spec fn parse_loop(b: Seq<u8>, toks: Seq<IfConditionToken>, pos: int, min: u8, lhs: IfCondition, depth: usize, ext: Seq<String>) -> Result<(IfCondition, int), IfParseError>
    decreases toks.len() - pos, 0int,
{
    if pos >= toks.len() || pos < 0 {
        Ok((lhs, pos))
    } else {
        let t = toks[pos];
        match t.token_type {
            IfConditionTokenType::Operator(op) => if power(op) <= min {
                Ok((lhs, pos))
            } else {
                match parse_expr(b, toks, pos + 1, power(op), t.at, depth, ext) {
                    Err(e) => Err(e),
                    Ok((rhs, q)) => if q <= pos || q > toks.len() {
                        Err(IfParseError::UnexpectedEndExpression { at: t.at })
                    } else {
                        parse_loop(b, toks, q, min, combine(op, lhs, rhs), depth, ext)
                    },
                }
            },
            _ => Err(IfParseError::UnusedExpression { at: t.at }),
        }
    }
}

/// What parsing the condition of an `if` tag gives; `at` is the tag's span.
pub open spec fn condition_result(b: Seq<u8>, parts: At, at: At, depth: usize, ext: Seq<String>) -> Result<IfCondition, IfParseError> {
    match if_tokens(b, parts.0 as int, parts.0 + parts.1) {
        Err(e) => Err(IfParseError::LexerError(e)),
        Ok(toks) => if toks.len() == 0 {
            Err(IfParseError::MissingBooleanExpression { at })
        } else {
            match parse_expr(b, toks, 0, 0, at, depth, ext) {
                Ok((c, _)) => Ok(c),
                Err(e) => Err(e),
            }
        },
    }
}

fn word_is(b: &[u8], i: usize, w: usize, lit: &[u8]) -> (r: bool)
    requires
        i <= w <= b@.len(),
    ensures
        r == (b@.subrange(i as int, w as int) == lit@),
{
    span_is(b, (i, w - i), lit)
}

fn single_operator(b: &[u8], i: usize, w: usize) -> (r: Option<IfConditionOperator>)
    requires
        i <= w <= b@.len(),
    ensures
        r == operator_of(b@.subrange(i as int, w as int)),
{
    if word_is(b, i, w, "and".as_bytes()) {
        Some(IfConditionOperator::And)
    } else if word_is(b, i, w, "or".as_bytes()) {
        Some(IfConditionOperator::Or)
    } else if word_is(b, i, w, "in".as_bytes()) {
        Some(IfConditionOperator::In)
    } else if word_is(b, i, w, "==".as_bytes()) {
        Some(IfConditionOperator::Equal)
    } else if word_is(b, i, w, "!=".as_bytes()) {
        Some(IfConditionOperator::NotEqual)
    } else if word_is(b, i, w, "<".as_bytes()) {
        Some(IfConditionOperator::LessThan)
    } else if word_is(b, i, w, ">".as_bytes()) {
        Some(IfConditionOperator::GreaterThan)
    } else if word_is(b, i, w, "<=".as_bytes()) {
        Some(IfConditionOperator::LessThanEqual)
    } else if word_is(b, i, w, ">=".as_bytes()) {
        Some(IfConditionOperator::GreaterThanEqual)
    } else {
        None
    }
}

/// Lexes a condition into atoms and operators.
pub struct IfConditionLexer<'t> {
    pub lexer: TagElementLexer<'t>,
}

impl<'t> IfConditionLexer<'t> {
    pub open spec fn wf(&self) -> bool {
        self.lexer.wf()
    }

    pub fn new(template: TemplateString<'t>, parts: TagParts) -> (r: Self)
        requires
            span_ok(template.bytes(), parts.at),
        ensures
            r.wf(),
            r.lexer.template == template,
            r.lexer.byte == parts.at.0,
            r.lexer.end == parts.at.0 + parts.at.1,
    {
        IfConditionLexer { lexer: TagElementLexer::new(template, parts) }
    }

    /// The next token, or `None` at the end. After an error the lexer yields
    /// nothing more.
    pub fn next(&mut self) -> (r: Option<Result<IfConditionToken, LexerError>>)
        requires
            old(self).wf(),
        ensures
            final(self).wf(),
            final(self).lexer.template == old(self).lexer.template,
            final(self).lexer.end == old(self).lexer.end,
            match if_token(old(self).lexer.bytes(), old(self).lexer.byte as int, old(self).lexer.end as int) {
                None => r.is_none(),
                Some((x, next)) => r == Some(x) && final(self).lexer.byte == next,
            },
            r.is_some() ==> final(self).lexer.end - final(self).lexer.byte < old(self).lexer.end - old(self).lexer.byte,
            r matches Some(Ok(t)) ==> span_within(old(self).lexer.bytes(), t.at, old(self).lexer.byte as int, old(self).lexer.end as int)
                && sound_token(old(self).lexer.bytes(), t),
    {
        let i = self.lexer.byte;
        let end = self.lexer.end;
        if i >= end {
            return None;
        }
        let b = self.lexer.template.0.as_bytes();
        proof {
            self.lexer.template.lemma_valid();
        }
        let w = find_whitespace(b, i, end);
        let after = skip_whitespace(b, w, end);
        let w2 = find_whitespace(b, after, end);
        proof {
            lemma_skip_ws_bounds(b@, w as int, end as int);
        }
        if word_is(b, i, w, "not".as_bytes()) {
            if after < end && word_is(b, after, w2, "in".as_bytes()) {
                self.lexer.byte = skip_whitespace(b, w2, end);
                return Some(Ok(IfConditionToken { at: (i, w2 - i), token_type: IfConditionTokenType::Operator(IfConditionOperator::NotIn) }));
            }
            self.lexer.byte = after;
            return Some(Ok(IfConditionToken { at: (i, w - i), token_type: IfConditionTokenType::Not }));
        }
        if word_is(b, i, w, "is".as_bytes()) {
            if after < end && word_is(b, after, w2, "not".as_bytes()) {
                self.lexer.byte = skip_whitespace(b, w2, end);
                return Some(Ok(IfConditionToken { at: (i, w2 - i), token_type: IfConditionTokenType::Operator(IfConditionOperator::IsNot) }));
            }
            self.lexer.byte = after;
            return Some(Ok(IfConditionToken { at: (i, w - i), token_type: IfConditionTokenType::Operator(IfConditionOperator::Is) }));
        }
        match single_operator(b, i, w) {
            Some(op) => {
                self.lexer.byte = after;
                Some(Ok(IfConditionToken { at: (i, w - i), token_type: IfConditionTokenType::Operator(op) }))
            },
            None => match self.lexer.next() {
                None => None,
                Some(Err(e)) => Some(Err(e)),
                Some(Ok(t)) => Some(Ok(IfConditionToken { at: t.at, token_type: IfConditionTokenType::Atom(t) })),
            },
        }
    }
}

} // verus!

verus! {

/// A token lies in the template on character boundaries, and an operand
/// token's element is the token itself.
pub open spec fn sound_token(b: Seq<u8>, t: IfConditionToken) -> bool {
    &&& span_ok(b, t.at)
    &&& (t.token_type matches IfConditionTokenType::Atom(a) ==> a.at == t.at)
}

pub open spec fn sound_tokens(b: Seq<u8>, ts: Seq<IfConditionToken>) -> bool {
    forall|k: int| 0 <= k < ts.len() ==> sound_token(b, #[trigger] ts[k])
}

/// The spec result with its position as a `usize`.
pub open spec fn same_result(r: Result<(IfCondition, usize), IfParseError>, s: Result<(IfCondition, int), IfParseError>) -> bool {
    match s {
        Ok((c, p)) => r matches Ok((c2, p2)) && c2 == c && p2 == p,
        Err(e) => r == Err::<(IfCondition, usize), IfParseError>(e),
    }
}

fn expr(template: TemplateString<'_>, toks: &Vec<IfConditionToken>, pos: usize, min: u8, at: At, depth: usize, external: &Vec<String>) -> (r: Result<(IfCondition, usize), IfParseError>)
    requires
        sound_tokens(template.bytes(), toks@),
        pos <= toks@.len(),
    ensures
        same_result(r, parse_expr(template.bytes(), toks@, pos as int, min, at, depth, external@)),
    decreases toks@.len() - pos, 2int,
{
    match primary(template, toks, pos, at, depth, external) {
        Err(e) => Err(e),
        Ok((lhs, p)) => {
            if p <= pos || p > toks.len() {
                return Err(IfParseError::UnexpectedEndExpression { at });
            }
            fold(template, toks, p, min, lhs, depth, external)
        },
    }
}

fn primary(template: TemplateString<'_>, toks: &Vec<IfConditionToken>, pos: usize, at: At, depth: usize, external: &Vec<String>) -> (r: Result<(IfCondition, usize), IfParseError>)
    requires
        sound_tokens(template.bytes(), toks@),
        pos <= toks@.len(),
    ensures
        same_result(r, parse_primary(template.bytes(), toks@, pos as int, at, depth, external@)),
    decreases toks@.len() - pos, 1int,
{
    if pos >= toks.len() {
        return Err(IfParseError::UnexpectedEndExpression { at });
    }
    let t = toks[pos];
    match t.token_type {
        IfConditionTokenType::Atom(a) => {
            assert(span_ok(template.bytes(), toks@[pos as int].at));
            match parse_operand(template, a.at, depth, external) {
                Err(e) => Err(IfParseError::OperandError(e)),
                Ok(None) => Err(IfParseError::UnexpectedEndExpression { at: a.at }),
                Ok(Some(e)) => Ok((IfCondition::Variable(e), pos + 1)),
            }
        },
        IfConditionTokenType::Not => match expr(template, toks, pos + 1, NOT_BINDING_POWER, t.at, depth, external) {
            Ok((c, p)) => Ok((IfCondition::Not(Box::new(c)), p)),
            Err(e) => Err(e),
        },
        IfConditionTokenType::Operator(_) => Err(IfParseError::InvalidIfPosition { at: t.at }),
    }
}

fn fold(template: TemplateString<'_>, toks: &Vec<IfConditionToken>, pos: usize, min: u8, lhs: IfCondition, depth: usize, external: &Vec<String>) -> (r: Result<(IfCondition, usize), IfParseError>)
    requires
        sound_tokens(template.bytes(), toks@),
        pos <= toks@.len(),
    ensures
        same_result(r, parse_loop(template.bytes(), toks@, pos as int, min, lhs, depth, external@)),
    decreases toks@.len() - pos, 0int,
{
    if pos >= toks.len() {
        return Ok((lhs, pos));
    }
    let t = toks[pos];
    match t.token_type {
        IfConditionTokenType::Operator(op) => {
            let bp = binding_power(op);
            if bp <= min {
                return Ok((lhs, pos));
            }
            match expr(template, toks, pos + 1, bp, t.at, depth, external) {
                Err(e) => Err(e),
                Ok((rhs, q)) => {
                    if q <= pos || q > toks.len() {
                        return Err(IfParseError::UnexpectedEndExpression { at: t.at });
                    }
                    fold(template, toks, q, min, build_condition(op, lhs, rhs), depth, external)
                },
            }
        },
        _ => Err(IfParseError::UnusedExpression { at: t.at }),
    }
}

fn collect_tokens(template: TemplateString<'_>, parts: TagParts) -> (r: Result<Vec<IfConditionToken>, LexerError>)
    requires
        span_ok(template.bytes(), parts.at),
    ensures
        match if_tokens(template.bytes(), parts.at.0 as int, parts.at.0 + parts.at.1) {
            Ok(ts) => r matches Ok(v) && v@ == ts,
            Err(e) => r == Err::<Vec<IfConditionToken>, LexerError>(e),
        },
        r matches Ok(v) ==> sound_tokens(template.bytes(), v@),
{
    let mut lexer = IfConditionLexer::new(template, parts);
    let mut out: Vec<IfConditionToken> = Vec::new();
    let ghost b = template.bytes();
    let ghost end = parts.at.0 + parts.at.1;
    loop
        invariant
            lexer.wf(),
            lexer.lexer.template == template,
            lexer.lexer.end == end,
            end == parts.at.0 + parts.at.1,
            b == template.bytes(),
            if_tokens(b, parts.at.0 as int, end) == match if_tokens(b, lexer.lexer.byte as int, end) {
                Ok(rest) => Ok::<Seq<IfConditionToken>, LexerError>(out@ + rest),
                Err(e) => Err(e),
            },
            sound_tokens(b, out@),
        decreases lexer.lexer.end - lexer.lexer.byte,
    {
        let ghost before = out@;
        let ghost at = lexer.lexer.byte as int;
        match lexer.next() {
            None => {
                proof {
                    assert(out@ + Seq::<IfConditionToken>::empty() =~= out@);
                }
                return Ok(out);
            },
            Some(Err(e)) => return Err(e),
            Some(Ok(t)) => {
                proof {
                    let next = lexer.lexer.byte as int;
                    assert(if_token(b, at, end) == Some((Ok::<IfConditionToken, LexerError>(t), next)));
                    assert(at < next <= end);
                    match if_tokens(b, next, end) {
                        Ok(rest) => {
                            assert(if_tokens(b, at, end) == Ok::<Seq<IfConditionToken>, LexerError>(seq![t] + rest));
                            assert(before + (seq![t] + rest) =~= (before + seq![t]) + rest);
                        },
                        Err(e) => {
                            assert(if_tokens(b, at, end) == Err::<Seq<IfConditionToken>, LexerError>(e));
                        },
                    }
                }
                out.push(t);
                proof {
                    assert(out@ == before + seq![t]);
                    assert forall|k: int| 0 <= k < out@.len() implies sound_token(b, #[trigger] out@[k]) by {
                        if k < before.len() {
                            assert(out@[k] == before[k]);
                        }
                    }
                }
            },
        }
    }
}

/// Parses the condition of an `if` tag, whose span is `at`, by precedence
/// climbing: `or` binds loosest, then `and`, then the prefix `not`, then
/// `in` and `not in`, and tightest `is`, `is not`, `==`, `!=`, `<`, `>`,
/// `<=` and `>=`. Operators of one power group to the left.
pub fn parse_if_condition(template: TemplateString<'_>, parts: TagParts, at: At, depth: usize, external: &Vec<String>) -> (r: Result<IfCondition, IfParseError>)
    requires
        span_ok(template.bytes(), parts.at),
    ensures
        r == condition_result(template.bytes(), parts.at, at, depth, external@),
{
    let toks = match collect_tokens(template, parts) {
        Ok(toks) => toks,
        Err(e) => return Err(IfParseError::LexerError(e)),
    };
    if toks.len() == 0 {
        return Err(IfParseError::MissingBooleanExpression { at });
    }
    match expr(template, &toks, 0, 0, at, depth, external) {
        Ok((c, _)) => Ok(c),
        Err(e) => Err(e),
    }
}

} // verus!

verus! {

/// Whether a node is decided by the host: an operand or a comparison.
pub open spec fn is_atom(c: IfCondition) -> bool {
    !(c is And || c is Or || c is Not)
}

/// The number of operands and comparisons in a condition.
pub open spec fn atom_count(c: IfCondition) -> nat
    decreases c,
{
    match c {
        IfCondition::And(inner) => atom_count(inner.0) + atom_count(inner.1),
        IfCondition::Or(inner) => atom_count(inner.0) + atom_count(inner.1),
        IfCondition::Not(x) => atom_count(*x),
        _ => 1,
    }
}

/// The value of a condition whose operands and comparisons, from the `k`-th
/// on in left-to-right order, have the values `leaves` (`None` where the host
/// could not tell). `and` and `or` read an unknown side as false, and an
/// unknown left side makes `or` false; `not` of an unknown value is false.
pub open spec fn eval_of(c: IfCondition, leaves: Seq<Option<bool>>, k: int) -> Option<bool>
    decreases c,
{
    match c {
        IfCondition::And(inner) => {
            let l = eval_of(inner.0, leaves, k);
            let r = eval_of(inner.1, leaves, k + atom_count(inner.0));
            Some(l == Some(true) && r == Some(true))
        },
        IfCondition::Or(inner) => {
            let l = eval_of(inner.0, leaves, k);
            let r = eval_of(inner.1, leaves, k + atom_count(inner.0));
            match l {
                None => Some(false),
                Some(true) => Some(true),
                Some(false) => Some(r == Some(true)),
            }
        },
        IfCondition::Not(x) => Some(eval_of(*x, leaves, k) == Some(false)),
        _ => if 0 <= k < leaves.len() {
            leaves[k]
        } else {
            None
        },
    }
}

fn fold_from(c: &IfCondition, leaves: &Vec<Option<bool>>, k: usize) -> (r: (Option<bool>, usize))
    requires
        k + atom_count(*c) <= leaves@.len(),
    ensures
        r.0 == eval_of(*c, leaves@, k as int),
        r.1 == k + atom_count(*c),
    decreases c,
{
    let n = leaves.len();
    match c {
        IfCondition::And(inner) => {
            let (l, k1) = fold_from(&inner.0, leaves, k);
            let (r, k2) = fold_from(&inner.1, leaves, k1);
            (Some(l == Some(true) && r == Some(true)), k2)
        },
        IfCondition::Or(inner) => {
            let (l, k1) = fold_from(&inner.0, leaves, k);
            let (r, k2) = fold_from(&inner.1, leaves, k1);
            let v = match l {
                None => Some(false),
                Some(true) => Some(true),
                Some(false) => Some(r == Some(true)),
            };
            (v, k2)
        },
        IfCondition::Not(x) => {
            let (v, k1) = fold_from(x, leaves, k);
            (Some(v == Some(false)), k1)
        },
        _ => (leaves[k], k + 1),
    }
}

/// Evaluates a condition, given one value for each of its operands and
/// comparisons in left-to-right order, as the host computes them.
pub fn fold_condition(c: &IfCondition, leaves: &Vec<Option<bool>>) -> (r: Option<bool>)
    requires
        leaves@.len() == atom_count(*c),
    ensures
        r == eval_of(*c, leaves@, 0),
{
    fold_from(c, leaves, 0).0
}

} // verus!
