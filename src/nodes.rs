//! Leaf nodes of the syntax tree.
use vstd::prelude::*;
use crate::types::At;

verus! {

/// Literal text, by its span.
#[derive(Debug, Clone, Copy, PartialEq, Eq)]
pub struct Text {
    pub at: At,
}

impl Text {
    pub fn new(at: At) -> (r: Self)
        ensures
            r.at == at,
    {
        Text { at }
    }
}

/// Text to be translated, by the span of the text itself.
#[derive(Debug, Clone, Copy, PartialEq, Eq)]
pub struct TranslatedText {
    pub at: At,
}

impl TranslatedText {
    pub fn new(at: At) -> (r: Self)
        ensures
            r.at == at,
    {
        TranslatedText { at }
    }
}

/// What a reference to the implicit loop state names.
#[derive(Debug, Clone, Copy, PartialEq, Eq, Structural)]
pub enum ForVariableName {
    Counter,
    Counter0,
    RevCounter,
    RevCounter0,
    First,
    Last,
    Object,
}

/// A reference to the state of an enclosing `for` loop, `parent_count` loops
/// out from the innermost one.
#[derive(Debug, Clone, Copy, PartialEq, Eq)]
pub struct ForVariable {
    pub variant: ForVariableName,
    pub parent_count: usize,
}

} // verus!
