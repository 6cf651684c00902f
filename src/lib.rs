//! Lexing and parsing for a text templating language whose source mixes
//! literal text with `{{ variable }}` interpolation, `{% tag %}` constructs and
//! `{# comment #}` blocks. Every token carries a byte span into the template.
use vstd::prelude::*;

pub mod text;
pub mod types;
pub mod tag;
pub mod common;
pub mod element;
pub mod templatetag;
pub mod now;
pub mod comment;
pub mod scanner;
pub mod nodes;
pub mod render;
pub mod block;
pub mod lorem;
pub mod lorem_text;
pub mod kwarg;
pub mod inclusion;
pub mod cycle;
pub mod path;
pub mod ifcondition;
pub mod forloop;
pub mod loopvar;
pub mod variable;
pub mod operand;
pub mod parse;
pub mod url;
pub mod inclusion_tag;
pub mod custom_tag;
pub mod load;

verus! {

/// Byte length of an opening delimiter such as `{%`.
pub const START_TAG_LEN: usize = 2;

/// Byte length of a closing delimiter such as `%}`.
pub const END_TAG_LEN: usize = 2;

} // verus!
