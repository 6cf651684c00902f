//! Rendering of the nodes whose output does not depend on the context.
use vstd::prelude::*;

verus! {

/// A comment renders as nothing.
pub fn render_comment() -> (r: String)
    ensures
        r@.len() == 0,
{
    String::new()
}

} // verus!
