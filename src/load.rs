//! The `load` tag: library names, or names to take `from` one library.
use vstd::prelude::*;
use vstd::string::StringSliceAdditionalSpecFns;
use crate::common::span_is;
use crate::lorem::{split_words, words};
use crate::tag::TagParts;
use crate::types::{span_bytes, span_ok, At, TemplateString};

verus! {

/// What the arguments `parts` of a `load` tag name: the names, and the
/// library they come from when the second-to-last word is `from`; without
/// `from`, each name is a library.
pub open spec fn load_result(b: Seq<u8>, parts: At) -> (Seq<At>, Option<At>) {
    let ws = words(b, parts.0 as int, parts.0 + parts.1);
    let n = ws.len() as int;
    if n >= 2 && span_bytes(b, ws[n - 2]) == "from".spec_bytes() {
        (ws.take(n - 2), Some(ws[n - 1]))
    } else {
        (ws, None)
    }
}

/// Lexes the arguments of a `load` tag: the spans of the names, and of the
/// library after `from` if there is one.
pub fn lex_load(template: TemplateString<'_>, parts: TagParts) -> (r: (Vec<At>, Option<At>))
    requires
        span_ok(template.bytes(), parts.at),
    ensures
        r.0@ == load_result(template.bytes(), parts.at).0,
        r.1 == load_result(template.bytes(), parts.at).1,
{
    let b = template.0.as_bytes();
    let size = b.len();
    let ws = split_words(b, parts.at.0, parts.at.0 + parts.at.1);
    let n = ws.len();
    if n >= 2 && span_is(b, ws[n - 2], "from".as_bytes()) {
        let library = ws[n - 1];
        let mut names: Vec<At> = Vec::new();
        let mut i: usize = 0;
        while i < n - 2
            invariant
                n == ws@.len(),
                n >= 2,
                i <= n - 2,
                names@ == ws@.take(i as int),
            decreases n - 2 - i,
        {
            names.push(ws[i]);
            proof {
                assert(names@ =~= ws@.take(i + 1));
            }
            i = i + 1;
        }
        (names, Some(library))
    } else {
        (ws, None)
    }
}

} // verus!
