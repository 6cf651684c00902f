//! Resolution of `forloop...` variables from the lexical nesting depth of
//! `for` loops.
use vstd::prelude::*;
use vstd::string::StringSliceAdditionalSpecFns;
use crate::common::{find_byte, lemma_find_byte_bounds, scan_byte, span_is};
use crate::nodes::{ForVariable, ForVariableName};
use crate::text::{content_end, skip_whitespace, skip_ws, trim_end};
use crate::types::{At, TemplateString};

verus! {

/// The `.`-separated pieces of `[i, end)`, empty ones included, as
/// `str::split` gives them.
pub open spec fn split_dots(b: Seq<u8>, i: int, end: int) -> Seq<At>
    decreases end - i,
{
    let d = find_byte(b, i, end, 0x2e);
    if d < end && d >= i {
        seq![(i as usize, (d - i) as usize)] + split_dots(b, d + 1, end)
    } else {
        seq![(i as usize, (end - i) as usize)]
    }
}

/// The bytes of a piece, trimmed of whitespace.
pub open spec fn trimmed(b: Seq<u8>, p: At) -> Seq<u8> {
    let s = skip_ws(b, p.0 as int, p.0 + p.1);
    b.subrange(s, content_end(b, s, p.0 + p.1, s))
}

/// The loop state that a last piece names.
pub open spec fn variant_of(w: Seq<u8>) -> Option<ForVariableName> {
    if w == "counter".spec_bytes() {
        Some(ForVariableName::Counter)
    } else if w == "counter0".spec_bytes() {
        Some(ForVariableName::Counter0)
    } else if w == "revcounter".spec_bytes() {
        Some(ForVariableName::RevCounter)
    } else if w == "revcounter0".spec_bytes() {
        Some(ForVariableName::RevCounter0)
    } else if w == "first".spec_bytes() {
        Some(ForVariableName::First)
    } else if w == "last".spec_bytes() {
        Some(ForVariableName::Last)
    } else if w == "parentloop".spec_bytes() {
        Some(ForVariableName::Object)
    } else {
        None
    }
}

/// The loop state that the variable at `at` refers to inside `depth` nested
/// loops, or `None` for an ordinary variable: `forloop`, then any number of
/// `parentloop`, then one of the state names, reaching no further out than
/// the outermost loop.
pub open spec fn for_variable_of(b: Seq<u8>, at: At, depth: usize) -> Option<ForVariable> {
    let ps = split_dots(b, at.0 as int, at.0 + at.1);
    let n = ps.len() as int;
    if depth == 0 || trimmed(b, ps[0]) != "forloop".spec_bytes() {
        None
    } else if n == 1 {
        Some(ForVariable { variant: ForVariableName::Object, parent_count: 0 })
    } else {
        match variant_of(trimmed(b, ps[n - 1])) {
            None => None,
            Some(v) => if exists|m: int| 1 <= m < n - 1 && trimmed(b, #[trigger] ps[m]) != "parentloop".spec_bytes() {
                None
            } else {
                let count = if v == ForVariableName::Object { n - 1 } else { n - 2 };
                if count > depth {
                    None
                } else {
                    Some(ForVariable { variant: v, parent_count: count as usize })
                }
            },
        }
    }
}

proof fn lemma_split_dots(b: Seq<u8>, i: int, end: int)
    requires
        0 <= i <= end <= b.len(),
        end <= usize::MAX,
    ensures
        split_dots(b, i, end).len() >= 1,
        split_dots(b, i, end).len() <= end - i + 1,
        forall|m: int| 0 <= m < split_dots(b, i, end).len() ==> i <= #[trigger] split_dots(b, i, end)[m].0 && split_dots(b, i, end)[m].0 + split_dots(b, i, end)[m].1 <= end,
    decreases end - i,
{
    lemma_find_byte_bounds(b, i, end, 0x2e);
    let d = find_byte(b, i, end, 0x2e);
    if d < end && d >= i {
        lemma_split_dots(b, d + 1, end);
        let rest = split_dots(b, d + 1, end);
        let all = split_dots(b, i, end);
        assert forall|m: int| 0 <= m < all.len() implies i <= #[trigger] all[m].0 && all[m].0 + all[m].1 <= end by {
            if m > 0 {
                assert(all[m] == rest[m - 1]);
            }
        }
    }
}

fn split(b: &[u8], i: usize, end: usize) -> (r: Vec<At>)
    requires
        i <= end <= b@.len(),
    ensures
        r@ == split_dots(b@, i as int, end as int),
{
    let n = b.len();
    let mut out: Vec<At> = Vec::new();
    let mut j = i;
    loop
        invariant
            i <= j <= end <= b@.len(),
            n == b@.len(),
            split_dots(b@, i as int, end as int) == out@ + split_dots(b@, j as int, end as int),
        decreases end - j,
    {
        let d = scan_byte(b, j, end, 0x2e);
        if d < end {
            proof {
                let rest = split_dots(b@, d + 1, end as int);
                assert(out@ + (seq![(j, (d - j) as usize)] + rest) =~= (out@ + seq![(j, (d - j) as usize)]) + rest);
            }
            out.push((j, d - j));
            j = d + 1;
        } else {
            proof {
                assert(out@ + seq![(j, (end - j) as usize)] =~= out@.push((j, (end - j) as usize)));
            }
            out.push((j, end - j));
            return out;
        }
    }
}

fn trimmed_is(b: &[u8], p: At, w: &[u8]) -> (r: bool)
    requires
        p.0 + p.1 <= b@.len(),
    ensures
        r == (trimmed(b@, p) == w@),
{
    let n = b.len();
    let s = skip_whitespace(b, p.0, p.0 + p.1);
    let e = trim_end(b, s, p.0 + p.1);
    span_is(b, (s, e - s), w)
}

fn variant(b: &[u8], p: At) -> (r: Option<ForVariableName>)
    requires
        p.0 + p.1 <= b@.len(),
    ensures
        r == variant_of(trimmed(b@, p)),
{
    if trimmed_is(b, p, "counter".as_bytes()) {
        Some(ForVariableName::Counter)
    } else if trimmed_is(b, p, "counter0".as_bytes()) {
        Some(ForVariableName::Counter0)
    } else if trimmed_is(b, p, "revcounter".as_bytes()) {
        Some(ForVariableName::RevCounter)
    } else if trimmed_is(b, p, "revcounter0".as_bytes()) {
        Some(ForVariableName::RevCounter0)
    } else if trimmed_is(b, p, "first".as_bytes()) {
        Some(ForVariableName::First)
    } else if trimmed_is(b, p, "last".as_bytes()) {
        Some(ForVariableName::Last)
    } else if trimmed_is(b, p, "parentloop".as_bytes()) {
        Some(ForVariableName::Object)
    } else {
        None
    }
}

/// Resolves the variable at `at` against `depth` enclosing `for` loops:
/// the loop state it names, or `None` for an ordinary variable.
pub fn parse_for_variable(template: TemplateString<'_>, at: At, depth: usize) -> (r: Option<ForVariable>)
    requires
        at.0 + at.1 <= template.bytes().len(),
    ensures
        r == for_variable_of(template.bytes(), at, depth),
{
    let b = template.0.as_bytes();
    let len = b.len();
    let ps = split(b, at.0, at.0 + at.1);
    proof {
        lemma_split_dots(b@, at.0 as int, at.0 + at.1);
    }
    let n = ps.len();
    if depth == 0 || !trimmed_is(b, ps[0], "forloop".as_bytes()) {
        return None;
    }
    if n == 1 {
        return Some(ForVariable { variant: ForVariableName::Object, parent_count: 0 });
    }
    let v = match variant(b, ps[n - 1]) {
        None => return None,
        Some(v) => v,
    };
    let mut m: usize = 1;
    while m < n - 1
        invariant
            1 <= m <= n - 1,
            n == ps@.len(),
            b@ == template.bytes(),
            ps@ == split_dots(b@, at.0 as int, at.0 + at.1),
            forall|k: int| 0 <= k < n ==> #[trigger] ps@[k].0 + ps@[k].1 <= b@.len(),
            forall|k: int| 1 <= k < m ==> trimmed(b@, #[trigger] ps@[k]) == "parentloop".spec_bytes(),
        decreases n - 1 - m,
    {
        if !trimmed_is(b, ps[m], "parentloop".as_bytes()) {
            proof {
                assert(1 <= m < n - 1 && trimmed(b@, ps@[m as int]) != "parentloop".spec_bytes());
            }
            return None;
        }
        m = m + 1;
    }
    let count = if v == ForVariableName::Object { n - 1 } else { n - 2 };
    if count > depth {
        return None;
    }
    Some(ForVariable { variant: v, parent_count: count })
}

} // verus!
