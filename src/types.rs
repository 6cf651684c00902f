//! The source view: the template text, and spans into it.
use vstd::prelude::*;
use vstd::utf8::*;
use vstd::string::StringSliceAdditionalSpecFns;
use crate::text::{boundary, lemma_boundary_iff, lemma_boundary_step};

verus! {



/// A span of the template: its byte offset and its length in bytes.
pub type At = (usize, usize);

/// The bytes of `at` lie in `b`, and both of its ends are character boundaries.
pub open spec fn span_ok(b: Seq<u8>, at: At) -> bool {
    &&& at.0 + at.1 <= b.len()
    &&& boundary(b, at.0 as int)
    &&& boundary(b, at.0 + at.1)
}

/// The end of a span.
pub open spec fn span_end(at: At) -> int {
    at.0 + at.1
}

/// The bytes that a span covers.
pub open spec fn span_bytes(b: Seq<u8>, at: At) -> Seq<u8> {
    b.subrange(at.0 as int, at.0 + at.1)
}

/// The template text, which every span points into.
#[derive(Clone, Copy)]
pub struct TemplateString<'t>(pub &'t str);

impl<'t> TemplateString<'t> {
    /// The UTF-8 bytes of the template.
    pub open spec fn bytes(&self) -> Seq<u8> {
        self.0.spec_bytes()
    }

    pub proof fn lemma_valid(&self)
        ensures
            valid_utf8(self.bytes()),
    {
        encode_utf8_valid_utf8(self.0@);
    }

    /// The length of the template in bytes.
    pub fn len(&self) -> (r: usize)
        ensures
            r == self.bytes().len(),
    {
        self.0.as_bytes().len()
    }

    /// The text that `at` covers.
    pub fn content(&self, at: At) -> (r: &'t str)
        requires
            span_ok(self.bytes(), at),
        ensures
            r.spec_bytes() == span_bytes(self.bytes(), at),
    {
        let (start, len) = at;
        let s: &'t str = self.0;
        proof {
            encode_utf8_valid_utf8(s@);
            lemma_boundary_iff(s.spec_bytes(), start as int);
        }
        let (_, rest) = s.split_at(start);
        proof {
            encode_utf8_valid_utf8(rest@);
            assert(rest.spec_bytes() =~= s.spec_bytes().subrange(start as int, s.spec_bytes().len() as int));
            lemma_boundary_iff(rest.spec_bytes(), len as int);
        }
        let (mid, _) = rest.split_at(len);
        proof {
            assert(mid.spec_bytes() =~= span_bytes(self.bytes(), at));
        }
        mid
    }
}

/// Views a string as a template.
pub trait IntoTemplateString<'t> {
    fn into_template_string(self) -> TemplateString<'t>;
}

impl<'t> IntoTemplateString<'t> for &'t str {
    fn into_template_string(self) -> (r: TemplateString<'t>)
        ensures
            r.0 == self,
    {
        TemplateString(self)
    }
}

} // verus!

verus! {

/// The `.`-separated parts of `[i, end)`, in order. A `.` at the very end
/// adds no empty part.
pub open spec fn dot_parts(b: Seq<u8>, i: int, end: int) -> Seq<At>
    decreases end - i,
{
    if i >= end {
        Seq::empty()
    } else {
        let d = crate::common::find_byte(b, i, end, 0x2e);
        if d < end && d >= i {
            seq![(i as usize, (d - i) as usize)] + dot_parts(b, d + 1, end)
        } else {
            seq![(i as usize, (end - i) as usize)]
        }
    }
}

/// Yields the `.`-separated parts of a variable, with their spans.
pub struct PartsIterator<'t> {
    pub template: TemplateString<'t>,
    pub start: usize,
    pub end: usize,
}

impl<'t> PartsIterator<'t> {
    pub open spec fn wf(&self) -> bool {
        &&& self.start <= self.end <= self.template.bytes().len()
        &&& boundary(self.template.bytes(), self.start as int)
        &&& boundary(self.template.bytes(), self.end as int)
    }

    /// The parts still to come.
    pub open spec fn remaining(&self) -> Seq<At> {
        dot_parts(self.template.bytes(), self.start as int, self.end as int)
    }

    pub fn next(&mut self) -> (r: Option<(&'t str, At)>)
        requires
            old(self).wf(),
        ensures
            final(self).wf(),
            final(self).template == old(self).template,
            old(self).remaining().len() == 0 ==> r is None,
            old(self).remaining().len() > 0 ==> (r matches Some((part, at)) && at == old(
                self,
            ).remaining()[0] && final(self).remaining() == old(self).remaining().drop_first()
                && part.spec_bytes() == span_bytes(old(self).template.bytes(), at)),
    {
        if self.start >= self.end {
            return None;
        }
        let b = self.template.0.as_bytes();
        let i = self.start;
        let end = self.end;
        let d = crate::common::scan_byte(b, i, end, 0x2e);
        proof {
            self.template.lemma_valid();
            crate::common::lemma_find_byte_bounds(b@, i as int, end as int, 0x2e);
        }
        if d < end && b[d] == 0x2e {
            proof {
                lemma_boundary_step(b@, d as int);
                assert(dot_parts(b@, i as int, end as int) == seq![(i, (d - i) as usize)] + dot_parts(b@, d + 1, end as int));
                assert((seq![(i, (d - i) as usize)] + dot_parts(b@, d + 1, end as int)).drop_first() =~= dot_parts(b@, d + 1, end as int));
            }
            let at = (i, d - i);
            let part = self.template.content(at);
            self.start = d + 1;
            Some((part, at))
        } else {
            proof {
                assert(seq![(i, (end - i) as usize)].drop_first() =~= Seq::<At>::empty());
            }
            let at = (i, end - i);
            let part = self.template.content(at);
            self.start = end;
            Some((part, at))
        }
    }
}

/// A variable: a `.`-separated path such as `user.profile.name`.
#[derive(Debug, Clone, Copy, PartialEq, Eq)]
pub struct Variable {
    pub at: At,
}

impl Variable {
    pub fn new(at: At) -> (r: Self)
        ensures
            r.at == at,
    {
        Variable { at }
    }

    /// The parts of the path, with their spans.
    pub fn parts<'t>(&self, template: TemplateString<'t>) -> (r: PartsIterator<'t>)
        requires
            span_ok(template.bytes(), self.at),
        ensures
            r.wf(),
            r.template == template,
            r.remaining() == dot_parts(template.bytes(), self.at.0 as int, self.at.0 + self.at.1),
    {
        let n = template.len();
        PartsIterator { template, start: self.at.0, end: self.at.0 + self.at.1 }
    }

    pub fn content<'t>(&self, template: TemplateString<'t>) -> (r: &'t str)
        requires
            span_ok(template.bytes(), self.at),
        ensures
            r.spec_bytes() == span_bytes(template.bytes(), self.at),
    {
        template.content(self.at)
    }
}

} // verus!
