//! Byte-level character classes of UTF-8 text: whitespace, character
//! boundaries and identifier characters.
use unicode_xid::UnicodeXID;
use vstd::prelude::*;
use vstd::utf8::*;

verus! {

/// Width in bytes of the whitespace character encoded at `i`, or 0 when the
/// character there is not whitespace. Whitespace is the Unicode `White_Space`
/// property, as used by `char::is_whitespace`.
pub open spec fn ws_width(b: Seq<u8>, i: int) -> int {
    if i < 0 || i >= b.len() {
        0
    } else if b[i] == 0x09 || b[i] == 0x0a || b[i] == 0x0b || b[i] == 0x0c || b[i] == 0x0d
        || b[i] == 0x20 {
        1
    } else if b[i] == 0xc2 && i + 1 < b.len() && (b[i + 1] == 0x85 || b[i + 1] == 0xa0) {
        2
    } else if i + 2 < b.len() && ((b[i] == 0xe1 && b[i + 1] == 0x9a && b[i + 2] == 0x80) || (
    b[i] == 0xe2 && b[i + 1] == 0x80 && ((0x80 <= b[i + 2] && b[i + 2] <= 0x8a) || b[i + 2]
        == 0xa8 || b[i + 2] == 0xa9 || b[i + 2] == 0xaf)) || (b[i] == 0xe2 && b[i + 1] == 0x81
        && b[i + 2] == 0x9f) || (b[i] == 0xe3 && b[i + 1] == 0x80 && b[i + 2] == 0x80)) {
        3
    } else {
        0
    }
}

/// A whitespace character starts at `i`.
pub open spec fn is_ws(b: Seq<u8>, i: int) -> bool {
    ws_width(b, i) > 0
}

/// `i` is a place where a character starts, or the end of the text.
pub open spec fn boundary(b: Seq<u8>, i: int) -> bool {
    0 <= i <= b.len() && (i == b.len() || !is_continuation_byte(b[i]))
}

/// The position reached from `i` by skipping whitespace characters that end
/// no later than `end`.
pub open spec fn skip_ws(b: Seq<u8>, i: int, end: int) -> int
    decreases end - i,
{
    if i < end && is_ws(b, i) && i + ws_width(b, i) <= end {
        skip_ws(b, i + ws_width(b, i), end)
    } else {
        i
    }
}

/// The position of the first whitespace character at or after `i` and before
/// `end`, or `end` when there is none.
pub open spec fn find_ws(b: Seq<u8>, i: int, end: int) -> int
    decreases end - i,
{
    if i >= end || (is_ws(b, i) && i + ws_width(b, i) <= end) {
        i
    } else {
        find_ws(b, i + 1, end)
    }
}

/// The end of the last character in `[i, end)` that is not whitespace, or
/// `last` when all of `[i, end)` is whitespace.
pub open spec fn content_end(b: Seq<u8>, i: int, end: int, last: int) -> int
    decreases end - i,
{
    if i >= end {
        last
    } else if is_ws(b, i) && i + ws_width(b, i) <= end {
        content_end(b, i + ws_width(b, i), end, last)
    } else {
        content_end(b, i + 1, end, i + 1)
    }
}

pub proof fn lemma_skip_ws_bounds(b: Seq<u8>, i: int, end: int)
    requires
        i <= end,
    ensures
        i <= skip_ws(b, i, end) <= end,
        skip_ws(b, i, end) < end ==> !(is_ws(b, skip_ws(b, i, end)) && skip_ws(b, i, end)
            + ws_width(b, skip_ws(b, i, end)) <= end),
    decreases end - i,
{
    if i < end && is_ws(b, i) && i + ws_width(b, i) <= end {
        lemma_skip_ws_bounds(b, i + ws_width(b, i), end);
    }
}

pub proof fn lemma_find_ws_bounds(b: Seq<u8>, i: int, end: int)
    requires
        i <= end,
    ensures
        i <= find_ws(b, i, end) <= end,
    decreases end - i,
{
    if !(i >= end || (is_ws(b, i) && i + ws_width(b, i) <= end)) {
        lemma_find_ws_bounds(b, i + 1, end);
    }
}

pub proof fn lemma_content_end_bounds(b: Seq<u8>, i: int, end: int, last: int)
    requires
        i <= end,
        last <= i,
    ensures
        last <= content_end(b, i, end, last) <= end,
    decreases end - i,
{
    if i < end {
        if is_ws(b, i) && i + ws_width(b, i) <= end {
            lemma_content_end_bounds(b, i + ws_width(b, i), end, last);
        } else {
            lemma_content_end_bounds(b, i + 1, end, i + 1);
        }
    }
}

/// The width of the whitespace character at `i`, or 0.
pub fn ws_width_at(b: &[u8], i: usize) -> (r: usize)
    ensures
        r == ws_width(b@, i as int),
        r <= 3,
{
    if i >= b.len() {
        return 0;
    }
    let c = b[i];
    if c == 0x09 || c == 0x0a || c == 0x0b || c == 0x0c || c == 0x0d || c == 0x20 {
        1
    } else if c == 0xc2 && i + 1 < b.len() && (b[i + 1] == 0x85 || b[i + 1] == 0xa0) {
        2
    } else if b.len() - i > 2 {
        let c1 = b[i + 1];
        let c2 = b[i + 2];
        if (c == 0xe1 && c1 == 0x9a && c2 == 0x80) || (c == 0xe2 && c1 == 0x80 && ((0x80 <= c2
            && c2 <= 0x8a) || c2 == 0xa8 || c2 == 0xa9 || c2 == 0xaf)) || (c == 0xe2 && c1 == 0x81
            && c2 == 0x9f) || (c == 0xe3 && c1 == 0x80 && c2 == 0x80) {
            3
        } else {
            0
        }
    } else {
        0
    }
}

/// Skips the whitespace characters from `i` that end no later than `end`.
pub fn skip_whitespace(b: &[u8], i: usize, end: usize) -> (r: usize)
    requires
        i <= end <= b@.len(),
    ensures
        r == skip_ws(b@, i as int, end as int),
        i <= r <= end,
        valid_utf8(b@) && boundary(b@, i as int) ==> boundary(b@, r as int),
{
    let mut j = i;
    proof {
        lemma_skip_ws_bounds(b@, i as int, end as int);
    }
    while j < end
        invariant
            i <= j <= end <= b@.len(),
            skip_ws(b@, j as int, end as int) == skip_ws(b@, i as int, end as int),
            valid_utf8(b@) && boundary(b@, i as int) ==> boundary(b@, j as int),
        decreases end - j,
    {
        let w = ws_width_at(b, j);
        if w == 0 || w > end - j {
            return j;
        }
        proof {
            if valid_utf8(b@) && boundary(b@, i as int) {
                lemma_boundary_step(b@, j as int);
            }
        }
        j = j + w;
    }
    j
}

/// The position of the first whitespace character in `[i, end)`, or `end`.
pub fn find_whitespace(b: &[u8], i: usize, end: usize) -> (r: usize)
    requires
        i <= end <= b@.len(),
    ensures
        r == find_ws(b@, i as int, end as int),
        i <= r <= end,
        r == end || is_ws(b@, r as int),
        boundary(b@, end as int) ==> boundary(b@, r as int),
{
    let mut j = i;
    proof {
        lemma_find_ws_bounds(b@, i as int, end as int);
    }
    while j < end
        invariant
            i <= j <= end <= b@.len(),
            find_ws(b@, j as int, end as int) == find_ws(b@, i as int, end as int),
        decreases end - j,
    {
        let w = ws_width_at(b, j);
        if w > 0 && w <= end - j {
            return j;
        }
        j = j + 1;
    }
    j
}

/// The end of `[i, end)` once trailing whitespace is removed.
pub fn trim_end(b: &[u8], i: usize, end: usize) -> (r: usize)
    requires
        i <= end <= b@.len(),
    ensures
        r == content_end(b@, i as int, end as int, i as int),
        i <= r <= end,
        boundary(b@, i as int) && boundary(b@, end as int) ==> boundary(b@, r as int),
{
    let mut j = i;
    let mut last = i;
    proof {
        lemma_content_end_bounds(b@, i as int, end as int, i as int);
    }
    while j < end
        invariant
            i <= last <= j <= end <= b@.len(),
            last == i || last == j || is_ws(b@, last as int),
            content_end(b@, j as int, end as int, last as int) == content_end(
                b@,
                i as int,
                end as int,
                i as int,
            ),
        decreases end - j,
    {
        let w = ws_width_at(b, j);
        if w > 0 && w <= end - j {
            j = j + w;
        } else {
            j = j + 1;
            last = j;
        }
    }
    last
}

/// Width of the UTF-8 encoding that a leading byte announces.
pub open spec fn lead_width(c: u8) -> int {
    if c < 0x80 {
        1
    } else if 0xc0 <= c <= 0xdf {
        2
    } else if 0xe0 <= c <= 0xef {
        3
    } else {
        4
    }
}

/// In valid UTF-8, the end of a character that starts at a boundary is a
/// boundary too.
pub proof fn lemma_char_boundary_step(b: Seq<u8>, i: int)
    requires
        valid_utf8(b),
        is_char_boundary(b, i),
        0 <= i < b.len(),
    ensures
        i + lead_width(b[i]) <= b.len(),
        is_char_boundary(b, i + lead_width(b[i])),
    decreases b.len(),
{
    let l = length_of_first_scalar(b);
    let pop = pop_first_scalar(b);
    assert(valid_first_scalar(b) && valid_utf8(pop));
    reveal_with_fuel(is_char_boundary, 2);
    if i == 0 {
        assert(is_char_boundary(pop, 0));
    } else {
        assert(i >= l);
        assert(pop[i - l] == b[i]);
        lemma_char_boundary_step(pop, i - l);
    }
}

/// `boundary` agrees with `is_char_boundary` on valid UTF-8.
pub proof fn lemma_boundary_iff(b: Seq<u8>, i: int)
    requires
        valid_utf8(b),
        0 <= i <= b.len(),
    ensures
        boundary(b, i) <==> is_char_boundary(b, i),
{
    if i == b.len() {
        is_char_boundary_start_end_of_seq(b);
    } else {
        is_char_boundary_iff_not_is_continuation_byte(b, i);
    }
}

/// Both ends of valid UTF-8 are boundaries.
pub proof fn lemma_ends(b: Seq<u8>)
    requires
        valid_utf8(b),
    ensures
        boundary(b, 0),
        boundary(b, b.len() as int),
{
    is_char_boundary_start_end_of_seq(b);
    lemma_boundary_iff(b, 0);
}

/// The end of a character that starts at a boundary is a boundary.
pub proof fn lemma_boundary_step(b: Seq<u8>, i: int)
    requires
        valid_utf8(b),
        boundary(b, i),
        0 <= i < b.len(),
    ensures
        i + lead_width(b[i]) <= b.len(),
        boundary(b, i + lead_width(b[i])),
{
    lemma_boundary_iff(b, i);
    lemma_char_boundary_step(b, i);
    lemma_boundary_iff(b, i + lead_width(b[i]));
}

/// The bytes of `b` from `i` on.
pub open spec fn from(b: Seq<u8>, i: int) -> Seq<u8> {
    b.subrange(i, b.len() as int)
}

/// Width of the identifier character (`XID_Continue`) encoded at `i`, or 0.
pub open spec fn xid_width(b: Seq<u8>, i: int) -> int {
    if 0 <= i < b.len() && valid_first_scalar(from(b, i)) && xid_continue(
        decode_first_scalar(from(b, i)),
    ) {
        length_of_first_scalar(from(b, i))
    } else {
        0
    }
}

/// The end of the run of identifier characters from `i` that end no later
/// than `end`.
pub open spec fn xid_end(b: Seq<u8>, i: int, end: int) -> int
    decreases end - i,
{
    if i < end && xid_width(b, i) > 0 && i + xid_width(b, i) <= end {
        xid_end(b, i + xid_width(b, i), end)
    } else {
        i
    }
}

pub proof fn lemma_xid_end_bounds(b: Seq<u8>, i: int, end: int)
    requires
        i <= end,
    ensures
        i <= xid_end(b, i, end) <= end,
    decreases end - i,
{
    if i < end && xid_width(b, i) > 0 && i + xid_width(b, i) <= end {
        lemma_xid_end_bounds(b, i + xid_width(b, i), end);
    }
}

/// Decodes the character at `i`: its scalar value and its width in bytes, or
/// `None` where the bytes there are no well-formed encoding.
pub fn scalar_at(b: &[u8], i: usize) -> (r: Option<(u32, usize)>)
    requires
        i < b@.len(),
    ensures
        r.is_some() == valid_first_scalar(from(b@, i as int)),
        r.is_some() ==> r.unwrap().0 == decode_first_scalar(from(b@, i as int)) && r.unwrap().1
            == length_of_first_scalar(from(b@, i as int)),
{
    let ghost sub = from(b@, i as int);
    let n = b.len() - i;
    let c0 = b[i];
    assert(sub[0] == c0);
    if c0 <= 0x7f {
        return Some(((c0 & 0x7f) as u32, 1));
    }
    if n < 2 {
        return None;
    }
    let c1 = b[i + 1];
    assert(sub[1] == c1);
    if !(0x80 <= c1 && c1 <= 0xbf) {
        return None;
    }
    if 0xc0 <= c0 && c0 <= 0xdf {
        let v = (((c0 & 0x1f) as u32) << 6u32) | ((c1 & 0x3f) as u32);
        assert(((((c0 & 0x1f) as u32) << 6u32) | ((c1 & 0x3f) as u32)) <= 0x7ff) by (bit_vector);
        if v < 0x80 {
            return None;
        }
        return Some((v, 2));
    }
    if n < 3 {
        return None;
    }
    let c2 = b[i + 2];
    assert(sub[2] == c2);
    if !(0x80 <= c2 && c2 <= 0xbf) {
        return None;
    }
    if 0xe0 <= c0 && c0 <= 0xef {
        let v = (((c0 & 0x0f) as u32) << 12u32) | (((c1 & 0x3f) as u32) << 6u32) | ((c2 & 0x3f) as u32);
        if v < 0x800 || (0xd800 <= v && v <= 0xdfff) {
            return None;
        }
        return Some((v, 3));
    }
    if n < 4 || !(0xf0 <= c0 && c0 <= 0xf7) {
        return None;
    }
    let c3 = b[i + 3];
    assert(sub[3] == c3);
    if !(0x80 <= c3 && c3 <= 0xbf) {
        return None;
    }
    let v = (((c0 & 0x07) as u32) << 18u32) | (((c1 & 0x3f) as u32) << 12u32) | (((c2 & 0x3f) as u32) << 6u32) | ((c3 & 0x3f) as u32);
    if v < 0x10000 || v > 0x10ffff || (0xd800 <= v && v <= 0xdfff) {
        return None;
    }
    Some((v, 4))
}

/// The width of the identifier character at `i`, or 0.
pub fn xid_width_at(b: &[u8], i: usize) -> (r: usize)
    requires
        i < b@.len(),
    ensures
        r == xid_width(b@, i as int),
        r <= 4,
{
    match scalar_at(b, i) {
        Some((v, w)) => {
            if scalar_is_xid_continue(v) {
                w
            } else {
                0
            }
        },
        None => 0,
    }
}

/// The end of the run of identifier characters in `[i, end)` that starts at `i`.
pub fn skip_xid(b: &[u8], i: usize, end: usize) -> (r: usize)
    requires
        i <= end <= b@.len(),
    ensures
        r == xid_end(b@, i as int, end as int),
        i <= r <= end,
        valid_utf8(b@) && boundary(b@, i as int) ==> boundary(b@, r as int),
{
    let mut j = i;
    proof {
        lemma_xid_end_bounds(b@, i as int, end as int);
    }
    while j < end
        invariant
            i <= j <= end <= b@.len(),
            xid_end(b@, j as int, end as int) == xid_end(b@, i as int, end as int),
            valid_utf8(b@) && boundary(b@, i as int) ==> boundary(b@, j as int),
        decreases end - j,
    {
        let w = xid_width_at(b, j);
        if w == 0 || w > end - j {
            return j;
        }
        proof {
            if valid_utf8(b@) && boundary(b@, i as int) {
                assert(from(b@, j as int)[0] == b@[j as int]);
                lemma_boundary_step(b@, j as int);
            }
        }
        j = j + w;
    }
    j
}

/// Whether the Unicode scalar `v` has the `XID_Continue` property.
pub uninterp spec fn xid_continue(v: u32) -> bool;

/// Relies on `unicode_xid::UnicodeXID::is_xid_continue`: whether a character
/// may continue an identifier; among ASCII characters, exactly the letters,
/// digits and `_` may. A value that is no Unicode scalar is refused.
#[verifier::external_body]
fn scalar_is_xid_continue(v: u32) -> (r: bool)
    ensures
        r == xid_continue(v),
        v < 0x80 ==> (r <==> ((0x61 <= v <= 0x7a) || (0x41 <= v <= 0x5a) || (0x30 <= v <= 0x39)
            || v == 0x5f)),
{
    match char::from_u32(v) {
        Some(c) => c.is_xid_continue(),
        None => false,
    }
}

} // verus!
