//! Template names relative to the template that refers to them (`./x`,
//! `../x`).
use std::path::Path;
use sugar_path::SugarPath;
use vstd::prelude::*;
use vstd::string::StringSliceAdditionalSpecFns;
use vstd::utf8::encode_utf8;
use crate::common::span_is;
use crate::types::At;

verus! {

/// Why a relative template name cannot be resolved.
#[derive(Debug, PartialEq, Eq)]
pub enum RelativePathError {
    /// The name climbs out of the directory tree of the referring template.
    Outside { at: At, origin: String, template_path: String },
    /// The referring template has no known name.
    UnknownOrigin { path: String, at: At },
}

/// The path that `sugar_path` normalizes `p` to.
pub uninterp spec fn normalized(p: Seq<char>) -> Seq<char>;

/// The directory that contains `p`, as `Path::parent` gives it.
pub uninterp spec fn parent_of(p: Seq<char>) -> Option<Seq<char>>;

/// `p` appended to the directory `dir`, as `Path::join` gives it.
pub uninterp spec fn joined_path(dir: Seq<char>, p: Seq<char>) -> Seq<char>;

/// Relies on `sugar_path::SugarPath::normalize`: the path with `.` and `..`
/// components resolved; its result depends on the path alone.
#[verifier::external_body]
fn normalize(p: &str) -> (r: String)
    ensures
        r@ == normalized(p@),
{
    Path::new(p).normalize().to_string_lossy().into_owned()
}

/// Relies on `std::path::Path::parent`: the directory part of a path, if it
/// has one.
#[verifier::external_body]
fn parent(p: &str) -> (r: Option<String>)
    ensures
        match r {
            Some(d) => parent_of(p@) == Some(d@),
            None => parent_of(p@) is None,
        },
{
    match Path::new(p).parent() {
        Some(d) => Some(d.to_string_lossy().into_owned()),
        None => None,
    }
}

/// Relies on `std::path::Path::join`: a path appended to a directory.
#[verifier::external_body]
fn join(dir: &str, p: &str) -> (r: String)
    ensures
        r@ == joined_path(dir@, p@),
{
    Path::new(dir).join(p).to_string_lossy().into_owned()
}

/// `b` starts with `p`.
pub open spec fn has_prefix(b: Seq<u8>, p: Seq<u8>) -> bool {
    p.len() <= b.len() && b.subrange(0, p.len() as int) == p
}

/// A normalized path that climbs above where it starts: it is `..` or starts
/// with `../`.
pub open spec fn climbs(b: Seq<u8>) -> bool {
    b == "..".spec_bytes() || has_prefix(b, "../".spec_bytes())
}

/// Why a relative name cannot be resolved.
pub enum RelativeFault {
    Outside,
    UnknownOrigin,
}

/// What resolving the name `p` against the name `origin` of the referring
/// template gives: `None` for a name that is not relative.
pub open spec fn relative_result(p: Seq<char>, origin: Option<Seq<char>>) -> Result<Option<Seq<char>>, RelativeFault> {
    let pb = encode_utf8(p);
    let adjacent = has_prefix(pb, "./".spec_bytes());
    if !adjacent && !has_prefix(pb, "../".spec_bytes()) {
        Ok(None)
    } else {
        match origin {
            None => Err(RelativeFault::UnknownOrigin),
            Some(o) => match parent_of(o) {
                None => if adjacent {
                    Ok(Some(normalized(p)))
                } else {
                    Err(RelativeFault::Outside)
                },
                Some(d) => {
                    let np = normalized(joined_path(d, p));
                    if climbs(encode_utf8(np)) {
                        Err(RelativeFault::Outside)
                    } else {
                        Ok(Some(np))
                    }
                },
            },
        }
    }
}

/// The view of an optional name.
pub open spec fn origin_of(origin: Option<&str>) -> Option<Seq<char>> {
    match origin {
        Some(o) => Some(o@),
        None => None,
    }
}

fn starts_with(b: &[u8], p: &[u8]) -> (r: bool)
    ensures
        r == has_prefix(b@, p@),
{
    if p.len() > b.len() {
        return false;
    }
    span_is(b, (0, p.len()), p)
}

/// Resolves a template name relative to the name `origin` of the template
/// that refers to it. A name that starts with neither `./` nor `../` is not
/// relative: `None`.
pub fn construct_relative_path(path: &str, origin: Option<&str>, at: At) -> (r: Result<
    Option<String>,
    RelativePathError,
>)
    ensures
        match relative_result(path@, origin_of(origin)) {
            Ok(None) => r == Ok::<Option<String>, RelativePathError>(None),
            Ok(Some(np)) => r matches Ok(Some(s)) && s@ == np,
            Err(RelativeFault::Outside) => r matches Err(RelativePathError::Outside { .. }),
            Err(RelativeFault::UnknownOrigin) => r matches Err(RelativePathError::UnknownOrigin { .. }),
        },
        ({
            let pb = path.spec_bytes();
            let adjacent = has_prefix(pb, "./".spec_bytes());
            if !adjacent && !has_prefix(pb, "../".spec_bytes()) {
                r == Ok::<Option<String>, RelativePathError>(None)
            } else {
                match origin {
                    None => r matches Err(RelativePathError::UnknownOrigin { path: p, at: a }) && p@
                        == path@ && a == at,
                    Some(o) => {
                        let outside = r matches Err(
                            RelativePathError::Outside { at: a, origin: og, template_path: tp },
                        ) && a == at && og@ == o@ && tp@ == path@;
                        match parent_of(o@) {
                            None => if adjacent {
                                r matches Ok(Some(s)) && s@ == normalized(path@)
                            } else {
                                outside
                            },
                            Some(d) => {
                                let np = normalized(joined_path(d, path@));
                                if climbs(encode_utf8(np)) {
                                    outside
                                } else {
                                    r matches Ok(Some(s)) && s@ == np
                                }
                            },
                        }
                    },
                }
            }
        }),
{
    let pb = path.as_bytes();
    let adjacent = starts_with(pb, "./".as_bytes());
    if !adjacent && !starts_with(pb, "../".as_bytes()) {
        return Ok(None);
    }
    match origin {
        None => Err(RelativePathError::UnknownOrigin { path: path.to_owned(), at }),
        Some(o) => match parent(o) {
            None => {
                if adjacent {
                    Ok(Some(normalize(path)))
                } else {
                    Err(
                        RelativePathError::Outside {
                            at,
                            origin: o.to_owned(),
                            template_path: path.to_owned(),
                        },
                    )
                }
            },
            Some(directory) => {
                let new_path = normalize(join(directory.as_str(), path).as_str());
                let nb = new_path.as_str().as_bytes();
                if span_is_whole(nb, "..".as_bytes()) || starts_with(nb, "../".as_bytes()) {
                    Err(
                        RelativePathError::Outside {
                            at,
                            origin: o.to_owned(),
                            template_path: path.to_owned(),
                        },
                    )
                } else {
                    Ok(Some(new_path))
                }
            },
        },
    }
}

fn span_is_whole(b: &[u8], w: &[u8]) -> (r: bool)
    ensures
        r == (b@ == w@),
{
    if b.len() != w.len() {
        return false;
    }
    let r = span_is(b, (0, b.len()), w);
    proof {
        assert(b@.subrange(0, b@.len() as int) =~= b@);
    }
    r
}

} // verus!
