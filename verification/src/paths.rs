//! Paths as text, joined the way `Path::join` joins them on Unix.
use vstd::prelude::*;
use crate::text::chars_of;
use crate::text::concat2;
use crate::text::push_str;
use crate::text::to_owned_string;

verus! {

/// A path is absolute when it starts at the root.
pub open spec fn is_absolute(p: Seq<char>) -> bool {
    p.len() > 0 && p[0] == '/'
}

/// `base` joined with `part`: an absolute `part` replaces `base`; otherwise a
/// separator goes between them unless `base` is empty or ends with one.
pub open spec fn joined(base: Seq<char>, part: Seq<char>) -> Seq<char> {
    if is_absolute(part) {
        part
    } else if base.len() == 0 || base.last() == '/' {
        base + part
    } else {
        base + "/"@ + part
    }
}

/// Whether a path is absolute.
pub fn path_is_absolute(p: &str) -> (r: bool)
    ensures
        r == is_absolute(p@),
{
    let v = chars_of(p);
    v.len() > 0 && v[0] == '/'
}

/// Joins a path to a base (see `joined`).
pub fn path_join(base: &str, part: &str) -> (r: String)
    ensures
        r@ == joined(base@, part@),
{
    if path_is_absolute(part) {
        return to_owned_string(part);
    }
    let b = chars_of(base);
    if b.len() == 0 || b[b.len() - 1] == '/' {
        concat2(base, part)
    } else {
        let mut s = concat2(base, "/");
        push_str(&mut s, part);
        s
    }
}

} // verus!
