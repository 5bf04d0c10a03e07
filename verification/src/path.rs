//! Paths under the static root.
//!
//! A path is a byte string whose components are separated by `/`. The server
//! never decides by itself where a requested path leads: the disk resolves
//! it, links and `..` included, and the rules here are applied to what the
//! disk answered.

use crate::bytes::{
    ascii, ascii_bytes, fields_from, lemma_past, lemma_until, next_field, same_bytes,
};
use crate::http_request::slice_view;
use vstd::prelude::*;
use vstd::slice::*;

verus! {

/// The byte that separates the components of a path.
pub const SEPARATOR: u8 = 0x2f;

/// The directory that the server serves files from unless it is told
/// otherwise.
pub open spec fn spec_static_root() -> Seq<u8> {
    ascii("./static"@)
}

/// Whether `path` starts at the root of the file system.
pub open spec fn is_absolute(path: Seq<u8>) -> bool {
    path.len() > 0 && path[0] == SEPARATOR
}

/// The components of `path`: its runs of bytes between separators.
pub open spec fn components(path: Seq<u8>) -> Seq<Seq<u8>> {
    fields_from(path, SEPARATOR, 0)
}

/// `rel` as seen from `base`. An absolute `rel` stands for itself. Any other
/// is appended to `base`, after a separator unless `base` is empty or ends
/// with one.
pub open spec fn spec_join(base: Seq<u8>, rel: Seq<u8>) -> Seq<u8> {
    if is_absolute(rel) {
        rel
    } else if base.len() == 0 || base.last() == SEPARATOR {
        base + rel
    } else {
        base + seq![SEPARATOR] + rel
    }
}

/// Whether `path` lies in the directory `root` or is `root` itself: both are
/// absolute or neither is, and the components of `root` are the first
/// components of `path`. Components count whole: `/srv/static2` is not within
/// `/srv/static`.
pub open spec fn spec_within_root(root: Seq<u8>, path: Seq<u8>) -> bool {
    is_absolute(root) == is_absolute(path) && components(root).is_prefix_of(components(path))
}

/// Whether the server may serve what the disk resolved a requested path to:
/// the path was resolved at all, and to a place within the root.
pub open spec fn spec_serves(canonical_root: Seq<u8>, resolved: Option<Seq<u8>>) -> bool {
    match resolved {
        Some(path) => spec_within_root(canonical_root, path),
        None => false,
    }
}

/// A sequence that starts with `x` is the start of one that starts with `y`
/// exactly if `x` is `y` and the same holds of what follows them.
proof fn lemma_prefix_step(x: Seq<u8>, xs: Seq<Seq<u8>>, y: Seq<u8>, ys: Seq<Seq<u8>>)
    ensures
        (seq![x] + xs).is_prefix_of(seq![y] + ys) <==> (x == y && xs.is_prefix_of(ys)),
{
    let a = seq![x] + xs;
    let b = seq![y] + ys;
    if a.is_prefix_of(b) {
        assert(a[0] == b.subrange(0, a.len() as int)[0]);
        assert forall|i: int| 0 <= i < xs.len() implies xs[i] == ys.subrange(
            0,
            xs.len() as int,
        )[i] by {
            assert(a[i + 1] == b.subrange(0, a.len() as int)[i + 1]);
        }
        assert(xs =~= ys.subrange(0, xs.len() as int));
    }
    if x == y && xs.is_prefix_of(ys) {
        assert forall|i: int| 0 <= i < a.len() implies a[i] == b.subrange(0, a.len() as int)[i] by {
            if i > 0 {
                assert(xs[i - 1] == ys.subrange(0, xs.len() as int)[i - 1]);
            }
        }
        assert(a =~= b.subrange(0, a.len() as int));
    }
}

/// Every path is within itself.
pub proof fn lemma_root_within_itself(root: Seq<u8>)
    ensures
        spec_within_root(root, root),
{
    let all = components(root);
    assert(all =~= all.subrange(0, all.len() as int));
}

/// The directory that the server serves files from unless it is told
/// otherwise.
pub fn static_root() -> (root: Vec<u8>)
    ensures
        root@ == spec_static_root(),
{
    proof {
        reveal_strlit("./static");
    }
    slice_to_vec(ascii_bytes("./static"))
}

/// Looks at `rel` from `base`.
pub fn join(base: &[u8], rel: &[u8]) -> (joined: Vec<u8>)
    ensures
        joined@ == spec_join(base@, rel@),
{
    if rel.len() > 0 && rel[0] == SEPARATOR {
        slice_to_vec(rel)
    } else {
        let mut joined = slice_to_vec(base);
        if base.len() > 0 && base[base.len() - 1] != SEPARATOR {
            joined.push(SEPARATOR);
        }
        joined.extend_from_slice(rel);
        joined
    }
}

/// Decides whether `path` lies within `root`. Both are meant to be resolved
/// paths, as the disk hands them out.
pub fn within_root(root: &[u8], path: &[u8]) -> (within: bool)
    ensures
        within == spec_within_root(root@, path@),
{
    let root_absolute = root.len() > 0 && root[0] == SEPARATOR;
    let path_absolute = path.len() > 0 && path[0] == SEPARATOR;
    if root_absolute != path_absolute {
        return false;
    }
    let mut i: usize = 0;
    let mut j: usize = 0;
    loop
        invariant
            i <= root@.len(),
            j <= path@.len(),
            components(root@).is_prefix_of(components(path@)) == fields_from(
                root@,
                SEPARATOR,
                i as int,
            ).is_prefix_of(fields_from(path@, SEPARATOR, j as int)),
            is_absolute(root@) == is_absolute(path@),
        decreases root@.len() - i,
    {
        let (a, b) = next_field(root, SEPARATOR, i);
        let (c, d) = next_field(path, SEPARATOR, j);
        proof {
            lemma_past(root@, SEPARATOR, i as int);
            lemma_until(root@, SEPARATOR, a as int);
            lemma_past(path@, SEPARATOR, j as int);
            lemma_until(path@, SEPARATOR, c as int);
            if a < root@.len() && c < path@.len() {
                lemma_prefix_step(
                    root@.subrange(a as int, b as int),
                    fields_from(root@, SEPARATOR, b as int),
                    path@.subrange(c as int, d as int),
                    fields_from(path@, SEPARATOR, d as int),
                );
            }
        }
        if a >= root.len() {
            return true;
        }
        if c >= path.len() {
            return false;
        }
        if !same_bytes(slice_subrange(root, a, b), slice_subrange(path, c, d)) {
            return false;
        }
        i = b;
        j = d;
    }
}

/// Decides whether the server may serve what the disk resolved a requested
/// path to.
pub fn serves(canonical_root: &[u8], resolved: Option<&[u8]>) -> (served: bool)
    ensures
        served == spec_serves(canonical_root@, slice_view(resolved)),
{
    match resolved {
        Some(path) => within_root(canonical_root, path),
        None => false,
    }
}

} // verus!
