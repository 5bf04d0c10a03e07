//! The `GET` handler: which file a request asks for, and the reply that
//! serves one.

use crate::bytes::{ascii, ascii_bytes, copy_of};
use crate::http_request::HttpRequest;
use crate::path::{join, spec_join};
use crate::response::{ok, spec_ok};
use vstd::prelude::*;

verus! {

/// The requested path without the separator that opens it: what is left of
/// the path token after its first byte.
pub open spec fn spec_sub_path(path: Seq<u8>) -> Seq<u8> {
    if path.len() > 0 {
        path.skip(1)
    } else {
        path
    }
}

/// The file that is served for the root of the site: `index.html`, directly
/// under the static root.
pub open spec fn spec_index_file(root: Seq<u8>) -> Seq<u8> {
    spec_join(root, ascii("index.html"@))
}

/// What a `GET` request makes the server look up.
#[derive(Debug, PartialEq, Eq)]
pub enum Lookup {
    /// The request names no path: there is nothing to look up and nothing to
    /// send.
    Nothing,
    /// The request asks for the root of the site. The file to read is given;
    /// a deployment without it is broken, and the worker that finds it
    /// missing ends there.
    Index(Vec<u8>),
    /// The request asks for the given path below the static root. Where it
    /// leads is for the disk to say.
    Below(Vec<u8>),
}

/// What a `Lookup` is, as far as any contract is concerned.
pub enum LookupView {
    Nothing,
    Index(Seq<u8>),
    Below(Seq<u8>),
}

impl View for Lookup {
    type V = LookupView;

    open spec fn view(&self) -> LookupView {
        match self {
            Lookup::Nothing => LookupView::Nothing,
            Lookup::Index(file) => LookupView::Index(file@),
            Lookup::Below(sub_path) => LookupView::Below(sub_path@),
        }
    }
}

/// What a `GET` for `path` looks up when the static root is `root`.
pub open spec fn spec_get(path: Option<Seq<u8>>, root: Seq<u8>) -> LookupView {
    match path {
        None => LookupView::Nothing,
        Some(path) => if spec_sub_path(path).len() == 0 {
            LookupView::Index(spec_index_file(root))
        } else {
            LookupView::Below(spec_sub_path(path))
        },
    }
}

/// Decides what a `GET` request looks up.
pub fn get(request: &HttpRequest, root: &[u8]) -> (lookup: Lookup)
    ensures
        lookup@ == spec_get(request@.path(), root@),
{
    match request.path() {
        None => Lookup::Nothing,
        Some(path) => {
            if path.len() <= 1 {
                proof {
                    reveal_strlit("index.html");
                }
                Lookup::Index(join(root, ascii_bytes("index.html")))
            } else {
                Lookup::Below(copy_of(path, 1, path.len()))
            }
        },
    }
}

/// Builds the reply that serves the root of the site, from the bytes of its
/// index file.
pub fn main_page(index: &[u8]) -> (reply: Vec<u8>)
    ensures
        reply@ == spec_ok(index@),
{
    ok(index)
}

} // verus!
