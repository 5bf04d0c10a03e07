//! The replies that the server puts on the wire.
//!
//! A reply is a literal byte string. None is built from headers: the two
//! status lines are fixed texts, and a served file follows its status line
//! byte for byte.

use crate::bytes::{ascii, ascii_bytes, append};
use vstd::prelude::*;
use vstd::slice::*;

verus! {

/// The status line of a served file, with the empty line that ends the
/// header.
pub open spec fn spec_ok_head() -> Seq<u8> {
    ascii("HTTP/1.1 200 OK\r\n\r\n"@)
}

/// The reply that serves a file: the status line, then the file as it is.
pub open spec fn spec_ok(body: Seq<u8>) -> Seq<u8> {
    spec_ok_head() + body
}

/// The reply to a request whose method is missing or is not `GET`.
pub open spec fn spec_method_not_allowed() -> Seq<u8> {
    ascii(
        "HTTP/1.1 405 Method Not Allowed\r\n\r\nUnknown request method. Allowed methods: \"GET\".\r\n"@,
    )
}

/// The reply to a request that names a protocol other than HTTP/1.1. It has
/// no status line.
pub open spec fn spec_unknown_protocol() -> Seq<u8> {
    ascii("Unknown protocol."@)
}

/// Builds the reply that serves `body`.
pub fn ok(body: &[u8]) -> (reply: Vec<u8>)
    ensures
        reply@ == spec_ok(body@),
{
    proof {
        reveal_strlit("HTTP/1.1 200 OK\r\n\r\n");
    }
    append(ascii_bytes("HTTP/1.1 200 OK\r\n\r\n"), body)
}

/// Builds the reply to a request whose method is missing or is not `GET`.
pub fn method_not_allowed() -> (reply: Vec<u8>)
    ensures
        reply@ == spec_method_not_allowed(),
{
    proof {
        reveal_strlit(
            "HTTP/1.1 405 Method Not Allowed\r\n\r\nUnknown request method. Allowed methods: \"GET\".\r\n",
        );
    }
    slice_to_vec(
        ascii_bytes(
            "HTTP/1.1 405 Method Not Allowed\r\n\r\nUnknown request method. Allowed methods: \"GET\".\r\n",
        ),
    )
}

/// Builds the reply to a request that names an unknown protocol.
pub fn unknown_protocol() -> (reply: Vec<u8>)
    ensures
        reply@ == spec_unknown_protocol(),
{
    proof {
        reveal_strlit("Unknown protocol.");
    }
    slice_to_vec(ascii_bytes("Unknown protocol."))
}

} // verus!
