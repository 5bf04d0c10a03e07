//! The request as the server reads it: the bytes that arrived, and the three
//! tokens of the request line.
//!
//! A request line has the shape `METHOD SP PATH SP PROTOCOL`. Nothing after
//! it is ever looked at. The line is read in a first pass over the
//! connection, which ends when a line feed has arrived or when the peer stays
//! silent for [`READ_TIMEOUT_MILLIS`]. At that moment the request is sealed:
//! its tokens are taken from the bytes read so far and never change again,
//! whatever arrives later.

use crate::bytes::{
    ascii, ascii_bytes, copy_of, field, fields_from, lemma_fields_are_runs, lemma_past,
    lemma_until, next_field, past, until,
};
use vstd::prelude::*;
use vstd::slice::*;

verus! {

/// How long a read on a connection waits for bytes, in milliseconds.
pub const READ_TIMEOUT_MILLIS: u64 = 100;

/// The line feed that ends a request line.
pub const LF: u8 = 0x0a;

/// The carriage return that may stand before that line feed.
pub const CR: u8 = 0x0d;

/// The blank that separates the tokens of a request line.
pub const SP: u8 = 0x20;

/// Whether the bytes read so far hold the end of the request line.
pub open spec fn spec_line_complete(head: Seq<u8>) -> bool {
    head.contains(LF)
}

/// The request line within the bytes read so far: everything before the
/// first line feed, less a carriage return right before it. Where no line
/// feed has arrived, all the bytes count as the line.
pub open spec fn spec_line(head: Seq<u8>) -> Seq<u8> {
    let end = until(head, LF, 0);
    if end > 0 && head[end - 1] == CR {
        head.subrange(0, end - 1)
    } else {
        head.subrange(0, end)
    }
}

/// The method: the first token of the request line, where there is one.
pub open spec fn spec_method(head: Seq<u8>) -> Option<Seq<u8>> {
    field(spec_line(head), SP, 0)
}

/// The path: the second token of the request line, where there is one.
pub open spec fn spec_path(head: Seq<u8>) -> Option<Seq<u8>> {
    field(spec_line(head), SP, 1)
}

/// The text that stands for the protocol of a request line that ended before
/// it named one.
pub open spec fn spec_undefined() -> Seq<u8> {
    ascii("undefined"@)
}

/// The protocol: the third token of the request line. A line that ended
/// without one has the protocol `undefined`; where the line never ended
/// either, no protocol is known.
pub open spec fn spec_protocol(head: Seq<u8>) -> Option<Seq<u8>> {
    match field(spec_line(head), SP, 2) {
        Some(protocol) => Some(protocol),
        None => if spec_line_complete(head) {
            Some(spec_undefined())
        } else {
            None
        },
    }
}

/// What a request is, as far as any contract is concerned.
pub struct RequestView {
    /// The bytes of the first pass, from which the tokens are taken.
    pub head: Seq<u8>,
    /// The bytes that arrived after the request was sealed.
    pub rest: Seq<u8>,
    /// Whether the first pass is over.
    pub sealed: bool,
}

impl RequestView {
    /// The request that has read nothing yet.
    pub open spec fn empty() -> RequestView {
        RequestView { head: Seq::empty(), rest: Seq::empty(), sealed: false }
    }

    /// The method, once the request is sealed.
    pub open spec fn method(self) -> Option<Seq<u8>> {
        if self.sealed {
            spec_method(self.head)
        } else {
            None
        }
    }

    /// The path, once the request is sealed.
    pub open spec fn path(self) -> Option<Seq<u8>> {
        if self.sealed {
            spec_path(self.head)
        } else {
            None
        }
    }

    /// The protocol, once the request is sealed.
    pub open spec fn protocol(self) -> Option<Seq<u8>> {
        if self.sealed {
            spec_protocol(self.head)
        } else {
            None
        }
    }

    /// The request after `chunk` has arrived. Before the seal the bytes join
    /// the head, and a line feed among the bytes read so far seals the
    /// request; after it they are set aside.
    pub open spec fn read(self, chunk: Seq<u8>) -> RequestView {
        if self.sealed {
            RequestView { rest: self.rest + chunk, ..self }
        } else {
            RequestView {
                head: self.head + chunk,
                sealed: spec_line_complete(self.head + chunk),
                ..self
            }
        }
    }

    /// The request after the first pass has ended.
    pub open spec fn seal(self) -> RequestView {
        RequestView { sealed: true, ..self }
    }
}

/// The view of a token that may be missing.
pub open spec fn token_view(token: Option<Vec<u8>>) -> Option<Seq<u8>> {
    match token {
        Some(bytes) => Some(bytes@),
        None => None,
    }
}

/// The view of a borrowed token that may be missing.
pub open spec fn slice_view(token: Option<&[u8]>) -> Option<Seq<u8>> {
    match token {
        Some(bytes) => Some(bytes@),
        None => None,
    }
}

/// One request on one connection.
pub struct HttpRequest {
    head: Vec<u8>,
    rest: Vec<u8>,
    sealed: bool,
    method: Option<Vec<u8>>,
    path: Option<Vec<u8>>,
    protocol: Option<Vec<u8>>,
}

impl View for HttpRequest {
    type V = RequestView;

    closed spec fn view(&self) -> RequestView {
        RequestView { head: self.head@, rest: self.rest@, sealed: self.sealed }
    }
}

impl HttpRequest {
    #[verifier::type_invariant]
    spec fn tokens_follow_head(&self) -> bool {
        &&& token_view(self.method) == self@.method()
        &&& token_view(self.path) == self@.path()
        &&& token_view(self.protocol) == self@.protocol()
    }

    /// A request that has read nothing yet.
    pub fn new() -> (request: HttpRequest)
        ensures
            request@ == RequestView::empty(),
    {
        HttpRequest {
            head: Vec::new(),
            rest: Vec::new(),
            sealed: false,
            method: None,
            path: None,
            protocol: None,
        }
    }

    /// Takes in bytes that arrived on the connection.
    pub fn read(self, chunk: &[u8]) -> (request: HttpRequest)
        ensures
            request@ == self@.read(chunk@),
    {
        proof {
            use_type_invariant(&self);
        }
        let HttpRequest { head, rest, sealed, method, path, protocol } = self;
        if sealed {
            let mut rest = rest;
            rest.extend_from_slice(chunk);
            assert(rest@ == self@.rest + chunk@);
            HttpRequest { head, rest, sealed, method, path, protocol }
        } else {
            let mut head = head;
            head.extend_from_slice(chunk);
            assert(head@ == self@.head + chunk@);
            if line_complete(head.as_slice()) {
                let (method, path, protocol) = tokens(head.as_slice());
                HttpRequest { head, rest, sealed: true, method, path, protocol }
            } else {
                HttpRequest { head, rest, sealed, method, path, protocol }
            }
        }
    }

    /// Ends the first pass: the tokens are taken from what has been read.
    /// On a sealed request this changes nothing.
    pub fn seal(self) -> (request: HttpRequest)
        ensures
            request@ == self@.seal(),
    {
        proof {
            use_type_invariant(&self);
        }
        if self.sealed {
            self
        } else {
            let (method, path, protocol) = tokens(self.head.as_slice());
            HttpRequest { head: self.head, rest: self.rest, sealed: true, method, path, protocol }
        }
    }

    /// Takes in bytes that were drained from the connection after the reply.
    /// They are kept beside the request and change none of its tokens.
    pub fn read_all(self, drained: &[u8]) -> (request: HttpRequest)
        ensures
            request@ == self@.seal().read(drained@),
    {
        self.seal().read(drained)
    }

    /// Whether the first pass is over.
    pub fn sealed(&self) -> (sealed: bool)
        ensures
            sealed == self@.sealed,
    {
        self.sealed
    }

    /// The protocol that the request names.
    pub fn protocol(&self) -> (protocol: Option<&[u8]>)
        ensures
            slice_view(protocol) == self@.protocol(),
    {
        proof {
            use_type_invariant(self);
        }
        match &self.protocol {
            Some(bytes) => Some(bytes.as_slice()),
            None => None,
        }
    }

    /// The method that the request names.
    pub fn method(&self) -> (method: Option<&[u8]>)
        ensures
            slice_view(method) == self@.method(),
    {
        proof {
            use_type_invariant(self);
        }
        match &self.method {
            Some(bytes) => Some(bytes.as_slice()),
            None => None,
        }
    }

    /// The path that the request names.
    pub fn path(&self) -> (path: Option<&[u8]>)
        ensures
            slice_view(path) == self@.path(),
    {
        proof {
            use_type_invariant(self);
        }
        match &self.path {
            Some(bytes) => Some(bytes.as_slice()),
            None => None,
        }
    }

    /// The bytes of the first pass.
    pub fn head(&self) -> (head: &[u8])
        ensures
            head@ == self@.head,
    {
        self.head.as_slice()
    }

    /// The bytes that arrived after the seal.
    pub fn rest(&self) -> (rest: &[u8])
        ensures
            rest@ == self@.rest,
    {
        self.rest.as_slice()
    }
}

/// Whether the bytes read so far hold the end of the request line.
pub fn line_complete(head: &[u8]) -> (complete: bool)
    ensures
        complete == spec_line_complete(head@),
{
    let mut i: usize = 0;
    while i < head.len()
        invariant
            i <= head@.len(),
            forall|k: int| 0 <= k < i ==> head@[k] != LF,
        decreases head@.len() - i,
    {
        if head[i] == LF {
            return true;
        }
        i += 1;
    }
    false
}

/// The first line feed, as `until` finds it, is where `contains` sees one.
pub proof fn lemma_line_end(head: Seq<u8>)
    ensures
        0 <= until(head, LF, 0) <= head.len(),
        spec_line_complete(head) <==> until(head, LF, 0) < head.len(),
{
    lemma_until(head, LF, 0);
    let end = until(head, LF, 0);
    if end < head.len() {
        assert(head[end] == LF);
    }
}

/// What follows the first line feed has no part in the request line.
pub proof fn lemma_line_ignores_what_follows(head: Seq<u8>, more: Seq<u8>)
    requires
        spec_line_complete(head),
    ensures
        spec_line_complete(head + more),
        spec_line(head + more) == spec_line(head),
        spec_method(head + more) == spec_method(head),
        spec_path(head + more) == spec_path(head),
        spec_protocol(head + more) == spec_protocol(head),
{
    lemma_line_end(head);
    lemma_until(head, LF, 0);
    lemma_until_ignores_what_follows(head, more, 0);
    let end = until(head, LF, 0);
    assert((head + more)[end] == head[end]);
    assert((head + more).contains(LF));
    if end > 0 {
        assert((head + more)[end - 1] == head[end - 1]);
    }
    assert((head + more).subrange(0, end) =~= head.subrange(0, end));
    if end > 0 {
        assert((head + more).subrange(0, end - 1) =~= head.subrange(0, end - 1));
    }
}

/// A line feed that `until` finds in `head` is the one that it finds in
/// anything that starts with `head`.
proof fn lemma_until_ignores_what_follows(head: Seq<u8>, more: Seq<u8>, from: int)
    requires
        0 <= from <= head.len(),
        until(head, LF, from) < head.len(),
    ensures
        until(head + more, LF, from) == until(head, LF, from),
    decreases head.len() - from,
{
    if from < head.len() {
        assert((head + more)[from] == head[from]);
        if head[from] != LF {
            lemma_until_ignores_what_follows(head, more, from + 1);
        }
    }
}

/// Every token is a word: it is not empty, and it holds no blank.
pub proof fn lemma_tokens_are_words(head: Seq<u8>)
    ensures
        spec_method(head) matches Some(token) ==> token.len() > 0 && !token.contains(SP),
        spec_path(head) matches Some(token) ==> token.len() > 0 && !token.contains(SP),
        spec_protocol(head) matches Some(token) ==> token.len() > 0 && !token.contains(SP),
{
    let line = spec_line(head);
    let all = fields_from(line, SP, 0);
    lemma_fields_are_runs(line, SP, 0);
    if all.len() > 0 {
        assert(all[0].len() > 0);
    }
    if all.len() > 1 {
        assert(all[1].len() > 0);
    }
    if all.len() > 2 {
        assert(all[2].len() > 0);
    } else {
        reveal_strlit("undefined");
        let sentinel = spec_undefined();
        assert(sentinel.len() == 9);
        assert forall|k: int| 0 <= k < sentinel.len() implies sentinel[k] != SP by {
            assert(sentinel[k] == "undefined"@[k] as u8);
        }
    }
}

/// Bytes that arrive in two reads make the same request as the same bytes in
/// one read, where the first of the two did not end the line.
pub proof fn lemma_read_in_pieces(request: RequestView, first: Seq<u8>, second: Seq<u8>)
    requires
        !request.sealed,
        !spec_line_complete(request.head + first),
    ensures
        request.read(first).read(second) == request.read(first + second),
{
    assert((request.head + first) + second =~= request.head + (first + second));
}

/// Unfolds `fields_from` once.
proof fn lemma_fields_step(s: Seq<u8>, sep: u8, from: int)
    requires
        0 <= from <= s.len(),
    ensures
        from <= past(s, sep, from) <= until(s, sep, past(s, sep, from)) <= s.len(),
        past(s, sep, from) < s.len() ==> fields_from(s, sep, from) == seq![
            s.subrange(past(s, sep, from), until(s, sep, past(s, sep, from))),
        ] + fields_from(s, sep, until(s, sep, past(s, sep, from))),
        past(s, sep, from) >= s.len() ==> fields_from(s, sep, from) == Seq::<Seq<u8>>::empty(),
{
    lemma_past(s, sep, from);
    lemma_until(s, sep, past(s, sep, from));
}

/// Takes the three tokens from the bytes of the first pass.
fn tokens(head: &[u8]) -> (found: (Option<Vec<u8>>, Option<Vec<u8>>, Option<Vec<u8>>))
    ensures
        token_view(found.0) == spec_method(head@),
        token_view(found.1) == spec_path(head@),
        token_view(found.2) == spec_protocol(head@),
{
    let mut end: usize = 0;
    while end < head.len() && head[end] != LF
        invariant
            end <= head@.len(),
            until(head@, LF, 0) == until(head@, LF, end as int),
        decreases head@.len() - end,
    {
        end += 1;
    }
    proof {
        lemma_line_end(head@);
    }
    let complete = end < head.len();
    let stop = if end > 0 && head[end - 1] == CR {
        end - 1
    } else {
        end
    };
    let line = slice_subrange(head, 0, stop);
    assert(line@ == spec_line(head@));
    let (a0, b0) = next_field(line, SP, 0);
    let (a1, b1) = next_field(line, SP, b0);
    let (a2, b2) = next_field(line, SP, b1);
    proof {
        lemma_fields_step(line@, SP, 0);
        lemma_fields_step(line@, SP, b0 as int);
        lemma_fields_step(line@, SP, b1 as int);
    }
    let method = if a0 < line.len() {
        Some(copy_of(line, a0, b0))
    } else {
        None
    };
    let path = if a1 < line.len() {
        Some(copy_of(line, a1, b1))
    } else {
        None
    };
    let protocol = if a2 < line.len() {
        Some(copy_of(line, a2, b2))
    } else if complete {
        proof {
            reveal_strlit("undefined");
        }
        Some(slice_to_vec(ascii_bytes("undefined")))
    } else {
        None
    };
    (method, path, protocol)
}

} // verus!
