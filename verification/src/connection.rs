//! The connection handler: what one worker does with one connection.
//!
//! A worker cannot be written as one verified function, because it waits on
//! the outside world between its decisions: for bytes from the peer, for the
//! disk to resolve a path, for a file to be read. So the worker is a state
//! machine. [`Worker::step`] takes what the outside world answered and says
//! what to ask of it next; the program around the library does as it is told
//! and comes back with the answer. Every byte that a connection ever receives
//! is the payload of a [`Action::Send`].

use crate::bytes::{
    ascii, ascii_bytes, is_space, lemma_trimmed_within_space, lowercase, same_bytes,
    to_lowercase, trim, trimmed,
};
use crate::http_methods::{
    get, main_page, spec_get, spec_index_file, spec_sub_path, Lookup, LookupView,
};
use crate::http_request::{
    spec_line_complete, spec_method, spec_path, spec_protocol, spec_undefined, HttpRequest,
    RequestView,
};
use crate::path::{join, spec_join, spec_serves, spec_within_root, within_root};
use crate::response::{
    method_not_allowed, ok, spec_method_not_allowed, spec_ok, spec_unknown_protocol,
    unknown_protocol,
};
use vstd::prelude::*;

verus! {

/// What the handler makes of a request line.
#[derive(Clone, Copy, Debug, PartialEq, Eq, Structural)]
pub enum Route {
    /// No protocol is known: the request is ignored without a reply.
    NoProtocol,
    /// The protocol is neither HTTP/1.1 nor undefined.
    UnknownProtocol,
    /// The request line names no method.
    NoMethod,
    /// The method is not `GET`.
    UnsupportedMethod,
    /// The request goes to the `GET` handler.
    Get,
}

/// The one protocol that the server speaks.
pub open spec fn spec_http_1_1() -> Seq<u8> {
    ascii("HTTP/1.1"@)
}

/// Whether `method` names `GET`: it does once its ASCII capitals are made
/// small and the white space at its ends is taken off.
pub open spec fn spec_is_get(method: Seq<u8>) -> bool {
    trimmed(lowercase(method)) == ascii("get"@)
}

/// The route of a request with the given protocol and method.
pub open spec fn spec_route(protocol: Option<Seq<u8>>, method: Option<Seq<u8>>) -> Route {
    match protocol {
        None => Route::NoProtocol,
        Some(protocol) => if protocol == spec_http_1_1() || protocol == spec_undefined() {
            match method {
                None => Route::NoMethod,
                Some(method) => if spec_is_get(method) {
                    Route::Get
                } else {
                    Route::UnsupportedMethod
                },
            }
        } else {
            Route::UnknownProtocol
        },
    }
}

/// `GET` is recognised in capital letters, in small letters and in any mix
/// of them, with or without white space around it.
pub proof fn lemma_get_in_any_case(before: Seq<u8>, word: Seq<u8>, after: Seq<u8>)
    requires
        forall|k: int| 0 <= k < before.len() ==> is_space(before[k]),
        forall|k: int| 0 <= k < after.len() ==> is_space(after[k]),
        lowercase(word) == ascii("get"@),
    ensures
        spec_is_get(before + word + after),
{
    reveal_strlit("get");
    let folded = lowercase(word);
    assert(folded.len() == 3);
    assert(folded[0] == 'g' as u8 && folded[2] == 't' as u8);
    assert(lowercase(before + word + after) =~= lowercase(before) + folded + lowercase(after));
    lemma_trimmed_within_space(lowercase(before), folded, lowercase(after));
}

/// Whether `method` names `GET`.
pub fn is_get(method: &[u8]) -> (yes: bool)
    ensures
        yes == spec_is_get(method@),
{
    let folded = to_lowercase(method);
    proof {
        reveal_strlit("get");
    }
    same_bytes(trim(folded.as_slice()), ascii_bytes("get"))
}

/// Routes a request by its protocol and its method.
pub fn route(request: &HttpRequest) -> (route: Route)
    ensures
        route == spec_route(request@.protocol(), request@.method()),
{
    proof {
        reveal_strlit("HTTP/1.1");
        reveal_strlit("undefined");
    }
    match request.protocol() {
        None => Route::NoProtocol,
        Some(protocol) => {
            if same_bytes(protocol, ascii_bytes("HTTP/1.1")) || same_bytes(
                protocol,
                ascii_bytes("undefined"),
            ) {
                match request.method() {
                    None => Route::NoMethod,
                    Some(method) => if is_get(method) {
                        Route::Get
                    } else {
                        Route::UnsupportedMethod
                    },
                }
            } else {
                Route::UnknownProtocol
            }
        },
    }
}

/// Why a worker ends without finishing its connection. None of these stops
/// the server: the one connection is lost.
#[derive(Clone, Copy, Debug, PartialEq, Eq, Structural)]
pub enum Fatal {
    /// The static root holds no `index.html`.
    MissingIndex,
    /// The static root itself could not be resolved.
    MissingRoot,
    /// A file that had just been resolved could not be read.
    VanishedFile,
}

impl Fatal {
    /// The last words of a worker that ends for this reason.
    pub fn message(self) -> (text: &'static str)
        ensures
            text@ == match self {
                Fatal::MissingIndex => "Missing index.html page."@,
                Fatal::MissingRoot => "Static directory must exist."@,
                Fatal::VanishedFile => "File was deleted right after being requested."@,
            },
    {
        match self {
            Fatal::MissingIndex => "Missing index.html page.",
            Fatal::MissingRoot => "Static directory must exist.",
            Fatal::VanishedFile => "File was deleted right after being requested.",
        }
    }
}

/// What the worker asks of the outside world.
#[derive(Debug, PartialEq, Eq)]
pub enum Action {
    /// Read from the connection, and answer with `Chunk`, or with `Idle`
    /// when the read timed out or the peer has closed.
    Read,
    /// Resolve this path on the disk, and answer with `Canonical`.
    Canonicalize(Vec<u8>),
    /// Read this file, and answer with `File`.
    ReadFile(Vec<u8>),
    /// Write these bytes to the connection, and answer with `Sent`. A write
    /// that fails is answered in the same way.
    Send(Vec<u8>),
    /// Close the connection: the worker is done.
    Close,
    /// End the worker at once.
    Abort(Fatal),
}

/// What an `Action` is, as far as any contract is concerned.
pub enum ActionView {
    Read,
    Canonicalize(Seq<u8>),
    ReadFile(Seq<u8>),
    Send(Seq<u8>),
    Close,
    Abort(Fatal),
}

impl View for Action {
    type V = ActionView;

    open spec fn view(&self) -> ActionView {
        match self {
            Action::Read => ActionView::Read,
            Action::Canonicalize(path) => ActionView::Canonicalize(path@),
            Action::ReadFile(path) => ActionView::ReadFile(path@),
            Action::Send(bytes) => ActionView::Send(bytes@),
            Action::Close => ActionView::Close,
            Action::Abort(fatal) => ActionView::Abort(*fatal),
        }
    }
}

/// What the outside world answers.
#[derive(Debug, PartialEq, Eq)]
pub enum Event {
    /// These bytes arrived on the connection.
    Chunk(Vec<u8>),
    /// Nothing arrived within the timeout, or the peer has closed.
    Idle,
    /// The disk resolved the path to this absolute path free of links, or
    /// could not resolve it.
    Canonical(Option<Vec<u8>>),
    /// The file holds these bytes, or could not be read.
    File(Option<Vec<u8>>),
    /// The bytes were handed to the connection.
    Sent,
}

/// What an `Event` is, as far as any contract is concerned.
pub enum EventView {
    Chunk(Seq<u8>),
    Idle,
    Canonical(Option<Seq<u8>>),
    File(Option<Seq<u8>>),
    Sent,
}

impl View for Event {
    type V = EventView;

    open spec fn view(&self) -> EventView {
        match self {
            Event::Chunk(bytes) => EventView::Chunk(bytes@),
            Event::Idle => EventView::Idle,
            Event::Canonical(Some(path)) => EventView::Canonical(Some(path@)),
            Event::Canonical(None) => EventView::Canonical(None),
            Event::File(Some(bytes)) => EventView::File(Some(bytes@)),
            Event::File(None) => EventView::File(None),
            Event::Sent => EventView::Sent,
        }
    }
}

/// Where a worker stands: what it is waiting for.
#[derive(Clone, Copy, Debug, PartialEq, Eq, Structural)]
pub enum Phase {
    /// For the request line.
    Reading,
    /// For the bytes of the index file.
    AwaitingIndex,
    /// For the static root, resolved.
    AwaitingRoot,
    /// For the requested path, resolved.
    AwaitingTarget,
    /// For the bytes of the requested file.
    AwaitingFile,
    /// For a reply to be written, after which the connection is drained.
    Replied,
    /// For a reply to be written, after which the connection is closed.
    Refused,
    /// For the peer to fall silent.
    Draining,
    /// For nothing.
    Closed,
}

/// What a worker is, as far as any contract is concerned.
pub struct WorkerView {
    pub phase: Phase,
    /// The static root, as configured.
    pub root: Seq<u8>,
    pub request: RequestView,
    /// The path that the request asks for below the root.
    pub sub_path: Seq<u8>,
    /// The static root as the disk resolved it for this request.
    pub canonical_root: Seq<u8>,
}

impl WorkerView {
    /// The worker of a connection that was just accepted.
    pub open spec fn accepted(root: Seq<u8>) -> WorkerView {
        WorkerView {
            phase: Phase::Reading,
            root,
            request: RequestView::empty(),
            sub_path: Seq::empty(),
            canonical_root: Seq::empty(),
        }
    }

    /// This worker in another phase.
    pub open spec fn at(self, phase: Phase) -> WorkerView {
        WorkerView { phase, ..self }
    }

    /// What the worker does once its request is sealed.
    pub open spec fn dispatch(self) -> (WorkerView, ActionView) {
        match spec_route(self.request.protocol(), self.request.method()) {
            Route::NoProtocol => (self.at(Phase::Closed), ActionView::Close),
            Route::UnknownProtocol => (
                self.at(Phase::Refused),
                ActionView::Send(spec_unknown_protocol()),
            ),
            Route::NoMethod => (
                self.at(Phase::Refused),
                ActionView::Send(spec_method_not_allowed()),
            ),
            Route::UnsupportedMethod => (
                self.at(Phase::Replied),
                ActionView::Send(spec_method_not_allowed()),
            ),
            Route::Get => match spec_get(self.request.path(), self.root) {
                LookupView::Nothing => (self.at(Phase::Draining), ActionView::Read),
                LookupView::Index(file) => (
                    self.at(Phase::AwaitingIndex),
                    ActionView::ReadFile(file),
                ),
                LookupView::Below(sub_path) => (
                    WorkerView { phase: Phase::AwaitingRoot, sub_path, ..self },
                    ActionView::Canonicalize(self.root),
                ),
            },
        }
    }

    /// The worker after `event`, and what it asks for next. An event that the
    /// worker was not waiting for closes the connection.
    pub open spec fn step(self, event: EventView) -> (WorkerView, ActionView) {
        match (self.phase, event) {
            (Phase::Reading, EventView::Chunk(bytes)) => {
                let read = WorkerView { request: self.request.read(bytes), ..self };
                if read.request.sealed {
                    read.dispatch()
                } else {
                    (read, ActionView::Read)
                }
            },
            (Phase::Reading, EventView::Idle) => WorkerView {
                request: self.request.seal(),
                ..self
            }.dispatch(),
            (Phase::AwaitingIndex, EventView::File(Some(bytes))) => (
                self.at(Phase::Replied),
                ActionView::Send(spec_ok(bytes)),
            ),
            (Phase::AwaitingIndex, EventView::File(None)) => (
                self.at(Phase::Closed),
                ActionView::Abort(Fatal::MissingIndex),
            ),
            (Phase::AwaitingRoot, EventView::Canonical(Some(canonical_root))) => (
                WorkerView { phase: Phase::AwaitingTarget, canonical_root, ..self },
                ActionView::Canonicalize(spec_join(canonical_root, self.sub_path)),
            ),
            (Phase::AwaitingRoot, EventView::Canonical(None)) => (
                self.at(Phase::Closed),
                ActionView::Abort(Fatal::MissingRoot),
            ),
            (Phase::AwaitingTarget, EventView::Canonical(resolved)) => if spec_serves(
                self.canonical_root,
                resolved,
            ) {
                (self.at(Phase::AwaitingFile), ActionView::ReadFile(resolved.unwrap()))
            } else {
                (self.at(Phase::Draining), ActionView::Read)
            },
            (Phase::AwaitingFile, EventView::File(Some(bytes))) => (
                self.at(Phase::Replied),
                ActionView::Send(spec_ok(bytes)),
            ),
            (Phase::AwaitingFile, EventView::File(None)) => (
                self.at(Phase::Closed),
                ActionView::Abort(Fatal::VanishedFile),
            ),
            (Phase::Replied, EventView::Sent) => (self.at(Phase::Draining), ActionView::Read),
            (Phase::Draining, EventView::Chunk(bytes)) => (
                WorkerView { request: self.request.seal().read(bytes), ..self },
                ActionView::Read,
            ),
            _ => (self.at(Phase::Closed), ActionView::Close),
        }
    }
}

/// The worker of one connection.
pub struct Worker {
    phase: Phase,
    root: Vec<u8>,
    request: HttpRequest,
    sub_path: Vec<u8>,
    canonical_root: Vec<u8>,
}

impl View for Worker {
    type V = WorkerView;

    closed spec fn view(&self) -> WorkerView {
        WorkerView {
            phase: self.phase,
            root: self.root@,
            request: self.request@,
            sub_path: self.sub_path@,
            canonical_root: self.canonical_root@,
        }
    }
}

impl Worker {
    /// The worker of a connection that was just accepted, under the given
    /// static root. It starts by waiting for the request line: the first
    /// thing to do for it is to read from the connection.
    pub fn accept(root: Vec<u8>) -> (start: (Worker, Action))
        ensures
            start.0@ == WorkerView::accepted(root@),
            start.1@ == ActionView::Read,
    {
        (
            Worker {
                phase: Phase::Reading,
                root,
                request: HttpRequest::new(),
                sub_path: Vec::new(),
                canonical_root: Vec::new(),
            },
            Action::Read,
        )
    }

    /// Where the worker stands.
    pub fn phase(&self) -> (phase: Phase)
        ensures
            phase == self@.phase,
    {
        self.phase
    }

    /// The request, as far as it has been read.
    pub fn request(&self) -> (request: &HttpRequest)
        ensures
            request@ == self@.request,
    {
        &self.request
    }

    fn at(self, phase: Phase) -> (moved: Worker)
        ensures
            moved@ == self@.at(phase),
    {
        Worker {
            phase,
            root: self.root,
            request: self.request,
            sub_path: self.sub_path,
            canonical_root: self.canonical_root,
        }
    }

    fn dispatch(self) -> (next: (Worker, Action))
        ensures
            (next.0@, next.1@) == self@.dispatch(),
    {
        match route(&self.request) {
            Route::NoProtocol => (self.at(Phase::Closed), Action::Close),
            Route::UnknownProtocol => (self.at(Phase::Refused), Action::Send(unknown_protocol())),
            Route::NoMethod => (self.at(Phase::Refused), Action::Send(method_not_allowed())),
            Route::UnsupportedMethod => (
                self.at(Phase::Replied),
                Action::Send(method_not_allowed()),
            ),
            Route::Get => match get(&self.request, self.root.as_slice()) {
                Lookup::Nothing => (self.at(Phase::Draining), Action::Read),
                Lookup::Index(file) => (self.at(Phase::AwaitingIndex), Action::ReadFile(file)),
                Lookup::Below(sub_path) => {
                    let ask = Action::Canonicalize(self.root.clone());
                    (
                        Worker {
                            phase: Phase::AwaitingRoot,
                            root: self.root,
                            request: self.request,
                            sub_path,
                            canonical_root: self.canonical_root,
                        },
                        ask,
                    )
                },
            },
        }
    }

    /// Takes in what the outside world answered, and says what to ask of it
    /// next.
    pub fn step(self, event: Event) -> (next: (Worker, Action))
        ensures
            (next.0@, next.1@) == self@.step(event@),
    {
        match self.phase {
            Phase::Reading => match event {
                Event::Chunk(bytes) => {
                    let read = Worker {
                        phase: self.phase,
                        root: self.root,
                        request: self.request.read(bytes.as_slice()),
                        sub_path: self.sub_path,
                        canonical_root: self.canonical_root,
                    };
                    if read.request.sealed() {
                        read.dispatch()
                    } else {
                        (read, Action::Read)
                    }
                },
                Event::Idle => Worker {
                    phase: self.phase,
                    root: self.root,
                    request: self.request.seal(),
                    sub_path: self.sub_path,
                    canonical_root: self.canonical_root,
                }.dispatch(),
                _ => (self.at(Phase::Closed), Action::Close),
            },
            Phase::AwaitingIndex => match event {
                Event::File(Some(bytes)) => (
                    self.at(Phase::Replied),
                    Action::Send(main_page(bytes.as_slice())),
                ),
                Event::File(None) => (self.at(Phase::Closed), Action::Abort(Fatal::MissingIndex)),
                _ => (self.at(Phase::Closed), Action::Close),
            },
            Phase::AwaitingRoot => match event {
                Event::Canonical(Some(canonical_root)) => {
                    let ask = Action::Canonicalize(
                        join(canonical_root.as_slice(), self.sub_path.as_slice()),
                    );
                    (
                        Worker {
                            phase: Phase::AwaitingTarget,
                            root: self.root,
                            request: self.request,
                            sub_path: self.sub_path,
                            canonical_root,
                        },
                        ask,
                    )
                },
                Event::Canonical(None) => (
                    self.at(Phase::Closed),
                    Action::Abort(Fatal::MissingRoot),
                ),
                _ => (self.at(Phase::Closed), Action::Close),
            },
            Phase::AwaitingTarget => match event {
                Event::Canonical(Some(resolved)) => {
                    if within_root(self.canonical_root.as_slice(), resolved.as_slice()) {
                        (self.at(Phase::AwaitingFile), Action::ReadFile(resolved))
                    } else {
                        (self.at(Phase::Draining), Action::Read)
                    }
                },
                Event::Canonical(None) => (self.at(Phase::Draining), Action::Read),
                _ => (self.at(Phase::Closed), Action::Close),
            },
            Phase::AwaitingFile => match event {
                Event::File(Some(bytes)) => (
                    self.at(Phase::Replied),
                    Action::Send(ok(bytes.as_slice())),
                ),
                Event::File(None) => (self.at(Phase::Closed), Action::Abort(Fatal::VanishedFile)),
                _ => (self.at(Phase::Closed), Action::Close),
            },
            Phase::Replied => match event {
                Event::Sent => (self.at(Phase::Draining), Action::Read),
                _ => (self.at(Phase::Closed), Action::Close),
            },
            Phase::Draining => match event {
                Event::Chunk(bytes) => (
                    Worker {
                        phase: self.phase,
                        root: self.root,
                        request: self.request.read_all(bytes.as_slice()),
                        sub_path: self.sub_path,
                        canonical_root: self.canonical_root,
                    },
                    Action::Read,
                ),
                _ => (self.at(Phase::Closed), Action::Close),
            },
            Phase::Refused => (self.at(Phase::Closed), Action::Close),
            Phase::Closed => (self.at(Phase::Closed), Action::Close),
        }
    }
}

/// The bytes that an action puts on the wire.
pub open spec fn spec_sent(action: ActionView) -> Seq<u8> {
    match action {
        ActionView::Send(bytes) => bytes,
        _ => Seq::empty(),
    }
}

/// The events by which a request whose first pass reads `head` reaches a
/// worker: the bytes, and then silence where they hold no line feed.
pub open spec fn spec_delivery(head: Seq<u8>) -> Seq<EventView> {
    if spec_line_complete(head) {
        seq![EventView::Chunk(head)]
    } else {
        seq![EventView::Chunk(head), EventView::Idle]
    }
}

impl WorkerView {
    /// Everything that the connection receives while the worker takes in
    /// `events` one after the other.
    pub open spec fn reply(self, events: Seq<EventView>) -> Seq<u8>
        decreases events.len(),
    {
        if events.len() == 0 {
            Seq::empty()
        } else {
            let (next, action) = self.step(events[0]);
            spec_sent(action) + next.reply(events.drop_first())
        }
    }

    /// Whether the worker has said all it had to say: it has handed out its
    /// reply, or has decided to give none.
    pub open spec fn quiet(self) -> bool {
        self.phase == Phase::Replied || self.phase == Phase::Refused || self.phase
            == Phase::Draining || self.phase == Phase::Closed
    }

    /// The worker under `root` whose first pass has read `head`, at the
    /// moment at which its request is sealed.
    pub open spec fn received(root: Seq<u8>, head: Seq<u8>) -> WorkerView {
        WorkerView {
            request: RequestView { head, rest: Seq::empty(), sealed: true },
            ..WorkerView::accepted(root)
        }
    }
}

/// What a run sends is what its first step sends, followed by what the rest
/// of the run sends.
pub proof fn lemma_reply_unfolds(worker: WorkerView, first: EventView, later: Seq<EventView>)
    ensures
        worker.reply(seq![first] + later) == spec_sent(worker.step(first).1) + worker.step(
            first,
        ).0.reply(later),
{
    let events = seq![first] + later;
    assert(events[0] == first);
    assert(events.drop_first() =~= later);
}

/// A worker that has said all it had to say sends nothing more, whatever
/// happens to it.
pub proof fn lemma_quiet_stays_quiet(worker: WorkerView, events: Seq<EventView>)
    requires
        worker.quiet(),
    ensures
        worker.reply(events) == Seq::<u8>::empty(),
    decreases events.len(),
{
    if events.len() > 0 {
        let (next, action) = worker.step(events[0]);
        lemma_quiet_stays_quiet(next, events.drop_first());
        assert(spec_sent(action) + next.reply(events.drop_first()) =~= Seq::<u8>::empty());
    }
}

/// Once a request is sealed, no event changes the bytes that its tokens are
/// taken from: protocol, method and path stay what they are.
pub proof fn lemma_tokens_never_change(worker: WorkerView, event: EventView)
    requires
        worker.request.sealed,
    ensures
        worker.step(event).0.request.sealed,
        worker.step(event).0.request.head == worker.request.head,
        worker.step(event).0.request.protocol() == worker.request.protocol(),
        worker.step(event).0.request.method() == worker.request.method(),
        worker.step(event).0.request.path() == worker.request.path(),
{
}

/// A request that arrives at a fresh worker is dispatched on exactly the
/// bytes of its first pass: what the run sends is what the dispatch sends,
/// followed by what the rest of the run sends.
pub proof fn lemma_delivery_dispatches(root: Seq<u8>, head: Seq<u8>, later: Seq<EventView>)
    ensures
        WorkerView::accepted(root).reply(spec_delivery(head) + later) == spec_sent(
            WorkerView::received(root, head).dispatch().1,
        ) + WorkerView::received(root, head).dispatch().0.reply(later),
{
    let fresh = WorkerView::accepted(root);
    let sealed = WorkerView::received(root, head);
    let chunk = EventView::Chunk(head);
    assert(Seq::<u8>::empty() + head =~= head);
    if spec_line_complete(head) {
        assert(fresh.step(chunk) == sealed.dispatch());
        lemma_reply_unfolds(fresh, chunk, later);
    } else {
        let read = fresh.step(chunk).0;
        assert(fresh.step(chunk).1 == ActionView::Read);
        assert(read.step(EventView::Idle) == sealed.dispatch());
        assert(spec_delivery(head) + later =~= seq![chunk] + (seq![EventView::Idle] + later));
        lemma_reply_unfolds(fresh, chunk, seq![EventView::Idle] + later);
        lemma_reply_unfolds(read, EventView::Idle, later);
        assert(Seq::<u8>::empty() + read.reply(seq![EventView::Idle] + later) =~= read.reply(
            seq![EventView::Idle] + later,
        ));
    }
}

/// A `GET` for a path below the root of the site asks the disk twice: first
/// where the static root is, then where the requested path leads from
/// there. The path that it asks about is the requested one without its first
/// byte, as seen from the resolved root.
pub proof fn lemma_get_asks_the_disk(root: Seq<u8>, head: Seq<u8>, canonical_root: Seq<u8>)
    requires
        spec_route(spec_protocol(head), spec_method(head)) == Route::Get,
        spec_get(spec_path(head), root) is Below,
    ensures
        WorkerView::received(root, head).dispatch().1 == ActionView::Canonicalize(root),
        WorkerView::received(root, head).dispatch().0.step(
            EventView::Canonical(Some(canonical_root)),
        ).1 == ActionView::Canonicalize(
            spec_join(canonical_root, spec_sub_path(spec_path(head).unwrap())),
        ),
{
}

/// A requested path that the disk cannot resolve, or resolves to a place
/// outside the static root, is answered with silence: the connection
/// receives no byte, neither then nor later.
pub proof fn lemma_outside_root_sends_nothing(
    root: Seq<u8>,
    head: Seq<u8>,
    canonical_root: Seq<u8>,
    resolved: Option<Seq<u8>>,
    later: Seq<EventView>,
)
    requires
        spec_route(spec_protocol(head), spec_method(head)) == Route::Get,
        spec_get(spec_path(head), root) is Below,
        !spec_serves(canonical_root, resolved),
    ensures
        WorkerView::accepted(root).reply(
            spec_delivery(head) + (seq![
                EventView::Canonical(Some(canonical_root)),
                EventView::Canonical(resolved),
            ] + later),
        ) == Seq::<u8>::empty(),
{
    let first = EventView::Canonical(Some(canonical_root));
    let second = EventView::Canonical(resolved);
    let (asked, _) = WorkerView::received(root, head).dispatch();
    let (waiting, _) = asked.step(first);
    let (silent, _) = waiting.step(second);
    lemma_delivery_dispatches(root, head, seq![first, second] + later);
    assert(seq![first, second] + later =~= seq![first] + (seq![second] + later));
    lemma_reply_unfolds(asked, first, seq![second] + later);
    lemma_reply_unfolds(waiting, second, later);
    lemma_quiet_stays_quiet(silent, later);
    assert(Seq::<u8>::empty() + Seq::<u8>::empty() =~= Seq::<u8>::empty());
}

/// A requested path that the disk resolves to a file within the static root
/// is answered with the status line of success followed by the bytes of that
/// file, and with nothing else. The file that is read is the one that the
/// disk named.
pub proof fn lemma_inside_root_sends_file(
    root: Seq<u8>,
    head: Seq<u8>,
    canonical_root: Seq<u8>,
    file: Seq<u8>,
    content: Seq<u8>,
    later: Seq<EventView>,
)
    requires
        spec_route(spec_protocol(head), spec_method(head)) == Route::Get,
        spec_get(spec_path(head), root) is Below,
        spec_within_root(canonical_root, file),
    ensures
        WorkerView::received(root, head).dispatch().0.step(
            EventView::Canonical(Some(canonical_root)),
        ).0.step(EventView::Canonical(Some(file))).1 == ActionView::ReadFile(file),
        WorkerView::accepted(root).reply(
            spec_delivery(head) + (seq![
                EventView::Canonical(Some(canonical_root)),
                EventView::Canonical(Some(file)),
                EventView::File(Some(content)),
            ] + later),
        ) == spec_ok(content),
{
    let first = EventView::Canonical(Some(canonical_root));
    let second = EventView::Canonical(Some(file));
    let third = EventView::File(Some(content));
    let (asked, _) = WorkerView::received(root, head).dispatch();
    let (waiting, _) = asked.step(first);
    let (reading, _) = waiting.step(second);
    let (replied, _) = reading.step(third);
    lemma_delivery_dispatches(root, head, seq![first, second, third] + later);
    assert(seq![first, second, third] + later =~= seq![first] + (seq![second] + (seq![third]
        + later)));
    lemma_reply_unfolds(asked, first, seq![second] + (seq![third] + later));
    lemma_reply_unfolds(waiting, second, seq![third] + later);
    lemma_reply_unfolds(reading, third, later);
    lemma_quiet_stays_quiet(replied, later);
    assert(Seq::<u8>::empty() + (Seq::<u8>::empty() + (Seq::<u8>::empty() + (spec_ok(content)
        + Seq::<u8>::empty()))) =~= spec_ok(content));
}

/// A `GET` for the root of the site asks for `index.html` directly under the
/// static root and for nothing else, and is answered with the status line of
/// success followed by the bytes of that file.
pub proof fn lemma_root_page_sends_index(
    root: Seq<u8>,
    head: Seq<u8>,
    index: Seq<u8>,
    later: Seq<EventView>,
)
    requires
        spec_route(spec_protocol(head), spec_method(head)) == Route::Get,
        spec_path(head) matches Some(path) && spec_sub_path(path).len() == 0,
    ensures
        WorkerView::received(root, head).dispatch().1 == ActionView::ReadFile(
            spec_index_file(root),
        ),
        WorkerView::accepted(root).reply(
            spec_delivery(head) + (seq![EventView::File(Some(index))] + later),
        ) == spec_ok(index),
{
    let first = EventView::File(Some(index));
    let (asked, _) = WorkerView::received(root, head).dispatch();
    let (replied, _) = asked.step(first);
    lemma_delivery_dispatches(root, head, seq![first] + later);
    lemma_reply_unfolds(asked, first, later);
    lemma_quiet_stays_quiet(replied, later);
    assert(Seq::<u8>::empty() + (spec_ok(index) + Seq::<u8>::empty()) =~= spec_ok(index));
}

/// A request in an accepted protocol whose method is anything but `GET` is
/// answered with the reply for a method that is not allowed, and with
/// nothing else.
pub proof fn lemma_other_methods_are_refused(
    root: Seq<u8>,
    head: Seq<u8>,
    later: Seq<EventView>,
)
    requires
        spec_protocol(head) == Some(spec_http_1_1()) || spec_protocol(head) == Some(
            spec_undefined(),
        ),
        spec_method(head) matches Some(method) ==> !spec_is_get(method),
    ensures
        WorkerView::accepted(root).reply(spec_delivery(head) + later)
            == spec_method_not_allowed(),
{
    let (refused, _) = WorkerView::received(root, head).dispatch();
    lemma_delivery_dispatches(root, head, later);
    lemma_quiet_stays_quiet(refused, later);
    assert(spec_method_not_allowed() + Seq::<u8>::empty() =~= spec_method_not_allowed());
}

/// A request whose protocol is neither HTTP/1.1 nor undefined is told so in
/// plain text, without a status line, and receives nothing else.
pub proof fn lemma_unknown_protocol_is_told_so(
    root: Seq<u8>,
    head: Seq<u8>,
    later: Seq<EventView>,
)
    requires
        spec_protocol(head) matches Some(protocol) && protocol != spec_http_1_1() && protocol
            != spec_undefined(),
    ensures
        WorkerView::accepted(root).reply(spec_delivery(head) + later)
            == spec_unknown_protocol(),
{
    let (refused, _) = WorkerView::received(root, head).dispatch();
    lemma_delivery_dispatches(root, head, later);
    lemma_quiet_stays_quiet(refused, later);
    assert(spec_unknown_protocol() + Seq::<u8>::empty() =~= spec_unknown_protocol());
}

/// A request of which no protocol is known receives nothing.
pub proof fn lemma_no_protocol_sends_nothing(root: Seq<u8>, head: Seq<u8>, later: Seq<EventView>)
    requires
        spec_protocol(head) is None,
    ensures
        WorkerView::accepted(root).reply(spec_delivery(head) + later) == Seq::<u8>::empty(),
{
    let (closed, _) = WorkerView::received(root, head).dispatch();
    lemma_delivery_dispatches(root, head, later);
    lemma_quiet_stays_quiet(closed, later);
    assert(Seq::<u8>::empty() + Seq::<u8>::empty() =~= Seq::<u8>::empty());
}

/// A worker replies once at most: after the step that sends, it has said all
/// it had to say. And what it sends is one of three things: the bytes of a
/// file behind the status line of success, the reply for a method that is
/// not allowed, or the text for an unknown protocol.
pub proof fn lemma_one_reply_of_three(worker: WorkerView, event: EventView)
    ensures
        worker.step(event).1 matches ActionView::Send(bytes) ==> {
            &&& worker.step(event).0.quiet()
            &&& {
                ||| bytes == spec_method_not_allowed()
                ||| bytes == spec_unknown_protocol()
                ||| event matches EventView::File(Some(content)) && bytes == spec_ok(content)
            }
        },
{
}

} // verus!
