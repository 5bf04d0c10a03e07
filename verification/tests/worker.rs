use static_http::connection::{Action, Event, Fatal, Phase, Worker};

const NOT_ALLOWED: &[u8] =
    b"HTTP/1.1 405 Method Not Allowed\r\n\r\nUnknown request method. Allowed methods: \"GET\".\r\n";

fn after(root: &[u8], events: Vec<Event>) -> (Worker, Vec<Action>) {
    let (mut worker, first) = Worker::accept(root.to_vec());
    let mut actions = vec![first];
    for event in events {
        let (next, action) = worker.step(event);
        worker = next;
        actions.push(action);
    }
    (worker, actions)
}

fn chunk(bytes: &[u8]) -> Event {
    Event::Chunk(bytes.to_vec())
}

fn canonical(path: &[u8]) -> Event {
    Event::Canonical(Some(path.to_vec()))
}

fn file(bytes: &[u8]) -> Event {
    Event::File(Some(bytes.to_vec()))
}

#[test]
fn accepted_worker_reads_first() {
    let (worker, first) = Worker::accept(b"./static".to_vec());
    assert_eq!(first, Action::Read);
    assert_eq!(worker.phase(), Phase::Reading);
    assert!(!worker.request().sealed());
}

#[test]
fn worker_reads_on_until_the_line_is_complete() {
    let (worker, actions) = after(b"/srv/static", vec![chunk(b"GET /a"), chunk(b".txt HTTP")]);
    assert_eq!(actions, vec![Action::Read, Action::Read, Action::Read]);
    assert_eq!(worker.phase(), Phase::Reading);
    assert_eq!(worker.request().head(), &b"GET /a.txt HTTP"[..]);
}

#[test]
fn worker_ignores_a_peer_that_says_nothing() {
    let (worker, actions) = after(b"/srv/static", vec![Event::Idle]);
    assert_eq!(actions, vec![Action::Read, Action::Close]);
    assert_eq!(worker.phase(), Phase::Closed);
}

#[test]
fn worker_ignores_a_line_that_never_names_a_protocol() {
    let (worker, actions) = after(b"/srv/static", vec![chunk(b"GET /a"), Event::Idle]);
    assert_eq!(actions, vec![Action::Read, Action::Read, Action::Close]);
    assert_eq!(worker.phase(), Phase::Closed);
}

#[test]
fn worker_serves_an_unfinished_line_that_is_whole() {
    let (worker, actions) = after(b"/srv/static", vec![chunk(b"GET / HTTP/1.1"), Event::Idle]);
    assert_eq!(
        actions,
        vec![
            Action::Read,
            Action::Read,
            Action::ReadFile(b"/srv/static/index.html".to_vec())
        ]
    );
    assert_eq!(worker.phase(), Phase::AwaitingIndex);
}

#[test]
fn unknown_protocol_is_told_so_and_the_connection_closed() {
    let (worker, actions) = after(
        b"/srv/static",
        vec![chunk(b"GET / HTTP/1.0\r\n"), Event::Sent],
    );
    assert_eq!(
        actions,
        vec![
            Action::Read,
            Action::Send(b"Unknown protocol.".to_vec()),
            Action::Close
        ]
    );
    assert_eq!(worker.phase(), Phase::Closed);
}

#[test]
fn missing_method_is_refused_and_the_connection_closed() {
    let (worker, actions) = after(b"/srv/static", vec![chunk(b"\r\n"), Event::Sent]);
    assert_eq!(
        actions,
        vec![Action::Read, Action::Send(NOT_ALLOWED.to_vec()), Action::Close]
    );
    assert_eq!(worker.phase(), Phase::Closed);
}

#[test]
fn other_method_is_refused_and_the_connection_drained() {
    let (worker, actions) = after(
        b"/srv/static",
        vec![
            chunk(b"POST / HTTP/1.1\r\nContent-Length: 3\r\n\r\n"),
            Event::Sent,
            chunk(b"abc"),
            Event::Idle,
        ],
    );
    assert_eq!(
        actions,
        vec![
            Action::Read,
            Action::Send(NOT_ALLOWED.to_vec()),
            Action::Read,
            Action::Read,
            Action::Close
        ]
    );
    assert_eq!(worker.phase(), Phase::Closed);
    assert_eq!(worker.request().rest(), &b"abc"[..]);
    assert_eq!(worker.request().method(), Some(&b"POST"[..]));
}

#[test]
fn root_page_is_read_from_the_configured_root() {
    let (worker, actions) = after(b"./static", vec![chunk(b"GET / HTTP/1.1\r\n\r\n")]);
    assert_eq!(
        actions,
        vec![Action::Read, Action::ReadFile(b"./static/index.html".to_vec())]
    );
    assert_eq!(worker.phase(), Phase::AwaitingIndex);
}

#[test]
fn root_page_is_sent_and_the_connection_drained() {
    let (worker, actions) = after(
        b"./static",
        vec![
            chunk(b"GET / HTTP/1.1\r\n"),
            file(b"<h1>hi</h1>"),
            Event::Sent,
            chunk(b"Host: a\r\n\r\n"),
            Event::Idle,
        ],
    );
    assert_eq!(
        actions[2],
        Action::Send(b"HTTP/1.1 200 OK\r\n\r\n<h1>hi</h1>".to_vec())
    );
    assert_eq!(actions[3..], [Action::Read, Action::Read, Action::Close]);
    assert_eq!(worker.phase(), Phase::Closed);
    assert_eq!(worker.request().rest(), &b"Host: a\r\n\r\n"[..]);
}

#[test]
fn missing_index_ends_the_worker() {
    let (worker, actions) = after(
        b"./static",
        vec![chunk(b"GET / HTTP/1.1\r\n"), Event::File(None)],
    );
    assert_eq!(actions[2], Action::Abort(Fatal::MissingIndex));
    assert_eq!(worker.phase(), Phase::Closed);
}

#[test]
fn path_is_resolved_from_the_resolved_root() {
    let (worker, actions) = after(
        b"./static",
        vec![chunk(b"GET /img/a.png HTTP/1.1\r\n"), canonical(b"/srv/static")],
    );
    assert_eq!(
        actions,
        vec![
            Action::Read,
            Action::Canonicalize(b"./static".to_vec()),
            Action::Canonicalize(b"/srv/static/img/a.png".to_vec())
        ]
    );
    assert_eq!(worker.phase(), Phase::AwaitingTarget);
}

#[test]
fn missing_root_ends_the_worker() {
    let (worker, actions) = after(
        b"./static",
        vec![chunk(b"GET /a HTTP/1.1\r\n"), Event::Canonical(None)],
    );
    assert_eq!(actions[2], Action::Abort(Fatal::MissingRoot));
    assert_eq!(worker.phase(), Phase::Closed);
}

#[test]
fn file_within_the_root_is_read_and_sent() {
    let (worker, actions) = after(
        b"./static",
        vec![
            chunk(b"GET /img/../img/a.png HTTP/1.1\r\n"),
            canonical(b"/srv/static"),
            canonical(b"/srv/static/img/a.png"),
            file(&[0x89, b'P', b'N', b'G', 0, 255]),
            Event::Sent,
            Event::Idle,
        ],
    );
    assert_eq!(
        actions[2],
        Action::Canonicalize(b"/srv/static/img/../img/a.png".to_vec())
    );
    assert_eq!(actions[3], Action::ReadFile(b"/srv/static/img/a.png".to_vec()));
    let mut expected = b"HTTP/1.1 200 OK\r\n\r\n".to_vec();
    expected.extend_from_slice(&[0x89, b'P', b'N', b'G', 0, 255]);
    assert_eq!(actions[4], Action::Send(expected));
    assert_eq!(actions[5..], [Action::Read, Action::Close]);
    assert_eq!(worker.phase(), Phase::Closed);
}

#[test]
fn file_outside_the_root_is_met_with_silence() {
    let (worker, actions) = after(
        b"./static",
        vec![
            chunk(b"GET /../secret HTTP/1.1\r\n"),
            canonical(b"/srv/static"),
            canonical(b"/srv/secret"),
            Event::Idle,
        ],
    );
    assert_eq!(
        actions,
        vec![
            Action::Read,
            Action::Canonicalize(b"./static".to_vec()),
            Action::Canonicalize(b"/srv/static/../secret".to_vec()),
            Action::Read,
            Action::Close
        ]
    );
    assert_eq!(worker.phase(), Phase::Closed);
}

#[test]
fn sibling_that_shares_the_name_of_the_root_is_met_with_silence() {
    let (_, actions) = after(
        b"./static",
        vec![
            chunk(b"GET /../static2/a HTTP/1.1\r\n"),
            canonical(b"/srv/static"),
            canonical(b"/srv/static2/a"),
        ],
    );
    assert_eq!(actions[3], Action::Read);
}

#[test]
fn absolute_sub_path_is_looked_up_as_it_stands() {
    let (_, actions) = after(
        b"./static",
        vec![
            chunk(b"GET //etc/passwd HTTP/1.1\r\n"),
            canonical(b"/srv/static"),
            canonical(b"/etc/passwd"),
        ],
    );
    assert_eq!(actions[2], Action::Canonicalize(b"/etc/passwd".to_vec()));
    assert_eq!(actions[3], Action::Read);
}

#[test]
fn unresolved_path_is_met_with_silence() {
    let (worker, actions) = after(
        b"./static",
        vec![
            chunk(b"GET /missing.txt HTTP/1.1\r\n"),
            canonical(b"/srv/static"),
            Event::Canonical(None),
        ],
    );
    assert_eq!(actions[3], Action::Read);
    assert_eq!(worker.phase(), Phase::Draining);
}

#[test]
fn vanished_file_ends_the_worker() {
    let (worker, actions) = after(
        b"./static",
        vec![
            chunk(b"GET /a HTTP/1.1\r\n"),
            canonical(b"/srv/static"),
            canonical(b"/srv/static/a"),
            Event::File(None),
        ],
    );
    assert_eq!(actions[4], Action::Abort(Fatal::VanishedFile));
    assert_eq!(worker.phase(), Phase::Closed);
}

#[test]
fn get_without_a_path_is_drained_unanswered() {
    let (worker, actions) = after(b"./static", vec![chunk(b"GET\r\n"), Event::Idle]);
    assert_eq!(actions, vec![Action::Read, Action::Read, Action::Close]);
    assert_eq!(worker.phase(), Phase::Closed);
}

#[test]
fn tokens_stay_what_they_are_while_the_worker_goes_on() {
    let (worker, _) = after(
        b"./static",
        vec![
            chunk(b"GET /a HTTP/1.1\r\n"),
            canonical(b"/srv/static"),
            Event::Canonical(None),
            chunk(b"POST /b HTTP/2\r\n"),
        ],
    );
    assert_eq!(worker.phase(), Phase::Draining);
    assert_eq!(worker.request().method(), Some(&b"GET"[..]));
    assert_eq!(worker.request().path(), Some(&b"/a"[..]));
    assert_eq!(worker.request().protocol(), Some(&b"HTTP/1.1"[..]));
    assert_eq!(worker.request().head(), &b"GET /a HTTP/1.1\r\n"[..]);
    assert_eq!(worker.request().rest(), &b"POST /b HTTP/2\r\n"[..]);
}

#[test]
fn unexpected_event_closes_the_connection() {
    let (worker, actions) = after(b"./static", vec![file(b"x")]);
    assert_eq!(actions[1], Action::Close);
    assert_eq!(worker.phase(), Phase::Closed);
    let (worker, actions) = after(
        b"./static",
        vec![chunk(b"GET / HTTP/1.1\r\n"), canonical(b"/srv/static")],
    );
    assert_eq!(actions[2], Action::Close);
    assert_eq!(worker.phase(), Phase::Closed);
    let (worker, actions) = after(
        b"./static",
        vec![chunk(b"GET /a HTTP/1.1\r\n"), file(b"x")],
    );
    assert_eq!(actions[2], Action::Close);
    assert_eq!(worker.phase(), Phase::Closed);
}

#[test]
fn closed_worker_stays_closed() {
    let (worker, actions) = after(
        b"./static",
        vec![Event::Idle, chunk(b"GET / HTTP/1.1\r\n"), file(b"x"), Event::Sent],
    );
    assert_eq!(actions[1..], [Action::Close, Action::Close, Action::Close, Action::Close]);
    assert_eq!(worker.phase(), Phase::Closed);
}

#[test]
fn worker_that_has_replied_sends_nothing_more() {
    let (_, actions) = after(
        b"./static",
        vec![
            chunk(b"GET / HTTP/1.1\r\n"),
            file(b"index"),
            Event::Sent,
            chunk(b"GET / HTTP/1.1\r\n"),
            file(b"again"),
            Event::Sent,
        ],
    );
    let sent: Vec<&Action> = actions.iter().filter(|a| matches!(a, Action::Send(_))).collect();
    assert_eq!(sent, vec![&Action::Send(b"HTTP/1.1 200 OK\r\n\r\nindex".to_vec())]);
}
