use static_http::http_request::{line_complete, HttpRequest, CR, LF, READ_TIMEOUT_MILLIS, SP};

fn sealed(head: &[u8]) -> HttpRequest {
    HttpRequest::new().read(head).seal()
}

#[test]
fn read_timeout_is_a_tenth_of_a_second() {
    assert_eq!(READ_TIMEOUT_MILLIS, 100);
}

#[test]
fn separators_are_the_ascii_ones() {
    assert_eq!(LF, b'\n');
    assert_eq!(CR, b'\r');
    assert_eq!(SP, b' ');
}

#[test]
fn new_request_has_read_nothing() {
    let request = HttpRequest::new();
    assert!(!request.sealed());
    assert_eq!(request.head(), &b""[..]);
    assert_eq!(request.rest(), &b""[..]);
    assert_eq!(request.protocol(), None);
    assert_eq!(request.method(), None);
    assert_eq!(request.path(), None);
}

#[test]
fn full_request_line_gives_three_tokens() {
    let request = HttpRequest::new().read(b"GET /img/a.png HTTP/1.1\r\nHost: example\r\n\r\n");
    assert!(request.sealed());
    assert_eq!(request.method(), Some(&b"GET"[..]));
    assert_eq!(request.path(), Some(&b"/img/a.png"[..]));
    assert_eq!(request.protocol(), Some(&b"HTTP/1.1"[..]));
}

#[test]
fn line_feed_alone_ends_the_line() {
    let request = HttpRequest::new().read(b"GET / HTTP/1.1\n");
    assert!(request.sealed());
    assert_eq!(request.protocol(), Some(&b"HTTP/1.1"[..]));
}

#[test]
fn only_one_carriage_return_is_taken_off() {
    let request = HttpRequest::new().read(b"GET / HTTP/1.1\r\r\n");
    assert_eq!(request.protocol(), Some(&b"HTTP/1.1\r"[..]));
}

#[test]
fn line_without_protocol_has_the_undefined_one() {
    let request = HttpRequest::new().read(b"GET /\r\n");
    assert_eq!(request.method(), Some(&b"GET"[..]));
    assert_eq!(request.path(), Some(&b"/"[..]));
    assert_eq!(request.protocol(), Some(&b"undefined"[..]));
}

#[test]
fn empty_line_has_no_method_and_the_undefined_protocol() {
    let request = HttpRequest::new().read(b"\r\n");
    assert!(request.sealed());
    assert_eq!(request.method(), None);
    assert_eq!(request.path(), None);
    assert_eq!(request.protocol(), Some(&b"undefined"[..]));
}

#[test]
fn blank_line_has_no_method() {
    let request = HttpRequest::new().read(b"   \n");
    assert_eq!(request.method(), None);
    assert_eq!(request.protocol(), Some(&b"undefined"[..]));
}

#[test]
fn silence_before_any_byte_leaves_every_token_absent() {
    let request = HttpRequest::new().seal();
    assert!(request.sealed());
    assert_eq!(request.protocol(), None);
    assert_eq!(request.method(), None);
    assert_eq!(request.path(), None);
}

#[test]
fn unfinished_line_is_parsed_as_far_as_it_goes() {
    let request = sealed(b"GET /file");
    assert_eq!(request.method(), Some(&b"GET"[..]));
    assert_eq!(request.path(), Some(&b"/file"[..]));
    assert_eq!(request.protocol(), None);
}

#[test]
fn unfinished_line_with_three_tokens_names_its_protocol() {
    let request = sealed(b"GET / HTTP/1.1");
    assert_eq!(request.protocol(), Some(&b"HTTP/1.1"[..]));
}

#[test]
fn tokens_are_absent_until_the_request_is_sealed() {
    let request = HttpRequest::new().read(b"GET / HTTP/1.1");
    assert!(!request.sealed());
    assert_eq!(request.head(), &b"GET / HTTP/1.1"[..]);
    assert_eq!(request.method(), None);
    assert_eq!(request.path(), None);
    assert_eq!(request.protocol(), None);
}

#[test]
fn blanks_that_follow_one_another_make_no_token() {
    let request = HttpRequest::new().read(b"  GET    /a   HTTP/1.0  \r\n");
    assert_eq!(request.method(), Some(&b"GET"[..]));
    assert_eq!(request.path(), Some(&b"/a"[..]));
    assert_eq!(request.protocol(), Some(&b"HTTP/1.0"[..]));
}

#[test]
fn only_the_blank_separates_tokens() {
    let request = HttpRequest::new().read(b"GET\t/ HTTP/1.1\r\n");
    assert_eq!(request.method(), Some(&b"GET\t/"[..]));
    assert_eq!(request.path(), Some(&b"HTTP/1.1"[..]));
    assert_eq!(request.protocol(), Some(&b"undefined"[..]));
}

#[test]
fn fourth_token_is_not_looked_at() {
    let request = HttpRequest::new().read(b"GET /a b HTTP/1.1\r\n");
    assert_eq!(request.path(), Some(&b"/a"[..]));
    assert_eq!(request.protocol(), Some(&b"b"[..]));
}

#[test]
fn what_follows_the_first_line_is_not_looked_at() {
    let request = HttpRequest::new().read(b"GET / HTTP/1.1\r\nPOST /other HTTP/2\r\n");
    assert_eq!(request.method(), Some(&b"GET"[..]));
    assert_eq!(request.path(), Some(&b"/"[..]));
    assert_eq!(request.protocol(), Some(&b"HTTP/1.1"[..]));
    assert_eq!(request.head(), &b"GET / HTTP/1.1\r\nPOST /other HTTP/2\r\n"[..]);
}

#[test]
fn bytes_read_in_pieces_make_the_same_request() {
    let whole = HttpRequest::new().read(b"GET /a HTTP/1.1\r\n");
    let pieces = HttpRequest::new().read(b"GE").read(b"T /a HT").read(b"TP/1.1\r\n");
    assert!(pieces.sealed());
    assert_eq!(pieces.head(), whole.head());
    assert_eq!(pieces.method(), whole.method());
    assert_eq!(pieces.path(), whole.path());
    assert_eq!(pieces.protocol(), whole.protocol());
}

#[test]
fn bytes_after_the_seal_change_no_token() {
    let request = HttpRequest::new().read(b"GET /a\r\n").read(b" HTTP/1.1\r\n");
    assert_eq!(request.head(), &b"GET /a\r\n"[..]);
    assert_eq!(request.rest(), &b" HTTP/1.1\r\n"[..]);
    assert_eq!(request.path(), Some(&b"/a"[..]));
    assert_eq!(request.protocol(), Some(&b"undefined"[..]));
}

#[test]
fn read_all_seals_and_sets_the_bytes_aside() {
    let request = HttpRequest::new().read(b"GET /a").read_all(b"bc HTTP/1.1\r\n");
    assert!(request.sealed());
    assert_eq!(request.head(), &b"GET /a"[..]);
    assert_eq!(request.rest(), &b"bc HTTP/1.1\r\n"[..]);
    assert_eq!(request.path(), Some(&b"/a"[..]));
    assert_eq!(request.protocol(), None);
}

#[test]
fn read_all_gathers_what_was_drained() {
    let request = HttpRequest::new()
        .read(b"GET / HTTP/1.1\r\n")
        .read_all(b"Host: a\r\n")
        .read_all(b"\r\n");
    assert_eq!(request.rest(), &b"Host: a\r\n\r\n"[..]);
    assert_eq!(request.method(), Some(&b"GET"[..]));
}

#[test]
fn sealing_twice_changes_nothing() {
    let request = sealed(b"GET /a").seal();
    assert_eq!(request.path(), Some(&b"/a"[..]));
    assert_eq!(request.protocol(), None);
    assert_eq!(request.head(), &b"GET /a"[..]);
}

#[test]
fn line_is_complete_once_a_line_feed_has_arrived() {
    assert!(!line_complete(b""));
    assert!(!line_complete(b"GET / HTTP/1.1\r"));
    assert!(line_complete(b"GET / HTTP/1.1\r\n"));
    assert!(line_complete(b"\n"));
    assert!(line_complete(b"a\nb"));
}
