use web_vlog::handshake::{
    accept_token, internal_error_response, line_fits, parse_request_line, upgrade_response,
    MAX_LINE_LEN,
};
use web_vlog::{Handshake, HandshakeState};

const PAGE: &[u8] = b"<html><body>viewer</body></html>";

fn handshake_of(lines: &[&str]) -> Handshake {
    let mut h = Handshake::new();
    for line in lines {
        h.feed_line(line);
    }
    h
}

#[test]
fn accept_token_matches_rfc_vector() {
    assert_eq!(accept_token("dGhlIHNhbXBsZSBub25jZQ=="), "s3pPLMBiTxaQ9kYGzzhZRbK+xOo=");
}

#[test]
fn accept_token_depends_on_the_key() {
    assert_eq!(accept_token("x3JJHMbDL1EzLkh9GBhXDw=="), "HSmrc0sMlYUkAGmm5OPpG2HaGWk=");
    assert_eq!(accept_token(""), "Kfh9QIsMVZcl6xEPYxPHzW8SZ8w=");
    assert_ne!(accept_token("a"), accept_token("b"));
    assert_eq!(accept_token("a").len(), 28);
}

#[test]
fn upgrade_response_carries_the_token() {
    assert_eq!(
        upgrade_response("s3pPLMBiTxaQ9kYGzzhZRbK+xOo="),
        "HTTP/1.1 101 Switching Protocols\r\nUpgrade: websocket\r\nConnection: Upgrade\r\nSec-WebSocket-Accept: s3pPLMBiTxaQ9kYGzzhZRbK+xOo=\r\n\r\n"
    );
}

#[test]
fn internal_error_response_carries_the_detail() {
    assert_eq!(
        internal_error_response("broken pipe"),
        "HTTP/1.1 500 INTERNAL SERVER ERROR\r\n\r\nbroken pipe"
    );
}

#[test]
fn request_line_is_split_at_its_first_two_spaces() {
    let parts = parse_request_line("GET /index.html HTTP/1.1");
    assert_eq!(parts.method, "GET");
    assert_eq!(parts.path, "/index.html");
    assert_eq!(parts.version, "HTTP/1.1");
    let parts = parse_request_line("GET /a b HTTP/1.1");
    assert_eq!(parts.method, "GET");
    assert_eq!(parts.path, "/a");
    assert_eq!(parts.version, "b HTTP/1.1");
    let parts = parse_request_line("GET  HTTP/1.1");
    assert_eq!((parts.method.as_str(), parts.path.as_str(), parts.version.as_str()), ("GET", "", "HTTP/1.1"));
}

#[test]
fn request_line_without_spaces_has_empty_parts() {
    let parts = parse_request_line("GET");
    assert_eq!((parts.method.as_str(), parts.path.as_str(), parts.version.as_str()), ("", "", ""));
    let parts = parse_request_line("");
    assert_eq!((parts.method.as_str(), parts.path.as_str(), parts.version.as_str()), ("", "", ""));
    let parts = parse_request_line("GET /");
    assert_eq!((parts.method.as_str(), parts.path.as_str(), parts.version.as_str()), ("GET", "", ""));
}

#[test]
fn new_handshake_awaits_the_request_line() {
    let h = Handshake::new();
    assert_eq!(h.state(), HandshakeState::AwaitingRequestLine);
    assert!(!h.is_finished());
    assert_eq!(h.status(), 0);
    assert!(h.response(PAGE).is_empty());
}

#[test]
fn upgrade_request_is_upgraded() {
    let mut h = Handshake::new();
    h.feed_line("GET / HTTP/1.1\r\n");
    assert_eq!(h.state(), HandshakeState::AwaitingHeaders);
    h.feed_line("Host: localhost\r\n");
    h.feed_line("Sec-WebSocket-Key: dGhlIHNhbXBsZSBub25jZQ==\r\n");
    assert!(!h.is_finished());
    assert!(h.response(PAGE).is_empty());
    h.feed_line("\r\n");
    assert!(h.is_finished());
    assert_eq!(h.state(), HandshakeState::Upgraded);
    assert_eq!(h.status(), 101);
    let expected = "HTTP/1.1 101 Switching Protocols\r\nUpgrade: websocket\r\nConnection: Upgrade\r\nSec-WebSocket-Accept: s3pPLMBiTxaQ9kYGzzhZRbK+xOo=\r\n\r\n";
    assert_eq!(h.response(PAGE), expected.as_bytes().to_vec());
}

#[test]
fn upgrade_is_granted_on_any_path() {
    let h = handshake_of(&["GET /socket HTTP/1.1\r\n", "Sec-WebSocket-Key: abc\r\n", "\r\n"]);
    assert_eq!(h.state(), HandshakeState::Upgraded);
    assert_eq!(h.status(), 101);
}

#[test]
fn plain_request_for_the_root_gets_the_page() {
    let h = handshake_of(&["GET / HTTP/1.1\r\n", "Host: localhost:1234\r\n", "Accept: */*\r\n", "\r\n"]);
    assert_eq!(h.state(), HandshakeState::PlainHttpServed);
    assert_eq!(h.status(), 200);
    let mut expected = b"HTTP/1.1 200 OK\r\n\r\n".to_vec();
    expected.extend_from_slice(PAGE);
    assert_eq!(h.response(PAGE), expected);
}

#[test]
fn page_bytes_are_passed_on_verbatim() {
    let page: Vec<u8> = (0..=255u8).collect();
    let h = handshake_of(&["GET / HTTP/1.1", ""]);
    let response = h.response(&page);
    assert_eq!(&response[..19], b"HTTP/1.1 200 OK\r\n\r\n");
    assert_eq!(&response[19..], page.as_slice());
}

#[test]
fn plain_request_for_another_path_is_not_found() {
    let h = handshake_of(&["GET /favicon.ico HTTP/1.1\r\n", "\r\n"]);
    assert_eq!(h.state(), HandshakeState::Rejected);
    assert_eq!(h.status(), 404);
    assert_eq!(
        h.response(PAGE),
        b"HTTP/1.1 404 NOT FOUND\r\n\r\n<html><body>Path not found</body></html>".to_vec()
    );
}

#[test]
fn other_method_is_a_bad_request() {
    let h = handshake_of(&["POST / HTTP/1.1\r\n", "\r\n"]);
    assert_eq!(h.state(), HandshakeState::Rejected);
    assert_eq!(h.status(), 400);
    assert_eq!(h.response(PAGE), b"HTTP/1.1 400 BAD REQUEST\r\n\r\n".to_vec());
    let h = handshake_of(&["get / HTTP/1.1\r\n", "\r\n"]);
    assert_eq!(h.status(), 400);
}

#[test]
fn other_version_is_a_bad_request() {
    let h = handshake_of(&["GET / HTTP/1.0\r\n", "\r\n"]);
    assert_eq!(h.state(), HandshakeState::Rejected);
    assert_eq!(h.status(), 400);
    let h = handshake_of(&["GET / HTTP/2\r\n", "\r\n"]);
    assert_eq!(h.status(), 400);
}

#[test]
fn bad_request_stays_bad_with_a_key() {
    let h = handshake_of(&["PUT / HTTP/1.1\r\n", "Sec-WebSocket-Key: abc\r\n", "\r\n"]);
    assert_eq!(h.state(), HandshakeState::Rejected);
    assert_eq!(h.status(), 400);
    assert_eq!(h.response(PAGE), b"HTTP/1.1 400 BAD REQUEST\r\n\r\n".to_vec());
}

#[test]
fn empty_first_line_is_a_bad_request() {
    for first in ["\r\n", "", "\n", "   \r\n", "\t"] {
        let h = handshake_of(&[first]);
        assert!(h.is_finished(), "{first:?}");
        assert_eq!(h.state(), HandshakeState::Rejected);
        assert_eq!(h.status(), 400);
        assert_eq!(h.response(PAGE), b"HTTP/1.1 400 BAD REQUEST\r\n\r\n".to_vec());
    }
}

#[test]
fn malformed_request_line_is_a_bad_request() {
    for first in ["GET\r\n", "GET /\r\n", "GET / HTTP/1.1 extra\r\n", " GET / HTTP/1.1\r\n", "GET  / HTTP/1.1\r\n"] {
        let h = handshake_of(&[first, "\r\n"]);
        assert_eq!(h.state(), HandshakeState::Rejected, "{first:?}");
        assert_eq!(h.status(), 400, "{first:?}");
    }
}

#[test]
fn key_header_as_first_line_is_the_request_line() {
    let h = handshake_of(&["Sec-WebSocket-Key: abc\r\n", "\r\n"]);
    assert_eq!(h.state(), HandshakeState::Rejected);
    assert_eq!(h.status(), 400);
}

#[test]
fn key_header_is_matched_exactly() {
    for header in [
        "sec-websocket-key: abc\r\n",
        "Sec-WebSocket-Key:abc\r\n",
        " Sec-WebSocket-Key: abc\r\n",
        "Sec-WebSocket-Key\r\n",
        "Sec-WebSocket-Accept: abc\r\n",
        "X-Sec-WebSocket-Key: abc\r\n",
    ] {
        let h = handshake_of(&["GET / HTTP/1.1\r\n", header, "\r\n"]);
        assert_eq!(h.state(), HandshakeState::PlainHttpServed, "{header:?}");
    }
}

#[test]
fn last_key_header_wins() {
    let h = handshake_of(&[
        "GET / HTTP/1.1\r\n",
        "Sec-WebSocket-Key: first\r\n",
        "Sec-WebSocket-Key: dGhlIHNhbXBsZSBub25jZQ==\r\n",
        "\r\n",
    ]);
    let response = String::from_utf8(h.response(PAGE)).unwrap();
    assert!(response.ends_with("Sec-WebSocket-Accept: s3pPLMBiTxaQ9kYGzzhZRbK+xOo=\r\n\r\n"));
}

#[test]
fn key_is_taken_without_trailing_whitespace_only() {
    let h = handshake_of(&["GET / HTTP/1.1\r\n", "Sec-WebSocket-Key:  k e y \t\r\n", "\r\n"]);
    let response = String::from_utf8(h.response(PAGE)).unwrap();
    let token = accept_token(" k e y");
    assert!(response.ends_with(&format!("Sec-WebSocket-Accept: {token}\r\n\r\n")));
}

#[test]
fn empty_key_still_upgrades() {
    let h = handshake_of(&["GET / HTTP/1.1\r\n", "Sec-WebSocket-Key: \r\n", "\r\n"]);
    // The line is trimmed before it is matched, so the header has lost its space.
    assert_eq!(h.state(), HandshakeState::PlainHttpServed);
    let h = handshake_of(&["GET / HTTP/1.1\r\n", "Sec-WebSocket-Key: x\r\n", "\r\n"]);
    assert_eq!(h.state(), HandshakeState::Upgraded);
}

#[test]
fn end_of_input_ends_the_request_like_an_empty_line() {
    let mut h = handshake_of(&["GET / HTTP/1.1\r\n", "Sec-WebSocket-Key: abc\r\n"]);
    h.end_of_input();
    assert_eq!(h.state(), HandshakeState::Upgraded);
    let mut h = handshake_of(&["GET / HTTP/1.1\r\n"]);
    h.end_of_input();
    assert_eq!(h.state(), HandshakeState::PlainHttpServed);
    let mut h = Handshake::new();
    h.end_of_input();
    assert_eq!(h.state(), HandshakeState::Rejected);
    assert_eq!(h.status(), 400);
}

#[test]
fn finished_handshake_ignores_further_lines() {
    let mut h = handshake_of(&["GET /x HTTP/1.1\r\n", "\r\n"]);
    assert_eq!(h.status(), 404);
    h.feed_line("GET / HTTP/1.1\r\n");
    h.feed_line("Sec-WebSocket-Key: abc\r\n");
    h.feed_line("\r\n");
    assert_eq!(h.state(), HandshakeState::Rejected);
    assert_eq!(h.status(), 404);
}

#[test]
fn lines_may_come_without_their_line_ending() {
    let h = handshake_of(&["GET / HTTP/1.1", "Sec-WebSocket-Key: dGhlIHNhbXBsZSBub25jZQ==", ""]);
    assert_eq!(h.state(), HandshakeState::Upgraded);
    let response = String::from_utf8(h.response(PAGE)).unwrap();
    assert!(response.contains("Sec-WebSocket-Accept: s3pPLMBiTxaQ9kYGzzhZRbK+xOo=\r\n"));
}

#[test]
fn lines_of_any_real_length_fit() {
    assert!(line_fits(""));
    assert!(line_fits("GET / HTTP/1.1\r\n"));
    assert!(line_fits(&"x".repeat(1 << 20)));
    assert_eq!(MAX_LINE_LEN, 1 << 60);
}
