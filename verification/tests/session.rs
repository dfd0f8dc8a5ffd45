use web_vlog::encode::encode;
use web_vlog::{
    Action, Builder, Color, ConnectionManager, Event, Number, Phase, SessionState, Visual,
    VisualRecord,
};

const PAGE: &[u8] = b"<html>viewer</html>";
const UPGRADE: &str = "HTTP/1.1 101 Switching Protocols\r\nUpgrade: websocket\r\nConnection: Upgrade\r\nSec-WebSocket-Accept: s3pPLMBiTxaQ9kYGzzhZRbK+xOo=\r\n\r\n";

fn line(text: &str) -> Event {
    Event::Line(text.to_string())
}

fn same(action: &Action, expected: &Action) -> bool {
    match (action, expected) {
        (Action::Nothing, Action::Nothing)
        | (Action::Accept, Action::Accept)
        | (Action::ReadLine, Action::ReadLine)
        | (Action::AwaitPayload, Action::AwaitPayload)
        | (Action::Poll, Action::Poll)
        | (Action::Detach, Action::Detach) => true,
        (Action::Respond(a), Action::Respond(b))
        | (Action::Upgrade(a), Action::Upgrade(b))
        | (Action::Send(a), Action::Send(b))
        | (Action::Report(a), Action::Report(b)) => a == b,
        _ => false,
    }
}

fn streaming_manager() -> ConnectionManager {
    let mut m = ConnectionManager::new(PAGE.to_vec());
    assert!(same(&m.step(Event::Accepted), &Action::ReadLine));
    assert!(same(&m.step(line("GET / HTTP/1.1\r\n")), &Action::ReadLine));
    assert!(same(
        &m.step(line("Sec-WebSocket-Key: dGhlIHNhbXBsZSBub25jZQ==\r\n")),
        &Action::ReadLine
    ));
    assert!(same(&m.step(line("\r\n")), &Action::Upgrade(UPGRADE.as_bytes().to_vec())));
    assert!(same(&m.step(Event::Completed), &Action::AwaitPayload));
    m
}

#[test]
fn new_manager_listens_with_no_viewer() {
    let m = ConnectionManager::new(PAGE.to_vec());
    assert_eq!(m.phase(), Phase::Listening);
    assert_eq!(m.session_state(), SessionState::Listening);
    assert!(!m.is_attached());
}

#[test]
fn plain_request_is_served_the_page_and_the_next_connection_accepted() {
    let mut m = ConnectionManager::new(PAGE.to_vec());
    assert!(same(&m.step(Event::Accepted), &Action::ReadLine));
    assert_eq!(m.phase(), Phase::Handshaking);
    assert_eq!(m.session_state(), SessionState::Listening);
    assert!(same(&m.step(line("GET / HTTP/1.1\r\n")), &Action::ReadLine));
    let mut expected = b"HTTP/1.1 200 OK\r\n\r\n".to_vec();
    expected.extend_from_slice(PAGE);
    assert!(same(&m.step(line("\r\n")), &Action::Respond(expected)));
    assert_eq!(m.session_state(), SessionState::PlainServed);
    assert!(!m.is_attached());
    assert!(same(&m.step(Event::Completed), &Action::Accept));
    assert_eq!(m.session_state(), SessionState::Listening);
}

#[test]
fn unknown_path_and_bad_request_are_rejected() {
    let mut m = ConnectionManager::new(PAGE.to_vec());
    m.step(Event::Accepted);
    m.step(line("GET /nowhere HTTP/1.1\r\n"));
    let action = m.step(Event::EndOfInput);
    assert!(same(
        &action,
        &Action::Respond(
            b"HTTP/1.1 404 NOT FOUND\r\n\r\n<html><body>Path not found</body></html>".to_vec()
        )
    ));
    assert_eq!(m.session_state(), SessionState::Rejected);
    assert!(same(&m.step(Event::Completed), &Action::Accept));
    m.step(Event::Accepted);
    let action = m.step(line("DELETE / HTTP/1.1\r\n"));
    assert!(same(&action, &Action::ReadLine));
    let action = m.step(line("\r\n"));
    assert!(same(&action, &Action::Respond(b"HTTP/1.1 400 BAD REQUEST\r\n\r\n".to_vec())));
    assert_eq!(m.session_state(), SessionState::Rejected);
}

#[test]
fn connection_that_says_nothing_is_rejected() {
    let mut m = ConnectionManager::new(PAGE.to_vec());
    m.step(Event::Accepted);
    let action = m.step(Event::EndOfInput);
    assert!(same(&action, &Action::Respond(b"HTTP/1.1 400 BAD REQUEST\r\n\r\n".to_vec())));
}

#[test]
fn upgrade_attaches_the_viewer_and_awaits_events() {
    let m = streaming_manager();
    assert_eq!(m.phase(), Phase::Idle);
    assert_eq!(m.session_state(), SessionState::Streaming);
    assert!(m.is_attached());
}

#[test]
fn viewer_is_attached_before_the_upgrade_response_is_written() {
    let mut m = ConnectionManager::new(PAGE.to_vec());
    m.step(Event::Accepted);
    m.step(line("GET / HTTP/1.1\r\n"));
    m.step(line("Sec-WebSocket-Key: dGhlIHNhbXBsZSBub25jZQ==\r\n"));
    assert!(!m.is_attached());
    let action = m.step(line("\r\n"));
    assert!(same(&action, &Action::Upgrade(UPGRADE.as_bytes().to_vec())));
    assert!(m.is_attached());
    assert_eq!(m.phase(), Phase::Upgrading);
    assert_eq!(m.session_state(), SessionState::Streaming);
}

#[test]
fn logged_message_reaches_the_viewer_as_one_text_frame() {
    let mut builder = Builder::new();
    builder.add_target("x");
    let logger = builder.logger("/work");
    let record = VisualRecord {
        target: "x".to_string(),
        surface: "main".to_string(),
        text: "say \"hi\"".to_string(),
        color: Color::Base,
        visual: Visual::Message,
        size: Number::parse("12").unwrap(),
        file: None,
        line: None,
    };
    let event = logger.vlog(&record).unwrap();
    let mut m = streaming_manager();
    assert!(same(&m.step(Event::Payload(event.clone())), &Action::Poll));
    let frame = match m.step(Event::Quiet) {
        Action::Send(frame) => frame,
        _ => panic!("a frame is due"),
    };
    assert_eq!(frame[0], 0x81);
    assert_eq!(frame[1] as usize, event.len());
    let payload = String::from_utf8(frame[2..].to_vec()).unwrap();
    assert_eq!(payload, encode("/work", &record));
    assert!(payload.starts_with("{\"msg\":\"say \\\"hi\\\"\","));
    assert!(same(&m.step(Event::Completed), &Action::AwaitPayload));
    assert_eq!(m.phase(), Phase::Idle);
}

#[test]
fn frames_are_asked_for_in_the_order_of_the_events() {
    let mut m = streaming_manager();
    for i in 0..50 {
        let payload = format!("{{\"msg\":\"{i}\"}}");
        assert!(same(&m.step(Event::Payload(payload.clone())), &Action::Poll));
        let mut expected = vec![0x81, payload.len() as u8];
        expected.extend_from_slice(payload.as_bytes());
        assert!(same(&m.step(Event::Quiet), &Action::Send(expected)));
        assert!(same(&m.step(Event::Completed), &Action::AwaitPayload));
    }
}

#[test]
fn viewer_is_polled_until_it_is_quiet() {
    let mut m = streaming_manager();
    m.step(Event::Payload("p".to_string()));
    assert!(same(&m.step(Event::Inbound(vec![0x81, 1, 2])), &Action::Poll));
    assert!(same(&m.step(Event::Inbound(vec![0x89, 0])), &Action::Poll));
    assert_eq!(m.phase(), Phase::Polling);
    assert!(m.is_attached());
    assert!(same(&m.step(Event::Quiet), &Action::Send(vec![0x81, 1, b'p'])));
}

#[test]
fn close_frame_ends_the_session_and_detaches_the_viewer() {
    let mut m = streaming_manager();
    m.step(Event::Payload("p".to_string()));
    assert!(same(&m.step(Event::Inbound(vec![0x88, 0x80, 0, 0, 0, 0])), &Action::Detach));
    assert!(!m.is_attached());
    assert_eq!(m.session_state(), SessionState::Closed);
    assert!(same(&m.step(Event::Completed), &Action::Accept));
    assert_eq!(m.session_state(), SessionState::Listening);
    assert!(!m.is_attached());
    // Only a new upgrade attaches a viewer again.
    m.step(Event::Accepted);
    m.step(line("GET / HTTP/1.1\r\n"));
    assert!(!m.is_attached());
    m.step(line("\r\n"));
    assert!(!m.is_attached());
    m.step(Event::Completed);
    m.step(Event::Accepted);
    m.step(line("GET / HTTP/1.1\r\n"));
    m.step(line("Sec-WebSocket-Key: k\r\n"));
    m.step(line("\r\n"));
    assert!(m.is_attached());
}

#[test]
fn end_of_stream_ends_the_session() {
    let mut m = streaming_manager();
    m.step(Event::Payload("p".to_string()));
    assert!(same(&m.step(Event::Inbound(vec![])), &Action::Detach));
    assert!(!m.is_attached());
    assert!(same(&m.step(Event::Completed), &Action::Accept));
}

#[test]
fn event_at_hand_is_dropped_when_the_viewer_leaves() {
    let mut m = streaming_manager();
    m.step(Event::Payload("lost".to_string()));
    m.step(Event::Inbound(vec![0x88]));
    m.step(Event::Completed);
    assert!(same(&m.step(Event::Quiet), &Action::Nothing));
    m.step(Event::Accepted);
    m.step(line("GET / HTTP/1.1\r\n"));
    m.step(line("Sec-WebSocket-Key: k\r\n"));
    m.step(line("\r\n"));
    m.step(Event::Completed);
    m.step(Event::Payload("kept".to_string()));
    assert!(same(&m.step(Event::Quiet), &Action::Send(vec![0x81, 4, b'k', b'e', b'p', b't'])));
}

#[test]
fn second_connection_does_not_disturb_a_streaming_session() {
    let mut m = streaming_manager();
    assert!(same(&m.step(Event::Accepted), &Action::Nothing));
    assert_eq!(m.phase(), Phase::Idle);
    m.step(Event::Payload("p".to_string()));
    assert!(same(&m.step(Event::Accepted), &Action::Nothing));
    assert!(same(&m.step(line("GET / HTTP/1.1\r\n")), &Action::Nothing));
    assert_eq!(m.phase(), Phase::Polling);
    assert!(m.is_attached());
    assert!(same(&m.step(Event::Quiet), &Action::Send(vec![0x81, 1, b'p'])));
    assert!(same(&m.step(Event::Accepted), &Action::Nothing));
    assert_eq!(m.phase(), Phase::Sending);
    assert!(same(&m.step(Event::Completed), &Action::AwaitPayload));
}

#[test]
fn failed_write_is_reported_and_the_next_connection_accepted() {
    let mut m = streaming_manager();
    m.step(Event::Payload("p".to_string()));
    m.step(Event::Quiet);
    let action = m.step(Event::Failed("broken pipe".to_string()));
    assert!(same(
        &action,
        &Action::Report(b"HTTP/1.1 500 INTERNAL SERVER ERROR\r\n\r\nbroken pipe".to_vec())
    ));
    assert_eq!(m.session_state(), SessionState::Closed);
    assert!(m.is_attached());
    assert!(same(&m.step(Event::Failed("again".to_string())), &Action::Accept));
    assert_eq!(m.phase(), Phase::Listening);
}

#[test]
fn failed_response_is_reported() {
    let mut m = ConnectionManager::new(PAGE.to_vec());
    m.step(Event::Accepted);
    m.step(line("GET / HTTP/1.1\r\n"));
    m.step(line("\r\n"));
    let action = m.step(Event::Failed("reset".to_string()));
    assert!(same(
        &action,
        &Action::Report(b"HTTP/1.1 500 INTERNAL SERVER ERROR\r\n\r\nreset".to_vec())
    ));
    assert!(same(&m.step(Event::Completed), &Action::Accept));
}

#[test]
fn closed_channel_gives_the_connection_up() {
    let mut m = streaming_manager();
    assert!(same(&m.step(Event::ChannelClosed), &Action::Accept));
    assert_eq!(m.phase(), Phase::Listening);
}

#[test]
fn events_that_are_not_awaited_change_nothing() {
    let mut m = ConnectionManager::new(PAGE.to_vec());
    assert!(same(&m.step(Event::Completed), &Action::Nothing));
    assert!(same(&m.step(Event::Quiet), &Action::Nothing));
    assert!(same(&m.step(Event::Payload("p".to_string())), &Action::Nothing));
    assert!(same(&m.step(Event::Inbound(vec![0x88])), &Action::Nothing));
    assert!(same(&m.step(Event::EndOfInput), &Action::Nothing));
    assert_eq!(m.phase(), Phase::Listening);
    assert!(!m.is_attached());
}
