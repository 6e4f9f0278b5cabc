use backflow::error::AppError;
use backflow::feedback::FeedbackEventPacket;
use backflow::input::io_server::{
    ClientControlMessage, ClientSettings, IoEventServer, IoInboundMessage, IoOutboundMessage,
};
use backflow::input::transport::{
    handle_line, handle_websocket_message, is_write_only, line_client, line_texts, message_line,
    streams_reply, unix_client_id, websocket_client, Action, Frame, LineTransport, ParsedText,
};
use backflow::input::unix_socket::{ConnectionEvent, UnixSocketServer};
use backflow::input::web::{LayoutEntry, WebServer, WebTemplateResponse};
use backflow::input::{
    after_receive, InputEvent, InputEventPacket, KeyboardEvent, NextStep, PointerEvent, Received,
};

fn nothing() -> ParsedText {
    ParsedText { kind: None, control: None, input: None, feedback: None }
}

fn command(msg: ClientControlMessage) -> ParsedText {
    ParsedText { kind: Some("control".to_string()), control: Some(msg), ..nothing() }
}

fn sample_packet() -> InputEventPacket {
    let mut packet = InputEventPacket::new("test-device".to_string(), 12);
    packet.add_event(InputEvent::Keyboard(KeyboardEvent::KeyPress { key: "a".to_string() }));
    packet.add_event(InputEvent::Pointer(PointerEvent::Move { x_delta: 10, y_delta: -5 }));
    packet.add_event(InputEvent::Keyboard(KeyboardEvent::KeyRelease { key: "a".to_string() }));
    packet
}

fn feedback_packet() -> FeedbackEventPacket {
    FeedbackEventPacket { device_id: "led".to_string(), timestamp: 1, events: Vec::new() }
}

fn parse_error(action: Action) -> String {
    match action {
        Action::Reject(AppError::Parse(text)) => text,
        other => panic!("expected a parse error, got {other:?}"),
    }
}

#[test]
fn lines_to_read() {
    assert!(line_texts(LineTransport::UnixSocket, " \t ").is_none());
    assert!(line_texts(LineTransport::Stdio, "").is_none());
    let texts = line_texts(LineTransport::UnixSocket, "  {} \r").unwrap();
    assert_eq!(texts.control, "{}");
    assert_eq!(texts.packet, "  {} \r");
    let texts = line_texts(LineTransport::Stdio, "  {} \r").unwrap();
    assert_eq!(texts.control, "  {}");
    assert_eq!(texts.packet, "  {}");
}

#[test]
fn messages_are_lines() {
    assert_eq!(message_line("{\"a\":1}"), "{\"a\":1}\n");
    let written = message_line("[1]") + &message_line("[2]");
    assert_eq!(written.lines().collect::<Vec<_>>(), vec!["[1]", "[2]"]);
    assert_eq!(written.split('\n').collect::<Vec<_>>(), vec!["[1]", "[2]", ""]);
}

#[test]
fn a_series_of_lines_keeps_its_order() {
    let mut forwarded: Vec<u64> = Vec::new();
    for ts in [3, 1, 2] {
        for parsed in [
            nothing(),
            ParsedText {
                input: Some(InputEventPacket::new("d".to_string(), ts)),
                ..nothing()
            },
            command(ClientControlMessage::ListStreams),
        ] {
            let action = handle_line(LineTransport::UnixSocket, "c".to_string(), parsed);
            if let Action::Forward(IoInboundMessage::Input { client_id, packet }) = action {
                assert_eq!(client_id, "c");
                forwarded.push(packet.timestamp);
            }
        }
    }
    assert_eq!(forwarded, vec![3, 1, 2]);
}

#[test]
fn connections_serve_their_client_in_order() {
    assert_eq!(UnixSocketServer::new("/run/backflow".to_string()).socket_path, "/run/backflow");
    let client = UnixSocketServer::client(17);
    assert_eq!(client.id, "unix_socket_17");
    assert_eq!(client.client_settings, ClientSettings::default());

    let line = |ts: u64| {
        ConnectionEvent::Line(ParsedText {
            input: Some(InputEventPacket::new("d".to_string(), ts)),
            ..nothing()
        })
    };
    let mut sent = String::new();
    let mut forwarded: Vec<u64> = Vec::new();
    for event in [
        line(2),
        ConnectionEvent::Queued("[1]".to_string()),
        line(1),
        ConnectionEvent::Line(command(ClientControlMessage::ListStreams)),
        ConnectionEvent::Queued("[2]".to_string()),
    ] {
        match UnixSocketServer::handle_client(client.id.clone(), event) {
            Action::Forward(IoInboundMessage::Input { client_id, packet }) => {
                assert_eq!(client_id, client.id);
                forwarded.push(packet.timestamp);
            }
            Action::Reply(text) => sent.push_str(&text),
            Action::Nothing => {}
            other => panic!("unexpected action {other:?}"),
        }
    }
    assert_eq!(forwarded, vec![2, 1]);
    assert_eq!(sent, "[1]\n[2]\n");
    let bad = UnixSocketServer::handle_client(client.id, ConnectionEvent::Line(nothing()));
    assert_eq!(
        parse_error(bad),
        "Message was not a valid InputEventPacket, FeedbackEventPacket, or control envelope"
    );
}

#[test]
fn names_are_escaped() {
    let names = vec!["\u{8}\t\n\u{c}\r".to_string(), "\u{0}\u{1f}\u{1a}".to_string()];
    assert_eq!(
        streams_reply(&names),
        "{\"streams\":[\"\\b\\t\\n\\f\\r\",\"\\u0000\\u001f\\u001a\"],\"type\":\"streams\"}"
    );
    let names = vec!["a/\\\"\u{7f}\u{e9}\u{1f600}".to_string()];
    assert_eq!(
        streams_reply(&names),
        "{\"streams\":[\"a/\\\\\\\"\u{7f}\u{e9}\u{1f600}\"],\"type\":\"streams\"}"
    );
}

#[test]
fn lines_are_tried_in_order() {
    let id = || "c".to_string();
    let mut parsed = command(ClientControlMessage::StopInput);
    parsed.input = Some(sample_packet());
    match handle_line(LineTransport::Stdio, id(), parsed) {
        Action::Forward(IoInboundMessage::Control { client_id, msg }) => {
            assert_eq!(client_id, "c");
            assert_eq!(msg, ClientControlMessage::StopInput);
        }
        other => panic!("expected a control message, got {other:?}"),
    }

    let parsed = ParsedText {
        kind: Some("input".to_string()),
        input: Some(sample_packet()),
        feedback: Some(feedback_packet()),
        ..nothing()
    };
    match handle_line(LineTransport::UnixSocket, id(), parsed) {
        Action::Forward(IoInboundMessage::Input { client_id, packet }) => {
            assert_eq!(client_id, "c");
            assert_eq!(packet, sample_packet());
        }
        other => panic!("expected an input packet, got {other:?}"),
    }

    let parsed = ParsedText { feedback: Some(feedback_packet()), ..nothing() };
    match handle_line(LineTransport::UnixSocket, id(), parsed) {
        Action::Forward(IoInboundMessage::Feedback { packet, .. }) => {
            assert_eq!(packet, feedback_packet())
        }
        other => panic!("expected a feedback packet, got {other:?}"),
    }
    let listed = handle_line(
        LineTransport::UnixSocket,
        id(),
        command(ClientControlMessage::ListStreams),
    );
    assert!(matches!(listed, Action::Nothing));
}

#[test]
fn lines_that_cannot_be_read() {
    let id = || "c".to_string();
    let bad = ParsedText { kind: Some("control".to_string()), ..nothing() };
    assert_eq!(
        parse_error(handle_line(LineTransport::Stdio, id(), bad)),
        "Failed to parse control command"
    );
    assert_eq!(
        parse_error(handle_line(LineTransport::UnixSocket, id(), nothing())),
        "Message was not a valid InputEventPacket, FeedbackEventPacket, or control envelope"
    );
    assert_eq!(
        parse_error(handle_line(LineTransport::Stdio, id(), nothing())),
        "Message was not a valid InputEventPacket or FeedbackEventPacket"
    );
}

#[test]
fn frames() {
    let streams = vec!["foo".to_string(), "u\"1".to_string()];
    let act = |frame: Frame| handle_websocket_message("c".to_string(), frame, &streams);
    assert!(matches!(act(Frame::Binary), Action::Nothing));
    assert!(matches!(act(Frame::Ping), Action::Pong));
    assert!(matches!(act(Frame::Pong), Action::Nothing));
    assert!(matches!(act(Frame::Close), Action::Close));
    assert!(matches!(act(Frame::Failed), Action::Close));
    assert!(matches!(act(Frame::Text(nothing())), Action::Nothing));

    let bad = ParsedText { kind: Some("control".to_string()), ..nothing() };
    assert_eq!(parse_error(act(Frame::Text(bad))), "Failed to parse control command");

    match act(Frame::Text(command(ClientControlMessage::ListStreams))) {
        Action::Reply(text) => {
            assert_eq!(text, "{\"streams\":[\"foo\",\"u\\\"1\"],\"type\":\"streams\"}")
        }
        other => panic!("expected a reply, got {other:?}"),
    }
    let update = ClientControlMessage::UpdateStreamRegistration { streams: streams.clone() };
    assert!(matches!(
        act(Frame::Text(command(update))),
        Action::Forward(IoInboundMessage::Control { .. })
    ));
    let input = ParsedText { input: Some(sample_packet()), ..nothing() };
    assert!(matches!(
        act(Frame::Text(input)),
        Action::Forward(IoInboundMessage::Input { .. })
    ));
    let feedback = ParsedText { feedback: Some(feedback_packet()), ..nothing() };
    assert!(matches!(
        act(Frame::Text(feedback)),
        Action::Forward(IoInboundMessage::Feedback { .. })
    ));
    assert_eq!(streams_reply(&Vec::new()), "{\"streams\":[],\"type\":\"streams\"}");
}

#[test]
fn write_only_connections() {
    assert!(is_write_only(Some("true"), None));
    assert!(is_write_only(Some("no"), Some("YES")));
    assert!(is_write_only(None, Some("1")));
    assert!(!is_write_only(None, None));
    assert!(!is_write_only(Some("on"), Some("2")));

    let client = websocket_client("addr".to_string(), true);
    assert_eq!(client.id, "addr");
    assert_eq!(
        client.client_settings,
        ClientSettings { write_only: true, ..Default::default() }
    );
    assert_eq!(line_client("x".to_string()).client_settings, ClientSettings::default());
    assert_eq!(unix_client_id(4021), "unix_socket_4021");
}

#[test]
fn a_receiver_that_fell_behind_tries_once_more() {
    assert!(matches!(after_receive(false, Received::Lagged), NextStep::Again));
    assert!(matches!(after_receive(true, Received::Lagged), NextStep::Done(None)));
    assert!(matches!(after_receive(false, Received::Closed), NextStep::Done(None)));
    match after_receive(true, Received::Packet(sample_packet())) {
        NextStep::Done(Some(packet)) => assert_eq!(packet, sample_packet()),
        other => panic!("expected the packet, got {other:?}"),
    }
}

#[test]
fn test_websocket_stress_large_batches() {
    let mut server = IoEventServer::new();
    server.register_client(websocket_client("peer".to_string(), false));

    const NUM_KEYS: usize = 2500;
    let mut key_events: Vec<InputEvent> = Vec::new();
    for i in 0..NUM_KEYS {
        let key = format!("STRESS_KEY_{i}");
        key_events.push(InputEvent::Keyboard(KeyboardEvent::KeyPress { key: key.clone() }));
        key_events.push(InputEvent::Keyboard(KeyboardEvent::KeyRelease { key }));
    }

    let mut received: Vec<InputEvent> = Vec::new();
    for (idx, chunk) in key_events.chunks(50).enumerate() {
        let packet = InputEventPacket {
            device_id: "stress_test_device".to_string(),
            timestamp: 1000 + idx as u64,
            events: chunk.to_vec(),
        };
        let parsed = ParsedText { input: Some(packet), ..nothing() };
        let action =
            handle_websocket_message("peer".to_string(), Frame::Text(parsed), &Vec::new());
        match action {
            Action::Forward(msg) => match server.handle(msg).outbound {
                Some(IoOutboundMessage::Input(p)) => {
                    assert_eq!(p.device_id, "stress_test_device");
                    received.extend(p.events);
                }
                other => panic!("expected an input packet, got {other:?}"),
            },
            other => panic!("expected a forwarded packet, got {other:?}"),
        }
    }
    assert_eq!(received, key_events);
}

fn entry(name: &str, is_dir: bool, files: &[&str]) -> LayoutEntry {
    LayoutEntry {
        name: Some(name.to_string()),
        is_dir,
        files: files.iter().map(|f| Some(f.to_string())).collect(),
    }
}

#[test]
fn test_api_layouts_endpoint() {
    let server = WebServer {
        bind_addr: "127.0.0.1:0".to_string(),
        web_assets_path: Some("/tmp/backflow_test_layouts".to_string()),
    };
    let entries = vec![
        entry("chuni", true, &["chuni.html"]),
        entry("keyboard", true, &["keys.html"]),
    ];
    let mut sorted_layouts = server.list_custom_layouts(&entries);
    assert_eq!(sorted_layouts.len(), 2);
    sorted_layouts.sort_by(|a, b| a.name.cmp(&b.name));
    assert_eq!(sorted_layouts[0].name, "chuni");
    assert_eq!(sorted_layouts[0].path, "custom/chuni/chuni.html");
    assert_eq!(sorted_layouts[1].name, "keyboard");
    assert_eq!(sorted_layouts[1].path, "custom/keyboard/keys.html");
}

#[test]
fn layouts_that_do_not_count() {
    let server = WebServer { bind_addr: String::new(), web_assets_path: Some(".".to_string()) };
    let mut odd = entry("odd", true, &["style.css", ".html", "b.html", "a.html"]);
    odd.files.insert(0, None);
    let entries = vec![
        entry("file.html", false, &["x.html"]),
        entry("empty", true, &[]),
        LayoutEntry { name: None, is_dir: true, files: vec![Some("x.html".to_string())] },
        odd,
    ];
    assert_eq!(
        server.list_custom_layouts(&entries),
        vec![WebTemplateResponse {
            path: "custom/odd/b.html".to_string(),
            name: "odd".to_string()
        }]
    );
    let server = WebServer { bind_addr: String::new(), web_assets_path: None };
    assert!(server.list_custom_layouts(&entries).is_empty());
}
