use std::sync::Arc;

use backflow::config::AppConfig;
use backflow::error::{AppError, ClientFacingError};
use backflow::feedback::{FeedbackEvent, FeedbackEventPacket, LedEvent, LedPattern};
use backflow::input::atomic::AtomicInputProcessor;
use backflow::input::io_server::{
    ClientControlMessage, ClientNode, ClientSettings, Delivery, Handled, IoClientMessage,
    IoEventServer, IoInboundMessage, IoOutboundMessage, Topic,
};
use backflow::input::{InputEvent, InputEventPacket, KeyboardEvent};

fn make_input_packet(device: &str, ts: u64) -> InputEventPacket {
    InputEventPacket {
        device_id: device.to_string(),
        timestamp: ts,
        events: vec![InputEvent::Keyboard(KeyboardEvent::KeyPress { key: "KEY_A".into() })],
    }
}

fn make_feedback_packet(device: &str, ts: u64) -> FeedbackEventPacket {
    FeedbackEventPacket {
        device_id: device.to_string(),
        timestamp: ts,
        events: vec![FeedbackEvent::Led(LedEvent::SetPattern {
            led_id: 1,
            pattern: LedPattern::Solid,
        })],
    }
}

fn client(id: &str, client_settings: ClientSettings) -> ClientNode {
    ClientNode { id: id.to_string(), client_settings }
}

fn list(names: &[&str]) -> Vec<String> {
    names.iter().map(|s| s.to_string()).collect()
}

fn receivers(deliveries: &Vec<Delivery>) -> Vec<String> {
    let mut r: Vec<String> = deliveries.iter().map(|d| d.client_id.clone()).collect();
    r.sort();
    r
}

fn control(server: &mut IoEventServer, id: &str, msg: ClientControlMessage) -> Handled {
    server.handle(IoInboundMessage::Control { client_id: id.to_string(), msg })
}

#[test]
fn test_client_registration_and_error_delivery() {
    let mut server = IoEventServer::new();
    server.register_client(client("client1", ClientSettings::default()));
    assert_eq!(server.client_count(), 1);

    let delivery = server
        .send_app_error("client1", AppError::Internal("Something went wrong".into()))
        .unwrap();
    assert_eq!(delivery.client_id, "client1");
    match delivery.message {
        IoClientMessage::Error(err) => {
            assert_eq!(err.code, "internal_error");
            assert_eq!(err.message, "internal error: Something went wrong");
            assert_eq!(err.raw, None);
        }
        _ => panic!("expected error message"),
    }
}

#[test]
fn test_input_packet_flow() {
    let mut server = IoEventServer::new();
    server.register_client(client("producer", ClientSettings::default()));
    let handled = server.handle(IoInboundMessage::Input {
        client_id: "producer".into(),
        packet: make_input_packet("dev1", 10),
    });
    match handled.outbound {
        Some(IoOutboundMessage::Input(pkt)) => {
            assert_eq!(pkt.device_id, "dev1");
            assert_eq!(pkt.events.len(), 1);
            assert_eq!(pkt.timestamp, 10);
        }
        _ => panic!("expected input outbound packet"),
    }
    assert!(handled.deliveries.is_empty());
}

#[test]
fn test_out_of_order_dropped() {
    let mut server = IoEventServer::new();
    server.register_client(client("producer", ClientSettings::default()));
    let first = server.handle(IoInboundMessage::Input {
        client_id: "producer".into(),
        packet: make_input_packet("devX", 200),
    });
    match first.outbound {
        Some(IoOutboundMessage::Input(pkt)) => assert_eq!(pkt.timestamp, 200),
        _ => panic!("expected input packet"),
    }
    let second = server.handle(IoInboundMessage::Input {
        client_id: "producer".into(),
        packet: make_input_packet("devX", 100),
    });
    assert!(
        second.outbound.is_none(),
        "unexpected second packet emitted for out-of-order input"
    );
}

#[test]
fn test_feedback_broadcast_and_filters() {
    let mut server = IoEventServer::new();
    server.register_client(client("producer", ClientSettings::default()));
    server.register_client(client("listener_default", ClientSettings::default()));
    server.register_client(client(
        "listener_writeonly",
        ClientSettings { write_only: true, ..Default::default() },
    ));
    server.register_client(client(
        "listener_mismatch",
        ClientSettings {
            feedback_listener_device_ids: vec!["other_device".into()],
            ..Default::default()
        },
    ));
    server.register_client(client(
        "listener_match",
        ClientSettings {
            feedback_listener_device_ids: vec!["leddev".into()],
            ..Default::default()
        },
    ));

    let handled = server.handle(IoInboundMessage::Feedback {
        client_id: "producer".into(),
        packet: make_feedback_packet("leddev", 1),
    });
    for delivery in &handled.deliveries {
        match &delivery.message {
            IoClientMessage::Feedback(pkt) => assert_eq!(pkt.device_id, "leddev"),
            other => panic!("expected feedback, got {other:?}"),
        }
    }
    assert_eq!(
        receivers(&handled.deliveries),
        list(&["listener_default", "listener_match", "producer"])
    );
    match handled.outbound {
        Some(IoOutboundMessage::Feedback(pkt)) => {
            assert_eq!(pkt, make_feedback_packet("leddev", 1))
        }
        _ => panic!("expected feedback for the routing"),
    }
}

#[test]
fn test_device_input_broadcast_precedence() {
    let mut server = IoEventServer::new();
    server.register_client(client(
        "dev_listener",
        ClientSettings { input_listener_device_ids: vec!["devZ".into()], ..Default::default() },
    ));
    server.register_client(client("empty", ClientSettings::default()));
    server.register_client(client(
        "stream_sub",
        ClientSettings { registered_stream_ids: vec!["uinput".into()], ..Default::default() },
    ));

    let pkt = InputEventPacket { device_id: "devZ".into(), timestamp: 1, events: vec![] };
    let deliveries = server.broadcast_device_input(&pkt);
    assert_eq!(receivers(&deliveries), list(&["dev_listener"]));
    match &deliveries[0].message {
        IoClientMessage::Input(p) => assert_eq!(p.device_id, "devZ"),
        other => panic!("expected input for A got {other:?}"),
    }
    assert_eq!(
        receivers(&server.broadcast_stream_input("uinput", &pkt)),
        list(&["stream_sub"])
    );
    assert!(server.broadcast_stream_input("chuniio", &pkt).is_empty());
}

#[test]
fn test_device_input_requires_opt_in() {
    let mut server = IoEventServer::new();
    server.register_client(client(
        "listener",
        ClientSettings { input_listener_device_ids: vec!["devA".into()], ..Default::default() },
    ));
    server.register_client(client("default", ClientSettings::default()));

    let pkt = InputEventPacket { device_id: "devA".into(), timestamp: 1, events: vec![] };
    let deliveries = server.broadcast_device_input(&pkt);
    assert_eq!(receivers(&deliveries), list(&["listener"]));
    assert!(
        matches!(deliveries[0].message, IoClientMessage::Input(_)),
        "expected Input message"
    );
}

#[test]
fn test_get_config_control_message() {
    let mut cfg = AppConfig::default();
    cfg.output.uinput.enabled = false;
    let mut server = IoEventServer::with_config(Arc::new(cfg));
    server.register_client(client("client_cfg", ClientSettings::default()));

    let handled = control(&mut server, "client_cfg", ClientControlMessage::GetConfig);
    assert_eq!(handled.deliveries.len(), 1);
    match &handled.deliveries[0].message {
        IoClientMessage::Config(received) => {
            assert_eq!(received.output.uinput.enabled, false);
        }
        other => panic!("expected Config message, got {other:?}"),
    }
}

#[test]
fn sources_do_not_hold_each_other_up() {
    let mut server = IoEventServer::new();
    for (client_id, device, ts, passes) in [
        ("a", "dev", 200, true),
        ("b", "dev", 100, true),
        ("a", "other", 50, true),
        ("a", "dev", 200, true),
        ("a", "dev", 199, false),
        ("a", "dev", 300, true),
        ("b", "dev", 99, false),
    ] {
        let handled = server.handle(IoInboundMessage::Input {
            client_id: client_id.to_string(),
            packet: make_input_packet(device, ts),
        });
        assert_eq!(handled.outbound.is_some(), passes, "{client_id} {device} {ts}");
    }
    let mut processor = AtomicInputProcessor::new();
    assert!(processor.process_packet(make_input_packet("d", 5)).is_some());
    assert!(processor.process_packet(make_input_packet("d", 4)).is_none());
}

#[test]
fn devices_keep_their_names() {
    let mut server = IoEventServer::new();
    for (client_id, device) in [("c", "dev"), ("c@d", "dev"), ("", "dev@home"), ("@", "@")] {
        let handled = server.handle(IoInboundMessage::Input {
            client_id: client_id.to_string(),
            packet: make_input_packet(device, 1),
        });
        match handled.outbound {
            Some(IoOutboundMessage::Input(p)) => assert_eq!(p, make_input_packet(device, 1)),
            _ => panic!("expected input packet"),
        }
    }
}

#[test]
fn write_only_clients_get_no_feedback_or_streams() {
    let mut server = IoEventServer::new();
    server.register_client(client(
        "w",
        ClientSettings {
            feedback_listener_device_ids: list(&["dev"]),
            input_listener_device_ids: list(&["dev"]),
            registered_stream_ids: list(&["uinput"]),
            write_only: true,
        },
    ));
    let packet = make_input_packet("dev", 1);
    assert!(server.broadcast_stream_input("uinput", &packet).is_empty());
    assert!(server.broadcast_device_input(&packet).is_empty());
    let handled = server.handle_feedback_packet(make_feedback_packet("dev", 1));
    assert!(handled.deliveries.is_empty());
}

#[test]
fn device_input_goes_on_without_feedback() {
    let mut server = IoEventServer::new();
    server.register_client(client(
        "listener",
        ClientSettings { input_listener_device_ids: list(&["dev"]), ..Default::default() },
    ));
    control(&mut server, "listener", ClientControlMessage::StopFeedback);
    server.register_client(client(
        "writer",
        ClientSettings {
            input_listener_device_ids: list(&["dev"]),
            write_only: true,
            ..Default::default()
        },
    ));
    let deliveries = server.broadcast_device_input(&make_input_packet("dev", 1));
    assert_eq!(receivers(&deliveries), list(&["listener", "writer"]));
    let handled = server.handle_feedback_packet(make_feedback_packet("dev", 1));
    assert!(handled.deliveries.is_empty());
}

#[test]
fn feedback_can_be_stopped_and_asked_for_again() {
    let mut server = IoEventServer::new();
    server.register_client(client("c", ClientSettings::default()));
    let handled = control(&mut server, "c", ClientControlMessage::StopFeedback);
    match &handled.deliveries[0].message {
        IoClientMessage::ControlAck(ack) => {
            assert_eq!(ack.cmd, "stop_feedback");
            assert_eq!(ack.devices, None);
            assert_eq!(ack.registered_streams, None);
        }
        other => panic!("expected an acknowledgement, got {other:?}"),
    }
    let packet = make_feedback_packet("led", 1);
    assert!(server.handle_feedback_packet(packet.clone()).deliveries.is_empty());
    control(
        &mut server,
        "c",
        ClientControlMessage::UpdateStreamRegistration { streams: list(&["uinput"]) },
    );
    let input = make_input_packet("dev", 1);
    assert!(server.broadcast_stream_input("uinput", &input).is_empty());

    let handled = control(
        &mut server,
        "c",
        ClientControlMessage::UpdateFeedbackDIDFilter { devices: list(&["led"]) },
    );
    match &handled.deliveries[0].message {
        IoClientMessage::ControlAck(ack) => {
            assert_eq!(ack.cmd, "update_feedback_did_filter");
            assert_eq!(ack.devices, Some(list(&["led"])));
        }
        other => panic!("expected an acknowledgement, got {other:?}"),
    }
    assert_eq!(server.handle_feedback_packet(packet).deliveries.len(), 1);
    assert_eq!(server.broadcast_stream_input("uinput", &input).len(), 1);
    let other = server.handle_feedback_packet(make_feedback_packet("other", 1));
    assert!(other.deliveries.is_empty());
}

#[test]
fn input_can_be_asked_for_and_stopped() {
    let mut server = IoEventServer::new();
    server.register_client(client("c", ClientSettings::default()));
    let packet = make_input_packet("dev", 1);
    assert!(server.broadcast_device_input(&packet).is_empty());

    let handled = control(
        &mut server,
        "c",
        ClientControlMessage::UpdateInputDIDFilter { devices: list(&["dev"]) },
    );
    match &handled.deliveries[0].message {
        IoClientMessage::ControlAck(ack) => {
            assert_eq!(ack.cmd, "update_input_did_filter");
            assert_eq!(ack.devices, Some(list(&["dev"])));
        }
        other => panic!("expected an acknowledgement, got {other:?}"),
    }
    assert_eq!(server.broadcast_device_input(&packet).len(), 1);

    let handled = control(&mut server, "c", ClientControlMessage::StopInput);
    match &handled.deliveries[0].message {
        IoClientMessage::ControlAck(ack) => assert_eq!(ack.cmd, "stop_input"),
        other => panic!("expected an acknowledgement, got {other:?}"),
    }
    assert!(server.broadcast_device_input(&packet).is_empty());

    control(
        &mut server,
        "c",
        ClientControlMessage::UpdateStreamRegistration { streams: list(&["uinput"]) },
    );
    assert_eq!(server.broadcast_stream_input("uinput", &packet).len(), 1);
    control(&mut server, "c", ClientControlMessage::StopInput);
    assert!(server.broadcast_stream_input("uinput", &packet).is_empty());
    assert!(server.list_stream_ids().is_empty());
}

#[test]
fn registration_replaces_and_is_listed() {
    let mut server = IoEventServer::new();
    server.register_client(client("a", ClientSettings::default()));
    server.register_client(client("b", ClientSettings::default()));
    let handled = control(
        &mut server,
        "a",
        ClientControlMessage::UpdateStreamRegistration {
            streams: list(&["uinput", "foo", "uinput"]),
        },
    );
    match &handled.deliveries[0].message {
        IoClientMessage::ControlAck(ack) => {
            assert_eq!(ack.cmd, "update_stream_registration");
            assert_eq!(ack.devices, None);
            assert_eq!(ack.registered_streams, Some(list(&["uinput", "foo"])));
        }
        other => panic!("expected an acknowledgement, got {other:?}"),
    }
    control(
        &mut server,
        "b",
        ClientControlMessage::UpdateStreamRegistration { streams: list(&["uinput", "bar"]) },
    );
    assert_eq!(server.list_stream_ids(), list(&["bar", "foo", "uinput"]));

    let packet = make_input_packet("dev", 1);
    assert_eq!(receivers(&server.broadcast_stream_input("uinput", &packet)), list(&["a", "b"]));
    control(
        &mut server,
        "a",
        ClientControlMessage::UpdateStreamRegistration { streams: list(&["foo"]) },
    );
    assert_eq!(receivers(&server.broadcast_stream_input("uinput", &packet)), list(&["b"]));
    control(
        &mut server,
        "b",
        ClientControlMessage::UpdateStreamRegistration { streams: Vec::new() },
    );
    assert_eq!(server.list_stream_ids(), list(&["foo"]));
}

#[test]
fn queries_leave_the_settings_alone() {
    let mut server = IoEventServer::new();
    server.register_client(client("c", ClientSettings::default()));
    let handled = control(&mut server, "c", ClientControlMessage::ListStreams);
    assert!(handled.deliveries.is_empty());
    control(&mut server, "c", ClientControlMessage::GetConfig);
    assert_eq!(server.clients.get("c"), Some(&ClientSettings::default()));
}

#[test]
fn unknown_clients_change_nothing() {
    let mut server = IoEventServer::new();
    let handled = control(&mut server, "nobody", ClientControlMessage::StopFeedback);
    assert!(handled.deliveries.is_empty());
    assert_eq!(server.client_count(), 0);
    assert!(server.send_app_error("nobody", AppError::Parse("x".into())).is_none());
}

#[test]
fn errors_carry_what_the_client_sent() {
    let mut server = IoEventServer::new();
    server.register_client(client("c", ClientSettings::default()));
    let error = ClientFacingError::from(AppError::Parse("bad".into())).with_raw("{");
    let delivery = server.dispatch_client_error("c", error).unwrap();
    match delivery.message {
        IoClientMessage::Error(err) => {
            assert_eq!(err.code, "parse_error");
            assert_eq!(err.message, "parse error: bad");
            assert_eq!(err.raw, Some("{".to_string()));
        }
        other => panic!("expected an error, got {other:?}"),
    }
}

#[test]
fn wire_types() {
    let mut server = IoEventServer::new();
    server.register_client(client("c", ClientSettings::default()));
    let config = control(&mut server, "c", ClientControlMessage::GetConfig);
    let ack = control(&mut server, "c", ClientControlMessage::StopInput);
    let error = server.send_app_error("c", AppError::Internal("x".into())).unwrap();
    assert_eq!(config.deliveries[0].message.wire_type(), Some("config"));
    assert_eq!(ack.deliveries[0].message.wire_type(), Some("control_ack"));
    assert_eq!(error.message.wire_type(), Some("Error"));
    assert_eq!(IoClientMessage::Input(make_input_packet("d", 1)).wire_type(), Some("Input"));
    assert_eq!(IoClientMessage::Feedback(make_feedback_packet("d", 1)).wire_type(), None);
    assert!(ClientSettings::default().wants(&Topic::Feedback("d".to_string())));
}
