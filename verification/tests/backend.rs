use std::sync::Arc;

use backflow::backend::{
    Backend, EventRouter, FeedbackService, InputService, MessageStreams, OutputService, Routed,
    RoutingRule,
};
use backflow::config::{
    AppConfig, BrokenithmConfig, BrokenithmIdeviceConfig, ChuniIoRgbConfig, ChuniioProxyConfig,
    DeviceConfig, UnixDomainSocketConfig,
};
use backflow::device_filter::{DeviceFilter, KeyExpr};
use backflow::input::io_server::{ClientNode, ClientSettings, IoClientMessage};
use backflow::input::{
    AnalogEvent, InputEvent, InputEventPacket, JoystickEvent, KeyboardEvent, PointerEvent,
};

fn press(key: &str) -> InputEvent {
    InputEvent::Keyboard(KeyboardEvent::KeyPress { key: key.to_string() })
}

fn release(key: &str) -> InputEvent {
    InputEvent::Keyboard(KeyboardEvent::KeyRelease { key: key.to_string() })
}

fn pointer() -> InputEvent {
    InputEvent::Pointer(PointerEvent::Move { x_delta: 1, y_delta: 2 })
}

fn packet(device: &str, events: Vec<InputEvent>) -> InputEventPacket {
    InputEventPacket { device_id: device.to_string(), timestamp: 7, events }
}

fn device(map_backend: &str, remap: &[(&str, KeyExpr)], whitelist: bool) -> DeviceConfig {
    let mut config = DeviceConfig::default();
    config.map_backend = map_backend.to_string();
    for (key, expr) in remap {
        config.remap.insert(key.to_string(), KeyExpr::parse(expr.to_string().as_str()));
    }
    config.remap_whitelist = whitelist;
    config
}

fn config_with(name: &str, device: DeviceConfig) -> AppConfig {
    let mut config = AppConfig::default();
    config.device.insert(name.to_string(), device);
    config
}

fn route<'a>(routed: &'a Vec<Routed>, backend: &str) -> Option<&'a Routed> {
    routed.iter().find(|r| r.backend == backend)
}

#[test]
fn default_rules_route_everything() {
    let router = EventRouter::new();
    let chuniio = Some("chuniio".to_string());
    let uinput = Some("uinput".to_string());
    assert_eq!(router.route_event_by_rules(&press("CHUNIIO_SLIDER_1")), chuniio);
    assert_eq!(router.route_event_by_rules(&release("CHUNIIO_")), chuniio);
    assert_eq!(router.route_event_by_rules(&press("CHUNIIO")), uinput);
    assert_eq!(router.route_event_by_rules(&press("KEY_A")), uinput);
    assert_eq!(router.route_event_by_rules(&pointer()), uinput);
    let analog =
        InputEvent::Analog(AnalogEvent { keycode: "CHUNIIO_IR_0".to_string(), value_bits: 0 });
    assert_eq!(router.route_event_by_rules(&analog), uinput);
    let joystick = InputEvent::Joystick(JoystickEvent::ButtonPress { button: 1 });
    assert_eq!(EventRouter::default().route_event_by_rules(&joystick), uinput);
}

#[test]
fn later_rules_yield() {
    let mut router = EventRouter::new();
    router.add_rule(RoutingRule::KeyPrefix {
        prefix: "CHUNIIO_S".to_string(),
        backend: "late".to_string(),
    });
    router.add_rule(RoutingRule::Default { backend: "late".to_string() });
    router.add_rule(RoutingRule::KeyPrefix {
        prefix: "MIDI_".to_string(),
        backend: "midi".to_string(),
    });
    assert_eq!(
        router.route_event_by_rules(&press("CHUNIIO_SLIDER_1")),
        Some("chuniio".to_string())
    );
    assert_eq!(router.route_event_by_rules(&press("KEY_A")), Some("uinput".to_string()));
    assert_eq!(router.route_event_by_rules(&press("MIDI_1")), Some("midi".to_string()));
    assert_eq!(router.clone().route_event_by_rules(&press("MIDI_1")), Some("midi".to_string()));
}

#[test]
fn device_configuration_goes_before_rules() {
    let config = config_with("pad", device("inputplumber", &[], false));
    let filter = DeviceFilter::new(Arc::new(config));
    let router = EventRouter::new();
    assert_eq!(
        router.route_event(&press("CHUNIIO_COIN"), Some(&filter), "pad"),
        Some("inputplumber".to_string())
    );
    assert_eq!(
        router.route_event(&press("CHUNIIO_COIN"), Some(&filter), "other"),
        Some("chuniio".to_string())
    );
    assert_eq!(
        router.route_event(&press("CHUNIIO_COIN"), None, "pad"),
        Some("chuniio".to_string())
    );
    assert_eq!(filter.get_device_backend("pad"), Some("inputplumber".to_string()));
    assert_eq!(filter.get_device_backend("other"), None);
}

#[test]
fn streams() {
    let mut streams = MessageStreams::new();
    assert_eq!(streams.clone_output_stream("uinput"), Some(0));
    assert_eq!(streams.clone_output_stream("chuniio"), Some(1));
    assert_eq!(streams.clone_output_stream("midi"), None);
    assert!(!streams.ensure_stream("uinput"));
    assert!(streams.ensure_stream("midi"));
    assert!(!streams.ensure_stream("midi"));
    assert_eq!(streams.clone_output_stream("midi"), Some(2));
    assert_eq!(streams.register_output_stream("uinput"), 3);
    assert_eq!(streams.clone_output_stream("uinput"), Some(3));
    assert_eq!(streams.clone_output_stream("midi"), Some(2));
    let mut names = streams.output_backend_names();
    names.sort();
    assert_eq!(names, vec!["chuniio".to_string(), "midi".to_string(), "uinput".to_string()]);
    assert_eq!(MessageStreams::default().clone_output_stream("chuniio"), Some(1));
}

#[test]
fn remapping() {
    let config = config_with(
        "pad",
        device(
            "uinput",
            &[
                ("A", KeyExpr::Single("KEY_A".to_string())),
                ("B", KeyExpr::parse("KEY_X+KEY_Y")),
                ("C", KeyExpr::parse("KEY_1,KEY_2")),
            ],
            false,
        ),
    );
    let filter = DeviceFilter::new(Arc::new(config));
    let events = vec![press("A"), release("B"), pointer(), press("C"), press("D")];
    let out = filter.transform_packet(packet("pad", events.clone()));
    assert_eq!(
        out,
        packet(
            "pad",
            vec![
                press("KEY_A"),
                release("KEY_X"),
                release("KEY_Y"),
                pointer(),
                press("KEY_1"),
                press("KEY_2"),
                press("D"),
            ]
        )
    );
    assert_eq!(
        filter.transform_packet(packet("other", events.clone())),
        packet("other", events)
    );
}

#[test]
fn whitelists() {
    let config = config_with(
        "pad",
        device("uinput", &[("A", KeyExpr::Single("KEY_A".to_string()))], true),
    );
    let filter = DeviceFilter::new(Arc::new(config));
    let out = filter.transform_packet(packet("pad", vec![press("A"), press("B"), pointer()]));
    assert_eq!(out.events, vec![press("KEY_A"), pointer()]);

    let filter = DeviceFilter::new(Arc::new(config_with("pad", device("uinput", &[], true))));
    let out = filter.transform_packet(packet("pad", vec![press("A"), press("B")]));
    assert!(out.events.is_empty());

    let filter = DeviceFilter::new(Arc::new(config_with("pad", device("uinput", &[], false))));
    let out = filter.transform_packet(packet("pad", vec![press("A"), press("B")]));
    assert_eq!(out.events, vec![press("A"), press("B")]);
}

#[test]
fn packets_are_parted_by_output() {
    let backend = Backend::new(AppConfig::default());
    let routed = backend.route_packet(packet(
        "pad",
        vec![press("KEY_A"), press("CHUNIIO_COIN"), pointer(), release("CHUNIIO_COIN")],
    ));
    assert_eq!(routed.len(), 2);
    let uinput = route(&routed, "uinput").unwrap();
    assert_eq!(uinput.stream, 0);
    assert_eq!(uinput.packet, packet("pad", vec![press("KEY_A"), pointer()]));
    let chuniio = route(&routed, "chuniio").unwrap();
    assert_eq!(chuniio.stream, 1);
    assert_eq!(
        chuniio.packet,
        packet("pad", vec![press("CHUNIIO_COIN"), release("CHUNIIO_COIN")])
    );
    assert!(backend.route_packet(packet("pad", Vec::new())).is_empty());
}

#[test]
fn configured_devices_reach_their_output() {
    let mut backend = Backend::new(config_with(
        "pad",
        device("inputplumber", &[("A", KeyExpr::Single("BTN_A".to_string()))], false),
    ));
    assert_eq!(backend.streams.clone_output_stream("inputplumber"), Some(2));
    let routed = backend.route_packet(packet("pad", vec![press("A"), pointer()]));
    assert_eq!(routed.len(), 1);
    assert_eq!(routed[0].backend, "inputplumber");
    assert_eq!(routed[0].stream, 2);
    assert_eq!(routed[0].packet.events, vec![press("BTN_A"), pointer()]);

    assert_eq!(backend.register_output_backend("inputplumber"), 3);
    let routed = backend.route_packet(packet("pad", vec![press("A")]));
    assert_eq!(routed[0].stream, 3);
}

#[test]
fn outputs_without_a_stream_get_nothing() {
    let mut backend = Backend::new(AppConfig::default());
    backend.add_routing_rule(RoutingRule::KeyPrefix {
        prefix: "MIDI_".to_string(),
        backend: "midi".to_string(),
    });
    let events = vec![press("MIDI_1"), press("KEY_A")];
    let routed = backend.route_packet(packet("pad", events.clone()));
    assert_eq!(routed.len(), 1);
    assert_eq!(routed[0].backend, "uinput");

    backend.register_output_backend("midi");
    assert_eq!(backend.route_packet(packet("pad", events)).len(), 2);
}

#[test]
fn clients_follow_outputs_and_devices() {
    let mut backend = Backend::new(AppConfig::default());
    backend.io_server.register_client(ClientNode {
        id: "stream".to_string(),
        client_settings: ClientSettings {
            registered_stream_ids: vec!["uinput".to_string()],
            input_listener_device_ids: vec!["pad".to_string()],
            ..Default::default()
        },
    });
    backend.io_server.register_client(ClientNode {
        id: "device".to_string(),
        client_settings: ClientSettings {
            input_listener_device_ids: vec!["pad".to_string()],
            ..Default::default()
        },
    });
    let routed = backend.route_packet(packet("pad", vec![press("KEY_A")]));
    assert_eq!(routed[0].stream_deliveries.len(), 1);
    assert_eq!(routed[0].stream_deliveries[0].client_id, "stream");
    assert_eq!(routed[0].device_deliveries.len(), 1);
    assert_eq!(routed[0].device_deliveries[0].client_id, "device");
    match &routed[0].stream_deliveries[0].message {
        IoClientMessage::Input(p) => assert_eq!(p, &packet("pad", vec![press("KEY_A")])),
        other => panic!("expected input, got {other:?}"),
    }
}

#[test]
fn the_server_knows_the_configuration() {
    let mut config = AppConfig::default();
    config.output.uinput.enabled = false;
    let backend = Backend::new(config);
    assert!(!backend.io_server.app_config.output.uinput.enabled);
}

#[test]
fn input_services() {
    let backend = Backend::new(AppConfig::default());
    assert_eq!(
        backend.start_input_services(),
        vec![InputService::Web { address: "0.0.0.0:8000".to_string() }]
    );

    let mut config = AppConfig::default();
    config.input.web.as_mut().unwrap().enabled = false;
    config.input.unix = Some(UnixDomainSocketConfig { path: "/run/backflow".to_string() });
    config.input.brokenithm = Some(BrokenithmConfig {
        enabled: true,
        port: 24864,
        host: "10.0.0.1".to_string(),
        idevice: Some(BrokenithmIdeviceConfig {
            enabled: true,
            device_port: 1,
            local_port: 2,
            udid: Some("u".to_string()),
        }),
    });
    let backend = Backend::new(config);
    assert_eq!(
        backend.start_input_services(),
        vec![
            InputService::UnixSocket { path: "/run/backflow".to_string() },
            InputService::BrokenithmTcp { address: "10.0.0.1:24864".to_string() },
            InputService::BrokenithmIdevice {
                local_port: 2,
                device_port: 1,
                udid: Some("u".to_string())
            },
        ]
    );
}

#[test]
fn output_services() {
    let backend = Backend::new(AppConfig::default());
    assert_eq!(backend.start_output_services(), vec![OutputService::Uinput { stream: 0 }]);

    let mut config = AppConfig::default();
    config.output.uinput.enabled = false;
    config.output.chuniio_proxy =
        Some(ChuniioProxyConfig { enabled: true, socket_path: "/tmp/p".to_string() });
    let backend = Backend::new(config);
    assert_eq!(
        backend.start_output_services(),
        vec![OutputService::ChuniioProxy { socket_path: "/tmp/p".to_string(), stream: 1 }]
    );
}

#[test]
fn feedback_services() {
    let backend = Backend::new(AppConfig::default());
    assert!(matches!(backend.start_feedback_services()[..], [FeedbackService::Drain]));

    let mut config = AppConfig::default();
    config.feedback.chuniio = Some(ChuniIoRgbConfig::default());
    let backend = Backend::new(config);
    assert!(matches!(
        backend.start_feedback_services()[..],
        [FeedbackService::RgbFromProxy { slider_clamp_lights: 32, slider_id_offset: 0 }]
    ));

    let mut config = AppConfig::default();
    config.feedback.chuniio = Some(ChuniIoRgbConfig {
        socket_path: Some("/tmp/led".to_string()),
        slider_clamp_lights: 16,
        slider_id_offset: 2,
    });
    let services = Backend::new(config).start_feedback_services();
    assert_eq!(services.len(), 3);
    assert!(matches!(
        &services[0],
        FeedbackService::JvsReader { socket_path } if socket_path == "/tmp/led"
    ));
    assert!(matches!(
        services[1],
        FeedbackService::RgbFromReader { slider_clamp_lights: 16, slider_id_offset: 2 }
    ));
    assert!(matches!(services[2], FeedbackService::Drain));
}
