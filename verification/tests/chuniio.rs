use backflow::feedback::{LedBoardData, Rgb};
use backflow::input::brokenithm::{first_device, iproxy_args, BoardInputState};
use backflow::input::{AnalogEvent, InputEvent, InputEventPacket, KeyboardEvent};
use backflow::output::chuniio_proxy::{
    apply_brokenithm_state_to_chuniio, brokenithm_state_changed, count_coins, ChuniioProxyServer,
    ClientRead, InternalChuniioProxyServer,
};
use backflow::protos::chuniio::{
    ChuniFeedbackEvent, ChuniInputEvent, ChuniMessage, ChuniProtocolState, BEAMS_CLEAR,
    CHUNI_IO_OPBTN_SERVICE, CHUNI_IO_OPBTN_TEST,
};

fn press(key: &str) -> InputEvent {
    InputEvent::Keyboard(KeyboardEvent::KeyPress { key: key.to_string() })
}

fn release(key: &str) -> InputEvent {
    InputEvent::Keyboard(KeyboardEvent::KeyRelease { key: key.to_string() })
}

fn analog(key: &str, value: f32) -> InputEvent {
    InputEvent::Analog(AnalogEvent { keycode: key.to_string(), value_bits: value.to_bits() })
}

fn apply(events: &[InputEvent]) -> ChuniProtocolState {
    let mut state = ChuniProtocolState::new();
    for event in events {
        ChuniioProxyServer::handle_keyboard_event(&mut state, event);
    }
    state
}

fn board() -> BoardInputState {
    BoardInputState {
        air: [0; 6],
        slider: [0; 32],
        test_button: false,
        service_button: false,
        coin_pulse: false,
    }
}

fn proxy() -> ChuniioProxyServer {
    ChuniioProxyServer::new(Some("/tmp/proxy.sock".to_string()), false)
}

#[test]
fn test_server_creation() {
    let server = ChuniioProxyServer::new(Some("/tmp/test_chuniio.sock".to_string()), true);
    assert!(server.socket_path.contains("test_chuniio.sock"));
}

#[test]
fn test_feedback_message_conversion() {
    let slider_event = ChuniFeedbackEvent::SliderLeds {
        rgb_data: vec![255, 0, 0, 0, 255, 0, 0, 0, 255],
    };
    let message = InternalChuniioProxyServer::feedback_event_to_message(slider_event);
    assert!(matches!(message, Some(ChuniMessage::SliderLedUpdate { .. })));

    let board_event = ChuniFeedbackEvent::LedBoard { board: 1, rgb_data: vec![1] };
    assert_eq!(
        InternalChuniioProxyServer::feedback_event_to_message(board_event),
        Some(ChuniMessage::LedUpdate { board: 1, rgb_data: vec![1] })
    );
}

#[test]
fn paths_of_the_socket() {
    assert_eq!(
        ChuniioProxyServer::socket_path_for(1000, true),
        "/run/user/1000/backflow_chuniio"
    );
    assert_eq!(ChuniioProxyServer::socket_path_for(0, false), "/tmp/backflow_chuniio.sock");
    assert_eq!(
        ChuniioProxyServer::new(None, false).socket_path,
        "/tmp/backflow_chuniio.sock"
    );
    let uid = nix::unistd::Uid::effective().as_raw();
    assert_eq!(
        ChuniioProxyServer::new(None, true).socket_path,
        format!("/run/user/{uid}/backflow_chuniio")
    );
}

#[test]
fn keys() {
    let state = apply(&[
        press("CHUNIIO_COIN"),
        release("CHUNIIO_COIN"),
        press("CHUNIIO_TEST"),
        press("CHUNIIO_SERVICE"),
        release("CHUNIIO_TEST"),
        press("CHUNIIO_SLIDER_0"),
        press("CHUNIIO_SLIDER_31"),
        press("CHUNIIO_SLIDER_5"),
        release("CHUNIIO_SLIDER_5"),
        press("CHUNIIO_SLIDER_32"),
        press("CHUNIIO_SLIDER_"),
        press("CHUNIIO_SLIDER_+7"),
        release("CHUNIIO_IR_2"),
        press("KEY_A"),
    ]);
    assert_eq!(state.coin_counter, 1);
    assert_eq!(state.jvs_state.opbtn, CHUNI_IO_OPBTN_SERVICE);
    let mut pressure = [0u8; 32];
    pressure[0] = 255;
    pressure[31] = 255;
    pressure[7] = 255;
    assert_eq!(state.slider_state.pressure, pressure);
    assert_eq!(state.jvs_state.beams, BEAMS_CLEAR & !4);
    assert_eq!(apply(&[release("CHUNIIO_IR_2"), press("CHUNIIO_IR_2")]).jvs_state.beams, BEAMS_CLEAR);
    assert_eq!(apply(&[release("CHUNIIO_IR_6")]).jvs_state.beams, BEAMS_CLEAR);
}

#[test]
fn analog_values() {
    let state = apply(&[
        analog("CHUNIIO_SLIDER_1", 127.9),
        analog("CHUNIIO_SLIDER_2", -3.0),
        analog("CHUNIIO_SLIDER_3", 1000.0),
        analog("CHUNIIO_SLIDER_4", f32::NAN),
        analog("CHUNIIO_SLIDER_5", f32::INFINITY),
        analog("CHUNIIO_SLIDER_6", 0.99),
        analog("CHUNIIO_COIN", 2.7),
        analog("CHUNIIO_COIN", 0.5),
        analog("CHUNIIO_COIN", 0.6),
        analog("CHUNIIO_TEST", 0.51),
        analog("CHUNIIO_SERVICE", 0.5),
        analog("CHUNIIO_IR_0", 0.2),
        analog("CHUNIIO_IR_1", 0.7),
    ]);
    assert_eq!(state.slider_state.pressure[1], 127);
    assert_eq!(state.slider_state.pressure[2], 0);
    assert_eq!(state.slider_state.pressure[3], 255);
    assert_eq!(state.slider_state.pressure[4], 0);
    assert_eq!(state.slider_state.pressure[5], 255);
    assert_eq!(state.slider_state.pressure[6], 0);
    assert_eq!(state.coin_counter, 2);
    assert_eq!(state.jvs_state.opbtn, CHUNI_IO_OPBTN_TEST);
    assert_eq!(state.jvs_state.beams, BEAMS_CLEAR & !1);
}

#[test]
fn analog_values_as_floats() {
    for value in [
        0.0f32, -0.0, 0.25, 0.5, 0.500001, 1.0, 1.5, 2.999, 254.999, 255.0, 255.5, 256.0, 65534.9,
        1e-40, 3e38, -1.0, -0.1, f32::NEG_INFINITY, f32::INFINITY, f32::NAN, 16777216.0,
    ] {
        let state = apply(&[analog("CHUNIIO_SLIDER_0", value), analog("CHUNIIO_TEST", value)]);
        assert_eq!(
            state.slider_state.pressure[0],
            value.floor().clamp(0.0, 255.0) as u8,
            "{value}"
        );
        assert_eq!(state.jvs_state.opbtn == CHUNI_IO_OPBTN_TEST, value > 0.5, "{value}");
        let coins = apply(&[analog("CHUNIIO_COIN", value)]).coin_counter;
        assert_eq!(coins, if value > 0.5 { value.floor() as u16 } else { 0 }, "{value}");
    }
}

#[test]
fn packets() {
    let mut server = proxy();
    let events = vec![
        press("CHUNIIO_COIN"),
        press("CHUNIIO_COIN"),
        analog("CHUNIIO_SLIDER_0", 9.0),
        press("CHUNIIO_TEST"),
    ];
    assert_eq!(count_coins(&events), 2);
    let packet = InputEventPacket { device_id: "d".to_string(), timestamp: 1, events };
    assert!(server.receive_packet(true, Some(&packet)));
    assert_eq!(server.protocol_state, ChuniProtocolState::new());
    assert!(server.receive_packet(true, None));
    assert!(server.receive_packet(false, Some(&packet)));
    assert_eq!(server.protocol_state.coin_counter, 2);
    assert_eq!(server.protocol_state.jvs_state.opbtn, CHUNI_IO_OPBTN_TEST);
    assert_eq!(server.protocol_state.slider_state.pressure[0], 0);
    assert!(!server.receive_packet(false, None));
}

#[test]
fn client_events() {
    let mut server = proxy();
    server.receive_event(true, Some(ChuniInputEvent::CoinInsert));
    assert_eq!(server.protocol_state.coin_counter, 0);
    server.receive_event(false, Some(ChuniInputEvent::CoinInsert));
    assert_eq!(server.protocol_state.coin_counter, 1);
    server.receive_event(false, Some(ChuniInputEvent::SliderTouch { region: 3, pressure: 9 }));
    assert_eq!(server.protocol_state.slider_state.pressure[3], 9);
    server.receive_event(false, None);
    assert_eq!(server.protocol_state.coin_counter, 1);
}

#[test]
fn boards() {
    let mut state = ChuniProtocolState::new();
    let mut last = false;
    let mut b = board();
    b.air = [0, 9, 0, 0, 0, 255];
    b.slider[4] = 200;
    b.test_button = true;
    b.service_button = true;
    b.coin_pulse = true;
    apply_brokenithm_state_to_chuniio(&mut state, &b, &mut last);
    assert_eq!(state.jvs_state.beams, BEAMS_CLEAR & !2 & !32);
    assert_eq!(state.jvs_state.opbtn, CHUNI_IO_OPBTN_TEST | CHUNI_IO_OPBTN_SERVICE);
    assert_eq!(state.slider_state.pressure, b.slider);
    assert_eq!(state.coin_counter, 1);
    assert!(last);
    apply_brokenithm_state_to_chuniio(&mut state, &b, &mut last);
    assert_eq!(state.coin_counter, 1);
    b.coin_pulse = false;
    apply_brokenithm_state_to_chuniio(&mut state, &b, &mut last);
    b.coin_pulse = true;
    apply_brokenithm_state_to_chuniio(&mut state, &b, &mut last);
    assert_eq!(state.coin_counter, 2);
}

#[test]
fn polls() {
    let mut server = proxy();
    server.poll_board(None);
    assert!(server.board_state.is_none());
    let mut b = board();
    b.coin_pulse = true;
    server.poll_board(Some(b));
    assert_eq!(server.protocol_state.coin_counter, 1);
    server.protocol_state.jvs_state.opbtn = CHUNI_IO_OPBTN_TEST;
    server.poll_board(Some(b));
    assert_eq!(server.protocol_state.jvs_state.opbtn, CHUNI_IO_OPBTN_TEST);
    assert!(brokenithm_state_changed(&b, &None));
    assert!(!brokenithm_state_changed(&b, &Some(b)));
    let mut c = b;
    c.slider[31] = 1;
    assert!(brokenithm_state_changed(&c, &Some(b)));
}

#[test]
fn questions_of_clients() {
    let mut state = ChuniProtocolState::new();
    state.jvs_state.opbtn = 3;
    state.jvs_state.beams = 5;
    state.coin_counter = 7;
    state.slider_state.pressure[2] = 9;
    let ask = |message: ChuniMessage| {
        InternalChuniioProxyServer::handle_client_message(message, Some(&state)).response
    };
    let locked = |message: ChuniMessage| {
        InternalChuniioProxyServer::handle_client_message(message, None).response
    };
    assert_eq!(
        ask(ChuniMessage::JvsPoll),
        Some(ChuniMessage::JvsPollResponse { opbtn: 3, beams: 5 })
    );
    assert_eq!(
        locked(ChuniMessage::JvsPoll),
        Some(ChuniMessage::JvsPollResponse { opbtn: 0, beams: 0x3f })
    );
    assert_eq!(
        ask(ChuniMessage::CoinCounterRead),
        Some(ChuniMessage::CoinCounterReadResponse { count: 7 })
    );
    assert_eq!(
        locked(ChuniMessage::CoinCounterRead),
        Some(ChuniMessage::CoinCounterReadResponse { count: 0 })
    );
    assert_eq!(
        ask(ChuniMessage::SliderStateRead),
        Some(ChuniMessage::SliderStateReadResponse { pressure: state.slider_state.pressure })
    );
    assert_eq!(
        ask(ChuniMessage::JvsFullStateRead),
        Some(ChuniMessage::JvsFullStateReadResponse {
            opbtn: 3,
            beams: 5,
            pressure: state.slider_state.pressure,
            coin_counter: 7
        })
    );
    assert_eq!(
        locked(ChuniMessage::JvsFullStateRead),
        Some(ChuniMessage::JvsFullStateReadResponse {
            opbtn: 0,
            beams: 0x3f,
            pressure: [0; 32],
            coin_counter: 0
        })
    );
    assert_eq!(ask(ChuniMessage::Ping), Some(ChuniMessage::Pong));
    assert_eq!(ask(ChuniMessage::Pong), None);
    assert_eq!(ask(ChuniMessage::CoinCounterReadResponse { count: 1 }), None);
}

#[test]
fn keys_are_read_back() {
    let mut server = proxy();
    let events = vec![
        press("CHUNIIO_SLIDER_17"),
        release("CHUNIIO_IR_3"),
        press("CHUNIIO_SERVICE"),
        press("CHUNIIO_COIN"),
    ];
    let packet = InputEventPacket { device_id: "d".to_string(), timestamp: 1, events };
    server.process_atomic_input_packet(&packet);
    let state = server.protocol_state;
    let ask = |message: ChuniMessage| {
        InternalChuniioProxyServer::handle_client_message(message, Some(&state)).response
    };
    let mut pressure = [0u8; 32];
    pressure[17] = 255;
    assert_eq!(
        ask(ChuniMessage::JvsFullStateRead),
        Some(ChuniMessage::JvsFullStateReadResponse {
            opbtn: 2,
            beams: 0x37,
            pressure,
            coin_counter: 1
        })
    );
}

#[test]
fn slider_input_of_clients() {
    let mut pressure = [0u8; 32];
    pressure[1] = 10;
    pressure[30] = 20;
    let reply = InternalChuniioProxyServer::handle_client_message(
        ChuniMessage::SliderInput { pressure },
        None,
    );
    assert_eq!(reply.response, Some(ChuniMessage::Pong));
    assert_eq!(reply.pressure, Some(pressure));
    assert_eq!(
        reply.events,
        vec![
            ChuniInputEvent::SliderTouch { region: 1, pressure: 10 },
            ChuniInputEvent::SliderTouch { region: 30, pressure: 20 },
        ]
    );
    assert!(reply.leds.is_none());

    let mut state = ChuniProtocolState::new();
    state.coin_counter = 4;
    state.set_pressure(reply.pressure.unwrap());
    assert_eq!(state.coin_counter, 4);
    assert_eq!(state.jvs_state.beams, BEAMS_CLEAR);
    let read = InternalChuniioProxyServer::handle_client_message(
        ChuniMessage::SliderStateRead,
        Some(&state),
    );
    assert_eq!(read.response, Some(ChuniMessage::SliderStateReadResponse { pressure }));
}

fn slider_colors(message: ChuniMessage) -> Option<[Rgb; 31]> {
    let reply = InternalChuniioProxyServer::handle_client_message(message, None);
    assert_eq!(reply.response, Some(ChuniMessage::Pong));
    reply.leds.map(|packet| {
        assert_eq!(packet.board, 2);
        let LedBoardData::Slider(colors) = packet.data;
        colors
    })
}

#[test]
fn led_data_of_clients() {
    let dark = Rgb { r: 0, g: 0, b: 0 };
    let colors =
        slider_colors(ChuniMessage::SliderLedUpdate { rgb_data: vec![1, 2, 3, 4, 5, 6] }).unwrap();
    assert_eq!(colors[0], Rgb { r: 5, g: 6, b: 4 });
    assert_eq!(colors[1], Rgb { r: 2, g: 3, b: 1 });
    assert_eq!(colors[2], dark);

    let colors =
        slider_colors(ChuniMessage::LedUpdate { board: 2, rgb_data: vec![1, 2, 3, 4] }).unwrap();
    assert_eq!(colors[0], dark);
    assert_eq!(colors[1], Rgb { r: 2, g: 3, b: 1 });

    let data: Vec<u8> = (0..96).collect();
    let colors = slider_colors(ChuniMessage::SliderLedUpdate { rgb_data: data }).unwrap();
    assert_eq!(colors[0], Rgb { r: 94, g: 95, b: 93 });
    assert_eq!(colors[30], Rgb { r: 4, g: 5, b: 3 });

    assert!(slider_colors(ChuniMessage::LedUpdate { board: 1, rgb_data: vec![1, 2, 3] }).is_none());
}

#[test]
fn client_connections() {
    let mut server = InternalChuniioProxyServer::new();
    assert_eq!(server.accept_client(), 0);
    assert_eq!(server.accept_client(), 1);
    assert!(InternalChuniioProxyServer::handle_client(ClientRead::EndOfStream, None).is_none());
    assert!(InternalChuniioProxyServer::handle_client(ClientRead::Failed, None).is_none());
    let reply = InternalChuniioProxyServer::handle_client(
        ClientRead::Message(ChuniMessage::Ping),
        None,
    );
    assert_eq!(reply.unwrap().response, Some(ChuniMessage::Pong));
}

#[test]
fn iproxy() {
    assert_eq!(iproxy_args(1, 24864, None), vec!["1".to_string(), "24864".to_string()]);
    assert_eq!(
        iproxy_args(0, 65535, Some("abc")),
        vec!["0".to_string(), "65535".to_string(), "--udid".to_string(), "abc".to_string()]
    );
    assert_eq!(first_device(&vec![4, 5]), Ok(4));
    assert_eq!(first_device(&Vec::new()), Err("No devices found".to_string()));
}
