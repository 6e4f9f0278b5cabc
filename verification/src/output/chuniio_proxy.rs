//! The chuniio proxy: a virtual CHUNITHM controller behind a Unix domain socket.
//!
//! These keycodes reach the game through the proxy:
//!
//! - `CHUNIIO_COIN` inserts a credit
//! - `CHUNIIO_TEST` is the test button
//! - `CHUNIIO_SERVICE` is the service button
//! - `CHUNIIO_SLIDER_[0-31]` touches a slider region
//! - `CHUNIIO_IR_[0-5]` blocks an IR sensor
use vstd::prelude::*;
use vstd::string::StringExecFns;

use crate::config::proxy_socket_path;
use crate::environment::{effective_uid, runtime_dir_for, runtime_dir_of};
use crate::feedback::{ChuniLedDataPacket, LedBoardData, Rgb};
use crate::input::analog::{above_half, floor_clamped, floor_within, is_above_half};
use crate::input::brokenithm::BoardInputState;
use crate::input::{
    AnalogEvent, InputEvent, InputEventPacket, JoystickEvent, KeyboardEvent, PointerEvent,
};
use crate::protos::chuniio::{
    after_input_event, bit, nothing_is_touched_at_first, put, put_one_bit, untouched, with_mask, ChuniFeedbackEvent,
    ChuniInputEvent, ChuniMessage, ChuniProtocolState, ProtocolView, CHUNI_IO_OPBTN_SERVICE,
    CHUNI_IO_OPBTN_TEST,
};
use crate::text::{
    byte_of, byte_of_decimal, decimal_text, parse_byte, same_text, strip_prefix,
};

verus! {

/// The slider region that a keycode names.
pub open spec fn slider_region(key: Seq<char>) -> Option<u8> {
    if "CHUNIIO_SLIDER_"@.is_prefix_of(key) {
        match byte_of(key.skip("CHUNIIO_SLIDER_"@.len() as int)) {
            Some(n) => if n < 32 {
                Some(n)
            } else {
                None
            },
            None => None,
        }
    } else {
        None
    }
}

/// The IR beam that a keycode names.
pub open spec fn ir_beam(key: Seq<char>) -> Option<u8> {
    if "CHUNIIO_IR_"@.is_prefix_of(key) {
        match byte_of(key.skip("CHUNIIO_IR_"@.len() as int)) {
            Some(n) => if n < 6 {
                Some(n)
            } else {
                None
            },
            None => None,
        }
    } else {
        None
    }
}

/// What pressing or releasing a key makes of the state. A pressed IR key sets the bit of its beam,
/// and a released one clears it. A board does the opposite: see `board_beams`.
pub open spec fn after_key(state: ProtocolView, key: Seq<char>, pressed: bool) -> ProtocolView {
    if key == "CHUNIIO_COIN"@ {
        if pressed {
            ProtocolView { coins: state.coins + 1, ..state }
        } else {
            state
        }
    } else if key == "CHUNIIO_TEST"@ {
        ProtocolView { opbtn: put(state.opbtn, CHUNI_IO_OPBTN_TEST, pressed), ..state }
    } else if key == "CHUNIIO_SERVICE"@ {
        ProtocolView { opbtn: put(state.opbtn, CHUNI_IO_OPBTN_SERVICE, pressed), ..state }
    } else if let Some(region) = slider_region(key) {
        ProtocolView {
            pressure: state.pressure.update(
                region as int,
                if pressed {
                    255
                } else {
                    0
                },
            ),
            ..state
        }
    } else if let Some(beam) = ir_beam(key) {
        ProtocolView { beams: put(state.beams, 1u8 << beam, pressed), ..state }
    } else {
        state
    }
}

/// What an analog value makes of the state. A value above one half counts as pressed.
pub open spec fn after_analog(state: ProtocolView, key: Seq<char>, bits: u32) -> ProtocolView {
    if let Some(region) = slider_region(key) {
        ProtocolView {
            pressure: state.pressure.update(region as int, floor_within(bits, 255) as u8),
            ..state
        }
    } else if let Some(beam) = ir_beam(key) {
        ProtocolView { beams: put(state.beams, 1u8 << beam, above_half(bits)), ..state }
    } else if key == "CHUNIIO_COIN"@ {
        if above_half(bits) {
            ProtocolView { coins: state.coins + floor_within(bits, 65535), ..state }
        } else {
            state
        }
    } else if key == "CHUNIIO_TEST"@ {
        ProtocolView { opbtn: put(state.opbtn, CHUNI_IO_OPBTN_TEST, above_half(bits)), ..state }
    } else if key == "CHUNIIO_SERVICE"@ {
        ProtocolView { opbtn: put(state.opbtn, CHUNI_IO_OPBTN_SERVICE, above_half(bits)), ..state }
    } else {
        state
    }
}

/// What an event makes of the state. Pointer and joystick events leave it alone.
pub open spec fn after_event(state: ProtocolView, event: InputEvent) -> ProtocolView {
    match event {
        InputEvent::Keyboard(KeyboardEvent::KeyPress { key }) => after_key(state, key@, true),
        InputEvent::Keyboard(KeyboardEvent::KeyRelease { key }) => after_key(state, key@, false),
        InputEvent::Analog(AnalogEvent { keycode, value_bits }) => after_analog(
            state,
            keycode@,
            value_bits,
        ),
        _ => state,
    }
}

/// What the keyboard events of a packet make of the state, one after the other. Other events of
/// the packet leave it alone.
pub open spec fn after_events(state: ProtocolView, events: Seq<InputEvent>) -> ProtocolView
    decreases events.len(),
{
    if events.len() == 0 {
        state
    } else {
        let before = after_events(state, events.drop_last());
        if events.last() is Keyboard {
            after_event(before, events.last())
        } else {
            before
        }
    }
}

fn region_of(key: &str) -> (r: Option<u8>)
    ensures
        r == slider_region(key@),
{
    match strip_prefix(key, "CHUNIIO_SLIDER_") {
        Some(rest) => match parse_byte(rest.as_str()) {
            Some(n) => if n < 32 {
                Some(n)
            } else {
                None
            },
            None => None,
        },
        None => None,
    }
}

fn beam_of(key: &str) -> (r: Option<u8>)
    ensures
        r == ir_beam(key@),
{
    match strip_prefix(key, "CHUNIIO_IR_") {
        Some(rest) => match parse_byte(rest.as_str()) {
            Some(n) => if n < 6 {
                Some(n)
            } else {
                None
            },
            None => None,
        },
        None => None,
    }
}

/// The keycodes of the single buttons are different from each other, and none of them names a
/// slider region or a beam; no keycode names both a region and a beam.
pub proof fn keycodes_are_separate(key: Seq<char>)
    ensures
        key == "CHUNIIO_COIN"@ ==> slider_region(key) is None && ir_beam(key) is None,
        key == "CHUNIIO_TEST"@ ==> slider_region(key) is None && ir_beam(key) is None,
        key == "CHUNIIO_SERVICE"@ ==> slider_region(key) is None && ir_beam(key) is None,
        !(slider_region(key) is Some && ir_beam(key) is Some),
{
    reveal_strlit("CHUNIIO_COIN");
    reveal_strlit("CHUNIIO_TEST");
    reveal_strlit("CHUNIIO_SERVICE");
    reveal_strlit("CHUNIIO_SLIDER_");
    reveal_strlit("CHUNIIO_IR_");
    let slider = "CHUNIIO_SLIDER_"@;
    let ir = "CHUNIIO_IR_"@;
    if slider.is_prefix_of(key) {
        assert(key.len() >= 15);
        assert(key[8] == key.subrange(0, 15)[8]);
        assert(key[9] == key.subrange(0, 15)[9]);
        assert(slider[9] == 'L');
        assert(slider[8] == 'S');
    }
    if ir.is_prefix_of(key) {
        assert(key.len() >= 11);
        assert(key[8] == key.subrange(0, 11)[8]);
        assert(ir[8] == 'I');
    }
}

/// The number of coins that a list of events inserts.
pub open spec fn coins_in(events: Seq<InputEvent>) -> nat
    decreases events.len(),
{
    if events.len() == 0 {
        0
    } else {
        coins_in(events.drop_last()) + if events.last() matches InputEvent::Keyboard(
            KeyboardEvent::KeyPress { key },
        ) && key@ == "CHUNIIO_COIN"@ {
            1nat
        } else {
            0
        }
    }
}

/// The keyboard events of a packet add as many coins as they hold presses of `CHUNIIO_COIN`.
pub proof fn events_insert_coins(state: ProtocolView, events: Seq<InputEvent>)
    ensures
        after_events(state, events).coins == state.coins + coins_in(events),
    decreases events.len(),
{
    if events.len() > 0 {
        events_insert_coins(state, events.drop_last());
    }
}

proof fn lemma_coins_grow(events: Seq<InputEvent>, n: int)
    requires
        0 <= n <= events.len(),
    ensures
        coins_in(events.take(n)) <= coins_in(events),
    decreases events.len() - n,
{
    if n == events.len() {
        assert(events.take(n) =~= events);
    } else {
        assert(events.take(n + 1).drop_last() =~= events.take(n));
        lemma_coins_grow(events, n + 1);
    }
}

/// The number of coins that a list of events inserts.
pub fn count_coins(events: &Vec<InputEvent>) -> (n: usize)
    ensures
        n == coins_in(events@),
{
    let mut n: usize = 0;
    let mut i: usize = 0;
    assert(events@.take(0) =~= Seq::empty());
    while i < events.len()
        invariant
            i <= events.len(),
            n <= i,
            n == coins_in(events@.take(i as int)),
        decreases events.len() - i,
    {
        assert(events@.take(i + 1).drop_last() =~= events@.take(i as int));
        if let InputEvent::Keyboard(KeyboardEvent::KeyPress { key }) = &events[i] {
            if same_text(key.as_str(), "CHUNIIO_COIN") {
                n = n + 1;
            }
        }
        i = i + 1;
    }
    assert(events@.take(i as int) =~= events@);
    n
}

/// The beam bits for a board: the bit of a beam is set while its air sensor is at rest, and cleared
/// while the sensor is active and so breaks the beam.
pub open spec fn board_beams(air: Seq<u8>) -> u8 {
    (beam_weight(air[0], 1) + beam_weight(air[1], 2) + beam_weight(air[2], 4) + beam_weight(
        air[3],
        8,
    ) + beam_weight(air[4], 16) + beam_weight(air[5], 32)) as u8
}

/// What a beam that is not broken adds to the beam bits.
pub open spec fn beam_weight(air: u8, weight: u8) -> u8 {
    if air == 0 {
        weight
    } else {
        0
    }
}

/// The operator buttons for a board.
pub open spec fn board_buttons(board: BoardInputState) -> u8 {
    (if board.test_button {
        CHUNI_IO_OPBTN_TEST
    } else {
        0
    }) | (if board.service_button {
        CHUNI_IO_OPBTN_SERVICE
    } else {
        0
    })
}

/// What a board state makes of the protocol state. A coin counts when its pulse begins.
pub open spec fn after_board(
    state: ProtocolView,
    board: BoardInputState,
    last_coin_pulse: bool,
) -> ProtocolView {
    ProtocolView {
        opbtn: board_buttons(board),
        beams: board_beams(board.air@),
        pressure: board.slider@,
        coins: if board.coin_pulse && !last_coin_pulse {
            state.coins + 1
        } else {
            state.coins
        },
    }
}

/// A beam bit is set exactly when its air sensor is at rest, and no other bit is set.
pub proof fn board_beams_by_bit(air: Seq<u8>, i: u8)
    requires
        air.len() == 6,
        i < 8,
    ensures
        bit(board_beams(air), i) == (i < 6 && air[i as int] == 0),
{
    let a = air[0] == 0;
    let b = air[1] == 0;
    let c = air[2] == 0;
    let d = air[3] == 0;
    let e = air[4] == 0;
    let f = air[5] == 0;
    let beams = board_beams(air);
    lemma_sum_bits(beams, a, b, c, d, e, f, i);
}

proof fn lemma_sum_bits(beams: u8, a: bool, b: bool, c: bool, d: bool, e: bool, f: bool, i: u8)
    by (bit_vector)
    requires
        i < 8,
        beams == (if a {
            1u8
        } else {
            0
        }) + (if b {
            2u8
        } else {
            0
        }) + (if c {
            4u8
        } else {
            0
        }) + (if d {
            8u8
        } else {
            0
        }) + (if e {
            16u8
        } else {
            0
        }) + (if f {
            32u8
        } else {
            0
        }),
    ensures
        bit(beams, i) == ((i == 0 && a) || (i == 1 && b) || (i == 2 && c) || (i == 3 && d) || (i
            == 4 && e) || (i == 5 && f)),
{
}

fn weight_of(air: u8, weight: u8) -> (r: u8)
    ensures
        r == beam_weight(air, weight),
{
    if air > 0 {
        0
    } else {
        weight
    }
}

fn same_bytes<const N: usize>(a: &[u8; N], b: &[u8; N]) -> (r: bool)
    ensures
        r == (*a == *b),
{
    let mut i: usize = 0;
    while i < N
        invariant
            i <= N,
            forall|j: int| 0 <= j < i ==> a@[j] == b@[j],
        decreases N - i,
    {
        if a[i] != b[i] {
            return false;
        }
        i = i + 1;
    }
    assert(*a =~= *b);
    true
}

/// Whether a board state differs from the one before it. The first one always does.
pub fn brokenithm_state_changed(
    current: &BoardInputState,
    previous: &Option<BoardInputState>,
) -> (r: bool)
    ensures
        r == (*previous != Some(*current)),
{
    match previous {
        None => true,
        Some(prev) => !(same_bytes(&current.air, &prev.air) && same_bytes(
            &current.slider,
            &prev.slider,
        ) && current.test_button == prev.test_button && current.service_button
            == prev.service_button && current.coin_pulse == prev.coin_pulse),
    }
}

/// Brings a board state into the protocol state.
pub fn apply_brokenithm_state_to_chuniio(
    chuniio_state: &mut ChuniProtocolState,
    brokenithm_state: &BoardInputState,
    last_coin_pulse: &mut bool,
)
    requires
        after_board(old(chuniio_state)@, *brokenithm_state, *old(last_coin_pulse)).coins <= u16::MAX,
    ensures
        final(chuniio_state)@ == after_board(
            old(chuniio_state)@,
            *brokenithm_state,
            *old(last_coin_pulse),
        ),
        *final(last_coin_pulse) == brokenithm_state.coin_pulse,
{
    let test: u8 = if brokenithm_state.test_button {
        CHUNI_IO_OPBTN_TEST
    } else {
        0
    };
    let service: u8 = if brokenithm_state.service_button {
        CHUNI_IO_OPBTN_SERVICE
    } else {
        0
    };
    chuniio_state.jvs_state.opbtn = test | service;

    let air = &brokenithm_state.air;
    chuniio_state.jvs_state.beams =
    weight_of(air[0], 1) + weight_of(air[1], 2) + weight_of(air[2], 4) + weight_of(air[3], 8)
        + weight_of(air[4], 16) + weight_of(air[5], 32);

    chuniio_state.slider_state.pressure = brokenithm_state.slider;

    if brokenithm_state.coin_pulse && !*last_coin_pulse {
        chuniio_state.coin_counter = chuniio_state.coin_counter + 1;
    }
    *last_coin_pulse = brokenithm_state.coin_pulse;
}

/// The proxy, apart from the sockets and channels around it.
pub struct ChuniioProxyServer {
    /// Where the socket is created.
    pub socket_path: String,
    /// The state that clients are answered from.
    pub protocol_state: ChuniProtocolState,
    /// Whether the last board state had its coin pulse set.
    pub last_coin_pulse: bool,
    /// The board state that was applied last.
    pub board_state: Option<BoardInputState>,
}

impl ChuniioProxyServer {
    /// Brings a single event into the state.
    pub fn handle_keyboard_event(state: &mut ChuniProtocolState, event: &InputEvent)
        requires
            after_event(old(state)@, *event).coins <= u16::MAX,
        ensures
            final(state)@ == after_event(old(state)@, *event),
    {
        match event {
            InputEvent::Keyboard(KeyboardEvent::KeyPress { key }) => {
                Self::handle_key(state, key.as_str(), true);
            },
            InputEvent::Keyboard(KeyboardEvent::KeyRelease { key }) => {
                Self::handle_key(state, key.as_str(), false);
            },
            InputEvent::Analog(analog) => {
                Self::handle_analog(state, analog.keycode.as_str(), analog.value_bits);
            },
            _ => {},
        }
    }

    fn handle_key(state: &mut ChuniProtocolState, key: &str, pressed: bool)
        requires
            after_key(old(state)@, key@, pressed).coins <= u16::MAX,
        ensures
            final(state)@ == after_key(old(state)@, key@, pressed),
    {
        if same_text(key, "CHUNIIO_COIN") {
            if pressed {
                state.coin_counter = state.coin_counter + 1;
            }
        } else if same_text(key, "CHUNIIO_TEST") {
            state.jvs_state.opbtn = with_mask(state.jvs_state.opbtn, CHUNI_IO_OPBTN_TEST, pressed);
        } else if same_text(key, "CHUNIIO_SERVICE") {
            state.jvs_state.opbtn =
            with_mask(state.jvs_state.opbtn, CHUNI_IO_OPBTN_SERVICE, pressed);
        } else if let Some(region) = region_of(key) {
            let pressure: u8 = if pressed {
                255
            } else {
                0
            };
            state.slider_state.pressure[region as usize] = pressure;
        } else if let Some(beam) = beam_of(key) {
            state.jvs_state.beams = with_mask(state.jvs_state.beams, 1u8 << beam, pressed);
        }
    }

    fn handle_analog(state: &mut ChuniProtocolState, key: &str, bits: u32)
        requires
            after_analog(old(state)@, key@, bits).coins <= u16::MAX,
        ensures
            final(state)@ == after_analog(old(state)@, key@, bits),
    {
        if let Some(region) = region_of(key) {
            let level: u16 = floor_clamped(bits, 255);
            state.slider_state.pressure[region as usize] = level as u8;
        } else if let Some(beam) = beam_of(key) {
            let on = is_above_half(bits);
            state.jvs_state.beams = with_mask(state.jvs_state.beams, 1u8 << beam, on);
        } else if same_text(key, "CHUNIIO_COIN") {
            if is_above_half(bits) {
                state.coin_counter = state.coin_counter + floor_clamped(bits, 65535);
            }
        } else if same_text(key, "CHUNIIO_TEST") {
            let on = is_above_half(bits);
            state.jvs_state.opbtn = with_mask(state.jvs_state.opbtn, CHUNI_IO_OPBTN_TEST, on);
        } else if same_text(key, "CHUNIIO_SERVICE") {
            let on = is_above_half(bits);
            state.jvs_state.opbtn = with_mask(state.jvs_state.opbtn, CHUNI_IO_OPBTN_SERVICE, on);
        }
    }
}

impl ChuniioProxyServer {
    /// The path of the socket when none is given: in the runtime directory of the user, if there
    /// is one, and otherwise under `/tmp`.
    pub open spec fn default_socket_path(uid: u32, runtime_dir_exists: bool) -> Seq<char> {
        if runtime_dir_exists {
            runtime_dir_of(uid) + "/backflow_chuniio"@
        } else {
            "/tmp/backflow_chuniio.sock"@
        }
    }

    /// The path of the socket for a user when none is given. `runtime_dir_exists` says whether the
    /// runtime directory of the user is there.
    pub fn socket_path_for(uid: u32, runtime_dir_exists: bool) -> (r: String)
        ensures
            r@ == Self::default_socket_path(uid, runtime_dir_exists),
    {
        if runtime_dir_exists {
            let mut path = runtime_dir_for(uid);
            path.append("/backflow_chuniio");
            path
        } else {
            "/tmp/backflow_chuniio.sock".to_owned()
        }
    }

    /// A proxy for an untouched controller. `runtime_dir_exists` says whether
    /// `environment::runtime_dir` is there.
    pub fn new(socket_path: Option<String>, runtime_dir_exists: bool) -> (r: Self)
        ensures
            socket_path matches Some(p) ==> r.socket_path == p,
            socket_path is None ==> exists|uid: u32|
                r.socket_path@ == #[trigger] Self::default_socket_path(uid, runtime_dir_exists),
            r.protocol_state@ == untouched(),
            !r.last_coin_pulse,
            r.board_state is None,
    {
        let socket_path = match socket_path {
            Some(p) => p,
            None => Self::socket_path_for(effective_uid(), runtime_dir_exists),
        };
        ChuniioProxyServer {
            socket_path,
            protocol_state: ChuniProtocolState::new(),
            last_coin_pulse: false,
            board_state: None,
        }
    }

    /// Takes the board state that a poll found, if it found one. A state that is already applied
    /// is not applied again.
    pub fn poll_board(&mut self, board: Option<BoardInputState>)
        requires
            (board matches Some(b) && old(self).board_state != Some(b)) ==> after_board(
                old(self).protocol_state@,
                board->0,
                old(self).last_coin_pulse,
            ).coins <= u16::MAX,
        ensures
            polled(*old(self), board, *final(self)),
    {
        if let Some(b) = board {
            if brokenithm_state_changed(&b, &self.board_state) {
                apply_brokenithm_state_to_chuniio(
                    &mut self.protocol_state,
                    &b,
                    &mut self.last_coin_pulse,
                );
                self.board_state = Some(b);
            }
        }
    }

    /// Brings the keyboard events of a packet into the state, in order.
    pub fn process_atomic_input_packet(&mut self, packet: &InputEventPacket)
        requires
            after_events(old(self).protocol_state@, packet.events@).coins <= u16::MAX,
        ensures
            final(self).protocol_state@ == after_events(
                old(self).protocol_state@,
                packet.events@,
            ),
            final(self).socket_path == old(self).socket_path,
            final(self).last_coin_pulse == old(self).last_coin_pulse,
            final(self).board_state == old(self).board_state,
    {
        let ghost start = self.protocol_state@;
        let mut i: usize = 0;
        assert(packet.events@.take(0) =~= Seq::empty());
        while i < packet.events.len()
            invariant
                i <= packet.events.len(),
                after_events(start, packet.events@).coins <= u16::MAX,
                self.protocol_state@ == after_events(start, packet.events@.take(i as int)),
                self.socket_path == old(self).socket_path,
                self.last_coin_pulse == old(self).last_coin_pulse,
                self.board_state == old(self).board_state,
            decreases packet.events.len() - i,
        {
            proof {
                let next = packet.events@.take(i + 1);
                assert(next.drop_last() =~= packet.events@.take(i as int));
                assert(next.last() == packet.events@[i as int]);
                events_insert_coins(start, next);
                events_insert_coins(start, packet.events@);
                lemma_coins_grow(packet.events@, i + 1);
            }
            let event = &packet.events[i];
            if let InputEvent::Keyboard(_) = event {
                Self::handle_keyboard_event(&mut self.protocol_state, event);
            }
            i = i + 1;
        }
        assert(packet.events@.take(i as int) =~= packet.events@);
    }

    /// Takes what the input stream gave: a packet, or nothing once the stream is closed. While a
    /// board is polled, packets are skipped. Tells whether the proxy goes on.
    pub fn receive_packet(&mut self, board_active: bool, packet: Option<&InputEventPacket>) -> (go_on:
        bool)
        requires
            (packet matches Some(p) && !board_active) ==> after_events(
                old(self).protocol_state@,
                packet->0.events@,
            ).coins <= u16::MAX,
        ensures
            go_on == goes_on(board_active, packet),
            received(*old(self), board_active, packet, *final(self)),
    {
        if board_active {
            return true;
        }
        match packet {
            Some(p) => {
                self.process_atomic_input_packet(p);
                true
            },
            None => false,
        }
    }

    /// Takes an event that a client sent. While a board is polled, such events are skipped.
    pub fn receive_event(&mut self, board_active: bool, event: Option<ChuniInputEvent>)
        requires
            event == Some(ChuniInputEvent::CoinInsert) && !board_active ==> old(
                self,
            ).protocol_state.coin_counter < u16::MAX,
        ensures
            received_event(*old(self), board_active, event, *final(self)),
    {
        if let Some(e) = event {
            if !board_active {
                self.protocol_state.process_input_event(e);
            }
        }
    }
}

/// What a poll for a board state makes of the proxy. A state that is new is applied; without one, or
/// with the one that is applied already, the proxy stays as it is.
pub open spec fn polled(
    before: ChuniioProxyServer,
    board: Option<BoardInputState>,
    after: ChuniioProxyServer,
) -> bool {
    &&& (board matches Some(b) && before.board_state != Some(b)) ==> {
        &&& after.protocol_state@ == after_board(
            before.protocol_state@,
            board->0,
            before.last_coin_pulse,
        )
        &&& after.last_coin_pulse == board->0.coin_pulse
        &&& after.board_state == board
        &&& after.socket_path == before.socket_path
    }
    &&& (board is None || before.board_state == board) ==> after == before
}

/// What a packet from the input stream makes of the proxy. It counts unless a board is polled.
pub open spec fn received(
    before: ChuniioProxyServer,
    board_active: bool,
    packet: Option<&InputEventPacket>,
    after: ChuniioProxyServer,
) -> bool {
    &&& (packet matches Some(p) && !board_active) ==> {
        &&& after.protocol_state@ == after_events(before.protocol_state@, packet->0.events@)
        &&& after.socket_path == before.socket_path
        &&& after.last_coin_pulse == before.last_coin_pulse
        &&& after.board_state == before.board_state
    }
    &&& (packet is None || board_active) ==> after == before
}

/// Whether the proxy goes on after it has waited for a packet.
pub open spec fn goes_on(board_active: bool, packet: Option<&InputEventPacket>) -> bool {
    board_active || packet is Some
}

/// What an event of a client makes of the proxy. It counts unless a board is polled.
pub open spec fn received_event(
    before: ChuniioProxyServer,
    board_active: bool,
    event: Option<ChuniInputEvent>,
    after: ChuniioProxyServer,
) -> bool {
    &&& (event matches Some(e) && !board_active) ==> {
        &&& after.protocol_state@ == after_input_event(before.protocol_state@, event->0)
        &&& after.socket_path == before.socket_path
        &&& after.last_coin_pulse == before.last_coin_pulse
        &&& after.board_state == before.board_state
    }
    &&& (event is None || board_active) ==> after == before
}

/// The number of groups of three in LED data; the last one may be incomplete.
pub open spec fn led_groups(data: Seq<u8>) -> nat {
    ((data.len() + 2) / 3) as nat
}

/// The color of slider LED `i`: the data holds one group of blue, red and green for each LED, from
/// the last LED to the first. An LED without a complete group is dark.
pub open spec fn led_color(data: Seq<u8>, i: int) -> Rgb {
    let k = led_groups(data) - 1 - i;
    if 0 <= k && 3 * k + 2 < data.len() {
        Rgb { r: data[3 * k + 1], g: data[3 * k + 2], b: data[3 * k] }
    } else {
        Rgb { r: 0, g: 0, b: 0 }
    }
}

/// The colors of the slider LEDs for some LED data.
pub open spec fn slider_colors(data: Seq<u8>) -> Seq<Rgb> {
    Seq::new(31, |i: int| led_color(data, i))
}

fn decode_slider_leds(data: &Vec<u8>) -> (r: [Rgb; 31])
    ensures
        r@ == slider_colors(data@),
{
    let mut colors: [Rgb; 31] = [Rgb { r: 0, g: 0, b: 0 };31];
    let groups: usize = if data.len() % 3 == 0 {
        data.len() / 3
    } else {
        data.len() / 3 + 1
    };
    assert(groups == led_groups(data@));
    let mut i: usize = 0;
    while i < 31 && i < groups
        invariant
            i <= 31,
            groups == led_groups(data@),
            forall|j: int| 0 <= j < i ==> colors@[j] == led_color(data@, j),
            forall|j: int| i <= j < 31 ==> colors@[j] == (Rgb { r: 0, g: 0, b: 0 }),
        decreases 31 - i,
    {
        let k: usize = groups - 1 - i;
        if data.len() - 3 * k >= 3 {
            colors[i] = Rgb { r: data[3 * k + 1], g: data[3 * k + 2], b: data[3 * k] };
        }
        i = i + 1;
    }
    assert(colors@ =~= slider_colors(data@));
    colors
}

/// What a message from a client leads to.
#[derive(Debug, PartialEq)]
pub struct ClientReply {
    /// The answer to the client.
    pub response: Option<ChuniMessage>,
    /// The slider pressure to put into the protocol state, if it can be locked.
    pub pressure: Option<[u8; 32]>,
    /// The input events to hand on.
    pub events: Vec<ChuniInputEvent>,
    /// The LED colors to hand on.
    pub leds: Option<ChuniLedDataPacket>,
}

/// Whether `response` is the answer to a message.
pub open spec fn answer(
    message: ChuniMessage,
    state: ProtocolView,
    response: Option<ChuniMessage>,
) -> bool {
    match message {
        ChuniMessage::JvsPoll => response == Some(
            ChuniMessage::JvsPollResponse { opbtn: state.opbtn, beams: state.beams },
        ),
        ChuniMessage::CoinCounterRead => response matches Some(
            ChuniMessage::CoinCounterReadResponse { count },
        ) && count == state.coins,
        ChuniMessage::SliderStateRead => response matches Some(
            ChuniMessage::SliderStateReadResponse { pressure },
        ) && pressure@ == state.pressure,
        ChuniMessage::JvsFullStateRead => response matches Some(
            ChuniMessage::JvsFullStateReadResponse { opbtn, beams, pressure, coin_counter },
        ) && opbtn == state.opbtn && beams == state.beams && pressure@ == state.pressure
            && coin_counter == state.coins,
        ChuniMessage::SliderInput { .. } => response == Some(ChuniMessage::Pong),
        ChuniMessage::SliderLedUpdate { .. } => response == Some(ChuniMessage::Pong),
        ChuniMessage::LedUpdate { .. } => response == Some(ChuniMessage::Pong),
        ChuniMessage::Ping => response == Some(ChuniMessage::Pong),
        _ => response is None,
    }
}

/// The touch events for slider data: one for each of the first `n` regions under pressure, in
/// order.
pub open spec fn touches(pressure: Seq<u8>, n: nat) -> Seq<ChuniInputEvent>
    decreases n,
{
    if n == 0 {
        Seq::empty()
    } else {
        let before = touches(pressure, (n - 1) as nat);
        if pressure[n - 1] > 0 {
            before.push(
                ChuniInputEvent::SliderTouch { region: (n - 1) as u8, pressure: pressure[n - 1] },
            )
        } else {
            before
        }
    }
}

/// The LED data that a message carries for the slider. Other boards are not served.
pub open spec fn slider_led_data(message: ChuniMessage) -> Option<Seq<u8>> {
    match message {
        ChuniMessage::SliderLedUpdate { rgb_data } => Some(rgb_data@),
        ChuniMessage::LedUpdate { board, rgb_data } => if board == 2 {
            Some(rgb_data@)
        } else {
            None
        },
        _ => None,
    }
}

/// The state that a client is answered from: that of an untouched controller, where the protocol
/// state is locked.
pub open spec fn known_state(state: Option<&ChuniProtocolState>) -> ProtocolView {
    match state {
        Some(s) => s@,
        None => untouched(),
    }
}

/// What handling a message gives.
pub open spec fn handled(message: ChuniMessage, state: ProtocolView, r: ClientReply) -> bool {
    &&& answer(message, state, r.response)
    &&& r.pressure == (match message {
        ChuniMessage::SliderInput { pressure } => Some(pressure),
        _ => None,
    })
    &&& r.events@ == (match message {
        ChuniMessage::SliderInput { pressure } => touches(pressure@, 32),
        _ => Seq::empty(),
    })
    &&& match slider_led_data(message) {
        Some(data) => r.leds matches Some(p) && p.board == 2 && (
        p.data matches LedBoardData::Slider(colors) && colors@ == slider_colors(data)),
        None => r.leds is None,
    }
}

/// The message that tells a client of a feedback event.
pub open spec fn feedback_message(event: ChuniFeedbackEvent) -> ChuniMessage {
    match event {
        ChuniFeedbackEvent::SliderLeds { rgb_data } => ChuniMessage::SliderLedUpdate { rgb_data },
        ChuniFeedbackEvent::LedBoard { board, rgb_data } => ChuniMessage::LedUpdate {
            board,
            rgb_data,
        },
    }
}

/// What reading from a client brought.
#[derive(Debug, PartialEq)]
pub enum ClientRead {
    Message(ChuniMessage),
    /// The client closed the connection.
    EndOfStream,
    Failed,
}

/// Whether this is what a read from a client leads to, where the connection ends without a message.
pub open spec fn is_step(read: ClientRead, state: ProtocolView, r: Option<ClientReply>) -> bool {
    &&& r is Some <==> read is Message
    &&& read matches ClientRead::Message(message) ==> handled(message, state, r->0)
}

/// The side of the proxy that serves clients.
pub struct InternalChuniioProxyServer {
    /// The number that the next client gets.
    pub next_client_id: u64,
}

impl InternalChuniioProxyServer {
    /// A server that has had no client.
    pub fn new() -> (r: Self)
        ensures
            r.next_client_id == 0,
    {
        InternalChuniioProxyServer { next_client_id: 0 }
    }

    /// The number of a client that connects. Numbers count up from zero.
    pub fn accept_client(&mut self) -> (id: u64)
        requires
            old(self).next_client_id < u64::MAX,
        ensures
            id == old(self).next_client_id,
            final(self).next_client_id == old(self).next_client_id + 1,
    {
        let id: u64 = self.next_client_id;
        self.next_client_id = id + 1;
        id
    }

    /// Handles a message from a client. `state` is the protocol state, unless it is locked.
    pub fn handle_client_message(
        message: ChuniMessage,
        state: Option<&ChuniProtocolState>,
    ) -> (r: ClientReply)
        ensures
            handled(message, known_state(state), r),
    {
        let state: ChuniProtocolState = match state {
            Some(s) => *s,
            None => ChuniProtocolState::new(),
        };
        let no_events: Vec<ChuniInputEvent> = Vec::new();
        match message {
            ChuniMessage::JvsPoll => {
                Self::respond(
                    ChuniMessage::JvsPollResponse {
                        opbtn: state.jvs_state.opbtn,
                        beams: state.jvs_state.beams,
                    },
                )
            },
            ChuniMessage::CoinCounterRead => {
                Self::respond(ChuniMessage::CoinCounterReadResponse { count: state.coin_counter })
            },
            ChuniMessage::SliderStateRead => {
                Self::respond(
                    ChuniMessage::SliderStateReadResponse { pressure: state.slider_state.pressure },
                )
            },
            ChuniMessage::JvsFullStateRead => {
                Self::respond(
                    ChuniMessage::JvsFullStateReadResponse {
                        opbtn: state.jvs_state.opbtn,
                        beams: state.jvs_state.beams,
                        pressure: state.slider_state.pressure,
                        coin_counter: state.coin_counter,
                    },
                )
            },
            ChuniMessage::SliderInput { pressure } => {
                let mut events: Vec<ChuniInputEvent> = Vec::new();
                let mut region: u8 = 0;
                while region < 32
                    invariant
                        region <= 32,
                        events@ == touches(pressure@, region as nat),
                    decreases 32 - region,
                {
                    let value: u8 = pressure[region as usize];
                    if value > 0 {
                        events.push(ChuniInputEvent::SliderTouch { region, pressure: value });
                    }
                    region = region + 1;
                }
                ClientReply {
                    response: Some(ChuniMessage::Pong),
                    pressure: Some(pressure),
                    events,
                    leds: None,
                }
            },
            ChuniMessage::SliderLedUpdate { rgb_data } => {
                Self::show(decode_slider_leds(&rgb_data))
            },
            ChuniMessage::LedUpdate { board, rgb_data } => {
                if board != 2 {
                    return Self::respond(ChuniMessage::Pong);
                }
                Self::show(decode_slider_leds(&rgb_data))
            },
            ChuniMessage::Ping => Self::respond(ChuniMessage::Pong),
            _ => ClientReply { response: None, pressure: None, events: no_events, leds: None },
        }
    }

    fn respond(response: ChuniMessage) -> (r: ClientReply)
        ensures
            r.response == Some(response),
            r.pressure is None,
            r.events@ == Seq::<ChuniInputEvent>::empty(),
            r.leds is None,
    {
        ClientReply { response: Some(response), pressure: None, events: Vec::new(), leds: None }
    }

    fn show(colors: [Rgb; 31]) -> (r: ClientReply)
        ensures
            r.response == Some(ChuniMessage::Pong),
            r.pressure is None,
            r.events@ == Seq::<ChuniInputEvent>::empty(),
            r.leds == Some(ChuniLedDataPacket { board: 2, data: LedBoardData::Slider(colors) }),
    {
        ClientReply {
            response: Some(ChuniMessage::Pong),
            pressure: None,
            events: Vec::new(),
            leds: Some(ChuniLedDataPacket { board: 2, data: LedBoardData::Slider(colors) }),
        }
    }

    /// The message that tells a client of a feedback event. There is one for every event.
    pub fn feedback_event_to_message(event: ChuniFeedbackEvent) -> (r: Option<ChuniMessage>)
        ensures
            r == Some(feedback_message(event)),
    {
        match event {
            ChuniFeedbackEvent::SliderLeds { rgb_data } => Some(
                ChuniMessage::SliderLedUpdate { rgb_data },
            ),
            ChuniFeedbackEvent::LedBoard { board, rgb_data } => Some(
                ChuniMessage::LedUpdate { board, rgb_data },
            ),
        }
    }

    /// One step of serving a client: what a read leads to, or `None` where the connection ends.
    pub fn handle_client(read: ClientRead, state: Option<&ChuniProtocolState>) -> (r: Option<
        ClientReply,
    >)
        ensures
            is_step(read, known_state(state), r),
    {
        match read {
            ClientRead::Message(message) => Some(Self::handle_client_message(message, state)),
            ClientRead::EndOfStream => None,
            ClientRead::Failed => None,
        }
    }
}

/// `CHUNIIO_SLIDER_0` to `CHUNIIO_SLIDER_31` each name their slider region, and no greater number
/// names one.
pub proof fn slider_keycodes(n: u8)
    ensures
        slider_region("CHUNIIO_SLIDER_"@ + decimal_text(n as nat)) == (if n < 32 {
            Some(n)
        } else {
            None
        }),
{
    let prefix = "CHUNIIO_SLIDER_"@;
    let key = prefix + decimal_text(n as nat);
    byte_of_decimal(n);
    assert(prefix =~= key.subrange(0, prefix.len() as int));
    assert(key.skip(prefix.len() as int) =~= decimal_text(n as nat));
}

/// `CHUNIIO_IR_0` to `CHUNIIO_IR_5` each name their IR beam, and no greater number names one.
pub proof fn ir_keycodes(n: u8)
    ensures
        ir_beam("CHUNIIO_IR_"@ + decimal_text(n as nat)) == (if n < 6 {
            Some(n)
        } else {
            None
        }),
{
    let prefix = "CHUNIIO_IR_"@;
    let key = prefix + decimal_text(n as nat);
    byte_of_decimal(n);
    assert(prefix =~= key.subrange(0, prefix.len() as int));
    assert(key.skip(prefix.len() as int) =~= decimal_text(n as nat));
}

/// A press and a release of the same key leave the touched part of the state released and the rest
/// as it was; pressing twice is the same as pressing once, but for coins.
pub proof fn keys_are_levels(state: ProtocolView, key: Seq<char>, first: bool, second: bool)
    requires
        key != "CHUNIIO_COIN"@,
        state.pressure.len() == 32,
    ensures
        after_key(after_key(state, key, first), key, second) == after_key(state, key, second),
{
    assert forall|bits: u8, mask: u8|
        put(#[trigger] put(bits, mask, first), mask, second) == put(bits, mask, second) by {
        lemma_put_twice(bits, mask, first, second);
    }
    if let Some(region) = slider_region(key) {
        let v: u8 = if second {
            255
        } else {
            0
        };
        let u: u8 = if first {
            255
        } else {
            0
        };
        assert(state.pressure.update(region as int, u).update(region as int, v)
            =~= state.pressure.update(region as int, v));
    }
}

proof fn lemma_put_twice(bits: u8, mask: u8, first: bool, second: bool)
    by (bit_vector)
    ensures
        put(put(bits, mask, first), mask, second) == put(bits, mask, second),
{
}

/// A coin pulse that lasts over several board states counts once.
pub proof fn held_pulse_counts_once(
    state: ProtocolView,
    first: BoardInputState,
    second: BoardInputState,
    last_coin_pulse: bool,
)
    requires
        first.coin_pulse,
        second.coin_pulse,
    ensures
        after_board(
            after_board(state, first, last_coin_pulse),
            second,
            first.coin_pulse,
        ).coins == after_board(state, first, last_coin_pulse).coins,
{
}

/// What a list of input events makes of the state, one after the other.
pub open spec fn after_input_events(state: ProtocolView, events: Seq<ChuniInputEvent>) -> ProtocolView
    decreases events.len(),
{
    if events.len() == 0 {
        state
    } else {
        after_input_event(after_input_events(state, events.drop_last()), events.last())
    }
}

/// The touch events of a slider message say what its pressure data says: once the data is in the
/// state, they change nothing.
pub proof fn touches_agree_with_pressure(state: ProtocolView, n: nat)
    requires
        state.pressure.len() == 32,
        n <= 32,
    ensures
        after_input_events(state, touches(state.pressure, n)) == state,
    decreases n,
{
    if n > 0 {
        touches_agree_with_pressure(state, (n - 1) as nat);
        let before = touches(state.pressure, (n - 1) as nat);
        let all = touches(state.pressure, n);
        if state.pressure[n - 1] > 0 {
            assert(all.drop_last() =~= before);
            assert(state.pressure.update(n - 1, state.pressure[n - 1]) =~= state.pressure);
        }
    }
}

/// The game reads what was pressed: a slider key sets the pressure of its region and no other.
pub proof fn slider_keys_are_read_back(
    state: ProtocolView,
    region: u8,
    pressed: bool,
    response: Option<ChuniMessage>,
)
    requires
        region < 32,
        answer(
            ChuniMessage::SliderStateRead,
            after_key(state, "CHUNIIO_SLIDER_"@ + decimal_text(region as nat), pressed),
            response,
        ),
    ensures
        response matches Some(ChuniMessage::SliderStateReadResponse { pressure })
            && pressure@ == state.pressure.update(
            region as int,
            if pressed {
                255
            } else {
                0
            },
        ),
{
    let key = "CHUNIIO_SLIDER_"@ + decimal_text(region as nat);
    slider_keycodes(region);
    keycodes_are_separate(key);
}

/// The game reads what was pressed: an IR key sets or clears the bit of its beam and no other, and
/// leaves the operator buttons alone.
pub proof fn ir_keys_are_read_back(
    state: ProtocolView,
    beam: u8,
    pressed: bool,
    response: Option<ChuniMessage>,
    i: u8,
)
    requires
        beam < 6,
        i < 8,
        answer(
            ChuniMessage::JvsPoll,
            after_key(state, "CHUNIIO_IR_"@ + decimal_text(beam as nat), pressed),
            response,
        ),
    ensures
        response matches Some(ChuniMessage::JvsPollResponse { opbtn, beams }) && opbtn
            == state.opbtn && bit(beams, i) == (if i == beam {
            pressed
        } else {
            bit(state.beams, i)
        }),
{
    let key = "CHUNIIO_IR_"@ + decimal_text(beam as nat);
    ir_keycodes(beam);
    keycodes_are_separate(key);
    put_one_bit(state.beams, beam, pressed, i);
}

/// The game reads what was pressed: the test and the service key set or clear their bits and no
/// others, and leave the beams alone.
pub proof fn operator_keys_are_read_back(
    state: ProtocolView,
    pressed: bool,
    test: Option<ChuniMessage>,
    service: Option<ChuniMessage>,
    i: u8,
)
    requires
        i < 8,
        answer(ChuniMessage::JvsPoll, after_key(state, "CHUNIIO_TEST"@, pressed), test),
        answer(ChuniMessage::JvsPoll, after_key(state, "CHUNIIO_SERVICE"@, pressed), service),
    ensures
        test matches Some(ChuniMessage::JvsPollResponse { opbtn, beams }) && beams == state.beams
            && bit(opbtn, i) == (if i == 0 {
            pressed
        } else {
            bit(state.opbtn, i)
        }),
        service matches Some(ChuniMessage::JvsPollResponse { opbtn, beams }) && beams
            == state.beams && bit(opbtn, i) == (if i == 1 {
            pressed
        } else {
            bit(state.opbtn, i)
        }),
{
    reveal_strlit("CHUNIIO_COIN");
    reveal_strlit("CHUNIIO_TEST");
    reveal_strlit("CHUNIIO_SERVICE");
    assert("CHUNIIO_TEST"@[8] == 'T');
    assert("CHUNIIO_COIN"@[8] == 'C');
    assert("CHUNIIO_SERVICE"@[8] == 'S');
    assert(1u8 << 0u8 == 1u8 && 1u8 << 1u8 == 2u8) by (bit_vector);
    put_one_bit(state.opbtn, 0, pressed, i);
    put_one_bit(state.opbtn, 1, pressed, i);
}

/// The game reads the coins: each press of the coin key counts one, and a release none.
pub proof fn coins_are_read_back(
    state: ProtocolView,
    pressed: bool,
    response: Option<ChuniMessage>,
)
    requires
        answer(
            ChuniMessage::CoinCounterRead,
            after_key(state, "CHUNIIO_COIN"@, pressed),
            response,
        ),
    ensures
        response matches Some(ChuniMessage::CoinCounterReadResponse { count }) && count
            == state.coins + (if pressed {
            1int
        } else {
            0
        }),
{
}

/// A client reads the slider data that it sent: once the pressure that handling a message gives is
/// in the state, it is what a question for the slider is answered with.
pub proof fn slider_input_is_read_back(
    state: ProtocolView,
    pressure: [u8; 32],
    reply: ClientReply,
    response: Option<ChuniMessage>,
)
    requires
        handled(ChuniMessage::SliderInput { pressure }, state, reply),
        answer(
            ChuniMessage::SliderStateRead,
            ProtocolView { pressure: reply.pressure->0@, ..state },
            response,
        ),
    ensures
        response matches Some(ChuniMessage::SliderStateReadResponse { pressure: read })
            && read@ == pressure@,
{
}

/// Handling a packet is handling its key events in order: one more press or release at the end does
/// to the state what that key does by itself. Other events of the packet do nothing, and a packet
/// without events neither.
pub proof fn packets_are_handled_key_by_key(
    state: ProtocolView,
    events: Seq<InputEvent>,
    key: String,
    other: InputEvent,
)
    requires
        other !is Keyboard,
    ensures
        after_events(state, events.push(InputEvent::Keyboard(KeyboardEvent::KeyPress { key })))
            == after_key(after_events(state, events), key@, true),
        after_events(state, events.push(InputEvent::Keyboard(KeyboardEvent::KeyRelease { key })))
            == after_key(after_events(state, events), key@, false),
        after_events(state, events.push(other)) == after_events(state, events),
        after_events(state, Seq::empty()) == state,
{
    assert(events.push(InputEvent::Keyboard(KeyboardEvent::KeyPress { key })).drop_last()
        =~= events);
    assert(events.push(InputEvent::Keyboard(KeyboardEvent::KeyRelease { key })).drop_last()
        =~= events);
    assert(events.push(other).drop_last() =~= events);
}

/// A packet with the events of two packets does what the two do one after the other.
pub proof fn packets_can_be_joined(
    state: ProtocolView,
    first: Seq<InputEvent>,
    second: Seq<InputEvent>,
)
    ensures
        after_events(state, first + second) == after_events(after_events(state, first), second),
    decreases second.len(),
{
    if second.len() > 0 {
        packets_can_be_joined(state, first, second.drop_last());
        assert((first + second).drop_last() =~= first + second.drop_last());
        assert((first + second).last() == second.last());
    } else {
        assert(first + second =~= first);
    }
}

/// Whether an event is a press or release of a key that names a slider region.
pub open spec fn concerns_region(event: InputEvent, region: u8) -> bool {
    match event {
        InputEvent::Keyboard(KeyboardEvent::KeyPress { key }) => slider_region(key@) == Some(
            region,
        ),
        InputEvent::Keyboard(KeyboardEvent::KeyRelease { key }) => slider_region(key@) == Some(
            region,
        ),
        _ => false,
    }
}

/// The last event for a slider region decides: after a packet in which it is a press the region has
/// full pressure, and after one in which it is a release it has none. A region that no event
/// concerns keeps its pressure.
pub proof fn last_slider_event_decides(
    state: ProtocolView,
    events: Seq<InputEvent>,
    region: u8,
    i: int,
)
    requires
        state.pressure.len() == 32,
        region < 32,
        -1 <= i < events.len(),
        i >= 0 ==> concerns_region(events[i], region),
        forall|j: int| i < j < events.len() ==> !concerns_region(#[trigger] events[j], region),
    ensures
        ({
            let pressure = after_events(state, events).pressure;
            &&& pressure.len() == 32
            &&& i == -1 ==> pressure[region as int] == state.pressure[region as int]
            &&& (i >= 0 && events[i]->Keyboard_0 is KeyPress) ==> pressure[region as int] == 255
            &&& (i >= 0 && events[i]->Keyboard_0 is KeyRelease) ==> pressure[region as int] == 0
        }),
    decreases events.len(),
{
    if events.len() > 0 {
        let front = events.drop_last();
        let last = events.last();
        lemma_pressure_len(state, front);
        if i == events.len() - 1 {
            keycodes_of_event_are_separate(last);
        } else {
            assert forall|j: int| i < j < front.len() implies !concerns_region(
                #[trigger] front[j],
                region,
            ) by {
                assert(front[j] == events[j]);
            }
            last_slider_event_decides(state, front, region, i);
            assert(last == events[events.len() - 1]);
        }
    }
}

proof fn keycodes_of_event_are_separate(event: InputEvent)
    ensures
        event matches InputEvent::Keyboard(KeyboardEvent::KeyPress { key }) ==> (slider_region(key@)
            is Some ==> key@ != "CHUNIIO_COIN"@ && key@ != "CHUNIIO_TEST"@ && key@
            != "CHUNIIO_SERVICE"@),
        event matches InputEvent::Keyboard(KeyboardEvent::KeyRelease { key }) ==> (slider_region(
            key@,
        ) is Some ==> key@ != "CHUNIIO_COIN"@ && key@ != "CHUNIIO_TEST"@ && key@
            != "CHUNIIO_SERVICE"@),
{
    match event {
        InputEvent::Keyboard(KeyboardEvent::KeyPress { key }) => {
            keycodes_are_separate(key@);
        },
        InputEvent::Keyboard(KeyboardEvent::KeyRelease { key }) => {
            keycodes_are_separate(key@);
        },
        _ => {},
    }
}

proof fn lemma_pressure_len(state: ProtocolView, events: Seq<InputEvent>)
    requires
        state.pressure.len() == 32,
    ensures
        after_events(state, events).pressure.len() == 32,
    decreases events.len(),
{
    if events.len() > 0 {
        lemma_pressure_len(state, events.drop_last());
    }
}

/// A keycode names a slider region or a beam exactly if the number behind its prefix is small
/// enough, in any notation of the number. Without the prefix it names none.
pub proof fn keycodes_carry_their_number(text: Seq<char>, key: Seq<char>)
    ensures
        slider_region("CHUNIIO_SLIDER_"@ + text) == (if byte_of(text) is Some && byte_of(text)->0
            < 32 {
            byte_of(text)
        } else {
            None
        }),
        ir_beam("CHUNIIO_IR_"@ + text) == (if byte_of(text) is Some && byte_of(text)->0 < 6 {
            byte_of(text)
        } else {
            None
        }),
        slider_region(key) is Some ==> key == "CHUNIIO_SLIDER_"@ + key.skip(15),
        ir_beam(key) is Some ==> key == "CHUNIIO_IR_"@ + key.skip(11),
{
    reveal_strlit("CHUNIIO_SLIDER_");
    reveal_strlit("CHUNIIO_IR_");
    let slider = "CHUNIIO_SLIDER_"@;
    let ir = "CHUNIIO_IR_"@;
    assert(slider =~= (slider + text).subrange(0, slider.len() as int));
    assert((slider + text).skip(slider.len() as int) =~= text);
    assert(ir =~= (ir + text).subrange(0, ir.len() as int));
    assert((ir + text).skip(ir.len() as int) =~= text);
    if slider_region(key) is Some {
        assert(key =~= key.subrange(0, 15) + key.skip(15));
    }
    if ir_beam(key) is Some {
        assert(key =~= key.subrange(0, 11) + key.skip(11));
    }
}

/// Each key changes its own part of the state and nothing else. A slider key sets its region, an IR
/// key the bit of its beam, the test and the service key their button, the coin key the counter. Any
/// other key changes nothing.
pub proof fn keys_change_their_part(state: ProtocolView, key: Seq<char>, pressed: bool, i: u8)
    requires
        state.pressure.len() == 32,
        i < 8,
    ensures
        ({
            let after = after_key(state, key, pressed);
            let coin = key == "CHUNIIO_COIN"@;
            let test = key == "CHUNIIO_TEST"@;
            let service = key == "CHUNIIO_SERVICE"@;
            &&& after.pressure.len() == 32
            &&& slider_region(key) is None ==> after.pressure == state.pressure
            &&& slider_region(key) matches Some(region) ==> {
                &&& after.pressure[region as int] == (if pressed {
                    255u8
                } else {
                    0u8
                })
                &&& forall|r: int|
                    0 <= r < 32 && r != region ==> #[trigger] after.pressure[r]
                        == state.pressure[r]
            }
            &&& ir_beam(key) is None ==> after.beams == state.beams
            &&& ir_beam(key) matches Some(beam) ==> bit(after.beams, i) == (if i == beam {
                pressed
            } else {
                bit(state.beams, i)
            })
            &&& !test && !service ==> after.opbtn == state.opbtn
            &&& test ==> bit(after.opbtn, i) == (if i == 0 {
                pressed
            } else {
                bit(state.opbtn, i)
            })
            &&& service ==> bit(after.opbtn, i) == (if i == 1 {
                pressed
            } else {
                bit(state.opbtn, i)
            })
            &&& after.coins == state.coins + (if coin && pressed {
                1int
            } else {
                0int
            })
        }),
{
    keycodes_are_separate(key);
    lemma_buttons_differ();
    if let Some(beam) = ir_beam(key) {
        put_one_bit(state.beams, beam, pressed, i);
    }
    assert(1u8 << 0u8 == 1u8 && 1u8 << 1u8 == 2u8) by (bit_vector);
    put_one_bit(state.opbtn, 0, pressed, i);
    put_one_bit(state.opbtn, 1, pressed, i);
}

proof fn lemma_buttons_differ()
    ensures
        "CHUNIIO_COIN"@ != "CHUNIIO_TEST"@,
        "CHUNIIO_COIN"@ != "CHUNIIO_SERVICE"@,
        "CHUNIIO_TEST"@ != "CHUNIIO_SERVICE"@,
{
    reveal_strlit("CHUNIIO_COIN");
    reveal_strlit("CHUNIIO_TEST");
    reveal_strlit("CHUNIIO_SERVICE");
    assert("CHUNIIO_TEST"@[8] == 'T');
    assert("CHUNIIO_COIN"@[8] == 'C');
    assert("CHUNIIO_SERVICE"@[8] == 'S');
}

/// An analog value does what the key of the same name does: for a beam, the test and the service
/// button it is pressed above one half and released otherwise. A coin value above one half counts as
/// many coins as its whole part, and a slider value sets its region to its whole part, of at most
/// 255.
pub proof fn analog_values_agree_with_keys(state: ProtocolView, key: String, bits: u32)
    requires
        state.pressure.len() == 32,
    ensures
        ({
            let event = InputEvent::Analog(AnalogEvent { keycode: key, value_bits: bits });
            let after = after_event(state, event);
            let level = floor_within(bits, 255);
            &&& (slider_region(key@) is None && key@ != "CHUNIIO_COIN"@) ==> after == after_key(
                state,
                key@,
                above_half(bits),
            )
            &&& key@ == "CHUNIIO_COIN"@ ==> {
                &&& !above_half(bits) ==> after == state
                &&& above_half(bits) ==> after.coins == state.coins + floor_within(bits, 65535)
                &&& after.opbtn == state.opbtn
                &&& after.beams == state.beams
                &&& after.pressure == state.pressure
            }
            &&& slider_region(key@) matches Some(region) ==> {
                &&& after.pressure.len() == 32
                &&& after.pressure[region as int] == level
                &&& forall|r: int|
                    0 <= r < 32 && r != region ==> #[trigger] after.pressure[r]
                        == state.pressure[r]
                &&& after.opbtn == state.opbtn
                &&& after.beams == state.beams
                &&& after.coins == state.coins
                &&& level == 255 ==> after == after_key(state, key@, true)
                &&& level == 0 ==> after == after_key(state, key@, false)
            }
        }),
{
    keycodes_are_separate(key@);
    lemma_buttons_differ();
}

/// Pointer and joystick events do nothing, and a key event does what its key does.
pub proof fn single_events(
    state: ProtocolView,
    key: String,
    pointer: PointerEvent,
    joystick: JoystickEvent,
)
    ensures
        after_event(state, InputEvent::Pointer(pointer)) == state,
        after_event(state, InputEvent::Joystick(joystick)) == state,
        after_event(state, InputEvent::Keyboard(KeyboardEvent::KeyPress { key })) == after_key(
            state,
            key@,
            true,
        ),
        after_event(state, InputEvent::Keyboard(KeyboardEvent::KeyRelease { key })) == after_key(
            state,
            key@,
            false,
        ),
{
}

/// The input events of clients do what the keys do.
pub proof fn client_events_agree_with_keys(state: ProtocolView, n: u8, on: bool)
    ensures
        n < 32 ==> after_input_event(
            state,
            ChuniInputEvent::SliderTouch {
                region: n,
                pressure: if on {
                    255
                } else {
                    0
                },
            },
        ) == after_key(state, "CHUNIIO_SLIDER_"@ + decimal_text(n as nat), on),
        n < 6 ==> after_input_event(state, ChuniInputEvent::IrBeam { beam: n, broken: on })
            == after_key(state, "CHUNIIO_IR_"@ + decimal_text(n as nat), on),
        after_input_event(state, ChuniInputEvent::OperatorButton { button: 1, pressed: on })
            == after_key(state, "CHUNIIO_TEST"@, on),
        after_input_event(state, ChuniInputEvent::OperatorButton { button: 2, pressed: on })
            == after_key(state, "CHUNIIO_SERVICE"@, on),
        after_input_event(state, ChuniInputEvent::CoinInsert) == after_key(
            state,
            "CHUNIIO_COIN"@,
            true,
        ),
{
    slider_keycodes(n);
    ir_keycodes(n);
    keycodes_are_separate("CHUNIIO_SLIDER_"@ + decimal_text(n as nat));
    keycodes_are_separate("CHUNIIO_IR_"@ + decimal_text(n as nat));
    lemma_buttons_differ();
}

/// Events that are appended come into the state last.
pub proof fn client_events_come_in_order(
    state: ProtocolView,
    events: Seq<ChuniInputEvent>,
    event: ChuniInputEvent,
)
    ensures
        after_input_events(state, Seq::empty()) == state,
        after_input_events(state, events.push(event)) == after_input_event(
            after_input_events(state, events),
            event,
        ),
{
    assert(events.push(event).drop_last() =~= events);
}

/// Of the operator buttons for a board, bit 0 is set exactly if the test button is down, bit 1
/// exactly if the service button is down, and no other.
pub proof fn board_buttons_by_bit(board: BoardInputState, i: u8)
    requires
        i < 8,
    ensures
        bit(board_buttons(board), i) <==> (i == 0 && board.test_button) || (i == 1
            && board.service_button),
{
    let t = board.test_button;
    let s = board.service_button;
    let buttons = board_buttons(board);
    assert(bit(buttons, i) <==> (i == 0 && t) || (i == 1 && s)) by (bit_vector)
        requires
            i < 8,
            buttons == (if t {
                1u8
            } else {
                0u8
            }) | (if s {
                2u8
            } else {
                0u8
            }),
    ;
}

/// The game reads the board: once a board state is applied, test and service are the bits 0 and 1 of
/// the operator buttons, the bit of a beam is set while its air sensor is at rest, the pressure is
/// that of the board, and one coin more is in if a pulse has begun. Apart from the coins, nothing is
/// left of the state before.
pub proof fn boards_are_read_back(
    state: ProtocolView,
    board: BoardInputState,
    last_coin_pulse: bool,
    response: Option<ChuniMessage>,
    i: u8,
)
    requires
        i < 8,
        answer(
            ChuniMessage::JvsFullStateRead,
            after_board(state, board, last_coin_pulse),
            response,
        ),
    ensures
        response matches Some(
            ChuniMessage::JvsFullStateReadResponse { opbtn, beams, pressure, coin_counter },
        ) && {
            &&& bit(opbtn, i) <==> (i == 0 && board.test_button) || (i == 1 && board.service_button)
            &&& bit(beams, i) <==> i < 6 && board.air@[i as int] == 0
            &&& forall|r: int| 0 <= r < 32 ==> #[trigger] pressure@[r] == board.slider@[r]
            &&& board.coin_pulse && !last_coin_pulse ==> coin_counter == state.coins + 1
            &&& !board.coin_pulse || last_coin_pulse ==> coin_counter == state.coins
        },
{
    board_buttons_by_bit(board, i);
    board_beams_by_bit(board.air@, i);
}

/// A poll that finds nothing, or what it found before, changes nothing. One that finds a new state
/// applies it, so that to find it again changes nothing more. The socket stays where it is.
pub proof fn boards_are_applied_once(
    before: ChuniioProxyServer,
    board: BoardInputState,
    after: ChuniioProxyServer,
    again: ChuniioProxyServer,
    idle: ChuniioProxyServer,
)
    requires
        polled(before, Some(board), after),
        polled(after, Some(board), again),
        polled(before, None, idle),
    ensures
        idle == before,
        again == after,
        after.board_state == Some(board),
        after.socket_path == before.socket_path,
        before.board_state != Some(board) ==> {
            &&& after.last_coin_pulse == board.coin_pulse
            &&& after.protocol_state@.pressure == board.slider@
            &&& after.protocol_state@.opbtn == board_buttons(board)
            &&& after.protocol_state@.beams == board_beams(board.air@)
            &&& after.protocol_state@.coins == before.protocol_state@.coins + (if board.coin_pulse
                && !before.last_coin_pulse {
                1int
            } else {
                0int
            })
        },
        before.board_state == Some(board) ==> after == before,
{
}

/// While a board is polled, packets and events of clients change nothing. Otherwise they change the
/// protocol state, and only that.
pub proof fn boards_take_precedence(
    before: ChuniioProxyServer,
    board_active: bool,
    packet: InputEventPacket,
    event: ChuniInputEvent,
    by_packet: ChuniioProxyServer,
    by_event: ChuniioProxyServer,
)
    requires
        received(before, board_active, Some(&packet), by_packet),
        received_event(before, board_active, Some(event), by_event),
    ensures
        board_active ==> by_packet == before && by_event == before,
        !board_active ==> by_packet.protocol_state@ == after_events(
            before.protocol_state@,
            packet.events@,
        ),
        !board_active ==> by_event.protocol_state@ == after_input_event(
            before.protocol_state@,
            event,
        ),
        by_packet.socket_path == before.socket_path,
        by_packet.last_coin_pulse == before.last_coin_pulse,
        by_packet.board_state == before.board_state,
        by_event.socket_path == before.socket_path,
        by_event.last_coin_pulse == before.last_coin_pulse,
        by_event.board_state == before.board_state,
{
}

/// The proxy ends only when its input stream is closed while no board is polled, and then nothing
/// has changed. Where no client has sent an event, nothing changes either.
pub proof fn proxies_end_with_their_input(
    before: ChuniioProxyServer,
    board_active: bool,
    packet: Option<&InputEventPacket>,
    after: ChuniioProxyServer,
    idle: ChuniioProxyServer,
)
    requires
        received(before, board_active, packet, after),
        received_event(before, board_active, None, idle),
    ensures
        idle == before,
        !goes_on(board_active, packet) <==> packet is None && !board_active,
        !goes_on(board_active, packet) ==> after == before,
{
}

/// LED data made of complete groups lights one LED for each group, from the last group to the first:
/// the first byte of a group is blue, the second red, the third green. There are 31 LEDs, and those
/// without a group are dark.
pub proof fn groups_light_leds_from_the_end(data: Seq<u8>, i: int)
    requires
        data.len() % 3 == 0,
        0 <= i < 31,
    ensures
        slider_colors(data).len() == 31,
        3 * (i + 1) <= data.len() ==> {
            let start = data.len() - 3 * (i + 1);
            &&& slider_colors(data)[i].b == data[start]
            &&& slider_colors(data)[i].r == data[start + 1]
            &&& slider_colors(data)[i].g == data[start + 2]
        },
        3 * (i + 1) > data.len() ==> {
            &&& slider_colors(data)[i].r == 0
            &&& slider_colors(data)[i].g == 0
            &&& slider_colors(data)[i].b == 0
        },
{
    let n = data.len() / 3;
    assert(data.len() == 3 * n);
    assert(led_groups(data) == n);
}

/// One or two bytes behind the complete groups stand for an LED that stays dark, and move the
/// complete groups on by one LED.
pub proof fn incomplete_groups_stay_dark(data: Seq<u8>, tail: Seq<u8>, i: int)
    requires
        data.len() % 3 == 0,
        1 <= tail.len() <= 2,
        0 < i < 31,
    ensures
        slider_colors(data + tail)[0] == (Rgb { r: 0, g: 0, b: 0 }),
        slider_colors(data + tail)[i] == slider_colors(data)[i - 1],
{
    let n = data.len() / 3;
    assert(data.len() == 3 * n);
    assert(led_groups(data) == n);
    assert(led_groups(data + tail) == n + 1);
    let k = n - i;
    if 0 <= k {
        assert(3 * k + 2 < data.len());
        assert((data + tail)[3 * k] == data[3 * k]);
        assert((data + tail)[3 * k + 1] == data[3 * k + 1]);
        assert((data + tail)[3 * k + 2] == data[3 * k + 2]);
    }
}

/// Every touch that is handed on is of a region under pressure and carries that pressure, every
/// region under pressure is touched, and the touches come in the order of the regions.
pub proof fn touches_are_the_pressed_regions(pressure: Seq<u8>, n: nat, r: u8)
    requires
        pressure.len() == 32,
        n <= 32,
        r < n,
    ensures
        pressure[r as int] > 0 ==> touches(pressure, n).contains(
            ChuniInputEvent::SliderTouch { region: r, pressure: pressure[r as int] },
        ),
        forall|i: int|
            0 <= i < touches(pressure, n).len() ==> {
                let touch = #[trigger] touches(pressure, n)[i];
                touch is SliderTouch && touch->region < n && touch->pressure
                    == pressure[touch->region as int] && touch->pressure > 0
            },
        forall|i: int, j: int|
            0 <= i < j < touches(pressure, n).len() ==> (#[trigger] touches(
                pressure,
                n,
            )[i])->region < (#[trigger] touches(pressure, n)[j])->region,
    decreases n,
{
    let m = (n - 1) as nat;
    let before = touches(pressure, m);
    let all = touches(pressure, n);
    if m > 0 {
        let s = if r < m {
            r
        } else {
            0
        };
        touches_are_the_pressed_regions(pressure, m, s);
        if r < m && pressure[r as int] > 0 {
            let touch = ChuniInputEvent::SliderTouch { region: r, pressure: pressure[r as int] };
            let i = before.index_of(touch);
            assert(all[i] == touch);
        }
    }
    if pressure[m as int] > 0 {
        assert(all.last() == ChuniInputEvent::SliderTouch {
            region: m as u8,
            pressure: pressure[m as int],
        });
        assert(all[all.len() - 1] == all.last());
    }
    assert forall|i: int| 0 <= i < all.len() implies {
        let touch = #[trigger] all[i];
        touch is SliderTouch && touch->region < n && touch->pressure
            == pressure[touch->region as int] && touch->pressure > 0
    } by {
        if i < before.len() {
            assert(all[i] == before[i]);
        }
    }
    assert forall|i: int, j: int| 0 <= i < j < all.len() implies (#[trigger] all[i])->region < (
    #[trigger] all[j])->region by {
        assert(all[i] == before[i]);
        if j < before.len() {
            assert(all[j] == before[j]);
        }
    }
}

/// Only slider data brings pressure and touches, and only LED data for the slider brings colors. It
/// brings the same ones whether it names the slider by its board, which is number 2, or not; other
/// boards bring none.
pub proof fn replies_to_data(
    state: ProtocolView,
    pressure: [u8; 32],
    rgb_data: Vec<u8>,
    board: u8,
    by_input: ClientReply,
    by_slider: ClientReply,
    by_board: ClientReply,
)
    requires
        handled(ChuniMessage::SliderInput { pressure }, state, by_input),
        handled(ChuniMessage::SliderLedUpdate { rgb_data }, state, by_slider),
        handled(ChuniMessage::LedUpdate { board, rgb_data }, state, by_board),
    ensures
        by_input.pressure == Some(pressure),
        by_input.events@ == touches(pressure@, 32),
        by_input.leds is None,
        by_slider.pressure is None && by_slider.events@.len() == 0,
        by_board.pressure is None && by_board.events@.len() == 0,
        by_slider.leds is Some,
        by_board.leds is Some <==> board == 2,
        by_slider.leds->0.board == 2,
        by_slider.leds->0.data matches LedBoardData::Slider(colors) && colors@ == slider_colors(
            rgb_data@,
        ),
        board == 2 ==> by_board.leds->0.board == 2 && (by_board.leds->0.data matches LedBoardData::Slider(
            colors,
        ) && colors@ == slider_colors(rgb_data@)),
        by_input.response == Some(ChuniMessage::Pong),
        by_slider.response == Some(ChuniMessage::Pong),
        by_board.response == Some(ChuniMessage::Pong),
{
}

/// A question about the controller changes nothing and hands nothing on, and the answer to the one
/// about the whole state is made of the answers to the others.
pub proof fn answers_agree(
    state: ProtocolView,
    poll: ClientReply,
    coins: ClientReply,
    slider: ClientReply,
    full: ClientReply,
    ping: ClientReply,
)
    requires
        handled(ChuniMessage::JvsPoll, state, poll),
        handled(ChuniMessage::CoinCounterRead, state, coins),
        handled(ChuniMessage::SliderStateRead, state, slider),
        handled(ChuniMessage::JvsFullStateRead, state, full),
        handled(ChuniMessage::Ping, state, ping),
    ensures
        full.response matches Some(
            ChuniMessage::JvsFullStateReadResponse { opbtn, beams, pressure, coin_counter },
        ) && {
            &&& opbtn == state.opbtn
            &&& beams == state.beams
            &&& pressure@ == state.pressure
            &&& coin_counter == state.coins
            &&& poll.response == Some(ChuniMessage::JvsPollResponse { opbtn, beams })
            &&& coins.response == Some(ChuniMessage::CoinCounterReadResponse { count: coin_counter })
            &&& slider.response matches Some(
                ChuniMessage::SliderStateReadResponse { pressure: read },
            ) && read@ == pressure@
        },
        ping.response == Some(ChuniMessage::Pong),
        hands_nothing_on(poll),
        hands_nothing_on(coins),
        hands_nothing_on(slider),
        hands_nothing_on(full),
        hands_nothing_on(ping),
{
}

/// Whether handling a message has no effect but its answer.
pub open spec fn hands_nothing_on(reply: ClientReply) -> bool {
    reply.pressure is None && reply.events@.len() == 0 && reply.leds is None
}

/// A message that is itself an answer is not answered, and hands nothing on.
pub proof fn answers_are_not_answered(message: ChuniMessage, state: ProtocolView, r: ClientReply)
    requires
        handled(message, state, r),
        message is Pong || message is JvsPollResponse || message is CoinCounterReadResponse
            || message is SliderStateReadResponse || message is JvsFullStateReadResponse,
    ensures
        r.response is None,
        hands_nothing_on(r),
{
}

/// While the protocol state is locked, a client reads an untouched controller: no button, no coin, no
/// pressure, and all six beams clear.
pub proof fn locked_state_reads_as_untouched(response: Option<ChuniMessage>, i: u8)
    requires
        i < 8,
        answer(ChuniMessage::JvsFullStateRead, known_state(None), response),
    ensures
        response matches Some(
            ChuniMessage::JvsFullStateReadResponse { opbtn, beams, pressure, coin_counter },
        ) && {
            &&& opbtn == 0
            &&& bit(beams, i) <==> i < 6
            &&& forall|r: int| 0 <= r < 32 ==> #[trigger] pressure@[r] == 0
            &&& coin_counter == 0
        },
{
    nothing_is_touched_at_first(i);
}

/// Where the protocol state is not locked, a client is answered from it.
pub proof fn unlocked_state_is_read(state: ChuniProtocolState)
    ensures
        known_state(Some(&state)).opbtn == state.jvs_state.opbtn,
        known_state(Some(&state)).beams == state.jvs_state.beams,
        known_state(Some(&state)).pressure == state.slider_state.pressure@,
        known_state(Some(&state)).coins == state.coin_counter,
{
}

/// The message for a feedback event carries its LED data: for the slider without a board, and for a
/// board with its number.
pub proof fn feedback_messages_carry_the_data(board: u8, rgb_data: Vec<u8>)
    ensures
        feedback_message(ChuniFeedbackEvent::SliderLeds { rgb_data })
            == (ChuniMessage::SliderLedUpdate { rgb_data }),
        feedback_message(ChuniFeedbackEvent::LedBoard { board, rgb_data })
            == (ChuniMessage::LedUpdate { board, rgb_data }),
{
}

/// The number of coins in a packet is that of its presses of the coin key.
pub proof fn coins_count_presses(events: Seq<InputEvent>, key: String, other: InputEvent)
    requires
        other !is Keyboard,
    ensures
        coins_in(Seq::empty()) == 0,
        coins_in(events.push(InputEvent::Keyboard(KeyboardEvent::KeyPress { key }))) == coins_in(
            events,
        ) + (if key@ == "CHUNIIO_COIN"@ {
            1int
        } else {
            0int
        }),
        coins_in(events.push(InputEvent::Keyboard(KeyboardEvent::KeyRelease { key }))) == coins_in(
            events,
        ),
        coins_in(events.push(other)) == coins_in(events),
{
    assert(events.push(InputEvent::Keyboard(KeyboardEvent::KeyPress { key })).drop_last()
        =~= events);
    assert(events.push(InputEvent::Keyboard(KeyboardEvent::KeyRelease { key })).drop_last()
        =~= events);
    assert(events.push(other).drop_last() =~= events);
}

/// Without a path of its own the proxy takes the one that the configuration has by default in the
/// runtime directory of the user, and otherwise one under `/tmp`.
pub proof fn default_proxy_sockets_agree(uid: u32)
    ensures
        ChuniioProxyServer::default_socket_path(uid, true) == proxy_socket_path(None, uid, true),
        ChuniioProxyServer::default_socket_path(uid, false) == proxy_socket_path(None, uid, false)
            + ".sock"@,
{
    reveal_strlit("/tmp/backflow_chuniio.sock");
    reveal_strlit("/tmp/backflow_chuniio");
    reveal_strlit(".sock");
    assert("/tmp/backflow_chuniio.sock"@ =~= "/tmp/backflow_chuniio"@ + ".sock"@);
}

/// A connection ends when the client closes it or a read fails, and goes on with every message, also
/// one that has no answer.
pub proof fn connections_end_without_a_message(
    message: ChuniMessage,
    state: ProtocolView,
    by_message: Option<ClientReply>,
    by_end: Option<ClientReply>,
    by_failure: Option<ClientReply>,
)
    requires
        is_step(ClientRead::Message(message), state, by_message),
        is_step(ClientRead::EndOfStream, state, by_end),
        is_step(ClientRead::Failed, state, by_failure),
    ensures
        by_message is Some && handled(message, state, by_message->0),
        by_end is None,
        by_failure is None,
{
}

} // verus!
