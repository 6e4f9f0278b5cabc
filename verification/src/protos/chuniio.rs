//! The chuniio protocol: what a game asks of the proxy, and the state that it is answered from.
use vstd::prelude::*;

verus! {

/// The operator button bit of the test button.
pub const CHUNI_IO_OPBTN_TEST: u8 = 0x01;

/// The operator button bit of the service button.
pub const CHUNI_IO_OPBTN_SERVICE: u8 = 0x02;

/// The beam bits of an untouched controller, and of a board with all sensors at rest: every bit is
/// set. IR keys and client events use the bits the other way round, and set the bit of a beam that
/// is blocked.
pub const BEAMS_CLEAR: u8 = 0x3f;

/// A message between the proxy and a client.
#[derive(Debug, PartialEq)]
pub enum ChuniMessage {
    JvsPoll,
    JvsPollResponse { opbtn: u8, beams: u8 },
    CoinCounterRead,
    CoinCounterReadResponse { count: u16 },
    SliderInput { pressure: [u8; 32] },
    SliderLedUpdate { rgb_data: Vec<u8> },
    LedUpdate { board: u8, rgb_data: Vec<u8> },
    Ping,
    Pong,
    SliderStateRead,
    SliderStateReadResponse { pressure: [u8; 32] },
    JvsFullStateRead,
    JvsFullStateReadResponse { opbtn: u8, beams: u8, pressure: [u8; 32], coin_counter: u16 },
}

/// An input event on the way to the protocol state.
#[derive(Debug, Clone, Copy, PartialEq)]
pub enum ChuniInputEvent {
    CoinInsert,
    /// `button` is the operator button bit.
    OperatorButton { button: u8, pressed: bool },
    SliderTouch { region: u8, pressure: u8 },
    IrBeam { beam: u8, broken: bool },
}

/// A feedback event on the way to a client.
#[derive(Debug, PartialEq)]
pub enum ChuniFeedbackEvent {
    SliderLeds { rgb_data: Vec<u8> },
    LedBoard { board: u8, rgb_data: Vec<u8> },
}

/// Operator buttons and IR beams.
#[derive(Debug, Clone, Copy, PartialEq)]
pub struct ChuniJvsState {
    pub opbtn: u8,
    pub beams: u8,
}

/// The pressure of each slider region.
#[derive(Debug, Clone, Copy, PartialEq)]
pub struct ChuniSliderState {
    pub pressure: [u8; 32],
}

/// The state of the virtual controller.
#[derive(Debug, Clone, Copy, PartialEq)]
pub struct ChuniProtocolState {
    pub jvs_state: ChuniJvsState,
    pub slider_state: ChuniSliderState,
    pub coin_counter: u16,
}

/// What a protocol state holds. Coins are counted without bound.
pub struct ProtocolView {
    pub opbtn: u8,
    pub beams: u8,
    pub pressure: Seq<u8>,
    pub coins: nat,
}

impl View for ChuniProtocolState {
    type V = ProtocolView;

    open spec fn view(&self) -> ProtocolView {
        ProtocolView {
            opbtn: self.jvs_state.opbtn,
            beams: self.jvs_state.beams,
            pressure: self.slider_state.pressure@,
            coins: self.coin_counter as nat,
        }
    }
}

/// `bits` with `mask` set or cleared.
pub open spec fn put(bits: u8, mask: u8, on: bool) -> u8 {
    if on {
        bits | mask
    } else {
        bits & !mask
    }
}

/// Whether bit `i` is set.
pub open spec fn bit(bits: u8, i: u8) -> bool {
    (bits >> i) & 1 == 1
}

/// Setting or clearing one bit leaves the others as they were.
pub proof fn put_one_bit(bits: u8, i: u8, on: bool, j: u8)
    by (bit_vector)
    requires
        i < 8,
        j < 8,
    ensures
        bit(put(bits, 1u8 << i, on), j) == (if i == j {
            on
        } else {
            bit(bits, j)
        }),
{
}

/// `bits` with `mask` set or cleared.
pub fn with_mask(bits: u8, mask: u8, on: bool) -> (r: u8)
    ensures
        r == put(bits, mask, on),
{
    if on {
        bits | mask
    } else {
        bits & !mask
    }
}

/// The state of a controller that nobody touches.
pub open spec fn untouched() -> ProtocolView {
    ProtocolView {
        opbtn: 0,
        beams: BEAMS_CLEAR,
        pressure: Seq::new(32, |i: int| 0u8),
        coins: 0,
    }
}

/// What one input event makes of the state. A broken beam sets its bit.
pub open spec fn after_input_event(state: ProtocolView, event: ChuniInputEvent) -> ProtocolView {
    match event {
        ChuniInputEvent::CoinInsert => ProtocolView { coins: state.coins + 1, ..state },
        ChuniInputEvent::OperatorButton { button, pressed } => ProtocolView {
            opbtn: put(state.opbtn, button, pressed),
            ..state
        },
        ChuniInputEvent::SliderTouch { region, pressure } => if region < 32 {
            ProtocolView { pressure: state.pressure.update(region as int, pressure), ..state }
        } else {
            state
        },
        ChuniInputEvent::IrBeam { beam, broken } => if beam < 6 {
            ProtocolView { beams: put(state.beams, 1u8 << beam, broken), ..state }
        } else {
            state
        },
    }
}

/// The state with the pressure of all slider regions replaced.
pub open spec fn with_pressure(state: ProtocolView, pressure: Seq<u8>) -> ProtocolView {
    ProtocolView { pressure, ..state }
}

impl ChuniProtocolState {
    /// The state of a controller that nobody touches.
    pub fn new() -> (r: Self)
        ensures
            r@ == untouched(),
    {
        let r = ChuniProtocolState {
            jvs_state: ChuniJvsState { opbtn: 0, beams: BEAMS_CLEAR },
            slider_state: ChuniSliderState { pressure: [0u8; 32] },
            coin_counter: 0,
        };
        assert(r@.pressure =~= untouched().pressure);
        r
    }

    /// Puts the pressure of all slider regions into the state.
    pub fn set_pressure(&mut self, pressure: [u8; 32])
        ensures
            final(self)@ == with_pressure(old(self)@, pressure@),
    {
        self.slider_state.pressure = pressure;
    }

    /// Brings one input event into the state. A region or beam that does not exist is ignored.
    pub fn process_input_event(&mut self, event: ChuniInputEvent)
        requires
            event is CoinInsert ==> old(self).coin_counter < u16::MAX,
        ensures
            final(self)@ == after_input_event(old(self)@, event),
    {
        match event {
            ChuniInputEvent::CoinInsert => {
                self.coin_counter = self.coin_counter + 1;
            },
            ChuniInputEvent::OperatorButton { button, pressed } => {
                self.jvs_state.opbtn = with_mask(self.jvs_state.opbtn, button, pressed);
            },
            ChuniInputEvent::SliderTouch { region, pressure } => {
                if region < 32 {
                    self.slider_state.pressure[region as usize] = pressure;
                }
            },
            ChuniInputEvent::IrBeam { beam, broken } => {
                if beam < 6 {
                    self.jvs_state.beams = with_mask(self.jvs_state.beams, 1u8 << beam, broken);
                }
            },
        }
    }
}

/// A bit of a byte is set exactly if the byte shares it with the power of two of its place, and two
/// bytes with the same bits are the same.
pub proof fn bits_make_the_byte(a: u8, b: u8, i: u8)
    requires
        i < 8,
    ensures
        bit(a, i) <==> a & (1u8 << i) != 0,
        (bit(a, 0) == bit(b, 0) && bit(a, 1) == bit(b, 1) && bit(a, 2) == bit(b, 2) && bit(a, 3)
            == bit(b, 3) && bit(a, 4) == bit(b, 4) && bit(a, 5) == bit(b, 5) && bit(a, 6) == bit(
            b,
            6,
        ) && bit(a, 7) == bit(b, 7)) ==> a == b,
{
    assert(bit(a, i) <==> a & (1u8 << i) != 0) by (bit_vector)
        requires
            i < 8,
    ;
    assert((bit(a, 0) == bit(b, 0) && bit(a, 1) == bit(b, 1) && bit(a, 2) == bit(b, 2) && bit(a, 3)
        == bit(b, 3) && bit(a, 4) == bit(b, 4) && bit(a, 5) == bit(b, 5) && bit(a, 6) == bit(b, 6)
        && bit(a, 7) == bit(b, 7)) ==> a == b) by (bit_vector);
}

/// Setting or clearing a mask gives each of its bits the value, and leaves the others as they were.
pub proof fn masks_change_their_bits(bits: u8, mask: u8, on: bool, j: u8)
    by (bit_vector)
    requires
        j < 8,
    ensures
        bit(mask, j) ==> bit(put(bits, mask, on), j) == on,
        !bit(mask, j) ==> bit(put(bits, mask, on), j) == bit(bits, j),
{
}

/// On a controller that nobody touches no operator button is down, all six beams are clear, no
/// region is under pressure and no coin is in.
pub proof fn nothing_is_touched_at_first(i: u8)
    requires
        i < 8,
    ensures
        !bit(untouched().opbtn, i),
        bit(untouched().beams, i) <==> i < 6,
        untouched().pressure.len() == 32,
        forall|r: int| 0 <= r < 32 ==> #[trigger] untouched().pressure[r] == 0,
        untouched().coins == 0,
{
    assert(!bit(0, i)) by (bit_vector);
    assert(bit(0x3f, i) <==> i < 6) by (bit_vector)
        requires
            i < 8,
    ;
}

/// A coin adds one to the counter and changes nothing else.
pub proof fn coin_events_count(state: ProtocolView)
    ensures
        ({
            let after = after_input_event(state, ChuniInputEvent::CoinInsert);
            &&& after.coins == state.coins + 1
            &&& after.opbtn == state.opbtn
            &&& after.beams == state.beams
            &&& after.pressure == state.pressure
        }),
{
}

/// A button event gives the bits of its button the value, and leaves the other bits and the rest of
/// the state as they were.
pub proof fn button_events_set_their_bits(state: ProtocolView, button: u8, pressed: bool, i: u8)
    requires
        i < 8,
    ensures
        ({
            let after = after_input_event(
                state,
                ChuniInputEvent::OperatorButton { button, pressed },
            );
            &&& bit(after.opbtn, i) == (if bit(button, i) {
                pressed
            } else {
                bit(state.opbtn, i)
            })
            &&& after.beams == state.beams
            &&& after.pressure == state.pressure
            &&& after.coins == state.coins
        }),
{
    masks_change_their_bits(state.opbtn, button, pressed, i);
}

/// A touch gives its region the pressure, and leaves the other regions and the rest of the state as
/// they were. A region that does not exist changes nothing.
pub proof fn touch_events_set_their_region(
    state: ProtocolView,
    region: u8,
    pressure: u8,
    i: int,
)
    requires
        state.pressure.len() == 32,
        0 <= i < 32,
    ensures
        ({
            let after = after_input_event(state, ChuniInputEvent::SliderTouch { region, pressure });
            &&& after.pressure.len() == 32
            &&& after.pressure[i] == (if i == region {
                pressure
            } else {
                state.pressure[i]
            })
            &&& after.opbtn == state.opbtn
            &&& after.beams == state.beams
            &&& after.coins == state.coins
            &&& region >= 32 ==> after == state
        }),
{
}

/// A beam event sets the bit of a beam that is broken and clears that of one that is not, and leaves
/// the other beams and the rest of the state as they were. A beam that does not exist changes
/// nothing.
pub proof fn beam_events_set_their_bit(state: ProtocolView, beam: u8, broken: bool, i: u8)
    requires
        i < 8,
    ensures
        ({
            let after = after_input_event(state, ChuniInputEvent::IrBeam { beam, broken });
            &&& bit(after.beams, i) == (if i == beam && i < 6 {
                broken
            } else {
                bit(state.beams, i)
            })
            &&& after.opbtn == state.opbtn
            &&& after.pressure == state.pressure
            &&& after.coins == state.coins
            &&& beam >= 6 ==> after == state
        }),
{
    if beam < 6 {
        put_one_bit(state.beams, beam, broken, i);
    }
}

/// States with the same view are the same, part by part.
pub proof fn state_views_lose_nothing(a: ChuniProtocolState, b: ChuniProtocolState)
    ensures
        a@ == b@ <==> {
            &&& a.jvs_state.opbtn == b.jvs_state.opbtn
            &&& a.jvs_state.beams == b.jvs_state.beams
            &&& a.slider_state.pressure@ == b.slider_state.pressure@
            &&& a.coin_counter == b.coin_counter
        },
{
}

/// Pressure that is put into the state is that of every region afterwards, and nothing else changes.
pub proof fn pressure_is_replaced(state: ProtocolView, pressure: Seq<u8>)
    ensures
        with_pressure(state, pressure).pressure == pressure,
        with_pressure(state, pressure).opbtn == state.opbtn,
        with_pressure(state, pressure).beams == state.beams,
        with_pressure(state, pressure).coins == state.coins,
{
}

} // verus!
