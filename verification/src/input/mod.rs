//! Input events, and the packets that carry them.
use vstd::prelude::*;

pub mod analog;
pub mod atomic;
pub mod brokenithm;
pub mod io_server;
pub mod transport;
pub mod unix_socket;
pub mod web;

verus! {

/// A packet of input events, as a client sends it.
#[derive(Debug, PartialEq)]
pub struct InputEventPacket {
    /// The device that the events come from, used for routing.
    pub device_id: String,
    /// The time of the packet, in epoch milliseconds.
    pub timestamp: u64,
    /// The events that occurred, in order.
    pub events: Vec<InputEvent>,
}

/// What a packet holds.
pub struct PacketView {
    pub device_id: Seq<char>,
    pub timestamp: u64,
    pub events: Seq<InputEvent>,
}

impl View for InputEventPacket {
    type V = PacketView;

    open spec fn view(&self) -> PacketView {
        PacketView {
            device_id: self.device_id@,
            timestamp: self.timestamp,
            events: self.events@,
        }
    }
}

#[derive(Debug, PartialEq)]
pub enum InputEvent {
    /// A key press or release.
    Keyboard(KeyboardEvent),
    /// A custom analog event.
    Analog(AnalogEvent),
    /// A pointer button, move, or scroll.
    Pointer(PointerEvent),
    /// A joystick button or axis.
    Joystick(JoystickEvent),
}

/// A key press or release. The key is an evdev code, or a custom one.
#[derive(Debug, PartialEq)]
pub enum KeyboardEvent {
    KeyPress { key: String },
    KeyRelease { key: String },
}

/// A slider or knob movement.
#[derive(Debug, PartialEq)]
pub struct AnalogEvent {
    /// The custom keycode, used for routing and identification.
    pub keycode: String,
    /// The value, as the bits of an IEEE 754 single-precision number.
    pub value_bits: u32,
}

/// An event of a mouse, a trackpad, or another relative pointing device.
#[derive(Debug, Clone, Copy, PartialEq)]
pub enum PointerEvent {
    /// A button press. Button 1 is the left one.
    Click { button: u8 },
    /// A button release.
    ClickRelease { button: u8 },
    /// A change of position. Positive is to the right and down.
    Move { x_delta: i32, y_delta: i32 },
    /// A scroll, horizontal or vertical.
    Scroll { x_delta: i32, y_delta: i32 },
}

/// A joystick button press or release, or an axis movement.
#[derive(Debug, Clone, Copy, PartialEq)]
pub enum JoystickEvent {
    ButtonPress { button: u8 },
    ButtonRelease { button: u8 },
    AxisMovement { stick: u8, x: i16, y: i16 },
}

impl Clone for KeyboardEvent {
    fn clone(&self) -> (r: Self)
        ensures
            r == *self,
    {
        match self {
            KeyboardEvent::KeyPress { key } => KeyboardEvent::KeyPress { key: key.clone() },
            KeyboardEvent::KeyRelease { key } => KeyboardEvent::KeyRelease { key: key.clone() },
        }
    }
}

impl Clone for AnalogEvent {
    fn clone(&self) -> (r: Self)
        ensures
            r == *self,
    {
        AnalogEvent { keycode: self.keycode.clone(), value_bits: self.value_bits }
    }
}

impl Clone for InputEvent {
    fn clone(&self) -> (r: Self)
        ensures
            r == *self,
    {
        match self {
            InputEvent::Keyboard(e) => InputEvent::Keyboard(e.clone()),
            InputEvent::Analog(e) => InputEvent::Analog(e.clone()),
            InputEvent::Pointer(e) => InputEvent::Pointer(*e),
            InputEvent::Joystick(e) => InputEvent::Joystick(*e),
        }
    }
}

/// A list of the same events.
pub fn clone_events(events: &Vec<InputEvent>) -> (r: Vec<InputEvent>)
    ensures
        r@ == events@,
{
    let mut r: Vec<InputEvent> = Vec::new();
    let mut i: usize = 0;
    while i < events.len()
        invariant
            i <= events.len(),
            r@ == events@.take(i as int),
        decreases events.len() - i,
    {
        let e = events[i].clone();
        assert(events@.take(i + 1) =~= events@.take(i as int).push(events@[i as int]));
        r.push(e);
        i = i + 1;
    }
    assert(events@.take(i as int) =~= events@);
    r
}

impl Clone for InputEventPacket {
    fn clone(&self) -> (r: Self)
        ensures
            r@ == self@,
    {
        InputEventPacket {
            device_id: self.device_id.clone(),
            timestamp: self.timestamp,
            events: clone_events(&self.events),
        }
    }
}

/// A packet with one more event, at its end.
pub open spec fn with_event(packet: PacketView, event: InputEvent) -> PacketView {
    PacketView { events: packet.events.push(event), ..packet }
}

impl InputEventPacket {
    /// A packet without events.
    pub fn new(device_id: String, timestamp: u64) -> (r: Self)
        ensures
            r@ == (PacketView {
                device_id: device_id@,
                timestamp: timestamp,
                events: Seq::empty(),
            }),
    {
        InputEventPacket { device_id, timestamp, events: Vec::new() }
    }

    /// Adds an event at the end of the packet.
    pub fn add_event(&mut self, event: InputEvent)
        ensures
            final(self)@ == with_event(old(self)@, event),
    {
        self.events.push(event);
    }
}

/// What came of waiting for a packet on a stream.
#[derive(Debug)]
pub enum Received {
    Packet(InputEventPacket),
    /// The stream is closed.
    Closed,
    /// Packets were lost, because the receiver fell behind.
    Lagged,
}

/// What a receiver does next.
#[derive(Debug)]
pub enum NextStep {
    /// It is done, with the packet if there is one.
    Done(Option<InputEventPacket>),
    /// It waits once more.
    Again,
}

/// What a receiver does after it has waited.
pub open spec fn next_step(retried: bool, received: Received) -> NextStep {
    match received {
        Received::Packet(packet) => NextStep::Done(Some(packet)),
        Received::Closed => NextStep::Done(None),
        Received::Lagged => if retried {
            NextStep::Done(None)
        } else {
            NextStep::Again
        },
    }
}

/// A packet that has come is never lost, a receiver that gets none is not given one, and it waits
/// once more only after it fell behind for the first time.
pub proof fn receivers_wait_at_most_twice(retried: bool, received: Received)
    ensures
        next_step(retried, received) is Done && next_step(retried, received)->Done_0 is Some
            <==> received is Packet,
        received is Packet ==> next_step(retried, received)->Done_0->0 == received->Packet_0,
        next_step(retried, received) is Again <==> received is Lagged && !retried,
{
}

/// Decides after a receiver has waited. One that fell behind waits once more, and `retried` says
/// that it has.
pub fn after_receive(retried: bool, received: Received) -> (r: NextStep)
    ensures
        r == next_step(retried, received),
{
    match received {
        Received::Packet(packet) => NextStep::Done(Some(packet)),
        Received::Closed => NextStep::Done(None),
        Received::Lagged => if retried {
            NextStep::Done(None)
        } else {
            NextStep::Again
        },
    }
}

/// Packets with the same view carry the same.
pub proof fn packet_views_lose_nothing(a: InputEventPacket, b: InputEventPacket)
    ensures
        a@ == b@ <==> a.device_id@ == b.device_id@ && a.timestamp == b.timestamp && a.events@
            == b.events@,
{
}

/// An event that is added comes last, behind all that were there, and the rest of the packet stays as
/// it is.
pub proof fn added_events_come_last(packet: PacketView, event: InputEvent)
    ensures
        with_event(packet, event).events.len() == packet.events.len() + 1,
        with_event(packet, event).events.last() == event,
        with_event(packet, event).events.drop_last() == packet.events,
        with_event(packet, event).device_id == packet.device_id,
        with_event(packet, event).timestamp == packet.timestamp,
{
    assert(with_event(packet, event).events.drop_last() =~= packet.events);
}

} // verus!
