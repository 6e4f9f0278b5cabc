//! Feedback events: what goes back to the devices, such as LED colors and vibration.
use vstd::prelude::*;

verus! {

/// A packet of feedback events.
#[derive(Debug, PartialEq)]
pub struct FeedbackEventPacket {
    /// The device that the feedback is about.
    pub device_id: String,
    /// The time of the packet, in epoch milliseconds.
    pub timestamp: u64,
    /// The events, in order.
    pub events: Vec<FeedbackEvent>,
}

/// What a feedback packet holds.
pub struct FeedbackView {
    pub device_id: Seq<char>,
    pub timestamp: u64,
    pub events: Seq<FeedbackEvent>,
}

impl View for FeedbackEventPacket {
    type V = FeedbackView;

    open spec fn view(&self) -> FeedbackView {
        FeedbackView {
            device_id: self.device_id@,
            timestamp: self.timestamp,
            events: self.events@,
        }
    }
}

#[derive(Debug, Clone, Copy, PartialEq)]
pub enum FeedbackEvent {
    Led(LedEvent),
    Haptic(HapticEvent),
}

#[derive(Debug, Clone, Copy, PartialEq)]
pub enum LedEvent {
    /// Switches an LED, with a brightness and a color if given.
    SetLed { led_id: u32, on: bool, brightness: Option<u8>, rgb: Option<(u8, u8, u8)> },
    /// Lets an LED show a pattern.
    SetPattern { led_id: u32, pattern: LedPattern },
}

#[derive(Debug, Clone, Copy, PartialEq)]
pub enum LedPattern {
    Solid,
}

#[derive(Debug, Clone, Copy, PartialEq)]
pub enum HapticEvent {
    Vibrate { motor_id: u32, intensity: u8, duration_ms: u32 },
}

impl Clone for FeedbackEventPacket {
    fn clone(&self) -> (r: Self)
        ensures
            r@ == self@,
    {
        let mut events: Vec<FeedbackEvent> = Vec::new();
        let mut i: usize = 0;
        while i < self.events.len()
            invariant
                i <= self.events.len(),
                events@ == self.events@.take(i as int),
            decreases self.events.len() - i,
        {
            assert(self.events@.take(i + 1) =~= self.events@.take(i as int).push(
                self.events@[i as int],
            ));
            events.push(self.events[i]);
            i = i + 1;
        }
        assert(self.events@.take(i as int) =~= self.events@);
        FeedbackEventPacket {
            device_id: self.device_id.clone(),
            timestamp: self.timestamp,
            events,
        }
    }
}

/// A color.
#[derive(Debug, Clone, Copy, PartialEq)]
pub struct Rgb {
    pub r: u8,
    pub g: u8,
    pub b: u8,
}

/// The colors of the LEDs on a board.
#[derive(Debug, Clone, Copy, PartialEq)]
pub enum LedBoardData {
    /// The slider: 31 LEDs.
    Slider([Rgb; 31]),
}

/// The colors for one LED board.
#[derive(Debug, Clone, Copy, PartialEq)]
pub struct ChuniLedDataPacket {
    pub board: u8,
    pub data: LedBoardData,
}

/// Packets with the same view carry the same.
pub proof fn feedback_views_lose_nothing(a: FeedbackEventPacket, b: FeedbackEventPacket)
    ensures
        a@ == b@ <==> a.device_id@ == b.device_id@ && a.timestamp == b.timestamp && a.events@
            == b.events@,
{
}

} // verus!
