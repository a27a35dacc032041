//! Performance events and the notes they start.

use vstd::prelude::*;
use vstd::std_specs::convert::FromSpecImpl;

verus! {

/// A sounding note and the number of frames it has been shown.
#[derive(Clone, Copy, Debug, PartialEq, Eq, Structural)]
pub struct Note {
    pub pitch: u8,
    pub velocity: u8,
    pub age: u32,
}

/// One of the sixteen logical channels.
#[derive(Clone, Copy, Debug, PartialEq, Eq, Structural)]
pub enum Channel {
    Ch1,
    Ch2,
    Ch3,
    Ch4,
    Ch5,
    Ch6,
    Ch7,
    Ch8,
    Ch9,
    Ch10,
    Ch11,
    Ch12,
    Ch13,
    Ch14,
    Ch15,
    Ch16,
}

/// The controller number of the modulation wheel.
pub const MOD_WHEEL: u8 = 1;

/// The channel at a zero-based index; every index past fourteen is the last
/// channel.
pub open spec fn channel_at(i: u8) -> Channel {
    match i {
        0 => Channel::Ch1,
        1 => Channel::Ch2,
        2 => Channel::Ch3,
        3 => Channel::Ch4,
        4 => Channel::Ch5,
        5 => Channel::Ch6,
        6 => Channel::Ch7,
        7 => Channel::Ch8,
        8 => Channel::Ch9,
        9 => Channel::Ch10,
        10 => Channel::Ch11,
        11 => Channel::Ch12,
        12 => Channel::Ch13,
        13 => Channel::Ch14,
        14 => Channel::Ch15,
        _ => Channel::Ch16,
    }
}

impl Channel {
    /// The zero-based index of the channel.
    pub open spec fn spec_index(self) -> u8 {
        match self {
            Channel::Ch1 => 0,
            Channel::Ch2 => 1,
            Channel::Ch3 => 2,
            Channel::Ch4 => 3,
            Channel::Ch5 => 4,
            Channel::Ch6 => 5,
            Channel::Ch7 => 6,
            Channel::Ch8 => 7,
            Channel::Ch9 => 8,
            Channel::Ch10 => 9,
            Channel::Ch11 => 10,
            Channel::Ch12 => 11,
            Channel::Ch13 => 12,
            Channel::Ch14 => 13,
            Channel::Ch15 => 14,
            Channel::Ch16 => 15,
        }
    }

    /// The zero-based index of the channel.
    #[verifier::when_used_as_spec(spec_index)]
    pub fn index(self) -> (i: u8)
        ensures
            i == self.spec_index(),
            i < 16,
    {
        match self {
            Channel::Ch1 => 0,
            Channel::Ch2 => 1,
            Channel::Ch3 => 2,
            Channel::Ch4 => 3,
            Channel::Ch5 => 4,
            Channel::Ch6 => 5,
            Channel::Ch7 => 6,
            Channel::Ch8 => 7,
            Channel::Ch9 => 8,
            Channel::Ch10 => 9,
            Channel::Ch11 => 10,
            Channel::Ch12 => 11,
            Channel::Ch13 => 12,
            Channel::Ch14 => 13,
            Channel::Ch15 => 14,
            Channel::Ch16 => 15,
        }
    }

    /// The one-based number under which the channel is written down.
    pub fn number(self) -> (n: u8)
        ensures
            n == self.spec_index() + 1,
            1 <= n <= 16,
    {
        self.index() + 1
    }

    /// The channel written down as the one-based number `n`; `None` for zero,
    /// which names no channel.
    pub fn from_number(n: u8) -> (out: Option<Channel>)
        ensures
            n == 0 <==> out is None,
            n > 0 ==> out == Some(channel_at((n - 1) as u8)),
    {
        if n == 0 {
            None
        } else {
            Some(Channel::from(n - 1))
        }
    }
}

impl From<u8> for Channel {
    fn from(i: u8) -> (out: Self) {
        match i {
            0 => Channel::Ch1,
            1 => Channel::Ch2,
            2 => Channel::Ch3,
            3 => Channel::Ch4,
            4 => Channel::Ch5,
            5 => Channel::Ch6,
            6 => Channel::Ch7,
            7 => Channel::Ch8,
            8 => Channel::Ch9,
            9 => Channel::Ch10,
            10 => Channel::Ch11,
            11 => Channel::Ch12,
            12 => Channel::Ch13,
            13 => Channel::Ch14,
            14 => Channel::Ch15,
            _ => Channel::Ch16,
        }
    }
}

impl FromSpecImpl<u8> for Channel {
    open spec fn obeys_from_spec() -> bool {
        true
    }

    open spec fn from_spec(i: u8) -> Channel {
        channel_at(i)
    }
}

/// Writing a channel down by its number and reading the number back gives
/// the channel again.
pub proof fn lemma_channel_number_round_trip(c: Channel)
    ensures
        channel_at(c.spec_index()) == c,
        1 <= c.spec_index() + 1 <= 16,
{
}

/// A normalised event of a musical performance.
#[derive(Clone, Copy, Debug, PartialEq, Eq, Structural)]
pub enum PerformanceEvent {
    NoteOn { channel: Channel, pitch: u8, velocity: u8 },
    NoteOff { channel: Channel, pitch: u8, velocity: u8 },
    ControlChange { channel: Channel, controller: u8, value: u16 },
    AllNotesOff { channel: Channel },
    AllSoundOff { channel: Channel },
}

/// An element that takes performance events.
pub trait MidiProcessor {
    fn deal_with(&mut self, message: PerformanceEvent);
}

} // verus!
