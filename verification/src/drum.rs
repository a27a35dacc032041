//! Percussion: one drum per note, all on the percussion channel.

use vstd::prelude::*;
use crate::graphics::{Bitmap, RGB};
use crate::midi::{Channel, MidiProcessor, PerformanceEvent};

verus! {

/// The drums, in drawing order.
pub struct Kit {
    pub drums: Vec<Drum>,
}

/// A drum: where and how a hit is drawn, the note it listens to, how long a
/// hit lasts, and at run time its state.
pub struct Drum {
    pub xpos: u32,
    pub ypos: u32,
    pub note: u8,
    pub gfx: DrumGfx,
    pub decay_time: u32,
    pub style: DrumStyle,
    pub state: DrumState,
}

/// What a hit looks like.
pub enum DrumGfx {
    Plain { xsize: u32, ysize: u32, color: RGB },
    Bitmap { bitmap: Bitmap },
}

/// Whether a hit keeps its brightness or fades over its decay time.
#[derive(Clone, Copy, Debug, PartialEq, Eq, Structural)]
pub enum DrumStyle {
    Plain,
    Decay,
}

/// The runtime state of one drum.
#[derive(Clone, Copy, Debug, PartialEq, Eq, Structural)]
pub struct DrumState {
    pub triggered: bool,
    pub note_held: bool,
    pub age: u32,
}

impl Default for DrumState {
    fn default() -> (out: Self)
        ensures
            out == (DrumState { triggered: false, note_held: false, age: 0 }),
    {
        DrumState { triggered: false, note_held: false, age: 0 }
    }
}

impl DrumState {
    /// The state one frame later, given the drum's decay time.
    pub open spec fn ticked(self, decay_time: u32) -> DrumState {
        if self.age >= decay_time && !self.note_held {
            DrumState { triggered: false, note_held: false, age: 0 }
        } else if self.note_held {
            self
        } else {
            DrumState { age: (self.age + 1) as u32, ..self }
        }
    }

    /// Whether the drum is still shown after the frame's tick.
    pub open spec fn stays_active(self, decay_time: u32) -> bool {
        self.note_held || self.age < decay_time
    }

    /// A hit: the drum is triggered and held, and its age starts anew.
    pub fn trigger(&mut self)
        ensures
            *final(self) == (DrumState { triggered: true, note_held: true, age: 0 }),
    {
        self.triggered = true;
        self.note_held = true;
        self.age = 0;
    }

    /// Back to idle.
    pub fn reset(&mut self)
        ensures
            *final(self) == (DrumState { triggered: false, note_held: false, age: 0 }),
    {
        self.triggered = false;
        self.note_held = false;
        self.age = 0;
    }

    /// The end of a hit: the drum is no longer held and starts to age.
    pub fn release(&mut self)
        ensures
            *final(self) == (DrumState { note_held: false, ..*old(self) }),
    {
        self.note_held = false;
    }

    /// Advances the state by one frame and says whether the drum is still
    /// shown: a held drum keeps its age, a released one ages until its decay
    /// time has passed and is then reset.
    pub fn tick_or_reset(&mut self, decay_time: u32) -> (active: bool)
        ensures
            *final(self) == old(self).ticked(decay_time),
            active == old(self).stays_active(decay_time),
    {
        if self.age >= decay_time && !self.note_held {
            self.reset();
            false
        } else if self.note_held {
            true
        } else {
            self.age += 1;
            true
        }
    }
}

/// A held drum keeps its age over a frame; a released one whose age has
/// reached the decay time is no longer triggered; any other ages by one
/// frame. An age within the decay time stays within it.
pub proof fn lemma_drum_tick(s: DrumState, decay_time: u32)
    ensures
        s.age <= decay_time ==> s.ticked(decay_time).age <= decay_time,
        s.note_held ==> s.ticked(decay_time) == s && s.stays_active(decay_time),
        !s.note_held && s.age >= decay_time ==> !s.ticked(decay_time).triggered
            && s.ticked(decay_time).age == 0 && !s.stays_active(decay_time),
        !s.note_held && s.age < decay_time ==> s.ticked(decay_time).age == s.age + 1
            && s.ticked(decay_time).age <= decay_time
            && s.ticked(decay_time).triggered == s.triggered,
{
}

/// The state of a drum after an event: a note-on for its note on the
/// percussion channel triggers it, a note-off there releases it, nothing
/// else touches it.
pub open spec fn drum_state_after(note: u8, state: DrumState, message: PerformanceEvent) -> DrumState {
    match message {
        PerformanceEvent::NoteOn { channel, pitch, velocity } => if channel == Channel::Ch10
            && pitch == note {
            DrumState { triggered: true, note_held: true, age: 0 }
        } else {
            state
        },
        PerformanceEvent::NoteOff { channel, pitch, velocity } => if channel == Channel::Ch10
            && pitch == note {
            DrumState { note_held: false, ..state }
        } else {
            state
        },
        _ => state,
    }
}

/// Everything of a drum but its runtime state.
pub open spec fn same_drum_setting(a: Drum, b: Drum) -> bool {
    &&& a.xpos == b.xpos
    &&& a.ypos == b.ypos
    &&& a.note == b.note
    &&& a.gfx == b.gfx
    &&& a.decay_time == b.decay_time
    &&& a.style == b.style
}

impl Drum {
    /// Applies one event to this drum.
    pub fn deal_with(&mut self, message: PerformanceEvent)
        ensures
            same_drum_setting(*final(self), *old(self)),
            final(self).state == drum_state_after(old(self).note, old(self).state, message),
    {
        match message {
            PerformanceEvent::NoteOn { channel, pitch, velocity: _ } => {
                if channel == Channel::Ch10 && pitch == self.note {
                    self.state.trigger();
                }
            },
            PerformanceEvent::NoteOff { channel, pitch, velocity: _ } => {
                if channel == Channel::Ch10 && pitch == self.note {
                    self.state.release();
                }
            },
            _ => {},
        }
    }
}

impl MidiProcessor for Kit {
    /// Hands the event to every drum of the kit.
    fn deal_with(&mut self, message: PerformanceEvent)
        ensures
            final(self).drums@.len() == old(self).drums@.len(),
            forall|i: int|
                0 <= i < old(self).drums@.len() ==> {
                    &&& same_drum_setting(#[trigger] final(self).drums@[i], old(self).drums@[i])
                    &&& final(self).drums@[i].state == drum_state_after(
                        old(self).drums@[i].note,
                        old(self).drums@[i].state,
                        message,
                    )
                },
    {
        let n: usize = self.drums.len();
        let mut i: usize = 0;
        while i < n
            invariant
                i <= n,
                n == old(self).drums@.len(),
                self.drums@.len() == n,
                forall|j: int|
                    0 <= j < i ==> {
                        &&& same_drum_setting(#[trigger] self.drums@[j], old(self).drums@[j])
                        &&& self.drums@[j].state == drum_state_after(
                            old(self).drums@[j].note,
                            old(self).drums@[j].state,
                            message,
                        )
                    },
                forall|j: int| i <= j < n ==> self.drums@[j] == old(self).drums@[j],
            decreases n - i,
        {
            self.drums[i].deal_with(message);
            i += 1;
        }
    }
}

} // verus!
