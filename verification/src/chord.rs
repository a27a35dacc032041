//! Pitched bars: one chord per channel, one bar per sounding note.

use vstd::prelude::*;
use crate::graphics::RGB;
use crate::midi::{Channel, MidiProcessor, Note, PerformanceEvent, MOD_WHEEL};

verus! {

/// How the bars of a chord behave over the frames they are shown.
#[derive(Clone, Copy, Debug, PartialEq, Eq, Structural)]
pub enum ChordStyle {
    Plain,
    Decay { time: u32 },
    DecayRelease { time: u32 },
    Grow { speed: u32 },
    Marquee { speed: u32 },
}

/// A chord: where and how its bars are drawn, the channel it listens to,
/// and at run time its sounding notes and its modulation.
pub struct Chord {
    pub xpos: u32,
    pub width: u32,
    pub channel: Channel,
    pub notes: Vec<Note>,
    pub modulation: u16,
    pub velocity_sense: bool,
    pub style: ChordStyle,
    pub transpose: i32,
    pub color: RGB,
    pub shadow: RGB,
}

/// The height of a bar in pixels.
pub const BAR_HEIGHT: u32 = 8;

/// The height of the shadow under a bar.
pub const SHADOW_HEIGHT: u32 = 2;

/// The rows from one pitch to the next: a bar and the gap above it.
pub const PITCH_STEP: u32 = 12;

/// One bar to draw: its left edge, top edge, width and the two colours.
#[derive(Clone, Copy, Debug, PartialEq, Eq, Structural)]
pub struct Bar {
    pub x: i64,
    pub y: i64,
    pub width: i64,
    pub color: RGB,
    pub shadow: RGB,
}

/// What a frame does with one note.
#[derive(Clone, Copy, Debug, PartialEq, Eq, Structural)]
pub enum NoteFate {
    /// The note maps outside the buffer: it is neither drawn nor aged.
    Skipped,
    /// The note has run out and leaves the chord without being drawn.
    Evicted,
    /// The note is drawn and, unless the style is plain, aged by one frame.
    Drawn { bar: Bar },
}

/// The predicate "does not have this pitch".
pub open spec fn other_pitch(pitch: u8) -> spec_fn(Note) -> bool {
    |n: Note| n.pitch != pitch
}

/// The vertical offset of the vibrato at a tick: `modulation / 32000` pixels
/// per step of a ten-tick saw, downwards in its first half and upwards in
/// its second.
pub open spec fn vibrato(modulation: u16, tick: usize) -> int {
    let saw = tick as int % 10;
    let swing = (modulation as int * saw) / 32000;
    if saw < 5 {
        swing
    } else {
        -swing
    }
}

/// A note one frame older; the count stops at the largest `u32`.
pub open spec fn aged(n: Note) -> Note {
    Note {
        age: if n.age < u32::MAX {
            (n.age + 1) as u32
        } else {
            n.age
        },
        ..n
    }
}

impl ChordStyle {
    /// Whether notes outlast their note-off.
    pub open spec fn spec_sustains(self) -> bool {
        self is DecayRelease || self is Marquee
    }

    /// Whether notes outlast their note-off.
    #[verifier::when_used_as_spec(spec_sustains)]
    pub fn sustains(self) -> (b: bool)
        ensures
            b == self.spec_sustains(),
    {
        match self {
            ChordStyle::DecayRelease { .. } => true,
            ChordStyle::Marquee { .. } => true,
            _ => false,
        }
    }
}

impl Chord {
    /// The notes that an event leaves.
    pub open spec fn notes_after(&self, message: PerformanceEvent) -> Seq<Note> {
        match message {
            PerformanceEvent::NoteOn { channel, pitch, velocity } => if channel == self.channel {
                self.notes@.push(Note { pitch, velocity, age: 0 })
            } else {
                self.notes@
            },
            PerformanceEvent::NoteOff { channel, pitch, velocity } => if channel == self.channel
                && !self.style.spec_sustains() {
                self.notes@.filter(other_pitch(pitch))
            } else {
                self.notes@
            },
            PerformanceEvent::ControlChange { .. } => self.notes@,
            PerformanceEvent::AllNotesOff { .. } => Seq::empty(),
            PerformanceEvent::AllSoundOff { .. } => Seq::empty(),
        }
    }

    /// The modulation that an event leaves.
    pub open spec fn modulation_after(&self, message: PerformanceEvent) -> u16 {
        match message {
            PerformanceEvent::ControlChange { channel, controller, value } => if channel
                == self.channel && controller == MOD_WHEEL {
                value
            } else {
                self.modulation
            },
            _ => self.modulation,
        }
    }

    /// Everything of a chord but its notes and its modulation.
    pub open spec fn same_setting(&self, other: &Chord) -> bool {
        &&& self.xpos == other.xpos
        &&& self.width == other.width
        &&& self.channel == other.channel
        &&& self.velocity_sense == other.velocity_sense
        &&& self.style == other.style
        &&& self.transpose == other.transpose
        &&& self.color == other.color
        &&& self.shadow == other.shadow
    }

    /// The pitch a note is shown at.
    pub open spec fn effective_pitch(&self, note: Note, global_transpose: i32) -> int {
        note.pitch as int + self.transpose as int + global_transpose as int
    }

    /// Whether a note maps outside a buffer of the given height.
    pub open spec fn off_screen(&self, note: Note, global_transpose: i32, height: u32) -> bool {
        let p = self.effective_pitch(note, global_transpose);
        p < 0 || p * (PITCH_STEP as int) > height as int
    }

    /// The top row of a note's bar.
    pub open spec fn bar_top(&self, note: Note, global_transpose: i32, height: u32, tick: usize) -> int {
        height as int - self.effective_pitch(note, global_transpose) * (PITCH_STEP as int) + vibrato(
            self.modulation,
            tick,
        )
    }

    /// The colour a note starts from before its style dims it.
    pub open spec fn lit(&self, base: RGB, note: Note) -> RGB {
        if self.velocity_sense {
            base.spec_dimmed(note.velocity as int, 127)
        } else {
            base
        }
    }

    /// What a frame does with one note, on a buffer of `width` by `height`
    /// pixels at tick `tick`.
    pub open spec fn fate(
        &self,
        note: Note,
        global_transpose: i32,
        width: u32,
        height: u32,
        tick: usize,
    ) -> NoteFate {
        if self.off_screen(note, global_transpose, height) {
            NoteFate::Skipped
        } else {
            let y = self.bar_top(note, global_transpose, height, tick) as i64;
            let color = self.lit(self.color, note);
            let shadow = self.lit(self.shadow, note);
            let full = Bar { x: self.xpos as i64, y, width: self.width as i64, color, shadow };
            match self.style {
                ChordStyle::Plain => NoteFate::Drawn { bar: full },
                ChordStyle::Decay { time } | ChordStyle::DecayRelease { time } => if note.age
                    >= time {
                    NoteFate::Evicted
                } else {
                    NoteFate::Drawn {
                        bar: Bar {
                            color: color.spec_dimmed(time - note.age, time as int),
                            shadow: shadow.spec_dimmed(time - note.age, time as int),
                            ..full
                        },
                    }
                },
                ChordStyle::Grow { speed } => if note.age * speed <= self.width {
                    NoteFate::Drawn { bar: Bar { width: (note.age * speed) as i64, ..full } }
                } else {
                    NoteFate::Drawn { bar: full }
                },
                ChordStyle::Marquee { speed } => {
                    let travelled = note.age * speed;
                    if travelled > width + self.width - self.xpos {
                        NoteFate::Evicted
                    } else if travelled < width - self.xpos {
                        NoteFate::Drawn { bar: Bar { x: (width - travelled) as i64, ..full } }
                    } else {
                        NoteFate::Drawn {
                            bar: Bar {
                                width: (self.width + width - self.xpos + 1 - travelled) as i64,
                                ..full
                            },
                        }
                    }
                },
            }
        }
    }

    /// The notes that a frame leaves: evicted notes are gone, drawn notes are
    /// one frame older unless the style is plain, skipped notes are as they
    /// were; the order stays.
    pub open spec fn notes_after_frame(
        &self,
        notes: Seq<Note>,
        global_transpose: i32,
        width: u32,
        height: u32,
        tick: usize,
    ) -> Seq<Note>
        decreases notes.len(),
    {
        if notes.len() == 0 {
            Seq::empty()
        } else {
            let before = self.notes_after_frame(
                notes.drop_last(),
                global_transpose,
                width,
                height,
                tick,
            );
            match self.fate(notes.last(), global_transpose, width, height, tick) {
                NoteFate::Skipped => before.push(notes.last()),
                NoteFate::Evicted => before,
                NoteFate::Drawn { bar } => if self.style is Plain {
                    before.push(notes.last())
                } else {
                    before.push(aged(notes.last()))
                },
            }
        }
    }

    /// The bars that a frame draws, in the order of their notes.
    pub open spec fn bars_of_frame(
        &self,
        notes: Seq<Note>,
        global_transpose: i32,
        width: u32,
        height: u32,
        tick: usize,
    ) -> Seq<Bar>
        decreases notes.len(),
    {
        if notes.len() == 0 {
            Seq::empty()
        } else {
            let before = self.bars_of_frame(
                notes.drop_last(),
                global_transpose,
                width,
                height,
                tick,
            );
            match self.fate(notes.last(), global_transpose, width, height, tick) {
                NoteFate::Drawn { bar } => before.push(bar),
                _ => before,
            }
        }
    }

    /// Decides what this frame does with one note.
    pub fn note_fate(
        &self,
        note: Note,
        global_transpose: i32,
        width: u32,
        height: u32,
        tick: usize,
    ) -> (out: NoteFate)
        ensures
            out == self.fate(note, global_transpose, width, height, tick),
            out matches NoteFate::Drawn { bar } ==> -0x1_0000_0000 <= bar.x <= 0x1_0000_0000
                && -0x2_0000_0000 <= bar.y <= 0x2_0000_0000 && 0 <= bar.width <= 0x2_0000_0000,
    {
        let pitch: i64 = note.pitch as i64 + self.transpose as i64 + global_transpose as i64;
        if pitch < 0 || pitch * 12 > height as i64 {
            return NoteFate::Skipped;
        }
        let saw: u64 = (tick % 10) as u64;
        assert(0 <= self.modulation as int * (saw as int) <= 65535 * 9) by (nonlinear_arith)
            requires
                0 <= self.modulation <= 65535,
                0 <= saw <= 9,
        ;
        let swing: i64 = ((self.modulation as u64 * saw) / 32000) as i64;
        let base: i64 = height as i64 - pitch * 12;
        let y: i64 = if saw < 5 {
            base + swing
        } else {
            base - swing
        };
        let (color, shadow) = if self.velocity_sense {
            (self.color.dimmed(note.velocity as i64, 127), self.shadow.dimmed(note.velocity as i64, 127))
        } else {
            (self.color, self.shadow)
        };
        let full = Bar { x: self.xpos as i64, y, width: self.width as i64, color, shadow };
        match self.style {
            ChordStyle::Plain => NoteFate::Drawn { bar: full },
            ChordStyle::Decay { time } | ChordStyle::DecayRelease { time } => {
                if note.age >= time {
                    NoteFate::Evicted
                } else {
                    let left: i64 = (time - note.age) as i64;
                    NoteFate::Drawn {
                        bar: Bar {
                            x: full.x,
                            y: full.y,
                            width: full.width,
                            color: color.dimmed(left, time),
                            shadow: shadow.dimmed(left, time),
                        },
                    }
                }
            },
            ChordStyle::Grow { speed } => {
                assert(0 <= note.age * speed <= 0xFFFF_FFFF * 0xFFFF_FFFF) by (nonlinear_arith)
                    requires
                        0 <= note.age <= 0xFFFF_FFFF,
                        0 <= speed <= 0xFFFF_FFFF,
                ;
                let grown: u64 = note.age as u64 * speed as u64;
                if grown <= self.width as u64 {
                    NoteFate::Drawn {
                        bar: Bar {
                            x: full.x,
                            y: full.y,
                            width: grown as i64,
                            color: full.color,
                            shadow: full.shadow,
                        },
                    }
                } else {
                    NoteFate::Drawn { bar: full }
                }
            },
            ChordStyle::Marquee { speed } => {
                assert(0 <= note.age * speed <= 0xFFFF_FFFF * 0xFFFF_FFFF) by (nonlinear_arith)
                    requires
                        0 <= note.age <= 0xFFFF_FFFF,
                        0 <= speed <= 0xFFFF_FFFF,
                ;
                let travelled: i128 = note.age as i128 * speed as i128;
                let w: i128 = width as i128;
                let own: i128 = self.width as i128;
                let x: i128 = self.xpos as i128;
                if travelled > w + own - x {
                    NoteFate::Evicted
                } else if travelled < w - x {
                    NoteFate::Drawn {
                        bar: Bar {
                            x: (w - travelled) as i64,
                            y: full.y,
                            width: full.width,
                            color: full.color,
                            shadow: full.shadow,
                        },
                    }
                } else {
                    NoteFate::Drawn {
                        bar: Bar {
                            x: full.x,
                            y: full.y,
                            width: (own + w - x + 1 - travelled) as i64,
                            color: full.color,
                            shadow: full.shadow,
                        },
                    }
                }
            },
        }
    }

    /// Runs one frame over the notes: evicts the notes that have run out,
    /// ages the others as the style asks, and returns the bars to draw, in
    /// the order of their notes.
    pub fn step(&mut self, global_transpose: i32, width: u32, height: u32, tick: usize) -> (bars:
        Vec<Bar>)
        ensures
            final(self).same_setting(old(self)),
            final(self).modulation == old(self).modulation,
            final(self).notes@ == old(self).notes_after_frame(
                old(self).notes@,
                global_transpose,
                width,
                height,
                tick,
            ),
            bars@ == old(self).bars_of_frame(
                old(self).notes@,
                global_transpose,
                width,
                height,
                tick,
            ),
            forall|k: int|
                0 <= k < bars@.len() ==> -0x1_0000_0000 <= (#[trigger] bars@[k]).x <= 0x1_0000_0000
                    && -0x2_0000_0000 <= bars@[k].y <= 0x2_0000_0000 && 0 <= bars@[k].width
                    <= 0x2_0000_0000,
    {
        let n: usize = self.notes.len();
        let mut kept: Vec<Note> = Vec::new();
        let mut bars: Vec<Bar> = Vec::new();
        let mut i: usize = 0;
        while i < n
            invariant
                i <= n,
                n == self.notes@.len(),
                *self == *old(self),
                kept@ == self.notes_after_frame(
                    self.notes@.take(i as int),
                    global_transpose,
                    width,
                    height,
                    tick,
                ),
                bars@ == self.bars_of_frame(
                    self.notes@.take(i as int),
                    global_transpose,
                    width,
                    height,
                    tick,
                ),
                forall|k: int|
                    0 <= k < bars@.len() ==> -0x1_0000_0000 <= (#[trigger] bars@[k]).x
                        <= 0x1_0000_0000 && -0x2_0000_0000 <= bars@[k].y <= 0x2_0000_0000 && 0
                        <= bars@[k].width <= 0x2_0000_0000,
            decreases n - i,
        {
            let note: Note = self.notes[i];
            proof {
                let next = self.notes@.take(i + 1);
                assert(next.drop_last() =~= self.notes@.take(i as int));
                assert(next.last() == note);
            }
            match self.note_fate(note, global_transpose, width, height, tick) {
                NoteFate::Skipped => {
                    kept.push(note);
                },
                NoteFate::Evicted => {},
                NoteFate::Drawn { bar } => {
                    bars.push(bar);
                    match self.style {
                        ChordStyle::Plain => {
                            kept.push(note);
                        },
                        _ => {
                            let age: u32 = if note.age < u32::MAX {
                                note.age + 1
                            } else {
                                note.age
                            };
                            kept.push(Note { pitch: note.pitch, velocity: note.velocity, age });
                        },
                    }
                },
            }
            i += 1;
        }
        assert(self.notes@.take(n as int) =~= self.notes@);
        self.notes = kept;
        bars
    }
}

/// The notes of `notes` whose pitch is not `pitch`, in their order.
pub fn without_pitch(notes: &Vec<Note>, pitch: u8) -> (out: Vec<Note>)
    ensures
        out@ == notes@.filter(other_pitch(pitch)),
{
    let n: usize = notes.len();
    let mut out: Vec<Note> = Vec::new();
    let mut i: usize = 0;
    proof {
        reveal(Seq::filter);
    }
    while i < n
        invariant
            i <= n,
            n == notes@.len(),
            out@ == notes@.take(i as int).filter(other_pitch(pitch)),
        decreases n - i,
    {
        let note: Note = notes[i];
        proof {
            reveal(Seq::filter);
            let next = notes@.take(i + 1);
            assert(next.drop_last() =~= notes@.take(i as int));
            assert(next.last() == note);
        }
        if note.pitch != pitch {
            out.push(note);
        }
        i += 1;
    }
    assert(notes@.take(n as int) =~= notes@);
    out
}

impl MidiProcessor for Chord {
    /// Applies one event: a note-on on the chord's channel starts a note, a
    /// note-off there ends every note of its pitch unless the style sustains,
    /// the modulation wheel sets the modulation, and all-notes-off or
    /// all-sound-off on any channel ends every note.
    fn deal_with(&mut self, message: PerformanceEvent)
        ensures
            final(self).same_setting(old(self)),
            final(self).notes@ == old(self).notes_after(message),
            final(self).modulation == old(self).modulation_after(message),
    {
        match message {
            PerformanceEvent::NoteOn { channel, pitch, velocity } => {
                if channel == self.channel {
                    self.notes.push(Note { pitch, velocity, age: 0 });
                }
            },
            PerformanceEvent::NoteOff { channel, pitch, velocity: _ } => {
                if channel == self.channel && !self.style.sustains() {
                    self.notes = without_pitch(&self.notes, pitch);
                }
            },
            PerformanceEvent::ControlChange { channel, controller, value } => {
                if channel == self.channel && controller == MOD_WHEEL {
                    self.modulation = value;
                }
            },
            PerformanceEvent::AllNotesOff { .. } => {
                self.notes.clear();
            },
            PerformanceEvent::AllSoundOff { .. } => {
                self.notes.clear();
            },
        }
    }
}

/// A frame never makes a note younger: what it keeps of a note is the note
/// itself or the note one frame older.
pub proof fn lemma_age_never_falls(n: Note)
    ensures
        aged(n).pitch == n.pitch,
        aged(n).velocity == n.velocity,
        n.age <= aged(n).age <= n.age + 1,
{
}

/// Under a style that does not sustain, a note-off on the chord's channel
/// leaves no note of its pitch, whatever the notes' ages, and keeps every
/// note of another pitch.
pub proof fn lemma_note_off_removes_pitch(c: Chord, pitch: u8, velocity: u8)
    requires
        !c.style.spec_sustains(),
    ensures
        ({
            let after = c.notes_after(
                PerformanceEvent::NoteOff { channel: c.channel, pitch, velocity },
            );
            &&& after == c.notes@.filter(other_pitch(pitch))
            &&& forall|i: int| 0 <= i < after.len() ==> (#[trigger] after[i]).pitch != pitch
            &&& forall|i: int|
                0 <= i < c.notes@.len() && (#[trigger] c.notes@[i]).pitch != pitch
                    ==> after.contains(c.notes@[i])
        }),
{
    let pred = other_pitch(pitch);
    let after = c.notes@.filter(pred);
    assert forall|i: int| 0 <= i < after.len() implies (#[trigger] after[i]).pitch != pitch by {
        c.notes@.lemma_filter_pred(pred, i);
    }
    assert forall|i: int|
        0 <= i < c.notes@.len() && (#[trigger] c.notes@[i]).pitch != pitch implies after.contains(
        c.notes@[i],
    ) by {
        c.notes@.lemma_filter_contains(pred, i);
    }
}

/// Under decay-release and marquee a note-off changes nothing: the notes
/// stay until their age evicts them.
pub proof fn lemma_note_off_sustained(c: Chord, channel: Channel, pitch: u8, velocity: u8)
    requires
        c.style.spec_sustains(),
    ensures
        c.notes_after(PerformanceEvent::NoteOff { channel, pitch, velocity }) == c.notes@,
        c.modulation_after(PerformanceEvent::NoteOff { channel, pitch, velocity }) == c.modulation,
{
}

/// All-notes-off and all-sound-off, on any channel and under any style, leave
/// a chord without notes.
pub proof fn lemma_all_notes_off_clears(c: Chord, channel: Channel)
    ensures
        c.notes_after(PerformanceEvent::AllNotesOff { channel }) == Seq::<Note>::empty(),
        c.notes_after(PerformanceEvent::AllSoundOff { channel }) == Seq::<Note>::empty(),
{
}

/// Under decay, with or without release, a note on screen is evicted
/// undrawn once its age has reached the decay time, and is drawn dimmed by
/// `(time - age) / time` before: by `1 / time` in its last frame.
pub proof fn lemma_decay(c: Chord, note: Note, time: u32, gt: i32, width: u32, height: u32, tick: usize)
    requires
        c.style == (ChordStyle::Decay { time }) || c.style == (ChordStyle::DecayRelease { time }),
        !c.off_screen(note, gt, height),
    ensures
        note.age >= time <==> c.fate(note, gt, width, height, tick) is Evicted,
        note.age < time ==> (c.fate(note, gt, width, height, tick) matches NoteFate::Drawn { bar }
            && bar.color == c.lit(c.color, note).spec_dimmed(time - note.age, time as int)
            && bar.shadow == c.lit(c.shadow, note).spec_dimmed(time - note.age, time as int)
            && bar.x == c.xpos && bar.width == c.width),
        note.age + 1 == time ==> (c.fate(note, gt, width, height, tick) matches NoteFate::Drawn {
            bar,
        } && bar.color == c.lit(c.color, note).spec_dimmed(1, time as int)),
{
}

/// Under grow a note on screen is never evicted, and its bar is as wide as
/// the smaller of the chord's width and `age * speed`.
pub proof fn lemma_grow_width(c: Chord, note: Note, speed: u32, gt: i32, width: u32, height: u32, tick: usize)
    requires
        c.style == (ChordStyle::Grow { speed }),
        !c.off_screen(note, gt, height),
    ensures
        c.fate(note, gt, width, height, tick) matches NoteFate::Drawn { bar } && bar.width == (if c.width
            <= note.age * speed {
            c.width as int
        } else {
            note.age * speed
        }) && bar.x == c.xpos,
{
    assert(0 <= note.age * speed) by (nonlinear_arith)
        requires
            0 <= note.age,
            0 <= speed,
    ;
}

/// Under marquee a note on screen is evicted exactly when it has travelled
/// further than the buffer's width plus the chord's width less the chord's
/// position.
pub proof fn lemma_marquee_eviction(
    c: Chord,
    note: Note,
    speed: u32,
    gt: i32,
    width: u32,
    height: u32,
    tick: usize,
)
    requires
        c.style == (ChordStyle::Marquee { speed }),
        !c.off_screen(note, gt, height),
    ensures
        c.fate(note, gt, width, height, tick) is Evicted <==> note.age * speed > width + c.width
            - c.xpos,
{
}

} // verus!
