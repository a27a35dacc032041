//! The editor's focus and the adjustments made through it.

use vstd::prelude::*;
use crate::chord::Chord;
use crate::drum::Drum;
use crate::midi::{channel_at, Channel};
use crate::setup::Setup;

verus! {

/// The kind of element the editor looks at.
#[derive(Clone, Copy, Debug, PartialEq, Eq, Structural)]
pub enum Inst {
    Chord,
    Drum,
}

/// The direction of an adjustment.
#[derive(Clone, Copy, Debug, PartialEq, Eq, Structural)]
pub enum Direction {
    Up,
    Down,
    Left,
    Right,
}

/// What the editor looks at: whether it is editing at all, the index and
/// the kind of the element, and whether every element of the kind is shown.
#[derive(Clone, Copy, Debug, PartialEq, Eq, Structural)]
pub struct KeyboardFocus {
    pub editing: bool,
    pub index: u8,
    pub inst: Inst,
    pub preview_all: bool,
}

/// The first position at or after `i` of a chord on the channel, or the
/// length where there is none.
pub open spec fn first_on_channel(chords: Seq<Chord>, channel: Channel, i: int) -> int
    decreases chords.len() - i,
{
    if 0 <= i < chords.len() && chords[i].channel != channel {
        first_on_channel(chords, channel, i + 1)
    } else {
        i
    }
}

/// The step of an adjustment: one pixel with shift and control, five with
/// shift, twenty with control, ten with neither.
pub open spec fn step_size(shift: bool, ctrl: bool) -> u32 {
    if shift && ctrl {
        1
    } else if shift {
        5
    } else if ctrl {
        20
    } else {
        10
    }
}

/// A value moved back by `by`, which happens only while the value is larger
/// than `amount`, so that it stays above zero.
pub open spec fn moved_back(v: u32, amount: u32, by: u32) -> u32
    recommends
        by <= amount,
{
    if amount < v {
        (v - by) as u32
    } else {
        v
    }
}

/// A value moved on by `by`, held at the largest `u32`.
pub open spec fn moved_on(v: u32, by: u32) -> u32 {
    if v + by > u32::MAX {
        u32::MAX
    } else {
        (v + by) as u32
    }
}

/// A chord after an adjustment: up and down change its width by half the
/// step, left and right its position by the step.
pub open spec fn chord_adjusted(c: Chord, direction: Direction, amount: u32) -> Chord {
    match direction {
        Direction::Down => Chord { width: moved_back(c.width, amount, amount / 2), ..c },
        Direction::Up => Chord { width: moved_on(c.width, amount / 2), ..c },
        Direction::Left => Chord { xpos: moved_back(c.xpos, amount, amount), ..c },
        Direction::Right => Chord { xpos: moved_on(c.xpos, amount), ..c },
    }
}

/// A drum after an adjustment: the step moves it in the direction given.
pub open spec fn drum_adjusted(d: Drum, direction: Direction, amount: u32) -> Drum {
    match direction {
        Direction::Down => Drum { ypos: moved_on(d.ypos, amount), ..d },
        Direction::Up => Drum { ypos: moved_back(d.ypos, amount, amount), ..d },
        Direction::Left => Drum { xpos: moved_back(d.xpos, amount, amount), ..d },
        Direction::Right => Drum { xpos: moved_on(d.xpos, amount), ..d },
    }
}

/// `minifb::Key`, a key of the keyboard as the window reports it, carried as
/// an opaque value.
#[verifier::external_type_specification]
#[verifier::external_body]
pub struct ExKey(minifb::Key);

impl Direction {
    /// The direction of an arrow key of `minifb::Key`; no other key has one.
    /// Trusted, with nothing claimed of the result: the key is opaque here.
    #[verifier::external_body]
    pub fn from_key(key: &minifb::Key) -> (out: Option<Direction>) {
        match key {
            minifb::Key::Up => Some(Direction::Up),
            minifb::Key::Down => Some(Direction::Down),
            minifb::Key::Left => Some(Direction::Left),
            minifb::Key::Right => Some(Direction::Right),
            _ => None,
        }
    }
}

fn back(v: u32, amount: u32, by: u32) -> (out: u32)
    requires
        by <= amount,
    ensures
        out == moved_back(v, amount, by),
{
    if amount < v {
        v - by
    } else {
        v
    }
}

fn on(v: u32, by: u32) -> (out: u32)
    ensures
        out == moved_on(v, by),
{
    v.saturating_add(by)
}

impl KeyboardFocus {
    /// The focus at the start: the first chord, outside editing.
    pub fn new() -> (out: Self)
        ensures
            out == (KeyboardFocus {
                editing: false,
                index: 0,
                inst: Inst::Chord,
                preview_all: false,
            }),
    {
        Self { editing: false, index: 0, inst: Inst::Chord, preview_all: false }
    }

    /// The chord in focus: the first one on the channel that the index
    /// names.
    pub open spec fn focused_chord(&self, chords: Seq<Chord>) -> Option<usize> {
        let i = first_on_channel(chords, channel_at(self.index), 0);
        if i < chords.len() {
            Some(i as usize)
        } else {
            None
        }
    }

    /// The drum in focus: the one at the index, if there is one.
    pub open spec fn focused_drum(&self, drums: Seq<Drum>) -> Option<usize> {
        if self.index < drums.len() {
            Some(self.index as usize)
        } else {
            None
        }
    }

    /// The position of the chord in focus, if there is one.
    pub fn get_focused_chord(&self, chords: &Vec<Chord>) -> (out: Option<usize>)
        ensures
            out == self.focused_chord(chords@),
            out matches Some(i) ==> i < chords@.len(),
    {
        let wanted: Channel = Channel::from(self.index);
        let n: usize = chords.len();
        let mut i: usize = 0;
        while i < n
            invariant
                i <= n,
                n == chords@.len(),
                wanted == channel_at(self.index),
                first_on_channel(chords@, wanted, i as int) == first_on_channel(chords@, wanted, 0),
            decreases n - i,
        {
            if chords[i].channel == wanted {
                return Some(i);
            }
            i += 1;
        }
        None
    }

    /// The position of the drum in focus, if there is one.
    pub fn get_focused_drum(&self, drums: &Vec<Drum>) -> (out: Option<usize>)
        ensures
            out == self.focused_drum(drums@),
    {
        if (self.index as usize) < drums.len() {
            Some(self.index as usize)
        } else {
            None
        }
    }

    /// Moves or resizes the element in focus by one step; does nothing
    /// outside editing or without an element in focus.
    pub fn adjustment(&self, setup: &mut Setup, direction: Direction, shift: bool, ctrl: bool)
        ensures
            final(setup).path == old(setup).path,
            final(setup).midi_port_id == old(setup).midi_port_id,
            final(setup).global_transpose == old(setup).global_transpose,
            final(setup).texts == old(setup).texts,
            final(setup).chords@ == (match self.focused_chord(old(setup).chords@) {
                Some(i) if self.editing && self.inst is Chord => old(setup).chords@.update(
                    i as int,
                    chord_adjusted(old(setup).chords@[i as int], direction, step_size(shift, ctrl)),
                ),
                _ => old(setup).chords@,
            }),
            final(setup).kit.drums@ == (match self.focused_drum(old(setup).kit.drums@) {
                Some(i) if self.editing && self.inst is Drum => old(setup).kit.drums@.update(
                    i as int,
                    drum_adjusted(old(setup).kit.drums@[i as int], direction, step_size(shift, ctrl)),
                ),
                _ => old(setup).kit.drums@,
            }),
    {
        if !self.editing {
            return ;
        }
        let amount: u32 = if shift && ctrl {
            1
        } else if shift {
            5
        } else if ctrl {
            20
        } else {
            10
        };
        match self.inst {
            Inst::Chord => {
                match self.get_focused_chord(&setup.chords) {
                    Some(i) => {
                        let width: u32 = setup.chords[i].width;
                        let xpos: u32 = setup.chords[i].xpos;
                        match direction {
                            Direction::Down => {
                                setup.chords[i].width = back(width, amount, amount / 2);
                            },
                            Direction::Up => {
                                setup.chords[i].width = on(width, amount / 2);
                            },
                            Direction::Left => {
                                setup.chords[i].xpos = back(xpos, amount, amount);
                            },
                            Direction::Right => {
                                setup.chords[i].xpos = on(xpos, amount);
                            },
                        }
                        assert(setup.chords@ =~= old(setup).chords@.update(
                            i as int,
                            chord_adjusted(old(setup).chords@[i as int], direction, amount),
                        ));
                    },
                    None => {},
                }
            },
            Inst::Drum => {
                match self.get_focused_drum(&setup.kit.drums) {
                    Some(i) => {
                        let ypos: u32 = setup.kit.drums[i].ypos;
                        let xpos: u32 = setup.kit.drums[i].xpos;
                        match direction {
                            Direction::Down => {
                                setup.kit.drums[i].ypos = on(ypos, amount);
                            },
                            Direction::Up => {
                                setup.kit.drums[i].ypos = back(ypos, amount, amount);
                            },
                            Direction::Left => {
                                setup.kit.drums[i].xpos = back(xpos, amount, amount);
                            },
                            Direction::Right => {
                                setup.kit.drums[i].xpos = on(xpos, amount);
                            },
                        }
                        assert(setup.kit.drums@ =~= old(setup).kit.drums@.update(
                            i as int,
                            drum_adjusted(old(setup).kit.drums@[i as int], direction, amount),
                        ));
                    },
                    None => {},
                }
            },
        }
    }

    /// Puts the element in focus where the pointer is: a chord takes the
    /// column, a drum the column and the row. Does nothing outside editing
    /// or without an element in focus.
    pub fn mouse_adjustment(&self, setup: &mut Setup, x: u32, y: u32)
        ensures
            final(setup).path == old(setup).path,
            final(setup).midi_port_id == old(setup).midi_port_id,
            final(setup).global_transpose == old(setup).global_transpose,
            final(setup).texts == old(setup).texts,
            final(setup).chords@ == (match self.focused_chord(old(setup).chords@) {
                Some(i) if self.editing && self.inst is Chord => old(setup).chords@.update(
                    i as int,
                    Chord { xpos: x, ..old(setup).chords@[i as int] },
                ),
                _ => old(setup).chords@,
            }),
            final(setup).kit.drums@ == (match self.focused_drum(old(setup).kit.drums@) {
                Some(i) if self.editing && self.inst is Drum => old(setup).kit.drums@.update(
                    i as int,
                    Drum { xpos: x, ypos: y, ..old(setup).kit.drums@[i as int] },
                ),
                _ => old(setup).kit.drums@,
            }),
    {
        if !self.editing {
            return ;
        }
        match self.inst {
            Inst::Chord => {
                match self.get_focused_chord(&setup.chords) {
                    Some(i) => {
                        setup.chords[i].xpos = x;
                        assert(setup.chords@ =~= old(setup).chords@.update(
                            i as int,
                            Chord { xpos: x, ..old(setup).chords@[i as int] },
                        ));
                    },
                    None => {},
                }
            },
            Inst::Drum => {
                match self.get_focused_drum(&setup.kit.drums) {
                    Some(i) => {
                        setup.kit.drums[i].xpos = x;
                        setup.kit.drums[i].ypos = y;
                        assert(setup.kit.drums@ =~= old(setup).kit.drums@.update(
                            i as int,
                            Drum { xpos: x, ypos: y, ..old(setup).kit.drums@[i as int] },
                        ));
                    },
                    None => {},
                }
            },
        }
    }
}

} // verus!
