use grooveanim::chord::{Chord, ChordStyle};
use grooveanim::drum::{Drum, DrumGfx, DrumState, DrumStyle, Kit};
use grooveanim::graphics::RGB;
use grooveanim::gui::{Direction, Inst, KeyboardFocus};
use grooveanim::midi::{Channel, Note, PerformanceEvent};
use grooveanim::setup::Setup;
use grooveanim::text::{Text, TextDirection, TextStyle};

fn chord(channel: Channel, xpos: u32, width: u32) -> Chord {
    Chord {
        xpos,
        width,
        channel,
        notes: Vec::new(),
        modulation: 0,
        velocity_sense: false,
        style: ChordStyle::Plain,
        transpose: 0,
        color: RGB::fff(),
        shadow: RGB::default(),
    }
}

fn drum(note: u8, xpos: u32, ypos: u32) -> Drum {
    Drum {
        xpos,
        ypos,
        note,
        gfx: DrumGfx::Plain { xsize: 4, ysize: 4, color: RGB::fff() },
        decay_time: 3,
        style: DrumStyle::Plain,
        state: DrumState::default(),
    }
}

fn text(channel: Channel) -> Text {
    Text {
        xpos: 0,
        ypos: 0,
        channel,
        base_note: 30,
        direction: TextDirection::Horizontal,
        lines: vec![String::from("one two"), String::from("three")],
        text_style: TextStyle::ByWord,
        color: RGB::fff(),
        visibility: true,
        current_line: 0,
        line_progress: 0,
        buffered_progress: 0,
    }
}

fn setup() -> Setup {
    Setup {
        path: String::from("setup.json"),
        midi_port_id: 0,
        global_transpose: 0,
        chords: vec![chord(Channel::Ch2, 100, 40), chord(Channel::Ch1, 50, 30), chord(Channel::Ch1, 7, 7)],
        kit: Kit { drums: vec![drum(36, 10, 200), drum(38, 300, 5)] },
        texts: vec![text(Channel::Ch1), text(Channel::Ch2)],
    }
}

fn editing(inst: Inst, index: u8) -> KeyboardFocus {
    KeyboardFocus { editing: true, index, inst, preview_all: false }
}

#[test]
fn focus_starts_on_the_first_chord_outside_editing() {
    let f = KeyboardFocus::new();
    assert_eq!(f, KeyboardFocus { editing: false, index: 0, inst: Inst::Chord, preview_all: false });
}

#[test]
fn focused_chord_is_the_first_on_the_channel() {
    let s = setup();
    assert_eq!(editing(Inst::Chord, 0).get_focused_chord(&s.chords), Some(1));
    assert_eq!(editing(Inst::Chord, 1).get_focused_chord(&s.chords), Some(0));
    assert_eq!(editing(Inst::Chord, 2).get_focused_chord(&s.chords), None);
    assert_eq!(editing(Inst::Chord, 0).get_focused_chord(&Vec::new()), None);
}

#[test]
fn focused_drum_is_the_one_at_the_index() {
    let s = setup();
    assert_eq!(editing(Inst::Drum, 0).get_focused_drum(&s.kit.drums), Some(0));
    assert_eq!(editing(Inst::Drum, 1).get_focused_drum(&s.kit.drums), Some(1));
    assert_eq!(editing(Inst::Drum, 2).get_focused_drum(&s.kit.drums), None);
}

#[test]
fn chord_adjustments() {
    let mut s = setup();
    let f = editing(Inst::Chord, 1);
    f.adjustment(&mut s, Direction::Right, false, false);
    assert_eq!((s.chords[0].xpos, s.chords[0].width), (110, 40));
    f.adjustment(&mut s, Direction::Left, false, true);
    assert_eq!((s.chords[0].xpos, s.chords[0].width), (90, 40));
    f.adjustment(&mut s, Direction::Up, true, false);
    assert_eq!((s.chords[0].xpos, s.chords[0].width), (90, 42));
    f.adjustment(&mut s, Direction::Down, false, false);
    assert_eq!((s.chords[0].xpos, s.chords[0].width), (90, 37));
    f.adjustment(&mut s, Direction::Up, true, true);
    assert_eq!((s.chords[0].xpos, s.chords[0].width), (90, 37));
    assert_eq!((s.chords[1].xpos, s.chords[1].width), (50, 30));
}

#[test]
fn chord_adjustments_stop_short_of_zero() {
    let mut s = setup();
    let f = editing(Inst::Chord, 0);
    s.chords[1].xpos = 10;
    s.chords[1].width = 10;
    f.adjustment(&mut s, Direction::Left, false, false);
    f.adjustment(&mut s, Direction::Down, false, false);
    assert_eq!((s.chords[1].xpos, s.chords[1].width), (10, 10));
    s.chords[1].xpos = 11;
    s.chords[1].width = 11;
    f.adjustment(&mut s, Direction::Left, false, false);
    f.adjustment(&mut s, Direction::Down, false, false);
    assert_eq!((s.chords[1].xpos, s.chords[1].width), (1, 6));
    assert_eq!((s.chords[2].xpos, s.chords[2].width), (7, 7));
}

#[test]
fn adjustments_hold_at_the_largest_position() {
    let mut s = setup();
    let f = editing(Inst::Chord, 1);
    s.chords[0].xpos = u32::MAX - 3;
    f.adjustment(&mut s, Direction::Right, false, false);
    assert_eq!(s.chords[0].xpos, u32::MAX);
    f.adjustment(&mut s, Direction::Left, false, false);
    assert_eq!(s.chords[0].xpos, u32::MAX - 10);
    s.chords[0].width = u32::MAX;
    f.adjustment(&mut s, Direction::Down, false, true);
    assert_eq!(s.chords[0].width, u32::MAX - 10);
}

#[test]
fn drum_adjustments() {
    let mut s = setup();
    let f = editing(Inst::Drum, 1);
    f.adjustment(&mut s, Direction::Down, true, false);
    assert_eq!((s.kit.drums[1].xpos, s.kit.drums[1].ypos), (300, 10));
    f.adjustment(&mut s, Direction::Up, true, false);
    assert_eq!((s.kit.drums[1].xpos, s.kit.drums[1].ypos), (300, 5));
    f.adjustment(&mut s, Direction::Up, true, false);
    assert_eq!((s.kit.drums[1].xpos, s.kit.drums[1].ypos), (300, 5));
    f.adjustment(&mut s, Direction::Left, false, true);
    assert_eq!((s.kit.drums[1].xpos, s.kit.drums[1].ypos), (280, 5));
    f.adjustment(&mut s, Direction::Right, true, true);
    assert_eq!((s.kit.drums[1].xpos, s.kit.drums[1].ypos), (281, 5));
    assert_eq!((s.kit.drums[0].xpos, s.kit.drums[0].ypos), (10, 200));
}

#[test]
fn no_adjustment_outside_editing_or_without_focus() {
    let mut s = setup();
    let idle = KeyboardFocus { editing: false, index: 1, inst: Inst::Chord, preview_all: false };
    idle.adjustment(&mut s, Direction::Right, false, false);
    idle.mouse_adjustment(&mut s, 5, 5);
    editing(Inst::Chord, 9).adjustment(&mut s, Direction::Right, false, false);
    editing(Inst::Drum, 9).adjustment(&mut s, Direction::Right, false, false);
    editing(Inst::Drum, 9).mouse_adjustment(&mut s, 5, 5);
    assert_eq!((s.chords[0].xpos, s.chords[1].xpos, s.chords[2].xpos), (100, 50, 7));
    assert_eq!((s.kit.drums[0].xpos, s.kit.drums[1].xpos), (10, 300));
}

#[test]
fn pointer_places_the_element_in_focus() {
    let mut s = setup();
    editing(Inst::Chord, 0).mouse_adjustment(&mut s, 120, 80);
    assert_eq!((s.chords[1].xpos, s.chords[1].width), (120, 30));
    editing(Inst::Drum, 0).mouse_adjustment(&mut s, 120, 80);
    assert_eq!((s.kit.drums[0].xpos, s.kit.drums[0].ypos), (120, 80));
}

#[test]
fn router_reaches_every_element() {
    let mut s = setup();
    s.route(PerformanceEvent::NoteOn { channel: Channel::Ch1, pitch: 31, velocity: 90 });
    assert!(s.chords[0].notes.is_empty());
    assert_eq!(s.chords[1].notes, vec![Note { pitch: 31, velocity: 90, age: 0 }]);
    assert_eq!(s.chords[2].notes, vec![Note { pitch: 31, velocity: 90, age: 0 }]);
    assert_eq!(s.texts[0].line_progress, 1);
    assert_eq!(s.texts[1].line_progress, 0);
    assert!(!s.kit.drums[0].state.triggered);
    s.route(PerformanceEvent::NoteOn { channel: Channel::Ch10, pitch: 38, velocity: 90 });
    assert!(s.kit.drums[1].state.triggered && !s.kit.drums[0].state.triggered);
    assert_eq!(s.chords[1].notes.len(), 1);
    s.route(PerformanceEvent::NoteOff { channel: Channel::Ch1, pitch: 31, velocity: 0 });
    assert!(s.chords[1].notes.is_empty() && s.chords[2].notes.is_empty());
    s.route(PerformanceEvent::NoteOn { channel: Channel::Ch2, pitch: 60, velocity: 1 });
    s.route(PerformanceEvent::AllNotesOff { channel: Channel::Ch16 });
    assert!(s.chords[0].notes.is_empty());
    assert!(s.kit.drums[1].state.triggered);
    assert_eq!(s.texts[0].line_progress, 1);
    assert_eq!((s.path.as_str(), s.midi_port_id, s.global_transpose), ("setup.json", 0, 0));
}

#[test]
fn events_are_applied_in_arrival_order() {
    let mut s = setup();
    for pitch in [60u8, 61, 62] {
        s.route(PerformanceEvent::NoteOn { channel: Channel::Ch2, pitch, velocity: 5 });
    }
    s.route(PerformanceEvent::NoteOff { channel: Channel::Ch2, pitch: 61, velocity: 5 });
    s.route(PerformanceEvent::NoteOn { channel: Channel::Ch2, pitch: 61, velocity: 6 });
    let pitches: Vec<(u8, u8)> = s.chords[0].notes.iter().map(|n| (n.pitch, n.velocity)).collect();
    assert_eq!(pitches, vec![(60, 5), (62, 5), (61, 6)]);
}
