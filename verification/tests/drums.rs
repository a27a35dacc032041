use grooveanim::drum::{Drum, DrumGfx, DrumState, DrumStyle, Kit};
use grooveanim::graphics::{Bitmap, RGB};
use grooveanim::chord::{Chord, ChordStyle};
use grooveanim::midi::{Channel, MidiProcessor, Note, PerformanceEvent};
use grooveanim::setup::Setup;
use grooveanim::win::Win;

fn plain_drum(note: u8, style: DrumStyle, decay_time: u32) -> Drum {
    Drum {
        xpos: 1,
        ypos: 1,
        note,
        gfx: DrumGfx::Plain { xsize: 2, ysize: 1, color: RGB::new(200, 100, 50) },
        decay_time,
        style,
        state: DrumState::default(),
    }
}

fn hit(note: u8) -> PerformanceEvent {
    PerformanceEvent::NoteOn { channel: Channel::Ch10, pitch: note, velocity: 100 }
}

fn lift(note: u8) -> PerformanceEvent {
    PerformanceEvent::NoteOff { channel: Channel::Ch10, pitch: note, velocity: 0 }
}

#[test]
fn drum_state_starts_idle() {
    let s = DrumState::default();
    assert_eq!(s, DrumState { triggered: false, note_held: false, age: 0 });
}

#[test]
fn trigger_release_reset() {
    let mut s = DrumState { triggered: false, note_held: false, age: 7 };
    s.trigger();
    assert_eq!(s, DrumState { triggered: true, note_held: true, age: 0 });
    s.age = 2;
    s.release();
    assert_eq!(s, DrumState { triggered: true, note_held: false, age: 2 });
    s.reset();
    assert_eq!(s, DrumState { triggered: false, note_held: false, age: 0 });
}

#[test]
fn held_drum_keeps_its_age() {
    let mut s = DrumState::default();
    s.trigger();
    for _ in 0..10 {
        assert!(s.tick_or_reset(3));
        assert_eq!(s.age, 0);
    }
    let mut late = DrumState { triggered: true, note_held: true, age: 9 };
    assert!(late.tick_or_reset(3));
    assert_eq!(late, DrumState { triggered: true, note_held: true, age: 9 });
}

#[test]
fn released_drum_ages_then_resets() {
    let mut s = DrumState::default();
    s.trigger();
    s.release();
    assert!(s.tick_or_reset(3));
    assert_eq!(s.age, 1);
    assert!(s.tick_or_reset(3));
    assert!(s.tick_or_reset(3));
    assert_eq!(s.age, 3);
    assert!(!s.tick_or_reset(3));
    assert_eq!(s, DrumState { triggered: false, note_held: false, age: 0 });
}

#[test]
fn released_drum_with_no_decay_time_resets_at_once() {
    let mut s = DrumState { triggered: true, note_held: false, age: 0 };
    assert!(!s.tick_or_reset(0));
    assert!(!s.triggered);
}

#[test]
fn kit_triggers_and_releases_by_note() {
    let mut kit = Kit {
        drums: vec![
            plain_drum(36, DrumStyle::Plain, 4),
            plain_drum(38, DrumStyle::Plain, 4),
            plain_drum(36, DrumStyle::Decay, 4),
        ],
    };
    kit.deal_with(hit(36));
    assert!(kit.drums[0].state.triggered && kit.drums[0].state.note_held);
    assert!(!kit.drums[1].state.triggered);
    assert!(kit.drums[2].state.triggered);
    kit.deal_with(lift(36));
    assert!(kit.drums[0].state.triggered && !kit.drums[0].state.note_held);
    assert!(kit.drums[2].state.triggered && !kit.drums[2].state.note_held);
}

#[test]
fn kit_ignores_other_channels_and_events() {
    let mut kit = Kit { drums: vec![plain_drum(36, DrumStyle::Plain, 4)] };
    kit.deal_with(PerformanceEvent::NoteOn { channel: Channel::Ch1, pitch: 36, velocity: 100 });
    kit.deal_with(PerformanceEvent::AllNotesOff { channel: Channel::Ch10 });
    kit.deal_with(PerformanceEvent::ControlChange { channel: Channel::Ch10, controller: 1, value: 5 });
    assert_eq!(kit.drums[0].state, DrumState::default());
    kit.deal_with(hit(36));
    kit.deal_with(PerformanceEvent::AllSoundOff { channel: Channel::Ch10 });
    assert!(kit.drums[0].state.triggered);
}

#[test]
fn idle_drum_is_not_drawn() {
    let mut win = Win::init(4, 3);
    let mut drum = plain_drum(36, DrumStyle::Plain, 4);
    win.draw_drum(&mut drum);
    assert!(win.buffer.iter().all(|p| *p == 0));
    assert_eq!(drum.state, DrumState::default());
}

#[test]
fn plain_drum_is_drawn_at_full_brightness() {
    let mut win = Win::init(4, 3);
    let mut drum = plain_drum(36, DrumStyle::Plain, 4);
    drum.deal_with(hit(36));
    drum.deal_with(lift(36));
    win.draw_drum(&mut drum);
    win.draw_drum(&mut drum);
    let c = RGB::new(200, 100, 50).irl();
    assert_eq!(win.buffer, vec![0, 0, 0, 0, 0, c, c, 0, 0, 0, 0, 0]);
    assert_eq!(drum.state.age, 2);
}

#[test]
fn decaying_drum_dims_with_age() {
    let mut drum = plain_drum(36, DrumStyle::Decay, 4);
    drum.deal_with(hit(36));
    let mut win = Win::init(4, 3);
    win.draw_drum(&mut drum);
    assert_eq!(win.pixel(1, 1), RGB::new(200, 100, 50).irl());
    drum.deal_with(lift(36));
    // age 1 of 4: three quarters
    win.clear();
    win.draw_drum(&mut drum);
    assert_eq!(win.pixel(1, 1), RGB::new(150, 75, 37).irl());
    // age 2 of 4: a half
    win.clear();
    win.draw_drum(&mut drum);
    assert_eq!(win.pixel(2, 1), RGB::new(100, 50, 25).irl());
    // age 3 of 4: a quarter
    win.clear();
    win.draw_drum(&mut drum);
    assert_eq!(win.pixel(1, 1), RGB::new(50, 25, 12).irl());
    // age 4 of 4: black in its last frame, and still triggered
    win.clear();
    win.draw_drum(&mut drum);
    assert!(win.buffer.iter().all(|p| *p == 0));
    assert!(drum.state.triggered);
    assert_eq!(drum.state.age, 4);
    win.clear();
    win.draw_drum(&mut drum);
    assert!(win.buffer.iter().all(|p| *p == 0));
    assert_eq!(drum.state, DrumState::default());
}

#[test]
fn bitmap_drum_is_blitted() {
    let bitmap = Bitmap {
        path: String::from("kick.bmp"),
        data: vec![RGB::new(9, 9, 9), RGB::new(0, 0, 0), RGB::new(0, 0, 0), RGB::new(100, 50, 20)],
        xsize: 2,
        ysize: 2,
    };
    let mut drum = Drum {
        xpos: 1,
        ypos: 0,
        note: 40,
        gfx: DrumGfx::Bitmap { bitmap },
        decay_time: 2,
        style: DrumStyle::Decay,
        state: DrumState::default(),
    };
    drum.deal_with(hit(40));
    drum.deal_with(lift(40));
    let mut win = Win::init(3, 2);
    win.draw_rect(0, 0, 3, 2, &RGB::new(1, 1, 1));
    win.draw_drum(&mut drum);
    // age 1 of 2: a half
    let bg = RGB::new(1, 1, 1).irl();
    assert_eq!(
        win.buffer,
        vec![bg, RGB::new(4, 4, 4).irl(), bg, bg, bg, RGB::new(50, 25, 10).irl()]
    );
}

#[test]
fn frame_runs_chords_then_drums() {
    let chord = Chord {
        xpos: 0,
        width: 4,
        channel: Channel::Ch1,
        notes: vec![Note { pitch: 1, velocity: 9, age: 0 }, Note { pitch: 0, velocity: 9, age: 2 }],
        modulation: 0,
        velocity_sense: false,
        style: ChordStyle::Decay { time: 2 },
        transpose: 0,
        color: RGB::new(5, 5, 5),
        shadow: RGB::new(2, 2, 2),
    };
    let mut idle = plain_drum(40, DrumStyle::Plain, 4);
    idle.xpos = 0;
    let mut live = plain_drum(36, DrumStyle::Plain, 4);
    live.deal_with(hit(36));
    let mut setup = Setup {
        path: String::new(),
        midi_port_id: 0,
        global_transpose: 0,
        chords: vec![chord],
        kit: Kit { drums: vec![idle, live] },
        texts: Vec::new(),
    };
    let mut win = Win::init(4, 12);
    win.advance_and_render(&mut setup);
    assert_eq!(setup.chords[0].notes, vec![Note { pitch: 1, velocity: 9, age: 1 }]);
    assert!(setup.kit.drums[1].state.triggered && !setup.kit.drums[0].state.triggered);
    let bar = RGB::new(5, 5, 5).irl();
    let hit_colour = RGB::new(200, 100, 50).irl();
    // the bar of pitch 1 fills rows 0 to 7; the drum covers columns 1 and 2 of row 1
    assert_eq!(win.pixel(0, 1), bar);
    assert_eq!(win.pixel(1, 1), hit_colour);
    assert_eq!(win.pixel(2, 1), hit_colour);
    assert_eq!(win.pixel(3, 1), bar);
    assert_eq!(win.pixel(1, 0), bar);
    assert_eq!(win.pixel(1, 8), RGB::new(2, 2, 2).irl());
    assert_eq!(win.pixel(1, 10), 0);
}
