use grooveanim::chord::{Chord, ChordStyle};
use grooveanim::drum::{Drum, DrumGfx, DrumState, DrumStyle, Kit};
use grooveanim::editor::{decimal, ChordLabels, DrumLabels, EditorGlyphs};
use grooveanim::graphics::{Bitmap, Glyph, RGB};
use grooveanim::gui::{Direction, Inst, KeyboardFocus};
use grooveanim::midi::Channel;
use grooveanim::setup::Setup;
use grooveanim::win::Win;

fn text_of(chars: Vec<char>) -> String {
    chars.into_iter().collect()
}

fn glyphs(chars: &[char]) -> Vec<Glyph> {
    chars.iter().map(|c| Glyph { ch: *c, width: 1, height: 16, coverage: vec![255; 16] }).collect()
}

fn chord(channel: Channel, xpos: u32, width: u32) -> Chord {
    Chord {
        xpos,
        width,
        channel,
        notes: Vec::new(),
        modulation: 0,
        velocity_sense: false,
        style: ChordStyle::Plain,
        transpose: 0,
        color: RGB::new(255, 0, 0),
        shadow: RGB::default(),
    }
}

fn plain_drum(xpos: u32, ypos: u32) -> Drum {
    Drum {
        xpos,
        ypos,
        note: 36,
        gfx: DrumGfx::Plain { xsize: 4, ysize: 4, color: RGB::new(0, 255, 0) },
        decay_time: 3,
        style: DrumStyle::Plain,
        state: DrumState::default(),
    }
}

fn bitmap_drum(path: &str) -> Drum {
    Drum {
        xpos: 20,
        ypos: 100,
        note: 36,
        gfx: DrumGfx::Bitmap {
            bitmap: Bitmap {
                path: String::from(path),
                data: vec![RGB::default(), RGB::new(0, 0, 7), RGB::new(9, 0, 0), RGB::default()],
                xsize: 2,
                ysize: 2,
            },
        },
        decay_time: 3,
        style: DrumStyle::Plain,
        state: DrumState::default(),
    }
}

fn arrow(r: u8) -> Bitmap {
    Bitmap { path: String::new(), data: vec![RGB::new(r, 1, 1); 4], xsize: 2, ysize: 2 }
}

#[test]
fn decimal_digits() {
    assert_eq!(text_of(decimal(0)), "0");
    assert_eq!(text_of(decimal(7)), "7");
    assert_eq!(text_of(decimal(10)), "10");
    assert_eq!(text_of(decimal(4096)), "4096");
    assert_eq!(text_of(decimal(u32::MAX)), "4294967295");
}

#[test]
fn chord_labels() {
    let c = chord(Channel::Ch2, 100, 40);
    assert_eq!(text_of(c.ghost_name()), "ch2");
    assert_eq!(text_of(c.ghost_place()), "x:100 w:40");
    assert_eq!(text_of(chord(Channel::Ch16, 0, 0).ghost_name()), "ch16");
}

#[test]
fn drum_labels() {
    let d = plain_drum(300, 5);
    assert_eq!(text_of(d.ghost_place()), "x: 300 y:   5");
    assert_eq!(text_of(d.ghost_size()), "w:   4 h:   4");
    assert_eq!(text_of(d.ghost_title()), "");
    assert_eq!(text_of(plain_drum(12345, 10).ghost_place()), "x: 12345 y:  10");
    let b = bitmap_drum("kick.drum.bmp");
    assert_eq!(b.extent(), (2, 2));
    assert_eq!(text_of(b.ghost_size()), "w:   2 h:   2");
    assert_eq!(text_of(b.ghost_title()), "kick");
    assert_eq!(text_of(bitmap_drum("plain").ghost_title()), "plain");
    assert_eq!(text_of(bitmap_drum(".hidden").ghost_title()), "");
}

#[test]
fn focus_labels() {
    let mut f = KeyboardFocus::new();
    assert_eq!(text_of(f.label()), "Chrd  1");
    f.inst = Inst::Drum;
    f.index = 11;
    assert_eq!(text_of(f.label()), "Drum 12");
    f.index = 255;
    assert_eq!(text_of(f.label()), "Drum 256");
}

#[test]
fn focus_label_moves_away_from_crowded_corner() {
    let mut s = Setup {
        path: String::new(),
        midi_port_id: 0,
        global_transpose: 0,
        chords: vec![chord(Channel::Ch1, 100, 10), chord(Channel::Ch2, 69, 10)],
        kit: Kit { drums: vec![plain_drum(69, 99), plain_drum(69, 100)] },
        texts: Vec::new(),
    };
    let mut f = KeyboardFocus { editing: true, index: 0, inst: Inst::Chord, preview_all: false };
    assert!(f.has_focus(&s));
    assert_eq!(f.label_column(&s, 640), 1);
    f.preview_all = true;
    assert_eq!(f.label_column(&s, 640), 570);
    f.preview_all = false;
    f.index = 1;
    assert_eq!(f.label_column(&s, 640), 570);
    assert_eq!(f.label_column(&s, 30), -40);
    f.index = 7;
    assert!(!f.has_focus(&s));
    assert_eq!(f.label_column(&s, 640), 1);
    f.inst = Inst::Drum;
    f.index = 1;
    assert!(f.has_focus(&s));
    assert_eq!(f.label_column(&s, 640), 1);
    f.preview_all = true;
    assert_eq!(f.label_column(&s, 640), 570);
    s.kit.drums[0].xpos = 70;
    assert_eq!(f.label_column(&s, 640), 1);
    f.index = 2;
    assert!(!f.has_focus(&s));
}

#[test]
fn arrow_keys_have_directions() {
    assert_eq!(Direction::from_key(&minifb::Key::Up), Some(Direction::Up));
    assert_eq!(Direction::from_key(&minifb::Key::Down), Some(Direction::Down));
    assert_eq!(Direction::from_key(&minifb::Key::Left), Some(Direction::Left));
    assert_eq!(Direction::from_key(&minifb::Key::Right), Some(Direction::Right));
    assert_eq!(Direction::from_key(&minifb::Key::A), None);
    assert_eq!(Direction::from_key(&minifb::Key::Enter), None);
}

#[test]
fn ghost_chord_outlines_and_labels() {
    let c = chord(Channel::Ch1, 10, 6);
    let mut win = Win::init(40, 64);
    win.draw_ghost_chord(&c, &glyphs(&c.ghost_name()), &glyphs(&c.ghost_place()), &arrow(5));
    let red = 0xFF0000;
    let white = 0xFFFFFF;
    // first outline: rows 10 to 17, columns 10 to 15, two thick, dotted
    assert_eq!(win.pixel(11, 10), red);
    assert_eq!(win.pixel(10, 10), 0);
    assert_eq!(win.pixel(10, 11), red);
    assert_eq!(win.pixel(12, 11), 0);
    assert_eq!(win.pixel(13, 11), red);
    assert_eq!(win.pixel(12, 13), 0);
    assert_eq!(win.pixel(14, 13), red);
    assert_eq!(win.pixel(15, 17), red);
    assert_eq!(win.pixel(16, 17), 0);
    // second outline 48 rows further down
    assert_eq!(win.pixel(11, 58), red);
    // name "ch1" from column 10 of row 16, place from row 30, two columns a glyph
    assert_eq!(win.pixel(10, 16), white);
    assert_eq!(win.pixel(10, 17), red);
    assert_eq!(win.pixel(12, 20), white);
    assert_eq!(win.pixel(14, 31), white);
    assert_eq!(win.pixel(16, 20), 0);
    assert_eq!(win.pixel(16, 31), white);
    assert_eq!(win.pixel(10, 30), white);
    assert_eq!(win.pixel(12, 45), white);
    assert_eq!(win.pixel(20, 30), 0);
    assert_eq!(win.pixel(26, 30), white);
    assert_eq!(win.pixel(30, 30), white);
    assert_eq!(win.pixel(32, 30), 0);
    assert_eq!(win.pixel(11, 30), 0);
}

#[test]
fn ghost_chord_row_follows_the_channel() {
    let c = chord(Channel::Ch3, 10, 6);
    let mut win = Win::init(40, 120);
    win.draw_ghost_chord(&c, &glyphs(&c.ghost_name()), &glyphs(&c.ghost_place()), &arrow(5));
    assert_eq!(win.pixel(12, 63), 0);
    assert_eq!(win.pixel(12, 64), 0xFFFFFF);
    assert_eq!(win.pixel(11, 58), 0xFF0000);
    assert_eq!(win.pixel(11, 10), 0);
}

#[test]
fn ghost_chord_beyond_the_right_edge_gets_an_arrow() {
    let c = chord(Channel::Ch1, 639, 6);
    let mut win = Win::init(640, 40);
    win.draw_ghost_chord(&c, &glyphs(&c.ghost_name()), &glyphs(&c.ghost_place()), &arrow(5));
    assert_eq!(win.pixel(574, 18), 0x050101);
    assert_eq!(win.pixel(575, 19), 0x050101);
    assert_eq!(win.pixel(576, 18), 0);
    assert_eq!(win.pixel(550, 16), 0xFFFFFF);
    let inside = chord(Channel::Ch1, 638, 6);
    let mut win = Win::init(640, 40);
    win.draw_ghost_chord(&inside, &glyphs(&inside.ghost_name()), &glyphs(&inside.ghost_place()), &arrow(5));
    assert_eq!(win.pixel(574, 18), 0);
}

#[test]
fn ghost_drum_near_the_top() {
    let d = plain_drum(10, 5);
    let mut win = Win::init(200, 200);
    win.draw_ghost_drum(
        &d,
        &glyphs(&d.ghost_place()),
        &glyphs(&d.ghost_size()),
        &glyphs(&d.ghost_title()),
        &arrow(5),
        &arrow(6),
    );
    let green = 0x00FF00;
    for y in 5..9 {
        for x in 10..14 {
            assert_eq!(win.pixel(x, y), green);
        }
    }
    assert_eq!(win.pixel(14, 5), 0);
    assert_eq!(win.pixel(10, 9), 0xFFFFFF);
    assert_eq!(win.pixel(10, 24), 0xFFFFFF);
    assert_eq!(win.pixel(10, 29), RGB::new(127, 127, 127).irl());
    assert_eq!(win.pixel(10, 44), RGB::new(127, 127, 127).irl());
    assert_eq!(win.pixel(10, 49), 0);
    assert!(win.buffer.iter().all(|p| *p != 0x050101 && *p != 0x060101));
}

#[test]
fn ghost_drum_below_the_frame_gets_an_arrow_down() {
    let d = plain_drum(10, 300);
    let mut win = Win::init(200, 200);
    win.draw_ghost_drum(
        &d,
        &glyphs(&d.ghost_place()),
        &glyphs(&d.ghost_size()),
        &glyphs(&d.ghost_title()),
        &arrow(5),
        &arrow(6),
    );
    assert_eq!(win.pixel(10, 140), 0xFFFFFF);
    assert_eq!(win.pixel(10, 160), RGB::new(127, 127, 127).irl());
    assert_eq!(win.pixel(10, 180), 0x060101);
    assert_eq!(win.pixel(11, 181), 0x060101);
    let far = plain_drum(250, 300);
    let mut win = Win::init(200, 200);
    win.draw_ghost_drum(
        &far,
        &glyphs(&far.ghost_place()),
        &glyphs(&far.ghost_size()),
        &glyphs(&far.ghost_title()),
        &arrow(5),
        &arrow(6),
    );
    assert_eq!(win.pixel(184, 180), 0x060101);
    assert_eq!(win.pixel(110, 140), 0xFFFFFF);
}

#[test]
fn ghost_drum_right_of_the_frame_gets_an_arrow_right() {
    let d = plain_drum(199, 100);
    let mut win = Win::init(200, 200);
    win.draw_ghost_drum(
        &d,
        &glyphs(&d.ghost_place()),
        &glyphs(&d.ghost_size()),
        &glyphs(&d.ghost_title()),
        &arrow(5),
        &arrow(6),
    );
    // measures above the drum, at row 59 from column 110; the arrow at column 184 of row 99
    assert_eq!(win.pixel(110, 59), 0xFFFFFF);
    assert_eq!(win.pixel(184, 99), 0x050101);
    assert_eq!(win.pixel(199, 100), 0x00FF00);
}

#[test]
fn ghost_drum_with_a_bitmap_shows_its_title() {
    let d = bitmap_drum("kick.bmp");
    let mut win = Win::init(200, 200);
    win.draw_ghost_drum(
        &d,
        &glyphs(&d.ghost_place()),
        &glyphs(&d.ghost_size()),
        &glyphs(&d.ghost_title()),
        &arrow(5),
        &arrow(6),
    );
    // measures at row 59, title twenty rows above, hatched box in the first colour of the bitmap
    assert_eq!(win.pixel(20, 59), 0xFFFFFF);
    assert_eq!(win.pixel(20, 39), 0xFFFFFF);
    assert_eq!(win.pixel(26, 39), 0xFFFFFF);
    assert_eq!(win.pixel(28, 39), 0);
    assert_eq!(win.pixel(20, 100), 0x000007);
    assert_eq!(win.pixel(21, 101), 0x000007);
    assert_eq!(win.pixel(22, 100), 0);
}

fn editor_glyphs(setup: &Setup, focus: &KeyboardFocus) -> EditorGlyphs {
    EditorGlyphs {
        chords: setup
            .chords
            .iter()
            .map(|c| ChordLabels { name: glyphs(&c.ghost_name()), place: glyphs(&c.ghost_place()) })
            .collect(),
        drums: setup
            .kit
            .drums
            .iter()
            .map(|d| DrumLabels {
                place: glyphs(&d.ghost_place()),
                size: glyphs(&d.ghost_size()),
                title: glyphs(&d.ghost_title()),
            })
            .collect(),
        label: glyphs(&focus.label()),
        editing: glyphs(&['E', 'd', 'i', 't', 'i', 'n', 'g']),
        arrow_right: arrow(5),
        arrow_down: arrow(6),
    }
}

fn small_setup() -> Setup {
    Setup {
        path: String::new(),
        midi_port_id: 0,
        global_transpose: 0,
        chords: vec![chord(Channel::Ch1, 100, 6), chord(Channel::Ch2, 150, 6)],
        kit: Kit { drums: vec![plain_drum(120, 150)] },
        texts: Vec::new(),
    }
}

#[test]
fn editor_draws_the_chord_in_focus_and_its_label() {
    let s = small_setup();
    let f = KeyboardFocus { editing: true, index: 0, inst: Inst::Chord, preview_all: false };
    let mut win = Win::init(200, 200);
    win.draw_editor(&s, &f, &editor_glyphs(&s, &f));
    // the first chord's outline, not the second's
    assert_eq!(win.pixel(101, 10), 0xFF0000);
    assert_eq!(win.pixel(151, 34), 0);
    // labels in columns of eight from column 1: a glyph one wide sits at 1 + 16 - 1 - 3
    assert_eq!(win.pixel(13, 17), 0xFFFFFF);
    assert_eq!(win.pixel(13, 1), 0xFFFFFF);
    assert_eq!(win.pixel(21, 1), 0xFFFFFF);
    assert_eq!(win.pixel(12, 17), 0);
    // the letter i sits two columns further left than the others
    assert_eq!(win.pixel(43, 1), 0xFFFFFF);
    assert_eq!(win.pixel(45, 1), 0);
    assert_eq!(win.pixel(35, 1), 0);
    assert_eq!(win.pixel(37, 1), 0xFFFFFF);
    // "Chrd  1": the fifth and sixth places are blank
    assert_eq!(win.pixel(13 + 32, 17), 0);
    assert_eq!(win.pixel(13 + 40, 17), 0);
    assert_eq!(win.pixel(13 + 48, 17), 0xFFFFFF);
    assert_eq!(win.pixel(13 + 56, 17), 0);
}

#[test]
fn editor_previews_all_and_marks_a_missing_focus_red() {
    let s = small_setup();
    let f = KeyboardFocus { editing: true, index: 4, inst: Inst::Chord, preview_all: true };
    let mut win = Win::init(200, 200);
    win.draw_editor(&s, &f, &editor_glyphs(&s, &f));
    assert_eq!(win.pixel(101, 10), 0xFF0000);
    // the second chord is on the second channel, one row of labels further down
    assert_eq!(win.pixel(151, 10), 0);
    assert_eq!(win.pixel(151, 34), 0xFF0000);
    assert_eq!(win.pixel(13, 17), 0xFF0000);
    assert_eq!(win.pixel(13, 1), 0xFFFFFF);
}

#[test]
fn editor_draws_drums_and_moves_its_label() {
    let mut s = small_setup();
    s.kit.drums[0].xpos = 20;
    s.kit.drums[0].ypos = 50;
    let f = KeyboardFocus { editing: true, index: 0, inst: Inst::Drum, preview_all: false };
    let mut win = Win::init(200, 200);
    win.draw_editor(&s, &f, &editor_glyphs(&s, &f));
    assert_eq!(win.pixel(20, 50), 0x00FF00);
    assert_eq!(win.pixel(101, 10), 0);
    // the label has moved to column 130
    assert_eq!(win.pixel(13, 1), 0);
    assert_eq!(win.pixel(142, 1), 0xFFFFFF);
    assert_eq!(win.pixel(142, 31), 0xFFFFFF);
    assert_eq!(win.pixel(142, 32), 0);
}
