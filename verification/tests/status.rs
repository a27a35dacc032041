use grooveanim::graphics::{Glyph, RGB};
use grooveanim::win::{StatusMessage, Win};

fn glyphs_for(text: &str) -> Vec<Glyph> {
    text.chars().map(|ch| Glyph { ch, width: 3, height: 10, coverage: vec![255; 30] }).collect()
}

fn shown(win: &Win) -> bool {
    matches!(win.status_message, StatusMessage::Shown { .. })
}

#[test]
fn message_is_stamped_with_the_tick() {
    let mut win = Win::init(4, 4);
    win.tick = 17;
    win.set_status_message("saved", RGB::new(1, 2, 3));
    match &win.status_message {
        StatusMessage::Shown { text, since, color } => {
            assert_eq!(text, "saved");
            assert_eq!(*since, 17);
            assert_eq!(*color, RGB::new(1, 2, 3));
        }
        StatusMessage::Absent => panic!("no message"),
    }
    win.tick = 20;
    win.set_status_message("again", RGB::fff());
    match &win.status_message {
        StatusMessage::Shown { text, since, .. } => {
            assert_eq!(text, "again");
            assert_eq!(*since, 20);
        }
        StatusMessage::Absent => panic!("no message"),
    }
}

#[test]
fn message_lasts_three_hundred_frames() {
    let mut win = Win::init(40, 30);
    win.tick = 5;
    win.set_status_message("ok", RGB::fff());
    let glyphs = glyphs_for("ok");
    for t in 5..305 {
        win.tick = t;
        win.clear();
        win.draw_status_message(&glyphs);
        assert!(shown(&win), "at {}", t);
        assert!(win.buffer.iter().any(|p| *p != 0), "at {}", t);
    }
    win.tick = 305;
    win.clear();
    win.draw_status_message(&glyphs);
    assert!(!shown(&win));
    assert!(win.buffer.iter().all(|p| *p == 0));
    win.tick = 306;
    win.draw_status_message(&glyphs);
    assert!(!shown(&win));
    assert!(win.buffer.iter().all(|p| *p == 0));
}

#[test]
fn message_expires_when_first_drawn_late() {
    let mut win = Win::init(40, 30);
    win.set_status_message("ok", RGB::fff());
    win.tick = 5000;
    win.draw_status_message(&glyphs_for("ok"));
    assert!(!shown(&win));
    assert!(win.buffer.iter().all(|p| *p == 0));
}

#[test]
fn no_message_draws_nothing() {
    let mut win = Win::init(40, 30);
    win.draw_status_message(&Vec::new());
    assert!(win.buffer.iter().all(|p| *p == 0));
}

#[test]
fn message_box_shadow_and_text() {
    let mut win = Win::init(40, 30);
    win.set_status_message("ok", RGB::new(255, 100, 0));
    win.draw_status_message(&glyphs_for("ok"));
    // the text is 8 wide, the box 16 by 16 from column 2 of row 8, the shadow from column 4 of row 10
    let main = RGB::new(255, 100, 0).irl();
    let shade = RGB::new(51, 20, 0).irl();
    assert_eq!(win.pixel(2, 8), main);
    assert_eq!(win.pixel(17, 23), main);
    assert_eq!(win.pixel(1, 8), 0);
    assert_eq!(win.pixel(2, 7), 0);
    assert_eq!(win.pixel(18, 8), 0);
    assert_eq!(win.pixel(18, 10), shade);
    assert_eq!(win.pixel(19, 25), shade);
    assert_eq!(win.pixel(4, 24), shade);
    assert_eq!(win.pixel(3, 24), 0);
    assert_eq!(win.pixel(20, 25), 0);
    assert_eq!(win.pixel(4, 26), 0);
    // black glyphs from column 3 of row 6, hanging six rows down: rows 12 to 21
    assert_eq!(win.pixel(3, 11), main);
    assert_eq!(win.pixel(3, 12), 0);
    assert_eq!(win.pixel(5, 21), 0);
    assert_eq!(win.pixel(6, 12), main);
    assert_eq!(win.pixel(7, 12), 0);
    assert_eq!(win.pixel(9, 21), 0);
    assert_eq!(win.pixel(10, 12), main);
    assert_eq!(win.pixel(3, 22), main);
}

#[test]
fn message_fades() {
    let color = RGB::new(250, 100, 50);
    let mut last_main = u32::MAX;
    let mut last_shade = u32::MAX;
    for elapsed in [0usize, 100, 199, 200, 220, 250, 280, 299] {
        let mut win = Win::init(40, 30);
        win.set_status_message("", color);
        win.tick = elapsed;
        win.draw_status_message(&Vec::new());
        let main = win.pixel(2, 8) >> 16;
        let shade = win.pixel(9, 25) >> 16;
        assert!(main <= last_main && shade <= last_shade);
        last_main = main;
        last_shade = shade;
    }
    // at the last frame the level is one hundredth
    assert_eq!(last_main, 2);
    assert_eq!(last_shade, 0);
    let mut win = Win::init(40, 30);
    win.set_status_message("", color);
    win.tick = 250;
    win.draw_status_message(&Vec::new());
    // half a level: a half for the box, nothing for the shadow
    assert_eq!(win.pixel(2, 8), RGB::new(125, 50, 25).irl());
    assert_eq!(win.pixel(9, 25), 0);
    let mut win = Win::init(40, 30);
    win.set_status_message("", color);
    win.tick = 210;
    win.draw_status_message(&Vec::new());
    // nine tenths of a level: nine tenths for the box, one tenth for the shadow
    assert_eq!(win.pixel(2, 8), RGB::new(225, 90, 45).irl());
    assert_eq!(win.pixel(9, 25), RGB::new(25, 10, 5).irl());
    let mut win = Win::init(40, 30);
    win.set_status_message("", color);
    win.tick = 150;
    win.draw_status_message(&Vec::new());
    // a level of one or more: all for the box, a fifth for the shadow
    assert_eq!(win.pixel(2, 8), color.irl());
    assert_eq!(win.pixel(9, 25), RGB::new(50, 20, 10).irl());
}

#[test]
fn message_on_a_low_frame_is_clipped() {
    let mut win = Win::init(10, 10);
    win.set_status_message("ok", RGB::fff());
    win.draw_status_message(&glyphs_for("ok"));
    // the box starts at row -12 and ends before row 4, the shadow before row 6
    assert_eq!(win.pixel(2, 0), 0xFFFFFF);
    assert_eq!(win.pixel(3, 0), 0);
    assert_eq!(win.pixel(3, 2), 0xFFFFFF);
    assert_eq!(win.pixel(6, 0), 0xFFFFFF);
    assert_eq!(win.pixel(2, 3), 0xFFFFFF);
    assert_eq!(win.pixel(4, 5), RGB::new(51, 51, 51).irl());
    assert_eq!(win.pixel(4, 6), 0);
}
