//! What the editor draws over the frame: the outline of an element, its
//! measures, and an arrow towards an element that lies outside the frame.

use vstd::prelude::*;
use crate::chord::Chord;
use crate::drum::{Drum, DrumGfx};
use crate::graphics::{chars_of, first_lit, hex_digit, magenta, Bitmap, Glyph, RGB};
use crate::gui::{Inst, KeyboardFocus};
use crate::setup::Setup;
use crate::text::TextDirection;
use crate::win::{columns_laid, glyph_chars, laid, text_laid, Blit, Hatch, Outline, Win};

verus! {

/// The decimal digits of a number.
pub open spec fn decimal_text(n: nat) -> Seq<char>
    decreases n,
{
    if n < 10 {
        seq![hex_digit(n as int)]
    } else {
        decimal_text(n / 10).push(hex_digit((n % 10) as int))
    }
}

/// A text with blanks in front up to a width.
pub open spec fn padded(text: Seq<char>, width: nat) -> Seq<char> {
    if text.len() >= width {
        text
    } else {
        Seq::new((width - text.len()) as nat, |i: int| ' ') + text
    }
}

/// The first position at or after `i` that holds a full stop, or the end.
pub open spec fn stem_end(s: Seq<char>, i: int) -> int
    decreases s.len() - i,
{
    if 0 <= i < s.len() && s[i] != '.' {
        stem_end(s, i + 1)
    } else {
        i
    }
}

/// The name of a chord: `ch` and the number of its channel.
pub open spec fn chord_name_text(chord: Chord) -> Seq<char> {
    seq!['c', 'h'] + decimal_text((chord.channel.spec_index() + 1) as nat)
}

/// The measures of a chord: its position and its width.
pub open spec fn chord_place_text(chord: Chord) -> Seq<char> {
    seq!['x', ':'] + decimal_text(chord.xpos as nat) + seq![' ', 'w', ':'] + decimal_text(
        chord.width as nat,
    )
}

/// Two measures under their letters, each at least three characters wide.
pub open spec fn pair_text(first: char, a: u32, second: char, b: u32) -> Seq<char> {
    seq![first, ':', ' '] + padded(decimal_text(a as nat), 3) + seq![' ', second, ':', ' ']
        + padded(decimal_text(b as nat), 3)
}

/// The width and the height of what a drum shows.
pub open spec fn drum_extent(drum: Drum) -> (u32, u32) {
    match drum.gfx {
        DrumGfx::Plain { xsize, ysize, color } => (xsize, ysize),
        DrumGfx::Bitmap { bitmap } => (bitmap.xsize, bitmap.ysize),
    }
}

/// The colour of a drum's outline: its own, or the first of its bitmap that
/// is not black.
pub open spec fn drum_tint(drum: Drum) -> RGB {
    match drum.gfx {
        DrumGfx::Plain { xsize, ysize, color } => color,
        DrumGfx::Bitmap { bitmap } => if first_lit(bitmap.data@, 0) < bitmap.data@.len() {
            bitmap.data@[first_lit(bitmap.data@, 0)]
        } else {
            magenta()
        },
    }
}

/// The title of a drum with a bitmap: the bitmap's path up to its first full
/// stop. A plain drum has none.
pub open spec fn drum_title_text(drum: Drum) -> Seq<char> {
    match drum.gfx {
        DrumGfx::Plain { .. } => Seq::empty(),
        DrumGfx::Bitmap { bitmap } => bitmap.path@.take(stem_end(bitmap.path@, 0)),
    }
}

/// The label of the editor: the kind in focus and the index, counted from
/// one, at least two characters wide.
pub open spec fn focus_text(focus: KeyboardFocus) -> Seq<char> {
    (match focus.inst {
        Inst::Chord => seq!['C', 'h', 'r', 'd', ' '],
        Inst::Drum => seq!['D', 'r', 'u', 'm', ' '],
    }) + padded(decimal_text((focus.index + 1) as nat), 2)
}

/// Whether an element crowds the editor's label out of the top left corner.
pub open spec fn crowds_chord(chord: Chord) -> bool {
    chord.xpos < 70
}

/// A drum crowds the corner where it lies near both the left and the top.
pub open spec fn crowds_drum(drum: Drum) -> bool {
    drum.xpos < 70 && drum.ypos < 100
}

/// The decimal digits of a number.
pub fn decimal(v: u32) -> (out: Vec<char>)
    ensures
        out@ == decimal_text(v as nat),
    decreases v,
{
    let digit: char = digit_char((v % 10) as u8);
    if v < 10 {
        let mut out: Vec<char> = Vec::new();
        out.push(digit);
        assert(out@ =~= seq![hex_digit(v as int)]);
        out
    } else {
        let mut out: Vec<char> = decimal(v / 10);
        out.push(digit);
        out
    }
}

fn digit_char(v: u8) -> (out: char)
    requires
        v < 10,
    ensures
        out == hex_digit(v as int),
{
    if v == 0 {
        '0'
    } else if v == 1 {
        '1'
    } else if v == 2 {
        '2'
    } else if v == 3 {
        '3'
    } else if v == 4 {
        '4'
    } else if v == 5 {
        '5'
    } else if v == 6 {
        '6'
    } else if v == 7 {
        '7'
    } else if v == 8 {
        '8'
    } else {
        '9'
    }
}

fn push_all(out: &mut Vec<char>, more: &Vec<char>)
    ensures
        final(out)@ == old(out)@ + more@,
{
    let n: usize = more.len();
    let mut i: usize = 0;
    while i < n
        invariant
            i <= n,
            n == more@.len(),
            out@ == old(out)@ + more@.take(i as int),
        decreases n - i,
    {
        out.push(more[i]);
        assert(out@ =~= old(out)@ + more@.take(i + 1));
        i += 1;
    }
    assert(more@.take(n as int) =~= more@);
}

fn push_padded(out: &mut Vec<char>, text: &Vec<char>, width: usize)
    ensures
        final(out)@ == old(out)@ + padded(text@, width as nat),
{
    let n: usize = text.len();
    let mut i: usize = n;
    while i < width
        invariant
            n <= i,
            n == text@.len(),
            n < width ==> i <= width,
            n >= width ==> i == n,
            out@ == old(out)@ + Seq::new((i - n) as nat, |k: int| ' '),
        decreases width - i,
    {
        out.push(' ');
        assert(out@ =~= old(out)@ + Seq::new((i + 1 - n) as nat, |k: int| ' '));
        i += 1;
    }
    let ghost blanks = Seq::new((i - n) as nat, |k: int| ' ');
    push_all(out, text);
    proof {
        assert(out@ == (old(out)@ + blanks) + text@);
        if n >= width {
            assert(blanks =~= Seq::<char>::empty());
            assert(old(out)@ + blanks =~= old(out)@);
        } else {
            assert(padded(text@, width as nat) == blanks + text@);
            assert((old(out)@ + blanks) + text@ =~= old(out)@ + (blanks + text@));
        }
    }
}

fn pair_label(first: char, a: u32, second: char, b: u32) -> (out: Vec<char>)
    ensures
        out@ == pair_text(first, a, second, b),
{
    let mut out: Vec<char> = Vec::new();
    out.push(first);
    out.push(':');
    out.push(' ');
    push_padded(&mut out, &decimal(a), 3);
    out.push(' ');
    out.push(second);
    out.push(':');
    out.push(' ');
    push_padded(&mut out, &decimal(b), 3);
    assert(out@ =~= pair_text(first, a, second, b));
    out
}

impl Chord {
    /// The name the editor shows for the chord.
    pub fn ghost_name(&self) -> (out: Vec<char>)
        ensures
            out@ == chord_name_text(*self),
    {
        let mut out: Vec<char> = Vec::new();
        out.push('c');
        out.push('h');
        push_all(&mut out, &decimal(self.channel.number() as u32));
        assert(out@ =~= chord_name_text(*self));
        out
    }

    /// The measures the editor shows for the chord.
    pub fn ghost_place(&self) -> (out: Vec<char>)
        ensures
            out@ == chord_place_text(*self),
    {
        let mut out: Vec<char> = Vec::new();
        out.push('x');
        out.push(':');
        push_all(&mut out, &decimal(self.xpos));
        out.push(' ');
        out.push('w');
        out.push(':');
        push_all(&mut out, &decimal(self.width));
        assert(out@ =~= chord_place_text(*self));
        out
    }
}

impl Drum {
    /// The width and the height of what the drum shows.
    pub fn extent(&self) -> (out: (u32, u32))
        ensures
            out == drum_extent(*self),
    {
        match &self.gfx {
            DrumGfx::Plain { xsize, ysize, color: _ } => (*xsize, *ysize),
            DrumGfx::Bitmap { bitmap } => (bitmap.xsize, bitmap.ysize),
        }
    }

    /// The position the editor shows for the drum.
    pub fn ghost_place(&self) -> (out: Vec<char>)
        ensures
            out@ == pair_text('x', self.xpos, 'y', self.ypos),
    {
        pair_label('x', self.xpos, 'y', self.ypos)
    }

    /// The size the editor shows for the drum.
    pub fn ghost_size(&self) -> (out: Vec<char>)
        ensures
            out@ == pair_text('w', drum_extent(*self).0, 'h', drum_extent(*self).1),
    {
        let (w, h) = self.extent();
        pair_label('w', w, 'h', h)
    }

    /// The title the editor shows for the drum.
    pub fn ghost_title(&self) -> (out: Vec<char>)
        ensures
            out@ == drum_title_text(*self),
    {
        match &self.gfx {
            DrumGfx::Plain { .. } => Vec::new(),
            DrumGfx::Bitmap { bitmap } => {
                let path: Vec<char> = chars_of(bitmap.path.as_str());
                let n: usize = path.len();
                let mut out: Vec<char> = Vec::new();
                let mut i: usize = 0;
                while i < n && path[i] != '.'
                    invariant
                        i <= n,
                        n == path@.len(),
                        stem_end(path@, i as int) == stem_end(path@, 0),
                        out@ == path@.take(i as int),
                    decreases n - i,
                {
                    out.push(path[i]);
                    assert(out@ =~= path@.take(i + 1));
                    i += 1;
                }
                out
            },
        }
    }
}

impl KeyboardFocus {
    /// The label of the editor.
    pub fn label(&self) -> (out: Vec<char>)
        ensures
            out@ == focus_text(*self),
    {
        let mut out: Vec<char> = Vec::new();
        match self.inst {
            Inst::Chord => {
                out.push('C');
                out.push('h');
                out.push('r');
                out.push('d');
            },
            Inst::Drum => {
                out.push('D');
                out.push('r');
                out.push('u');
                out.push('m');
            },
        }
        out.push(' ');
        push_padded(&mut out, &decimal(self.index as u32 + 1), 2);
        assert(out@ =~= focus_text(*self));
        out
    }

    /// Whether an element of the kind in focus is in focus.
    pub open spec fn spec_has_focus(&self, setup: &Setup) -> bool {
        match self.inst {
            Inst::Chord => self.focused_chord(setup.chords@) is Some,
            Inst::Drum => self.focused_drum(setup.kit.drums@) is Some,
        }
    }

    /// Whether the editor's label moves to the right: the element in focus
    /// crowds the top left corner, or with a preview of all, any element of
    /// the kind in focus does.
    pub open spec fn label_moves(&self, setup: &Setup) -> bool {
        match self.inst {
            Inst::Chord => (match self.focused_chord(setup.chords@) {
                Some(i) => crowds_chord(setup.chords@[i as int]),
                None => false,
            }) || (self.preview_all && exists|i: int|
                0 <= i < setup.chords@.len() && crowds_chord(#[trigger] setup.chords@[i])),
            Inst::Drum => (match self.focused_drum(setup.kit.drums@) {
                Some(i) => crowds_drum(setup.kit.drums@[i as int]),
                None => false,
            }) || (self.preview_all && exists|i: int|
                0 <= i < setup.kit.drums@.len() && crowds_drum(#[trigger] setup.kit.drums@[i])),
        }
    }

    /// Whether an element of the kind in focus is in focus.
    pub fn has_focus(&self, setup: &Setup) -> (out: bool)
        ensures
            out == self.spec_has_focus(setup),
    {
        match self.inst {
            Inst::Chord => self.get_focused_chord(&setup.chords).is_some(),
            Inst::Drum => self.get_focused_drum(&setup.kit.drums).is_some(),
        }
    }

    /// The column of the editor's label in a frame of the given width: one,
    /// or seventy short of the right edge where the label moves.
    pub fn label_column(&self, setup: &Setup, width: u32) -> (out: i64)
        ensures
            out == (if self.label_moves(setup) {
                width - 70
            } else {
                1
            }),
    {
        let mut moves: bool = false;
        match self.inst {
            Inst::Chord => {
                match self.get_focused_chord(&setup.chords) {
                    Some(i) => {
                        moves = setup.chords[i].xpos < 70;
                    },
                    None => {},
                }
                if self.preview_all {
                    let n: usize = setup.chords.len();
                    let ghost first = moves;
                    let mut k: usize = 0;
                    while k < n
                        invariant
                            k <= n,
                            n == setup.chords@.len(),
                            moves == (first || exists|i: int|
                                0 <= i < k && crowds_chord(#[trigger] setup.chords@[i])),
                        decreases n - k,
                    {
                        if setup.chords[k].xpos < 70 {
                            moves = true;
                        }
                        k += 1;
                    }
                }
            },
            Inst::Drum => {
                match self.get_focused_drum(&setup.kit.drums) {
                    Some(i) => {
                        moves = setup.kit.drums[i].xpos < 70 && setup.kit.drums[i].ypos < 100;
                    },
                    None => {},
                }
                if self.preview_all {
                    let n: usize = setup.kit.drums.len();
                    let ghost first = moves;
                    let mut k: usize = 0;
                    while k < n
                        invariant
                            k <= n,
                            n == setup.kit.drums@.len(),
                            moves == (first || exists|i: int|
                                0 <= i < k && crowds_drum(#[trigger] setup.kit.drums@[i])),
                        decreases n - k,
                    {
                        if setup.kit.drums[k].xpos < 70 && setup.kit.drums[k].ypos < 100 {
                            moves = true;
                        }
                        k += 1;
                    }
                }
            },
        }
        if moves {
            width as i64 - 70
        } else {
            1
        }
    }
}

/// The smaller of two numbers.
pub open spec fn least(a: int, b: int) -> int {
    if a <= b {
        a
    } else {
        b
    }
}

/// The buffer after the first `n` of the dotted outlines that mark where a
/// chord's bars fall, four pitches apart.
pub open spec fn outlines_laid(buf: Seq<u32>, width: int, chord: Chord, top: int, n: int) -> Seq<u32>
    decreases n,
{
    if n <= 0 {
        buf
    } else {
        laid(
            outlines_laid(buf, width, chord, top, n - 1),
            width,
            &(Outline {
                x: chord.xpos as i128,
                y: (10 + 48 * (n - 1) + top) as i128,
                w: chord.width as i128,
                h: 8,
                t: 2,
                dotted: true,
                value: chord.color.spec_irl(),
            }),
        )
    }
}

/// The buffer after the editor drew a chord: an arrow where the chord lies
/// at or beyond the right edge, its name and measures in a row of its
/// channel, and ten dotted outlines.
pub open spec fn ghost_chord_laid(
    buf: Seq<u32>,
    width: int,
    chord: Chord,
    name: Seq<Glyph>,
    place: Seq<Glyph>,
    arrow: Bitmap,
) -> Seq<u32> {
    let x = least(chord.xpos as int, 550);
    let y = 24 * chord.channel.spec_index();
    let white = 0xFF_FFFFu32;
    let pointed = if chord.xpos >= width - 1 {
        laid(buf, width, &(Blit { x: (x + 24) as i128, y: 18, bitmap: &arrow, dim: None }))
    } else {
        buf
    };
    let named = text_laid(
        pointed,
        width,
        name,
        name.len() as int,
        x,
        y + 16,
        16,
        TextDirection::Horizontal,
        white,
    );
    let placed = text_laid(
        named,
        width,
        place,
        place.len() as int,
        x,
        y + 30,
        16,
        TextDirection::Horizontal,
        white,
    );
    outlines_laid(placed, width, chord, y, 10)
}

/// The row of a drum's measures in a frame of a given height: under a drum
/// near the top, above any other, and never lower than sixty rows above the
/// bottom.
pub open spec fn ghost_drum_text_row(drum: Drum, height: int) -> int {
    least(
        if drum.ypos < 70 {
            drum.ypos + drum_extent(drum).1
        } else {
            drum.ypos - 41
        },
        height - 60,
    )
}

/// The buffer after the editor drew a drum: its position and size, the
/// title of its bitmap, an arrow where it lies outside the frame, and its
/// hatched box.
pub open spec fn ghost_drum_laid(
    buf: Seq<u32>,
    width: int,
    height: int,
    drum: Drum,
    place: Seq<Glyph>,
    size: Seq<Glyph>,
    title: Seq<Glyph>,
    arrow_right: Bitmap,
    arrow_down: Bitmap,
) -> Seq<u32> {
    let row = ghost_drum_text_row(drum, height);
    let col = least(drum.xpos as int, width - 90);
    let white = 0xFF_FFFFu32;
    let grey = (RGB { r: 255, g: 255, b: 255 }).spec_dimmed(1, 2).spec_irl();
    let placed = text_laid(
        buf,
        width,
        place,
        place.len() as int,
        col,
        row,
        16,
        TextDirection::Horizontal,
        white,
    );
    let sized = text_laid(
        placed,
        width,
        size,
        size.len() as int,
        col,
        row + 20,
        16,
        TextDirection::Horizontal,
        grey,
    );
    let titled = if drum.gfx is Bitmap {
        text_laid(
            sized,
            width,
            title,
            title.len() as int,
            col,
            if drum.ypos < 70 {
                row + 40
            } else {
                row - 20
            },
            16,
            TextDirection::Horizontal,
            white,
        )
    } else {
        sized
    };
    let pointed = if drum.ypos >= height {
        laid(
            titled,
            width,
            &(Blit {
                x: (if drum.xpos >= width {
                    width - 16
                } else {
                    col
                }) as i128,
                y: (row + 40) as i128,
                bitmap: &arrow_down,
                dim: None,
            }),
        )
    } else if drum.xpos >= width - 1 {
        laid(
            titled,
            width,
            &(Blit { x: (width - 16) as i128, y: (row + 40) as i128, bitmap: &arrow_right, dim: None }),
        )
    } else {
        titled
    };
    laid(
        pointed,
        width,
        &(Hatch {
            frame: Outline {
                x: drum.xpos as i128,
                y: drum.ypos as i128,
                w: drum_extent(drum).0 as i128,
                h: drum_extent(drum).1 as i128,
                t: 2,
                dotted: false,
                value: drum_tint(drum).spec_irl(),
            },
            diagonal: true,
        }),
    )
}

impl Win {
    /// Draws an arrow that points right or down. `arrow` points right; the
    /// arrow that points down is `arrow` rotated.
    pub fn draw_arrow(&mut self, xpos: i64, ypos: i64, arrow: &Bitmap)
        requires
            old(self).wf(),
            arrow.wf(),
        ensures
            final(self).wf(),
            final(self).same_frame(old(self)),
            final(self).buffer@ == laid(
                old(self).buffer@,
                old(self).width as int,
                &(Blit { x: xpos as i128, y: ypos as i128, bitmap: arrow, dim: None }),
            ),
    {
        let brush = Blit { x: xpos as i128, y: ypos as i128, bitmap: arrow, dim: None };
        self.paint(&brush);
    }

    /// Draws what the editor shows of a chord. `name` and `place` are the
    /// rasterised characters of the chord's `ghost_name` and `ghost_place`;
    /// `arrow` points right.
    pub fn draw_ghost_chord(&mut self, chord: &Chord, name: &Vec<Glyph>, place: &Vec<Glyph>, arrow: &Bitmap)
        requires
            old(self).wf(),
            arrow.wf(),
            glyph_chars(name@) == chord_name_text(*chord),
            glyph_chars(place@) == chord_place_text(*chord),
        ensures
            final(self).wf(),
            final(self).same_frame(old(self)),
            final(self).buffer@ == ghost_chord_laid(
                old(self).buffer@,
                old(self).width as int,
                *chord,
                name@,
                place@,
                *arrow,
            ),
    {
        let white: RGB = RGB::fff();
        let x: i64 = if chord.xpos <= 550 {
            chord.xpos as i64
        } else {
            550
        };
        let y: i64 = 24 * (chord.channel.index() as i64);
        if chord.xpos as i64 >= self.width as i64 - 1 {
            self.draw_arrow(x + 24, 18, arrow);
        }
        self.lay_text(x, y + 16, 16, name, TextDirection::Horizontal, &white);
        self.lay_text(x, y + 30, 16, place, TextDirection::Horizontal, &white);
        let ghost start = self.buffer@;
        let value: u32 = chord.color.irl();
        let mut i: i64 = 0;
        while i < 10
            invariant
                0 <= i <= 10,
                0 <= y <= 24 * 15,
                self.wf(),
                self.same_frame(old(self)),
                value == chord.color.spec_irl(),
                self.buffer@ == outlines_laid(start, self.width as int, *chord, y as int, i as int),
            decreases 10 - i,
        {
            let brush = Outline {
                x: chord.xpos as i128,
                y: (10 + 48 * i + y) as i128,
                w: chord.width as i128,
                h: 8,
                t: 2,
                dotted: true,
                value,
            };
            self.paint(&brush);
            i += 1;
        }
    }

    /// Draws what the editor shows of a drum. `place`, `size` and `title`
    /// are the rasterised characters of the drum's `ghost_place`,
    /// `ghost_size` and `ghost_title`; `arrow_right` points right and
    /// `arrow_down` down.
    pub fn draw_ghost_drum(
        &mut self,
        drum: &Drum,
        place: &Vec<Glyph>,
        size: &Vec<Glyph>,
        title: &Vec<Glyph>,
        arrow_right: &Bitmap,
        arrow_down: &Bitmap,
    )
        requires
            old(self).wf(),
            arrow_right.wf(),
            arrow_down.wf(),
            glyph_chars(place@) == pair_text('x', drum.xpos, 'y', drum.ypos),
            glyph_chars(size@) == pair_text('w', drum_extent(*drum).0, 'h', drum_extent(*drum).1),
            glyph_chars(title@) == drum_title_text(*drum),
        ensures
            final(self).wf(),
            final(self).same_frame(old(self)),
            final(self).buffer@ == ghost_drum_laid(
                old(self).buffer@,
                old(self).width as int,
                old(self).height as int,
                *drum,
                place@,
                size@,
                title@,
                *arrow_right,
                *arrow_down,
            ),
    {
        let white: RGB = RGB::fff();
        let (xsize, ysize) = drum.extent();
        let on_bottom: bool = drum.ypos < 70;
        let wanted: i64 = if on_bottom {
            drum.ypos as i64 + ysize as i64
        } else {
            drum.ypos as i64 - 41
        };
        let floor: i64 = self.height as i64 - 60;
        let row: i64 = if wanted <= floor {
            wanted
        } else {
            floor
        };
        let edge: i64 = self.width as i64 - 90;
        let col: i64 = if drum.xpos as i64 <= edge {
            drum.xpos as i64
        } else {
            edge
        };
        self.lay_text(col, row, 16, place, TextDirection::Horizontal, &white);
        self.lay_text(col, row + 20, 16, size, TextDirection::Horizontal, &white.dimmed(1, 2));
        let tint: RGB = match &drum.gfx {
            DrumGfx::Bitmap { bitmap } => {
                let title_row: i64 = if on_bottom {
                    row + 40
                } else {
                    row - 20
                };
                self.lay_text(col, title_row, 16, title, TextDirection::Horizontal, &white);
                bitmap.first_nonzero_color()
            },
            DrumGfx::Plain { xsize: _, ysize: _, color } => *color,
        };
        if drum.ypos >= self.height {
            let x: i64 = if drum.xpos >= self.width {
                self.width as i64 - 16
            } else {
                col
            };
            self.draw_arrow(x, row + 40, arrow_down);
        } else if drum.xpos as i64 >= self.width as i64 - 1 {
            self.draw_arrow(self.width as i64 - 16, row + 40, arrow_right);
        }
        self.draw_hatched_rect(drum.xpos, drum.ypos, xsize, ysize, 2, &tint);
    }
}

/// The rasterised labels of one chord.
pub struct ChordLabels {
    pub name: Vec<Glyph>,
    pub place: Vec<Glyph>,
}

/// The rasterised labels of one drum.
pub struct DrumLabels {
    pub place: Vec<Glyph>,
    pub size: Vec<Glyph>,
    pub title: Vec<Glyph>,
}

/// Everything rasterised or loaded that the editor draws with: the labels
/// of every chord and of every drum, the editor's own two labels, and the
/// arrow pointing right and pointing down.
pub struct EditorGlyphs {
    pub chords: Vec<ChordLabels>,
    pub drums: Vec<DrumLabels>,
    pub label: Vec<Glyph>,
    pub editing: Vec<Glyph>,
    pub arrow_right: Bitmap,
    pub arrow_down: Bitmap,
}

/// The word over the editor's label.
pub open spec fn editing_text() -> Seq<char> {
    seq!['E', 'd', 'i', 't', 'i', 'n', 'g']
}

impl EditorGlyphs {
    /// The glyphs spell the labels of this setup and this focus, one set
    /// for each chord and each drum, and the arrows are whole.
    pub open spec fn fits(&self, setup: &Setup, focus: &KeyboardFocus) -> bool {
        &&& self.arrow_right.wf()
        &&& self.arrow_down.wf()
        &&& self.chords@.len() == setup.chords@.len()
        &&& forall|i: int|
            0 <= i < setup.chords@.len() ==> glyph_chars((#[trigger] self.chords@[i]).name@)
                == chord_name_text(setup.chords@[i]) && glyph_chars(self.chords@[i].place@)
                == chord_place_text(setup.chords@[i])
        &&& self.drums@.len() == setup.kit.drums@.len()
        &&& forall|i: int|
            0 <= i < setup.kit.drums@.len() ==> glyph_chars((#[trigger] self.drums@[i]).place@)
                == pair_text('x', setup.kit.drums@[i].xpos, 'y', setup.kit.drums@[i].ypos)
                && glyph_chars(self.drums@[i].size@) == pair_text(
                'w',
                drum_extent(setup.kit.drums@[i]).0,
                'h',
                drum_extent(setup.kit.drums@[i]).1,
            ) && glyph_chars(self.drums@[i].title@) == drum_title_text(setup.kit.drums@[i])
        &&& glyph_chars(self.label@) == focus_text(*focus)
        &&& glyph_chars(self.editing@) == editing_text()
    }
}

/// The buffer after the editor drew the first `n` chords.
pub open spec fn ghost_chords_laid(
    buf: Seq<u32>,
    width: int,
    chords: Seq<Chord>,
    labels: Seq<ChordLabels>,
    arrow: Bitmap,
    n: int,
) -> Seq<u32>
    decreases n,
{
    if n <= 0 {
        buf
    } else {
        ghost_chord_laid(
            ghost_chords_laid(buf, width, chords, labels, arrow, n - 1),
            width,
            chords[n - 1],
            labels[n - 1].name@,
            labels[n - 1].place@,
            arrow,
        )
    }
}

/// The buffer after the editor drew the first `n` drums.
pub open spec fn ghost_drums_laid(
    buf: Seq<u32>,
    width: int,
    height: int,
    drums: Seq<Drum>,
    labels: Seq<DrumLabels>,
    arrow_right: Bitmap,
    arrow_down: Bitmap,
    n: int,
) -> Seq<u32>
    decreases n,
{
    if n <= 0 {
        buf
    } else {
        ghost_drum_laid(
            ghost_drums_laid(buf, width, height, drums, labels, arrow_right, arrow_down, n - 1),
            width,
            height,
            drums[n - 1],
            labels[n - 1].place@,
            labels[n - 1].size@,
            labels[n - 1].title@,
            arrow_right,
            arrow_down,
        )
    }
}

/// The buffer after the editor drew the elements: the one in focus, and
/// with a preview of all, every element of the kind in focus after it.
pub open spec fn ghosts_laid(
    buf: Seq<u32>,
    width: int,
    height: int,
    setup: Setup,
    focus: KeyboardFocus,
    glyphs: EditorGlyphs,
) -> Seq<u32> {
    match focus.inst {
        Inst::Chord => {
            let one = match focus.focused_chord(setup.chords@) {
                Some(i) => ghost_chord_laid(
                    buf,
                    width,
                    setup.chords@[i as int],
                    glyphs.chords@[i as int].name@,
                    glyphs.chords@[i as int].place@,
                    glyphs.arrow_right,
                ),
                None => buf,
            };
            if focus.preview_all {
                ghost_chords_laid(
                    one,
                    width,
                    setup.chords@,
                    glyphs.chords@,
                    glyphs.arrow_right,
                    setup.chords@.len() as int,
                )
            } else {
                one
            }
        },
        Inst::Drum => {
            let one = match focus.focused_drum(setup.kit.drums@) {
                Some(i) => ghost_drum_laid(
                    buf,
                    width,
                    height,
                    setup.kit.drums@[i as int],
                    glyphs.drums@[i as int].place@,
                    glyphs.drums@[i as int].size@,
                    glyphs.drums@[i as int].title@,
                    glyphs.arrow_right,
                    glyphs.arrow_down,
                ),
                None => buf,
            };
            if focus.preview_all {
                ghost_drums_laid(
                    one,
                    width,
                    height,
                    setup.kit.drums@,
                    glyphs.drums@,
                    glyphs.arrow_right,
                    glyphs.arrow_down,
                    setup.kit.drums@.len() as int,
                )
            } else {
                one
            }
        },
    }
}

/// The buffer after the editor drew itself: the elements, then its label,
/// white with an element in focus and red without, and the word over it.
pub open spec fn editor_laid(
    buf: Seq<u32>,
    width: int,
    height: int,
    setup: Setup,
    focus: KeyboardFocus,
    glyphs: EditorGlyphs,
) -> Seq<u32> {
    let column = if focus.label_moves(&setup) {
        width - 70
    } else {
        1
    };
    let tint: u32 = if focus.spec_has_focus(&setup) {
        0xFF_FFFF
    } else {
        0xFF_0000
    };
    let labelled = columns_laid(
        ghosts_laid(buf, width, height, setup, focus, glyphs),
        width,
        glyphs.label@,
        glyphs.label@.len() as int,
        column,
        16,
        16,
        tint,
    );
    columns_laid(labelled, width, glyphs.editing@, glyphs.editing@.len() as int, column, 1, 16, 0xFF_FFFF)
}

impl Win {
    /// Draws the editor over the frame.
    pub fn draw_editor(&mut self, setup: &Setup, focus: &KeyboardFocus, glyphs: &EditorGlyphs)
        requires
            old(self).wf(),
            glyphs.fits(setup, focus),
        ensures
            final(self).wf(),
            final(self).same_frame(old(self)),
            final(self).buffer@ == editor_laid(
                old(self).buffer@,
                old(self).width as int,
                old(self).height as int,
                *setup,
                *focus,
                *glyphs,
            ),
    {
        match focus.inst {
            Inst::Chord => {
                match focus.get_focused_chord(&setup.chords) {
                    Some(i) => {
                        self.draw_ghost_chord(
                            &setup.chords[i],
                            &glyphs.chords[i].name,
                            &glyphs.chords[i].place,
                            &glyphs.arrow_right,
                        );
                    },
                    None => {},
                }
                if focus.preview_all {
                    let ghost one = self.buffer@;
                    let n: usize = setup.chords.len();
                    let mut k: usize = 0;
                    while k < n
                        invariant
                            k <= n,
                            n == setup.chords@.len(),
                            glyphs.fits(setup, focus),
                            self.wf(),
                            self.same_frame(old(self)),
                            self.buffer@ == ghost_chords_laid(
                                one,
                                self.width as int,
                                setup.chords@,
                                glyphs.chords@,
                                glyphs.arrow_right,
                                k as int,
                            ),
                        decreases n - k,
                    {
                        self.draw_ghost_chord(
                            &setup.chords[k],
                            &glyphs.chords[k].name,
                            &glyphs.chords[k].place,
                            &glyphs.arrow_right,
                        );
                        k += 1;
                    }
                }
            },
            Inst::Drum => {
                match focus.get_focused_drum(&setup.kit.drums) {
                    Some(i) => {
                        self.draw_ghost_drum(
                            &setup.kit.drums[i],
                            &glyphs.drums[i].place,
                            &glyphs.drums[i].size,
                            &glyphs.drums[i].title,
                            &glyphs.arrow_right,
                            &glyphs.arrow_down,
                        );
                    },
                    None => {},
                }
                if focus.preview_all {
                    let ghost one = self.buffer@;
                    let n: usize = setup.kit.drums.len();
                    let mut k: usize = 0;
                    while k < n
                        invariant
                            k <= n,
                            n == setup.kit.drums@.len(),
                            glyphs.fits(setup, focus),
                            self.wf(),
                            self.same_frame(old(self)),
                            self.buffer@ == ghost_drums_laid(
                                one,
                                self.width as int,
                                self.height as int,
                                setup.kit.drums@,
                                glyphs.drums@,
                                glyphs.arrow_right,
                                glyphs.arrow_down,
                                k as int,
                            ),
                        decreases n - k,
                    {
                        self.draw_ghost_drum(
                            &setup.kit.drums[k],
                            &glyphs.drums[k].place,
                            &glyphs.drums[k].size,
                            &glyphs.drums[k].title,
                            &glyphs.arrow_right,
                            &glyphs.arrow_down,
                        );
                        k += 1;
                    }
                }
            },
        }
        let column: i64 = focus.label_column(setup, self.width);
        let tint: RGB = if focus.has_focus(setup) {
            RGB::fff()
        } else {
            RGB::new(255, 0, 0)
        };
        self.lay_columns(column, 16, 16, &glyphs.label, &tint);
        self.lay_columns(column, 1, 16, &glyphs.editing, &RGB::fff());
    }
}

} // verus!
