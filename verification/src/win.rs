//! The frame buffer and the rasteriser that composites into it.

use vstd::prelude::*;
use vstd::arithmetic::div_mod::{lemma_fundamental_div_mod, lemma_fundamental_div_mod_converse};
use crate::chord::{Bar, Chord, BAR_HEIGHT, SHADOW_HEIGHT};
use crate::drum::{Drum, DrumGfx, DrumStyle};
use crate::graphics::{lemma_dim_channel_bounds, lemma_dim_monotone, Bitmap, Glyph, RGB};
use crate::text::{is_space, char_is_space, Text, TextDirection};

verus! {

/// The message shown over the frame for a while.
pub enum StatusMessage {
    Absent,
    Shown { text: String, since: usize, color: RGB },
}

/// A frame buffer of `width` by `height` packed colours, row by row from the
/// top left, with the frame counter and the overlay that go with it.
pub struct Win {
    pub width: u32,
    pub height: u32,
    pub buffer: Vec<u32>,
    pub tick: usize,
    pub running: bool,
    pub status_message: StatusMessage,
}

/// A box of pixels: columns `x0` up to but not `x1`, rows `y0` up to but not
/// `y1`.
pub struct Span {
    pub x0: i128,
    pub y0: i128,
    pub x1: i128,
    pub y1: i128,
}

impl Span {
    /// Whether the box holds the pixel in column `x` of row `y`.
    pub open spec fn holds(self, x: int, y: int) -> bool {
        self.x0 <= x < self.x1 && self.y0 <= y < self.y1
    }
}

/// The largest magnitude of a coordinate that a brush works with.
pub const REACH: i128 = 0x10_0000_0000_0000_0000_0000_0000;

/// Whether a coordinate lies within the reach of the brushes.
pub open spec fn near(v: int) -> bool {
    -REACH <= v <= REACH
}

/// Something that lays colour on pixels.
pub trait Brush {
    /// The brush's coordinates are within reach.
    spec fn ready(&self) -> bool;

    /// The colour the brush lays on the pixel in column `x` of row `y`, if it
    /// touches it.
    spec fn ink(&self, x: int, y: int) -> Option<u32>;

    /// A box that holds every pixel the brush touches.
    fn span(&self) -> (s: Span)
        requires
            self.ready(),
        ensures
            forall|x: int, y: int| #[trigger] self.ink(x, y) is Some ==> s.holds(x, y),
    ;

    /// The colour the brush lays on one pixel.
    fn dab(&self, x: u32, y: u32) -> (v: Option<u32>)
        requires
            self.ready(),
        ensures
            v == self.ink(x as int, y as int),
    ;
}

/// Pixel `i` of a buffer of the given width after a brush went over it.
pub open spec fn laid_at<B: Brush>(buf: Seq<u32>, width: int, brush: &B, i: int) -> u32 {
    match brush.ink(i % width, i / width) {
        Some(v) => v,
        None => buf[i],
    }
}

/// A buffer of the given width after a brush went over it: every pixel the
/// brush touches has the brush's colour, every other is as it was.
pub open spec fn laid<B: Brush>(buf: Seq<u32>, width: int, brush: &B) -> Seq<u32> {
    Seq::new(buf.len(), |i: int| laid_at(buf, width, brush, i))
}

/// A brush changes neither the size of a buffer nor any pixel it does not
/// touch.
pub proof fn lemma_laid_elsewhere<B: Brush>(buf: Seq<u32>, width: int, brush: &B)
    ensures
        laid(buf, width, brush).len() == buf.len(),
        forall|i: int|
            0 <= i < buf.len() && brush.ink(i % width, i / width) is None ==> #[trigger] laid(
                buf,
                width,
                brush,
            )[i] == buf[i],
{
}

/// Column `x` of row `y` is one index of a `w` by `h` grid, and the index
/// gives the column and the row back.
pub proof fn lemma_cell(x: int, y: int, w: int, h: int)
    requires
        0 <= x < w,
        0 <= y < h,
    ensures
        0 <= y * w + x < w * h,
        (y * w + x) % w == x,
        (y * w + x) / w == y,
{
    lemma_fundamental_div_mod_converse(y * w + x, w, y, x);
    assert(y * w + x < w * h) by (nonlinear_arith)
        requires
            0 <= x < w,
            0 <= y < h,
    ;
    assert(0 <= y * w) by (nonlinear_arith)
        requires
            0 <= y,
            0 <= w,
    ;
}

/// Every index of a `w` by `h` grid is one column of one row.
pub proof fn lemma_index(i: int, w: int, h: int)
    requires
        0 <= i < w * h,
        0 <= w,
    ensures
        0 < w,
        0 <= i % w < w,
        0 <= i / w < h,
        i == (i / w) * w + i % w,
{
    assert(w != 0) by (nonlinear_arith)
        requires
            0 < w * h,
    ;
    lemma_fundamental_div_mod(i, w);
    assert(i / w < h) by (nonlinear_arith)
        requires
            i == w * (i / w) + i % w,
            0 <= i % w,
            i < w * h,
            0 < w,
    ;
    assert(0 <= i / w) by (nonlinear_arith)
        requires
            i == w * (i / w) + i % w,
            i % w < w,
            0 <= i,
            0 < w,
    ;
    assert(w * (i / w) == (i / w) * w) by (nonlinear_arith);
}

fn clip(v: i128, limit: u32) -> (out: u32)
    ensures
        out <= limit,
        v <= 0 ==> out == 0,
        0 <= v <= limit ==> out == v,
        v >= limit ==> out == limit,
{
    if v <= 0 {
        0
    } else if v >= limit as i128 {
        limit
    } else {
        v as u32
    }
}

/// A filled box of one colour.
pub struct Fill {
    pub x: i128,
    pub y: i128,
    pub w: i128,
    pub h: i128,
    pub value: u32,
}

impl Brush for Fill {
    open spec fn ready(&self) -> bool {
        near(self.x as int) && near(self.y as int) && near(self.w as int) && near(self.h as int)
    }

    open spec fn ink(&self, x: int, y: int) -> Option<u32> {
        if self.x <= x < self.x + self.w && self.y <= y < self.y + self.h {
            Some(self.value)
        } else {
            None
        }
    }

    fn span(&self) -> (s: Span) {
        Span { x0: self.x, y0: self.y, x1: self.x + self.w, y1: self.y + self.h }
    }

    fn dab(&self, x: u32, y: u32) -> (v: Option<u32>) {
        let px: i128 = x as i128;
        let py: i128 = y as i128;
        if self.x <= px && px < self.x + self.w && self.y <= py && py < self.y + self.h {
            Some(self.value)
        } else {
            None
        }
    }
}

/// The border of a box, `t` pixels thick and never outside the box; dotted,
/// it leaves out the even columns of its horizontal edges and the even rows
/// of its vertical ones.
pub struct Outline {
    pub x: i128,
    pub y: i128,
    pub w: i128,
    pub h: i128,
    pub t: i128,
    pub dotted: bool,
    pub value: u32,
}

impl Outline {
    /// Whether the pixel lies in the box.
    pub open spec fn inside(&self, px: int, py: int) -> bool {
        self.x <= px < self.x + self.w && self.y <= py < self.y + self.h
    }

    /// Whether the pixel lies on the border: in the box, and within `t`
    /// pixels of its top or bottom, or of its left or right.
    pub open spec fn on_edge(&self, px: int, py: int) -> bool {
        self.inside(px, py) && {
            ||| (!(self.dotted && px % 2 == 0) && (py < self.y + self.t || self.y + self.h
                - self.t <= py))
            ||| (!(self.dotted && py % 2 == 0) && (px < self.x + self.t || self.x + self.w
                - self.t <= px))
        }
    }

    fn edge(&self, x: u32, y: u32) -> (b: bool)
        requires
            self.ready(),
        ensures
            b == self.on_edge(x as int, y as int),
    {
        let px: i128 = x as i128;
        let py: i128 = y as i128;
        let inside: bool = self.x <= px && px < self.x + self.w && self.y <= py && py < self.y
            + self.h;
        let on_rows: bool = py < self.y + self.t || self.y + self.h - self.t <= py;
        let on_cols: bool = px < self.x + self.t || self.x + self.w - self.t <= px;
        inside && ((!(self.dotted && x % 2 == 0) && on_rows) || (!(self.dotted && y % 2 == 0)
            && on_cols))
    }
}

impl Brush for Outline {
    open spec fn ready(&self) -> bool {
        &&& near(self.x as int) && near(self.y as int)
        &&& 0 <= self.w <= REACH && 0 <= self.h <= REACH && 0 <= self.t <= REACH
    }

    open spec fn ink(&self, x: int, y: int) -> Option<u32> {
        if self.on_edge(x, y) {
            Some(self.value)
        } else {
            None
        }
    }

    fn span(&self) -> (s: Span) {
        Span { x0: self.x, y0: self.y, x1: self.x + self.w, y1: self.y + self.h }
    }

    fn dab(&self, x: u32, y: u32) -> (v: Option<u32>) {
        if self.edge(x, y) {
            Some(self.value)
        } else {
            None
        }
    }
}

/// A framed box filled with a pattern: diagonal stripes six pixels apart, or
/// dots on a grid of four pixels.
pub struct Hatch {
    pub frame: Outline,
    pub diagonal: bool,
}

impl Hatch {
    /// Whether the pattern marks the pixel.
    pub open spec fn marks(&self, px: int, py: int) -> bool {
        if self.diagonal {
            px % 6 == py % 6
        } else {
            px % 4 == 0 && py % 4 == 0
        }
    }
}

impl Brush for Hatch {
    open spec fn ready(&self) -> bool {
        self.frame.ready() && !self.frame.dotted
    }

    open spec fn ink(&self, x: int, y: int) -> Option<u32> {
        if self.frame.on_edge(x, y) || (self.frame.inside(x, y) && self.marks(x, y)) {
            Some(self.frame.value)
        } else {
            None
        }
    }

    fn span(&self) -> (s: Span) {
        Span {
            x0: self.frame.x,
            y0: self.frame.y,
            x1: self.frame.x + self.frame.w,
            y1: self.frame.y + self.frame.h,
        }
    }

    fn dab(&self, x: u32, y: u32) -> (v: Option<u32>) {
        let px: i128 = x as i128;
        let py: i128 = y as i128;
        let inside: bool = self.frame.x <= px && px < self.frame.x + self.frame.w && self.frame.y
            <= py && py < self.frame.y + self.frame.h;
        let marks: bool = if self.diagonal {
            x % 6 == y % 6
        } else {
            x % 4 == 0 && y % 4 == 0
        };
        if self.frame.edge(x, y) || (inside && marks) {
            Some(self.frame.value)
        } else {
            None
        }
    }
}

/// A bitmap with its top left corner at column `x` of row `y`; its black
/// pixels are transparent.
pub struct Blit<'a> {
    pub x: i128,
    pub y: i128,
    pub bitmap: &'a Bitmap,
    pub dim: Option<(i64, u32)>,
}

impl<'a> Brush for Blit<'a> {
    open spec fn ready(&self) -> bool {
        near(self.x as int) && near(self.y as int) && self.bitmap.wf()
    }

    open spec fn ink(&self, x: int, y: int) -> Option<u32> {
        let bx = x - self.x;
        let by = y - self.y;
        if 0 <= bx < self.bitmap.xsize && 0 <= by < self.bitmap.ysize && self.bitmap.spec_color(
            bx,
            by,
            self.dim,
        ) != 0 {
            Some(self.bitmap.spec_color(bx, by, self.dim))
        } else {
            None
        }
    }

    fn span(&self) -> (s: Span) {
        Span {
            x0: self.x,
            y0: self.y,
            x1: self.x + self.bitmap.xsize as i128,
            y1: self.y + self.bitmap.ysize as i128,
        }
    }

    fn dab(&self, x: u32, y: u32) -> (v: Option<u32>) {
        let bx: i128 = x as i128 - self.x;
        let by: i128 = y as i128 - self.y;
        if 0 <= bx && bx < self.bitmap.xsize as i128 && 0 <= by && by < self.bitmap.ysize as i128 {
            proof {
                lemma_cell(bx as int, by as int, self.bitmap.xsize as int, self.bitmap.ysize as int);
            }
            let c: u32 = self.bitmap.color(bx as u32, by as u32, self.dim);
            if c != 0 {
                Some(c)
            } else {
                None
            }
        } else {
            None
        }
    }
}

/// A glyph with its top left corner at column `x` of row `y`: the pixels of
/// full coverage take the colour.
pub struct Stamp<'a> {
    pub x: i128,
    pub y: i128,
    pub glyph: &'a Glyph,
    pub value: u32,
}

impl<'a> Brush for Stamp<'a> {
    open spec fn ready(&self) -> bool {
        near(self.x as int) && near(self.y as int)
    }

    open spec fn ink(&self, x: int, y: int) -> Option<u32> {
        let gx = x - self.x;
        let gy = y - self.y;
        let at = gx + gy * self.glyph.width;
        if 0 <= gx < self.glyph.width && 0 <= gy < self.glyph.height && at
            < self.glyph.coverage@.len() && self.glyph.coverage@[at] == 255 {
            Some(self.value)
        } else {
            None
        }
    }

    fn span(&self) -> (s: Span) {
        Span {
            x0: self.x,
            y0: self.y,
            x1: self.x + self.glyph.width as i128,
            y1: self.y + self.glyph.height as i128,
        }
    }

    fn dab(&self, x: u32, y: u32) -> (v: Option<u32>) {
        let gx: i128 = x as i128 - self.x;
        let gy: i128 = y as i128 - self.y;
        if 0 <= gx && gx < self.glyph.width as i128 && 0 <= gy && gy < self.glyph.height as i128 {
            assert(0 <= gy * self.glyph.width <= 0xFFFF_FFFF * 0xFFFF_FFFF) by (nonlinear_arith)
                requires
                    0 <= gy <= 0xFFFF_FFFF,
                    0 <= self.glyph.width <= 0xFFFF_FFFF,
            ;
            let at: i128 = gx + gy * (self.glyph.width as i128);
            let n: usize = self.glyph.coverage.len();
            if at < n as i128 && self.glyph.coverage[at as usize] == 255 {
                Some(self.value)
            } else {
                None
            }
        } else {
            None
        }
    }
}

/// The filled box with its top left corner at column `x` of row `y`.
pub open spec fn fill_of(x: int, y: int, w: int, h: int, color: RGB) -> Fill {
    Fill { x: x as i128, y: y as i128, w: w as i128, h: h as i128, value: color.spec_irl() }
}

/// The border of the box with its top left corner at column `x` of row `y`.
pub open spec fn outline_of(x: u32, y: u32, w: u32, h: u32, t: u32, dotted: bool, color: RGB) -> Outline {
    Outline {
        x: x as i128,
        y: y as i128,
        w: w as i128,
        h: h as i128,
        t: t as i128,
        dotted,
        value: color.spec_irl(),
    }
}

/// The glyph with its top left corner at column `x` of row `y`.
pub open spec fn stamp_of<'a>(glyph: &'a Glyph, x: int, y: int, value: u32) -> Stamp<'a> {
    Stamp { x: x as i128, y: y as i128, glyph, value }
}

/// How far a glyph moves the pen: white space by eight pixels; any other
/// glyph by its height and two pixels in a vertical layout, by its width in
/// the others, and by one pixel of spacing.
pub open spec fn pen_step(g: Glyph, direction: TextDirection) -> int {
    if is_space(g.ch) {
        8
    } else {
        (match direction {
            TextDirection::Vertical => g.height + 2,
            _ => g.width as int,
        }) + 1
    }
}

/// Where the pen stands after the first `n` glyphs.
pub open spec fn pen_at(glyphs: Seq<Glyph>, n: int, direction: TextDirection) -> int
    decreases n,
{
    if n <= 0 {
        0
    } else {
        pen_at(glyphs, n - 1, direction) + pen_step(glyphs[n - 1], direction)
    }
}

/// The rows between the pen's line and the top of a glyph: none in a
/// vertical layout; else what the glyph lacks to the font size, but for the
/// tilde and the wave dash, which hang at half the size less one.
pub open spec fn glyph_top(g: Glyph, size: u32, direction: TextDirection) -> int {
    match direction {
        TextDirection::Vertical => 0,
        _ => if g.ch == '~' || g.ch == '\u{FF5E}' {
            size / 2 - 1
        } else {
            size - g.height
        },
    }
}

/// The buffer after the first `n` glyphs of a text were drawn from column
/// `x` of row `y`: white space draws nothing.
pub open spec fn text_laid(
    buf: Seq<u32>,
    width: int,
    glyphs: Seq<Glyph>,
    n: int,
    x: int,
    y: int,
    size: u32,
    direction: TextDirection,
    value: u32,
) -> Seq<u32>
    decreases n,
{
    if n <= 0 {
        buf
    } else {
        let before = text_laid(buf, width, glyphs, n - 1, x, y, size, direction, value);
        let g = glyphs[n - 1];
        let pen = pen_at(glyphs, n - 1, direction);
        if is_space(g.ch) {
            before
        } else {
            laid(
                before,
                width,
                &stamp_of(
                    &glyphs[n - 1],
                    x + (if direction is Vertical {
                        0
                    } else {
                        pen
                    }),
                    y + (if direction is Horizontal {
                        0
                    } else {
                        pen
                    }) + glyph_top(g, size, direction),
                    value,
                ),
            )
        }
    }
}

/// The buffer after the first `n` glyphs of a text were drawn in columns of
/// eight pixels from column `x` of row `y`, each glyph set right in its
/// column.
pub open spec fn columns_laid(
    buf: Seq<u32>,
    width: int,
    glyphs: Seq<Glyph>,
    n: int,
    x: int,
    y: int,
    size: u32,
    value: u32,
) -> Seq<u32>
    decreases n,
{
    if n <= 0 {
        buf
    } else {
        let before = columns_laid(buf, width, glyphs, n - 1, x, y, size, value);
        let g = glyphs[n - 1];
        if is_space(g.ch) {
            before
        } else {
            laid(
                before,
                width,
                &stamp_of(
                    &glyphs[n - 1],
                    x + 8 * (n - 1) + size - g.width - (if g.ch == 'i' {
                        5int
                    } else {
                        3int
                    }),
                    y + size - g.height,
                    value,
                ),
            )
        }
    }
}

/// The width of the first `n` glyphs of a text laid out horizontally.
pub open spec fn text_width(glyphs: Seq<Glyph>, n: int) -> int {
    pen_at(glyphs, n, TextDirection::Horizontal)
}

/// The buffer after one bar and the shadow under it were drawn.
pub open spec fn bar_laid(buf: Seq<u32>, width: int, bar: Bar) -> Seq<u32> {
    laid(
        laid(buf, width, &fill_of(bar.x as int, bar.y as int, bar.width as int, BAR_HEIGHT as int, bar.color)),
        width,
        &fill_of(
            bar.x as int,
            bar.y + BAR_HEIGHT,
            bar.width as int,
            SHADOW_HEIGHT as int,
            bar.shadow,
        ),
    )
}

/// The buffer after bars were drawn one after the other.
pub open spec fn bars_laid(buf: Seq<u32>, width: int, bars: Seq<Bar>) -> Seq<u32>
    decreases bars.len(),
{
    if bars.len() == 0 {
        buf
    } else {
        bar_laid(bars_laid(buf, width, bars.drop_last()), width, bars.last())
    }
}

/// The factor by which a decaying drum is dimmed: what is left of its decay
/// time over the decay time. A plain drum is not dimmed.
pub open spec fn drum_dim(drum: Drum) -> Option<(i64, u32)> {
    if drum.style is Decay {
        Some(((drum.decay_time - drum.state.age) as i64, drum.decay_time))
    } else {
        None
    }
}

/// The buffer after a drum was drawn.
pub open spec fn drum_laid(buf: Seq<u32>, width: int, drum: Drum) -> Seq<u32> {
    match drum.gfx {
        DrumGfx::Plain { xsize, ysize, color } => laid(
            buf,
            width,
            &fill_of(
                drum.xpos as int,
                drum.ypos as int,
                xsize as int,
                ysize as int,
                match drum_dim(drum) {
                    Some(f) => color.spec_dimmed(f.0 as int, f.1 as int),
                    None => color,
                },
            ),
        ),
        DrumGfx::Bitmap { bitmap } => laid(
            buf,
            width,
            &(Blit { x: drum.xpos as i128, y: drum.ypos as i128, bitmap: &bitmap, dim: drum_dim(drum) }),
        ),
    }
}

/// The number of frames a status message is shown.
pub const STATUS_FRAMES: usize = 300;

/// Whether a message set at tick `since` is still shown at tick `tick`.
pub open spec fn status_live(since: usize, tick: usize) -> bool {
    tick - since < STATUS_FRAMES as int
}

/// The brightness of a message set at tick `since` at tick `tick`, in
/// hundredths: three hundred when fresh, one less with every frame.
pub open spec fn status_level(since: usize, tick: usize) -> int {
    if tick <= since {
        STATUS_FRAMES as int
    } else {
        STATUS_FRAMES - (tick - since)
    }
}

/// The colour of the message's box at a level.
pub open spec fn status_color(color: RGB, level: int) -> RGB {
    color.spec_dimmed(level, 100)
}

/// The colour of the shadow of the message's box at a level: the level held
/// to one, less four fifths.
pub open spec fn status_shadow(color: RGB, level: int) -> RGB {
    color.spec_dimmed((if level < 100 { level } else { 100 }) - 80, 100)
}

/// The buffer of a frame `height` rows high after a message was drawn at the
/// bottom left: the shadow, the box over it, and the black text on top.
pub open spec fn status_laid(
    buf: Seq<u32>,
    width: int,
    height: int,
    glyphs: Seq<Glyph>,
    color: RGB,
    level: int,
) -> Seq<u32> {
    let y = height - 22;
    let w = text_width(glyphs, glyphs.len() as int) + 8;
    let shadow = laid(buf, width, &fill_of(4, y + 2, w, 16, status_shadow(color, level)));
    let boxed = laid(shadow, width, &fill_of(2, y, w, 16, status_color(color, level)));
    text_laid(
        boxed,
        width,
        glyphs,
        glyphs.len() as int,
        3,
        y - 2,
        16,
        TextDirection::Horizontal,
        0,
    )
}

/// A message set at tick `since` is shown at every tick up to `since + 299`
/// and at none from `since + 300` on.
pub proof fn lemma_status_window(since: usize, tick: usize)
    requires
        since <= tick,
    ensures
        status_live(since, tick) <==> tick < since + 300,
        status_live(since, tick) ==> 0 < status_level(since, tick) <= 300,
{
}

/// While a message is shown its level falls with every tick, and no channel
/// of its box or of its shadow grows brighter.
pub proof fn lemma_status_fades(since: usize, earlier: usize, later: usize, color: RGB)
    requires
        since <= earlier < later,
        status_live(since, later),
    ensures
        status_live(since, earlier),
        status_level(since, later) < status_level(since, earlier),
        status_color(color, status_level(since, later)).r <= status_color(
            color,
            status_level(since, earlier),
        ).r,
        status_color(color, status_level(since, later)).g <= status_color(
            color,
            status_level(since, earlier),
        ).g,
        status_color(color, status_level(since, later)).b <= status_color(
            color,
            status_level(since, earlier),
        ).b,
        status_shadow(color, status_level(since, later)).r <= status_shadow(
            color,
            status_level(since, earlier),
        ).r,
        status_shadow(color, status_level(since, later)).g <= status_shadow(
            color,
            status_level(since, earlier),
        ).g,
        status_shadow(color, status_level(since, later)).b <= status_shadow(
            color,
            status_level(since, earlier),
        ).b,
{
    let hi = status_level(since, earlier);
    let lo = status_level(since, later);
    let shi = (if hi < 100 { hi } else { 100 }) - 80;
    let slo = (if lo < 100 { lo } else { 100 }) - 80;
    lemma_dim_monotone(color.r as int, lo, hi, 100);
    lemma_dim_monotone(color.g as int, lo, hi, 100);
    lemma_dim_monotone(color.b as int, lo, hi, 100);
    lemma_dim_monotone(color.r as int, slo, shi, 100);
    lemma_dim_monotone(color.g as int, slo, shi, 100);
    lemma_dim_monotone(color.b as int, slo, shi, 100);
    lemma_dim_channel_bounds(color.r as int, lo, 100);
    lemma_dim_channel_bounds(color.g as int, lo, 100);
    lemma_dim_channel_bounds(color.b as int, lo, 100);
    lemma_dim_channel_bounds(color.r as int, hi, 100);
    lemma_dim_channel_bounds(color.g as int, hi, 100);
    lemma_dim_channel_bounds(color.b as int, hi, 100);
    lemma_dim_channel_bounds(color.r as int, slo, 100);
    lemma_dim_channel_bounds(color.g as int, slo, 100);
    lemma_dim_channel_bounds(color.b as int, slo, 100);
    lemma_dim_channel_bounds(color.r as int, shi, 100);
    lemma_dim_channel_bounds(color.g as int, shi, 100);
    lemma_dim_channel_bounds(color.b as int, shi, 100);
}

/// The characters that a list of glyphs stands for.
pub open spec fn glyph_chars(glyphs: Seq<Glyph>) -> Seq<char> {
    Seq::new(glyphs.len(), |i: int| glyphs[i].ch)
}

impl Win {
    /// The buffer holds one colour for every pixel.
    pub open spec fn wf(&self) -> bool {
        self.buffer@.len() == self.width as int * self.height as int
    }

    /// The same size, frame counter, running flag and overlay.
    pub open spec fn same_frame(&self, other: &Win) -> bool {
        &&& self.width == other.width
        &&& self.height == other.height
        &&& self.tick == other.tick
        &&& self.running == other.running
        &&& self.status_message == other.status_message
    }

    /// A black frame of the given size at tick zero, running, with no message.
    pub fn init(width: u32, height: u32) -> (out: Self)
        requires
            width as int * height as int <= usize::MAX,
        ensures
            out.wf(),
            out.width == width,
            out.height == height,
            out.tick == 0,
            out.running,
            out.status_message is Absent,
            out.buffer@ == Seq::new((width as int * height as int) as nat, |i: int| 0u32),
    {
        let n: usize = width as usize * height as usize;
        let buffer: Vec<u32> = vec![0u32; n];
        assert(buffer@ =~= Seq::new((width as int * height as int) as nat, |i: int| 0u32));
        Win { width, height, buffer, tick: 0, running: true, status_message: StatusMessage::Absent }
    }

    /// Ends a frame: the frame counter goes up by one, and stays where it is
    /// once it has reached the largest `usize`.
    pub fn update(&mut self)
        ensures
            final(self).tick == (if old(self).tick < usize::MAX {
                (old(self).tick + 1) as usize
            } else {
                old(self).tick
            }),
            final(self).buffer == old(self).buffer,
            final(self).width == old(self).width,
            final(self).height == old(self).height,
            final(self).running == old(self).running,
            final(self).status_message == old(self).status_message,
    {
        if self.tick < usize::MAX {
            self.tick += 1;
        }
    }

    /// Resets every pixel to black.
    pub fn clear(&mut self)
        requires
            old(self).width as int * old(self).height as int <= usize::MAX,
        ensures
            final(self).wf(),
            final(self).same_frame(old(self)),
            final(self).buffer@ == Seq::new(
                (old(self).width as int * old(self).height as int) as nat,
                |i: int| 0u32,
            ),
    {
        let n: usize = self.width as usize * self.height as usize;
        self.buffer = vec![0u32; n];
        assert(self.buffer@ =~= Seq::new(
            (self.width as int * self.height as int) as nat,
            |i: int| 0u32,
        ));
    }

    /// The colour of the pixel in column `x` of row `y`.
    pub open spec fn spec_pixel(&self, x: int, y: int) -> u32 {
        self.buffer@[y * self.width + x]
    }

    /// The colour of the pixel in column `x` of row `y`.
    pub fn pixel(&self, x: u32, y: u32) -> (v: u32)
        requires
            self.wf(),
            x < self.width,
            y < self.height,
        ensures
            v == self.spec_pixel(x as int, y as int),
    {
        let n: usize = self.buffer.len();
        proof {
            lemma_cell(x as int, y as int, self.width as int, self.height as int);
            assert(0 <= y as int * self.width as int) by (nonlinear_arith);
        }
        self.buffer[y as usize * self.width as usize + x as usize]
    }

    /// Goes over the frame with a brush: every pixel of the frame that the
    /// brush touches takes the brush's colour.
    pub fn paint<B: Brush>(&mut self, brush: &B)
        requires
            old(self).wf(),
            brush.ready(),
        ensures
            final(self).wf(),
            final(self).same_frame(old(self)),
            final(self).buffer@ == laid(old(self).buffer@, old(self).width as int, brush),
    {
        let s = brush.span();
        let x0: u32 = clip(s.x0, self.width);
        let x1: u32 = clip(s.x1, self.width);
        let y0: u32 = clip(s.y0, self.height);
        let y1: u32 = clip(s.y1, self.height);
        let w: usize = self.width as usize;
        let n: usize = self.buffer.len();
        let ghost start = self.buffer@;
        let ghost wi = self.width as int;
        let ghost hi = self.height as int;
        let mut y: u32 = y0;
        proof {
            assert forall|i: int| 0 <= i < start.len() && i / wi < y0 implies laid_at(
                start,
                wi,
                brush,
                i,
            ) == start[i] by {
                lemma_index(i, wi, hi);
                assert(!s.holds(i % wi, i / wi));
            }
        }
        while y < y1
            invariant
                y0 <= y,
                n == start.len(),
                y1 <= self.height,
                x0 <= self.width,
                x1 <= self.width,
                w == self.width,
                wi == self.width,
                hi == self.height,
                brush.ready(),
                self.wf(),
                self.same_frame(old(self)),
                start == old(self).buffer@,
                self.buffer@.len() == start.len(),
                forall|x: int, y: int| #[trigger] brush.ink(x, y) is Some ==> s.holds(x, y),
                x0 == clip_of(s.x0 as int, wi),
                x1 == clip_of(s.x1 as int, wi),
                y0 == clip_of(s.y0 as int, hi),
                forall|i: int|
                    0 <= i < start.len() ==> #[trigger] self.buffer@[i] == (if i / wi < y {
                        laid_at(start, wi, brush, i)
                    } else {
                        start[i]
                    }),
            decreases y1 - y,
        {
            let mut x: u32 = x0;
            while x < x1
                invariant
                    x0 <= x,
                    y < y1,
                    n == start.len(),
                    y1 <= self.height,
                    x1 <= self.width,
                    w == self.width,
                    wi == self.width,
                    hi == self.height,
                    brush.ready(),
                    self.wf(),
                    self.same_frame(old(self)),
                    start == old(self).buffer@,
                    self.buffer@.len() == start.len(),
                    forall|x: int, y: int| #[trigger] brush.ink(x, y) is Some ==> s.holds(x, y),
                    x0 == clip_of(s.x0 as int, wi),
                    forall|i: int|
                        0 <= i < start.len() ==> #[trigger] self.buffer@[i] == (if i / wi < y || (i
                            / wi == y && i % wi < x) {
                            laid_at(start, wi, brush, i)
                        } else {
                            start[i]
                        }),
                decreases x1 - x,
            {
                proof {
                    lemma_cell(x as int, y as int, wi, hi);
                    assert(0 <= y as int * wi) by (nonlinear_arith)
                        requires
                            0 <= y,
                            0 <= wi,
                    ;
                }
                let at: usize = y as usize * w + x as usize;
                let ghost before = self.buffer@;
                match brush.dab(x, y) {
                    Some(v) => {
                        self.buffer[at] = v;
                    },
                    None => {},
                }
                proof {
                    assert forall|i: int| 0 <= i < start.len() implies #[trigger] self.buffer@[i] == (if i
                        / wi < y || (i / wi == y && i % wi < x + 1) {
                        laid_at(start, wi, brush, i)
                    } else {
                        start[i]
                    }) by {
                        lemma_index(i, wi, hi);
                        if i != at {
                            assert(self.buffer@[i] == before[i]);
                        }
                    }
                }
                x += 1;
            }
            proof {
                assert forall|i: int| 0 <= i < start.len() implies #[trigger] self.buffer@[i] == (if i
                    / wi < y + 1 {
                    laid_at(start, wi, brush, i)
                } else {
                    start[i]
                }) by {
                    lemma_index(i, wi, hi);
                    if i / wi == y && i % wi >= x {
                        assert(!s.holds(i % wi, i / wi));
                    }
                    if i / wi == y && i % wi < x0 {
                        assert(!s.holds(i % wi, i / wi));
                    }
                }
            }
            y += 1;
        }
        proof {
            assert forall|i: int| 0 <= i < start.len() implies #[trigger] self.buffer@[i] == laid_at(
                start,
                wi,
                brush,
                i,
            ) by {
                lemma_index(i, wi, hi);
                if i / wi >= y {
                    assert(!s.holds(i % wi, i / wi));
                }
            }
            assert(self.buffer@ =~= laid(start, wi, brush));
        }
    }

    /// Fills the box of `xsize` by `ysize` pixels whose top left corner is
    /// column `x` of row `y`; what falls outside the frame is left out.
    pub fn draw_rect(&mut self, x: u32, y: u32, xsize: u32, ysize: u32, color: &RGB)
        requires
            old(self).wf(),
        ensures
            final(self).wf(),
            final(self).same_frame(old(self)),
            final(self).buffer@ == laid(
                old(self).buffer@,
                old(self).width as int,
                &(Fill {
                    x: x as i128,
                    y: y as i128,
                    w: xsize as i128,
                    h: ysize as i128,
                    value: color.spec_irl(),
                }),
            ),
    {
        let brush = Fill {
            x: x as i128,
            y: y as i128,
            w: xsize as i128,
            h: ysize as i128,
            value: color.irl(),
        };
        self.paint(&brush);
    }
}

impl Win {
    /// Sets one pixel; a pixel outside the frame is left out.
    pub fn set_pixel(&mut self, x: u32, y: u32, color: &RGB)
        requires
            old(self).wf(),
        ensures
            final(self).wf(),
            final(self).same_frame(old(self)),
            final(self).buffer@ == (if x < old(self).width && y < old(self).height {
                old(self).buffer@.update(y * old(self).width + x, color.spec_irl())
            } else {
                old(self).buffer@
            }),
    {
        if x >= self.width || y >= self.height {
            return ;
        }
        let n: usize = self.buffer.len();
        proof {
            lemma_cell(x as int, y as int, self.width as int, self.height as int);
            assert(0 <= y as int * self.width as int) by (nonlinear_arith);
        }
        let at: usize = (y as usize) * (self.width as usize) + (x as usize);
        self.buffer[at] = color.irl();
    }

    /// Draws the border of a box, `thickness` pixels thick, solid or dotted.
    pub fn draw_outline_rect(
        &mut self,
        xpos: u32,
        ypos: u32,
        xsize: u32,
        ysize: u32,
        thickness: u32,
        dotted: bool,
        color: &RGB,
    )
        requires
            old(self).wf(),
        ensures
            final(self).wf(),
            final(self).same_frame(old(self)),
            final(self).buffer@ == laid(
                old(self).buffer@,
                old(self).width as int,
                &outline_of(xpos, ypos, xsize, ysize, thickness, dotted, *color),
            ),
    {
        let brush = Outline {
            x: xpos as i128,
            y: ypos as i128,
            w: xsize as i128,
            h: ysize as i128,
            t: thickness as i128,
            dotted,
            value: color.irl(),
        };
        self.paint(&brush);
    }

    /// Draws a framed box hatched with dots on a grid of four pixels.
    pub fn draw_hatched_rect2(
        &mut self,
        xpos: u32,
        ypos: u32,
        xsize: u32,
        ysize: u32,
        thickness: u32,
        color: &RGB,
    )
        requires
            old(self).wf(),
        ensures
            final(self).wf(),
            final(self).same_frame(old(self)),
            final(self).buffer@ == laid(
                old(self).buffer@,
                old(self).width as int,
                &(Hatch {
                    frame: outline_of(xpos, ypos, xsize, ysize, thickness, false, *color),
                    diagonal: false,
                }),
            ),
    {
        let frame = Outline {
            x: xpos as i128,
            y: ypos as i128,
            w: xsize as i128,
            h: ysize as i128,
            t: thickness as i128,
            dotted: false,
            value: color.irl(),
        };
        let brush = Hatch { frame, diagonal: false };
        self.paint(&brush);
    }

    /// Draws a framed box hatched with diagonal stripes six pixels apart.
    pub fn draw_hatched_rect(
        &mut self,
        xpos: u32,
        ypos: u32,
        xsize: u32,
        ysize: u32,
        thickness: u32,
        color: &RGB,
    )
        requires
            old(self).wf(),
        ensures
            final(self).wf(),
            final(self).same_frame(old(self)),
            final(self).buffer@ == laid(
                old(self).buffer@,
                old(self).width as int,
                &(Hatch {
                    frame: outline_of(xpos, ypos, xsize, ysize, thickness, false, *color),
                    diagonal: true,
                }),
            ),
    {
        let frame = Outline {
            x: xpos as i128,
            y: ypos as i128,
            w: xsize as i128,
            h: ysize as i128,
            t: thickness as i128,
            dotted: false,
            value: color.irl(),
        };
        let brush = Hatch { frame, diagonal: true };
        self.paint(&brush);
    }

    /// Draws a bitmap with its top left corner at column `xpos` of row
    /// `ypos`, dimmed by `dimmed.0 / dimmed.1` where a factor is given; black
    /// pixels are transparent.
    pub fn draw_bitmap(&mut self, xpos: u32, ypos: u32, dimmed: Option<(i64, u32)>, bitmap: &Bitmap)
        requires
            old(self).wf(),
            bitmap.wf(),
        ensures
            final(self).wf(),
            final(self).same_frame(old(self)),
            final(self).buffer@ == laid(
                old(self).buffer@,
                old(self).width as int,
                &(Blit { x: xpos as i128, y: ypos as i128, bitmap, dim: dimmed }),
            ),
    {
        let brush = Blit { x: xpos as i128, y: ypos as i128, bitmap, dim: dimmed };
        self.paint(&brush);
    }

    /// Draws the glyphs of a text from column `x` of row `y`, which may lie
    /// outside the frame.
    pub fn lay_text(
        &mut self,
        x: i64,
        y: i64,
        size: u32,
        glyphs: &Vec<Glyph>,
        direction: TextDirection,
        color: &RGB,
    )
        requires
            old(self).wf(),
        ensures
            final(self).wf(),
            final(self).same_frame(old(self)),
            final(self).buffer@ == text_laid(
                old(self).buffer@,
                old(self).width as int,
                glyphs@,
                glyphs@.len() as int,
                x as int,
                y as int,
                size,
                direction,
                color.spec_irl(),
            ),
    {
        let value: u32 = color.irl();
        let n: usize = glyphs.len();
        let ghost start = self.buffer@;
        let mut pen: i128 = 0;
        let mut i: usize = 0;
        while i < n
            invariant
                i <= n,
                n == glyphs@.len(),
                value == color.spec_irl(),
                self.wf(),
                self.same_frame(old(self)),
                start == old(self).buffer@,
                pen == pen_at(glyphs@, i as int, direction),
                0 <= pen <= i * 0x2_0000_0000,
                self.buffer@ == text_laid(
                    start,
                    self.width as int,
                    glyphs@,
                    i as int,
                    x as int,
                    y as int,
                    size,
                    direction,
                    value,
                ),
            decreases n - i,
        {
            let g: &Glyph = &glyphs[i];
            if char_is_space(g.ch) {
                pen = pen + 8;
            } else {
                let gx: i128 = match direction {
                    TextDirection::Vertical => x as i128,
                    _ => x as i128 + pen,
                };
                let gy: i128 = match direction {
                    TextDirection::Horizontal => y as i128,
                    _ => y as i128 + pen,
                };
                let top: i128 = match direction {
                    TextDirection::Vertical => 0,
                    _ => if g.ch == '~' || g.ch == '\u{FF5E}' {
                        (size / 2) as i128 - 1
                    } else {
                        size as i128 - g.height as i128
                    },
                };
                let brush = Stamp { x: gx, y: gy + top, glyph: g, value };
                self.paint(&brush);
                let step: i128 = match direction {
                    TextDirection::Vertical => g.height as i128 + 2,
                    _ => g.width as i128,
                };
                pen = pen + step + 1;
            }
            i += 1;
        }
    }

    /// Draws the glyphs of a text from column `xpos` of row `ypos`: left to
    /// right, top to bottom, or down the diagonal.
    pub fn draw_plaintext(
        &mut self,
        xpos: u32,
        ypos: u32,
        size: u32,
        glyphs: &Vec<Glyph>,
        direction: TextDirection,
        color: &RGB,
    )
        requires
            old(self).wf(),
        ensures
            final(self).wf(),
            final(self).same_frame(old(self)),
            final(self).buffer@ == text_laid(
                old(self).buffer@,
                old(self).width as int,
                glyphs@,
                glyphs@.len() as int,
                xpos as int,
                ypos as int,
                size,
                direction,
                color.spec_irl(),
            ),
    {
        self.lay_text(xpos as i64, ypos as i64, size, glyphs, direction, color);
    }

    /// Draws the glyphs of a text in columns of eight pixels, whatever the
    /// glyphs measure, from column `xpos` of row `ypos`, which may lie outside
    /// the frame.
    pub fn lay_columns(&mut self, xpos: i64, ypos: i64, size: u32, glyphs: &Vec<Glyph>, color: &RGB)
        requires
            old(self).wf(),
        ensures
            final(self).wf(),
            final(self).same_frame(old(self)),
            final(self).buffer@ == columns_laid(
                old(self).buffer@,
                old(self).width as int,
                glyphs@,
                glyphs@.len() as int,
                xpos as int,
                ypos as int,
                size,
                color.spec_irl(),
            ),
    {
        let value: u32 = color.irl();
        let n: usize = glyphs.len();
        let ghost start = self.buffer@;
        let mut i: usize = 0;
        while i < n
            invariant
                i <= n,
                n == glyphs@.len(),
                value == color.spec_irl(),
                self.wf(),
                self.same_frame(old(self)),
                start == old(self).buffer@,
                self.buffer@ == columns_laid(
                    start,
                    self.width as int,
                    glyphs@,
                    i as int,
                    xpos as int,
                    ypos as int,
                    size,
                    value,
                ),
            decreases n - i,
        {
            let g: &Glyph = &glyphs[i];
            if !char_is_space(g.ch) {
                let left: i128 = size as i128 - g.width as i128 - (if g.ch == 'i' {
                    5i128
                } else {
                    3i128
                });
                let brush = Stamp {
                    x: xpos as i128 + 8 * (i as i128) + left,
                    y: ypos as i128 + size as i128 - g.height as i128,
                    glyph: g,
                    value,
                };
                self.paint(&brush);
            }
            i += 1;
        }
    }

    /// Draws the glyphs of a text in columns of eight pixels, whatever the
    /// glyphs measure.
    pub fn draw_plaintext_fw(&mut self, xpos: u32, ypos: u32, size: u32, glyphs: &Vec<Glyph>, color: &RGB)
        requires
            old(self).wf(),
        ensures
            final(self).wf(),
            final(self).same_frame(old(self)),
            final(self).buffer@ == columns_laid(
                old(self).buffer@,
                old(self).width as int,
                glyphs@,
                glyphs@.len() as int,
                xpos as int,
                ypos as int,
                size,
                color.spec_irl(),
            ),
    {
        self.lay_columns(xpos as i64, ypos as i64, size, glyphs, color);
    }

    /// Draws what a text shows. `glyphs` are the rasterised characters of
    /// `text.displayed()`.
    pub fn draw_text(&mut self, text: &Text, glyphs: &Vec<Glyph>)
        requires
            old(self).wf(),
            text.wf(),
            glyph_chars(glyphs@) == text.spec_displayed(),
        ensures
            final(self).wf(),
            final(self).same_frame(old(self)),
            final(self).buffer@ == (if text.visibility {
                text_laid(
                    old(self).buffer@,
                    old(self).width as int,
                    glyphs@,
                    glyphs@.len() as int,
                    text.xpos as int,
                    text.ypos as int,
                    16,
                    text.direction,
                    text.color.spec_irl(),
                )
            } else {
                old(self).buffer@
            }),
    {
        if !text.visibility {
            return ;
        }
        self.draw_plaintext(text.xpos, text.ypos, 16, glyphs, text.direction, &text.color);
    }

    /// Runs one frame over a chord and draws the bars it gives, each with
    /// its shadow beneath.
    pub fn draw_chord(&mut self, chord: &mut Chord, global_transpose: i32)
        requires
            old(self).wf(),
        ensures
            final(self).wf(),
            final(self).same_frame(old(self)),
            final(chord).same_setting(old(chord)),
            final(chord).modulation == old(chord).modulation,
            final(chord).notes@ == old(chord).notes_after_frame(
                old(chord).notes@,
                global_transpose,
                old(self).width,
                old(self).height,
                old(self).tick,
            ),
            final(self).buffer@ == bars_laid(
                old(self).buffer@,
                old(self).width as int,
                old(chord).bars_of_frame(
                    old(chord).notes@,
                    global_transpose,
                    old(self).width,
                    old(self).height,
                    old(self).tick,
                ),
            ),
    {
        let bars: Vec<Bar> = chord.step(global_transpose, self.width, self.height, self.tick);
        let n: usize = bars.len();
        let ghost start = self.buffer@;
        let mut i: usize = 0;
        while i < n
            invariant
                i <= n,
                n == bars@.len(),
                self.wf(),
                self.same_frame(old(self)),
                start == old(self).buffer@,
                forall|k: int|
                    0 <= k < bars@.len() ==> -0x1_0000_0000 <= (#[trigger] bars@[k]).x
                        <= 0x1_0000_0000 && -0x2_0000_0000 <= bars@[k].y <= 0x2_0000_0000 && 0
                        <= bars@[k].width <= 0x2_0000_0000,
                self.buffer@ == bars_laid(start, self.width as int, bars@.take(i as int)),
            decreases n - i,
        {
            let bar: Bar = bars[i];
            proof {
                let next = bars@.take(i + 1);
                assert(next.drop_last() =~= bars@.take(i as int));
                assert(next.last() == bar);
            }
            let top = Fill {
                x: bar.x as i128,
                y: bar.y as i128,
                w: bar.width as i128,
                h: BAR_HEIGHT as i128,
                value: bar.color.irl(),
            };
            self.paint(&top);
            let under = Fill {
                x: bar.x as i128,
                y: bar.y as i128 + BAR_HEIGHT as i128,
                w: bar.width as i128,
                h: SHADOW_HEIGHT as i128,
                value: bar.shadow.irl(),
            };
            self.paint(&under);
            i += 1;
        }
        assert(bars@.take(n as int) =~= bars@);
    }

    /// Runs one frame over a drum and draws it while it is active: a drum
    /// that was not triggered is left alone, a triggered one is ticked and,
    /// unless the tick reset it, drawn, dimmed by what is left of its decay
    /// time where its style is decay.
    pub fn draw_drum(&mut self, drum: &mut Drum)
        requires
            old(self).wf(),
            old(drum).gfx matches DrumGfx::Bitmap { bitmap } ==> bitmap.wf(),
        ensures
            final(self).wf(),
            final(self).same_frame(old(self)),
            crate::drum::same_drum_setting(*final(drum), *old(drum)),
            final(drum).state == (if old(drum).state.triggered {
                old(drum).state.ticked(old(drum).decay_time)
            } else {
                old(drum).state
            }),
            final(self).buffer@ == (if old(drum).state.triggered && old(drum).state.stays_active(
                old(drum).decay_time,
            ) {
                drum_laid(old(self).buffer@, old(self).width as int, *final(drum))
            } else {
                old(self).buffer@
            }),
    {
        if !drum.state.triggered {
            return ;
        }
        if !drum.state.tick_or_reset(drum.decay_time) {
            return ;
        }
        let dim: Option<(i64, u32)> = match drum.style {
            DrumStyle::Decay => Some((drum.decay_time as i64 - drum.state.age as i64, drum.decay_time)),
            DrumStyle::Plain => None,
        };
        match &drum.gfx {
            DrumGfx::Plain { xsize, ysize, color } => {
                let shade: RGB = match dim {
                    Some(f) => color.dimmed(f.0, f.1),
                    None => *color,
                };
                self.draw_rect(drum.xpos, drum.ypos, *xsize, *ysize, &shade);
            },
            DrumGfx::Bitmap { bitmap } => {
                self.draw_bitmap(drum.xpos, drum.ypos, dim, bitmap);
            },
        }
    }

    /// Replaces the status message by a new one, stamped with the current
    /// tick.
    pub fn set_status_message(&mut self, message: &str, color: RGB)
        ensures
            final(self).status_message matches StatusMessage::Shown { text, since, color: c }
                && text@ == message@ && since == old(self).tick && c == color,
            final(self).buffer == old(self).buffer,
            final(self).width == old(self).width,
            final(self).height == old(self).height,
            final(self).tick == old(self).tick,
            final(self).running == old(self).running,
    {
        self.status_message = StatusMessage::Shown {
            text: String::from_str(message),
            since: self.tick,
            color,
        };
    }

    /// Draws the status message, or drops it once it has been shown for
    /// three hundred frames. `glyphs` are the rasterised characters of the
    /// message's text.
    pub fn draw_status_message(&mut self, glyphs: &Vec<Glyph>)
        requires
            old(self).wf(),
            old(self).status_message matches StatusMessage::Shown { text, since, color }
                ==> glyph_chars(glyphs@) == text@,
        ensures
            final(self).wf(),
            final(self).width == old(self).width,
            final(self).height == old(self).height,
            final(self).tick == old(self).tick,
            final(self).running == old(self).running,
            match old(self).status_message {
                StatusMessage::Absent => final(self).status_message is Absent && final(self).buffer@
                    == old(self).buffer@,
                StatusMessage::Shown { text, since, color } => if status_live(since, old(self).tick) {
                    &&& final(self).status_message == old(self).status_message
                    &&& final(self).buffer@ == status_laid(
                        old(self).buffer@,
                        old(self).width as int,
                        old(self).height as int,
                        glyphs@,
                        color,
                        status_level(since, old(self).tick),
                    )
                } else {
                    final(self).status_message is Absent && final(self).buffer@ == old(self).buffer@
                },
            },
    {
        let (since, color): (usize, RGB) = match &self.status_message {
            StatusMessage::Absent => {
                return ;
            },
            StatusMessage::Shown { text: _, since, color } => (*since, *color),
        };
        if self.tick >= since && self.tick - since >= STATUS_FRAMES {
            self.status_message = StatusMessage::Absent;
            return ;
        }
        let level: i64 = if self.tick <= since {
            300
        } else {
            300 - (self.tick - since) as i64
        };
        let held: i64 = if level < 100 {
            level
        } else {
            100
        };
        let main_color: RGB = color.dimmed(level, 100);
        let shadow_color: RGB = color.dimmed(held - 80, 100);
        let y: i128 = self.height as i128 - 22;
        let n: usize = glyphs.len();
        let w: i128 = calc_text_width(glyphs) + 8;
        let shadow = Fill { x: 4, y: y + 2, w, h: 16, value: shadow_color.irl() };
        self.paint(&shadow);
        let boxed = Fill { x: 2, y, w, h: 16, value: main_color.irl() };
        self.paint(&boxed);
        self.lay_text(3, (y - 2) as i64, 16, glyphs, TextDirection::Horizontal, &RGB::new(0, 0, 0));
    }
}

/// The width of a text laid out horizontally: eight pixels for white space,
/// the glyph's width and one pixel of spacing for anything else.
pub fn calc_text_width(glyphs: &Vec<Glyph>) -> (w: i128)
    ensures
        w == text_width(glyphs@, glyphs@.len() as int),
        0 <= w <= glyphs@.len() * 0x2_0000_0000,
{
    let n: usize = glyphs.len();
    let mut w: i128 = 0;
    let mut i: usize = 0;
    while i < n
        invariant
            i <= n,
            n == glyphs@.len(),
            w == pen_at(glyphs@, i as int, TextDirection::Horizontal),
            0 <= w <= i * 0x2_0000_0000,
        decreases n - i,
    {
        if char_is_space(glyphs[i].ch) {
            w = w + 8;
        } else {
            w = w + glyphs[i].width as i128 + 1;
        }
        i += 1;
    }
    w
}

/// A coordinate held to the range from zero to `limit`.
pub open spec fn clip_of(v: int, limit: int) -> int {
    if v <= 0 {
        0
    } else if v >= limit {
        limit
    } else {
        v
    }
}

} // verus!
