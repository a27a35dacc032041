//! Colours and bitmaps.

use vstd::prelude::*;
use vstd::string::*;
use vstd::arithmetic::div_mod::lemma_div_is_ordered;

verus! {

/// A 24-bit colour.
#[derive(Clone, Copy, Debug, PartialEq, Eq, Structural)]
pub struct RGB {
    pub r: u8,
    pub g: u8,
    pub b: u8,
}

/// One channel scaled by the factor `num / den`, clamped to `[0, 1]`, and
/// truncated towards zero: nothing where the numerator is zero or less, the
/// channel itself where the numerator is no less than the denominator.
pub open spec fn dim_channel(c: int, num: int, den: int) -> int {
    if num <= 0 {
        0
    } else if num >= den {
        c
    } else {
        (c * num) / den
    }
}

/// The packed value of a colour: red in bits 16 to 23, green in 8 to 15, blue
/// in 0 to 7.
pub open spec fn packed(r: int, g: int, b: int) -> int {
    r * 65536 + g * 256 + b
}

/// A dimmed channel is never brighter than the channel, and never negative.
pub proof fn lemma_dim_channel_bounds(c: int, num: int, den: int)
    requires
        0 <= c,
    ensures
        0 <= dim_channel(c, num, den) <= c,
{
    if 0 < num < den {
        assert(0 <= c * num <= c * den) by (nonlinear_arith)
            requires
                0 <= num < den,
                0 <= c,
        ;
        lemma_div_is_ordered(0, c * num, den);
        lemma_div_is_ordered(c * num, c * den, den);
        assert((c * den) / den == c) by (nonlinear_arith)
            requires
                den > 0,
        ;
    }
}

/// Dimming is monotone: a larger factor never gives a darker channel.
pub proof fn lemma_dim_monotone(c: int, low: int, high: int, den: int)
    requires
        0 <= c,
        low <= high,
    ensures
        dim_channel(c, low, den) <= dim_channel(c, high, den),
{
    lemma_dim_channel_bounds(c, low, den);
    lemma_dim_channel_bounds(c, high, den);
    if 0 < low && high < den {
        assert(c * low <= c * high) by (nonlinear_arith)
            requires
                low <= high,
                0 <= c,
        ;
        lemma_div_is_ordered(c * low, c * high, den);
    }
}

fn dim_one(c: u8, num: i64, den: u32) -> (out: u8)
    ensures
        out as int == dim_channel(c as int, num as int, den as int),
        out <= c,
{
    if num <= 0 {
        0
    } else if num >= den as i64 {
        c
    } else {
        proof {
            lemma_dim_channel_bounds(c as int, num as int, den as int);
        }
        assert(0 <= (c as int) * (num as int) <= 255 * 0xFFFF_FFFF) by (nonlinear_arith)
            requires
                0 <= c <= 255,
                0 < num < 0xFFFF_FFFF,
        ;
        let scaled: u64 = ((c as u64) * (num as u64)) / (den as u64);
        scaled as u8
    }
}

impl RGB {
    pub fn new(r: u8, g: u8, b: u8) -> (out: Self)
        ensures
            out == (RGB { r, g, b }),
    {
        RGB { r, g, b }
    }

    /// Black.
    pub fn default() -> (out: Self)
        ensures
            out == (RGB { r: 0, g: 0, b: 0 }),
    {
        RGB { r: 0, g: 0, b: 0 }
    }

    /// The packed value as the frame buffer stores it.
    pub open spec fn spec_irl(&self) -> u32 {
        packed(self.r as int, self.g as int, self.b as int) as u32
    }

    /// The packed value as the frame buffer stores it.
    #[verifier::when_used_as_spec(spec_irl)]
    pub fn irl(&self) -> (out: u32)
        ensures
            out == self.spec_irl(),
            out as int == packed(self.r as int, self.g as int, self.b as int),
            out <= 0xFF_FFFF,
    {
        (self.r as u32) * 65536 + (self.g as u32) * 256 + (self.b as u32)
    }

    /// The colour that dimming by `num / den` gives.
    pub open spec fn spec_dimmed(&self, num: int, den: int) -> RGB {
        RGB {
            r: dim_channel(self.r as int, num, den) as u8,
            g: dim_channel(self.g as int, num, den) as u8,
            b: dim_channel(self.b as int, num, den) as u8,
        }
    }

    /// Scales every channel towards black by the rational factor `num / den`,
    /// clamped to `[0, 1]`.
    pub fn dimmed(&self, num: i64, den: u32) -> (out: Self)
        ensures
            out == self.spec_dimmed(num as int, den as int),
            out.r <= self.r,
            out.g <= self.g,
            out.b <= self.b,
    {
        RGB {
            r: dim_one(self.r, num, den),
            g: dim_one(self.g, num, den),
            b: dim_one(self.b, num, den),
        }
    }

    /// White.
    pub fn fff() -> (out: Self)
        ensures
            out == (RGB { r: 255, g: 255, b: 255 }),
    {
        RGB::new(255, 255, 255)
    }

    /// The colour of a name. The one name known is `red`.
    pub fn color(arg: &str) -> (out: RGB)
        requires
            arg@ == "red"@,
        ensures
            out == (RGB { r: 255, g: 0, b: 0 }),
    {
        RGB::new(255, 0, 0)
    }
}

/// A grid of colours, row by row from the top left.
pub struct Bitmap {
    pub path: String,
    pub data: Vec<RGB>,
    pub xsize: u32,
    pub ysize: u32,
}

/// One rasterised character: its size in pixels and its coverage, one byte a
/// pixel, row by row from the top left.
pub struct Glyph {
    pub ch: char,
    pub width: u32,
    pub height: u32,
    pub coverage: Vec<u8>,
}

/// The colour that stands for a bitmap without any lit pixel.
pub open spec fn magenta() -> RGB {
    RGB { r: 255, g: 0, b: 255 }
}

/// The first position at or after `i` whose colour is not black, or the
/// length where there is none.
pub open spec fn first_lit(data: Seq<RGB>, i: int) -> int
    decreases data.len() - i,
{
    if 0 <= i < data.len() && data[i].spec_irl() == 0 {
        first_lit(data, i + 1)
    } else {
        i
    }
}

impl Bitmap {
    /// The grid holds one colour for every pixel.
    pub open spec fn wf(&self) -> bool {
        self.data@.len() == self.xsize as int * self.ysize as int
    }

    /// The packed colour at column `x` of row `y`, dimmed where a factor is
    /// given.
    pub open spec fn spec_color(&self, x: int, y: int, dimmed: Option<(i64, u32)>) -> u32 {
        let c = self.data@[y * self.xsize + x];
        match dimmed {
            Some(f) => c.spec_dimmed(f.0 as int, f.1 as int).spec_irl(),
            None => c.spec_irl(),
        }
    }

    /// The packed colour at column `x` of row `y`, dimmed by the rational
    /// factor `dimmed.0 / dimmed.1` where one is given.
    pub fn color(&self, x: u32, y: u32, dimmed: Option<(i64, u32)>) -> (out: u32)
        requires
            y * self.xsize + x < self.data@.len(),
        ensures
            out == self.spec_color(x as int, y as int, dimmed),
    {
        let n: usize = self.data.len();
        assert(0 <= y as int * self.xsize as int) by (nonlinear_arith);
        let at: usize = (y as usize) * (self.xsize as usize) + (x as usize);
        match dimmed {
            Some(f) => self.data[at].dimmed(f.0, f.1).irl(),
            None => self.data[at].irl(),
        }
    }

    /// The first colour of the grid that is not black; magenta where every
    /// pixel is black.
    pub fn first_nonzero_color(&self) -> (out: RGB)
        ensures
            out == (if first_lit(self.data@, 0) < self.data@.len() {
                self.data@[first_lit(self.data@, 0)]
            } else {
                magenta()
            }),
    {
        let n: usize = self.data.len();
        let mut i: usize = 0;
        while i < n
            invariant
                i <= n,
                n == self.data@.len(),
                first_lit(self.data@, i as int) == first_lit(self.data@, 0),
            decreases n - i,
        {
            let c: RGB = self.data[i];
            if c.irl() != 0 {
                return c;
            }
            i += 1;
        }
        RGB::new(255, 0, 255)
    }

    /// The grid mirrored along its main diagonal: rows become columns.
    pub fn rotated(self) -> (out: Self)
        requires
            self.wf(),
        ensures
            out.wf(),
            out.path == self.path,
            out.xsize == self.ysize,
            out.ysize == self.xsize,
            out.data@ == Seq::new(
                self.data@.len(),
                |k: int|
                    self.data@[(k % (self.ysize as int)) * (self.xsize as int) + k / (
                    self.ysize as int)],
            ),
    {
        let xs: u32 = self.xsize;
        let ys: u32 = self.ysize;
        let n: usize = self.data.len();
        let ghost goal = Seq::new(
            self.data@.len(),
            |k: int| self.data@[(k % (ys as int)) * (xs as int) + k / (ys as int)],
        );
        let mut data: Vec<RGB> = Vec::new();
        let mut x: u32 = 0;
        while x < xs
            invariant
                x <= xs,
                xs == self.xsize,
                ys == self.ysize,
                self.wf(),
                n == self.data@.len(),
                data@.len() == x as int * ys as int,
                forall|k: int| 0 <= k < data@.len() ==> #[trigger] data@[k] == goal[k],
                goal.len() == n,
                goal == Seq::new(
                    self.data@.len(),
                    |k: int| self.data@[(k % (ys as int)) * (xs as int) + k / (ys as int)],
                ),
            decreases xs - x,
        {
            let mut y: u32 = 0;
            while y < ys
                invariant
                    y <= ys,
                    x < xs,
                    xs == self.xsize,
                    ys == self.ysize,
                    self.wf(),
                    n == self.data@.len(),
                    data@.len() == x as int * ys as int + y as int,
                    forall|k: int| 0 <= k < data@.len() ==> #[trigger] data@[k] == goal[k],
                    goal.len() == n,
                    goal == Seq::new(
                        self.data@.len(),
                        |k: int| self.data@[(k % (ys as int)) * (xs as int) + k / (ys as int)],
                    ),
                decreases ys - y,
            {
                proof {
                    crate::win::lemma_cell(x as int, y as int, xs as int, ys as int);
                    crate::win::lemma_cell(y as int, x as int, ys as int, xs as int);
                    assert(0 <= y as int * xs as int) by (nonlinear_arith);
                    assert(xs as int * ys as int == ys as int * xs as int) by (nonlinear_arith);
                }
                let from: usize = (y as usize) * (xs as usize) + (x as usize);
                data.push(self.data[from]);
                y += 1;
            }
            assert((x as int + 1) * ys as int == x as int * ys as int + ys as int)
                by (nonlinear_arith);
            x += 1;
        }
        assert(xs as int * ys as int == ys as int * xs as int) by (nonlinear_arith);
        assert(data@ =~= goal);
        Bitmap { path: self.path, data, xsize: ys, ysize: xs }
    }
}

/// The characters of a string, in order.
pub fn chars_of(s: &str) -> (out: Vec<char>)
    ensures
        out@ == s@,
{
    let n: usize = s.unicode_len();
    let mut out: Vec<char> = Vec::new();
    let mut i: usize = 0;
    while i < n
        invariant
            n == s@.len(),
            i <= n,
            out@ == s@.take(i as int),
        decreases n - i,
    {
        out.push(s.get_char(i));
        assert(s@.take(i as int).push(s@[i as int]) =~= s@.take(i + 1));
        i += 1;
    }
    assert(s@.take(n as int) =~= s@);
    out
}

/// Why a text is no colour.
#[derive(Clone, Copy, Debug, PartialEq, Eq, Structural)]
pub enum ColorError {
    /// The text has neither three nor six characters after its hashes.
    BadLength,
    /// A character is no hexadecimal digit.
    BadDigit,
}

/// The value of a hexadecimal digit, upper or lower case.
pub open spec fn hex_value(c: char) -> Option<int> {
    let u = c as u32 as int;
    if 0x30 <= u <= 0x39 {
        Some(u - 0x30)
    } else if 0x41 <= u <= 0x46 {
        Some(u - 0x41 + 10)
    } else if 0x61 <= u <= 0x66 {
        Some(u - 0x61 + 10)
    } else {
        None
    }
}

/// The upper-case hexadecimal digit of a value below sixteen.
pub open spec fn hex_digit(v: int) -> char {
    if v == 0 {
        '0'
    } else if v == 1 {
        '1'
    } else if v == 2 {
        '2'
    } else if v == 3 {
        '3'
    } else if v == 4 {
        '4'
    } else if v == 5 {
        '5'
    } else if v == 6 {
        '6'
    } else if v == 7 {
        '7'
    } else if v == 8 {
        '8'
    } else if v == 9 {
        '9'
    } else if v == 10 {
        'A'
    } else if v == 11 {
        'B'
    } else if v == 12 {
        'C'
    } else if v == 13 {
        'D'
    } else if v == 14 {
        'E'
    } else {
        'F'
    }
}

/// The first position at or after `i` that holds no hash.
pub open spec fn after_hashes(s: Seq<char>, i: int) -> int
    decreases s.len() - i,
{
    if 0 <= i < s.len() && s[i] == '#' {
        after_hashes(s, i + 1)
    } else {
        i
    }
}

/// The colour that a text names: after any hashes in front, six hexadecimal
/// digits, two a channel, or three, each standing for itself twice.
pub open spec fn parsed_color(s: Seq<char>) -> Result<RGB, ColorError> {
    let t = s.skip(after_hashes(s, 0));
    if t.len() == 3 {
        match (hex_value(t[0]), hex_value(t[1]), hex_value(t[2])) {
            (Some(r), Some(g), Some(b)) => Ok(
                RGB { r: (17 * r) as u8, g: (17 * g) as u8, b: (17 * b) as u8 },
            ),
            _ => Err(ColorError::BadDigit),
        }
    } else if t.len() == 6 {
        match (
            hex_value(t[0]),
            hex_value(t[1]),
            hex_value(t[2]),
            hex_value(t[3]),
            hex_value(t[4]),
            hex_value(t[5]),
        ) {
            (Some(r1), Some(r0), Some(g1), Some(g0), Some(b1), Some(b0)) => Ok(
                RGB { r: (16 * r1 + r0) as u8, g: (16 * g1 + g0) as u8, b: (16 * b1 + b0) as u8 },
            ),
            _ => Err(ColorError::BadDigit),
        }
    } else {
        Err(ColorError::BadLength)
    }
}

/// The text of a colour: a hash and six upper-case hexadecimal digits.
pub open spec fn hex_text(c: RGB) -> Seq<char> {
    seq![
        '#',
        hex_digit(c.r as int / 16),
        hex_digit(c.r as int % 16),
        hex_digit(c.g as int / 16),
        hex_digit(c.g as int % 16),
        hex_digit(c.b as int / 16),
        hex_digit(c.b as int % 16),
    ]
}

fn digit_value(c: char) -> (out: Option<u8>)
    ensures
        match out {
            Some(v) => hex_value(c) == Some(v as int) && v < 16,
            None => hex_value(c) is None,
        },
{
    let u: u32 = c as u32;
    if 0x30 <= u && u <= 0x39 {
        Some((u - 0x30) as u8)
    } else if 0x41 <= u && u <= 0x46 {
        Some((u - 0x41 + 10) as u8)
    } else if 0x61 <= u && u <= 0x66 {
        Some((u - 0x61 + 10) as u8)
    } else {
        None
    }
}

fn digit_text(v: u8) -> (out: &'static str)
    requires
        v < 16,
    ensures
        out@ == seq![hex_digit(v as int)],
{
    proof {
        reveal_strlit("0");
        reveal_strlit("1");
        reveal_strlit("2");
        reveal_strlit("3");
        reveal_strlit("4");
        reveal_strlit("5");
        reveal_strlit("6");
        reveal_strlit("7");
        reveal_strlit("8");
        reveal_strlit("9");
        reveal_strlit("A");
        reveal_strlit("B");
        reveal_strlit("C");
        reveal_strlit("D");
        reveal_strlit("E");
        reveal_strlit("F");
    }
    let out: &'static str = if v == 0 {
        "0"
    } else if v == 1 {
        "1"
    } else if v == 2 {
        "2"
    } else if v == 3 {
        "3"
    } else if v == 4 {
        "4"
    } else if v == 5 {
        "5"
    } else if v == 6 {
        "6"
    } else if v == 7 {
        "7"
    } else if v == 8 {
        "8"
    } else if v == 9 {
        "9"
    } else if v == 10 {
        "A"
    } else if v == 11 {
        "B"
    } else if v == 12 {
        "C"
    } else if v == 13 {
        "D"
    } else if v == 14 {
        "E"
    } else {
        "F"
    };
    assert(out@ =~= seq![hex_digit(v as int)]);
    out
}

impl RGB {
    /// The colour that a text names.
    pub fn from_hex(s: &str) -> (out: Result<RGB, ColorError>)
        ensures
            out == parsed_color(s@),
    {
        let chars: Vec<char> = chars_of(s);
        let n: usize = chars.len();
        let mut i: usize = 0;
        while i < n && chars[i] == '#'
            invariant
                i <= n,
                n == chars@.len(),
                after_hashes(chars@, i as int) == after_hashes(chars@, 0),
            decreases n - i,
        {
            i += 1;
        }
        assert(after_hashes(chars@, 0) == i);
        let ghost t = chars@.skip(i as int);
        if n - i == 3 {
            assert(t[0] == chars@[i as int] && t[1] == chars@[i + 1] && t[2] == chars@[i + 2]);
            match (digit_value(chars[i]), digit_value(chars[i + 1]), digit_value(chars[i + 2])) {
                (Some(r), Some(g), Some(b)) => Ok(RGB { r: 17 * r, g: 17 * g, b: 17 * b }),
                _ => Err(ColorError::BadDigit),
            }
        } else if n - i == 6 {
            assert(t[0] == chars@[i as int] && t[1] == chars@[i + 1] && t[2] == chars@[i + 2]
                && t[3] == chars@[i + 3] && t[4] == chars@[i + 4] && t[5] == chars@[i + 5]);
            match (
                digit_value(chars[i]),
                digit_value(chars[i + 1]),
                digit_value(chars[i + 2]),
                digit_value(chars[i + 3]),
                digit_value(chars[i + 4]),
                digit_value(chars[i + 5]),
            ) {
                (Some(r1), Some(r0), Some(g1), Some(g0), Some(b1), Some(b0)) => Ok(
                    RGB { r: 16 * r1 + r0, g: 16 * g1 + g0, b: 16 * b1 + b0 },
                ),
                _ => Err(ColorError::BadDigit),
            }
        } else {
            Err(ColorError::BadLength)
        }
    }

    /// The text of the colour: a hash and six upper-case hexadecimal digits.
    pub fn hex(&self) -> (out: String)
        ensures
            out@ == hex_text(*self),
    {
        proof {
            reveal_strlit("#");
        }
        let mut out: String = String::from_str("#");
        out.append(digit_text(self.r / 16));
        out.append(digit_text(self.r % 16));
        out.append(digit_text(self.g / 16));
        out.append(digit_text(self.g % 16));
        out.append(digit_text(self.b / 16));
        out.append(digit_text(self.b % 16));
        assert(out@ =~= hex_text(*self));
        out
    }
}

/// Reading the text of a colour gives the colour back.
pub proof fn lemma_hex_round_trip(c: RGB)
    ensures
        parsed_color(hex_text(c)) == Ok::<RGB, ColorError>(c),
{
    let s = hex_text(c);
    assert(s.len() == 7);
    assert(s[0] == '#');
    assert(s[1] != '#');
    assert(after_hashes(s, 1) == 1);
    assert(after_hashes(s, 0) == 1);
    let t = s.skip(1);
    assert(t.len() == 6);
    assert(t[0] == s[1] && t[1] == s[2] && t[2] == s[3] && t[3] == s[4] && t[4] == s[5] && t[5]
        == s[6]);
    assert(forall|v: int| 0 <= v < 16 ==> hex_value(#[trigger] hex_digit(v)) == Some(v));
}

/// Why bytes are no bitmap.
#[derive(Clone, Copy, Debug, PartialEq, Eq, Structural)]
pub enum BitmapError {
    /// The bytes are no image in a format that can be read.
    Undecodable,
    /// The image does not hold three bytes of colour a pixel.
    NotRgb8,
    /// The image holds fewer bytes than its size asks for.
    Short,
}

/// `image::ImageError`, the error of the image crate's decoders, carried as
/// an opaque value.
#[verifier::external_type_specification]
#[verifier::external_body]
pub struct ExImageError(image::ImageError);

/// Decodes an image held in memory with `image::load_from_memory` and hands
/// out what `DynamicImage::as_rgb8` finds in it: width, height and raw
/// bytes, or nothing where the image is of another kind. Trusted, with
/// nothing claimed of the result: the decoder looks up formats in tables
/// that a process can add to, so the same bytes need not always give the
/// same image.
#[verifier::external_body]
fn decode_rgb8(data: &[u8]) -> (out: Result<Option<(u32, u32, Vec<u8>)>, image::ImageError>) {
    match image::load_from_memory(data) {
        Ok(img) => match img.as_rgb8() {
            Some(p) => Ok(Some((p.width(), p.height(), p.as_raw().clone()))),
            None => Ok(None),
        },
        Err(e) => Err(e),
    }
}

/// The first `n` colours that raw bytes hold, three bytes a colour.
pub open spec fn pixels_of(raw: Seq<u8>, n: nat) -> Seq<RGB> {
    Seq::new(n, |i: int| RGB { r: raw[3 * i], g: raw[3 * i + 1], b: raw[3 * i + 2] })
}

impl Bitmap {
    /// The bitmap of the given size that raw bytes hold, red, green and blue
    /// of each pixel in turn; nothing where the bytes are too few.
    pub fn from_rgb8(path: String, xsize: u32, ysize: u32, raw: &Vec<u8>) -> (out: Option<Bitmap>)
        ensures
            out is Some <==> 3 * (xsize * ysize) <= raw@.len(),
            out matches Some(b) ==> b.wf() && b.path == path && b.xsize == xsize && b.ysize == ysize
                && b.data@ == pixels_of(raw@, (xsize * ysize) as nat),
    {
        assert(0 <= xsize * ysize <= 0xFFFF_FFFF * 0xFFFF_FFFF) by (nonlinear_arith)
            requires
                0 <= xsize <= 0xFFFF_FFFF,
                0 <= ysize <= 0xFFFF_FFFF,
        ;
        let count: u128 = (xsize as u128) * (ysize as u128);
        let len: usize = raw.len();
        if 3 * count > len as u128 {
            return None;
        }
        let n: usize = count as usize;
        let mut data: Vec<RGB> = Vec::new();
        let mut i: usize = 0;
        while i < n
            invariant
                i <= n,
                len == raw@.len(),
                3 * n <= len,
                data@ == pixels_of(raw@, i as nat),
            decreases n - i,
        {
            data.push(RGB { r: raw[3 * i], g: raw[3 * i + 1], b: raw[3 * i + 2] });
            assert(data@ =~= pixels_of(raw@, (i + 1) as nat));
            i += 1;
        }
        Some(Bitmap { path, data, xsize, ysize })
    }

    /// The bitmap that a decoder's answer stands for: its error means
    /// that the bytes were no image; an image that does not hold three bytes
    /// of colour a pixel is refused, and so is one with fewer bytes than its
    /// size asks for; any other gives the bitmap of its size and colours,
    /// without a path.
    pub fn from_decoded(decoded: Result<Option<(u32, u32, Vec<u8>)>, image::ImageError>) -> (out:
        Result<Bitmap, BitmapError>)
        ensures
            match decoded {
                Err(_) => out matches Err(e) && e == BitmapError::Undecodable,
                Ok(None) => out matches Err(e) && e == BitmapError::NotRgb8,
                Ok(Some(img)) => if 3 * (img.0 * img.1) <= img.2@.len() {
                    out matches Ok(b) && b.wf() && b.path@ == Seq::<char>::empty() && b.xsize
                        == img.0 && b.ysize == img.1 && b.data@ == pixels_of(
                        img.2@,
                        (img.0 * img.1) as nat,
                    )
                } else {
                    out matches Err(e) && e == BitmapError::Short
                },
            },
    {
        match decoded {
            Err(_) => Err(BitmapError::Undecodable),
            Ok(None) => Err(BitmapError::NotRgb8),
            Ok(Some(img)) => match Bitmap::from_rgb8(String::new(), img.0, img.1, &img.2) {
                Some(b) => Ok(b),
                None => Err(BitmapError::Short),
            },
        }
    }

    /// The bitmap that the bytes of an image file hold, as the decoder reads
    /// them and `from_decoded` takes its answer. Whatever the decoder
    /// answers, a bitmap that comes out is whole and has no path.
    pub fn from_data(data: &[u8]) -> (out: Result<Bitmap, BitmapError>)
        ensures
            out matches Ok(b) ==> b.wf() && b.path@ == Seq::<char>::empty(),
    {
        Bitmap::from_decoded(decode_rgb8(data))
    }
}

} // verus!
