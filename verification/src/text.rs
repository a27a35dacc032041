//! Text that performance events reveal line by line, word by word or
//! character by character.

use vstd::prelude::*;
use crate::graphics::{chars_of, RGB};
use crate::midi::{Channel, MidiProcessor, PerformanceEvent};

verus! {

/// How much of the current line progress reveals.
#[derive(Clone, Copy, Debug, PartialEq, Eq, Structural)]
pub enum TextStyle {
    ByLine,
    ByWord,
    ByCharacter,
    ByCharacterUntilSubmit,
}

/// The layout of a text.
#[derive(Clone, Copy, Debug, PartialEq, Eq, Structural)]
pub enum TextDirection {
    Horizontal,
    Vertical,
    Diagonal,
}

/// A text: its lines, where and how they are drawn, the channel and the
/// base note of its control notes, and at run time its cursor.
pub struct Text {
    pub xpos: u32,
    pub ypos: u32,
    pub channel: Channel,
    pub base_note: u8,
    pub direction: TextDirection,
    pub lines: Vec<String>,
    pub text_style: TextStyle,
    pub color: RGB,
    pub visibility: bool,
    pub current_line: usize,
    pub line_progress: usize,
    pub buffered_progress: usize,
}

/// The part of a text that events change.
pub struct TextCursor {
    pub text_style: TextStyle,
    pub visibility: bool,
    pub current_line: usize,
    pub line_progress: usize,
    pub buffered_progress: usize,
}

/// `a + b`, held at the largest `usize`.
pub open spec fn capped_sum(a: usize, b: usize) -> usize {
    if a + b > usize::MAX {
        usize::MAX
    } else {
        (a + b) as usize
    }
}

/// The reveal style that a velocity selects.
pub open spec fn style_for_velocity(velocity: u8) -> TextStyle {
    if velocity < 32 {
        TextStyle::ByLine
    } else if velocity < 64 {
        TextStyle::ByWord
    } else if velocity < 96 {
        TextStyle::ByCharacter
    } else {
        TextStyle::ByCharacterUntilSubmit
    }
}

/// The cursor after advancing by `units`.
pub open spec fn cursor_advanced(c: TextCursor, n_lines: nat, units: usize) -> TextCursor {
    match c.text_style {
        TextStyle::ByLine => if c.current_line + 1 < n_lines {
            TextCursor { current_line: (c.current_line + 1) as usize, ..c }
        } else {
            c
        },
        TextStyle::ByWord => TextCursor { line_progress: capped_sum(c.line_progress, units), ..c },
        TextStyle::ByCharacter => TextCursor {
            line_progress: capped_sum(c.line_progress, units),
            buffered_progress: capped_sum(c.buffered_progress, units),
            ..c
        },
        TextStyle::ByCharacterUntilSubmit => TextCursor {
            buffered_progress: capped_sum(c.buffered_progress, units),
            ..c
        },
    }
}

/// The cursor after a note-on whose pitch lies `offset` above the base note.
pub open spec fn cursor_after_control(c: TextCursor, n_lines: nat, offset: int, velocity: u8) -> TextCursor {
    if offset == 0 {
        if c.current_line + 1 < n_lines {
            TextCursor {
                current_line: (c.current_line + 1) as usize,
                line_progress: 0,
                buffered_progress: 0,
                ..c
            }
        } else {
            c
        }
    } else if offset == 1 {
        cursor_advanced(c, n_lines, 1)
    } else if offset == 2 {
        cursor_advanced(c, n_lines, 2)
    } else if offset == 3 {
        TextCursor { line_progress: c.buffered_progress, ..c }
    } else if offset == 4 {
        TextCursor { visibility: velocity > 64, ..c }
    } else if offset == 5 {
        TextCursor { current_line: 0, line_progress: 0, buffered_progress: 0, ..c }
    } else if offset == 6 {
        TextCursor { text_style: style_for_velocity(velocity), ..c }
    } else {
        c
    }
}

/// Whether a character is white space: one of the code points that carry the
/// Unicode property White_Space.
pub open spec fn is_space(c: char) -> bool {
    let u = c as u32;
    ||| 0x09 <= u <= 0x0D
    ||| u == 0x20
    ||| u == 0x85
    ||| u == 0xA0
    ||| u == 0x1680
    ||| 0x2000 <= u <= 0x200A
    ||| u == 0x2028
    ||| u == 0x2029
    ||| u == 0x202F
    ||| u == 0x205F
    ||| u == 0x3000
}

/// Whether a character is white space.
pub fn char_is_space(c: char) -> (b: bool)
    ensures
        b == is_space(c),
{
    let u: u32 = c as u32;
    (0x09 <= u && u <= 0x0D) || u == 0x20 || u == 0x85 || u == 0xA0 || u == 0x1680 || (0x2000 <= u
        && u <= 0x200A) || u == 0x2028 || u == 0x2029 || u == 0x202F || u == 0x205F || u == 0x3000
}

/// The first position at or after `i` that holds no white space.
pub open spec fn word_start(s: Seq<char>, i: int) -> int
    decreases s.len() - i,
{
    if 0 <= i < s.len() && is_space(s[i]) {
        word_start(s, i + 1)
    } else {
        i
    }
}

/// The first position at or after `i` that holds white space, or the end.
pub open spec fn word_end(s: Seq<char>, i: int) -> int
    decreases s.len() - i,
{
    if 0 <= i < s.len() && !is_space(s[i]) {
        word_end(s, i + 1)
    } else {
        i
    }
}

/// The words of `s` from position `i` on: the maximal runs of characters
/// that are no white space.
pub open spec fn words_from(s: Seq<char>, i: int) -> Seq<Seq<char>>
    decreases s.len() - i,
    via words_from_decreases
{
    let a = word_start(s, i);
    if 0 <= i && a < s.len() {
        let b = word_end(s, a);
        seq![s.subrange(a, b)] + words_from(s, b)
    } else {
        Seq::empty()
    }
}

/// The start of a word lies at or after the position it was sought from,
/// and holds no white space unless it is the end.
pub proof fn lemma_word_start_bounds(s: Seq<char>, i: int)
    requires
        0 <= i <= s.len(),
    ensures
        i <= word_start(s, i) <= s.len(),
        word_start(s, i) < s.len() ==> !is_space(s[word_start(s, i)]),
    decreases s.len() - i,
{
    if i < s.len() && is_space(s[i]) {
        lemma_word_start_bounds(s, i + 1);
    }
}

/// The end of a word lies within the line, and after the position it was
/// sought from where that position holds no white space.
pub proof fn lemma_word_end_bounds(s: Seq<char>, i: int)
    requires
        0 <= i <= s.len(),
    ensures
        i <= word_end(s, i) <= s.len(),
        i < s.len() && !is_space(s[i]) ==> i < word_end(s, i),
    decreases s.len() - i,
{
    if i < s.len() && !is_space(s[i]) {
        lemma_word_end_bounds(s, i + 1);
    }
}

#[via_fn]
proof fn words_from_decreases(s: Seq<char>, i: int) {
    let a = word_start(s, i);
    if 0 <= i && a < s.len() {
        lemma_word_start_bounds(s, i);
        lemma_word_end_bounds(s, a);
    }
}

/// The first `n` places of a list of words, each followed by one blank; a
/// place past the last word holds the blank alone.
pub open spec fn words_shown(words: Seq<Seq<char>>, n: nat) -> Seq<char>
    decreases n,
{
    if n == 0 {
        Seq::empty()
    } else {
        words_shown(words, (n - 1) as nat) + (if n - 1 < words.len() {
            words[n - 1]
        } else {
            Seq::empty()
        }).push(' ')
    }
}

/// What a line shows under a reveal style at a given progress.
pub open spec fn shown(line: Seq<char>, style: TextStyle, progress: usize) -> Seq<char> {
    match style {
        TextStyle::ByLine => line,
        TextStyle::ByWord => words_shown(words_from(line, 0), progress as nat),
        _ => if progress <= line.len() {
            line.take(progress as int)
        } else {
            line
        },
    }
}

/// The words of a line.
pub fn split_words(line: &Vec<char>) -> (out: Vec<Vec<char>>)
    ensures
        out@.map_values(|w: Vec<char>| w@) == words_from(line@, 0),
{
    let n: usize = line.len();
    let mut out: Vec<Vec<char>> = Vec::new();
    let mut i: usize = 0;
    assert(out@.map_values(|w: Vec<char>| w@) + words_from(line@, 0) =~= words_from(line@, 0));
    loop
        invariant
            n == line@.len(),
            i <= n,
            out@.map_values(|w: Vec<char>| w@) + words_from(line@, i as int) == words_from(
                line@,
                0,
            ),
        ensures
            out@.map_values(|w: Vec<char>| w@) == words_from(line@, 0),
        decreases n - i,
    {
        let mut a: usize = i;
        while a < n && char_is_space(line[a])
            invariant
                n == line@.len(),
                i <= a <= n,
                word_start(line@, a as int) == word_start(line@, i as int),
            decreases n - a,
        {
            a += 1;
        }
        if a >= n {
            assert(words_from(line@, i as int) =~= Seq::<Seq<char>>::empty());
            assert(out@.map_values(|w: Vec<char>| w@) + Seq::<Seq<char>>::empty() =~= out@.map_values(
                |w: Vec<char>| w@,
            ));
            break ;
        }
        let mut word: Vec<char> = Vec::new();
        let mut b: usize = a;
        while b < n && !char_is_space(line[b])
            invariant
                n == line@.len(),
                a <= b <= n,
                word_end(line@, b as int) == word_end(line@, a as int),
                word@ == line@.subrange(a as int, b as int),
            decreases n - b,
        {
            word.push(line[b]);
            assert(line@.subrange(a as int, b as int).push(line@[b as int]) =~= line@.subrange(
                a as int,
                b + 1,
            ));
            b += 1;
        }
        proof {
            let collected = out@.map_values(|w: Vec<char>| w@);
            assert(word_start(line@, i as int) == a);
            assert(word_end(line@, a as int) == b);
            assert(words_from(line@, i as int) == seq![word@] + words_from(line@, b as int));
            assert(out@.push(word).map_values(|w: Vec<char>| w@) =~= collected.push(word@));
            assert(collected.push(word@) + words_from(line@, b as int) =~= collected + (
            seq![word@] + words_from(line@, b as int)));
        }
        out.push(word);
        i = b;
    }
    out
}

/// The first `n` places of `words`, each followed by one blank.
pub fn join_shown(words: &Vec<Vec<char>>, n: usize) -> (out: Vec<char>)
    ensures
        out@ == words_shown(words@.map_values(|w: Vec<char>| w@), n as nat),
{
    let ghost model = words@.map_values(|w: Vec<char>| w@);
    let mut out: Vec<char> = Vec::new();
    let mut k: usize = 0;
    while k < n
        invariant
            k <= n,
            model == words@.map_values(|w: Vec<char>| w@),
            out@ == words_shown(model, k as nat),
        decreases n - k,
    {
        let ghost before = out@;
        if k < words.len() {
            let w = &words[k];
            let mut j: usize = 0;
            while j < w.len()
                invariant
                    j <= w@.len(),
                    out@ == before + w@.take(j as int),
                decreases w@.len() - j,
            {
                out.push(w[j]);
                assert((before + w@.take(j as int)).push(w@[j as int]) =~= before + w@.take(j + 1));
                j += 1;
            }
            assert(w@.take(w@.len() as int) =~= w@);
            assert(model[k as int] == w@);
        }
        out.push(' ');
        proof {
            let piece = if k < model.len() {
                model[k as int]
            } else {
                Seq::empty()
            };
            assert(out@ =~= before + piece.push(' '));
        }
        k += 1;
    }
    out
}

impl Text {
    /// The part of the text that events change.
    pub open spec fn cursor(&self) -> TextCursor {
        TextCursor {
            text_style: self.text_style,
            visibility: self.visibility,
            current_line: self.current_line,
            line_progress: self.line_progress,
            buffered_progress: self.buffered_progress,
        }
    }

    /// The cursor that an event leaves: only a note-on on the text's channel
    /// with a pitch up to six above the base note changes it.
    pub open spec fn cursor_after(&self, message: PerformanceEvent) -> TextCursor {
        match message {
            PerformanceEvent::NoteOn { channel, pitch, velocity } => if channel == self.channel {
                cursor_after_control(
                    self.cursor(),
                    self.lines@.len(),
                    pitch - self.base_note,
                    velocity,
                )
            } else {
                self.cursor()
            },
            _ => self.cursor(),
        }
    }

    /// Everything of a text but its cursor.
    pub open spec fn same_setting(&self, other: &Text) -> bool {
        &&& self.xpos == other.xpos
        &&& self.ypos == other.ypos
        &&& self.channel == other.channel
        &&& self.base_note == other.base_note
        &&& self.direction == other.direction
        &&& self.lines == other.lines
        &&& self.color == other.color
    }

    /// The cursor points at a line.
    pub open spec fn wf(&self) -> bool {
        self.current_line < self.lines@.len()
    }

    /// What the text shows now.
    pub open spec fn spec_displayed(&self) -> Seq<char> {
        if self.visibility {
            shown(self.lines@[self.current_line as int]@, self.text_style, self.line_progress)
        } else {
            Seq::empty()
        }
    }

    fn advance(&mut self, units: usize)
        ensures
            final(self).same_setting(old(self)),
            final(self).cursor() == cursor_advanced(
                old(self).cursor(),
                old(self).lines@.len(),
                units,
            ),
    {
        match self.text_style {
            TextStyle::ByLine => {
                let n: usize = self.lines.len();
                if n > 0 && self.current_line < n - 1 {
                    self.current_line += 1;
                }
            },
            TextStyle::ByWord => {
                self.line_progress = self.line_progress.saturating_add(units);
            },
            TextStyle::ByCharacter => {
                self.line_progress = self.line_progress.saturating_add(units);
                self.buffered_progress = self.buffered_progress.saturating_add(units);
            },
            TextStyle::ByCharacterUntilSubmit => {
                self.buffered_progress = self.buffered_progress.saturating_add(units);
            },
        }
    }

    /// The characters to draw: nothing while invisible, else the slice of the
    /// current line that the reveal style and the progress select.
    pub fn displayed(&self) -> (out: Vec<char>)
        requires
            self.wf(),
        ensures
            out@ == self.spec_displayed(),
    {
        if !self.visibility {
            return Vec::new();
        }
        let line: Vec<char> = chars_of(self.lines[self.current_line].as_str());
        match self.text_style {
            TextStyle::ByLine => line,
            TextStyle::ByWord => {
                let words = split_words(&line);
                join_shown(&words, self.line_progress)
            },
            _ => {
                if self.line_progress <= line.len() {
                    let mut line = line;
                    line.truncate(self.line_progress);
                    line
                } else {
                    line
                }
            },
        }
    }
}

impl MidiProcessor for Text {
    /// Applies one event: the seven control notes above the base note move
    /// the cursor, submit buffered progress, switch visibility, reset, or
    /// pick the reveal style.
    fn deal_with(&mut self, message: PerformanceEvent)
        ensures
            final(self).same_setting(old(self)),
            final(self).cursor() == old(self).cursor_after(message),
    {
        match message {
            PerformanceEvent::NoteOn { channel, pitch, velocity } => {
                if channel == self.channel && pitch >= self.base_note {
                    let offset: u8 = pitch - self.base_note;
                    if offset == 0 {
                        let n: usize = self.lines.len();
                        if n > 0 && self.current_line < n - 1 {
                            self.current_line += 1;
                            self.line_progress = 0;
                            self.buffered_progress = 0;
                        }
                    } else if offset == 1 {
                        self.advance(1);
                    } else if offset == 2 {
                        self.advance(2);
                    } else if offset == 3 {
                        self.line_progress = self.buffered_progress;
                    } else if offset == 4 {
                        self.visibility = velocity > 64;
                    } else if offset == 5 {
                        self.current_line = 0;
                        self.line_progress = 0;
                        self.buffered_progress = 0;
                    } else if offset == 6 {
                        if velocity < 32 {
                            self.text_style = TextStyle::ByLine;
                        } else if velocity < 64 {
                            self.text_style = TextStyle::ByWord;
                        } else if velocity < 96 {
                            self.text_style = TextStyle::ByCharacter;
                        } else {
                            self.text_style = TextStyle::ByCharacterUntilSubmit;
                        }
                    }
                }
            },
            _ => {},
        }
    }
}

/// A cursor that points at a line still does so after any event.
pub proof fn lemma_cursor_stays_on_a_line(t: Text, message: PerformanceEvent)
    requires
        t.wf(),
    ensures
        t.cursor_after(message).current_line < t.lines@.len(),
{
}

/// Under `ByWord` the two advancing notes add one and two to the line
/// progress and leave the rest of the cursor alone.
pub proof fn lemma_by_word_advance(c: TextCursor, n_lines: nat, velocity: u8)
    requires
        c.text_style == TextStyle::ByWord,
    ensures
        cursor_after_control(c, n_lines, 1, velocity) == (TextCursor {
            line_progress: capped_sum(c.line_progress, 1),
            ..c
        }),
        cursor_after_control(c, n_lines, 2, velocity) == (TextCursor {
            line_progress: capped_sum(c.line_progress, 2),
            ..c
        }),
{
}

/// Under `ByCharacterUntilSubmit` an advance moves the buffered progress
/// alone, and a submit copies it into the line progress.
pub proof fn lemma_submit_reveals_buffer(c: TextCursor, n_lines: nat, velocity: u8)
    requires
        c.text_style == TextStyle::ByCharacterUntilSubmit,
    ensures
        cursor_after_control(c, n_lines, 1, velocity).line_progress == c.line_progress,
        cursor_after_control(c, n_lines, 1, velocity).buffered_progress == capped_sum(
            c.buffered_progress,
            1,
        ),
        cursor_after_control(c, n_lines, 3, velocity).line_progress == c.buffered_progress,
{
}

} // verus!
