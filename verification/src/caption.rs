//! Timed text before it is encoded: styled chunks on lines.

use vstd::prelude::*;

verus! {

/// The number of caption rows on a screen.
pub const ROWS: usize = 15;

/// How a decoder shows captions: all at once, or rolling up two to four rows.
#[derive(Clone, Copy, Debug, PartialEq, Eq, Structural)]
pub enum Cea608Mode {
    PopOn,
    RollUp2,
    RollUp3,
    RollUp4,
}

/// The colours of caption text, and italics.
#[derive(Clone, Copy, Debug, PartialEq, Eq, Structural)]
pub enum TextStyle {
    White,
    Green,
    Blue,
    Cyan,
    Red,
    Yellow,
    Magenta,
    ItalicWhite,
}

impl TextStyle {
    /// The number by which the encoder knows the style.
    pub open spec fn number(self) -> u32 {
        match self {
            TextStyle::White => 0,
            TextStyle::Green => 1,
            TextStyle::Blue => 2,
            TextStyle::Cyan => 3,
            TextStyle::Red => 4,
            TextStyle::Yellow => 5,
            TextStyle::Magenta => 6,
            TextStyle::ItalicWhite => 7,
        }
    }

    pub fn to_u32(self) -> (n: u32)
        ensures
            n == self.number(),
    {
        match self {
            TextStyle::White => 0,
            TextStyle::Green => 1,
            TextStyle::Blue => 2,
            TextStyle::Cyan => 3,
            TextStyle::Red => 4,
            TextStyle::Yellow => 5,
            TextStyle::Magenta => 6,
            TextStyle::ItalicWhite => 7,
        }
    }
}

/// A run of text in one style.
#[derive(Debug)]
pub struct Chunk {
    pub style: TextStyle,
    pub underline: bool,
    pub text: String,
}

/// A line of captions; what it leaves open follows from the line before it.
#[derive(Debug)]
pub struct Line {
    pub column: Option<u32>,
    pub row: Option<u32>,
    pub chunks: Vec<Chunk>,
    pub carriage_return: Option<bool>,
}

/// What one timed buffer shows.
#[derive(Debug)]
pub struct Lines {
    pub lines: Vec<Line>,
    pub mode: Option<Cea608Mode>,
    pub clear: Option<bool>,
}

/// The contents of a chunk.
pub struct ChunkView {
    pub style: TextStyle,
    pub underline: bool,
    pub text: Seq<char>,
}

/// The contents of a line.
#[verifier::ext_equal]
pub struct LineView {
    pub column: Option<u32>,
    pub row: Option<u32>,
    pub chunks: Seq<ChunkView>,
    pub carriage_return: Option<bool>,
}

/// The contents of a buffer of timed text.
#[verifier::ext_equal]
pub struct LinesView {
    pub lines: Seq<LineView>,
    pub mode: Option<Cea608Mode>,
    pub clear: Option<bool>,
}

impl View for Chunk {
    type V = ChunkView;

    open spec fn view(&self) -> ChunkView {
        ChunkView { style: self.style, underline: self.underline, text: self.text@ }
    }
}

impl View for Line {
    type V = LineView;

    open spec fn view(&self) -> LineView {
        LineView {
            column: self.column,
            row: self.row,
            chunks: self.chunks@.map_values(|c: Chunk| c@),
            carriage_return: self.carriage_return,
        }
    }
}

impl View for Lines {
    type V = LinesView;

    open spec fn view(&self) -> LinesView {
        LinesView {
            lines: self.lines@.map_values(|l: Line| l@),
            mode: self.mode,
            clear: self.clear,
        }
    }
}

/// The pieces of a text between its newlines; a text without one is one piece.
pub open spec fn phrases(text: Seq<char>) -> Seq<Seq<char>>
    decreases text.len(),
{
    if text.len() == 0 {
        seq![Seq::empty()]
    } else {
        let before = phrases(text.drop_last());
        if text.last() == '\n' {
            before.push(Seq::empty())
        } else {
            before.drop_last().push(before.last().push(text.last()))
        }
    }
}

/// A line that holds nothing but plain text, on the given row.
pub open spec fn plain_line(row: int, text: Seq<char>) -> LineView {
    LineView {
        carriage_return: None,
        column: None,
        row: Some(row as u32),
        chunks: seq![ChunkView { style: TextStyle::White, underline: false, text }],
    }
}

/// The captions of a plain text: a line for each of its phrases, in plain style,
/// placed so that the last phrase stands on the bottom row.
pub open spec fn plain_lines(text: Seq<char>) -> LinesView {
    let count = phrases(text).len();
    LinesView {
        lines: Seq::new(count, |i: int| plain_line(ROWS - count + i, phrases(text)[i])),
        mode: None,
        clear: None,
    }
}

/// Splits a text at its newlines.
pub fn split_phrases(text: &str) -> (r: Vec<String>)
    ensures
        r@.len() == phrases(text@).len(),
        forall|i: int| 0 <= i < r@.len() ==> (#[trigger] r@[i])@ == phrases(text@)[i],
{
    let len: usize = text.unicode_len();
    let mut r: Vec<String> = Vec::new();
    let mut start: usize = 0;
    let mut at: usize = 0;
    assert(text@.take(0) =~= Seq::empty());
    for c in chars: text.chars()
        invariant
            chars.seq() == text@,
            len == text@.len(),
            at == chars.index(),
            start <= at <= len,
            phrases(text@.take(at as int)).len() == r@.len() + 1,
            forall|i: int|
                0 <= i < r@.len() ==> (#[trigger] r@[i])@ == phrases(text@.take(at as int))[i],
            phrases(text@.take(at as int)).last() =~= text@.subrange(start as int, at as int),
    {
        assert(c == text@[at as int]);
        let ghost next = text@.take(at + 1);
        assert(next.drop_last() =~= text@.take(at as int));
        assert(next.last() == c);
        if c == '\n' {
            r.push(text.substring_char(start, at).to_owned());
            start = at + 1;
        }
        at = at + 1;
    }
    assert(text@.take(len as int) =~= text@);
    r.push(text.substring_char(start, len).to_owned());
    r
}

/// Lays out a plain text.
pub fn text_lines(text: &str) -> (r: Lines)
    requires
        phrases(text@).len() <= ROWS,
    ensures
        r@ == plain_lines(text@),
{
    let phrase = split_phrases(text);
    let count: usize = phrase.len();
    let mut lines: Vec<Line> = Vec::new();
    for i in 0..count
        invariant
            count == phrase@.len(),
            count == phrases(text@).len(),
            count <= ROWS,
            forall|i: int| 0 <= i < count ==> (#[trigger] phrase@[i])@ == phrases(text@)[i],
            lines@.len() == i,
            forall|j: int|
                0 <= j < i ==> (#[trigger] lines@[j])@ == plain_line(
                    ROWS - count + j,
                    phrases(text@)[j],
                ),
    {
        let mut chunks: Vec<Chunk> = Vec::new();
        chunks.push(
            Chunk { style: TextStyle::White, underline: false, text: phrase[i].clone() },
        );
        let line = Line {
            carriage_return: None,
            column: None,
            row: Some((ROWS - count + i) as u32),
            chunks,
        };
        assert(line@.chunks =~= plain_line(ROWS - count + i, phrases(text@)[i as int]).chunks);
        lines.push(line);
    }
    let r = Lines { lines, mode: None, clear: None };
    assert(r@.lines =~= plain_lines(text@).lines);
    r
}

} // verus!
