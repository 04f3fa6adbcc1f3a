//! Laws of spellings of a text that come out as the same words.

use vstd::prelude::*;

use crate::caption::{Cea608Mode, ChunkView, LineView, LinesView};
use crate::compose::{word_of, Draft, Notice, Pen, FIRST_ROW, LAST_COLUMN, LAST_ROW};
use crate::element::State;
use crate::laws::text::next_row;

verus! {

/// The character that stands for another: itself, or a space where it has no word.
pub open spec fn spelt_char(c: char, words: Map<u32, u16>) -> char {
    if word_of(words, c) == 0 {
        ' '
    } else {
        c
    }
}

/// A text without its carriage returns, and with spaces for characters without a word.
pub open spec fn spelt(text: Seq<char>, words: Map<u32, u16>) -> Seq<char> {
    text.filter(|c: char| c != '\r').map_values(|c: char| spelt_char(c, words))
}

/// A chunk with its text spelt that way.
pub open spec fn spelt_chunk(chunk: ChunkView, words: Map<u32, u16>) -> ChunkView {
    ChunkView { text: spelt(chunk.text, words), ..chunk }
}

/// A line with all its chunks spelt that way.
pub open spec fn spelt_line(line: LineView, words: Map<u32, u16>) -> LineView {
    LineView {
        chunks: line.chunks.map_values(|chunk: ChunkView| spelt_chunk(chunk, words)),
        ..line
    }
}

/// The contents of a buffer with all its lines spelt that way.
pub open spec fn spelt_lines(lines: LinesView, words: Map<u32, u16>) -> LinesView {
    LinesView {
        lines: lines.lines.map_values(|line: LineView| spelt_line(line, words)),
        ..lines
    }
}

/// Drafts that differ in their notices at most.
pub open spec fn alike(a: Draft, b: Draft) -> bool {
    &&& a.pen == b.pen
    &&& a.col == b.col
    &&& a.pending == b.pending
    &&& a.codes == b.codes
}

/// Drafts that differ in their notices at most, or none in either place.
pub open spec fn both_alike(a: Option<Draft>, b: Option<Draft>) -> bool {
    match (a, b) {
        (Some(a), Some(b)) => alike(a, b),
        (None, None) => true,
        _ => false,
    }
}

proof fn lemma_spelt_first(c: char, rest: Seq<char>, words: Map<u32, u16>)
    ensures
        spelt(seq![c] + rest, words) == if c == '\r' {
            spelt(rest, words)
        } else {
            seq![spelt_char(c, words)] + spelt(rest, words)
        },
{
    let pred = |c: char| c != '\r';
    Seq::filter_distributes_over_add(seq![c], rest, pred);
    reveal_with_fuel(Seq::filter, 2);
    assert(seq![c].drop_last() =~= Seq::<char>::empty());
    if c == '\r' {
        assert((seq![c] + rest).filter(pred) =~= rest.filter(pred));
    } else {
        assert((seq![c] + rest).filter(pred) =~= seq![c] + rest.filter(pred));
        assert(spelt(seq![c] + rest, words) =~= seq![spelt_char(c, words)] + spelt(rest, words));
    }
}

proof fn lemma_flush_alike(a: Draft, b: Draft)
    requires
        alike(a, b),
    ensures
        alike(a.flush(), b.flush()),
{
}

proof fn lemma_open_chunk_alike(a: Draft, b: Draft, chunk: ChunkView, other: ChunkView)
    requires
        alike(a, b),
        chunk.style == other.style,
        chunk.underline == other.underline,
    ensures
        alike(a.open_chunk(chunk), b.open_chunk(other)),
        a.changes_style(chunk) == b.changes_style(other),
{
}

proof fn lemma_open_line_alike(
    a: Draft,
    b: Draft,
    chunk: ChunkView,
    other: ChunkView,
    row: u32,
    carriage_return: Option<bool>,
)
    requires
        alike(a, b),
        chunk.style == other.style,
        chunk.underline == other.underline,
    ensures
        alike(
            a.open_line(chunk, row, carriage_return),
            b.open_line(other, row, carriage_return),
        ),
        a.continues(chunk, carriage_return) == b.continues(other, carriage_return),
{
}

proof fn lemma_write_text_alike(
    a: Draft,
    b: Draft,
    text: Seq<char>,
    chunk: ChunkView,
    other: ChunkView,
    row: u32,
    words: Map<u32, u16>,
)
    requires
        alike(a, b),
        chunk.style == other.style,
        chunk.underline == other.underline,
    ensures
        both_alike(
            a.write_text(text, chunk, row, words),
            b.write_text(spelt(text, words), other, row, words),
        ),
    decreases text.len(),
{
    if text.len() == 0 {
        reveal_with_fuel(Seq::filter, 1);
        assert(spelt(text, words) =~= text);
    } else {
        let rest = text.drop_first();
        let c = text[0];
        assert(text =~= seq![c] + rest);
        lemma_spelt_first(c, rest, words);
        if c == '\r' {
            lemma_write_text_alike(a, b, rest, chunk, other, row, words);
        } else {
            let d = spelt_char(c, words);
            assert(spelt(text, words)[0] == d);
            assert(spelt(text, words).drop_first() =~= spelt(rest, words));
            assert(d != '\r');
            let written = a.write_character(c, words);
            let other_written = b.write_character(d, words);
            assert(alike(written, other_written));
            if a.col >= u32::MAX {
            } else if written.col <= LAST_COLUMN {
                lemma_write_text_alike(written, other_written, rest, chunk, other, row, words);
            } else if a.pen.mode != Cea608Mode::PopOn {
                lemma_flush_alike(written, other_written);
                lemma_open_line_alike(
                    written.flush(),
                    other_written.flush(),
                    chunk,
                    other,
                    row,
                    Some(true),
                );
                lemma_write_text_alike(
                    written.flush().open_line(chunk, row, Some(true)),
                    other_written.flush().open_line(other, row, Some(true)),
                    rest,
                    chunk,
                    other,
                    row,
                    words,
                );
            }
        }
    }
}

proof fn lemma_write_chunk_alike(
    a: Draft,
    b: Draft,
    first: bool,
    chunk: ChunkView,
    row: u32,
    carriage_return: Option<bool>,
    words: Map<u32, u16>,
)
    requires
        alike(a, b),
    ensures
        both_alike(
            a.write_chunk(first, chunk, row, carriage_return, words),
            b.write_chunk(first, spelt_chunk(chunk, words), row, carriage_return, words),
        ),
{
    let other = spelt_chunk(chunk, words);
    lemma_flush_alike(a, b);
    let (c, d) = (a.flush(), b.flush());
    lemma_open_chunk_alike(c, d, chunk, other);
    lemma_open_line_alike(c, d, chunk, other, row, carriage_return);
    let (opened, other_opened) = if first {
        (c.open_line(chunk, row, carriage_return), d.open_line(other, row, carriage_return))
    } else {
        (c.open_chunk(chunk), d.open_chunk(other))
    };
    lemma_spelt_first(' ', chunk.text, words);
    lemma_write_text_alike(opened, other_opened, chunk.text, chunk, other, row, words);
    lemma_write_text_alike(
        opened,
        other_opened,
        seq![' '] + chunk.text,
        chunk,
        other,
        row,
        words,
    );
}

proof fn lemma_write_chunks_alike(
    a: Draft,
    b: Draft,
    from: int,
    line: LineView,
    row: u32,
    words: Map<u32, u16>,
)
    requires
        0 <= from,
        alike(a, b),
    ensures
        both_alike(
            a.write_chunks(from, line, row, words),
            b.write_chunks(from, spelt_line(line, words), row, words),
        ),
    decreases line.chunks.len() - from,
{
    if from < line.chunks.len() {
        let chunk = line.chunks[from];
        let first = from == 0;
        lemma_write_chunk_alike(a, b, first, chunk, row, line.carriage_return, words);
        assert(spelt_line(line, words).chunks[from] == spelt_chunk(chunk, words));
        match (
            a.write_chunk(first, chunk, row, line.carriage_return, words),
            b.write_chunk(
                first,
                spelt_chunk(chunk, words),
                row,
                line.carriage_return,
                words,
            ),
        ) {
            (Some(c), Some(d)) => {
                lemma_write_chunks_alike(c, d, from + 1, line, row, words);
            },
            _ => {},
        }
    }
}

proof fn lemma_write_lines_alike(
    a: Draft,
    b: Draft,
    from: int,
    lines: LinesView,
    row: u32,
    words: Map<u32, u16>,
)
    requires
        0 <= from,
        alike(a, b),
    ensures
        both_alike(
            a.write_lines(from, lines.lines, row, words),
            b.write_lines(from, spelt_lines(lines, words).lines, row, words),
        ),
    decreases lines.lines.len() - from,
{
    if from < lines.lines.len() {
        let line = lines.lines[from];
        let at = Draft::row_of(line, row);
        assert(spelt_lines(lines, words).lines[from] == spelt_line(line, words));
        if at > LAST_ROW {
            let dropped = Notice::LineDropped(from as usize);
            lemma_write_lines_alike(a.note(dropped), b.note(dropped), from + 1, lines, at, words);
        } else {
            let (c, d) = (a.move_to_column(line.column), b.move_to_column(line.column));
            assert(alike(c, d));
            lemma_write_chunks_alike(c, d, 0, line, at, words);
            match (
                c.write_chunks(0, line, at, words),
                d.write_chunks(0, spelt_line(line, words), at, words),
            ) {
                (Some(e), Some(f)) => {
                    lemma_flush_alike(e, f);
                    lemma_write_lines_alike(
                        e.end_line(),
                        f.end_line(),
                        from + 1,
                        lines,
                        next_row(e.pen.mode, at),
                        words,
                    );
                },
                _ => {},
            }
        }
    }
}

/// A carriage return takes no column and no word, and a character without a word is sent as
/// a space: without the ones, and with spaces for the others, a text comes out as the same
/// words, and leaves the decoder told the same.
pub proof fn law_spelling_leaves_the_words(
    pen: Pen,
    column: u32,
    lines: LinesView,
    shown: bool,
    words: Map<u32, u16>,
)
    ensures
        both_alike(
            pen.document(column, lines, shown, words),
            pen.document(column, spelt_lines(lines, words), shown, words),
        ),
{
    let start = pen.opening(column, lines, shown);
    assert(start == pen.opening(column, spelt_lines(lines, words), shown));
    lemma_write_lines_alike(start, start, 0, lines, FIRST_ROW, words);
}

/// With that spelling a buffer is accepted just where it is without it; the same words are
/// sent on the same frames, and the same state is left.
pub proof fn law_spelling_leaves_the_buffer(
    state: State,
    pts: u64,
    duration: u64,
    lines: LinesView,
    words: Map<u32, u16>,
)
    ensures
        ({
            let spelling = spelt_lines(lines, words);
            let (pts, duration) = (pts as int, duration as int);
            let accepted = state.can_generate(pts, duration, lines, words);
            &&& accepted == state.can_generate(pts, duration, spelling, words)
            &&& accepted ==> state.sent(pts, duration, lines, words) == state.sent(
                pts,
                duration,
                spelling,
                words,
            )
            &&& accepted ==> state.generated(pts, duration, lines, words) == state.generated(
                pts,
                duration,
                spelling,
                words,
            )
        }),
{
    law_spelling_leaves_the_words(
        state.pen,
        state.column,
        lines,
        state.shows(pts as int, duration as int),
        words,
    );
}

} // verus!
