//! Laws of the style that each character is shown in, and of what sets chunks apart.

use vstd::prelude::*;

use crate::caption::{Cea608Mode, ChunkView, LineView, LinesView};
use crate::code::Code;
use crate::compose::{Draft, Pen};
use crate::laws::decoder::{
    basic_word, colour, extended_word, law_word_classes_go_by_their_bytes, shown_as, space_of,
    special_word, Cell, Decoder,
};
use crate::laws::screen::{
    blank_page, in_range, in_step, law_chunk_is_opened_in_its_style, law_screen_shows_the_text,
    law_text_is_shown, mode_of, on_columns, page_of, plain_space, seen, told, Page,
};
use crate::laws::shape::law_extended_characters_overwrite_a_space;
use crate::laws::text::{columns, fits_row, law_word_classes_are_disjoint, line_columns};

verus! {

/// A character as it is shown: its word, style and underline.
pub type Mark = (u16, u32, bool);

/// The characters in columns of the screen, but for spaces.
pub open spec fn cell_marks(cells: Seq<Cell>, space: u16) -> Seq<Mark>
    decreases cells.len(),
{
    if cells.len() == 0 {
        seq![]
    } else {
        let cell = cells.last();
        let mark = (cell.word, cell.style, cell.underline);
        let before = cell_marks(cells.drop_last(), space);
        if cell.word == space {
            before
        } else {
            before.push(mark)
        }
    }
}

/// The characters of a text in the style of its chunk, but for carriage returns and spaces.
pub open spec fn text_marks(
    text: Seq<char>,
    chunk: ChunkView,
    words: Map<u32, u16>,
) -> Seq<Mark>
    decreases text.len(),
{
    if text.len() == 0 {
        seq![]
    } else {
        let rest = text_marks(text.drop_first(), chunk, words);
        let word = shown_as(words, text[0]);
        if text[0] == '\r' || word == space_of(words) {
            rest
        } else {
            seq![(word, colour(chunk.style), chunk.underline)] + rest
        }
    }
}

/// The characters of a line from the given chunk on, each in the style of its chunk.
pub open spec fn line_marks(from: int, line: LineView, words: Map<u32, u16>) -> Seq<Mark>
    decreases line.chunks.len() - from,
{
    if from >= line.chunks.len() {
        seq![]
    } else {
        let chunk = line.chunks[from];
        text_marks(chunk.text, chunk, words) + line_marks(from + 1, line, words)
    }
}

/// The characters of the lines on the screen from the given line on, each in the style of its
/// chunk.
pub open spec fn lines_marks(
    mode: Cea608Mode,
    from: int,
    lines: Seq<LineView>,
    row: int,
    words: Map<u32, u16>,
) -> Seq<Mark>
    decreases lines.len() - from,
{
    if from >= lines.len() {
        seq![]
    } else {
        let line = lines[from];
        let at = match line.row {
            Some(r) => r as int,
            None => row,
        };
        if at >= 15 {
            lines_marks(mode, from + 1, lines, at, words)
        } else {
            line_marks(0, line, words) + lines_marks(
                mode,
                from + 1,
                lines,
                if mode == Cea608Mode::PopOn {
                    at + 1
                } else {
                    at
                },
                words,
            )
        }
    }
}

proof fn lemma_fill_marks(decoder: Decoder, word: u16, resumed: bool, space: u16)
    ensures
        cell_marks(decoder.fill(word, resumed).cells, space) == if word == space {
            cell_marks(decoder.cells, space)
        } else {
            cell_marks(decoder.cells, space).push((word, decoder.style, decoder.underline))
        },
{
    assert(decoder.fill(word, resumed).cells.drop_last() =~= decoder.cells);
}

proof fn lemma_no_columns_no_marks(text: Seq<char>, chunk: ChunkView, words: Map<u32, u16>)
    requires
        columns(text) == 0,
    ensures
        text_marks(text, chunk, words) == Seq::<Mark>::empty(),
    decreases text.len(),
{
    if text.len() > 0 {
        lemma_no_columns_no_marks(text.drop_first(), chunk, words);
    }
}

/// The decoder has the style of a chunk.
spec fn in_style(decoder: Decoder, chunk: ChunkView) -> bool {
    decoder.style == colour(chunk.style) && decoder.underline == chunk.underline
}

proof fn lemma_place_marks(
    decoder: Decoder,
    row: int,
    col: int,
    chunk: ChunkView,
    mode: Cea608Mode,
    words: Map<u32, u16>,
)
    ensures
        ({
            let placed = decoder.place(row, col, chunk, mode, words);
            &&& cell_marks(placed.cells, space_of(words)) == cell_marks(
                decoder.cells,
                space_of(words),
            )
            &&& placed.col == col
            &&& in_style(placed, chunk)
        }),
{
    let there = Decoder {
        col: col - 1,
        row,
        style: colour(chunk.style),
        underline: chunk.underline,
        depth: decoder.place(row, col, chunk, mode, words).depth,
        ..decoder
    };
    lemma_fill_marks(there, space_of(words), false, space_of(words));
}

proof fn lemma_text_in_style(
    decoder: Decoder,
    text: Seq<char>,
    chunk: ChunkView,
    row: int,
    mode: Cea608Mode,
    words: Map<u32, u16>,
)
    requires
        in_style(decoder, chunk),
        0 <= decoder.col,
        mode != Cea608Mode::PopOn ==> decoder.col <= 31,
        mode == Cea608Mode::PopOn ==> columns(text) == 0 || decoder.col + columns(text) <= 32,
    ensures
        ({
            let done = decoder.show_text(text, chunk, row, mode, words);
            &&& cell_marks(done.cells, space_of(words)) == cell_marks(
                decoder.cells,
                space_of(words),
            ) + text_marks(text, chunk, words)
            &&& 0 <= done.col
            &&& mode != Cea608Mode::PopOn ==> done.col <= 31
            &&& mode == Cea608Mode::PopOn ==> done.col == decoder.col + columns(text)
        }),
    decreases text.len(),
{
    let space = space_of(words);
    let before = cell_marks(decoder.cells, space);
    if text.len() == 0 {
        assert(before + text_marks(text, chunk, words) =~= before);
    } else {
        let rest = text.drop_first();
        if text[0] == '\r' {
            lemma_text_in_style(decoder, rest, chunk, row, mode, words);
        } else {
            let word = shown_as(words, text[0]);
            let shown = decoder.show(word);
            let tail = text_marks(rest, chunk, words);
            lemma_fill_marks(decoder, word, special_word(word), space);
            assert(cell_marks(shown.cells, space) + tail =~= before + text_marks(
                text,
                chunk,
                words,
            ));
            if shown.col < 32 {
                lemma_text_in_style(shown, rest, chunk, row, mode, words);
            } else if mode == Cea608Mode::PopOn {
                lemma_no_columns_no_marks(rest, chunk, words);
                assert(cell_marks(shown.cells, space) + tail =~= cell_marks(shown.cells, space));
            } else {
                let rolled = Decoder { line: shown.line + 1, ..shown };
                lemma_place_marks(rolled, row, 0, chunk, mode, words);
                lemma_text_in_style(
                    rolled.place(row, 0, chunk, mode, words),
                    rest,
                    chunk,
                    row,
                    mode,
                    words,
                );
            }
        }
    }
}

proof fn lemma_chunk_in_style(
    page: Page,
    first: bool,
    chunk: ChunkView,
    row: int,
    carriage_return: Option<bool>,
    mode: Cea608Mode,
    words: Map<u32, u16>,
)
    requires
        0 <= page.at.col,
        mode != Cea608Mode::PopOn ==> page.at.col <= 31,
        mode == Cea608Mode::PopOn ==> page.fresh == first,
        mode == Cea608Mode::PopOn ==> (first && columns(chunk.text) == 0) || page.at.col
            + columns(chunk.text) + (if first {
            0int
        } else {
            1
        }) <= 32,
    ensures
        ({
            let done = page.show_chunk(first, chunk, row, carriage_return, mode, words);
            &&& cell_marks(done.at.cells, space_of(words)) == cell_marks(
                page.at.cells,
                space_of(words),
            ) + text_marks(chunk.text, chunk, words)
            &&& !done.fresh
            &&& 0 <= done.at.col
            &&& mode != Cea608Mode::PopOn ==> done.at.col <= 31
            &&& mode == Cea608Mode::PopOn ==> done.at.col == page.at.col + columns(chunk.text)
                + (if first {
                0int
            } else {
                1
            })
        }),
{
    let space = space_of(words);
    let rolls = first && mode != Cea608Mode::PopOn && carriage_return == Some(true);
    if page.fresh || rolls {
        let at = if rolls {
            Decoder { line: page.at.line + 1, col: 0, ..page.at }
        } else {
            page.at
        };
        lemma_place_marks(at, row, at.col, chunk, mode, words);
        lemma_text_in_style(
            at.place(row, at.col, chunk, mode, words),
            chunk.text,
            chunk,
            row,
            mode,
            words,
        );
    } else {
        let spaced = seq![' '] + chunk.text;
        assert(spaced.drop_first() =~= chunk.text);
        let styled = page.at.restyle(chunk);
        let shown = styled.show(shown_as(words, ' '));
        lemma_fill_marks(styled, space, special_word(space), space);
        if shown.col < 32 {
            lemma_text_in_style(shown, chunk.text, chunk, row, mode, words);
        } else if mode == Cea608Mode::PopOn {
            lemma_no_columns_no_marks(chunk.text, chunk, words);
            assert(cell_marks(page.at.cells, space) + text_marks(chunk.text, chunk, words)
                =~= cell_marks(page.at.cells, space));
        } else {
            let rolled = Decoder { line: shown.line + 1, ..shown };
            lemma_place_marks(rolled, row, 0, chunk, mode, words);
            lemma_text_in_style(
                rolled.place(row, 0, chunk, mode, words),
                chunk.text,
                chunk,
                row,
                mode,
                words,
            );
        }
    }
}

proof fn lemma_columns_add_up(from: int, line: LineView)
    ensures
        line_columns(from, line) >= 0,
    decreases line.chunks.len() - from,
{
    if from < line.chunks.len() {
        lemma_columns_add_up(from + 1, line);
    }
}

proof fn lemma_chunks_in_style(
    page: Page,
    from: int,
    line: LineView,
    row: int,
    mode: Cea608Mode,
    words: Map<u32, u16>,
)
    requires
        0 <= from,
        0 <= page.at.col,
        mode != Cea608Mode::PopOn ==> page.at.col <= 31,
        mode == Cea608Mode::PopOn ==> page.fresh == (from == 0),
        mode == Cea608Mode::PopOn ==> line_columns(from, line) == 0 || page.at.col
            + line_columns(from, line) <= 32,
    ensures
        ({
            let done = page.show_chunks(from, line, row, mode, words);
            &&& cell_marks(done.at.cells, space_of(words)) == cell_marks(
                page.at.cells,
                space_of(words),
            ) + line_marks(from, line, words)
            &&& mode != Cea608Mode::PopOn ==> 0 <= done.at.col <= 31
        }),
    decreases line.chunks.len() - from,
{
    let before = cell_marks(page.at.cells, space_of(words));
    if from >= line.chunks.len() {
        assert(before + line_marks(from, line, words) =~= before);
    } else {
        let chunk = line.chunks[from];
        let first = from == 0;
        lemma_columns_add_up(from + 1, line);
        assert(from > 0 ==> line_columns(from, line) > 0);
        lemma_chunk_in_style(page, first, chunk, row, line.carriage_return, mode, words);
        let next = page.show_chunk(first, chunk, row, line.carriage_return, mode, words);
        lemma_chunks_in_style(next, from + 1, line, row, mode, words);
        assert(before + text_marks(chunk.text, chunk, words) + line_marks(from + 1, line, words)
            =~= before + line_marks(from, line, words));
    }
}

proof fn lemma_lines_in_style(
    page: Page,
    from: int,
    lines: Seq<LineView>,
    row: int,
    mode: Cea608Mode,
    words: Map<u32, u16>,
)
    requires
        0 <= from,
        mode != Cea608Mode::PopOn ==> 0 <= page.at.col <= 31,
        forall|i: int| from <= i < lines.len() ==> on_columns(#[trigger] lines[i]),
        mode == Cea608Mode::PopOn ==> forall|i: int|
            from <= i < lines.len() ==> fits_row(#[trigger] lines[i]),
    ensures
        cell_marks(
            page.show_lines(from, lines, row, mode, words).at.cells,
            space_of(words),
        ) == cell_marks(page.at.cells, space_of(words)) + lines_marks(
            mode,
            from,
            lines,
            row,
            words,
        ),
    decreases lines.len() - from,
{
    let before = cell_marks(page.at.cells, space_of(words));
    if from >= lines.len() {
        assert(before + lines_marks(mode, from, lines, row, words) =~= before);
    } else {
        let line = lines[from];
        assert(on_columns(line));
        assert(mode == Cea608Mode::PopOn ==> fits_row(line));
        let at = match line.row {
            Some(r) => r as int,
            None => row,
        };
        if at >= 15 {
            lemma_lines_in_style(page, from + 1, lines, at, mode, words);
        } else {
            let there = page.go_to(line.column, mode);
            let below = if mode == Cea608Mode::PopOn {
                at + 1
            } else {
                at
            };
            lemma_chunks_in_style(there, 0, line, at, mode, words);
            let next = there.show_chunks(0, line, at, mode, words);
            lemma_lines_in_style(next, from + 1, lines, below, mode, words);
            assert(before + line_marks(0, line, words) + lines_marks(
                mode,
                from + 1,
                lines,
                below,
                words,
            ) =~= before + lines_marks(mode, from, lines, row, words));
        }
    }
}

/// Every character is shown in the colour, the italics and the underline of its chunk, white
/// included: but for spaces, what a decoder shows of a text are the characters of the chunks
/// on the screen, in order, each in the style of its chunk. In roll-up modes that holds of
/// every text, in pop-on mode of lines that take no column past the end of their row.
pub proof fn law_every_character_is_shown_in_its_style(
    pen: Pen,
    column: u32,
    lines: LinesView,
    shown: bool,
    words: Map<u32, u16>,
    decoder: Decoder,
)
    requires
        pen.document(column, lines, shown, words) is Some,
        in_step(pen, column as int, decoder),
        pen.mode == Cea608Mode::PopOn || column < 32,
        plain_space(words),
        forall|i: int| 0 <= i < lines.lines.len() ==> on_columns(#[trigger] lines.lines[i]),
        mode_of(pen, lines) == Cea608Mode::PopOn ==> forall|i: int|
            0 <= i < lines.lines.len() ==> fits_row(#[trigger] lines.lines[i]),
    ensures
        ({
            let codes = pen.document(column, lines, shown, words)->0.codes;
            let after = Decoder { cells: seq![], ..decoder }.receive(codes, space_of(words));
            cell_marks(after.cells, space_of(words)) == lines_marks(
                mode_of(pen, lines),
                0,
                lines.lines,
                13,
                words,
            )
        }),
{
    law_screen_shows_the_text(pen, column, lines, shown, words, decoder);
    let page = blank_page(pen, column, lines, decoder);
    let mode = mode_of(pen, lines);
    lemma_lines_in_style(page, 0, lines.lines, 13, mode, words);
    let all = lines_marks(mode, 0, lines.lines, 13, words);
    assert(cell_marks(page.at.cells, space_of(words)) =~= Seq::<Mark>::empty());
    assert(Seq::<Mark>::empty() + all =~= all);
    assert(page_of(pen, column, lines, decoder, words) == page.show_lines(
        0,
        lines.lines,
        13,
        mode,
        words,
    ));
}

/// Showing text adds columns behind those that are filled.
proof fn lemma_show_text_adds(
    decoder: Decoder,
    text: Seq<char>,
    chunk: ChunkView,
    row: int,
    mode: Cea608Mode,
    words: Map<u32, u16>,
)
    ensures
        ({
            let cells = decoder.show_text(text, chunk, row, mode, words).cells;
            &&& cells.len() >= decoder.cells.len()
            &&& forall|i: int|
                0 <= i < decoder.cells.len() ==> #[trigger] cells[i] == decoder.cells[i]
        }),
    decreases text.len(),
{
    if text.len() > 0 {
        let rest = text.drop_first();
        lemma_show_text_adds(decoder, rest, chunk, row, mode, words);
        let shown = decoder.show(shown_as(words, text[0]));
        lemma_show_text_adds(shown, rest, chunk, row, mode, words);
        let next = Decoder { line: shown.line + 1, ..shown }.place(row, 0, chunk, mode, words);
        lemma_show_text_adds(next, rest, chunk, row, mode, words);
        let cells = decoder.show_text(text, chunk, row, mode, words).cells;
        assert forall|i: int| 0 <= i < decoder.cells.len() implies #[trigger] cells[i]
            == decoder.cells[i] by {
            assert(shown.cells[i] == decoder.cells[i]);
            assert(next.cells[i] == decoder.cells[i]);
        }
    }
}

/// Chunks that follow each other on a line, and lines that go on behind each other, are set
/// apart by one blank column: where no preamble puts the cursor elsewhere, the column right
/// behind the text before is blank, and the text of the chunk comes behind it.
pub proof fn law_chunks_are_set_apart(
    decoder: Decoder,
    draft: Draft,
    first: bool,
    chunk: ChunkView,
    row: u32,
    carriage_return: Option<bool>,
    words: Map<u32, u16>,
)
    requires
        told(decoder, draft, words),
        in_range(draft),
        row <= 14,
        plain_space(words),
        first ==> draft.pen.mode != Cea608Mode::PopOn && carriage_return != Some(true),
        draft.write_chunk(first, chunk, row, carriage_return, words) is Some,
    ensures
        ({
            let before = seen(decoder, draft, words);
            let done = draft.write_chunk(first, chunk, row, carriage_return, words)->0;
            let after = seen(decoder, done, words);
            let n = before.cells.len() as int;
            &&& after.cells.len() > n
            &&& forall|i: int| 0 <= i < n ==> #[trigger] after.cells[i] == before.cells[i]
            &&& after.cells[n].word == space_of(words)
            &&& after.cells[n].line == before.line
            &&& after.cells[n].row == before.row
            &&& after.cells[n].col == before.col
        }),
{
    let ready = draft.flush();
    let s = seen(decoder, ready, words);
    assert(s == seen(decoder, draft, words));
    assert(told(decoder, ready, words));
    law_chunk_is_opened_in_its_style(decoder, ready, chunk, words);
    let opened = ready.open_chunk(chunk);
    let mode = draft.pen.mode;
    let spaced = seq![' '] + chunk.text;
    if ready.changes_style(chunk) {
        law_text_is_shown(decoder, opened, chunk.text, chunk, row, words);
        lemma_show_text_adds(
            seen(decoder, opened, words),
            chunk.text,
            chunk,
            row as int,
            mode,
            words,
        );
        assert(seen(decoder, opened, words).cells[s.cells.len() as int].word == space_of(words));
    } else {
        law_text_is_shown(decoder, ready, spaced, chunk, row, words);
        assert(spaced.drop_first() =~= chunk.text);
        let here = s.show(shown_as(words, ' '));
        let next = Decoder { line: here.line + 1, ..here }.place(
            row as int,
            0,
            chunk,
            mode,
            words,
        );
        lemma_show_text_adds(here, chunk.text, chunk, row as int, mode, words);
        lemma_show_text_adds(next, chunk.text, chunk, row as int, mode, words);
        assert(here.cells[s.cells.len() as int].word == space_of(words));
        assert(next.cells[s.cells.len() as int] == here.cells[s.cells.len() as int]);
        assert forall|i: int| 0 <= i < s.cells.len() implies #[trigger] here.cells[i]
            == s.cells[i] && next.cells[i] == s.cells[i] by {}
    }
}

/// Basic characters share words: a run of them on a row takes a word for each two, and one
/// for the last of an odd number.
pub proof fn law_basic_characters_share_words(
    draft: Draft,
    text: Seq<char>,
    chunk: ChunkView,
    row: u32,
    words: Map<u32, u16>,
)
    requires
        draft.pending == 0 || basic_word(draft.pending),
        0 <= draft.col,
        draft.col + text.len() < 32,
        forall|i: int|
            0 <= i < text.len() ==> #[trigger] text[i] != '\r' && basic_word(
                shown_as(words, text[i]),
            ),
    ensures
        ({
            let done = draft.write_text(text, chunk, row, words);
            let count = text.len() + if draft.pending == 0 {
                0int
            } else {
                1
            };
            &&& done is Some
            &&& done->0.codes.len() == draft.codes.len() + count / 2
            &&& done->0.pending == 0 <==> count % 2 == 0
            &&& done->0.flush().codes.len() == draft.codes.len() + (count + 1) / 2
            &&& done->0.col == draft.col + text.len()
        }),
    decreases text.len(),
{
    if text.len() > 0 {
        let rest = text.drop_first();
        let word = shown_as(words, text[0]);
        assert(text[0] != '\r' && basic_word(word));
        law_word_classes_go_by_their_bytes(word);
        law_word_classes_go_by_their_bytes(draft.pending);
        law_word_classes_are_disjoint(word);
        law_word_classes_are_disjoint(draft.pending);
        assert forall|i: int| 0 <= i < rest.len() implies #[trigger] rest[i] != '\r'
            && basic_word(shown_as(words, rest[i])) by {
            assert(text[i + 1] == rest[i]);
        }
        law_basic_characters_share_words(
            draft.write_character(text[0], words),
            rest,
            chunk,
            row,
            words,
        );
    }
}

/// Every word of an extended character, told by its bytes, comes right behind a space, which
/// it overwrites.
pub proof fn law_extended_words_come_behind_a_space(
    pen: Pen,
    column: u32,
    lines: LinesView,
    shown: bool,
    words: Map<u32, u16>,
)
    requires
        pen.document(column, lines, shown, words) is Some,
        !extended_word(space_of(words)),
    ensures
        ({
            let codes = pen.document(column, lines, shown, words)->0.codes;
            forall|i: int|
                0 <= i < codes.len() && (#[trigger] codes[i] matches Code::Word(word)
                    && extended_word(word)) ==> i > 0 && match codes[i - 1] {
                    Code::Word(word) => word == space_of(words),
                    Code::BasicNa { second, .. } => second == space_of(words),
                    _ => false,
                }
        }),
{
    let codes = pen.document(column, lines, shown, words)->0.codes;
    law_word_classes_go_by_their_bytes(space_of(words));
    law_extended_characters_overwrite_a_space(pen, column, lines, shown, words);
    assert forall|i: int|
        0 <= i < codes.len() && (#[trigger] codes[i] matches Code::Word(word) && extended_word(
            word,
        )) implies i > 0 && match codes[i - 1] {
        Code::Word(word) => word == space_of(words),
        Code::BasicNa { second, .. } => second == space_of(words),
        _ => false,
    } by {
        law_word_classes_go_by_their_bytes(codes[i]->Word_0);
    }
}

} // verus!
