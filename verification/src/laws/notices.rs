//! Laws of what is noticed about a text.

use vstd::prelude::*;

use crate::caption::{Cea608Mode, ChunkView, LineView, LinesView};
use crate::compose::{word_of, Draft, Notice, Pen, FIRST_ROW, LAST_COLUMN, LAST_ROW};
use crate::laws::shape::law_line_opens_in_place;
use crate::laws::text::{
    columns, fits_row, law_all_text_is_sent, line_columns, line_text, marks, next_row, payload,
    screen_text, text_words,
};

verus! {

/// Nothing has been noticed as dropped.
pub open spec fn nothing_dropped(draft: Draft) -> bool {
    forall|i: int| 0 <= i < draft.notices.len() ==> #[trigger] draft.notices[i] is NotTranslated
}

/// The text of all lines from the given one on.
pub open spec fn whole_text(from: int, lines: Seq<LineView>) -> Seq<char>
    decreases lines.len() - from,
{
    if from >= lines.len() {
        seq![]
    } else {
        line_text(0, lines[from]) + whole_text(from + 1, lines)
    }
}

/// A character is noticed where it has no word, and in pop-on mode where it fills the last
/// column or one behind it; otherwise nothing is.
pub proof fn law_characters_are_noticed(draft: Draft, c: char, words: Map<u32, u16>)
    ensures
        ({
            let notices = draft.write_character(c, words).notices;
            let n = draft.notices.len() as int;
            let unknown = !words.contains_key(c as u32) || words[c as u32] == 0;
            let full = draft.pen.mode == Cea608Mode::PopOn && draft.col >= 31;
            &&& notices.take(n) == draft.notices
            &&& notices.skip(n) == match (unknown, full) {
                (true, true) => seq![Notice::NotTranslated(c), Notice::RowFull(c)],
                (true, false) => seq![Notice::NotTranslated(c)],
                (false, true) => seq![Notice::RowFull(c)],
                (false, false) => seq![],
            }
        }),
{
    let notices = draft.write_character(c, words).notices;
    assert(notices.take(draft.notices.len() as int) =~= draft.notices);
    assert(notices.skip(draft.notices.len() as int) =~= draft.character_notices(c, words));
}

/// A line on none of the fifteen rows is noticed, and nothing is written of it.
pub proof fn law_lines_off_the_screen_are_noticed(
    draft: Draft,
    line: LineView,
    row: u32,
    words: Map<u32, u16>,
)
    requires
        (match line.row {
            Some(r) => r,
            None => row,
        }) >= 15,
    ensures
        draft.write_lines(0, seq![line], row, words) == Some(
            (Draft { notices: draft.notices.push(Notice::LineDropped(0usize)), ..draft }),
        ),
{
    reveal_with_fuel(Draft::write_lines, 2);
}

/// Writing a character adds to the notices, and in pop-on mode one that fills its row is
/// noticed.
proof fn lemma_character_notices(draft: Draft, c: char, words: Map<u32, u16>)
    requires
        nothing_dropped(draft.write_character(c, words)),
    ensures
        nothing_dropped(draft),
        draft.pen.mode == Cea608Mode::PopOn ==> draft.col < LAST_COLUMN,
{
    let after = draft.write_character(c, words).notices;
    let added = draft.character_notices(c, words);
    assert forall|i: int| 0 <= i < draft.notices.len() implies #[trigger] draft.notices[i]
        is NotTranslated by {
        assert(after[i] == draft.notices[i]);
    }
    if added.len() > 0 {
        assert(after[draft.notices.len() + added.len() - 1] == added.last());
    }
}

proof fn lemma_text_drops_nothing(
    draft: Draft,
    text: Seq<char>,
    chunk: ChunkView,
    row: u32,
    words: Map<u32, u16>,
)
    requires
        draft.write_text(text, chunk, row, words) is Some,
        nothing_dropped(draft.write_text(text, chunk, row, words)->0),
    ensures
        nothing_dropped(draft),
        draft.pen.mode == Cea608Mode::PopOn ==> {
            let done = draft.write_text(text, chunk, row, words)->0;
            &&& done.pen.mode == Cea608Mode::PopOn
            &&& done.col == draft.col + columns(text)
            &&& columns(text) > 0 ==> done.col <= LAST_COLUMN
        },
    decreases text.len(),
{
    if text.len() > 0 {
        let rest = text.drop_first();
        if text[0] == '\r' {
            lemma_text_drops_nothing(draft, rest, chunk, row, words);
        } else {
            let written = draft.write_character(text[0], words);
            if written.col <= LAST_COLUMN {
                lemma_text_drops_nothing(written, rest, chunk, row, words);
            } else if draft.pen.mode != Cea608Mode::PopOn {
                let opened = written.flush().open_line(chunk, row, Some(true));
                lemma_text_drops_nothing(opened, rest, chunk, row, words);
                assert(opened.notices == written.notices);
            }
            lemma_character_notices(draft, text[0], words);
        }
    }
}

proof fn lemma_chunk_drops_nothing(
    draft: Draft,
    first: bool,
    chunk: ChunkView,
    row: u32,
    carriage_return: Option<bool>,
    words: Map<u32, u16>,
)
    requires
        first && draft.pen.mode == Cea608Mode::PopOn ==> 0 <= draft.col,
        draft.write_chunk(first, chunk, row, carriage_return, words) is Some,
        nothing_dropped(draft.write_chunk(first, chunk, row, carriage_return, words)->0),
    ensures
        nothing_dropped(draft),
        draft.pen.mode == Cea608Mode::PopOn ==> {
            let done = draft.write_chunk(first, chunk, row, carriage_return, words)->0;
            let taken = columns(chunk.text) + if first {
                0int
            } else {
                1
            };
            &&& done.pen.mode == Cea608Mode::PopOn
            &&& taken > 0 ==> done.col == draft.col + taken && done.col <= LAST_COLUMN
            &&& taken == 0 ==> done.col == draft.col || done.col >= LAST_COLUMN
        },
{
    let ready = draft.flush();
    let opened = if first {
        ready.open_line(chunk, row, carriage_return)
    } else {
        ready.open_chunk(chunk)
    };
    let spaced = if first {
        ready.continues(chunk, carriage_return)
    } else {
        !ready.changes_style(chunk)
    };
    let text = if spaced {
        seq![' '] + chunk.text
    } else {
        chunk.text
    };
    assert((seq![' '] + chunk.text).drop_first() =~= chunk.text);
    lemma_text_drops_nothing(opened, text, chunk, row, words);
    assert(opened.notices == draft.notices);
    if first && draft.pen.mode == Cea608Mode::PopOn {
        if draft.col <= LAST_COLUMN {
            law_line_opens_in_place(ready, chunk, row, carriage_return);
        } else {
            assert(opened.col >= LAST_COLUMN);
        }
    }
}

proof fn lemma_chunks_drop_nothing(
    draft: Draft,
    from: int,
    line: LineView,
    row: u32,
    words: Map<u32, u16>,
)
    requires
        0 <= from,
        from == 0 && draft.pen.mode == Cea608Mode::PopOn ==> 0 <= draft.col,
        draft.write_chunks(from, line, row, words) is Some,
        nothing_dropped(draft.write_chunks(from, line, row, words)->0),
    ensures
        nothing_dropped(draft),
        line_columns(from, line) >= 0,
        draft.pen.mode == Cea608Mode::PopOn && line_columns(from, line) > 0 ==> draft.col
            + line_columns(from, line) <= LAST_COLUMN,
    decreases line.chunks.len() - from,
{
    if from < line.chunks.len() {
        let chunk = line.chunks[from];
        let next = draft.write_chunk(from == 0, chunk, row, line.carriage_return, words)->0;
        lemma_chunks_drop_nothing(next, from + 1, line, row, words);
        lemma_chunk_drops_nothing(draft, from == 0, chunk, row, line.carriage_return, words);
    }
}

proof fn lemma_line_drops_nothing(draft: Draft, line: LineView, row: u32, words: Map<u32, u16>)
    requires
        draft.move_to_column(line.column).write_chunks(0, line, row, words) is Some,
        nothing_dropped(
            draft.move_to_column(line.column).write_chunks(0, line, row, words)->0.end_line(),
        ),
    ensures
        nothing_dropped(draft),
        draft.pen.mode == Cea608Mode::PopOn ==> fits_row(line),
{
    let moved = draft.move_to_column(line.column);
    let written = moved.write_chunks(0, line, row, words)->0;
    assert(written.end_line().notices == written.notices);
    lemma_chunks_drop_nothing(moved, 0, line, row, words);
    assert(moved.notices == draft.notices);
}

proof fn lemma_lines_drop_nothing(
    draft: Draft,
    from: int,
    lines: Seq<LineView>,
    row: u32,
    words: Map<u32, u16>,
)
    requires
        0 <= from,
        draft.write_lines(from, lines, row, words) is Some,
        nothing_dropped(draft.write_lines(from, lines, row, words)->0),
    ensures
        nothing_dropped(draft),
        draft.pen.mode == Cea608Mode::PopOn ==> forall|i: int|
            from <= i < lines.len() ==> fits_row(#[trigger] lines[i]),
        screen_text(draft.pen.mode, from, lines, row) == whole_text(from, lines),
    decreases lines.len() - from,
{
    if from < lines.len() {
        let line = lines[from];
        let at = Draft::row_of(line, row);
        if at > LAST_ROW {
            let noted = draft.note(Notice::LineDropped(from as usize));
            lemma_lines_drop_nothing(noted, from + 1, lines, at, words);
            assert(noted.notices.last() is LineDropped);
        } else {
            let moved = draft.move_to_column(line.column);
            let written = moved.write_chunks(0, line, at, words)->0;
            moved.lemma_write_chunks_mode(0, line, at, words);
            let below = next_row(draft.pen.mode, at);
            lemma_lines_drop_nothing(written.end_line(), from + 1, lines, below, words);
            lemma_line_drops_nothing(draft, line, at, words);
        }
    }
}

/// What is left out of a text is noticed: where no line and no end of a row is noticed as
/// dropped, the characters sent are those of all lines, in order, but for spaces.
pub proof fn law_what_is_dropped_is_noticed(
    pen: Pen,
    column: u32,
    lines: LinesView,
    shown: bool,
    words: Map<u32, u16>,
)
    requires
        pen.document(column, lines, shown, words) is Some,
        nothing_dropped(pen.document(column, lines, shown, words)->0),
    ensures
        marks(
            payload(pen.document(column, lines, shown, words)->0.codes),
            word_of(words, ' '),
        ) == marks(text_words(whole_text(0, lines.lines), words), word_of(words, ' ')),
{
    let start = pen.opening(column, lines, shown);
    let written = start.write_lines(0, lines.lines, FIRST_ROW, words)->0;
    assert(written.close().notices == written.notices);
    lemma_lines_drop_nothing(start, 0, lines.lines, FIRST_ROW, words);
    law_all_text_is_sent(pen, column, lines, shown, words);
}

} // verus!
