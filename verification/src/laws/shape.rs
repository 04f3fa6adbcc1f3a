//! Laws of the order and the place of words.

use vstd::prelude::*;

use crate::caption::{Cea608Mode, ChunkView, LineView, LinesView, TextStyle};
use crate::code::{basicna, westeu, Code, ControlCommand};
use crate::compose::{
    glyph, roll_up_codes, tab_codes, word_of, Draft, Notice, Pen, FIRST_ROW, LAST_COLUMN,
    LAST_ROW,
};
use crate::laws::text::{law_word_classes_are_disjoint, next_row, pending_is_basic};

verus! {

/// A word that a space ends.
pub open spec fn ends_with_space(code: Code, space: u16) -> bool {
    match code {
        Code::Word(word) => word == space,
        Code::BasicNa { second, .. } => second == space,
        _ => false,
    }
}

/// Every extended character, which overwrites the one before it, comes right behind a space.
pub open spec fn extended_behind_space(codes: Seq<Code>, space: u16) -> bool {
    forall|i: int|
        0 <= i < codes.len() && (#[trigger] codes[i] matches Code::Word(word) && westeu(word))
            ==> i > 0 && ends_with_space(codes[i - 1], space)
}

/// Every preamble names a row of the screen.
pub open spec fn rows_on_screen(codes: Seq<Code>) -> bool {
    forall|i: int|
        0 <= i < codes.len() ==> match #[trigger] codes[i] {
            Code::RowColumnPreamble { row, .. } => 0 <= row <= LAST_ROW,
            Code::RowStylePreamble { row, .. } => 0 <= row <= LAST_ROW,
            _ => true,
        }
}

/// A code that neither erases a memory nor shows a caption.
pub open spec fn leaves_screen(code: Code) -> bool {
    &&& code != Code::Control(ControlCommand::EraseDisplayMemory)
    &&& code != Code::Control(ControlCommand::EraseNonDisplayedMemory)
    &&& code != Code::Control(ControlCommand::EndOfCaption)
}

/// What every step of writing keeps: what was written before, that nothing is erased or
/// shown behind it, and the two laws above.
pub open spec fn keeps(base: Seq<Code>, draft: Draft, space: u16) -> bool {
    &&& base.is_prefix_of(draft.codes)
    &&& forall|i: int|
        base.len() <= i < draft.codes.len() ==> leaves_screen(#[trigger] draft.codes[i])
    &&& westeu(space) || extended_behind_space(draft.codes, space)
    &&& rows_on_screen(draft.codes)
    &&& pending_is_basic(draft)
}

/// A code that any code may come before.
pub open spec fn free_code(code: Code) -> bool {
    match code {
        Code::Word(word) => !westeu(word),
        Code::RowColumnPreamble { row, .. } => 0 <= row <= LAST_ROW,
        Code::RowStylePreamble { row, .. } => 0 <= row <= LAST_ROW,
        _ => leaves_screen(code),
    }
}

proof fn lemma_keeps_put(base: Seq<Code>, draft: Draft, code: Code, space: u16)
    requires
        keeps(base, draft, space),
        free_code(code) || (code is Word) && (westeu(space) || draft.codes.len() > 0
            && ends_with_space(draft.codes.last(), space)),
    ensures
        keeps(base, draft.put(code), space),
{
    let codes = draft.codes.push(code);
    if !westeu(space) {
        assert forall|i: int|
            0 <= i < codes.len() && (#[trigger] codes[i] matches Code::Word(word) && westeu(
                word,
            )) implies i > 0 && ends_with_space(codes[i - 1], space) by {
            if i < draft.codes.len() {
                assert(codes[i] == draft.codes[i]);
            }
        }
    }
    assert forall|i: int| 0 <= i < codes.len() implies match #[trigger] codes[i] {
        Code::RowColumnPreamble { row, .. } => 0 <= row <= LAST_ROW,
        Code::RowStylePreamble { row, .. } => 0 <= row <= LAST_ROW,
        _ => true,
    } by {
        if i < draft.codes.len() {
            assert(codes[i] == draft.codes[i]);
        }
    }
    assert forall|i: int| base.len() <= i < codes.len() implies leaves_screen(
        #[trigger] codes[i],
    ) by {
        if i < draft.codes.len() {
            assert(codes[i] == draft.codes[i]);
        }
    }
}

proof fn lemma_keeps_put_all(base: Seq<Code>, draft: Draft, codes: Seq<Code>, space: u16)
    requires
        keeps(base, draft, space),
        codes.len() <= 1,
        codes.len() == 1 ==> free_code(codes[0]),
    ensures
        keeps(base, draft.put_all(codes), space),
{
    if codes.len() == 0 {
        assert(draft.codes + codes =~= draft.codes);
    } else {
        assert(draft.codes + codes =~= draft.codes.push(codes[0]));
        lemma_keeps_put(base, draft, codes[0], space);
    }
}

proof fn lemma_keeps_flush(base: Seq<Code>, draft: Draft, space: u16)
    requires
        keeps(base, draft, space),
    ensures
        keeps(base, draft.flush(), space),
{
    law_word_classes_are_disjoint(draft.pending);
    if draft.pending != 0 {
        lemma_keeps_put(base, draft, Code::Word(draft.pending), space);
        let done = draft.put(Code::Word(draft.pending));
        assert(keeps(base, Draft { pending: 0, ..done }, space));
    }
}

proof fn lemma_keeps_open_chunk(base: Seq<Code>, draft: Draft, chunk: ChunkView, space: u16)
    requires
        keeps(base, draft, space),
    ensures
        keeps(base, draft.open_chunk(chunk), space),
{
    lemma_keeps_put(
        base,
        draft,
        Code::MidrowChange { style: chunk.style.number(), underline: chunk.underline },
        space,
    );
}

proof fn lemma_keeps_preamble(
    base: Seq<Code>,
    draft: Draft,
    chunk: ChunkView,
    row: u32,
    space: u16,
)
    requires
        keeps(base, draft, space),
        row <= LAST_ROW,
    ensures
        keeps(base, draft.preamble(chunk, row), space),
{
    let styled = chunk.style != TextStyle::White;
    let style_first = styled && draft.col < 4;
    let at = if styled && !style_first {
        draft.col - 1
    } else {
        draft.col
    };
    let announced = draft.put_all(roll_up_codes(draft.pen.mode));
    let place = if style_first {
        Code::RowStylePreamble {
            row: row as i32,
            style: chunk.style.number(),
            underline: chunk.underline,
        }
    } else {
        Code::RowColumnPreamble {
            row: row as i32,
            col: (at / 4 * 4) as i32,
            underline: chunk.underline,
        }
    };
    lemma_keeps_put_all(base, draft, roll_up_codes(draft.pen.mode), space);
    lemma_keeps_put(base, announced, place, space);
    lemma_keeps_put_all(base, announced.put(place), tab_codes(at % 4), space);
    assert(draft.preamble(chunk, row).codes == announced.put(place).put_all(
        tab_codes(at % 4),
    ).codes);
}

proof fn lemma_keeps_open_line(
    base: Seq<Code>,
    draft: Draft,
    chunk: ChunkView,
    row: u32,
    carriage_return: Option<bool>,
    space: u16,
)
    requires
        keeps(base, draft, space),
        row <= LAST_ROW,
    ensures
        keeps(base, draft.open_line(chunk, row, carriage_return), space),
{
    if draft.rolls_up(carriage_return) {
        let code = Code::Control(ControlCommand::CarriageReturn);
        lemma_keeps_put(base, draft, code, space);
        let returned = Draft { col: 0, ..draft.put(code) };
        assert(keeps(base, returned, space));
        lemma_keeps_preamble(base, returned, chunk, row, space);
        lemma_keeps_open_chunk(base, returned.preamble(chunk, row), chunk, space);
    } else if draft.needs_preamble(carriage_return) {
        lemma_keeps_preamble(base, draft, chunk, row, space);
        lemma_keeps_open_chunk(base, draft.preamble(chunk, row), chunk, space);
    } else {
        lemma_keeps_open_chunk(base, draft, chunk, space);
    }
}

proof fn lemma_keeps_put_word(base: Seq<Code>, draft: Draft, word: u16, space: u16)
    requires
        keeps(base, draft, space),
    ensures
        keeps(base, draft.put_word(word, space), space),
{
    law_word_classes_are_disjoint(word);
    law_word_classes_are_disjoint(draft.pending);
    let done = draft.put_character(word, space);
    if basicna(draft.pending) {
        if basicna(word) {
            let pair = Code::BasicNa { first: draft.pending, second: word };
            lemma_keeps_put(base, draft, pair, space);
            assert(keeps(base, Draft { pending: 0, ..draft.put(pair) }, space));
        } else if westeu(word) {
            let dummy = Code::BasicNa { first: draft.pending, second: space };
            lemma_keeps_put(base, draft, dummy, space);
            lemma_keeps_put(base, draft.put(dummy), Code::Word(word), space);
            assert(keeps(
                base,
                Draft { pending: 0, ..draft.put(dummy).put(Code::Word(word)) },
                space,
            ));
        } else {
            let alone = Code::Word(draft.pending);
            lemma_keeps_put(base, draft, alone, space);
            lemma_keeps_put(base, draft.put(alone), Code::Word(word), space);
            assert(keeps(
                base,
                Draft { pending: 0, ..draft.put(alone).put(Code::Word(word)) },
                space,
            ));
        }
    } else if westeu(word) {
        lemma_keeps_put(base, draft, Code::Word(space), space);
        lemma_keeps_put(base, draft.put(Code::Word(space)), Code::Word(word), space);
    } else if basicna(word) {
        assert(keeps(base, Draft { pending: word, ..draft }, space));
    } else {
        lemma_keeps_put(base, draft, Code::Word(word), space);
    }
    assert(keeps(base, done, space));
    lemma_keeps_put(base, done, Code::Control(ControlCommand::ResumeCaptionLoading), space);
}

proof fn lemma_keeps_write_text(
    base: Seq<Code>,
    draft: Draft,
    text: Seq<char>,
    chunk: ChunkView,
    row: u32,
    words: Map<u32, u16>,
)
    requires
        keeps(base, draft, word_of(words, ' ')),
        row <= LAST_ROW,
        draft.write_text(text, chunk, row, words) is Some,
    ensures
        keeps(base, draft.write_text(text, chunk, row, words)->0, word_of(words, ' ')),
    decreases text.len(),
{
    if text.len() > 0 {
        let rest = text.drop_first();
        if text[0] == '\r' {
            lemma_keeps_write_text(base, draft, rest, chunk, row, words);
        } else {
            let space = word_of(words, ' ');
            let put = draft.put_word(glyph(words, text[0]), space);
            lemma_keeps_put_word(base, draft, glyph(words, text[0]), space);
            let written = draft.write_character(text[0], words);
            assert(keeps(base, written, space));
            if written.col <= LAST_COLUMN {
                lemma_keeps_write_text(base, written, rest, chunk, row, words);
            } else if draft.pen.mode != Cea608Mode::PopOn {
                lemma_keeps_flush(base, written, space);
                lemma_keeps_open_line(base, written.flush(), chunk, row, Some(true), space);
                lemma_keeps_write_text(
                    base,
                    written.flush().open_line(chunk, row, Some(true)),
                    rest,
                    chunk,
                    row,
                    words,
                );
            }
        }
    }
}

proof fn lemma_keeps_write_chunks(
    base: Seq<Code>,
    draft: Draft,
    from: int,
    line: LineView,
    row: u32,
    words: Map<u32, u16>,
)
    requires
        keeps(base, draft, word_of(words, ' ')),
        row <= LAST_ROW,
        draft.write_chunks(from, line, row, words) is Some,
    ensures
        keeps(base, draft.write_chunks(from, line, row, words)->0, word_of(words, ' ')),
    decreases line.chunks.len() - from,
{
    if from < line.chunks.len() {
        let space = word_of(words, ' ');
        let chunk = line.chunks[from];
        let ready = draft.flush();
        lemma_keeps_flush(base, draft, space);
        lemma_keeps_open_line(base, ready, chunk, row, line.carriage_return, space);
        lemma_keeps_open_chunk(base, ready, chunk, space);
        let opened = if from == 0 {
            ready.open_line(chunk, row, line.carriage_return)
        } else {
            ready.open_chunk(chunk)
        };
        let spaced = if from == 0 {
            ready.continues(chunk, line.carriage_return)
        } else {
            !ready.changes_style(chunk)
        };
        let text = if spaced {
            seq![' '] + chunk.text
        } else {
            chunk.text
        };
        lemma_keeps_write_text(base, opened, text, chunk, row, words);
        lemma_keeps_write_chunks(
            base,
            opened.write_text(text, chunk, row, words)->0,
            from + 1,
            line,
            row,
            words,
        );
    }
}

proof fn lemma_keeps_write_lines(
    base: Seq<Code>,
    draft: Draft,
    from: int,
    lines: Seq<LineView>,
    row: u32,
    words: Map<u32, u16>,
)
    requires
        keeps(base, draft, word_of(words, ' ')),
        draft.write_lines(from, lines, row, words) is Some,
    ensures
        keeps(base, draft.write_lines(from, lines, row, words)->0, word_of(words, ' ')),
    decreases lines.len() - from,
{
    if from < lines.len() {
        let space = word_of(words, ' ');
        let line = lines[from];
        let at = Draft::row_of(line, row);
        if at > LAST_ROW {
            let noted = draft.note(Notice::LineDropped(from as usize));
            assert(keeps(base, noted, space));
            lemma_keeps_write_lines(base, noted, from + 1, lines, at, words);
        } else {
            let moved = draft.move_to_column(line.column);
            assert(keeps(base, moved, space));
            lemma_keeps_write_chunks(base, moved, 0, line, at, words);
            let written = moved.write_chunks(0, line, at, words)->0;
            lemma_keeps_flush(base, written, space);
            lemma_keeps_write_lines(
                base,
                written.end_line(),
                from + 1,
                lines,
                next_row(written.pen.mode, at),
                words,
            );
        }
    }
}

/// A text is its opening, what is written behind that, and in pop-on mode the command that
/// shows it.
proof fn lemma_document_keeps(
    pen: Pen,
    column: u32,
    lines: LinesView,
    shown: bool,
    words: Map<u32, u16>,
) -> (body: Draft)
    requires
        pen.document(column, lines, shown, words) is Some,
    ensures
        keeps(pen.opening(column, lines, shown).codes, body, word_of(words, ' ')),
        pen.document(column, lines, shown, words)->0.codes == if pen.target(lines)
            == Cea608Mode::PopOn {
            body.codes.push(Code::Control(ControlCommand::EndOfCaption))
        } else {
            body.codes
        },
        forall|i: int|
            0 <= i < pen.opening(column, lines, shown).codes.len() ==> #[trigger] body.codes[i]
                == pen.opening(column, lines, shown).codes[i],
{
    let space = word_of(words, ' ');
    let start = pen.opening(column, lines, shown);
    assert(keeps(start.codes, start, space));
    lemma_keeps_write_lines(start.codes, start, 0, lines.lines, FIRST_ROW, words);
    start.lemma_write_lines_mode(0, lines.lines, FIRST_ROW, words);
    let written = start.write_lines(0, lines.lines, FIRST_ROW, words)->0;
    lemma_keeps_flush(start.codes, written, space);
    let body = written.flush();
    assert(start.codes == body.codes.subrange(0, start.codes.len() as int));
    assert forall|i: int| 0 <= i < start.codes.len() implies #[trigger] body.codes[i]
        == start.codes[i] by {
        assert(start.codes[i] == body.codes.subrange(0, start.codes.len() as int)[i]);
    }
    body
}

/// Every extended character of a text comes right behind a space, which it overwrites; a
/// space is no extended character itself.
pub proof fn law_extended_characters_overwrite_a_space(
    pen: Pen,
    column: u32,
    lines: LinesView,
    shown: bool,
    words: Map<u32, u16>,
)
    requires
        pen.document(column, lines, shown, words) is Some,
        !westeu(word_of(words, ' ')),
    ensures
        extended_behind_space(
            pen.document(column, lines, shown, words)->0.codes,
            word_of(words, ' '),
        ),
{
    let space = word_of(words, ' ');
    let codes = pen.document(column, lines, shown, words)->0.codes;
    let body = lemma_document_keeps(pen, column, lines, shown, words);
    assert forall|i: int|
        0 <= i < codes.len() && (#[trigger] codes[i] matches Code::Word(word) && westeu(
            word,
        )) implies i > 0 && ends_with_space(codes[i - 1], space) by {
        assert(codes[i] == body.codes[i]);
    }
}

/// No line is placed outside the rows of the screen.
pub proof fn law_lines_stay_on_screen(
    pen: Pen,
    column: u32,
    lines: LinesView,
    shown: bool,
    words: Map<u32, u16>,
)
    requires
        pen.document(column, lines, shown, words) is Some,
    ensures
        rows_on_screen(pen.document(column, lines, shown, words)->0.codes),
{
    let codes = pen.document(column, lines, shown, words)->0.codes;
    let body = lemma_document_keeps(pen, column, lines, shown, words);
    assert forall|i: int| 0 <= i < codes.len() implies match #[trigger] codes[i] {
        Code::RowColumnPreamble { row, .. } => 0 <= row <= LAST_ROW,
        Code::RowStylePreamble { row, .. } => 0 <= row <= LAST_ROW,
        _ => true,
    } by {
        if i < body.codes.len() {
            assert(codes[i] == body.codes[i]);
        }
    }
}

/// The display is erased at most once for a text, before all its other words: on the way to
/// or from pop-on mode, where the text asks for a clear display, and before a pop-on text
/// while a caption is shown. Otherwise it is not erased at all.
pub proof fn law_display_is_erased_first_or_not_at_all(
    pen: Pen,
    column: u32,
    lines: LinesView,
    shown: bool,
    words: Map<u32, u16>,
)
    requires
        pen.document(column, lines, shown, words) is Some,
    ensures
        ({
            let codes = pen.document(column, lines, shown, words)->0.codes;
            let erases = {
                ||| pen.crosses_pop_on(lines)
                ||| lines.clear == Some(true)
                ||| pen.target(lines) == Cea608Mode::PopOn && shown
            };
            &&& erases == pen.erases(lines, shown)
            &&& erases ==> codes.len() > 0
            &&& forall|i: int|
                0 <= i < codes.len() ==> (#[trigger] codes[i] == Code::Control(
                    ControlCommand::EraseDisplayMemory,
                ) <==> i == 0 && erases)
        }),
{
    let start = pen.opening(column, lines, shown).codes;
    let codes = pen.document(column, lines, shown, words)->0.codes;
    let body = lemma_document_keeps(pen, column, lines, shown, words);
    assert forall|i: int| 0 <= i < codes.len() implies (#[trigger] codes[i] == Code::Control(
        ControlCommand::EraseDisplayMemory,
    ) <==> i == 0 && pen.erases(lines, shown)) by {
        if i < body.codes.len() {
            assert(codes[i] == body.codes[i]);
            if i < start.len() {
                assert(body.codes[i] == start[i]);
            }
        }
    }
}

/// A pop-on caption is loaded out of sight, into a memory that is erased first, and shown
/// when it is complete. A caption that is still shown is erased before that. The memory is
/// erased once and the caption is shown once, however many lines it has.
pub proof fn law_pop_on_captions_are_loaded_then_shown(
    pen: Pen,
    column: u32,
    lines: LinesView,
    shown: bool,
    words: Map<u32, u16>,
)
    requires
        pen.document(column, lines, shown, words) is Some,
        pen.target(lines) == Cea608Mode::PopOn,
    ensures
        ({
            let codes = pen.document(column, lines, shown, words)->0.codes;
            let at: int = if pen.erases(lines, shown) {
                1
            } else {
                0
            };
            &&& codes.len() >= at + 3
            &&& at == 1 ==> codes[0] == Code::Control(ControlCommand::EraseDisplayMemory)
            &&& shown ==> at == 1
            &&& codes[at] == Code::Control(ControlCommand::ResumeCaptionLoading)
            &&& forall|i: int|
                0 <= i < codes.len() ==> (#[trigger] codes[i] == Code::Control(
                    ControlCommand::EraseNonDisplayedMemory,
                ) <==> i == at + 1)
            &&& forall|i: int|
                0 <= i < codes.len() ==> (#[trigger] codes[i] == Code::Control(
                    ControlCommand::EndOfCaption,
                ) <==> i == codes.len() - 1)
        }),
{
    let start = pen.opening(column, lines, shown).codes;
    let codes = pen.document(column, lines, shown, words)->0.codes;
    let body = lemma_document_keeps(pen, column, lines, shown, words);
    assert forall|i: int| 0 <= i < body.codes.len() implies #[trigger] codes[i]
        == body.codes[i] by {}
    assert forall|i: int| 0 <= i < codes.len() implies (#[trigger] codes[i] == Code::Control(
        ControlCommand::EraseNonDisplayedMemory,
    ) <==> i == start.len() - 1) && (codes[i] == Code::Control(ControlCommand::EndOfCaption)
        <==> i == codes.len() - 1) by {
        if i < body.codes.len() {
            assert(codes[i] == body.codes[i]);
            if i < start.len() {
                assert(body.codes[i] == start[i]);
            }
        }
    }
    if start.len() == 3 {
        assert(body.codes[0] == start[0]);
        assert(body.codes[1] == start[1]);
    } else {
        assert(body.codes[0] == start[0]);
    }
}

/// A roll-up text goes straight to the display: no memory out of sight is erased for it, and
/// there is no caption to show.
pub proof fn law_roll_up_text_is_not_loaded(
    pen: Pen,
    column: u32,
    lines: LinesView,
    shown: bool,
    words: Map<u32, u16>,
    i: int,
)
    requires
        pen.document(column, lines, shown, words) is Some,
        pen.target(lines) != Cea608Mode::PopOn,
        0 <= i < pen.document(column, lines, shown, words)->0.codes.len(),
    ensures
        ({
            let codes = pen.document(column, lines, shown, words)->0.codes;
            &&& codes[i] != Code::Control(ControlCommand::EraseNonDisplayedMemory)
            &&& codes[i] != Code::Control(ControlCommand::EndOfCaption)
        }),
{
    let start = pen.opening(column, lines, shown).codes;
    let body = lemma_document_keeps(pen, column, lines, shown, words);
    if i < start.len() {
        assert(body.codes[i] == start[i]);
    }
}

/// What comes before a text and behind it takes no more words than it has to: one to erase
/// the display, two to load a pop-on caption, one to show it, and one for a character that
/// still waits.
pub proof fn law_text_is_framed_in_few_words(
    pen: Pen,
    column: u32,
    lines: LinesView,
    shown: bool,
    draft: Draft,
)
    ensures
        ({
            let mode = match lines.mode {
                Some(mode) => mode,
                None => pen.mode,
            };
            let crosses = mode != pen.mode && (mode == Cea608Mode::PopOn || pen.mode
                == Cea608Mode::PopOn);
            let erases = crosses || lines.clear == Some(true) || mode == Cea608Mode::PopOn
                && shown;
            pen.opening(column, lines, shown).codes.len() == (if erases {
                1int
            } else {
                0
            }) + (if mode == Cea608Mode::PopOn {
                2int
            } else {
                0
            })
        }),
        draft.close().codes.len() == draft.codes.len() + (if draft.pending != 0 {
            1int
        } else {
            0
        }) + (if draft.pen.mode == Cea608Mode::PopOn {
            1int
        } else {
            0
        }),
        draft.end_line().codes.len() == draft.codes.len() + (if draft.pending != 0
            && draft.pen.mode == Cea608Mode::PopOn {
            1int
        } else {
            0
        }),
{
}

/// Nothing is left waiting when a text ends.
pub proof fn law_nothing_waits(
    pen: Pen,
    column: u32,
    lines: LinesView,
    shown: bool,
    words: Map<u32, u16>,
)
    requires
        pen.document(column, lines, shown, words) is Some,
    ensures
        pen.document(column, lines, shown, words)->0.pending == 0,
{
}

/// A line that opens with a preamble starts its text on the column that it asks for, in
/// the style of its first chunk, as long as that column is on the screen.
pub proof fn law_line_opens_in_place(
    draft: Draft,
    chunk: ChunkView,
    row: u32,
    carriage_return: Option<bool>,
)
    requires
        draft.needs_preamble(carriage_return),
        0 <= draft.col <= LAST_COLUMN,
    ensures
        ({
            let opened = draft.open_line(chunk, row, carriage_return);
            &&& opened.col == if draft.rolls_up(carriage_return) {
                0
            } else {
                draft.col
            }
            &&& opened.pen.style == chunk.style
            &&& opened.pen.underline == chunk.underline
            &&& !opened.pen.send_roll_up_preamble
        }),
{
}

/// Carriage returns in a text have no effect.
pub proof fn law_carriage_returns_are_left_out(
    draft: Draft,
    text: Seq<char>,
    chunk: ChunkView,
    row: u32,
    words: Map<u32, u16>,
)
    ensures
        draft.write_text(text, chunk, row, words) == draft.write_text(
            text.filter(|c: char| c != '\r'),
            chunk,
            row,
            words,
        ),
    decreases text.len(),
{
    let pred = |c: char| c != '\r';
    let kept = text.filter(pred);
    if text.len() == 0 {
        reveal_with_fuel(Seq::filter, 1);
        assert(kept =~= text);
    } else {
        let rest = text.drop_first();
        let first = seq![text[0]];
        assert(text =~= first + rest);
        Seq::filter_distributes_over_add(first, rest, pred);
        reveal_with_fuel(Seq::filter, 2);
        assert(first.drop_last() =~= Seq::<char>::empty());
        if text[0] == '\r' {
            law_carriage_returns_are_left_out(draft, rest, chunk, row, words);
            assert(kept =~= rest.filter(pred));
        } else {
            assert(kept =~= first + rest.filter(pred));
            assert(kept.drop_first() =~= rest.filter(pred));
            let written = draft.write_character(text[0], words);
            law_carriage_returns_are_left_out(written, rest, chunk, row, words);
            law_carriage_returns_are_left_out(
                written.flush().open_line(chunk, row, Some(true)),
                rest,
                chunk,
                row,
                words,
            );
        }
    }
}

/// In a roll-up mode text stays within the columns of the screen.
pub proof fn law_roll_up_text_stays_on_screen(
    draft: Draft,
    text: Seq<char>,
    chunk: ChunkView,
    row: u32,
    words: Map<u32, u16>,
)
    requires
        draft.pen.mode != Cea608Mode::PopOn,
        0 <= draft.col <= LAST_COLUMN,
    ensures
        draft.write_text(text, chunk, row, words) is Some,
        0 <= draft.write_text(text, chunk, row, words)->0.col <= LAST_COLUMN,
        draft.write_text(text, chunk, row, words)->0.pen.mode == draft.pen.mode,
    decreases text.len(),
{
    if text.len() > 0 {
        let rest = text.drop_first();
        if text[0] == '\r' {
            law_roll_up_text_stays_on_screen(draft, rest, chunk, row, words);
        } else {
            let written = draft.write_character(text[0], words);
            if written.col <= LAST_COLUMN {
                law_roll_up_text_stays_on_screen(written, rest, chunk, row, words);
            } else {
                law_roll_up_text_stays_on_screen(
                    written.flush().open_line(chunk, row, Some(true)),
                    rest,
                    chunk,
                    row,
                    words,
                );
            }
        }
    }
}

/// In pop-on mode a text goes one column past the row at most, or past where it starts.
proof fn lemma_pop_on_reach(
    draft: Draft,
    text: Seq<char>,
    chunk: ChunkView,
    row: u32,
    words: Map<u32, u16>,
)
    requires
        draft.pen.mode == Cea608Mode::PopOn,
        0 <= draft.col < u32::MAX,
    ensures
        draft.write_text(text, chunk, row, words) is Some,
        0 <= draft.write_text(text, chunk, row, words)->0.col,
        draft.write_text(text, chunk, row, words)->0.col <= LAST_COLUMN + 1 || draft.write_text(
            text,
            chunk,
            row,
            words,
        )->0.col <= draft.col + 1,
        draft.write_text(text, chunk, row, words)->0.pen.mode == Cea608Mode::PopOn,
    decreases text.len(),
{
    if text.len() > 0 {
        let rest = text.drop_first();
        if text[0] == '\r' {
            lemma_pop_on_reach(draft, rest, chunk, row, words);
        } else {
            let written = draft.write_character(text[0], words);
            if written.col <= LAST_COLUMN {
                lemma_pop_on_reach(written, rest, chunk, row, words);
            }
        }
    }
}

/// The column that a draft may have reached before the given chunk of a line.
spec fn within_reach(draft: Draft, from: int) -> bool {
    if draft.pen.mode == Cea608Mode::PopOn {
        0 <= draft.col <= LAST_COLUMN + 1 + from
    } else {
        0 <= draft.col <= LAST_COLUMN
    }
}

proof fn lemma_chunks_reach(
    draft: Draft,
    from: int,
    line: LineView,
    row: u32,
    words: Map<u32, u16>,
)
    requires
        0 <= from,
        within_reach(draft, from),
        from == 0 ==> draft.col <= LAST_COLUMN,
        line.chunks.len() + LAST_COLUMN + 2 <= u32::MAX,
    ensures
        draft.write_chunks(from, line, row, words) is Some,
        draft.write_chunks(from, line, row, words)->0.pen.mode == draft.pen.mode,
        draft.pen.mode != Cea608Mode::PopOn ==> within_reach(
            draft.write_chunks(from, line, row, words)->0,
            from,
        ),
    decreases line.chunks.len() - from,
{
    if from < line.chunks.len() {
        let chunk = line.chunks[from];
        let ready = draft.flush();
        let opened = if from == 0 {
            ready.open_line(chunk, row, line.carriage_return)
        } else {
            ready.open_chunk(chunk)
        };
        let spaced = if from == 0 {
            ready.continues(chunk, line.carriage_return)
        } else {
            !ready.changes_style(chunk)
        };
        let text = if spaced {
            seq![' '] + chunk.text
        } else {
            chunk.text
        };
        assert(opened.pen.mode == draft.pen.mode);
        assert(0 <= opened.col <= LAST_COLUMN || opened.col <= draft.col);
        if draft.pen.mode == Cea608Mode::PopOn {
            lemma_pop_on_reach(opened, text, chunk, row, words);
        } else {
            law_roll_up_text_stays_on_screen(opened, text, chunk, row, words);
        }
        lemma_chunks_reach(
            opened.write_text(text, chunk, row, words)->0,
            from + 1,
            line,
            row,
            words,
        );
    }
}

proof fn lemma_lines_reach(
    draft: Draft,
    from: int,
    lines: Seq<LineView>,
    row: u32,
    words: Map<u32, u16>,
)
    requires
        0 <= from,
        draft.pen.mode != Cea608Mode::PopOn ==> 0 <= draft.col <= LAST_COLUMN,
        forall|i: int| from <= i < lines.len() ==> starts_on_screen(#[trigger] lines[i]),
    ensures
        draft.write_lines(from, lines, row, words) is Some,
        draft.write_lines(from, lines, row, words)->0.pen.mode == draft.pen.mode,
        draft.pen.mode != Cea608Mode::PopOn ==> 0 <= draft.write_lines(
            from,
            lines,
            row,
            words,
        )->0.col <= LAST_COLUMN,
    decreases lines.len() - from,
{
    if from < lines.len() {
        let line = lines[from];
        let at = Draft::row_of(line, row);
        assert(starts_on_screen(line));
        if at > LAST_ROW {
            lemma_lines_reach(
                draft.note(Notice::LineDropped(from as usize)),
                from + 1,
                lines,
                at,
                words,
            );
        } else {
            let moved = draft.move_to_column(line.column);
            lemma_chunks_reach(moved, 0, line, at, words);
            let written = moved.write_chunks(0, line, at, words)->0;
            lemma_lines_reach(
                written.end_line(),
                from + 1,
                lines,
                next_row(written.pen.mode, at),
                words,
            );
        }
    }
}

/// A line whose column, if it names one, is on the screen, and whose chunks can be counted
/// in 32 bits along with the columns of a row.
pub open spec fn starts_on_screen(line: LineView) -> bool {
    &&& line.column matches Some(column) ==> column <= LAST_COLUMN
    &&& line.chunks.len() + LAST_COLUMN + 2 <= u32::MAX
}

/// Text whose lines start on the screen can always be written, and in a roll-up mode it
/// leaves the cursor on the screen.
pub proof fn law_text_that_starts_on_screen_is_written(
    pen: Pen,
    column: u32,
    lines: LinesView,
    shown: bool,
    words: Map<u32, u16>,
)
    requires
        pen.mode == Cea608Mode::PopOn || column <= LAST_COLUMN,
        forall|i: int| 0 <= i < lines.lines.len() ==> starts_on_screen(#[trigger] lines.lines[i]),
    ensures
        pen.document(column, lines, shown, words) is Some,
        pen.target(lines) != Cea608Mode::PopOn ==> 0 <= pen.document(
            column,
            lines,
            shown,
            words,
        )->0.col <= LAST_COLUMN,
{
    lemma_lines_reach(
        pen.opening(column, lines, shown),
        0,
        lines.lines,
        FIRST_ROW,
        words,
    );
}

} // verus!
