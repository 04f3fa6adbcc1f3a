//! Laws of which words a text is written in.

use vstd::prelude::*;

use crate::caption::{Cea608Mode, ChunkView, LineView, LinesView, TextStyle};
use crate::code::{basicna, specialna, westeu, Code, ControlCommand};
use crate::compose::{
    glyph, roll_up_codes, tab_codes, word_of, Draft, Notice, Pen, FIRST_ROW, LAST_COLUMN,
    LAST_ROW,
};

verus! {

/// No word is of two classes of characters.
pub proof fn law_word_classes_are_disjoint(word: u16)
    ensures
        !(basicna(word) && westeu(word)),
        !(basicna(word) && specialna(word)),
        !(westeu(word) && specialna(word)),
        basicna(word) ==> word != 0,
{
    assert(!(0x6000u16 & word != 0 && 0x7660u16 & word == 0x1220)) by (bit_vector);
    assert(!(0x6000u16 & word != 0 && 0x7770u16 & word == 0x1130)) by (bit_vector);
    assert(!(0x7660u16 & word == 0x1220 && 0x7770u16 & word == 0x1130)) by (bit_vector);
    assert(0x6000u16 & word != 0 ==> word != 0) by (bit_vector);
}

/// The character words in a code.
pub open spec fn words_in(code: Code) -> Seq<u16> {
    match code {
        Code::Word(word) => seq![word],
        Code::BasicNa { first, second } => seq![first, second],
        _ => seq![],
    }
}

/// The character words in a sequence of codes.
pub open spec fn payload(codes: Seq<Code>) -> Seq<u16>
    decreases codes.len(),
{
    if codes.len() == 0 {
        seq![]
    } else {
        payload(codes.drop_last()) + words_in(codes.last())
    }
}

/// The words that a character is written in: its own, behind a space if it is an
/// extended character, and none for a carriage return.
pub open spec fn char_words(c: char, words: Map<u32, u16>) -> Seq<u16> {
    if c == '\r' {
        seq![]
    } else if westeu(glyph(words, c)) {
        seq![word_of(words, ' '), glyph(words, c)]
    } else {
        seq![glyph(words, c)]
    }
}

/// The words that a text is written in.
pub open spec fn text_words(text: Seq<char>, words: Map<u32, u16>) -> Seq<u16>
    decreases text.len(),
{
    if text.len() == 0 {
        seq![]
    } else {
        char_words(text[0], words) + text_words(text.drop_first(), words)
    }
}

/// The number of characters in a text that take a column.
pub open spec fn columns(text: Seq<char>) -> nat
    decreases text.len(),
{
    if text.len() == 0 {
        0
    } else {
        columns(text.drop_first()) + if text[0] == '\r' {
            0nat
        } else {
            1
        }
    }
}

/// The character words of a draft, the one that waits for a second one among them.
pub open spec fn draft_words(draft: Draft) -> Seq<u16> {
    payload(draft.codes) + if draft.pending != 0 {
        seq![draft.pending]
    } else {
        seq![]
    }
}

/// Only basic characters wait for a second one.
pub open spec fn pending_is_basic(draft: Draft) -> bool {
    draft.pending == 0 || basicna(draft.pending)
}

proof fn lemma_payload_push(codes: Seq<Code>, code: Code)
    ensures
        payload(codes.push(code)) == payload(codes) + words_in(code),
{
    assert(codes.push(code).drop_last() =~= codes);
}

/// A code without characters leaves the words of a draft as they are.
proof fn lemma_put_control(draft: Draft, code: Code)
    requires
        words_in(code).len() == 0,
    ensures
        draft_words(draft.put(code)) == draft_words(draft),
{
    lemma_payload_push(draft.codes, code);
    assert(payload(draft.codes) + words_in(code) =~= payload(draft.codes));
}

proof fn lemma_put_all_control(draft: Draft, codes: Seq<Code>)
    requires
        codes.len() <= 1,
        codes.len() == 1 ==> words_in(codes[0]).len() == 0,
    ensures
        draft_words(draft.put_all(codes)) == draft_words(draft),
{
    if codes.len() == 0 {
        assert(draft.codes + codes =~= draft.codes);
    } else {
        assert(draft.codes + codes =~= draft.codes.push(codes[0]));
        lemma_put_control(draft, codes[0]);
    }
}

proof fn lemma_flush_words(draft: Draft)
    ensures
        draft_words(draft.flush()) == draft_words(draft),
        draft.flush().pending == 0,
{
    lemma_payload_push(draft.codes, Code::Word(draft.pending));
    assert(draft_words(draft.flush()) =~= draft_words(draft));
}

proof fn lemma_open_chunk_words(draft: Draft, chunk: ChunkView)
    ensures
        draft_words(draft.open_chunk(chunk)) == draft_words(draft),
        draft.open_chunk(chunk).pending == draft.pending,
        draft.open_chunk(chunk).pen.mode == draft.pen.mode,
        draft.col <= draft.open_chunk(chunk).col <= draft.col + 1,
{
    lemma_put_control(
        draft,
        Code::MidrowChange { style: chunk.style.number(), underline: chunk.underline },
    );
}

proof fn lemma_preamble_words(draft: Draft, chunk: ChunkView, row: u32)
    ensures
        draft_words(draft.preamble(chunk, row)) == draft_words(draft),
        draft.preamble(chunk, row).pending == draft.pending,
{
    let styled = chunk.style != TextStyle::White;
    let style_first = styled && draft.col < 4;
    let at = if styled && !style_first {
        draft.col - 1
    } else {
        draft.col
    };
    let announced = draft.put_all(roll_up_codes(draft.pen.mode));
    let done = draft.preamble(chunk, row);
    lemma_put_all_control(draft, roll_up_codes(draft.pen.mode));
    let place = if style_first {
        Code::RowStylePreamble {
            row: row as i32,
            style: chunk.style.number(),
            underline: chunk.underline,
        }
    } else {
        Code::RowColumnPreamble {
            row: row as i32,
            col: (at / 4 * 4) as i32,
            underline: chunk.underline,
        }
    };
    lemma_put_control(announced, place);
    lemma_put_all_control(announced.put(place), tab_codes(at % 4));
    assert(done.codes == announced.put(place).put_all(tab_codes(at % 4)).codes);
}

proof fn lemma_open_line_words(
    draft: Draft,
    chunk: ChunkView,
    row: u32,
    carriage_return: Option<bool>,
)
    ensures
        draft_words(draft.open_line(chunk, row, carriage_return)) == draft_words(draft),
        draft.open_line(chunk, row, carriage_return).pending == draft.pending,
        draft.open_line(chunk, row, carriage_return).pen.mode == draft.pen.mode,
        draft.pen.mode == Cea608Mode::PopOn ==> draft.open_line(chunk, row, carriage_return).col
            <= draft.col + 1,
{
    let returned = Draft {
        col: 0,
        ..draft.put(Code::Control(ControlCommand::CarriageReturn))
    };
    lemma_put_control(draft, Code::Control(ControlCommand::CarriageReturn));
    assert(draft_words(returned) == draft_words(draft));
    lemma_preamble_words(returned, chunk, row);
    lemma_open_chunk_words(returned.preamble(chunk, row), chunk);
    lemma_preamble_words(draft, chunk, row);
    lemma_open_chunk_words(draft.preamble(chunk, row), chunk);
    lemma_open_chunk_words(draft, chunk);
}

/// A character adds its words to a draft, in order behind those before it.
pub proof fn law_character_is_written(draft: Draft, word: u16, space: u16)
    requires
        pending_is_basic(draft),
    ensures
        pending_is_basic(draft.put_word(word, space)),
        draft_words(draft.put_word(word, space)) == draft_words(draft) + if westeu(word) {
            seq![space, word]
        } else {
            seq![word]
        },
{
    law_word_classes_are_disjoint(word);
    law_word_classes_are_disjoint(draft.pending);
    let codes = draft.codes;
    let done = draft.put_character(word, space);
    let alone = Code::Word(draft.pending);
    let dummy = Code::BasicNa { first: draft.pending, second: space };
    if basicna(draft.pending) {
        if basicna(word) {
            lemma_payload_push(codes, Code::BasicNa { first: draft.pending, second: word });
            assert(draft_words(done) =~= draft_words(draft) + seq![word]);
        } else if westeu(word) {
            lemma_payload_push(codes, dummy);
            lemma_payload_push(codes.push(dummy), Code::Word(word));
            assert(draft_words(done) =~= draft_words(draft) + seq![space, word]);
        } else {
            lemma_payload_push(codes, alone);
            lemma_payload_push(codes.push(alone), Code::Word(word));
            assert(draft_words(done) =~= draft_words(draft) + seq![word]);
        }
    } else if westeu(word) {
        lemma_payload_push(codes, Code::Word(space));
        lemma_payload_push(codes.push(Code::Word(space)), Code::Word(word));
        assert(draft_words(done) =~= draft_words(draft) + seq![space, word]);
    } else if basicna(word) {
        assert(draft_words(done) =~= draft_words(draft) + seq![word]);
    } else {
        lemma_payload_push(codes, Code::Word(word));
        assert(draft_words(done) =~= draft_words(draft) + seq![word]);
    }
    lemma_put_control(done, Code::Control(ControlCommand::ResumeCaptionLoading));
}

proof fn lemma_no_columns_no_words(text: Seq<char>, words: Map<u32, u16>)
    requires
        columns(text) == 0,
    ensures
        text_words(text, words) == Seq::<u16>::empty(),
    decreases text.len(),
{
    if text.len() > 0 {
        lemma_no_columns_no_words(text.drop_first(), words);
    }
}

/// Text is written in full: always in a roll-up mode, where it goes on in a new line at
/// the end of a row, and in pop-on mode where it takes no column past the end of the row.
pub proof fn law_text_is_written(
    draft: Draft,
    text: Seq<char>,
    chunk: ChunkView,
    row: u32,
    words: Map<u32, u16>,
)
    requires
        pending_is_basic(draft),
        draft.write_text(text, chunk, row, words) is Some,
        draft.pen.mode == Cea608Mode::PopOn ==> columns(text) == 0 || draft.col + columns(text)
            <= LAST_COLUMN + 1,
    ensures
        ({
            let done = draft.write_text(text, chunk, row, words)->0;
            &&& pending_is_basic(done)
            &&& draft_words(done) == draft_words(draft) + text_words(text, words)
            &&& done.pen.mode == draft.pen.mode
            &&& draft.pen.mode == Cea608Mode::PopOn ==> done.col == draft.col + columns(text)
        }),
    decreases text.len(),
{
    if text.len() == 0 {
        assert(draft_words(draft) + text_words(text, words) =~= draft_words(draft));
    } else {
        let rest = text.drop_first();
        if text[0] == '\r' {
            law_text_is_written(draft, rest, chunk, row, words);
            assert(char_words(text[0], words) + text_words(rest, words) =~= text_words(
                rest,
                words,
            ));
        } else {
            let word = glyph(words, text[0]);
            let space = word_of(words, ' ');
            let put = draft.put_word(word, space);
            let written = draft.write_character(text[0], words);
            law_character_is_written(draft, word, space);
            assert(draft_words(written) == draft_words(put));
            assert(draft_words(draft) + char_words(text[0], words) + text_words(rest, words)
                =~= draft_words(draft) + text_words(text, words));
            if written.col <= LAST_COLUMN {
                law_text_is_written(written, rest, chunk, row, words);
            } else if draft.pen.mode == Cea608Mode::PopOn {
                lemma_no_columns_no_words(rest, words);
                assert(draft_words(written) + text_words(rest, words) =~= draft_words(written));
            } else {
                lemma_flush_words(written);
                lemma_open_line_words(written.flush(), chunk, row, Some(true));
                law_text_is_written(
                    written.flush().open_line(chunk, row, Some(true)),
                    rest,
                    chunk,
                    row,
                    words,
                );
            }
        }
    }
}

/// The start of a text, up to and with the given number of characters that take a column.
pub open spec fn head(text: Seq<char>, count: int) -> Seq<char>
    decreases text.len(),
{
    if text.len() == 0 || count <= 0 {
        seq![]
    } else {
        seq![text[0]] + head(
            text.drop_first(),
            if text[0] == '\r' {
                count
            } else {
                count - 1
            },
        )
    }
}

/// In pop-on mode the characters up to the last column of the row are written, at least
/// one of them, and the rest of the text is dropped.
pub proof fn law_pop_on_drops_what_passes_the_row(
    draft: Draft,
    text: Seq<char>,
    chunk: ChunkView,
    row: u32,
    words: Map<u32, u16>,
)
    requires
        pending_is_basic(draft),
        draft.pen.mode == Cea608Mode::PopOn,
        draft.write_text(text, chunk, row, words) is Some,
    ensures
        ({
            let done = draft.write_text(text, chunk, row, words)->0;
            let room = if draft.col < LAST_COLUMN {
                LAST_COLUMN + 1 - draft.col
            } else {
                1
            };
            draft_words(done) == draft_words(draft) + text_words(head(text, room), words)
        }),
    decreases text.len(),
{
    let room = if draft.col < LAST_COLUMN {
        LAST_COLUMN + 1 - draft.col
    } else {
        1
    };
    let kept = head(text, room);
    if text.len() == 0 {
        assert(draft_words(draft) + text_words(kept, words) =~= draft_words(draft));
    } else {
        let rest = text.drop_first();
        let done = draft.write_text(text, chunk, row, words)->0;
        assert(kept.drop_first() =~= head(
            rest,
            if text[0] == '\r' {
                room
            } else {
                room - 1
            },
        ));
        assert(draft_words(draft) + text_words(kept, words) =~= draft_words(draft) + char_words(
            text[0],
            words,
        ) + text_words(kept.drop_first(), words));
        if text[0] == '\r' {
            law_pop_on_drops_what_passes_the_row(draft, rest, chunk, row, words);
            assert(draft_words(draft) + char_words(text[0], words) =~= draft_words(draft));
        } else {
            let word = glyph(words, text[0]);
            let space = word_of(words, ' ');
            let put = draft.put_word(word, space);
            let written = draft.write_character(text[0], words);
            law_character_is_written(draft, word, space);
            assert(draft_words(written) == draft_words(put));
            if written.col <= LAST_COLUMN {
                law_pop_on_drops_what_passes_the_row(written, rest, chunk, row, words);
            } else {
                assert(draft_words(written) + text_words(kept.drop_first(), words)
                    =~= draft_words(written));
            }
        }
    }
}

/// The words that are not the one of a space.
pub open spec fn marks(sent: Seq<u16>, space: u16) -> Seq<u16> {
    sent.filter(|word: u16| word != space)
}

/// The text of a line from the given chunk on.
pub open spec fn line_text(from: int, line: LineView) -> Seq<char>
    decreases line.chunks.len() - from,
{
    if from >= line.chunks.len() {
        seq![]
    } else {
        line.chunks[from].text + line_text(from + 1, line)
    }
}

/// The columns that a line takes from the given chunk on: one for each character, and one
/// before each chunk but the first.
pub open spec fn line_columns(from: int, line: LineView) -> int
    decreases line.chunks.len() - from,
{
    if from >= line.chunks.len() {
        0
    } else {
        columns(line.chunks[from].text) + line_columns(from + 1, line) + if from == 0 {
            0int
        } else {
            1
        }
    }
}

/// A pop-on line takes no column past the end of its row.
pub open spec fn fits_row(line: LineView) -> bool {
    ||| line_columns(0, line) == 0
    ||| line_columns(0, line) + (match line.column {
        Some(column) => column as int,
        None => 0,
    }) <= LAST_COLUMN + 1
}

/// The row behind a line on the given row.
pub open spec fn next_row(mode: Cea608Mode, row: u32) -> u32 {
    if mode == Cea608Mode::PopOn {
        (row + 1) as u32
    } else {
        row
    }
}

/// The text of the lines that have a row on the screen, from the given line on.
pub open spec fn screen_text(
    mode: Cea608Mode,
    from: int,
    lines: Seq<LineView>,
    row: u32,
) -> Seq<char>
    decreases lines.len() - from,
{
    if from >= lines.len() {
        seq![]
    } else {
        let at = Draft::row_of(lines[from], row);
        if at > LAST_ROW {
            screen_text(mode, from + 1, lines, at)
        } else {
            line_text(0, lines[from]) + screen_text(mode, from + 1, lines, next_row(mode, at))
        }
    }
}

proof fn lemma_text_words_concat(a: Seq<char>, b: Seq<char>, words: Map<u32, u16>)
    ensures
        text_words(a + b, words) == text_words(a, words) + text_words(b, words),
    decreases a.len(),
{
    if a.len() == 0 {
        assert(a + b =~= b);
        assert(text_words(a, words) + text_words(b, words) =~= text_words(b, words));
    } else {
        lemma_text_words_concat(a.drop_first(), b, words);
        assert((a + b).drop_first() =~= a.drop_first() + b);
        assert(text_words(a, words) + text_words(b, words) =~= char_words(a[0], words) + (
        text_words(a.drop_first(), words) + text_words(b, words)));
    }
}

/// The marks of a text.
#[verifier::opaque]
spec fn text_marks(text: Seq<char>, words: Map<u32, u16>) -> Seq<u16> {
    marks(text_words(text, words), word_of(words, ' '))
}

/// The marks of a draft.
#[verifier::opaque]
spec fn draft_marks(draft: Draft, words: Map<u32, u16>) -> Seq<u16> {
    marks(draft_words(draft), word_of(words, ' '))
}

proof fn lemma_marks_concat(a: Seq<u16>, b: Seq<u16>, space: u16)
    ensures
        marks(a + b, space) == marks(a, space) + marks(b, space),
{
    Seq::filter_distributes_over_add(a, b, |word: u16| word != space);
}

proof fn lemma_text_marks_concat(a: Seq<char>, b: Seq<char>, words: Map<u32, u16>)
    ensures
        text_marks(a + b, words) == text_marks(a, words) + text_marks(b, words),
{
    reveal(text_marks);
    lemma_text_words_concat(a, b, words);
    lemma_marks_concat(text_words(a, words), text_words(b, words), word_of(words, ' '));
}

proof fn lemma_text_marks_empty(words: Map<u32, u16>)
    ensures
        text_marks(Seq::empty(), words) == Seq::<u16>::empty(),
{
    reveal(text_marks);
    reveal_with_fuel(Seq::filter, 1);
}

proof fn lemma_text_marks_space(words: Map<u32, u16>)
    ensures
        text_marks(seq![' '], words) == Seq::<u16>::empty(),
{
    reveal(text_marks);
    reveal_with_fuel(text_words, 2);
    reveal_with_fuel(Seq::filter, 3);
    let sent = text_words(seq![' '], words);
    assert(sent =~= char_words(' ', words));
    assert(sent.drop_last().drop_last() =~= Seq::<u16>::empty() || sent.drop_last() =~= Seq::<
        u16,
    >::empty());
}

proof fn lemma_same_words_same_marks(a: Draft, b: Draft, words: Map<u32, u16>)
    requires
        draft_words(a) == draft_words(b),
    ensures
        draft_marks(a, words) == draft_marks(b, words),
{
    reveal(draft_marks);
}

proof fn lemma_added_words_add_marks(
    before: Draft,
    after: Draft,
    text: Seq<char>,
    words: Map<u32, u16>,
)
    requires
        draft_words(after) == draft_words(before) + text_words(text, words),
    ensures
        draft_marks(after, words) == draft_marks(before, words) + text_marks(text, words),
{
    reveal(draft_marks);
    reveal(text_marks);
    lemma_marks_concat(draft_words(before), text_words(text, words), word_of(words, ' '));
}

/// The space that comes before a chunk, where it does, takes a column and leaves no mark.
proof fn lemma_spaced_text(text: Seq<char>, words: Map<u32, u16>)
    ensures
        columns(seq![' '] + text) == columns(text) + 1,
        text_marks(seq![' '] + text, words) == text_marks(text, words),
{
    assert((seq![' '] + text).drop_first() =~= text);
    lemma_text_marks_concat(seq![' '], text, words);
    lemma_text_marks_space(words);
    assert(text_marks(seq![' '], words) + text_marks(text, words) =~= text_marks(text, words));
}

proof fn lemma_chunk_is_written(
    draft: Draft,
    first: bool,
    chunk: ChunkView,
    row: u32,
    carriage_return: Option<bool>,
    words: Map<u32, u16>,
)
    requires
        pending_is_basic(draft),
        draft.write_chunk(first, chunk, row, carriage_return, words) is Some,
        draft.pen.mode == Cea608Mode::PopOn ==> (first && columns(chunk.text) == 0) || draft.col
            + columns(chunk.text) + (if first {
            0int
        } else {
            1
        }) <= LAST_COLUMN + 1,
    ensures
        ({
            let done = draft.write_chunk(first, chunk, row, carriage_return, words)->0;
            &&& pending_is_basic(done)
            &&& draft_marks(done, words) == draft_marks(draft, words) + text_marks(
                chunk.text,
                words,
            )
            &&& done.pen.mode == draft.pen.mode
            &&& draft.pen.mode == Cea608Mode::PopOn ==> done.col <= draft.col + columns(
                chunk.text,
            ) + (if first {
                0int
            } else {
                1
            })
        }),
{
    let ready = draft.flush();
    lemma_flush_words(draft);
    let opened = if first {
        ready.open_line(chunk, row, carriage_return)
    } else {
        ready.open_chunk(chunk)
    };
    lemma_open_line_words(ready, chunk, row, carriage_return);
    lemma_open_chunk_words(ready, chunk);
    let spaced = if first {
        ready.continues(chunk, carriage_return)
    } else {
        !ready.changes_style(chunk)
    };
    let text = if spaced {
        seq![' '] + chunk.text
    } else {
        chunk.text
    };
    let done = opened.write_text(text, chunk, row, words)->0;
    lemma_spaced_text(chunk.text, words);
    law_text_is_written(opened, text, chunk, row, words);
    lemma_added_words_add_marks(opened, done, text, words);
    lemma_same_words_same_marks(draft, opened, words);
}

proof fn lemma_columns_nonnegative(from: int, line: LineView)
    ensures
        line_columns(from, line) >= 0,
    decreases line.chunks.len() - from,
{
    if from < line.chunks.len() {
        lemma_columns_nonnegative(from + 1, line);
    }
}

proof fn lemma_chunks_are_written(
    draft: Draft,
    from: int,
    line: LineView,
    row: u32,
    words: Map<u32, u16>,
)
    requires
        0 <= from,
        pending_is_basic(draft),
        draft.write_chunks(from, line, row, words) is Some,
        draft.pen.mode == Cea608Mode::PopOn ==> line_columns(from, line) == 0 || draft.col
            + line_columns(from, line) <= LAST_COLUMN + 1,
    ensures
        ({
            let done = draft.write_chunks(from, line, row, words)->0;
            &&& pending_is_basic(done)
            &&& draft_marks(done, words) == draft_marks(draft, words) + text_marks(
                line_text(from, line),
                words,
            )
            &&& done.pen.mode == draft.pen.mode
        }),
    decreases line.chunks.len() - from,
{
    if from >= line.chunks.len() {
        lemma_text_marks_empty(words);
        assert(draft_marks(draft, words) + Seq::<u16>::empty() =~= draft_marks(draft, words));
    } else {
        let chunk = line.chunks[from];
        lemma_columns_nonnegative(from + 1, line);
        assert(from > 0 ==> line_columns(from, line) > 0);
        lemma_chunk_is_written(draft, from == 0, chunk, row, line.carriage_return, words);
        let next = draft.write_chunk(from == 0, chunk, row, line.carriage_return, words)->0;
        lemma_chunks_are_written(next, from + 1, line, row, words);
        let rest = line_text(from + 1, line);
        lemma_text_marks_concat(chunk.text, rest, words);
        assert(draft_marks(draft, words) + text_marks(chunk.text, words) + text_marks(rest, words)
            =~= draft_marks(draft, words) + (text_marks(chunk.text, words) + text_marks(
            rest,
            words,
        )));
    }
}

proof fn lemma_line_is_written(draft: Draft, line: LineView, row: u32, words: Map<u32, u16>)
    requires
        pending_is_basic(draft),
        draft.move_to_column(line.column).write_chunks(0, line, row, words) is Some,
        draft.pen.mode == Cea608Mode::PopOn ==> fits_row(line),
    ensures
        ({
            let written = draft.move_to_column(line.column).write_chunks(0, line, row, words)->0;
            let done = written.end_line();
            &&& pending_is_basic(done)
            &&& draft_marks(done, words) == draft_marks(draft, words) + text_marks(
                line_text(0, line),
                words,
            )
            &&& done.pen.mode == draft.pen.mode
            &&& written.pen.mode == draft.pen.mode
        }),
{
    let moved = draft.move_to_column(line.column);
    lemma_same_words_same_marks(draft, moved, words);
    lemma_chunks_are_written(moved, 0, line, row, words);
    let written = moved.write_chunks(0, line, row, words)->0;
    lemma_flush_words(written);
    lemma_same_words_same_marks(written, written.end_line(), words);
}

proof fn lemma_lines_are_written(
    draft: Draft,
    from: int,
    lines: Seq<LineView>,
    row: u32,
    words: Map<u32, u16>,
)
    requires
        0 <= from,
        pending_is_basic(draft),
        draft.write_lines(from, lines, row, words) is Some,
        draft.pen.mode == Cea608Mode::PopOn ==> forall|i: int|
            from <= i < lines.len() ==> fits_row(#[trigger] lines[i]),
    ensures
        ({
            let done = draft.write_lines(from, lines, row, words)->0;
            &&& pending_is_basic(done)
            &&& draft_marks(done, words) == draft_marks(draft, words) + text_marks(
                screen_text(draft.pen.mode, from, lines, row),
                words,
            )
            &&& done.pen.mode == draft.pen.mode
        }),
    decreases lines.len() - from,
{
    let mode = draft.pen.mode;
    if from >= lines.len() {
        lemma_text_marks_empty(words);
        assert(draft_marks(draft, words) + Seq::<u16>::empty() =~= draft_marks(draft, words));
    } else {
        let line = lines[from];
        let at = Draft::row_of(line, row);
        if at > LAST_ROW {
            let noted = draft.note(Notice::LineDropped(from as usize));
            lemma_same_words_same_marks(draft, noted, words);
            lemma_lines_are_written(noted, from + 1, lines, at, words);
        } else {
            assert(mode == Cea608Mode::PopOn ==> fits_row(line));
            lemma_line_is_written(draft, line, at, words);
            let written = draft.move_to_column(line.column).write_chunks(0, line, at, words)->0;
            let below = next_row(mode, at);
            lemma_lines_are_written(written.end_line(), from + 1, lines, below, words);
            let here = line_text(0, line);
            let rest = screen_text(mode, from + 1, lines, below);
            lemma_text_marks_concat(here, rest, words);
            assert(draft_marks(draft, words) + text_marks(here, words) + text_marks(rest, words)
                =~= draft_marks(draft, words) + (text_marks(here, words) + text_marks(
                rest,
                words,
            )));
        }
    }
}

/// The text that comes out is the text that went in: but for spaces, the characters sent
/// are those of all chunks on the screen, in order. In roll-up modes that holds of every
/// text, in pop-on mode of lines that do not go past the end of their row.
pub proof fn law_all_text_is_sent(
    pen: Pen,
    column: u32,
    lines: LinesView,
    shown: bool,
    words: Map<u32, u16>,
)
    requires
        pen.document(column, lines, shown, words) is Some,
        pen.target(lines) == Cea608Mode::PopOn ==> forall|i: int|
            0 <= i < lines.lines.len() ==> fits_row(#[trigger] lines.lines[i]),
    ensures
        marks(
            payload(pen.document(column, lines, shown, words)->0.codes),
            word_of(words, ' '),
        ) == marks(
            text_words(screen_text(pen.target(lines), 0, lines.lines, FIRST_ROW), words),
            word_of(words, ' '),
        ),
{
    let start = pen.opening(column, lines, shown);
    lemma_lines_are_written(start, 0, lines.lines, FIRST_ROW, words);
    let written = start.write_lines(0, lines.lines, FIRST_ROW, words)->0;
    lemma_flush_words(written);
    lemma_put_control(written.flush(), Code::Control(ControlCommand::EndOfCaption));
    let done = written.close();
    assert(draft_words(done) =~= payload(done.codes));
    lemma_same_words_same_marks(written, done, words);
    assert(draft_words(start) =~= Seq::<u16>::empty()) by {
        reveal_with_fuel(payload, 4);
        assert(start.codes.len() <= 3);
    }
    reveal(draft_marks);
    reveal(text_marks);
    assert(marks(Seq::empty(), word_of(words, ' ')) =~= Seq::<u16>::empty()) by {
        reveal_with_fuel(Seq::filter, 1);
    }
    let whole = text_words(screen_text(pen.target(lines), 0, lines.lines, FIRST_ROW), words);
    assert(Seq::<u16>::empty() + marks(whole, word_of(words, ' ')) =~= marks(
        whole,
        word_of(words, ' '),
    ));
}

} // verus!
