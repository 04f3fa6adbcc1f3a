//! Laws of what a decoder shows of a text: each character on its place, in its style.

use vstd::prelude::*;

use crate::caption::{Cea608Mode, ChunkView, LineView, LinesView, TextStyle};
use crate::code::{basicna, specialna, westeu, Code, ControlCommand};
use crate::compose::{
    glyph, roll_up_codes, tab_codes, word_of, Draft, Notice, Pen, FIRST_ROW, LAST_COLUMN, LAST_ROW,
};
use crate::element::{Settings, State};
use crate::laws::decoder::{
    basic_word, colour, depth_of, extended_word, law_word_classes_go_by_their_bytes, shown_as,
    space_of, special_word, Decoder,
};
use crate::laws::text::{law_word_classes_are_disjoint, next_row, pending_is_basic};

verus! {

/// The space is an ordinary character.
pub open spec fn plain_space(words: Map<u32, u16>) -> bool {
    !extended_word(space_of(words)) && !special_word(space_of(words))
}

impl Decoder {
    /// Shows a character; the loading of captions is resumed behind a special one.
    pub open spec fn show(self, word: u16) -> Decoder {
        self.fill(word, special_word(word))
    }

    /// Has the cursor put on a place, in the style of a chunk. A colour or italics further
    /// right than the first four columns leaves a blank on the column before.
    pub open spec fn place(
        self,
        row: int,
        col: int,
        chunk: ChunkView,
        mode: Cea608Mode,
        words: Map<u32, u16>,
    ) -> Decoder {
        let there = Decoder {
            depth: if mode == Cea608Mode::PopOn {
                self.depth
            } else {
                depth_of(mode)
            },
            row,
            col,
            style: colour(chunk.style),
            underline: chunk.underline,
            ..self
        };
        if chunk.style != TextStyle::White && col >= 4 {
            Decoder { col: col - 1, ..there }.fill(space_of(words), false)
        } else {
            there
        }
    }

    /// Takes on the style of a chunk, as long as there are two columns left.
    pub open spec fn restyle(self, chunk: ChunkView) -> Decoder {
        if self.col < 31 {
            Decoder { style: colour(chunk.style), underline: chunk.underline, ..self }
        } else {
            self
        }
    }

    /// Shows text of a chunk, a character on each column up to the thirty-second. There a
    /// pop-on text ends, and a roll-up text goes on in a new line.
    pub open spec fn show_text(
        self,
        text: Seq<char>,
        chunk: ChunkView,
        row: int,
        mode: Cea608Mode,
        words: Map<u32, u16>,
    ) -> Decoder
        decreases text.len(),
    {
        if text.len() == 0 {
            self
        } else if text[0] == '\r' {
            self.show_text(text.drop_first(), chunk, row, mode, words)
        } else {
            let shown = self.show(shown_as(words, text[0]));
            if shown.col < 32 {
                shown.show_text(text.drop_first(), chunk, row, mode, words)
            } else if mode == Cea608Mode::PopOn {
                shown
            } else {
                Decoder { line: shown.line + 1, ..shown }.place(
                    row,
                    0,
                    chunk,
                    mode,
                    words,
                ).show_text(text.drop_first(), chunk, row, mode, words)
            }
        }
    }
}

/// What is shown of a text so far.
#[verifier::ext_equal]
pub struct Page {
    pub at: Decoder,
    /// The cursor still has to be put on its place.
    pub fresh: bool,
}

impl Page {
    /// Goes to the column that a line asks for, which in pop-on mode is the first one where
    /// it asks for none.
    pub open spec fn go_to(self, column: Option<u32>, mode: Cea608Mode) -> Page {
        match column {
            Some(c) => Page { at: Decoder { col: c as int, ..self.at }, fresh: true },
            None => if mode == Cea608Mode::PopOn {
                Page { at: Decoder { col: 0, ..self.at }, fresh: true }
            } else {
                self
            },
        }
    }

    /// Shows a chunk of a line: on its place, or else set off by one column from what is
    /// there already.
    pub open spec fn show_chunk(
        self,
        first: bool,
        chunk: ChunkView,
        row: int,
        carriage_return: Option<bool>,
        mode: Cea608Mode,
        words: Map<u32, u16>,
    ) -> Page {
        let rolls = first && mode != Cea608Mode::PopOn && carriage_return == Some(true);
        let at = if rolls {
            Decoder { line: self.at.line + 1, col: 0, ..self.at }
        } else {
            self.at
        };
        let done = if self.fresh || rolls {
            at.place(row, at.col, chunk, mode, words).show_text(
                chunk.text,
                chunk,
                row,
                mode,
                words,
            )
        } else {
            at.restyle(chunk).show_text(seq![' '] + chunk.text, chunk, row, mode, words)
        };
        Page { at: done, fresh: false }
    }

    /// Shows the chunks of a line from the given one on.
    pub open spec fn show_chunks(
        self,
        from: int,
        line: LineView,
        row: int,
        mode: Cea608Mode,
        words: Map<u32, u16>,
    ) -> Page
        decreases line.chunks.len() - from,
    {
        if from >= line.chunks.len() {
            self
        } else {
            self.show_chunk(
                from == 0,
                line.chunks[from],
                row,
                line.carriage_return,
                mode,
                words,
            ).show_chunks(from + 1, line, row, mode, words)
        }
    }

    /// Shows the lines from the given one on, those on one of the fifteen rows. Pop-on lines
    /// go down a row each.
    pub open spec fn show_lines(
        self,
        from: int,
        lines: Seq<LineView>,
        row: int,
        mode: Cea608Mode,
        words: Map<u32, u16>,
    ) -> Page
        decreases lines.len() - from,
    {
        if from >= lines.len() {
            self
        } else {
            let line = lines[from];
            let at = match line.row {
                Some(r) => r as int,
                None => row,
            };
            if at >= 15 {
                self.show_lines(from + 1, lines, at, mode, words)
            } else {
                self.go_to(line.column, mode).show_chunks(0, line, at, mode, words).show_lines(
                    from + 1,
                    lines,
                    if mode == Cea608Mode::PopOn {
                        at + 1
                    } else {
                        at
                    },
                    mode,
                    words,
                )
            }
        }
    }
}

/// A decoder has been told what the pen says: in a roll-up mode that has been announced, it
/// rolls up that many rows, and its cursor is on the column, in the style.
pub open spec fn in_step(pen: Pen, column: int, decoder: Decoder) -> bool {
    pen.mode != Cea608Mode::PopOn && !pen.send_roll_up_preamble ==> {
        &&& decoder.depth == depth_of(pen.mode)
        &&& decoder.col == column
        &&& decoder.style == colour(pen.style)
        &&& decoder.underline == pen.underline
    }
}

/// The mode that a text is shown in.
pub open spec fn mode_of(pen: Pen, lines: LinesView) -> Cea608Mode {
    match lines.mode {
        Some(mode) => mode,
        None => pen.mode,
    }
}

/// Where a text starts: roll-up text goes on where the cursor is, unless the display is
/// cleared or leaves pop-on mode, and has to be announced anew where that or a change of
/// mode comes before it.
pub open spec fn blank_page(pen: Pen, column: u32, lines: LinesView, decoder: Decoder) -> Page {
    let mode = mode_of(pen, lines);
    let clear = lines.clear == Some(true);
    Page {
        at: Decoder {
            col: if pen.mode == Cea608Mode::PopOn || mode == Cea608Mode::PopOn || clear {
                0
            } else {
                column as int
            },
            cells: seq![],
            ..decoder
        },
        fresh: pen.send_roll_up_preamble || mode != pen.mode || clear,
    }
}

/// All that is shown of a text.
pub open spec fn page_of(
    pen: Pen,
    column: u32,
    lines: LinesView,
    decoder: Decoder,
    words: Map<u32, u16>,
) -> Page {
    blank_page(pen, column, lines, decoder).show_lines(
        0,
        lines.lines,
        13,
        mode_of(pen, lines),
        words,
    )
}

/// What a decoder makes of a draft, the character that waits for a second one included.
pub open spec fn seen(decoder: Decoder, draft: Draft, words: Map<u32, u16>) -> Decoder {
    decoder.receive(draft.flush().codes, space_of(words))
}

/// The decoder has the style and the column of the draft.
pub open spec fn told(decoder: Decoder, draft: Draft, words: Map<u32, u16>) -> bool {
    let s = seen(decoder, draft, words);
    &&& pending_is_basic(draft)
    &&& s.col == draft.col
    &&& s.style == colour(draft.pen.style)
    &&& s.underline == draft.pen.underline
    &&& draft.pen.mode != Cea608Mode::PopOn ==> !draft.pen.send_roll_up_preamble && s.depth
        == depth_of(draft.pen.mode)
}

/// The columns that the cursor can be on: those of the row, and in pop-on mode past them.
pub open spec fn in_range(draft: Draft) -> bool {
    &&& 0 <= draft.col
    &&& draft.pen.mode != Cea608Mode::PopOn ==> draft.col <= 31
}

proof fn lemma_words(words: Map<u32, u16>, c: char)
    ensures
        word_of(words, ' ') == space_of(words),
        glyph(words, c) == shown_as(words, c),
{
}

proof fn lemma_seen_put(decoder: Decoder, draft: Draft, code: Code, words: Map<u32, u16>)
    requires
        draft.pending == 0,
    ensures
        seen(decoder, draft.put(code), words) == seen(decoder, draft, words).step(
            code,
            space_of(words),
        ),
{
    decoder.lemma_receive_push(draft.codes, code, space_of(words));
}

proof fn lemma_seen_put_all(
    decoder: Decoder,
    draft: Draft,
    codes: Seq<Code>,
    words: Map<u32, u16>,
)
    requires
        draft.pending == 0,
        codes.len() <= 1,
    ensures
        seen(decoder, draft.put_all(codes), words) == if codes.len() == 0 {
            seen(decoder, draft, words)
        } else {
            seen(decoder, draft, words).step(codes[0], space_of(words))
        },
{
    if codes.len() == 0 {
        assert(draft.codes + codes =~= draft.codes);
    } else {
        assert(draft.codes + codes =~= draft.codes.push(codes[0]));
        lemma_seen_put(decoder, draft, codes[0], words);
    }
}

/// A character that overwrites a space is shown in its place.
proof fn lemma_replaced_space(decoder: Decoder, space: u16, word: u16)
    ensures
        decoder.fill(space, false).replace(word) == decoder.fill(word, false),
        decoder.fill(word, false).resume() == decoder.fill(word, true),
{
    assert(decoder.fill(space, false).cells.drop_last() =~= decoder.cells);
    assert(decoder.fill(word, false).cells.drop_last() =~= decoder.cells);
}

/// A character is shown behind those before it, whatever words it is sent in. A basic
/// character shares the word of one that waits for it; a space that is to be overwritten
/// shares it too, and takes a word of its own otherwise; a special character takes a second
/// word to resume the loading of captions.
pub proof fn law_character_is_shown(
    decoder: Decoder,
    draft: Draft,
    word: u16,
    words: Map<u32, u16>,
)
    requires
        pending_is_basic(draft),
        plain_space(words),
    ensures
        pending_is_basic(draft.put_word(word, space_of(words))),
        seen(decoder, draft.put_word(word, space_of(words)), words) == seen(
            decoder,
            draft,
            words,
        ).show(word),
        draft.put_word(word, space_of(words)).flush().codes.len() == draft.flush().codes.len()
            + if extended_word(word) {
            if draft.pending != 0 {
                1int
            } else {
                2
            }
        } else if special_word(word) {
            2
        } else if basic_word(word) && draft.pending != 0 {
            0
        } else {
            1
        },
{
    let space = space_of(words);
    let codes = draft.codes;
    law_word_classes_are_disjoint(word);
    law_word_classes_are_disjoint(draft.pending);
    law_word_classes_go_by_their_bytes(word);
    law_word_classes_go_by_their_bytes(space);
    law_word_classes_go_by_their_bytes(draft.pending);
    let before = decoder.receive(codes, space);
    let s = seen(decoder, draft, words);
    let done = draft.put_character(word, space);
    decoder.lemma_receive_push(codes, Code::Word(draft.pending), space);
    lemma_replaced_space(s, space, word);
    if basicna(draft.pending) {
        assert(s == before.fill(draft.pending, false));
        if basicna(word) {
            decoder.lemma_receive_push(
                codes,
                Code::BasicNa { first: draft.pending, second: word },
                space,
            );
        } else if westeu(word) {
            let dummy = Code::BasicNa { first: draft.pending, second: space };
            decoder.lemma_receive_push(codes, dummy, space);
            decoder.lemma_receive_push(codes.push(dummy), Code::Word(word), space);
        } else {
            let alone = Code::Word(draft.pending);
            decoder.lemma_receive_push(codes.push(alone), Code::Word(word), space);
        }
    } else {
        assert(s == before);
        if westeu(word) {
            decoder.lemma_receive_push(codes, Code::Word(space), space);
            decoder.lemma_receive_push(codes.push(Code::Word(space)), Code::Word(word), space);
        } else {
            decoder.lemma_receive_push(codes, Code::Word(word), space);
        }
    }
    assert(seen(decoder, done, words) == s.fill(word, false));
    if specialna(word) {
        assert(done.pending == 0);
        lemma_seen_put(
            decoder,
            done,
            Code::Control(ControlCommand::ResumeCaptionLoading),
            words,
        );
    }
}

/// A chunk that starts left of the last column is opened in its style, white included: the
/// pen says so, and so does what the decoder has received. A change takes a column, and where
/// there is none nothing is sent.
pub proof fn law_chunk_is_opened_in_its_style(
    decoder: Decoder,
    draft: Draft,
    chunk: ChunkView,
    words: Map<u32, u16>,
)
    requires
        draft.pending == 0,
        told(decoder, draft, words),
    ensures
        ({
            let opened = draft.open_chunk(chunk);
            let before = seen(decoder, draft, words);
            let after = seen(decoder, opened, words);
            let same = chunk.style == draft.pen.style && chunk.underline == draft.pen.underline;
            &&& told(decoder, opened, words)
            &&& opened.pending == 0
            &&& opened.pen.mode == draft.pen.mode
            &&& draft.col < 31 ==> opened.pen.style == chunk.style && opened.pen.underline
                == chunk.underline
            &&& after == if same || draft.col >= 31 {
                before
            } else {
                before.restyle(chunk).fill(space_of(words), false)
            }
            &&& draft.changes_style(chunk) == (!same && draft.col < 31)
            &&& opened.codes.len() == draft.codes.len() + if same || draft.col >= 31 {
                0int
            } else {
                1
            }
        }),
{
    lemma_seen_put(
        decoder,
        draft,
        Code::MidrowChange { style: chunk.style.number(), underline: chunk.underline },
        words,
    );
}

/// The number of words that a line takes to open on a column.
pub open spec fn words_to_open(mode: Cea608Mode, rolls: bool, styled: bool, col: int) -> int {
    let late = styled && col >= 4;
    let at = if late {
        col - 1
    } else {
        col
    };
    1 + (if mode == Cea608Mode::PopOn {
        0int
    } else {
        1
    }) + (if rolls {
        1int
    } else {
        0
    }) + (if late {
        1int
    } else {
        0
    }) + (if at % 4 == 0 {
        0int
    } else {
        1
    })
}

proof fn lemma_preamble_is_seen(
    decoder: Decoder,
    draft: Draft,
    chunk: ChunkView,
    row: u32,
    words: Map<u32, u16>,
)
    requires
        draft.pending == 0,
        0 <= draft.col <= 31,
        row <= 14,
    ensures
        ({
            let opened = draft.preamble(chunk, row);
            let styled = chunk.style != TextStyle::White;
            let late = styled && draft.col >= 4;
            let before = seen(decoder, draft, words);
            &&& opened.pending == 0
            &&& opened.codes.len() == draft.codes.len() + words_to_open(
                draft.pen.mode,
                false,
                styled,
                draft.col,
            ) - (if late {
                1int
            } else {
                0
            })
            &&& opened.pen.mode == draft.pen.mode
            &&& !opened.pen.send_roll_up_preamble
            &&& opened.pen.underline == chunk.underline
            &&& opened.pen.style == if late {
                TextStyle::White
            } else {
                chunk.style
            }
            &&& opened.col == if late {
                draft.col - 1
            } else {
                draft.col
            }
            &&& seen(decoder, opened, words) == Decoder {
                depth: if draft.pen.mode == Cea608Mode::PopOn {
                    before.depth
                } else {
                    depth_of(draft.pen.mode)
                },
                row: row as int,
                col: opened.col,
                style: colour(opened.pen.style),
                underline: chunk.underline,
                ..before
            }
        }),
{
    let styled = chunk.style != TextStyle::White;
    let style_first = styled && draft.col < 4;
    let at = if styled && !style_first {
        draft.col - 1
    } else {
        draft.col
    };
    let announced = draft.put_all(roll_up_codes(draft.pen.mode));
    let place = if style_first {
        Code::RowStylePreamble {
            row: row as i32,
            style: chunk.style.number(),
            underline: chunk.underline,
        }
    } else {
        Code::RowColumnPreamble {
            row: row as i32,
            col: (at / 4 * 4) as i32,
            underline: chunk.underline,
        }
    };
    lemma_seen_put_all(decoder, draft, roll_up_codes(draft.pen.mode), words);
    lemma_seen_put(decoder, announced, place, words);
    lemma_seen_put_all(decoder, announced.put(place), tab_codes(at % 4), words);
    assert(draft.preamble(chunk, row).flush().codes == announced.put(place).put_all(
        tab_codes(at % 4),
    ).codes);
    assert(at / 4 * 4 + at % 4 == at);
}

/// A line that is opened with a preamble starts where it says: the decoder's cursor is on the
/// row of the line and on its column, in the style and the underline of the first chunk, and
/// so is the pen. That takes a word for the place, one each for a carriage return, the
/// announcement of a roll-up mode and a colour that the place does not carry, and one for
/// columns between the steps of four.
pub proof fn law_line_is_opened_where_it_says(
    decoder: Decoder,
    draft: Draft,
    chunk: ChunkView,
    row: u32,
    carriage_return: Option<bool>,
    words: Map<u32, u16>,
)
    requires
        draft.pending == 0,
        0 <= draft.col <= 31,
        row <= 14,
        draft.pen.mode == Cea608Mode::PopOn || carriage_return == Some(true)
            || draft.pen.send_roll_up_preamble,
    ensures
        ({
            let opened = draft.open_line(chunk, row, carriage_return);
            let before = seen(decoder, draft, words);
            let after = seen(decoder, opened, words);
            let rolls = draft.pen.mode != Cea608Mode::PopOn && carriage_return == Some(true);
            let col = if rolls {
                0
            } else {
                draft.col
            };
            let line = before.line + if rolls {
                1int
            } else {
                0
            };
            &&& !draft.continues(chunk, carriage_return)
            &&& told(decoder, opened, words)
            &&& opened.pending == 0
            &&& opened.pen.mode == draft.pen.mode
            &&& opened.pen.style == chunk.style
            &&& opened.pen.underline == chunk.underline
            &&& opened.col == col
            &&& after.line == line
            &&& after.row == row
            &&& after.col == col
            &&& after.style == colour(chunk.style)
            &&& after.underline == chunk.underline
            &&& after == Decoder { line, ..before }.place(
                row as int,
                col,
                chunk,
                draft.pen.mode,
                words,
            )
            &&& opened.codes.len() == draft.codes.len() + words_to_open(
                draft.pen.mode,
                rolls,
                chunk.style != TextStyle::White,
                col,
            )
        }),
{
    let code = Code::Control(ControlCommand::CarriageReturn);
    lemma_seen_put(decoder, draft, code, words);
    let returned = Draft { col: 0, ..draft.put(code) };
    assert(seen(decoder, returned, words) == seen(decoder, draft.put(code), words));
    let ready = if draft.pen.mode != Cea608Mode::PopOn && carriage_return == Some(true) {
        returned
    } else {
        draft
    };
    lemma_preamble_is_seen(decoder, ready, chunk, row, words);
    law_chunk_is_opened_in_its_style(decoder, ready.preamble(chunk, row), chunk, words);
}

/// Text is shown in order, a character on each column, in the style that the draft has, and
/// behind the end of a roll-up row in that of the chunk.
pub proof fn law_text_is_shown(
    decoder: Decoder,
    draft: Draft,
    text: Seq<char>,
    chunk: ChunkView,
    row: u32,
    words: Map<u32, u16>,
)
    requires
        told(decoder, draft, words),
        in_range(draft),
        row <= 14,
        plain_space(words),
        draft.write_text(text, chunk, row, words) is Some,
    ensures
        ({
            let done = draft.write_text(text, chunk, row, words)->0;
            &&& told(decoder, done, words)
            &&& in_range(done)
            &&& done.pen.mode == draft.pen.mode
            &&& seen(decoder, done, words) == seen(decoder, draft, words).show_text(
                text,
                chunk,
                row as int,
                draft.pen.mode,
                words,
            )
        }),
    decreases text.len(),
{
    if text.len() > 0 {
        let rest = text.drop_first();
        if text[0] == '\r' {
            law_text_is_shown(decoder, draft, rest, chunk, row, words);
        } else {
            let word = shown_as(words, text[0]);
            lemma_words(words, text[0]);
            law_character_is_shown(decoder, draft, word, words);
            let put = draft.put_word(word, space_of(words));
            let written = draft.write_character(text[0], words);
            assert(seen(decoder, written, words) == seen(decoder, put, words));
            assert(told(decoder, written, words));
            if written.col <= LAST_COLUMN {
                law_text_is_shown(decoder, written, rest, chunk, row, words);
            } else if draft.pen.mode != Cea608Mode::PopOn {
                let ready = Draft { col: 0, ..written.flush() };
                assert(seen(decoder, ready, words) == seen(decoder, written, words));
                let opened = written.flush().open_line(chunk, row, Some(true));
                assert(opened == ready.open_line(chunk, row, Some(true)));
                law_line_is_opened_where_it_says(decoder, ready, chunk, row, Some(true), words);
                law_text_is_shown(decoder, opened, rest, chunk, row, words);
            }
        }
    }
}

/// A page is what the decoder shows of a draft.
spec fn on_page(decoder: Decoder, draft: Draft, page: Page, words: Map<u32, u16>) -> bool {
    let s = seen(decoder, draft, words);
    &&& pending_is_basic(draft)
    &&& page.at.cells == s.cells
    &&& page.at.line == s.line
    &&& page.at.col == draft.col
    &&& page.at.depth == s.depth
    &&& !page.fresh ==> page.at == s && told(decoder, draft, words)
    &&& draft.pen.mode != Cea608Mode::PopOn ==> page.fresh == draft.pen.send_roll_up_preamble
}

proof fn lemma_chunk_is_shown(
    decoder: Decoder,
    draft: Draft,
    page: Page,
    first: bool,
    chunk: ChunkView,
    row: u32,
    carriage_return: Option<bool>,
    words: Map<u32, u16>,
)
    requires
        on_page(decoder, draft, page, words),
        in_range(draft),
        page.fresh ==> draft.col <= 31,
        !first ==> !page.fresh,
        first && draft.pen.mode == Cea608Mode::PopOn ==> page.fresh,
        row <= 14,
        plain_space(words),
        draft.write_chunk(first, chunk, row, carriage_return, words) is Some,
    ensures
        ({
            let done = draft.write_chunk(first, chunk, row, carriage_return, words)->0;
            let next = page.show_chunk(
                first,
                chunk,
                row as int,
                carriage_return,
                draft.pen.mode,
                words,
            );
            &&& on_page(decoder, done, next, words)
            &&& in_range(done)
            &&& done.pen.mode == draft.pen.mode
            &&& !next.fresh
        }),
{
    let ready = draft.flush();
    let s = seen(decoder, ready, words);
    assert(s == seen(decoder, draft, words));
    let mode = draft.pen.mode;
    let rolls = first && mode != Cea608Mode::PopOn && carriage_return == Some(true);
    if page.fresh || rolls {
        law_line_is_opened_where_it_says(decoder, ready, chunk, row, carriage_return, words);
        let opened = ready.open_line(chunk, row, carriage_return);
        law_text_is_shown(decoder, opened, chunk.text, chunk, row, words);
        let at = if rolls {
            Decoder { line: page.at.line + 1, col: 0, ..page.at }
        } else {
            page.at
        };
        assert(seen(decoder, opened, words) == at.place(row as int, at.col, chunk, mode, words));
    } else {
        assert(told(decoder, ready, words));
        law_chunk_is_opened_in_its_style(decoder, ready, chunk, words);
        let opened = ready.open_chunk(chunk);
        let spaced = seq![' '] + chunk.text;
        assert(spaced.drop_first() =~= chunk.text);
        lemma_words(words, ' ');
        if ready.changes_style(chunk) {
            law_text_is_shown(decoder, opened, chunk.text, chunk, row, words);
            assert(s.restyle(chunk).show_text(spaced, chunk, row as int, mode, words) == seen(
                decoder,
                opened,
                words,
            ).show_text(chunk.text, chunk, row as int, mode, words));
        } else {
            assert(s.restyle(chunk) == s);
            law_text_is_shown(decoder, ready, spaced, chunk, row, words);
        }
    }
}

proof fn lemma_chunks_are_shown(
    decoder: Decoder,
    draft: Draft,
    page: Page,
    from: int,
    line: LineView,
    row: u32,
    words: Map<u32, u16>,
)
    requires
        0 <= from,
        on_page(decoder, draft, page, words),
        in_range(draft),
        page.fresh ==> draft.col <= 31,
        from > 0 ==> !page.fresh,
        from == 0 && draft.pen.mode == Cea608Mode::PopOn ==> page.fresh,
        row <= 14,
        plain_space(words),
        draft.write_chunks(from, line, row, words) is Some,
    ensures
        ({
            let done = draft.write_chunks(from, line, row, words)->0;
            &&& on_page(
                decoder,
                done,
                page.show_chunks(from, line, row as int, draft.pen.mode, words),
                words,
            )
            &&& in_range(done)
            &&& done.pen.mode == draft.pen.mode
        }),
    decreases line.chunks.len() - from,
{
    if from < line.chunks.len() {
        let chunk = line.chunks[from];
        let first = from == 0;
        lemma_chunk_is_shown(
            decoder,
            draft,
            page,
            first,
            chunk,
            row,
            line.carriage_return,
            words,
        );
        lemma_chunks_are_shown(
            decoder,
            draft.write_chunk(first, chunk, row, line.carriage_return, words)->0,
            page.show_chunk(
                first,
                chunk,
                row as int,
                line.carriage_return,
                draft.pen.mode,
                words,
            ),
            from + 1,
            line,
            row,
            words,
        );
    }
}

/// A line that names no column past the screen.
pub open spec fn on_columns(line: LineView) -> bool {
    line.column matches Some(column) ==> column < 32
}

proof fn lemma_lines_are_shown(
    decoder: Decoder,
    draft: Draft,
    page: Page,
    from: int,
    lines: Seq<LineView>,
    row: u32,
    words: Map<u32, u16>,
)
    requires
        0 <= from,
        on_page(decoder, draft, page, words),
        in_range(draft),
        plain_space(words),
        forall|i: int| from <= i < lines.len() ==> on_columns(#[trigger] lines[i]),
        draft.write_lines(from, lines, row, words) is Some,
    ensures
        ({
            let done = draft.write_lines(from, lines, row, words)->0;
            &&& on_page(
                decoder,
                done,
                page.show_lines(from, lines, row as int, draft.pen.mode, words),
                words,
            )
            &&& in_range(done)
            &&& done.pen.mode == draft.pen.mode
        }),
    decreases lines.len() - from,
{
    if from < lines.len() {
        let line = lines[from];
        let mode = draft.pen.mode;
        let at = Draft::row_of(line, row);
        assert(on_columns(line));
        if at > LAST_ROW {
            let noted = draft.note(Notice::LineDropped(from as usize));
            assert(seen(decoder, noted, words) == seen(decoder, draft, words));
            lemma_lines_are_shown(decoder, noted, page, from + 1, lines, at, words);
        } else {
            let moved = draft.move_to_column(line.column);
            let there = page.go_to(line.column, mode);
            assert(seen(decoder, moved, words) == seen(decoder, draft, words));
            assert(on_page(decoder, moved, there, words));
            lemma_chunks_are_shown(decoder, moved, there, 0, line, at, words);
            let written = moved.write_chunks(0, line, at, words)->0;
            let next = there.show_chunks(0, line, at as int, mode, words);
            assert(seen(decoder, written.end_line(), words) == seen(decoder, written, words));
            lemma_lines_are_shown(
                decoder,
                written.end_line(),
                next,
                from + 1,
                lines,
                next_row(mode, at),
                words,
            );
        }
    }
}

/// What a decoder shows of a text is the text: it fills the columns that the lines, their
/// chunks and characters take one after the other, each chunk in its own style and set off
/// from the one before by one blank column, from the row and the column that each line asks
/// for. And what the pen says when the text ends is what the decoder has been told.
pub proof fn law_screen_shows_the_text(
    pen: Pen,
    column: u32,
    lines: LinesView,
    shown: bool,
    words: Map<u32, u16>,
    decoder: Decoder,
)
    requires
        pen.document(column, lines, shown, words) is Some,
        in_step(pen, column as int, decoder),
        pen.mode == Cea608Mode::PopOn || column < 32,
        plain_space(words),
        forall|i: int| 0 <= i < lines.lines.len() ==> on_columns(#[trigger] lines.lines[i]),
    ensures
        ({
            let done = pen.document(column, lines, shown, words)->0;
            let start = Decoder { cells: seq![], ..decoder };
            let after = start.receive(done.codes, space_of(words));
            let page = page_of(pen, column, lines, decoder, words);
            &&& after.cells == page.at.cells
            &&& done.col == page.at.col
            &&& done.pen.mode == mode_of(pen, lines)
            &&& in_step(done.pen, done.col, after)
            &&& done.pen.mode != Cea608Mode::PopOn ==> 0 <= done.col < 32
            &&& done.pen.mode != Cea608Mode::PopOn ==> done.pen.send_roll_up_preamble
                == page.fresh
        }),
{
    let d = Decoder { cells: seq![], ..decoder };
    let space = space_of(words);
    let start = pen.opening(column, lines, shown);
    let page = blank_page(pen, column, lines, decoder);
    assert(seen(d, start, words) == d) by {
        reveal_with_fuel(Decoder::receive, 4);
        assert(start.codes.len() <= 3);
    }
    if start.pen.mode == Cea608Mode::PopOn {
        let fresh = Page { fresh: true, ..page };
        lemma_lines_are_shown(d, start, fresh, 0, lines.lines, FIRST_ROW, words);
        lemma_pop_on_starts_fresh(page, fresh, 0, lines.lines, 13, words);
    } else {
        lemma_lines_are_shown(d, start, page, 0, lines.lines, FIRST_ROW, words);
    }
    let written = start.write_lines(0, lines.lines, FIRST_ROW, words)->0;
    lemma_seen_put(
        d,
        written.flush(),
        Code::Control(ControlCommand::EndOfCaption),
        words,
    );
}

/// Each pop-on line is put on its place, whatever came before it.
proof fn lemma_pop_on_starts_fresh(
    a: Page,
    b: Page,
    from: int,
    lines: Seq<LineView>,
    row: int,
    words: Map<u32, u16>,
)
    requires
        a.at == b.at,
    ensures
        a.show_lines(from, lines, row, Cea608Mode::PopOn, words).at == b.show_lines(
            from,
            lines,
            row,
            Cea608Mode::PopOn,
            words,
        ).at,
    decreases lines.len() - from,
{
    if from < lines.len() {
        let line = lines[from];
        let at = match line.row {
            Some(r) => r as int,
            None => row,
        };
        if at >= 15 {
            lemma_pop_on_starts_fresh(a, b, from + 1, lines, at, words);
        } else {
            assert(a.go_to(line.column, Cea608Mode::PopOn) == b.go_to(
                line.column,
                Cea608Mode::PopOn,
            ));
        }
    }
}

/// An element that starts anew takes nothing for granted of the decoder.
pub proof fn law_start_is_in_step_with_any_decoder(settings: Settings, decoder: Decoder)
    ensures
        ({
            let state = State::started(settings);
            &&& state.pen.mode == settings.mode
            &&& in_step(state.pen, state.column as int, decoder)
            &&& state.column < 32
        }),
{
}

/// From one buffer to the next the element knows what the decoder has been told.
pub proof fn law_buffers_stay_in_step(
    state: State,
    pts: u64,
    duration: u64,
    lines: LinesView,
    words: Map<u32, u16>,
    decoder: Decoder,
)
    requires
        state.can_generate(pts as int, duration as int, lines, words),
        in_step(state.pen, state.column as int, decoder),
        state.pen.mode == Cea608Mode::PopOn || state.column < 32,
        plain_space(words),
        forall|i: int| 0 <= i < lines.lines.len() ==> on_columns(#[trigger] lines.lines[i]),
    ensures
        ({
            let after = state.generated(pts as int, duration as int, lines, words);
            let codes = state.written(pts as int, duration as int, lines, words)->0.codes;
            let told = Decoder { cells: seq![], ..decoder }.receive(codes, space_of(words));
            let page = page_of(state.pen, state.column, lines, decoder, words);
            &&& told.cells == page.at.cells
            &&& after.pen.mode != Cea608Mode::PopOn ==> after.column < 32
            &&& in_step(after.pen, after.column as int, told)
        }),
{
    law_screen_shows_the_text(
        state.pen,
        state.column,
        lines,
        state.shows(pts as int, duration as int),
        words,
        decoder,
    );
}

} // verus!
