//! Which caption words a piece of timed text needs.

use std::collections::HashMap;
use vstd::prelude::*;

use crate::caption::{
    Cea608Mode, Chunk, ChunkView, Line, LineView, Lines, LinesView, TextStyle,
};
use crate::code::{
    basicna, is_basicna, is_specialna, is_westeu, specialna, westeu, Code, ControlCommand,
};

verus! {

/// The column after which nothing fits a row.
pub const LAST_COLUMN: u32 = 31;

/// The last row of a screen.
pub const LAST_ROW: u32 = 14;

/// The row of the first line, where a text does not say.
pub const FIRST_ROW: u32 = 13;

/// What a decoder has been told of the text to come.
#[derive(Clone, Copy, Debug, PartialEq, Eq, Structural)]
pub struct Pen {
    pub mode: Cea608Mode,
    /// A roll-up mode still has to be announced.
    pub send_roll_up_preamble: bool,
    pub style: TextStyle,
    pub underline: bool,
}

/// Something of a text that is not sent as it stands.
#[derive(Clone, Copy, Debug, PartialEq, Eq)]
pub enum Notice {
    /// The line with this index has no row on the screen, and is dropped.
    LineDropped(usize),
    /// The character has no word, and a space is sent in its place.
    NotTranslated(char),
    /// The character is the last on its pop-on row; the rest of its chunk is dropped.
    RowFull(char),
}

/// Caption words in the making.
#[verifier::ext_equal]
pub struct Draft {
    pub pen: Pen,
    /// The column of the next character.
    pub col: int,
    /// A basic character that waits for a second one to share a word with; zero if none.
    pub pending: u16,
    pub codes: Seq<Code>,
    /// What was met that is not sent as it stands.
    pub notices: Seq<Notice>,
}

/// The word of a character, zero if it has none.
pub open spec fn word_of(words: Map<u32, u16>, c: char) -> u16 {
    if words.contains_key(c as u32) {
        words[c as u32]
    } else {
        0
    }
}

/// The word that stands for a character: that of a space, where it has none of its own.
pub open spec fn glyph(words: Map<u32, u16>, c: char) -> u16 {
    if word_of(words, c) != 0 {
        word_of(words, c)
    } else {
        word_of(words, ' ')
    }
}

/// The command that announces a mode, before a preamble.
pub open spec fn roll_up_codes(mode: Cea608Mode) -> Seq<Code> {
    match mode {
        Cea608Mode::PopOn => seq![],
        Cea608Mode::RollUp2 => seq![Code::Control(ControlCommand::RollUp2)],
        Cea608Mode::RollUp3 => seq![Code::Control(ControlCommand::RollUp3)],
        Cea608Mode::RollUp4 => seq![Code::Control(ControlCommand::RollUp4)],
    }
}

/// The command that moves the cursor by up to three columns.
pub open spec fn tab_codes(offset: int) -> Seq<Code> {
    if offset == 1 {
        seq![Code::Control(ControlCommand::TabOffset1)]
    } else if offset == 2 {
        seq![Code::Control(ControlCommand::TabOffset2)]
    } else if offset == 3 {
        seq![Code::Control(ControlCommand::TabOffset3)]
    } else {
        seq![]
    }
}

impl Draft {
    /// Adds a code.
    pub open spec fn put(self, code: Code) -> Draft {
        Draft { codes: self.codes.push(code), ..self }
    }

    /// Adds codes.
    pub open spec fn put_all(self, codes: Seq<Code>) -> Draft {
        Draft { codes: self.codes + codes, ..self }
    }

    /// Adds a notice.
    pub open spec fn note(self, notice: Notice) -> Draft {
        Draft { notices: self.notices.push(notice), ..self }
    }

    /// Sends the character that waits for a second one on its own.
    pub open spec fn flush(self) -> Draft {
        if self.pending != 0 {
            Draft { pending: 0, ..self.put(Code::Word(self.pending)) }
        } else {
            self
        }
    }

    /// A chunk needs a change of style, and there is a column left for it.
    pub open spec fn changes_style(self, chunk: ChunkView) -> bool {
        &&& chunk.style != self.pen.style || chunk.underline != self.pen.underline
        &&& self.col < LAST_COLUMN
    }

    /// Changes to the style of a chunk, which takes a column.
    pub open spec fn open_chunk(self, chunk: ChunkView) -> Draft {
        if self.changes_style(chunk) {
            Draft {
                pen: Pen { style: chunk.style, underline: chunk.underline, ..self.pen },
                col: self.col + 1,
                ..self.put(
                    Code::MidrowChange {
                        style: chunk.style.number(),
                        underline: chunk.underline,
                    },
                )
            }
        } else {
            self
        }
    }

    /// A line starts with a carriage return.
    pub open spec fn rolls_up(self, carriage_return: Option<bool>) -> bool {
        self.pen.mode != Cea608Mode::PopOn && carriage_return == Some(true)
    }

    /// A line starts with a preamble.
    pub open spec fn needs_preamble(self, carriage_return: Option<bool>) -> bool {
        ||| self.pen.mode == Cea608Mode::PopOn
        ||| self.rolls_up(carriage_return)
        ||| self.pen.send_roll_up_preamble
    }

    /// The cursor moves to its column, in the style of the chunk. A preamble carries
    /// a style only in place of an indent, in steps of four columns; behind an indent
    /// the style has to follow, and takes the column before the text.
    pub open spec fn preamble(self, chunk: ChunkView, row: u32) -> Draft {
        let styled = chunk.style != TextStyle::White;
        let style_first = styled && self.col < 4;
        let at = if styled && !style_first {
            self.col - 1
        } else {
            self.col
        };
        let place = if style_first {
            Code::RowStylePreamble {
                row: row as i32,
                style: chunk.style.number(),
                underline: chunk.underline,
            }
        } else {
            Code::RowColumnPreamble {
                row: row as i32,
                col: (at / 4 * 4) as i32,
                underline: chunk.underline,
            }
        };
        Draft {
            pen: Pen {
                mode: self.pen.mode,
                send_roll_up_preamble: false,
                style: if style_first {
                    chunk.style
                } else {
                    TextStyle::White
                },
                underline: chunk.underline,
            },
            col: at,
            ..self.put_all(roll_up_codes(self.pen.mode)).put(place).put_all(tab_codes(at % 4))
        }
    }

    /// Starts a line on a row, in the style of its first chunk.
    pub open spec fn open_line(
        self,
        chunk: ChunkView,
        row: u32,
        carriage_return: Option<bool>,
    ) -> Draft {
        if self.rolls_up(carriage_return) {
            Draft {
                col: 0,
                ..self.put(Code::Control(ControlCommand::CarriageReturn))
            }.preamble(chunk, row).open_chunk(chunk)
        } else if self.needs_preamble(carriage_return) {
            self.preamble(chunk, row).open_chunk(chunk)
        } else {
            self.open_chunk(chunk)
        }
    }

    /// A line goes on right behind the text before it, so that a space is due.
    pub open spec fn continues(self, chunk: ChunkView, carriage_return: Option<bool>) -> bool {
        !self.needs_preamble(carriage_return) && !self.changes_style(chunk)
    }

    /// Writes a character. Two basic characters share a word. An extended character
    /// overwrites the one before it, so a space goes before it.
    pub open spec fn put_character(self, word: u16, space: u16) -> Draft {
        if basicna(self.pending) {
            Draft {
                pending: 0,
                ..if basicna(word) {
                    self.put(Code::BasicNa { first: self.pending, second: word })
                } else if westeu(word) {
                    self.put(Code::BasicNa { first: self.pending, second: space }).put(
                        Code::Word(word),
                    )
                } else {
                    self.put(Code::Word(self.pending)).put(Code::Word(word))
                }
            }
        } else if westeu(word) {
            self.put(Code::Word(space)).put(Code::Word(word))
        } else if basicna(word) {
            Draft { pending: word, ..self }
        } else {
            self.put(Code::Word(word))
        }
    }

    /// Writes a character; behind a special one the loading of captions is resumed.
    pub open spec fn put_word(self, word: u16, space: u16) -> Draft {
        if specialna(word) {
            self.put_character(word, space).put(
                Code::Control(ControlCommand::ResumeCaptionLoading),
            )
        } else {
            self.put_character(word, space)
        }
    }

    /// What there is to note about a character: it has no word, or it fills its pop-on row.
    pub open spec fn character_notices(self, c: char, words: Map<u32, u16>) -> Seq<Notice> {
        let unknown = if word_of(words, c) == 0 {
            seq![Notice::NotTranslated(c)]
        } else {
            seq![]
        };
        let full = if self.pen.mode == Cea608Mode::PopOn && self.col >= LAST_COLUMN {
            seq![Notice::RowFull(c)]
        } else {
            seq![]
        };
        unknown + full
    }

    /// Writes a character on the next column.
    pub open spec fn write_character(self, c: char, words: Map<u32, u16>) -> Draft {
        Draft {
            col: self.col + 1,
            notices: self.notices + self.character_notices(c, words),
            ..self.put_word(glyph(words, c), word_of(words, ' '))
        }
    }

    /// Writes text of a chunk. Carriage returns in it are left out. At the end of a row
    /// the rest of the text is dropped in pop-on mode, and goes on in a new line in a
    /// roll-up mode. `None` where the column would pass 32 bits.
    pub open spec fn write_text(
        self,
        text: Seq<char>,
        chunk: ChunkView,
        row: u32,
        words: Map<u32, u16>,
    ) -> Option<Draft>
        decreases text.len(),
    {
        if text.len() == 0 {
            Some(self)
        } else if text[0] == '\r' {
            self.write_text(text.drop_first(), chunk, row, words)
        } else if self.col >= u32::MAX {
            None
        } else {
            let written = self.write_character(text[0], words);
            if written.col <= LAST_COLUMN {
                written.write_text(text.drop_first(), chunk, row, words)
            } else if self.pen.mode == Cea608Mode::PopOn {
                Some(written)
            } else {
                written.flush().open_line(chunk, row, Some(true)).write_text(
                    text.drop_first(),
                    chunk,
                    row,
                    words,
                )
            }
        }
    }

    /// Writes a chunk of a line; one that goes on right behind the text before it
    /// starts with a space.
    pub open spec fn write_chunk(
        self,
        first: bool,
        chunk: ChunkView,
        row: u32,
        carriage_return: Option<bool>,
        words: Map<u32, u16>,
    ) -> Option<Draft> {
        let ready = self.flush();
        let (opened, spaced) = if first {
            (
                ready.open_line(chunk, row, carriage_return),
                ready.continues(chunk, carriage_return),
            )
        } else {
            (ready.open_chunk(chunk), !ready.changes_style(chunk))
        };
        let text = if spaced {
            seq![' '] + chunk.text
        } else {
            chunk.text
        };
        opened.write_text(text, chunk, row, words)
    }

    /// Writes the chunks of a line from the given one on.
    pub open spec fn write_chunks(
        self,
        from: int,
        line: LineView,
        row: u32,
        words: Map<u32, u16>,
    ) -> Option<Draft>
        decreases line.chunks.len() - from,
    {
        if from >= line.chunks.len() {
            Some(self)
        } else {
            match self.write_chunk(
                from == 0,
                line.chunks[from],
                row,
                line.carriage_return,
                words,
            ) {
                Some(written) => written.write_chunks(from + 1, line, row, words),
                None => None,
            }
        }
    }

    /// Moves to the column that a line asks for. Pop-on lines start at the left edge;
    /// roll-up lines go on where the text is.
    pub open spec fn move_to_column(self, column: Option<u32>) -> Draft {
        let pop_on = self.pen.mode == Cea608Mode::PopOn;
        match column {
            Some(c) => Draft {
                col: c as int,
                pen: Pen {
                    send_roll_up_preamble: self.pen.send_roll_up_preamble || !pop_on,
                    ..self.pen
                },
                ..self
            },
            None => Draft {
                col: if pop_on {
                    0
                } else {
                    self.col
                },
                ..self
            },
        }
    }

    /// Ends a line, which only pop-on mode does.
    pub open spec fn end_line(self) -> Draft {
        if self.pen.mode == Cea608Mode::PopOn {
            self.flush()
        } else {
            self
        }
    }

    /// The row of a line: its own, or else the one that the line before it leaves.
    pub open spec fn row_of(line: LineView, row: u32) -> u32 {
        match line.row {
            Some(r) => r,
            None => row,
        }
    }

    /// Writes the lines from the given one on; those below the last row are dropped, and
    /// noted.
    pub open spec fn write_lines(
        self,
        from: int,
        lines: Seq<LineView>,
        row: u32,
        words: Map<u32, u16>,
    ) -> Option<Draft>
        decreases lines.len() - from,
    {
        if from >= lines.len() {
            Some(self)
        } else {
            let line = lines[from];
            let at = Self::row_of(line, row);
            if at > LAST_ROW {
                self.note(Notice::LineDropped(from as usize)).write_lines(
                    from + 1,
                    lines,
                    at,
                    words,
                )
            } else {
                match self.move_to_column(line.column).write_chunks(0, line, at, words) {
                    Some(written) => written.end_line().write_lines(
                        from + 1,
                        lines,
                        if written.pen.mode == Cea608Mode::PopOn {
                            (at + 1) as u32
                        } else {
                            at
                        },
                        words,
                    ),
                    None => None,
                }
            }
        }
    }

    /// Ends the text; in pop-on mode it is then shown.
    pub open spec fn close(self) -> Draft {
        if self.pen.mode == Cea608Mode::PopOn {
            self.flush().put(Code::Control(ControlCommand::EndOfCaption))
        } else {
            self.flush()
        }
    }
}

impl Pen {
    /// The mode that a text is shown in.
    pub open spec fn target(self, lines: LinesView) -> Cea608Mode {
        match lines.mode {
            Some(mode) => mode,
            None => self.mode,
        }
    }

    /// The text takes the display to pop-on mode, or out of it.
    pub open spec fn crosses_pop_on(self, lines: LinesView) -> bool {
        &&& self.target(lines) != self.mode
        &&& self.mode == Cea608Mode::PopOn || self.target(lines) == Cea608Mode::PopOn
    }

    /// The text asks for a display that is clear, and the change of mode does not see to it.
    pub open spec fn clears(self, lines: LinesView) -> bool {
        lines.clear == Some(true) && !self.crosses_pop_on(lines)
    }

    /// The display is erased before the text: on the way to or from pop-on mode, where
    /// the text asks for it, and before a new pop-on caption while one is shown.
    pub open spec fn erases(self, lines: LinesView, shown: bool) -> bool {
        ||| self.crosses_pop_on(lines)
        ||| self.clears(lines)
        ||| self.target(lines) == Cea608Mode::PopOn && shown
    }

    /// What comes before the text itself. `column` is where roll-up text was left, and
    /// `shown` says that a pop-on caption is still to be erased.
    pub open spec fn opening(self, column: u32, lines: LinesView, shown: bool) -> Draft {
        let target = self.target(lines);
        let erase = if self.erases(lines, shown) {
            seq![Code::Control(ControlCommand::EraseDisplayMemory)]
        } else {
            seq![]
        };
        let load = if target == Cea608Mode::PopOn {
            seq![
                Code::Control(ControlCommand::ResumeCaptionLoading),
                Code::Control(ControlCommand::EraseNonDisplayedMemory),
            ]
        } else {
            seq![]
        };
        Draft {
            pen: Pen {
                mode: target,
                send_roll_up_preamble: self.send_roll_up_preamble || (target != Cea608Mode::PopOn
                    && (target != self.mode || self.clears(lines))),
                ..self
            },
            col: if self.mode == Cea608Mode::PopOn || target == Cea608Mode::PopOn || self.clears(
                lines,
            ) {
                0
            } else {
                column as int
            },
            pending: 0,
            codes: erase + load,
            notices: seq![],
        }
    }

    /// All the words of a text, and what the decoder has been told with them.
    pub open spec fn document(
        self,
        column: u32,
        lines: LinesView,
        shown: bool,
        words: Map<u32, u16>,
    ) -> Option<Draft> {
        match self.opening(column, lines, shown).write_lines(
            0,
            lines.lines,
            FIRST_ROW,
            words,
        ) {
            Some(written) => Some(written.close()),
            None => None,
        }
    }
}

impl Draft {
    /// Writing text leaves the mode as it is.
    pub proof fn lemma_write_text_mode(
        self,
        text: Seq<char>,
        chunk: ChunkView,
        row: u32,
        words: Map<u32, u16>,
    )
        ensures
            self.write_text(text, chunk, row, words) matches Some(d) ==> d.pen.mode
                == self.pen.mode,
        decreases text.len(),
    {
        if text.len() > 0 {
            let rest = text.drop_first();
            let written = self.write_character(text[0], words);
            self.lemma_write_text_mode(rest, chunk, row, words);
            written.lemma_write_text_mode(rest, chunk, row, words);
            written.flush().open_line(chunk, row, Some(true)).lemma_write_text_mode(
                rest,
                chunk,
                row,
                words,
            );
        }
    }

    /// Writing the chunks of a line leaves the mode as it is.
    pub proof fn lemma_write_chunks_mode(
        self,
        from: int,
        line: LineView,
        row: u32,
        words: Map<u32, u16>,
    )
        ensures
            self.write_chunks(from, line, row, words) matches Some(d) ==> d.pen.mode
                == self.pen.mode,
        decreases line.chunks.len() - from,
    {
        if from < line.chunks.len() {
            let chunk = line.chunks[from];
            let ready = self.flush();
            let opened = if from == 0 {
                ready.open_line(chunk, row, line.carriage_return)
            } else {
                ready.open_chunk(chunk)
            };
            opened.lemma_write_text_mode(chunk.text, chunk, row, words);
            opened.lemma_write_text_mode(seq![' '] + chunk.text, chunk, row, words);
            if let Some(d) = self.write_chunk(
                from == 0,
                chunk,
                row,
                line.carriage_return,
                words,
            ) {
                d.lemma_write_chunks_mode(from + 1, line, row, words);
            }
        }
    }

    /// Writing lines leaves the mode as it is.
    pub proof fn lemma_write_lines_mode(
        self,
        from: int,
        lines: Seq<LineView>,
        row: u32,
        words: Map<u32, u16>,
    )
        ensures
            self.write_lines(from, lines, row, words) matches Some(d) ==> d.pen.mode
                == self.pen.mode,
        decreases lines.len() - from,
    {
        if from < lines.len() {
            let line = lines[from];
            let at = Self::row_of(line, row);
            if at > LAST_ROW {
                self.note(Notice::LineDropped(from as usize)).lemma_write_lines_mode(
                    from + 1,
                    lines,
                    at,
                    words,
                );
            } else {
                let moved = self.move_to_column(line.column);
                moved.lemma_write_chunks_mode(0, line, at, words);
                if let Some(d) = moved.write_chunks(0, line, at, words) {
                    let below = if d.pen.mode == Cea608Mode::PopOn {
                        (at + 1) as u32
                    } else {
                        at
                    };
                    d.end_line().lemma_write_lines_mode(from + 1, lines, below, words);
                }
            }
        }
    }
}

/// Looks up the word of a character, zero if it has none.
pub fn lookup(words: &HashMap<u32, u16>, c: char) -> (w: u16)
    ensures
        w == word_of(words@, c),
{
    broadcast use vstd::std_specs::hash::group_hash_axioms;

    match words.get(&(c as u32)) {
        Some(w) => *w,
        None => 0,
    }
}

/// Writes caption words.
pub struct Composer {
    pub pen: Pen,
    pub col: u32,
    pub pending: u16,
    pub codes: Vec<Code>,
    pub notices: Vec<Notice>,
}

impl View for Composer {
    type V = Draft;

    open spec fn view(&self) -> Draft {
        Draft {
            pen: self.pen,
            col: self.col as int,
            pending: self.pending,
            codes: self.codes@,
            notices: self.notices@,
        }
    }
}

impl Composer {
    /// Adds a code.
    pub fn put(&mut self, code: Code)
        ensures
            final(self)@ == old(self)@.put(code),
    {
        self.codes.push(code);
    }

    /// Sends the character that waits for a second one on its own.
    pub fn flush(&mut self)
        ensures
            final(self)@ == old(self)@.flush(),
    {
        if self.pending != 0 {
            self.put(Code::Word(self.pending));
            self.pending = 0;
        }
    }

    /// Moves the cursor to the right, by less than four columns.
    pub fn tab_offset(&mut self, offset: u32)
        requires
            offset < 4,
        ensures
            final(self)@ == old(self)@.put_all(tab_codes(offset as int)),
    {
        let ghost before = self@;
        match offset {
            1 => self.put(Code::Control(ControlCommand::TabOffset1)),
            2 => self.put(Code::Control(ControlCommand::TabOffset2)),
            3 => self.put(Code::Control(ControlCommand::TabOffset3)),
            _ => (),
        }
        assert(self@ =~= before.put_all(tab_codes(offset as int)));
    }

    /// Changes to the style of a chunk if it has to, and says whether it did.
    pub fn open_chunk(&mut self, chunk: &Chunk) -> (r: bool)
        ensures
            final(self)@ == old(self)@.open_chunk(chunk@),
            r == old(self)@.changes_style(chunk@),
    {
        if (chunk.style != self.pen.style || chunk.underline != self.pen.underline) && self.col
            < LAST_COLUMN {
            self.put(
                Code::MidrowChange {
                    style: chunk.style.to_u32(),
                    underline: chunk.underline,
                },
            );
            self.pen.style = chunk.style;
            self.pen.underline = chunk.underline;
            self.col = self.col + 1;
            true
        } else {
            false
        }
    }

    /// Moves the cursor to its column, in the style of a chunk.
    fn preamble(&mut self, chunk: &Chunk, row: u32)
        ensures
            final(self)@ == old(self)@.preamble(chunk@, row),
    {
        let ghost before = self@;
        let mut indent: u32 = self.col / 4;
        let mut offset: u32 = self.col % 4;
        match self.pen.mode {
            Cea608Mode::RollUp2 => self.put(Code::Control(ControlCommand::RollUp2)),
            Cea608Mode::RollUp3 => self.put(Code::Control(ControlCommand::RollUp3)),
            Cea608Mode::RollUp4 => self.put(Code::Control(ControlCommand::RollUp4)),
            Cea608Mode::PopOn => (),
        }
        assert(self@ =~= before.put_all(roll_up_codes(before.pen.mode)));
        if chunk.style != TextStyle::White && indent == 0 {
            self.put(
                Code::RowStylePreamble {
                    row: row as i32,
                    style: chunk.style.to_u32(),
                    underline: chunk.underline,
                },
            );
            self.pen.style = chunk.style;
        } else {
            if chunk.style != TextStyle::White {
                if offset > 0 {
                    offset = offset - 1;
                } else {
                    indent = indent - 1;
                    offset = 3;
                }
                self.col = self.col - 1;
            }
            self.pen.style = TextStyle::White;
            self.put(
                Code::RowColumnPreamble {
                    row: row as i32,
                    col: (indent * 4) as i32,
                    underline: chunk.underline,
                },
            );
        }
        self.tab_offset(offset);
        self.pen.underline = chunk.underline;
        self.pen.send_roll_up_preamble = false;
    }

    /// Starts a line, and says whether it goes on right behind the text before it.
    pub fn open_line(
        &mut self,
        chunk: &Chunk,
        row: u32,
        carriage_return: Option<bool>,
    ) -> (r: bool)
        ensures
            final(self)@ == old(self)@.open_line(chunk@, row, carriage_return),
            r == old(self)@.continues(chunk@, carriage_return),
    {
        let mut ret = true;
        let do_preamble = match self.pen.mode {
            Cea608Mode::PopOn => true,
            Cea608Mode::RollUp2 | Cea608Mode::RollUp3 | Cea608Mode::RollUp4 => {
                match carriage_return {
                    Some(true) => {
                        self.col = 0;
                        self.put(Code::Control(ControlCommand::CarriageReturn));
                        true
                    },
                    _ => self.pen.send_roll_up_preamble,
                }
            },
        };
        if do_preamble {
            self.preamble(chunk, row);
            ret = false;
        }
        if self.open_chunk(chunk) {
            ret = false;
        }
        ret
    }

    /// Writes a character.
    pub fn put_word(&mut self, word: u16, space: u16)
        ensures
            final(self)@ == old(self)@.put_word(word, space),
    {
        if is_basicna(self.pending) {
            if is_basicna(word) {
                self.put(Code::BasicNa { first: self.pending, second: word });
            } else if is_westeu(word) {
                self.put(Code::BasicNa { first: self.pending, second: space });
                self.put(Code::Word(word));
            } else {
                self.put(Code::Word(self.pending));
                self.put(Code::Word(word));
            }
            self.pending = 0;
        } else if is_westeu(word) {
            self.put(Code::Word(space));
            self.put(Code::Word(word));
        } else if is_basicna(word) {
            self.pending = word;
        } else {
            self.put(Code::Word(word));
        }
        if is_specialna(word) {
            self.put(Code::Control(ControlCommand::ResumeCaptionLoading));
        }
    }

    /// Writes a character on the next column.
    pub fn write_character(&mut self, c: char, words: &HashMap<u32, u16>)
        requires
            old(self).col < u32::MAX,
        ensures
            final(self)@ == old(self)@.write_character(c, words@),
    {
        let ghost before = self@;
        let mut word = lookup(words, c);
        let space = lookup(words, ' ');
        if word == 0 {
            self.notices.push(Notice::NotTranslated(c));
            word = space;
        }
        self.put_word(word, space);
        self.col = self.col + 1;
        if self.pen.mode == Cea608Mode::PopOn && self.col > LAST_COLUMN {
            self.notices.push(Notice::RowFull(c));
        }
        assert(self@ =~= before.write_character(c, words@));
    }

    /// Writes text of a chunk; `false` where the column would pass 32 bits.
    pub fn write_text(
        &mut self,
        text: &str,
        chunk: &Chunk,
        row: u32,
        words: &HashMap<u32, u16>,
    ) -> (r: bool)
        ensures
            old(self)@.write_text(text@, chunk@, row, words@) == (if r {
                Some(final(self)@)
            } else {
                None
            }),
    {
        let ghost whole = self@.write_text(text@, chunk@, row, words@);
        assert(text@.skip(0) =~= text@);
        for c in chars: text.chars()
            invariant
                chars.seq() == text@,
                whole == old(self)@.write_text(text@, chunk@, row, words@),
                whole == self@.write_text(text@.skip(chars.index()), chunk@, row, words@),
        {
            let ghost rest = text@.skip(chars.index());
            assert(rest.drop_first() =~= text@.skip(chars.index() + 1));
            assert(rest[0] == c);
            if c != '\r' {
                if self.col == u32::MAX {
                    return false;
                }
                self.write_character(c, words);
                if self.col > LAST_COLUMN {
                    match self.pen.mode {
                        Cea608Mode::PopOn => {
                            return true;
                        },
                        Cea608Mode::RollUp2 | Cea608Mode::RollUp3 | Cea608Mode::RollUp4 => {
                            self.flush();
                            self.open_line(chunk, row, Some(true));
                        },
                    }
                }
            }
        }
        true
    }

    /// Writes a chunk of a line; `false` where the column would pass 32 bits.
    pub fn write_chunk(
        &mut self,
        first: bool,
        chunk: &Chunk,
        row: u32,
        carriage_return: Option<bool>,
        words: &HashMap<u32, u16>,
    ) -> (r: bool)
        ensures
            old(self)@.write_chunk(first, chunk@, row, carriage_return, words@) == (if r {
                Some(final(self)@)
            } else {
                None
            }),
    {
        self.flush();
        let prepend_space = if first {
            self.open_line(chunk, row, carriage_return)
        } else {
            !self.open_chunk(chunk)
        };
        if prepend_space {
            proof {
                reveal_strlit(" ");
            }
            let mut text = String::from_str(" ");
            text.append(chunk.text.as_str());
            assert(text@ =~= seq![' '] + chunk.text@);
            self.write_text(text.as_str(), chunk, row, words)
        } else {
            self.write_text(chunk.text.as_str(), chunk, row, words)
        }
    }

    /// Writes the chunks of a line; `false` where the column would pass 32 bits.
    pub fn write_line(&mut self, line: &Line, row: u32, words: &HashMap<u32, u16>) -> (r: bool)
        ensures
            old(self)@.move_to_column(line.column).write_chunks(0, line@, row, words@) == (if r {
                Some(final(self)@)
            } else {
                None
            }),
    {
        let ghost before = self@;
        if let Some(line_column) = line.column {
            if self.pen.mode != Cea608Mode::PopOn {
                self.pen.send_roll_up_preamble = true;
            }
            self.col = line_column;
        } else if self.pen.mode == Cea608Mode::PopOn {
            self.col = 0;
        }
        assert(self@ =~= before.move_to_column(line.column));
        let ghost whole = self@.write_chunks(0, line@, row, words@);
        let len: usize = line.chunks.len();
        for j in 0..len
            invariant
                len == line.chunks@.len(),
                whole == old(self)@.move_to_column(line.column).write_chunks(
                    0,
                    line@,
                    row,
                    words@,
                ),
                whole == self@.write_chunks(j as int, line@, row, words@),
        {
            if !self.write_chunk(j == 0, &line.chunks[j], row, line.carriage_return, words) {
                return false;
            }
        }
        true
    }

    /// Writes the lines that have a row on the screen, and notes the others; `false` where
    /// the column would pass 32 bits.
    pub fn write_lines(&mut self, lines: &Lines, words: &HashMap<u32, u16>) -> (r: bool)
        ensures
            old(self)@.write_lines(0, lines@.lines, FIRST_ROW, words@) == (if r {
                Some(final(self)@)
            } else {
                None
            }),
    {
        let ghost whole = self@.write_lines(0, lines@.lines, FIRST_ROW, words@);
        let mut row: u32 = FIRST_ROW;
        let len: usize = lines.lines.len();
        for i in 0..len
            invariant
                len == lines.lines@.len(),
                whole == old(self)@.write_lines(0, lines@.lines, FIRST_ROW, words@),
                whole == self@.write_lines(i as int, lines@.lines, row, words@),
        {
            let line = &lines.lines[i];
            if let Some(line_row) = line.row {
                row = line_row;
            }
            if row <= LAST_ROW {
                if !self.write_line(line, row, words) {
                    return false;
                }
                if self.pen.mode == Cea608Mode::PopOn {
                    self.flush();
                    row = row + 1;
                }
            } else {
                self.notices.push(Notice::LineDropped(i));
            }
        }
        true
    }
}

impl Pen {
    /// Writes what comes before the text itself.
    fn open_text(self, column: u32, lines: &Lines, shown: bool) -> (composer: Composer)
        ensures
            composer@ == self.opening(column, lines@, shown),
    {
        let mut composer = Composer {
            pen: self,
            col: if self.mode == Cea608Mode::PopOn {
                0
            } else {
                column
            },
            pending: 0,
            codes: Vec::new(),
            notices: Vec::new(),
        };
        let mut erased = false;
        if let Some(mode) = lines.mode {
            if mode != composer.pen.mode {
                if composer.pen.mode == Cea608Mode::PopOn || mode == Cea608Mode::PopOn {
                    composer.put(Code::Control(ControlCommand::EraseDisplayMemory));
                    erased = true;
                }
                composer.pen.mode = mode;
                match mode {
                    Cea608Mode::PopOn => {
                        composer.col = 0;
                    },
                    _ => {
                        composer.pen.send_roll_up_preamble = true;
                    },
                }
            }
        }
        if let Some(clear) = lines.clear {
            if clear && !erased {
                composer.put(Code::Control(ControlCommand::EraseDisplayMemory));
                erased = true;
                if composer.pen.mode != Cea608Mode::PopOn {
                    composer.pen.send_roll_up_preamble = true;
                }
                composer.col = 0;
            }
        }
        if composer.pen.mode == Cea608Mode::PopOn {
            if shown && !erased {
                composer.put(Code::Control(ControlCommand::EraseDisplayMemory));
            }
            composer.put(Code::Control(ControlCommand::ResumeCaptionLoading));
            composer.put(Code::Control(ControlCommand::EraseNonDisplayedMemory));
        }
        assert(composer@.codes =~= self.opening(column, lines@, shown).codes);
        composer
    }

    /// Writes a text, and notes what of it is not sent as it stands; `None` where the column
    /// would pass 32 bits.
    pub fn compose(
        self,
        column: u32,
        lines: &Lines,
        shown: bool,
        words: &HashMap<u32, u16>,
    ) -> (r: Option<Composer>)
        ensures
            r is Some <==> self.document(column, lines@, shown, words@) is Some,
            r matches Some(c) ==> Some(c@) == self.document(column, lines@, shown, words@),
            r matches Some(c) ==> c.pen.mode == self.target(lines@),
    {
        let mut composer = self.open_text(column, lines, shown);
        proof {
            composer@.lemma_write_lines_mode(0, lines@.lines, FIRST_ROW, words@);
        }
        if !composer.write_lines(lines, words) {
            return None;
        }
        composer.flush();
        if composer.pen.mode == Cea608Mode::PopOn {
            composer.put(Code::Control(ControlCommand::EndOfCaption));
        }
        Some(composer)
    }
}

} // verus!
