//! A decoder on the other end: what it makes of the words that it receives.
//!
//! Nothing here is taken from how the words are composed: classes of words go by the bits of
//! their two bytes, styles by their numbers, and the screen has thirty-two columns.

use vstd::prelude::*;

use crate::caption::{Cea608Mode, TextStyle};
use crate::code::{basicna, specialna, westeu};
use crate::code::{Code, ControlCommand};

verus! {

/// The first byte of a word without its parity bit and the bit of the channel.
pub open spec fn first_byte(word: u16) -> u16 {
    (word >> 8) & 0x77
}

/// The second byte of a word without its parity bit.
pub open spec fn second_byte(word: u16) -> u16 {
    word & 0x7f
}

/// The words of an extended character, which overwrites the one before it: two sets of
/// thirty-two characters each.
pub open spec fn extended_word(word: u16) -> bool {
    &&& first_byte(word) == 0x12 || first_byte(word) == 0x13
    &&& 0x20 <= second_byte(word) <= 0x3f
}

/// The words of a special character: one set of sixteen.
pub open spec fn special_word(word: u16) -> bool {
    &&& first_byte(word) == 0x11
    &&& 0x30 <= second_byte(word) <= 0x3f
}

/// The words that begin with a printable character.
pub open spec fn basic_word(word: u16) -> bool {
    (word >> 8) & 0x7f >= 0x20
}

/// The class of a word goes by its two bytes, parity and channel aside.
pub proof fn law_word_classes_go_by_their_bytes(word: u16)
    ensures
        westeu(word) <==> extended_word(word),
        specialna(word) <==> special_word(word),
        basicna(word) <==> basic_word(word),
{
    assert(0x7660u16 & word == 0x1220 <==> ((word >> 8) & 0x77 == 0x12 || (word >> 8) & 0x77
        == 0x13) && 0x20 <= word & 0x7f && word & 0x7f <= 0x3f) by (bit_vector);
    assert(0x7770u16 & word == 0x1130 <==> (word >> 8) & 0x77 == 0x11 && 0x30 <= word & 0x7f
        && word & 0x7f <= 0x3f) by (bit_vector);
    assert(0x6000u16 & word != 0 <==> (word >> 8) & 0x7f >= 0x20) by (bit_vector);
}

/// The number by which a decoder knows a style.
pub open spec fn colour(style: TextStyle) -> u32 {
    match style {
        TextStyle::White => 0,
        TextStyle::Green => 1,
        TextStyle::Blue => 2,
        TextStyle::Cyan => 3,
        TextStyle::Red => 4,
        TextStyle::Yellow => 5,
        TextStyle::Magenta => 6,
        TextStyle::ItalicWhite => 7,
    }
}

/// Styles are numbered in the order of the colours, italics last.
pub proof fn law_styles_have_their_numbers(style: TextStyle)
    ensures
        style.number() == colour(style),
{
}

/// The number of rows that roll up in a mode.
pub open spec fn depth_of(mode: Cea608Mode) -> int {
    match mode {
        Cea608Mode::PopOn => 0,
        Cea608Mode::RollUp2 => 2,
        Cea608Mode::RollUp3 => 3,
        Cea608Mode::RollUp4 => 4,
    }
}

/// The word of a space.
pub open spec fn space_of(words: Map<u32, u16>) -> u16 {
    if words.contains_key(0x20) {
        words[0x20]
    } else {
        0
    }
}

/// The word that stands for a character: its own, or that of a space where it has none.
pub open spec fn shown_as(words: Map<u32, u16>, c: char) -> u16 {
    if words.contains_key(c as u32) && words[c as u32] != 0 {
        words[c as u32]
    } else {
        space_of(words)
    }
}

/// A column that a character, or a change of style, has been put on.
pub struct Cell {
    /// How often the display had rolled up before.
    pub line: int,
    pub row: int,
    pub col: int,
    pub style: u32,
    pub underline: bool,
    pub word: u16,
    /// The loading of captions was resumed right behind it.
    pub resumed: bool,
}

/// What a decoder keeps.
#[verifier::ext_equal]
pub struct Decoder {
    /// The number of rows that roll up, as it was last told.
    pub depth: int,
    /// How often the display has rolled up.
    pub line: int,
    pub row: int,
    pub col: int,
    pub style: u32,
    pub underline: bool,
    /// The columns that were filled, in order.
    pub cells: Seq<Cell>,
}

impl Decoder {
    /// Puts a word on the column of the cursor, which moves on.
    pub open spec fn fill(self, word: u16, resumed: bool) -> Decoder {
        Decoder {
            col: self.col + 1,
            cells: self.cells.push(
                Cell {
                    line: self.line,
                    row: self.row,
                    col: self.col,
                    style: self.style,
                    underline: self.underline,
                    word,
                    resumed,
                },
            ),
            ..self
        }
    }

    /// Puts a word in place of the one before the cursor.
    pub open spec fn replace(self, word: u16) -> Decoder {
        if self.cells.len() == 0 {
            self
        } else {
            Decoder {
                cells: self.cells.drop_last().push(Cell { word, ..self.cells.last() }),
                ..self
            }
        }
    }

    /// Is told to go on with the loading of captions.
    pub open spec fn resume(self) -> Decoder {
        if self.cells.len() == 0 {
            self
        } else {
            Decoder {
                cells: self.cells.drop_last().push(Cell { resumed: true, ..self.cells.last() }),
                ..self
            }
        }
    }

    /// Obeys a command, as far as it moves the cursor or sets the depth.
    pub open spec fn obey(self, command: ControlCommand) -> Decoder {
        match command {
            ControlCommand::RollUp2 => Decoder { depth: 2, ..self },
            ControlCommand::RollUp3 => Decoder { depth: 3, ..self },
            ControlCommand::RollUp4 => Decoder { depth: 4, ..self },
            ControlCommand::CarriageReturn => Decoder { line: self.line + 1, col: 0, ..self },
            ControlCommand::TabOffset1 => Decoder { col: self.col + 1, ..self },
            ControlCommand::TabOffset2 => Decoder { col: self.col + 2, ..self },
            ControlCommand::TabOffset3 => Decoder { col: self.col + 3, ..self },
            ControlCommand::ResumeCaptionLoading => self.resume(),
            _ => self,
        }
    }

    /// Receives a code. A change of style leaves a blank behind.
    pub open spec fn step(self, code: Code, blank: u16) -> Decoder {
        match code {
            Code::Control(command) => self.obey(command),
            Code::RowColumnPreamble { row, col, underline } => Decoder {
                row: row as int,
                col: col as int,
                style: 0,
                underline,
                ..self
            },
            Code::RowStylePreamble { row, style, underline } => Decoder {
                row: row as int,
                col: 0,
                style,
                underline,
                ..self
            },
            Code::MidrowChange { style, underline } => Decoder { style, underline, ..self }.fill(
                blank,
                false,
            ),
            Code::BasicNa { first, second } => self.fill(first, false).fill(second, false),
            Code::Word(word) => if extended_word(word) {
                self.replace(word)
            } else {
                self.fill(word, false)
            },
        }
    }

    /// Receives codes one after the other.
    pub open spec fn receive(self, codes: Seq<Code>, blank: u16) -> Decoder
        decreases codes.len(),
    {
        if codes.len() == 0 {
            self
        } else {
            self.receive(codes.drop_last(), blank).step(codes.last(), blank)
        }
    }

    /// What is received last adds to what was received before.
    pub proof fn lemma_receive_push(self, codes: Seq<Code>, code: Code, blank: u16)
        ensures
            self.receive(codes.push(code), blank) == self.receive(codes, blank).step(code, blank),
    {
        assert(codes.push(code).drop_last() =~= codes);
    }
}

} // verus!
