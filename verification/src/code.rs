//! The two-byte words of a CEA-608 stream, as the caption encoder is asked for them.

use vstd::prelude::*;

verus! {

/// The word that fills a frame without caption data.
pub const PADDING: u16 = 0x8080;

/// The control commands that the element sends, all on the first channel.
#[derive(Clone, Copy, Debug, PartialEq, Eq, Structural)]
pub enum ControlCommand {
    ResumeCaptionLoading,
    RollUp2,
    RollUp3,
    RollUp4,
    CarriageReturn,
    EndOfCaption,
    EraseDisplayMemory,
    EraseNonDisplayedMemory,
    TabOffset1,
    TabOffset2,
    TabOffset3,
}

/// One caption word: what to ask the CEA-608 encoder for, or the word itself.
#[derive(Clone, Copy, Debug, PartialEq, Eq, Structural)]
pub enum Code {
    /// A control command.
    Control(ControlCommand),
    /// A preamble that places the cursor on a row and a column.
    RowColumnPreamble { row: i32, col: i32, underline: bool },
    /// A preamble that places the cursor at the start of a row, in a style.
    RowStylePreamble { row: i32, style: u32, underline: bool },
    /// A change of style within a row; it takes a column of its own.
    MidrowChange { style: u32, underline: bool },
    /// Two basic characters in one word.
    BasicNa { first: u16, second: u16 },
    /// A word that is already encoded.
    Word(u16),
}

/// The words that hold basic North American characters: bit 13 or bit 14 is set.
pub open spec fn basicna(cc_data: u16) -> bool {
    0x6000u16 & cc_data != 0
}

/// The words that hold an extended Western European character.
pub open spec fn westeu(cc_data: u16) -> bool {
    0x7660u16 & cc_data == 0x1220
}

/// The words that hold a special North American character.
pub open spec fn specialna(cc_data: u16) -> bool {
    0x7770u16 & cc_data == 0x1130
}

/// Whether a word holds basic characters.
pub fn is_basicna(cc_data: u16) -> (b: bool)
    ensures
        b == basicna(cc_data),
        b <==> (cc_data >> 8) & 0x7f >= 0x20,
{
    assert(0x6000u16 & cc_data != 0 <==> (cc_data >> 8) & 0x7f >= 0x20) by (bit_vector);
    0x0000 != (0x6000 & cc_data)
}

/// Whether a word holds an extended character.
pub fn is_westeu(cc_data: u16) -> (b: bool)
    ensures
        b == westeu(cc_data),
        b <==> ((cc_data >> 8) & 0x77 == 0x12 || (cc_data >> 8) & 0x77 == 0x13) && 0x20
            <= cc_data & 0x7f <= 0x3f,
{
    assert(0x7660u16 & cc_data == 0x1220 <==> ((cc_data >> 8) & 0x77 == 0x12 || (cc_data >> 8)
        & 0x77 == 0x13) && 0x20 <= cc_data & 0x7f && cc_data & 0x7f <= 0x3f) by (bit_vector);
    0x1220 == (0x7660 & cc_data)
}

/// Whether a word holds a special character.
pub fn is_specialna(cc_data: u16) -> (b: bool)
    ensures
        b == specialna(cc_data),
        b <==> (cc_data >> 8) & 0x77 == 0x11 && 0x30 <= cc_data & 0x7f <= 0x3f,
{
    assert(0x7770u16 & cc_data == 0x1130 <==> (cc_data >> 8) & 0x77 == 0x11 && 0x30 <= cc_data
        & 0x7f && cc_data & 0x7f <= 0x3f) by (bit_vector);
    0x1130 == (0x7770 & cc_data)
}

/// The two bytes of a word in the order in which a buffer holds them.
pub fn cc_data_bytes(cc_data: u16) -> (bytes: [u8; 2])
    ensures
        bytes@[0] == cc_data / 256,
        bytes@[1] == cc_data % 256,
        bytes@[0] * 256 + bytes@[1] == cc_data,
{
    [(cc_data / 256) as u8, (cc_data % 256) as u8]
}

} // verus!
