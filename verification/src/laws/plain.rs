//! Laws of plain text.

use vstd::prelude::*;

use crate::caption::{phrases, plain_lines, Cea608Mode, TextStyle, ROWS};
use crate::compose::{word_of, Draft, Pen, FIRST_ROW, LAST_COLUMN};
use crate::laws::shape::{law_text_that_starts_on_screen_is_written, starts_on_screen};
use crate::laws::text::{
    columns, fits_row, law_all_text_is_sent, line_columns, line_text, marks, next_row, payload,
    screen_text, text_words,
};

verus! {

/// Pieces of text with a newline between each two.
pub open spec fn joined(pieces: Seq<Seq<char>>) -> Seq<char>
    decreases pieces.len(),
{
    if pieces.len() == 0 {
        seq![]
    } else if pieces.len() == 1 {
        pieces[0]
    } else {
        joined(pieces.drop_last()) + seq!['\n'] + pieces.last()
    }
}

/// The phrases of a text, with newlines between them, are the text; none of them holds a
/// newline, and there is at least one.
pub proof fn law_phrases_make_up_the_text(text: Seq<char>)
    ensures
        phrases(text).len() >= 1,
        joined(phrases(text)) == text,
        forall|i: int| 0 <= i < phrases(text).len() ==> !(#[trigger] phrases(text)[i]).contains('\n'),
    decreases text.len(),
{
    if text.len() == 0 {
        assert(joined(phrases(text)) =~= text);
    } else {
        let before = text.drop_last();
        law_phrases_make_up_the_text(before);
        let pieces = phrases(text);
        let earlier = phrases(before);
        assert(text =~= before.push(text.last()));
        if text.last() == '\n' {
            assert(pieces.drop_last() =~= earlier);
            assert(joined(pieces) =~= text);
        } else {
            assert(pieces.drop_last() =~= earlier.drop_last());
            assert(joined(pieces) =~= joined(earlier).push(text.last()));
            assert forall|i: int| 0 <= i < pieces.len() implies !(#[trigger] pieces[i]).contains(
                '\n',
            ) by {
                if i < pieces.len() - 1 {
                    assert(pieces[i] == earlier[i]);
                } else {
                    assert forall|j: int| 0 <= j < pieces[i].len() implies pieces[i][j]
                        != '\n' by {
                        if j < earlier.last().len() {
                            assert(pieces[i][j] == earlier[i][j]);
                            assert(!earlier[i].contains('\n'));
                        }
                    }
                }
            }
        }
    }
}

/// The phrases of a plain text stand on the rows above each other, the last one on the
/// bottom row, each a line of its own in white, with nothing else asked for.
pub proof fn law_plain_text_stands_at_the_bottom(text: Seq<char>, i: int)
    requires
        phrases(text).len() <= ROWS,
        0 <= i < phrases(text).len(),
    ensures
        plain_lines(text).lines[i].row == Some((14 - (phrases(text).len() - 1 - i)) as u32),
        0 <= 14 - (phrases(text).len() - 1 - i) <= 14,
        plain_lines(text).lines.len() == phrases(text).len(),
        plain_lines(text).mode is None,
        plain_lines(text).clear is None,
        plain_lines(text).lines[i].column is None,
        plain_lines(text).lines[i].carriage_return is None,
        plain_lines(text).lines[i].chunks.len() == 1,
        plain_lines(text).lines[i].chunks[0].text == phrases(text)[i],
        plain_lines(text).lines[i].chunks[0].style == TextStyle::White,
        !plain_lines(text).lines[i].chunks[0].underline,
{
}

/// The pieces from the given one on, one after the other.
spec fn run_on(from: int, pieces: Seq<Seq<char>>) -> Seq<char>
    decreases pieces.len() - from,
{
    if from >= pieces.len() {
        seq![]
    } else {
        pieces[from] + run_on(from + 1, pieces)
    }
}

proof fn lemma_run_on_last(from: int, pieces: Seq<Seq<char>>)
    requires
        0 <= from < pieces.len(),
    ensures
        run_on(from, pieces) == run_on(from, pieces.drop_last()) + pieces.last(),
    decreases pieces.len() - from,
{
    reveal_with_fuel(run_on, 2);
    if from == pieces.len() - 1 {
        assert(run_on(from, pieces) =~= run_on(from, pieces.drop_last()) + pieces.last());
    } else {
        lemma_run_on_last(from + 1, pieces);
        assert(run_on(from, pieces) =~= run_on(from, pieces.drop_last()) + pieces.last());
    }
}

proof fn lemma_phrases_run_on(text: Seq<char>)
    ensures
        run_on(0, phrases(text)) == text.filter(|c: char| c != '\n'),
    decreases text.len(),
{
    let pred = |c: char| c != '\n';
    reveal_with_fuel(Seq::filter, 1);
    if text.len() == 0 {
        reveal_with_fuel(run_on, 2);
        assert(run_on(0, phrases(text)) =~= text.filter(pred));
    } else {
        let before = text.drop_last();
        lemma_phrases_run_on(before);
        law_phrases_make_up_the_text(before);
        let pieces = phrases(text);
        let earlier = phrases(before);
        lemma_run_on_last(0, pieces);
        if text.last() == '\n' {
            assert(pieces.drop_last() =~= earlier);
            assert(run_on(0, pieces) =~= run_on(0, earlier));
        } else {
            lemma_run_on_last(0, earlier);
            assert(pieces.drop_last() =~= earlier.drop_last());
            assert(run_on(0, pieces) =~= run_on(0, earlier).push(text.last()));
        }
    }
}

proof fn lemma_plain_screen_text(mode: Cea608Mode, text: Seq<char>, from: int, row: u32)
    requires
        phrases(text).len() <= ROWS,
        0 <= from,
    ensures
        screen_text(mode, from, plain_lines(text).lines, row) == run_on(from, phrases(text)),
    decreases phrases(text).len() - from,
{
    let lines = plain_lines(text).lines;
    if from < lines.len() {
        let at = Draft::row_of(lines[from], row);
        lemma_plain_screen_text(mode, text, from + 1, next_row(mode, at));
        reveal_with_fuel(line_text, 2);
        assert(line_text(0, lines[from]) =~= phrases(text)[from]);
    }
}

/// All of a plain text with as many phrases as the screen has rows, or fewer, is on the
/// screen.
pub proof fn law_plain_text_is_on_screen(mode: Cea608Mode, text: Seq<char>)
    requires
        phrases(text).len() <= ROWS,
    ensures
        screen_text(mode, 0, plain_lines(text).lines, FIRST_ROW) == text.filter(
            |c: char| c != '\n',
        ),
{
    lemma_plain_screen_text(mode, text, 0, FIRST_ROW);
    lemma_phrases_run_on(text);
}

/// All of a plain text is sent, but for newlines and spaces, in order: in a roll-up mode
/// whatever the length of its phrases, and in pop-on mode where each fits a row.
pub proof fn law_plain_text_is_sent(
    pen: Pen,
    column: u32,
    text: Seq<char>,
    shown: bool,
    words: Map<u32, u16>,
)
    requires
        phrases(text).len() <= ROWS,
        pen.mode == Cea608Mode::PopOn || column <= LAST_COLUMN,
        pen.mode == Cea608Mode::PopOn ==> forall|i: int|
            0 <= i < phrases(text).len() ==> columns(#[trigger] phrases(text)[i]) <= LAST_COLUMN
                + 1,
    ensures
        pen.document(column, plain_lines(text), shown, words) is Some,
        marks(
            payload(pen.document(column, plain_lines(text), shown, words)->0.codes),
            word_of(words, ' '),
        ) == marks(text_words(text.filter(|c: char| c != '\n'), words), word_of(words, ' ')),
{
    let lines = plain_lines(text);
    assert forall|i: int| 0 <= i < lines.lines.len() implies starts_on_screen(
        #[trigger] lines.lines[i],
    ) by {}
    law_text_that_starts_on_screen_is_written(pen, column, lines, shown, words);
    assert forall|i: int|
        pen.mode == Cea608Mode::PopOn && 0 <= i < lines.lines.len() implies fits_row(
        #[trigger] lines.lines[i],
    ) by {
        reveal_with_fuel(line_columns, 2);
        assert(lines.lines[i].chunks[0].text == phrases(text)[i]);
    }
    law_all_text_is_sent(pen, column, lines, shown, words);
    law_plain_text_is_on_screen(pen.mode, text);
}

} // verus!
