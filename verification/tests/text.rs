//! Which words a text is written in.

use std::collections::HashMap;

use tttocea608::caption::{
    split_phrases, text_lines, Cea608Mode, Chunk, Line, Lines, TextStyle,
};
use tttocea608::code::{is_basicna, is_specialna, is_westeu, Code, ControlCommand};
use tttocea608::compose::{Composer, Notice, Pen};

const SPACE: u16 = 0x2080;
const EXTENDED: u16 = 0x1221;
const SPECIAL: u16 = 0x1130;

fn ch(c: char) -> u16 {
    ((c as u16) << 8) | 0x80
}

fn words() -> HashMap<u32, u16> {
    let mut table: HashMap<u32, u16> = HashMap::new();
    for c in ' '..='~' {
        table.insert(c as u32, ch(c));
    }
    table.insert('É' as u32, EXTENDED);
    table.insert('®' as u32, SPECIAL);
    table
}

fn control(c: ControlCommand) -> Code {
    Code::Control(c)
}

fn pair(a: char, b: char) -> Code {
    Code::BasicNa { first: ch(a), second: ch(b) }
}

fn one(c: char) -> Code {
    Code::Word(ch(c))
}

fn place(row: i32, col: i32) -> Code {
    Code::RowColumnPreamble { row, col, underline: false }
}

fn pen(mode: Cea608Mode, send: bool) -> Pen {
    Pen { mode, send_roll_up_preamble: send, style: TextStyle::White, underline: false }
}

fn white(text: &str) -> Chunk {
    Chunk { style: TextStyle::White, underline: false, text: text.to_string() }
}

fn styled(style: TextStyle, text: &str) -> Chunk {
    Chunk { style, underline: false, text: text.to_string() }
}

fn line(row: Option<u32>, column: Option<u32>, chunks: Vec<Chunk>) -> Line {
    Line { column, row, chunks, carriage_return: None }
}

fn lines(lines: Vec<Line>) -> Lines {
    Lines { lines, mode: None, clear: None }
}

fn body(pen: Pen, column: u32, text: &Lines) -> (Composer, Vec<Code>) {
    let done = pen.compose(column, text, false, &words()).unwrap();
    let codes = done.codes.clone();
    (done, codes)
}

const LOAD: [Code; 2] = [
    Code::Control(ControlCommand::ResumeCaptionLoading),
    Code::Control(ControlCommand::EraseNonDisplayedMemory),
];
const SHOW: Code = Code::Control(ControlCommand::EndOfCaption);
const ERASE: Code = Code::Control(ControlCommand::EraseDisplayMemory);

#[test]
fn word_classes() {
    assert!(is_basicna(SPACE) && !is_westeu(SPACE) && !is_specialna(SPACE));
    assert!(is_westeu(EXTENDED) && !is_basicna(EXTENDED) && !is_specialna(EXTENDED));
    assert!(is_specialna(SPECIAL) && !is_basicna(SPECIAL) && !is_westeu(SPECIAL));
    assert!(!is_basicna(0) && !is_westeu(0) && !is_specialna(0));
    for w in 0..=u16::MAX {
        let n: u32 = is_basicna(w) as u32 + is_westeu(w) as u32 + is_specialna(w) as u32;
        assert!(n <= 1);
    }
}

#[test]
fn style_numbers() {
    assert_eq!(TextStyle::White.to_u32(), 0);
    assert_eq!(TextStyle::Green.to_u32(), 1);
    assert_eq!(TextStyle::Blue.to_u32(), 2);
    assert_eq!(TextStyle::Cyan.to_u32(), 3);
    assert_eq!(TextStyle::Red.to_u32(), 4);
    assert_eq!(TextStyle::Yellow.to_u32(), 5);
    assert_eq!(TextStyle::Magenta.to_u32(), 6);
    assert_eq!(TextStyle::ItalicWhite.to_u32(), 7);
}

#[test]
fn pop_on_caption() {
    let (done, codes) = body(pen(Cea608Mode::PopOn, false), 0, &lines(vec![line(Some(14), None, vec![white("Hello")])]));
    assert_eq!(
        codes,
        vec![LOAD[0], LOAD[1], place(14, 0), pair('H', 'e'), pair('l', 'l'), one('o'), SHOW]
    );
    assert_eq!(done.pending, 0);
    assert_eq!(done.col, 5);
}

#[test]
fn caption_that_is_shown_is_erased_first() {
    let text = lines(vec![]);
    let done = pen(Cea608Mode::PopOn, false).compose(0, &text, true, &words()).unwrap();
    assert_eq!(done.codes, vec![ERASE, LOAD[0], LOAD[1], SHOW]);
}

#[test]
fn roll_up_text() {
    let text = lines(vec![line(None, None, vec![white("Hi!")])]);
    let (first, codes) = body(pen(Cea608Mode::RollUp3, true), 0, &text);
    assert_eq!(
        codes,
        vec![control(ControlCommand::RollUp3), place(13, 0), pair('H', 'i'), one('!')]
    );
    assert!(!first.pen.send_roll_up_preamble);
    assert_eq!(first.col, 3);
    let (second, codes) = body(first.pen, first.col, &text);
    assert_eq!(codes, vec![pair(' ', 'H'), pair('i', '!')]);
    assert_eq!(second.col, 7);
}

#[test]
fn carriage_return_starts_a_roll_up_line() {
    let mut text = lines(vec![line(None, None, vec![white("A")])]);
    text.lines[0].carriage_return = Some(true);
    let (done, codes) = body(pen(Cea608Mode::RollUp2, false), 9, &text);
    assert_eq!(
        codes,
        vec![
            control(ControlCommand::CarriageReturn),
            control(ControlCommand::RollUp2),
            place(13, 0),
            one('A'),
        ]
    );
    assert_eq!(done.col, 1);
}

#[test]
fn pop_on_ignores_a_carriage_return() {
    let mut text = lines(vec![line(Some(2), Some(6), vec![white("A")])]);
    text.lines[0].carriage_return = Some(true);
    let (_, codes) = body(pen(Cea608Mode::PopOn, false), 0, &text);
    assert_eq!(
        codes,
        vec![LOAD[0], LOAD[1], place(2, 4), control(ControlCommand::TabOffset2), one('A'), SHOW]
    );
}

#[test]
fn columns_are_reached_by_indent_and_tab() {
    for (column, col, tab) in [
        (0, 0, None),
        (5, 4, Some(ControlCommand::TabOffset1)),
        (10, 8, Some(ControlCommand::TabOffset2)),
        (31, 28, Some(ControlCommand::TabOffset3)),
    ] {
        let mut c = Composer { pen: pen(Cea608Mode::PopOn, false), col: column, pending: 0, codes: vec![], notices: vec![] };
        assert!(!c.open_line(&white(""), 3, None));
        let mut expected: Vec<Code> = vec![place(3, col)];
        if let Some(t) = tab {
            expected.push(control(t));
        }
        assert_eq!(c.codes, expected);
        assert_eq!(c.col, column);
    }
}

#[test]
fn style_goes_with_the_preamble_at_the_left_edge() {
    let mut c = Composer { pen: pen(Cea608Mode::PopOn, false), col: 2, pending: 0, codes: vec![], notices: vec![] };
    c.open_line(&styled(TextStyle::Red, ""), 1, None);
    assert_eq!(
        c.codes,
        vec![
            Code::RowStylePreamble { row: 1, style: 4, underline: false },
            control(ControlCommand::TabOffset2),
        ]
    );
    assert_eq!(c.col, 2);
    assert_eq!(c.pen.style, TextStyle::Red);
}

#[test]
fn style_takes_the_column_before_indented_text() {
    for (column, col, tab) in [
        (8, 4, Some(ControlCommand::TabOffset3)),
        (9, 8, None),
        (10, 8, Some(ControlCommand::TabOffset1)),
    ] {
        let mut c = Composer { pen: pen(Cea608Mode::PopOn, false), col: column, pending: 0, codes: vec![], notices: vec![] };
        c.open_line(&styled(TextStyle::Cyan, ""), 1, None);
        let mut expected: Vec<Code> = vec![place(1, col)];
        if let Some(t) = tab {
            expected.push(control(t));
        }
        expected.push(Code::MidrowChange { style: 3, underline: false });
        assert_eq!(c.codes, expected);
        assert_eq!(c.col, column);
        assert_eq!(c.pen.style, TextStyle::Cyan);
    }
}

#[test]
fn column_past_the_screen_loses_the_style() {
    let mut c = Composer { pen: pen(Cea608Mode::PopOn, false), col: 40, pending: 0, codes: vec![], notices: vec![] };
    c.open_line(&styled(TextStyle::Cyan, ""), 1, None);
    assert_eq!(c.codes, vec![place(1, 36), control(ControlCommand::TabOffset3)]);
    assert_eq!(c.col, 39);
    assert_eq!(c.pen.style, TextStyle::White);
}

#[test]
fn chunks_change_style_or_are_set_off_by_a_space() {
    let text = lines(vec![line(
        Some(0),
        None,
        vec![white("A"), styled(TextStyle::Blue, "B"), styled(TextStyle::Blue, "C")],
    )]);
    let (done, codes) = body(pen(Cea608Mode::PopOn, false), 0, &text);
    assert_eq!(
        codes,
        vec![
            LOAD[0],
            LOAD[1],
            place(0, 0),
            one('A'),
            Code::MidrowChange { style: 2, underline: false },
            one('B'),
            pair(' ', 'C'),
            SHOW,
        ]
    );
    assert_eq!(done.col, 5);
    assert_eq!(done.pen.style, TextStyle::Blue);
}

#[test]
fn underline_is_a_change_of_style() {
    let mut c = Composer { pen: pen(Cea608Mode::RollUp2, false), col: 4, pending: 0, codes: vec![], notices: vec![] };
    let chunk = Chunk { style: TextStyle::White, underline: true, text: String::new() };
    assert!(c.open_chunk(&chunk));
    assert_eq!(c.codes, vec![Code::MidrowChange { style: 0, underline: true }]);
    assert_eq!(c.col, 5);
    assert!(!c.open_chunk(&chunk));
    c.col = 31;
    assert!(!c.open_chunk(&white("")));
}

#[test]
fn extended_characters_overwrite_a_space() {
    let (_, codes) = body(pen(Cea608Mode::RollUp2, true), 0, &lines(vec![line(None, None, vec![white("ÉaÉ")])]));
    assert_eq!(
        codes[2..],
        [
            Code::Word(SPACE),
            Code::Word(EXTENDED),
            Code::BasicNa { first: ch('a'), second: SPACE },
            Code::Word(EXTENDED),
        ]
    );
}

#[test]
fn special_characters_resume_loading() {
    let (_, codes) = body(pen(Cea608Mode::RollUp2, true), 0, &lines(vec![line(None, None, vec![white("a®b")])]));
    assert_eq!(
        codes[2..],
        [
            one('a'),
            Code::Word(SPECIAL),
            control(ControlCommand::ResumeCaptionLoading),
            one('b'),
        ]
    );
}

#[test]
fn unknown_characters_become_spaces() {
    let (_, codes) = body(pen(Cea608Mode::RollUp2, true), 0, &lines(vec![line(None, None, vec![white("a漢")])]));
    assert_eq!(codes[2..], [pair('a', ' ')]);
}

#[test]
fn carriage_returns_in_text_are_left_out() {
    let with = body(pen(Cea608Mode::PopOn, false), 0, &lines(vec![line(None, None, vec![white("\ra\r\rb\r")])]));
    let without = body(pen(Cea608Mode::PopOn, false), 0, &lines(vec![line(None, None, vec![white("ab")])]));
    assert_eq!(with.1, without.1);
    assert_eq!(with.0.col, without.0.col);
}

#[test]
fn pop_on_drops_what_passes_the_row() {
    let long: String = "x".repeat(40);
    let (done, codes) = body(pen(Cea608Mode::PopOn, false), 0, &lines(vec![line(Some(0), None, vec![white(&long)])]));
    assert_eq!(done.col, 32);
    assert_eq!(codes.iter().filter(|c| **c == pair('x', 'x')).count(), 16);
    assert_eq!(codes.len(), 3 + 16 + 1);
}

#[test]
fn pop_on_still_writes_one_character_past_the_row() {
    let long: String = "x".repeat(32);
    let text = lines(vec![line(Some(0), None, vec![white(&long), white("yz")])]);
    let (done, codes) = body(pen(Cea608Mode::PopOn, false), 0, &text);
    assert_eq!(codes[3 + 16..], [Code::Word(SPACE), SHOW]);
    assert_eq!(done.col, 33);
}

#[test]
fn roll_up_goes_on_in_a_new_line() {
    let long: String = "x".repeat(33);
    let (done, codes) = body(pen(Cea608Mode::RollUp4, true), 0, &lines(vec![line(None, None, vec![white(&long)])]));
    let mut expected: Vec<Code> = vec![control(ControlCommand::RollUp4), place(13, 0)];
    expected.extend(vec![pair('x', 'x'); 16]);
    expected.push(control(ControlCommand::CarriageReturn));
    expected.push(control(ControlCommand::RollUp4));
    expected.push(place(13, 0));
    expected.push(one('x'));
    assert_eq!(codes, expected);
    assert_eq!(done.col, 1);
}

#[test]
fn all_text_is_sent_in_a_roll_up_mode() {
    let chars: String = ('!'..='~').collect();
    let text = lines(vec![line(None, None, vec![white(&chars), styled(TextStyle::Red, &chars)])]);
    let (_, codes) = body(pen(Cea608Mode::RollUp2, true), 0, &text);
    let mut sent: Vec<u16> = Vec::new();
    for code in &codes {
        match *code {
            Code::Word(w) => sent.push(w),
            Code::BasicNa { first, second } => {
                sent.push(first);
                sent.push(second);
            }
            _ => {}
        }
    }
    let expected: Vec<u16> = chars.chars().chain(chars.chars()).map(ch).collect();
    assert_eq!(sent.into_iter().filter(|w| *w != SPACE).collect::<Vec<u16>>(), expected);
}

#[test]
fn lines_below_the_screen_are_dropped() {
    let text = lines(vec![
        line(Some(14), None, vec![white("a")]),
        line(None, None, vec![white("b")]),
        line(Some(1), None, vec![white("c")]),
    ]);
    let (_, codes) = body(pen(Cea608Mode::PopOn, false), 0, &text);
    assert_eq!(codes[2..], [place(14, 0), one('a'), place(1, 0), one('c'), SHOW]);
}

#[test]
fn pop_on_lines_go_down_a_row_each() {
    let text = lines(vec![line(None, None, vec![white("a")]), line(None, None, vec![white("b")])]);
    let (_, codes) = body(pen(Cea608Mode::PopOn, false), 0, &text);
    assert_eq!(codes[2..], [place(13, 0), one('a'), place(14, 0), one('b'), SHOW]);
}

#[test]
fn column_of_a_roll_up_line_is_announced() {
    let text = lines(vec![line(None, Some(4), vec![white("a")])]);
    let (done, codes) = body(pen(Cea608Mode::RollUp2, false), 20, &text);
    assert_eq!(codes, vec![control(ControlCommand::RollUp2), place(13, 4), one('a')]);
    assert_eq!(done.col, 5);
}

#[test]
fn crossing_pop_on_erases_the_display() {
    let mut text = lines(vec![]);
    text.mode = Some(Cea608Mode::RollUp2);
    let (done, codes) = body(pen(Cea608Mode::PopOn, false), 7, &text);
    assert_eq!(codes, vec![ERASE]);
    assert_eq!(done.pen, pen(Cea608Mode::RollUp2, true));
    assert_eq!(done.col, 0);
    text.mode = Some(Cea608Mode::PopOn);
    text.clear = Some(true);
    let (done, codes) = body(pen(Cea608Mode::RollUp2, false), 7, &text);
    assert_eq!(codes, vec![ERASE, LOAD[0], LOAD[1], SHOW]);
    assert_eq!(done.col, 0);
}

#[test]
fn changing_roll_up_modes_keeps_the_display() {
    let mut text = lines(vec![]);
    text.mode = Some(Cea608Mode::RollUp4);
    let (done, codes) = body(pen(Cea608Mode::RollUp2, false), 7, &text);
    assert_eq!(codes, vec![]);
    assert_eq!(done.pen, pen(Cea608Mode::RollUp4, true));
    assert_eq!(done.col, 7);
}

#[test]
fn clear_erases_the_display() {
    let mut text = lines(vec![]);
    text.clear = Some(true);
    let (done, codes) = body(pen(Cea608Mode::RollUp2, false), 7, &text);
    assert_eq!(codes, vec![ERASE]);
    assert!(done.pen.send_roll_up_preamble);
    assert_eq!(done.col, 0);
    text.clear = Some(false);
    let (done, codes) = body(pen(Cea608Mode::RollUp2, false), 7, &text);
    assert_eq!(codes, vec![]);
    assert_eq!(done.col, 7);
}

#[test]
fn column_at_the_limit_is_refused() {
    let text = lines(vec![line(Some(0), Some(u32::MAX), vec![white("a")])]);
    assert!(pen(Cea608Mode::PopOn, false).compose(0, &text, false, &words()).is_none());
    let text = lines(vec![line(Some(0), Some(u32::MAX), vec![white("")])]);
    assert!(pen(Cea608Mode::PopOn, false).compose(0, &text, false, &words()).is_some());
    let text = lines(vec![line(Some(0), Some(u32::MAX - 1), vec![white("a")])]);
    assert!(pen(Cea608Mode::PopOn, false).compose(0, &text, false, &words()).is_some());
}

#[test]
fn text_is_split_at_newlines() {
    assert_eq!(split_phrases(""), vec!["".to_string()]);
    assert_eq!(split_phrases("é\n\nb"), vec!["é".to_string(), "".to_string(), "b".to_string()]);
    assert_eq!(split_phrases("a\n"), vec!["a".to_string(), "".to_string()]);
    assert_eq!(split_phrases("a\nb c\n\nd").join("\n"), "a\nb c\n\nd");
}

#[test]
fn plain_text_stands_on_the_bottom_rows() {
    let text = text_lines("one\ntwo\nthree");
    let rows: Vec<Option<u32>> = text.lines.iter().map(|l| l.row).collect();
    assert_eq!(rows, vec![Some(12), Some(13), Some(14)]);
    assert!(text.mode.is_none() && text.clear.is_none());
    assert_eq!(text.lines[1].chunks.len(), 1);
    assert_eq!(text.lines[1].chunks[0].text, "two");
    assert_eq!(text.lines[1].chunks[0].style, TextStyle::White);
    assert!(!text.lines[1].chunks[0].underline);
    assert!(text.lines[1].column.is_none() && text.lines[1].carriage_return.is_none());
}

#[test]
fn what_is_left_out_is_noticed() {
    let long: String = "x".repeat(33);
    let text = lines(vec![
        line(Some(15), None, vec![white("below")]),
        line(Some(0), None, vec![white("a漢"), white(&long), white("y")]),
        line(Some(99), None, vec![]),
    ]);
    let (done, _) = body(pen(Cea608Mode::PopOn, false), 0, &text);
    assert_eq!(
        done.notices,
        vec![
            Notice::LineDropped(0),
            Notice::NotTranslated('漢'),
            Notice::RowFull('x'),
            Notice::RowFull(' '),
            Notice::LineDropped(2),
        ]
    );
}

#[test]
fn full_row_is_noticed_though_nothing_follows() {
    for (count, expected) in [(31, vec![]), (32, vec![Notice::RowFull('x')])] {
        let text = lines(vec![line(Some(0), None, vec![white(&"x".repeat(count))])]);
        let (done, _) = body(pen(Cea608Mode::PopOn, false), 0, &text);
        assert_eq!(done.notices, expected);
    }
}

#[test]
fn roll_up_text_has_no_full_rows() {
    let text = lines(vec![line(None, None, vec![white(&"x".repeat(100))])]);
    let (done, _) = body(pen(Cea608Mode::RollUp2, true), 0, &text);
    assert_eq!(done.notices, vec![]);
}

#[test]
fn spelling_leaves_the_words() {
    for mode in [Cea608Mode::PopOn, Cea608Mode::RollUp3] {
        let odd = lines(vec![
            line(Some(2), Some(5), vec![white("\rone\r漢"), styled(TextStyle::Red, "字two\r")]),
            line(None, None, vec![white("\r")]),
        ]);
        let plain = lines(vec![
            line(Some(2), Some(5), vec![white("one "), styled(TextStyle::Red, " two")]),
            line(None, None, vec![white("")]),
        ]);
        let (a, codes_a) = body(pen(mode, true), 7, &odd);
        let (b, codes_b) = body(pen(mode, true), 7, &plain);
        assert_eq!(codes_a, codes_b);
        assert_eq!((a.pen, a.col, a.pending), (b.pen, b.col, b.pending));
        assert_eq!(a.notices, vec![Notice::NotTranslated('漢'), Notice::NotTranslated('字')]);
        assert_eq!(b.notices, vec![]);
    }
}

#[test]
fn display_is_erased_once_at_most() {
    for old in [Cea608Mode::PopOn, Cea608Mode::RollUp2, Cea608Mode::RollUp3] {
        for new in [None, Some(Cea608Mode::PopOn), Some(Cea608Mode::RollUp2)] {
            for clear in [None, Some(false), Some(true)] {
                for shown in [false, true] {
                    let mut text = lines(vec![line(Some(3), None, vec![white("a®É")])]);
                    text.mode = new;
                    text.clear = clear;
                    let codes = pen(old, false).compose(0, &text, shown, &words()).unwrap().codes;
                    let target = new.unwrap_or(old);
                    let pop_on = target == Cea608Mode::PopOn;
                    let erases = (target != old && (pop_on || old == Cea608Mode::PopOn))
                        || clear == Some(true)
                        || (pop_on && shown);
                    let at: usize = if erases { 1 } else { 0 };
                    for i in 0..codes.len() {
                        assert_eq!(codes[i] == ERASE, erases && i == 0);
                        assert_eq!(codes[i] == LOAD[1], pop_on && i == at + 1);
                        assert_eq!(codes[i] == SHOW, pop_on && i == codes.len() - 1);
                    }
                    assert_eq!(codes.contains(&ERASE), erases);
                    assert_eq!(codes.contains(&SHOW), pop_on);
                }
            }
        }
    }
}
