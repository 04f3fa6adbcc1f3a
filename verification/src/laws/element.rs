//! Laws of what the element does over time.

use vstd::prelude::*;
use vstd::utf8::{encode_utf8, encode_utf8_decode_utf8, encode_utf8_valid_utf8, valid_utf8};

use crate::caption::{phrases, plain_lines, Cea608Mode, LinesView, TextStyle};
use crate::clock::{lemma_scaled_monotone, max, CcBuffer, Framerate};
use crate::code::{Code, ControlCommand};
use crate::compose::{Pen, FIRST_ROW};
use crate::element::{ChainError, Settings, State, TtToCea608};
use crate::laws::shape::{
    law_display_is_erased_first_or_not_at_all, law_pop_on_captions_are_loaded_then_shown,
    law_roll_up_text_is_not_loaded, law_text_that_starts_on_screen_is_written, starts_on_screen,
};
use crate::laws::timing::{
    law_buffers_are_contiguous, law_frame_starts_on_the_nearest_nanosecond,
    law_time_falls_on_its_frame,
};

verus! {

/// The text of a buffer starts on the frame that its timestamp falls on, or right behind
/// what was sent before where that already passes this frame.
pub proof fn law_text_starts_on_time(
    state: State,
    pts: u64,
    duration: u64,
    lines: LinesView,
    words: Map<u32, u16>,
)
    requires
        state.wf(),
        state.can_generate(pts as int, duration as int, lines, words),
    ensures
        ({
            let clock = state.until(pts + duration);
            let filled = clock.padding(state.frames(pts as int));
            let sent = state.sent(pts as int, duration as int, lines, words);
            let text = state.written(pts as int, duration as int, lines, words)->0.codes;
            &&& sent == filled + text
            &&& clock.frame_at(filled.len() as int) == max(
                state.clock.last_frame_no as int,
                state.frames(pts as int),
            )
        }),
{
    let rate = state.clock.framerate;
    lemma_scaled_monotone(
        pts as int,
        pts + duration,
        rate.numer as int,
        rate.denom as int,
    );
}

/// The first word of a text that does not come late is sent on the frame that the timestamp
/// falls on: it starts no later than the timestamp, up to rounding, and less than a frame
/// before it.
pub proof fn law_text_is_sent_at_its_time(
    state: State,
    pts: u64,
    duration: u64,
    lines: LinesView,
    words: Map<u32, u16>,
)
    requires
        state.wf(),
        state.can_generate(pts as int, duration as int, lines, words),
        state.written(pts as int, duration as int, lines, words)->0.codes.len() > 0,
        state.clock.last_frame_no <= state.frames(pts as int),
        (state.frames(pts as int) + 1) * 1_000_000_000 <= u64::MAX,
    ensures
        ({
            let codes = state.written(pts as int, duration as int, lines, words)->0.codes;
            let sent = state.sent(pts as int, duration as int, lines, words);
            let filled = sent.len() - codes.len();
            let first = state.until(pts + duration).slots(sent)[filled];
            let numer = state.clock.framerate.numer as int;
            let denom = state.clock.framerate.denom as int;
            &&& filled == state.frames(pts as int) - state.clock.last_frame_no
            &&& first.code == codes[0]
            &&& first.pts is Some
            &&& 2 * (first.pts->0 * numer) <= 2 * (pts * numer) + denom + numer
            &&& 2 * (pts * numer) < 2 * (first.pts->0 * numer) + numer + 2 * (1_000_000_000
                * denom)
        }),
{
    let rate = state.clock.framerate;
    let denom = rate.denom as int;
    let codes = state.written(pts as int, duration as int, lines, words)->0.codes;
    let sent = state.sent(pts as int, duration as int, lines, words);
    let clock = state.until(pts + duration);
    let k = state.frames(pts as int);
    law_text_starts_on_time(state, pts, duration, lines, words);
    law_time_falls_on_its_frame(rate, pts as int);
    law_frame_starts_on_the_nearest_nanosecond(rate, k);
    let filled = sent.len() - codes.len();
    assert(clock.frame_at(filled + 1) <= k + 1);
    law_buffers_are_contiguous(clock, sent, filled);
    assert((k + 1) * 1_000_000_000 * denom == k * 1_000_000_000 * denom + 1_000_000_000 * denom)
        by (nonlinear_arith);
}

/// The words of a buffer take a frame each from where the text starts, as far as the frames
/// before the end of the buffer go.
pub proof fn law_words_take_the_frames_of_their_buffer(
    state: State,
    pts: u64,
    duration: u64,
    lines: LinesView,
    words: Map<u32, u16>,
)
    requires
        state.wf(),
        state.can_generate(pts as int, duration as int, lines, words),
    ensures
        ({
            let count = state.written(pts as int, duration as int, lines, words)->0.codes.len();
            let after = state.generated(pts as int, duration as int, lines, words).clock;
            let start = max(state.clock.last_frame_no as int, state.frames(pts as int));
            let end = state.clock.framerate.frames(pts + duration);
            &&& after.last_frame_no == if start >= end {
                start
            } else if start + count <= end {
                start + count
            } else {
                end
            }
            &&& after.framerate == state.clock.framerate
        }),
{
    let rate = state.clock.framerate;
    lemma_scaled_monotone(pts as int, pts + duration, rate.numer as int, rate.denom as int);
    law_time_falls_on_its_frame(rate, pts + duration);
    law_time_falls_on_its_frame(rate, pts as int);
}

/// The frames of an ordinary time span, and the starts of as many frames, fit 64 bits.
proof fn lemma_ordinary_times_fit(rate: Framerate, time: int)
    requires
        rate.valid(),
        rate.denom <= rate.numer,
        rate.numer <= 1000 * rate.denom,
        0 <= time <= 9_000_000_000_000_000,
    ensures
        rate.frame_nanoseconds(time) <= u64::MAX,
        0 <= rate.frames(time) <= 9_000_000_000,
        forall|f: int| 0 <= f <= 9_000_000_000 ==> rate.frame_fits(f),
{
    let numer = rate.numer as int;
    let denom = rate.denom as int;
    let n = rate.frames(time);
    law_time_falls_on_its_frame(rate, time);
    assert(time * numer <= 1000 * time * denom) by (nonlinear_arith)
        requires
            numer <= 1000 * denom,
            0 <= time,
    ;
    assert(n * 1_000_000_000 <= 1000 * time) by (nonlinear_arith)
        requires
            2 * (n * 1_000_000_000 * denom) <= 2 * (1000 * time * denom) + denom,
            denom > 0,
    ;
    assert(rate.frame_nanoseconds(time) < (n + 1) * 1_000_000_000);
    assert forall|f: int| 0 <= f <= 9_000_000_000 implies rate.frame_fits(f) by {
        law_frame_starts_on_the_nearest_nanosecond(rate, f);
        let m = rate.nanosecond(f);
        assert(m <= f * 1_000_000_000) by (nonlinear_arith)
            requires
                2 * (m * numer) <= 2 * (f * 1_000_000_000 * denom) + numer,
                denom <= numer,
                0 <= f,
                numer > 0,
        ;
    }
}

/// Ordinary text is accepted: times of up to a hundred days, frame rates from one to a
/// thousand frames a second, and lines that start on the screen.
pub proof fn law_ordinary_text_is_accepted(
    state: State,
    pts: u64,
    duration: u64,
    lines: LinesView,
    words: Map<u32, u16>,
)
    requires
        state.wf(),
        state.clock.framerate.denom <= state.clock.framerate.numer,
        state.clock.framerate.numer <= 1000 * state.clock.framerate.denom,
        state.clock.last_frame_no <= 9_000_000_000,
        state.clock.erase_display_frame_no != Some(0u64),
        pts + duration <= 9_000_000_000_000_000,
        state.pen.mode == Cea608Mode::PopOn || state.column <= 31,
        forall|i: int| 0 <= i < lines.lines.len() ==> starts_on_screen(#[trigger] lines.lines[i]),
    ensures
        state.can_generate(pts as int, duration as int, lines, words),
{
    let rate = state.clock.framerate;
    lemma_ordinary_times_fit(rate, pts + duration);
    lemma_ordinary_times_fit(rate, duration as int);
    law_text_that_starts_on_screen_is_written(
        state.pen,
        state.column,
        lines,
        state.shows(pts as int, duration as int),
        words,
    );
}

/// A gap is filled up to the frame that its end falls on, and an ordinary gap is accepted.
pub proof fn law_gap_is_filled_to_its_end(element: TtToCea608, timestamp: u64, duration: u64)
    requires
        element.wf(),
    ensures
        ({
            let rate = element.state.clock.framerate;
            let end = timestamp + duration;
            &&& element.gap_frame(Some(timestamp), Some(duration)) matches Some(n) ==> {
                &&& 0 <= n
                &&& 2 * (n * 1_000_000_000 * rate.denom) <= 2 * (end * rate.numer) + rate.denom
                &&& end * rate.numer < (n + 1) * 1_000_000_000 * rate.denom
            }
            &&& rate.denom <= rate.numer && rate.numer <= 1000 * rate.denom
                && element.state.clock.last_frame_no <= 9_000_000_000
                && element.state.clock.erase_display_frame_no != Some(0u64) && end
                <= 9_000_000_000_000_000 ==> element.gap_frame(
                Some(timestamp),
                Some(duration),
            ) is Some
        }),
{
    let rate = element.state.clock.framerate;
    let end = timestamp + duration;
    law_time_falls_on_its_frame(rate, end);
    if rate.denom <= rate.numer && rate.numer <= 1000 * rate.denom && end
        <= 9_000_000_000_000_000 {
        lemma_ordinary_times_fit(rate, end);
    }
}

/// An element that starts is at the first frame of thirty in a second, with nothing to
/// erase, no text behind it and plain text to come. One that has not been started differs
/// from it in its modes alone.
pub proof fn law_start_is_blank(settings: Settings)
    ensures
        ({
            let state = State::started(settings);
            &&& state.settings == settings
            &&& state.clock.framerate.numer == 30
            &&& state.clock.framerate.denom == 1
            &&& state.clock.last_frame_no == 0
            &&& state.clock.erase_display_frame_no is None
            &&& !state.json_input
            &&& state.column == 0
            &&& state.pen.mode == settings.mode
            &&& state.pen.send_roll_up_preamble <==> settings.mode != Cea608Mode::PopOn
            &&& state.pen.style == TextStyle::White
            &&& !state.pen.underline
            &&& state.wf()
        }),
        State::initial() == (State {
            pen: Pen {
                mode: Cea608Mode::PopOn,
                send_roll_up_preamble: false,
                ..State::started(settings).pen
            },
            settings: Settings { mode: Cea608Mode::RollUp2 },
            ..State::started(settings)
        }),
{
}

/// Plain text in a buffer is the text that its bytes encode, laid out as it is, and refused
/// with more phrases than rows; what is no text is refused; JSON is taken as it was read.
pub proof fn law_input_is_what_the_buffer_holds(
    element: TtToCea608,
    text: Seq<char>,
    data: Seq<u8>,
    json: Option<LinesView>,
)
    ensures
        !element.state.json_input && phrases(text).len() <= 15 ==> element.input(
            encode_utf8(text),
            json,
        ) == Ok::<LinesView, ChainError>(plain_lines(text)),
        !element.state.json_input && phrases(text).len() > 15 ==> element.input(
            encode_utf8(text),
            json,
        ) == Err::<LinesView, ChainError>(ChainError::TooManyPhrases),
        !element.state.json_input && !valid_utf8(data) ==> element.input(data, json) == Err::<
            LinesView,
            ChainError,
        >(ChainError::NotUtf8),
        element.state.json_input ==> element.input(data, json) == match json {
            Some(lines) => Ok::<LinesView, ChainError>(lines),
            None => Err(ChainError::NotJson),
        },
{
    encode_utf8_valid_utf8(text);
    encode_utf8_decode_utf8(text);
}

/// A buffer is refused for a reason, the first of them that there is: it has no timestamp, it
/// has no duration, it cannot be read, or a number passes its limit.
pub proof fn law_buffers_are_refused_for_a_reason(
    element: TtToCea608,
    pts: Option<u64>,
    duration: Option<u64>,
    input: Result<LinesView, ChainError>,
    words: Map<u32, u16>,
)
    ensures
        ({
            let refusal = element.refusal(pts, duration, input, words);
            &&& pts is None ==> refusal == Some(ChainError::NoTimestamp)
            &&& pts is Some && duration is None ==> refusal == Some(ChainError::NoDuration)
            &&& pts is Some && duration is Some && input is Err ==> refusal == Some(
                input->Err_0,
            )
            &&& pts is Some && duration is Some && input is Ok ==> refusal
                == if element.state.can_generate(
                pts->0 as int,
                duration->0 as int,
                input->Ok_0,
                words,
            ) {
                None
            } else {
                Some(ChainError::OutOfRange)
            }
        }),
{
}

/// Filling the frames up to a later one sends a word for each, takes the clock there, and
/// changes nothing else but an erasure that was due.
pub proof fn law_filling_reaches_the_frame(
    element: TtToCea608,
    frame_no: u64,
    out: Seq<CcBuffer>,
    after: TtToCea608,
)
    requires
        element.state.clock.last_frame_no <= frame_no,
        element.fills(frame_no as int, out, after),
    ensures
        out.len() == frame_no - element.state.clock.last_frame_no,
        after.state.clock.last_frame_no == frame_no,
        after.state.clock.max_frame_no == frame_no,
        after.state.clock.framerate == element.state.clock.framerate,
        after.state.clock.erase_display_frame_no
            == match element.state.clock.erase_display_frame_no {
            Some(erase) => if element.state.clock.last_frame_no < erase && erase <= frame_no {
                None
            } else {
                Some(erase)
            },
            None => None,
        },
        after.state.pen == element.state.pen,
        after.state.column == element.state.column,
        after.state.settings == element.state.settings,
        after.state.json_input == element.state.json_input,
        after.settings == element.settings,
        forall|i: int|
            0 <= i < out.len() ==> (#[trigger] out[i]).code == if Some(
                (element.state.clock.last_frame_no + i + 1) as u64,
            ) == element.state.clock.erase_display_frame_no {
                Code::Control(ControlCommand::EraseDisplayMemory)
            } else {
                Code::Word(0x8080)
            },
{
}

/// A buffer never takes the clock back, nor past the end of the buffer.
pub proof fn law_buffers_keep_to_their_time(
    state: State,
    pts: u64,
    duration: u64,
    lines: LinesView,
    words: Map<u32, u16>,
)
    requires
        state.wf(),
        state.can_generate(pts as int, duration as int, lines, words),
    ensures
        ({
            let after = state.generated(pts as int, duration as int, lines, words).clock;
            &&& state.clock.last_frame_no <= after.last_frame_no
            &&& after.last_frame_no <= max(
                state.clock.last_frame_no as int,
                state.frames(pts + duration),
            )
        }),
{
    let rate = state.clock.framerate;
    lemma_scaled_monotone(
        0,
        pts + duration,
        rate.numer as int,
        rate.denom as int,
    );
}

/// Behind what fills the frames before a buffer the display is erased at most once, first of
/// all: where the text takes the display to pop-on mode or out of it, where it asks for a
/// clear display, and where it is a pop-on text while the erasure of a caption is still to
/// come.
pub proof fn law_buffer_erases_the_display_at_most_once(
    state: State,
    pts: u64,
    duration: u64,
    lines: LinesView,
    words: Map<u32, u16>,
)
    requires
        state.written(pts as int, duration as int, lines, words) is Some,
    ensures
        ({
            let sent = state.sent(pts as int, duration as int, lines, words);
            let filled = max(0, state.frames(pts as int) - state.clock.last_frame_no);
            let mode = match lines.mode {
                Some(mode) => mode,
                None => state.pen.mode,
            };
            let padded = state.until(pts + duration).padded(state.frames(pts as int));
            let erases = {
                ||| mode != state.pen.mode && (mode == Cea608Mode::PopOn || state.pen.mode
                    == Cea608Mode::PopOn)
                ||| lines.clear == Some(true)
                ||| mode == Cea608Mode::PopOn && padded.erase_display_frame_no is Some
            };
            &&& sent.len() >= filled
            &&& erases ==> sent.len() > filled
            &&& forall|i: int|
                filled <= i < sent.len() ==> (#[trigger] sent[i] == Code::Control(
                    ControlCommand::EraseDisplayMemory,
                ) <==> i == filled && erases)
        }),
{
    let shown = state.shows(pts as int, duration as int);
    let sent = state.sent(pts as int, duration as int, lines, words);
    let filled = max(0, state.frames(pts as int) - state.clock.last_frame_no);
    let codes = state.written(pts as int, duration as int, lines, words)->0.codes;
    law_display_is_erased_first_or_not_at_all(state.pen, state.column, lines, shown, words);
    assert forall|i: int| filled <= i < sent.len() implies #[trigger] sent[i] == codes[i
        - filled] by {}
}

/// For a pop-on buffer the memory out of sight is erased once, behind what fills the frames
/// before it, the erasure of the display and the command to load, and the caption is shown
/// once, with the last word. For a roll-up buffer neither is sent at all.
pub proof fn law_buffer_is_loaded_and_shown_once(
    state: State,
    pts: u64,
    duration: u64,
    lines: LinesView,
    words: Map<u32, u16>,
)
    requires
        state.written(pts as int, duration as int, lines, words) is Some,
    ensures
        ({
            let sent = state.sent(pts as int, duration as int, lines, words);
            let filled = max(0, state.frames(pts as int) - state.clock.last_frame_no);
            let pop_on = state.pen.target(lines) == Cea608Mode::PopOn;
            let load = filled + if state.pen.erases(
                lines,
                state.shows(pts as int, duration as int),
            ) {
                1int
            } else {
                0
            };
            &&& pop_on ==> sent.len() >= load + 3 && sent[load] == Code::Control(
                ControlCommand::ResumeCaptionLoading,
            )
            &&& forall|i: int|
                0 <= i < sent.len() ==> (#[trigger] sent[i] == Code::Control(
                    ControlCommand::EraseNonDisplayedMemory,
                ) <==> pop_on && i == load + 1)
            &&& forall|i: int|
                0 <= i < sent.len() ==> (#[trigger] sent[i] == Code::Control(
                    ControlCommand::EndOfCaption,
                ) <==> pop_on && i == sent.len() - 1)
        }),
{
    let shown = state.shows(pts as int, duration as int);
    let sent = state.sent(pts as int, duration as int, lines, words);
    let filled = max(0, state.frames(pts as int) - state.clock.last_frame_no);
    let codes = state.written(pts as int, duration as int, lines, words)->0.codes;
    let pop_on = state.pen.target(lines) == Cea608Mode::PopOn;
    let padding = state.until(pts + duration).padding(state.frames(pts as int));
    let load = filled + if state.pen.erases(lines, shown) {
        1int
    } else {
        0
    };
    if pop_on {
        law_pop_on_captions_are_loaded_then_shown(state.pen, state.column, lines, shown, words);
        assert(sent[load] == codes[load - filled]);
    }
    assert forall|i: int| 0 <= i < sent.len() implies (#[trigger] sent[i] == Code::Control(
        ControlCommand::EraseNonDisplayedMemory,
    ) <==> pop_on && i == load + 1) && (sent[i] == Code::Control(ControlCommand::EndOfCaption)
        <==> pop_on && i == sent.len() - 1) by {
        if i < filled {
            assert(sent[i] == padding[i]);
        } else {
            assert(sent[i] == codes[i - filled]);
            if !pop_on {
                law_roll_up_text_is_not_loaded(
                    state.pen,
                    state.column,
                    lines,
                    shown,
                    words,
                    i - filled,
                );
            }
        }
    }
}

/// A buffer leaves the element in the mode that it asks for, or else in the one before. In
/// pop-on mode the erasure of the caption is scheduled, counted from the frame behind the
/// last word and not from the timestamp, by the frames that the duration holds; in a roll-up
/// mode no erasure is left. Settings and formats stay as they are.
pub proof fn law_buffer_sets_the_mode_and_the_erasure(
    state: State,
    pts: u64,
    duration: u64,
    lines: LinesView,
    words: Map<u32, u16>,
)
    requires
        state.wf(),
        state.can_generate(pts as int, duration as int, lines, words),
    ensures
        ({
            let after = state.generated(pts as int, duration as int, lines, words);
            let until = after.clock.last_frame_no + state.frames(duration as int);
            &&& after.pen.mode == match lines.mode {
                Some(mode) => mode,
                None => state.pen.mode,
            }
            &&& after.pen.mode == Cea608Mode::PopOn ==> until <= u64::MAX
            &&& after.pen.mode == Cea608Mode::PopOn ==> {
                let rate = state.clock.framerate;
                let count = until - after.clock.last_frame_no;
                &&& 2 * (count * 1_000_000_000 * rate.denom) <= 2 * (duration * rate.numer)
                    + rate.denom
                &&& duration * rate.numer < (count + 1) * 1_000_000_000 * rate.denom
            }
            &&& after.settings == state.settings
            &&& after.json_input == state.json_input
            &&& after.clock.framerate == state.clock.framerate
            &&& after.clock.erase_display_frame_no == if after.pen.mode == Cea608Mode::PopOn {
                Some(until as u64)
            } else {
                None
            }
            &&& after.wf()
        }),
{
    let start = state.pen.opening(
        state.column,
        lines,
        state.shows(pts as int, duration as int),
    );
    start.lemma_write_lines_mode(0, lines.lines, FIRST_ROW, words);
    law_time_falls_on_its_frame(state.clock.framerate, duration as int);
}

/// A pop-on caption is erased once it has been shown for its duration: of the frames after
/// it, the one that ends this time is the one that the erasure goes on, and the only one.
pub proof fn law_caption_is_erased_after_its_duration(
    state: State,
    pts: u64,
    duration: u64,
    lines: LinesView,
    words: Map<u32, u16>,
    frame_no: u64,
    i: int,
)
    requires
        state.wf(),
        state.can_generate(pts as int, duration as int, lines, words),
        state.pen.target(lines) == Cea608Mode::PopOn,
        state.generated(pts as int, duration as int, lines, words).clock.last_frame_no
            + state.frames(duration as int) <= frame_no,
        0 <= i < frame_no - state.generated(
            pts as int,
            duration as int,
            lines,
            words,
        ).clock.last_frame_no,
    ensures
        ({
            let after = state.generated(pts as int, duration as int, lines, words);
            let filled = after.up_to(frame_no as int).padding(frame_no as int);
            filled[i] == Code::Control(ControlCommand::EraseDisplayMemory) <==> i + 1
                == state.frames(duration as int)
        }),
{
}

/// At the end of the stream a caption that is still shown is erased, by the last word that
/// is sent, and no erasure is left. A caption whose time is up already, because it was to
/// be shown for less than a frame, is not among them.
pub proof fn law_end_of_stream_erases_the_caption(element: TtToCea608, frame_no: u64)
    requires
        element.wf(),
        element.state.clock.erase_display_frame_no == Some(frame_no),
        element.state.clock.last_frame_no < frame_no,
    ensures
        ({
            let clock = element.state.up_to(frame_no as int);
            &&& clock.padding(frame_no as int).len() > 0
            &&& clock.padding(frame_no as int).last() == Code::Control(
                ControlCommand::EraseDisplayMemory,
            )
            &&& clock.padded(frame_no as int).erase_display_frame_no is None
            &&& clock.padded(frame_no as int).last_frame_no == frame_no
        }),
{
}

/// A pop-on caption is scheduled to be erased on a frame that has one before it, as long
/// as its buffer does not end before the first frame does.
pub proof fn law_erasure_has_a_frame_to_go_on(
    state: State,
    pts: u64,
    duration: u64,
    lines: LinesView,
    words: Map<u32, u16>,
)
    requires
        state.wf(),
        state.can_generate(pts as int, duration as int, lines, words),
        state.frames(pts + duration) > 0,
    ensures
        state.generated(pts as int, duration as int, lines, words).clock.erase_display_frame_no
            != Some(0u64),
{
    let rate = state.clock.framerate;
    let shown = state.shows(pts as int, duration as int);
    lemma_scaled_monotone(
        0,
        duration as int,
        rate.numer as int,
        rate.denom as int,
    );
    if state.pen.target(lines) == Cea608Mode::PopOn {
        law_pop_on_captions_are_loaded_then_shown(state.pen, state.column, lines, shown, words);
    }
}

} // verus!
