//! The element: what it keeps, and how it answers what its sink pad receives.

use core::str::Utf8Error;
use std::collections::HashMap;
use vstd::prelude::*;
use vstd::utf8::{decode_utf8, encode_utf8, encode_utf8_decode_utf8, valid_utf8};

use crate::caption::{
    phrases, plain_lines, split_phrases, text_lines, Cea608Mode, Lines, LinesView, TextStyle, ROWS,
};
use crate::clock::{
    lemma_scaled_monotone, CcBuffer, Clock, Framerate, DEFAULT_FPS_D, DEFAULT_FPS_N,
};
use crate::code::Code;
use crate::compose::{Draft, Notice, Pen};

verus! {

pub const DEFAULT_MODE: Cea608Mode = Cea608Mode::RollUp2;

/// What can be set from outside.
#[derive(Clone, Copy, Debug, PartialEq, Eq, Structural)]
pub struct Settings {
    pub mode: Cea608Mode,
}

impl Default for Settings {
    fn default() -> (r: Self)
        ensures
            r == (Settings { mode: DEFAULT_MODE }),
    {
        Settings { mode: DEFAULT_MODE }
    }
}

/// What a buffer of timed text becomes.
#[derive(Debug, PartialEq, Eq)]
pub struct Output {
    /// What is to be sent downstream.
    pub buffers: Vec<CcBuffer>,
    /// What of the text is not sent as it stands, in the order of the text.
    pub notices: Vec<Notice>,
    /// How many words at the end have no frame of their own: there is more text than
    /// bandwidth where that is not zero.
    pub crowded: usize,
}

/// What is kept from one buffer to the next.
#[derive(Clone, Copy, Debug, PartialEq, Eq, Structural)]
pub struct State {
    pub settings: Settings,
    pub clock: Clock,
    pub json_input: bool,
    pub pen: Pen,
    /// The column that roll-up text has reached.
    pub column: u32,
}

impl Default for State {
    fn default() -> (r: Self)
        ensures
            r == State::initial(),
            r.wf(),
    {
        State {
            settings: Settings::default(),
            clock: Clock {
                framerate: Framerate { numer: DEFAULT_FPS_N, denom: DEFAULT_FPS_D },
                erase_display_frame_no: None,
                last_frame_no: 0,
                max_frame_no: 0,
            },
            json_input: false,
            pen: Pen {
                mode: Cea608Mode::PopOn,
                send_roll_up_preamble: false,
                style: TextStyle::White,
                underline: false,
            },
            column: 0,
        }
    }
}

impl State {
    /// The state of an element that has not been started.
    pub open spec fn initial() -> State {
        State {
            settings: Settings { mode: DEFAULT_MODE },
            clock: Clock {
                framerate: Framerate { numer: DEFAULT_FPS_N, denom: DEFAULT_FPS_D },
                erase_display_frame_no: None,
                last_frame_no: 0,
                max_frame_no: 0,
            },
            json_input: false,
            pen: Pen {
                mode: Cea608Mode::PopOn,
                send_roll_up_preamble: false,
                style: TextStyle::White,
                underline: false,
            },
            column: 0,
        }
    }

    /// The state of an element that starts with the given settings.
    pub open spec fn started(settings: Settings) -> State {
        State {
            settings,
            pen: Pen {
                mode: settings.mode,
                send_roll_up_preamble: settings.mode != Cea608Mode::PopOn,
                ..State::initial().pen
            },
            ..State::initial()
        }
    }

    /// The frame rate is positive, and only pop-on captions are erased on a schedule.
    pub open spec fn wf(self) -> bool {
        &&& self.clock.framerate.valid()
        &&& self.clock.erase_display_frame_no is Some ==> self.pen.mode == Cea608Mode::PopOn
    }

    /// The clock with room for words up to the given time.
    pub open spec fn until(self, time: int) -> Clock {
        Clock { max_frame_no: self.clock.framerate.frames(time) as u64, ..self.clock }
    }

    /// The number of frames before the given time.
    pub open spec fn frames(self, time: int) -> int {
        self.clock.framerate.frames(time)
    }

    /// A caption is still shown when a text with the given time span starts.
    pub open spec fn shows(self, pts: int, duration: int) -> bool {
        self.until(pts + duration).padded(self.frames(pts)).erase_display_frame_no is Some
    }

    /// The text of a buffer as it is written.
    pub open spec fn written(
        self,
        pts: int,
        duration: int,
        lines: LinesView,
        words: Map<u32, u16>,
    ) -> Option<Draft> {
        self.pen.document(self.column, lines, self.shows(pts, duration), words)
    }

    /// All that is sent for a buffer: what fills the frames before it, and its words.
    pub open spec fn sent(
        self,
        pts: int,
        duration: int,
        lines: LinesView,
        words: Map<u32, u16>,
    ) -> Seq<Code> {
        self.until(pts + duration).padding(self.frames(pts)) + self.written(
            pts,
            duration,
            lines,
            words,
        )->0.codes
    }

    /// What comes out for a buffer: all that is sent, each word on its frame, what of the
    /// text is not sent as it stands, and how many words have no frame of their own.
    pub open spec fn gives(
        self,
        pts: int,
        duration: int,
        lines: LinesView,
        words: Map<u32, u16>,
        out: Output,
    ) -> bool {
        let sent = self.sent(pts, duration, lines, words);
        let clock = self.until(pts + duration);
        &&& out.buffers@ == clock.slots(sent)
        &&& out.notices@ == self.written(pts, duration, lines, words)->0.notices
        &&& out.crowded == clock.crowded(sent.len() as int)
    }

    /// The clock once that has been sent.
    pub open spec fn sent_clock(
        self,
        pts: int,
        duration: int,
        lines: LinesView,
        words: Map<u32, u16>,
    ) -> Clock {
        self.until(pts + duration).without_erase().advance(
            self.sent(pts, duration, lines, words).len() as int,
        )
    }

    /// No number that comes up for a buffer passes its limit: the end of the buffer and
    /// the frame that it is on, the frame before a scheduled erasure, the column of the
    /// text, the time of each word and the frame to erase the caption by.
    pub open spec fn can_generate(
        self,
        pts: int,
        duration: int,
        lines: LinesView,
        words: Map<u32, u16>,
    ) -> bool {
        let sent = self.sent(pts, duration, lines, words);
        let clock = self.sent_clock(pts, duration, lines, words);
        &&& pts + duration <= u64::MAX
        &&& self.clock.framerate.frame_nanoseconds(pts + duration) <= u64::MAX
        &&& self.clock.erase_display_frame_no == Some(0u64) ==> self.clock.last_frame_no
            >= self.frames(pts)
        &&& self.written(pts, duration, lines, words) is Some
        &&& self.until(pts + duration).fits(sent.len() as int)
        &&& self.pen.target(lines) == Cea608Mode::PopOn ==> clock.last_frame_no + self.frames(
            duration,
        ) <= u64::MAX
    }

    /// The state after a buffer. A pop-on caption is to be erased once it has been
    /// shown for the time that the buffer takes.
    pub open spec fn generated(
        self,
        pts: int,
        duration: int,
        lines: LinesView,
        words: Map<u32, u16>,
    ) -> State {
        let draft = self.written(pts, duration, lines, words)->0;
        let clock = self.sent_clock(pts, duration, lines, words);
        State {
            clock: Clock {
                erase_display_frame_no: if self.pen.target(lines) == Cea608Mode::PopOn {
                    Some((clock.last_frame_no + self.frames(duration)) as u64)
                } else {
                    None
                },
                ..clock
            },
            pen: draft.pen,
            column: draft.col as u32,
            ..self
        }
    }

    /// The clock has room up to the given frame, and all frames before it can be filled.
    pub open spec fn can_pad(self, frame_no: int) -> bool {
        &&& self.clock.last_frame_no < frame_no ==> self.clock.erase_display_frame_no != Some(
            0u64,
        )
        &&& self.up_to(frame_no).fits(self.up_to(frame_no).padding(frame_no).len() as int)
    }

    /// The clock with room up to the given frame.
    pub open spec fn up_to(self, frame_no: int) -> Clock {
        Clock { max_frame_no: frame_no as u64, ..self.clock }
    }

    /// Writes the words of a buffer and sends them, each on its frame; `None`, and
    /// nothing is changed, where a number would pass its limit.
    #[verifier::rlimit(40)]
    pub fn try_generate(
        &mut self,
        pts: u64,
        duration: u64,
        lines: &Lines,
        words: &HashMap<u32, u16>,
    ) -> (r: Option<Output>)
        requires
            old(self).wf(),
        ensures
            final(self).wf(),
            r is Some <==> old(self).can_generate(pts as int, duration as int, lines@, words@),
            r is None ==> *final(self) == *old(self),
            r matches Some(out) ==> {
                &&& old(self).gives(pts as int, duration as int, lines@, words@, out)
                &&& *final(self) == old(self).generated(
                    pts as int,
                    duration as int,
                    lines@,
                    words@,
                )
            },
    {
        let ghost before = *self;
        let framerate = self.clock.framerate;
        let end = match pts.checked_add(duration) {
            Some(end) => end,
            None => {
                return None;
            },
        };
        proof {
            let numer = framerate.numer as int;
            let denom = framerate.denom as int;
            lemma_scaled_monotone(pts as int, end as int, numer, denom);
            lemma_scaled_monotone(duration as int, end as int, numer, denom);
        }
        let (max_frame_no, frame_no, frame_count) = match (
            framerate.frames_in(end),
            framerate.frames_in(pts),
            framerate.frames_in(duration),
        ) {
            (Some(m), Some(f), Some(d)) => (m, f, d),
            _ => {
                return None;
            },
        };
        let mut clock = self.clock;
        clock.max_frame_no = max_frame_no;
        let last: u64 = clock.last_frame_no;
        assert(clock == before.until(pts + duration));
        let ghost start = clock;
        let shown = match clock.erase_display_frame_no {
            Some(erase) => {
                if erase == 0 && last < frame_no {
                    return None;
                }
                !(last < erase && erase <= frame_no)
            },
            None => false,
        };
        assert(shown == before.shows(pts as int, duration as int));
        let composer = match self.pen.compose(self.column, lines, shown, words) {
            Some(composer) => composer,
            None => {
                return None;
            },
        };
        let ghost padding = start.padding(frame_no as int);
        let ghost sent = before.sent(pts as int, duration as int, lines@, words@);
        assert(sent == padding + composer@.codes);
        let count: usize = composer.codes.len();
        let (reached, crowded) = clock.count_ahead(frame_no, count);
        assert(reached == start.frame_at(sent.len() as int));
        if (last < frame_no || count > 0) && !framerate.frames_fit(last, reached) {
            return None;
        }
        let erase = if composer.pen.mode == Cea608Mode::PopOn {
            match reached.checked_add(frame_count) {
                Some(frame) => Some(frame),
                None => {
                    return None;
                },
            }
        } else {
            None
        };
        let mut out: Vec<CcBuffer> = Vec::new();
        clock.pad(&mut out, frame_no);
        clock.erase_display_frame_no = None;
        assert(clock == start.without_erase().advance(padding.len() as int));
        clock.send_all(&mut out, &composer.codes);
        proof {
            start.without_erase().lemma_slots_concat(padding, composer@.codes);
            assert(start.without_erase().slots(padding) =~= start.slots(padding));
            assert(start.without_erase().slots(sent) =~= start.slots(sent));
        }
        clock.erase_display_frame_no = erase;
        self.clock = clock;
        self.pen = composer.pen;
        self.column = composer.col;
        Some(Output { buffers: out, notices: composer.notices, crowded })
    }

    /// Writes the words of a buffer and sends them, each on its frame.
    pub fn generate(
        &mut self,
        pts: u64,
        duration: u64,
        lines: &Lines,
        words: &HashMap<u32, u16>,
    ) -> (out: Output)
        requires
            old(self).wf(),
            old(self).can_generate(pts as int, duration as int, lines@, words@),
        ensures
            final(self).wf(),
            old(self).gives(pts as int, duration as int, lines@, words@, out),
            *final(self) == old(self).generated(pts as int, duration as int, lines@, words@),
    {
        self.try_generate(pts, duration, lines, words).unwrap()
    }

    /// Fills the frames before the given one, which then is the last that words may go
    /// on; `None`, and nothing is changed, where a number would pass its limit.
    pub fn try_pad(&mut self, frame_no: u64) -> (r: Option<Vec<CcBuffer>>)
        requires
            old(self).wf(),
        ensures
            final(self).wf(),
            r is Some <==> old(self).can_pad(frame_no as int),
            r is None ==> *final(self) == *old(self),
            r matches Some(out) ==> {
                &&& out@ == old(self).up_to(frame_no as int).slots(
                    old(self).up_to(frame_no as int).padding(frame_no as int),
                )
                &&& *final(self) == (State {
                    clock: old(self).up_to(frame_no as int).padded(frame_no as int),
                    ..*old(self)
                })
            },
    {
        let mut clock = self.clock;
        clock.max_frame_no = frame_no;
        let ghost start = clock;
        if clock.last_frame_no < frame_no {
            if let Some(0) = clock.erase_display_frame_no {
                return None;
            }
            assert(start.frame_at(start.padding(frame_no as int).len() as int) == frame_no);
            if !clock.framerate.frames_fit(clock.last_frame_no, frame_no) {
                return None;
            }
        }
        let mut out: Vec<CcBuffer> = Vec::new();
        clock.pad(&mut out, frame_no);
        self.clock = clock;
        Some(out)
    }
}

/// The error of `core::str::from_utf8`.
#[verifier::external_type_specification]
#[verifier::external_body]
pub struct ExUtf8Error(Utf8Error);

/// `core::str::from_utf8`: bytes are accepted just where they are valid UTF-8, and the
/// text is then the one that the bytes encode.
pub assume_specification<'a>[ core::str::from_utf8 ](v: &'a [u8]) -> (r: Result<
    &'a str,
    Utf8Error,
>)
    ensures
        r is Ok <==> valid_utf8(v@),
        r matches Ok(text) ==> encode_utf8(text@) == v@,
;

/// Why a buffer is refused.
#[derive(Clone, Copy, Debug, PartialEq, Eq, Structural)]
pub enum ChainError {
    /// The buffer has no timestamp.
    NoTimestamp,
    /// The buffer has no duration.
    NoDuration,
    /// Text input is not UTF-8.
    NotUtf8,
    /// JSON input cannot be read.
    NotJson,
    /// Plain text has more phrases than the screen has rows.
    TooManyPhrases,
    /// A time, a frame number or a column passes its limit.
    OutOfRange,
}

/// The timestamp and the duration of a buffer, which has to have both.
pub fn buffer_times(pts: Option<u64>, duration: Option<u64>) -> (r: Result<
    (u64, u64),
    ChainError,
>)
    ensures
        match (pts, duration, r) {
            (None, _, Err(error)) => error == ChainError::NoTimestamp,
            (Some(_), None, Err(error)) => error == ChainError::NoDuration,
            (Some(pts), Some(duration), Ok(times)) => times == (pts, duration),
            _ => false,
        },
{
    match (pts, duration) {
        (None, _) => Err(ChainError::NoTimestamp),
        (_, None) => Err(ChainError::NoDuration),
        (Some(pts), Some(duration)) => Ok((pts, duration)),
    }
}

/// What the sink pad is told of besides buffers.
#[derive(Debug)]
pub enum SinkEvent {
    /// The format of the input, and the frame rate that downstream settles on; `None`
    /// if downstream accepts nothing.
    Caps { framerate: Option<Framerate>, media_type: String },
    /// A stretch of time without text.
    Gap { timestamp: Option<u64>, duration: Option<u64> },
    /// The end of the stream.
    Eos,
    /// The end of a flush.
    FlushStop,
    /// Any other event.
    Other,
}

/// What is to be done about an event.
#[derive(Debug)]
pub enum SinkAction {
    /// Report failure.
    Refuse,
    /// Send the settled format downstream, and report how that went.
    SendCaps,
    /// Send the buffers downstream, and report success.
    Send(Vec<CcBuffer>),
    /// Send the buffers downstream, then handle the event by default.
    SendThenForward(Vec<CcBuffer>),
    /// Handle the event by default.
    Forward,
}

/// A change of the running state of the element.
#[derive(Clone, Copy, Debug, PartialEq, Eq, Structural)]
pub enum StateChange {
    ReadyToPaused,
    PausedToReady,
    Other,
}

/// The timed text to CEA-608 element, without its pads.
#[derive(Clone, Copy, Debug, PartialEq, Eq, Structural)]
pub struct TtToCea608 {
    pub state: State,
    pub settings: Settings,
}

/// The contents of JSON input that could be read.
pub open spec fn json_view(json: Option<Lines>) -> Option<LinesView> {
    match json {
        Some(lines) => Some(lines@),
        None => None,
    }
}

impl TtToCea608 {
    pub open spec fn wf(self) -> bool {
        self.state.wf()
    }

    /// The captions in a buffer: those of its JSON, or those of its plain text.
    pub open spec fn input(self, data: Seq<u8>, json: Option<LinesView>) -> Result<
        LinesView,
        ChainError,
    > {
        if self.state.json_input {
            match json {
                Some(lines) => Ok(lines),
                None => Err(ChainError::NotJson),
            }
        } else if !valid_utf8(data) {
            Err(ChainError::NotUtf8)
        } else if phrases(decode_utf8(data)).len() > ROWS {
            Err(ChainError::TooManyPhrases)
        } else {
            Ok(plain_lines(decode_utf8(data)))
        }
    }

    /// A buffer is refused: for its times, for what it holds, or for a number that
    /// would pass its limit.
    pub open spec fn refusal(
        self,
        pts: Option<u64>,
        duration: Option<u64>,
        input: Result<LinesView, ChainError>,
        words: Map<u32, u16>,
    ) -> Option<ChainError> {
        match (pts, duration, input) {
            (None, _, _) => Some(ChainError::NoTimestamp),
            (_, None, _) => Some(ChainError::NoDuration),
            (_, _, Err(error)) => Some(error),
            (Some(pts), Some(duration), Ok(lines)) => if self.state.can_generate(
                pts as int,
                duration as int,
                lines,
                words,
            ) {
                None
            } else {
                Some(ChainError::OutOfRange)
            },
        }
    }

    /// An element with default settings that has not been started.
    pub fn new() -> (r: Self)
        ensures
            r.state == State::initial(),
            r.settings == (Settings { mode: DEFAULT_MODE }),
            r.wf(),
    {
        TtToCea608 { state: State::default(), settings: Settings::default() }
    }

    /// Sets the mode that the element starts in.
    pub fn set_property(&mut self, mode: Cea608Mode)
        ensures
            *final(self) == (TtToCea608 { settings: Settings { mode }, ..*old(self) }),
    {
        self.settings.mode = mode;
    }

    /// The mode that the element starts in.
    pub fn get_property(&self) -> (mode: Cea608Mode)
        ensures
            mode == self.settings.mode,
    {
        self.settings.mode
    }

    /// Starts anew with the settings of now.
    pub fn reset(&mut self)
        ensures
            *final(self) == (TtToCea608 {
                state: State::started(old(self).settings),
                ..*old(self)
            }),
            final(self).wf(),
    {
        self.state = State::default();
        self.state.settings = self.settings;
        self.state.pen.mode = self.settings.mode;
        if self.state.pen.mode != Cea608Mode::PopOn {
            self.state.pen.send_roll_up_preamble = true;
        }
    }

    /// Reads the captions in a buffer. `json` is what reading the data as JSON has
    /// given, for JSON input.
    pub fn read_input(&self, data: &[u8], json: Option<Lines>) -> (r: Result<Lines, ChainError>)
        ensures
            match r {
                Ok(lines) => self.input(data@, json_view(json)) == Ok::<LinesView, ChainError>(
                    lines@,
                ),
                Err(error) => self.input(data@, json_view(json)) == Err::<LinesView, ChainError>(
                    error,
                ),
            },
    {
        if self.state.json_input {
            match json {
                Some(lines) => Ok(lines),
                None => Err(ChainError::NotJson),
            }
        } else {
            match core::str::from_utf8(data) {
                Ok(text) => {
                    proof {
                        encode_utf8_decode_utf8(text@);
                    }
                    if split_phrases(text).len() > ROWS {
                        Err(ChainError::TooManyPhrases)
                    } else {
                        Ok(text_lines(text))
                    }
                },
                Err(_) => Err(ChainError::NotUtf8),
            }
        }
    }

    /// Takes a buffer of timed text and gives the caption buffers to send, with what there
    /// is to say about the text; a buffer that is refused changes nothing.
    pub fn sink_chain(
        &mut self,
        pts: Option<u64>,
        duration: Option<u64>,
        data: &[u8],
        json: Option<Lines>,
        words: &HashMap<u32, u16>,
    ) -> (r: Result<Output, ChainError>)
        requires
            old(self).wf(),
        ensures
            final(self).wf(),
            ({
                let input = old(self).input(data@, json_view(json));
                let state = old(self).state;
                match (old(self).refusal(pts, duration, input, words@), r) {
                    (Some(error), Err(e)) => e == error && *final(self) == *old(self),
                    (None, Ok(out)) => {
                        &&& state.gives(
                            pts->0 as int,
                            duration->0 as int,
                            input->Ok_0,
                            words@,
                            out,
                        )
                        &&& *final(self) == (TtToCea608 {
                            state: state.generated(
                                pts->0 as int,
                                duration->0 as int,
                                input->Ok_0,
                                words@,
                            ),
                            ..*old(self)
                        })
                    },
                    _ => false,
                }
            }),
    {
        let (pts, duration) = match buffer_times(pts, duration) {
            Ok(times) => times,
            Err(error) => {
                return Err(error);
            },
        };
        let lines = match self.read_input(data, json) {
            Ok(lines) => lines,
            Err(error) => {
                return Err(error);
            },
        };
        match self.state.try_generate(pts, duration, &lines, words) {
            Some(out) => Ok(out),
            None => Err(ChainError::OutOfRange),
        }
    }

    /// The frame that a gap leads up to, where no number passes its limit.
    pub open spec fn gap_frame(self, timestamp: Option<u64>, duration: Option<u64>) -> Option<
        int,
    > {
        match (timestamp, duration) {
            (Some(timestamp), Some(duration)) => {
                let frame_no = self.state.frames(timestamp + duration);
                if timestamp + duration <= u64::MAX
                    && self.state.clock.framerate.frame_nanoseconds(timestamp + duration)
                    <= u64::MAX && self.state.can_pad(frame_no) {
                    Some(frame_no)
                } else {
                    None
                }
            },
            _ => None,
        }
    }

    /// Buffers that fill the frames before the given one, and the element after them.
    pub open spec fn fills(self, frame_no: int, out: Seq<CcBuffer>, after: TtToCea608) -> bool {
        let clock = self.state.up_to(frame_no);
        &&& out == clock.slots(clock.padding(frame_no))
        &&& after == TtToCea608 {
            state: State { clock: clock.padded(frame_no), ..self.state },
            ..self
        }
    }

    /// Takes a gap: its frames are filled.
    pub fn gap_event(&mut self, timestamp: Option<u64>, duration: Option<u64>) -> (r: Option<
        Vec<CcBuffer>,
    >)
        requires
            old(self).wf(),
        ensures
            final(self).wf(),
            match (old(self).gap_frame(timestamp, duration), r) {
                (Some(frame_no), Some(out)) => old(self).fills(frame_no, out@, *final(self)),
                (None, None) => *final(self) == *old(self),
                _ => false,
            },
    {
        let (timestamp, duration) = match (timestamp, duration) {
            (Some(timestamp), Some(duration)) => (timestamp, duration),
            _ => {
                return None;
            },
        };
        let end = match timestamp.checked_add(duration) {
            Some(end) => end,
            None => {
                return None;
            },
        };
        match self.state.clock.framerate.frames_in(end) {
            Some(frame_no) => self.state.try_pad(frame_no),
            None => None,
        }
    }

    /// Takes an event. The format of the input sets the frame rate and whether text comes
    /// as JSON. A gap is filled, and so are the frames up to a scheduled erasure at the
    /// end of the stream. A flush starts the element anew.
    pub fn sink_event(&mut self, event: SinkEvent) -> (r: SinkAction)
        requires
            old(self).wf(),
            event matches SinkEvent::Caps { framerate: Some(framerate), .. } ==> framerate.valid(),
        ensures
            final(self).wf(),
            match event {
                SinkEvent::Caps { framerate: None, .. } => {
                    &&& r is Refuse
                    &&& *final(self) == *old(self)
                },
                SinkEvent::Caps { framerate: Some(framerate), media_type } => {
                    &&& r is SendCaps
                    &&& *final(self) == (TtToCea608 {
                        state: State {
                            clock: Clock { framerate, ..old(self).state.clock },
                            json_input: media_type@ == "application/x-json"@,
                            ..old(self).state
                        },
                        ..*old(self)
                    })
                },
                SinkEvent::Gap { timestamp, duration } => match old(self).gap_frame(
                    timestamp,
                    duration,
                ) {
                    Some(frame_no) => {
                        &&& r is Send
                        &&& old(self).fills(frame_no, r->Send_0@, *final(self))
                    },
                    None => {
                        &&& r is Refuse
                        &&& *final(self) == *old(self)
                    },
                },
                SinkEvent::Eos => match old(self).state.clock.erase_display_frame_no {
                    Some(frame_no) => if old(self).state.can_pad(frame_no as int) {
                        &&& r is SendThenForward
                        &&& old(self).fills(
                            frame_no as int,
                            r->SendThenForward_0@,
                            *final(self),
                        )
                    } else {
                        &&& r is Refuse
                        &&& *final(self) == *old(self)
                    },
                    None => {
                        &&& r is Forward
                        &&& *final(self) == *old(self)
                    },
                },
                SinkEvent::FlushStop => {
                    &&& r is Forward
                    &&& *final(self) == (TtToCea608 {
                        state: State::started(old(self).settings),
                        ..*old(self)
                    })
                },
                SinkEvent::Other => {
                    &&& r is Forward
                    &&& *final(self) == *old(self)
                },
            },
    {
        match event {
            SinkEvent::Caps { framerate, media_type } => match framerate {
                Some(framerate) => {
                    self.state.clock.framerate = framerate;
                    self.state.json_input = media_type == String::from_str("application/x-json");
                    SinkAction::SendCaps
                },
                None => SinkAction::Refuse,
            },
            SinkEvent::Gap { timestamp, duration } => match self.gap_event(timestamp, duration) {
                Some(out) => SinkAction::Send(out),
                None => SinkAction::Refuse,
            },
            SinkEvent::Eos => match self.state.clock.erase_display_frame_no {
                Some(frame_no) => match self.state.try_pad(frame_no) {
                    Some(out) => SinkAction::SendThenForward(out),
                    None => SinkAction::Refuse,
                },
                None => SinkAction::Forward,
            },
            SinkEvent::FlushStop => {
                self.reset();
                SinkAction::Forward
            },
            SinkEvent::Other => SinkAction::Forward,
        }
    }

    /// Before the element changes its running state: it starts anew on the way to paused.
    pub fn begin_state_change(&mut self, transition: StateChange)
        requires
            old(self).wf(),
        ensures
            final(self).wf(),
            *final(self) == (if transition == StateChange::ReadyToPaused {
                TtToCea608 { state: State::started(old(self).settings), ..*old(self) }
            } else {
                *old(self)
            }),
    {
        if transition == StateChange::ReadyToPaused {
            self.reset();
        }
    }

    /// After the element has changed its running state: on the way back from paused
    /// nothing is kept.
    pub fn end_state_change(&mut self, transition: StateChange)
        requires
            old(self).wf(),
        ensures
            final(self).wf(),
            *final(self) == (if transition == StateChange::PausedToReady {
                TtToCea608 { state: State::initial(), ..*old(self) }
            } else {
                *old(self)
            }),
    {
        if transition == StateChange::PausedToReady {
            self.state = State::default();
        }
    }
}

} // verus!
