//! When caption words are sent: one word for each video frame.

use muldiv::MulDiv;
use vstd::arithmetic::div_mod::lemma_div_is_ordered;
use vstd::arithmetic::mul::lemma_mul_inequality;
use vstd::prelude::*;

use crate::code::{Code, ControlCommand, PADDING};
use crate::laws::timing::{
    law_frame_starts_on_the_nearest_nanosecond, law_time_falls_on_its_frame,
};

verus! {

/// Nanoseconds in a second.
pub const SECOND: u64 = 1_000_000_000;

pub const DEFAULT_FPS_N: i32 = 30;

pub const DEFAULT_FPS_D: i32 = 1;

/// Frames per second, as a fraction.
#[derive(Clone, Copy, Debug, PartialEq, Eq, Structural)]
pub struct Framerate {
    pub numer: i32,
    pub denom: i32,
}

/// A caption word with the time span that it is sent in; `None` is a time that
/// nanoseconds in 64 bits cannot hold.
#[derive(Clone, Copy, Debug, PartialEq, Eq, Structural)]
pub struct CcBuffer {
    pub code: Code,
    pub pts: Option<u64>,
    pub duration: Option<u64>,
}

/// Where in the stream of frames the element is.
#[derive(Clone, Copy, Debug, PartialEq, Eq, Structural)]
pub struct Clock {
    pub framerate: Framerate,
    /// The frame by which the display is to be erased.
    pub erase_display_frame_no: Option<u64>,
    /// The frame that the next word goes on.
    pub last_frame_no: u64,
    /// The frame that words may not pass.
    pub max_frame_no: u64,
}

/// `value * num / denom`, rounded to the nearest integer, halves upwards.
pub open spec fn scaled(value: int, num: int, denom: int) -> int {
    (value * num + denom / 2) / denom
}

/// Calls `mul_div_round` of `muldiv::MulDiv` for `u64`: the value times the first
/// factor over the second, rounded to the nearest integer with halves upwards, and
/// `None` where that does not fit 64 bits. The call panics on a zero denominator.
#[verifier::external_body]
fn mul_div_round(value: u64, num: u64, denom: u64) -> (r: Option<u64>)
    requires
        denom != 0,
    ensures
        r == (if scaled(value as int, num as int, denom as int) <= u64::MAX {
            Some(scaled(value as int, num as int, denom as int) as u64)
        } else {
            None::<u64>
        }),
{
    value.mul_div_round(num, denom)
}

pub open spec fn min(a: int, b: int) -> int {
    if a <= b {
        a
    } else {
        b
    }
}

pub open spec fn max(a: int, b: int) -> int {
    if a <= b {
        b
    } else {
        a
    }
}

/// The time from one point to a later one, where both are known.
pub open spec fn elapsed(from: Option<u64>, to: Option<u64>) -> Option<u64> {
    match (from, to) {
        (Some(a), Some(b)) if a <= b => Some((b - a) as u64),
        _ => None,
    }
}

/// A later value is scaled to a result that is not smaller.
pub proof fn lemma_scaled_monotone(a: int, b: int, num: int, denom: int)
    requires
        0 <= a <= b,
        0 <= num,
        0 < denom,
    ensures
        0 <= scaled(a, num, denom) <= scaled(b, num, denom),
{
    lemma_mul_inequality(a, b, num);
    lemma_mul_inequality(0, a, num);
    lemma_div_is_ordered(a * num + denom / 2, b * num + denom / 2, denom);
    lemma_div_is_ordered(0, a * num + denom / 2, denom);
}

impl Framerate {
    /// A positive rate.
    pub open spec fn valid(self) -> bool {
        &&& self.numer > 0
        &&& self.denom > 0
    }

    /// The nanosecond at which a frame starts, before any limit.
    pub open spec fn nanosecond(self, frame: int) -> int {
        scaled(frame * SECOND, self.denom as int, self.numer as int)
    }

    /// The time at which a frame starts: unknown where its number of seconds does
    /// not even fit nanoseconds in 64 bits.
    pub open spec fn time(self, frame: int) -> Option<u64> {
        if frame * SECOND > u64::MAX {
            None
        } else {
            Some(self.nanosecond(frame) as u64)
        }
    }

    /// The start of the frame is a time that 64 bits hold, or is left unknown.
    pub open spec fn frame_fits(self, frame: int) -> bool {
        frame * SECOND <= u64::MAX ==> self.nanosecond(frame) <= u64::MAX
    }

    /// A time span as nanoseconds times the frame rate.
    pub open spec fn frame_nanoseconds(self, nanoseconds: int) -> int {
        scaled(nanoseconds, self.numer as int, self.denom as int)
    }

    /// The number of whole frames in a time span.
    pub open spec fn frames(self, nanoseconds: int) -> int {
        self.frame_nanoseconds(nanoseconds) / SECOND as int
    }

    /// The number of whole frames in a time span, `None` where the span times the
    /// frame rate does not fit 64 bits.
    pub fn frames_in(self, nanoseconds: u64) -> (r: Option<u64>)
        requires
            self.valid(),
        ensures
            r is Some <==> self.frame_nanoseconds(nanoseconds as int) <= u64::MAX,
            r matches Some(n) ==> n == self.frames(nanoseconds as int),
            r matches Some(n) ==> {
                &&& 2 * (n * SECOND * self.denom) <= 2 * (nanoseconds * self.numer) + self.denom
                &&& nanoseconds * self.numer < (n + 1) * SECOND * self.denom
            },
    {
        proof {
            law_time_falls_on_its_frame(self, nanoseconds as int);
        }
        match mul_div_round(nanoseconds, self.numer as u64, self.denom as u64) {
            Some(v) => {
                proof {
                    lemma_scaled_monotone(
                        0,
                        nanoseconds as int,
                        self.numer as int,
                        self.denom as int,
                    );
                }
                Some(v / SECOND)
            },
            None => None,
        }
    }

    /// The start of a frame.
    pub fn frame_time(self, frame: u64) -> (r: Option<u64>)
        requires
            self.valid(),
            self.frame_fits(frame as int),
        ensures
            r == self.time(frame as int),
            r is Some <==> frame * SECOND <= u64::MAX,
            r matches Some(t) ==> {
                &&& 2 * (t * self.numer) <= 2 * (frame * SECOND * self.denom) + self.numer
                &&& 2 * (frame * SECOND * self.denom) <= 2 * (t * self.numer) + self.numer
            },
    {
        proof {
            law_frame_starts_on_the_nearest_nanosecond(self, frame as int);
        }
        match frame.checked_mul(SECOND) {
            Some(v) => mul_div_round(v, self.denom as u64, self.numer as u64),
            None => None,
        }
    }

    /// Whether the starts of all frames from one to another can be told.
    pub fn frames_fit(self, first: u64, last: u64) -> (r: bool)
        requires
            self.valid(),
            first <= last,
        ensures
            r <==> forall|f: int| first <= f <= last ==> self.frame_fits(f),
    {
        let limit: u64 = u64::MAX / SECOND;
        if first > limit {
            return true;
        }
        let top: u64 = if last < limit {
            last
        } else {
            limit
        };
        let r = mul_div_round(top * SECOND, self.denom as u64, self.numer as u64).is_some();
        proof {
            if r {
                assert forall|f: int| first <= f <= last implies self.frame_fits(f) by {
                    if f <= top {
                        lemma_scaled_monotone(
                            f * SECOND,
                            top * SECOND,
                            self.denom as int,
                            self.numer as int,
                        );
                    }
                }
            } else {
                assert(!self.frame_fits(top as int));
            }
        }
        r
    }

    /// A later frame does not start earlier.
    pub proof fn lemma_time_monotone(self, a: int, b: int)
        requires
            self.valid(),
            0 <= a <= b,
        ensures
            0 <= self.nanosecond(a) <= self.nanosecond(b),
    {
        lemma_scaled_monotone(a * SECOND, b * SECOND, self.denom as int, self.numer as int);
    }
}

impl Clock {
    /// The frame that the clock is on after a number of words: one more with each
    /// word, up to the last frame that words may go on.
    pub open spec fn frame_at(self, words: int) -> int {
        if self.last_frame_no >= self.max_frame_no {
            self.last_frame_no as int
        } else {
            min(self.last_frame_no + words, self.max_frame_no as int)
        }
    }

    /// The clock after a number of words.
    pub open spec fn advance(self, words: int) -> Clock {
        Clock { last_frame_no: self.frame_at(words) as u64, ..self }
    }

    /// What is sent as the word with the given number, counting from zero: from the
    /// frame before it to the frame after it.
    pub open spec fn slot(self, index: int, code: Code) -> CcBuffer {
        let from = self.framerate.time(self.frame_at(index));
        let to = self.framerate.time(self.frame_at(index + 1));
        CcBuffer { code, pts: from, duration: elapsed(from, to) }
    }

    /// Words sent one after the other.
    pub open spec fn slots(self, codes: Seq<Code>) -> Seq<CcBuffer> {
        Seq::new(codes.len(), |i: int| self.slot(i, codes[i]))
    }

    /// The number of frames that words may still go on.
    pub open spec fn room(self) -> int {
        max(0, self.max_frame_no - self.last_frame_no)
    }

    /// Of that many words, those that get no frame of their own.
    pub open spec fn crowded(self, words: int) -> int {
        max(0, words - self.room())
    }

    /// The times of that many words can be told.
    pub open spec fn fits(self, words: int) -> bool {
        words > 0 ==> forall|f: int|
            self.frame_at(0) <= f <= self.frame_at(words) ==> self.framerate.frame_fits(f)
    }

    /// The next word is the last chance to erase the display in time.
    pub open spec fn erase_due(self) -> bool {
        self.erase_display_frame_no == Some((self.last_frame_no + 1) as u64)
            && self.last_frame_no < u64::MAX
    }

    /// The clock with no erasure scheduled.
    pub open spec fn without_erase(self) -> Clock {
        Clock { erase_display_frame_no: None, ..self }
    }

    /// The words that are sent where one is asked for: an erasure that is due goes first.
    pub open spec fn with_due_erase(self, code: Code) -> Seq<Code> {
        if self.erase_due() {
            seq![Code::Control(ControlCommand::EraseDisplayMemory), code]
        } else {
            seq![code]
        }
    }

    /// The clock after the erasure that is due, if one is, and one word.
    pub open spec fn after_due_erase(self) -> Clock {
        if self.erase_due() {
            self.without_erase().advance(2)
        } else {
            self.advance(1)
        }
    }

    /// The words on the frames before the given one: padding, but for the erasure on
    /// the frame before the one that it is scheduled for.
    pub open spec fn padding(self, frame_no: int) -> Seq<Code> {
        Seq::new(
            max(0, frame_no - self.last_frame_no) as nat,
            |i: int|
                if self.erase_display_frame_no == Some((self.last_frame_no + i + 1) as u64) {
                    Code::Control(ControlCommand::EraseDisplayMemory)
                } else {
                    Code::Word(PADDING)
                },
        )
    }

    /// The erasure is sent while padding up to the given frame.
    pub open spec fn erases_before(self, frame_no: int) -> bool {
        self.erase_display_frame_no matches Some(e) && self.last_frame_no < e <= frame_no
    }

    /// The clock after padding up to the given frame.
    pub open spec fn padded(self, frame_no: int) -> Clock {
        Clock {
            last_frame_no: max(self.last_frame_no as int, frame_no) as u64,
            erase_display_frame_no: if self.erases_before(frame_no) {
                None
            } else {
                self.erase_display_frame_no
            },
            ..self
        }
    }

    /// The words of two sequences sent one after the other are those of the first, then
    /// those of the second from where the first has left the clock.
    pub proof fn lemma_slots_concat(self, first: Seq<Code>, second: Seq<Code>)
        ensures
            self.slots(first + second) == self.slots(first) + self.advance(
                first.len() as int,
            ).slots(second),
            self.advance(first.len() as int).advance(second.len() as int) == self.advance(
                (first + second).len() as int,
            ),
    {
        let later = self.advance(first.len() as int);
        assert forall|i: int| 0 <= i implies #[trigger] later.frame_at(i) == self.frame_at(
            first.len() + i,
        ) by {}
        assert(self.slots(first + second) =~= self.slots(first) + later.slots(second));
    }

    /// Counts ahead what padding up to a frame and a number of words behind it come to: the
    /// frame that is reached, and the words that get no frame of their own.
    pub fn count_ahead(&self, frame_no: u64, count: usize) -> (r: (u64, usize))
        requires
            self.last_frame_no < frame_no ==> frame_no <= self.max_frame_no,
        ensures
            r.0 == self.frame_at(self.padding(frame_no as int).len() + count),
            r.1 == self.crowded(self.padding(frame_no as int).len() + count),
    {
        let padded: u64 = if self.last_frame_no < frame_no {
            frame_no
        } else {
            self.last_frame_no
        };
        if padded >= self.max_frame_no {
            (padded, count)
        } else if count as u64 >= self.max_frame_no - padded {
            (self.max_frame_no, count - (self.max_frame_no - padded) as usize)
        } else {
            (padded + count as u64, 0)
        }
    }

    /// Sends one word on the next frame, or with the words already on the last one.
    fn send(&mut self, out: &mut Vec<CcBuffer>, code: Code)
        requires
            old(self).framerate.valid(),
            old(self).fits(1),
        ensures
            *final(self) == old(self).advance(1),
            final(out)@ == old(out)@.push(old(self).slot(0, code)),
    {
        let ghost before = *self;
        let pts = self.framerate.frame_time(self.last_frame_no);
        if self.last_frame_no < self.max_frame_no {
            self.last_frame_no = self.last_frame_no + 1;
        }
        assert(self.last_frame_no == before.frame_at(1));
        let next_pts = self.framerate.frame_time(self.last_frame_no);
        let duration = match (pts, next_pts) {
            (Some(a), Some(b)) => b.checked_sub(a),
            _ => None,
        };
        out.push(CcBuffer { code, pts, duration });
    }

    /// Erases the display if this is the frame to do it on, and says whether it did.
    pub fn check_erase_display(&mut self, out: &mut Vec<CcBuffer>) -> (r: bool)
        requires
            old(self).framerate.valid(),
            old(self).erase_display_frame_no != Some(0u64),
            old(self).erase_due() ==> old(self).fits(1),
        ensures
            r == old(self).erase_due(),
            r ==> *final(self) == old(self).without_erase().advance(1),
            r ==> final(out)@ == old(out)@.push(
                old(self).slot(0, Code::Control(ControlCommand::EraseDisplayMemory)),
            ),
            !r ==> *final(self) == *old(self) && final(out)@ == old(out)@,
    {
        if let Some(erase_display_frame_no) = self.erase_display_frame_no {
            if self.last_frame_no == erase_display_frame_no - 1 {
                self.erase_display_frame_no = None;
                assert(self.fits(1));
                self.send(out, Code::Control(ControlCommand::EraseDisplayMemory));
                return true;
            }
        }
        false
    }

    /// Sends one word; an erasure of the display that is due goes first.
    pub fn cc_data(&mut self, out: &mut Vec<CcBuffer>, code: Code)
        requires
            old(self).framerate.valid(),
            old(self).erase_display_frame_no != Some(0u64),
            old(self).fits(old(self).with_due_erase(code).len() as int),
        ensures
            *final(self) == old(self).after_due_erase(),
            final(out)@ == old(out)@ + old(self).slots(old(self).with_due_erase(code)),
    {
        let ghost before = *self;
        let ghost sent = out@;
        let erased = self.check_erase_display(out);
        assert(self.fits(1));
        self.send(out, code);
        assert(out@ =~= sent + before.slots(before.with_due_erase(code)));
    }

    /// Fills the frames before the given one.
    pub fn pad(&mut self, out: &mut Vec<CcBuffer>, frame_no: u64)
        requires
            old(self).framerate.valid(),
            old(self).last_frame_no < frame_no ==> frame_no <= old(self).max_frame_no
                && old(self).erase_display_frame_no != Some(0u64),
            old(self).fits(old(self).padding(frame_no as int).len() as int),
        ensures
            *final(self) == old(self).padded(frame_no as int),
            final(out)@ == old(out)@ + old(self).slots(old(self).padding(frame_no as int)),
    {
        let ghost before = *self;
        let ghost sent = out@;
        let ghost codes = before.padding(frame_no as int);
        let ghost mut done: int = 0;
        assert(out@ =~= sent + before.slots(codes).take(0));
        while self.last_frame_no < frame_no
            invariant
                before.framerate.valid(),
                before.last_frame_no < frame_no ==> frame_no <= before.max_frame_no
                    && before.erase_display_frame_no != Some(0u64),
                codes == before.padding(frame_no as int),
                before.fits(codes.len() as int),
                0 <= done <= codes.len(),
                self.last_frame_no == before.last_frame_no + done,
                *self == before.padded(before.last_frame_no + done),
                out@ == sent + before.slots(codes).take(done),
            decreases frame_no - self.last_frame_no,
        {
            let ghost now = *self;
            assert(now.fits(1));
            assert(before.slots(codes).take(done + 1) =~= before.slots(codes).take(done).push(
                before.slot(done, codes[done]),
            ));
            if !self.check_erase_display(out) {
                self.cc_data(out, Code::Word(PADDING));
                assert(now.slots(now.with_due_erase(Code::Word(PADDING))) =~= seq![
                    now.slot(0, Code::Word(PADDING)),
                ]);
            }
            assert(now.slot(0, codes[done]) == before.slot(done, codes[done]));
            proof {
                done = done + 1;
            }
        }
        assert(before.slots(codes).take(done) =~= before.slots(codes));
    }

    /// Sends words one after the other while no erasure is scheduled.
    pub fn send_all(&mut self, out: &mut Vec<CcBuffer>, codes: &Vec<Code>)
        requires
            old(self).framerate.valid(),
            old(self).erase_display_frame_no is None,
            old(self).fits(codes@.len() as int),
        ensures
            *final(self) == old(self).advance(codes@.len() as int),
            final(out)@ == old(out)@ + old(self).slots(codes@),
    {
        let ghost before = *self;
        let ghost sent = out@;
        let len: usize = codes.len();
        assert(out@ =~= sent + before.slots(codes@).take(0));
        for i in 0..len
            invariant
                len == codes@.len(),
                before.framerate.valid(),
                before.erase_display_frame_no is None,
                before.fits(codes@.len() as int),
                *self == before.advance(i as int),
                out@ == sent + before.slots(codes@).take(i as int),
        {
            let ghost now = *self;
            assert(now.fits(1));
            self.cc_data(out, codes[i]);
            assert(now.slots(now.with_due_erase(codes@[i as int])) =~= seq![
                before.slot(i as int, codes@[i as int]),
            ]);
            assert(before.slots(codes@).take(i + 1) =~= before.slots(codes@).take(i as int).push(
                before.slot(i as int, codes@[i as int]),
            ));
        }
        assert(before.slots(codes@).take(len as int) =~= before.slots(codes@));
    }
}

} // verus!
