//! Laws of when words are sent.

use vstd::arithmetic::div_mod::{lemma_fundamental_div_mod, lemma_mod_bound};
use vstd::prelude::*;

use crate::clock::{max, Clock, Framerate};
use crate::code::{Code, ControlCommand, PADDING};

verus! {

/// A frame starts on the nanosecond nearest to its time, which is its number of seconds over
/// the frame rate.
pub proof fn law_frame_starts_on_the_nearest_nanosecond(rate: Framerate, frame: int)
    requires
        rate.valid(),
        0 <= frame,
    ensures
        0 <= rate.nanosecond(frame),
        2 * (rate.nanosecond(frame) * rate.numer) <= 2 * (frame * 1_000_000_000 * rate.denom)
            + rate.numer,
        2 * (frame * 1_000_000_000 * rate.denom) <= 2 * (rate.nanosecond(frame) * rate.numer)
            + rate.numer,
{
    let numer = rate.numer as int;
    let exact = frame * 1_000_000_000 * rate.denom;
    let m = rate.nanosecond(frame);
    assert(exact >= 0) by (nonlinear_arith)
        requires
            exact == frame * 1_000_000_000 * rate.denom,
            0 <= frame,
            0 < rate.denom,
    ;
    lemma_fundamental_div_mod(exact + numer / 2, numer);
    lemma_mod_bound(exact + numer / 2, numer);
    assert(numer * m == m * numer) by (nonlinear_arith);
    assert(m >= 0) by (nonlinear_arith)
        requires
            m * numer > -numer,
            numer > 0,
    ;
}

/// A time falls on the frame that is counted for it. That frame starts no later than the
/// time, or the rounding of half a nanosecond at one frame a second, and the next frame
/// starts after the time.
pub proof fn law_time_falls_on_its_frame(rate: Framerate, time: int)
    requires
        rate.valid(),
        0 <= time,
    ensures
        ({
            let n = rate.frames(time);
            &&& 0 <= n
            &&& 2 * (n * 1_000_000_000 * rate.denom) <= 2 * (time * rate.numer) + rate.denom
            &&& time * rate.numer < (n + 1) * 1_000_000_000 * rate.denom
            &&& time <= rate.nanosecond(n + 1)
            &&& rate.numer >= rate.denom ==> rate.nanosecond(n) <= time + 1
        }),
{
    let numer = rate.numer as int;
    let denom = rate.denom as int;
    let exact = time * numer;
    let v = rate.frame_nanoseconds(time);
    let n = rate.frames(time);
    assert(exact >= 0) by (nonlinear_arith)
        requires
            exact == time * numer,
            0 <= time,
            0 < numer,
    ;
    lemma_fundamental_div_mod(exact + denom / 2, denom);
    lemma_mod_bound(exact + denom / 2, denom);
    assert(denom * v == v * denom) by (nonlinear_arith);
    assert(v >= 0) by (nonlinear_arith)
        requires
            v * denom > -denom,
            denom > 0,
    ;
    assert(n * 1_000_000_000 <= v < (n + 1) * 1_000_000_000);
    assert(n * 1_000_000_000 * denom <= v * denom) by (nonlinear_arith)
        requires
            n * 1_000_000_000 <= v,
            denom > 0,
    ;
    assert(v * denom + denom <= (n + 1) * 1_000_000_000 * denom) by (nonlinear_arith)
        requires
            v + 1 <= (n + 1) * 1_000_000_000,
            denom > 0,
    ;
    law_frame_starts_on_the_nearest_nanosecond(rate, n);
    law_frame_starts_on_the_nearest_nanosecond(rate, n + 1);
    let next = rate.nanosecond(n + 1);
    assert(time <= next) by (nonlinear_arith)
        requires
            2 * (time * numer) < 2 * (next * numer) + numer,
            numer > 0,
    ;
    if numer >= denom {
        let here = rate.nanosecond(n);
        assert(here <= time + 1) by (nonlinear_arith)
            requires
                2 * (here * numer) <= 2 * (time * numer) + 2 * numer,
                numer > 0,
        ;
    }
}

/// Buffers follow each other without a gap or an overlap: each starts at its frame and
/// ends where the next frame that it leads to starts, and that is where the next buffer
/// starts.
pub proof fn law_buffers_are_contiguous(clock: Clock, codes: Seq<Code>, i: int)
    requires
        clock.framerate.valid(),
        clock.fits(codes.len() as int),
        0 <= i < codes.len(),
        clock.frame_at(i + 1) * 1_000_000_000 <= u64::MAX,
    ensures
        clock.slots(codes).len() == codes.len(),
        clock.slots(codes)[i].code == codes[i],
        clock.slots(codes)[i].pts is Some,
        clock.slots(codes)[i].pts->0 == clock.framerate.nanosecond(clock.frame_at(i)),
        clock.slots(codes)[i].duration is Some,
        clock.slots(codes)[i].pts->0 + clock.slots(codes)[i].duration->0
            == clock.framerate.nanosecond(clock.frame_at(i + 1)),
        i + 1 < codes.len() ==> clock.slots(codes)[i + 1].pts == Some(
            (clock.slots(codes)[i].pts->0 + clock.slots(codes)[i].duration->0) as u64,
        ),
{
    let here = clock.frame_at(i);
    let next = clock.frame_at(i + 1);
    clock.framerate.lemma_time_monotone(here, next);
    assert(clock.framerate.frame_fits(here));
    assert(clock.framerate.frame_fits(next));
}

/// What is sent next starts where what has been sent ends, as long as the frame rate
/// stays what it is.
pub proof fn law_next_words_follow(clock: Clock, codes: Seq<Code>, later: Clock, code: Code)
    requires
        clock.framerate.valid(),
        clock.fits(codes.len() as int),
        codes.len() > 0,
        later.last_frame_no == clock.advance(codes.len() as int).last_frame_no,
        later.framerate == clock.framerate,
        later.last_frame_no * 1_000_000_000 <= u64::MAX,
    ensures
        later.slot(0, code).pts == Some(
            (clock.slots(codes).last().pts->0 + clock.slots(codes).last().duration->0) as u64,
        ),
{
    law_buffers_are_contiguous(clock, codes, codes.len() - 1);
}

/// Every word goes on a frame of its own while there is room.
pub proof fn law_one_word_per_frame(clock: Clock, i: int)
    requires
        0 <= i,
        clock.last_frame_no + i <= clock.max_frame_no,
    ensures
        clock.frame_at(i) == clock.last_frame_no + i,
{
}

/// With more words than frames, those left over go on the last frame and take no time.
pub proof fn law_more_text_than_bandwidth(clock: Clock, codes: Seq<Code>, i: int)
    requires
        clock.framerate.valid(),
        0 <= i < codes.len(),
        clock.last_frame_no + i >= clock.max_frame_no,
        clock.frame_at(i) * 1_000_000_000 <= u64::MAX,
    ensures
        clock.frame_at(i) == max(clock.last_frame_no as int, clock.max_frame_no as int),
        clock.slots(codes)[i].duration == Some(0u64),
{
}

/// The words that get no frame of their own are those behind the ones that fill the room.
pub proof fn law_crowded_words_come_last(clock: Clock, words: int, i: int)
    requires
        0 <= i < words,
    ensures
        0 <= clock.crowded(words) <= words,
        i >= words - clock.crowded(words) <==> clock.frame_at(i + 1) == clock.frame_at(i),
{
}

/// Words never take the clock back, nor past the last frame that they may go on.
pub proof fn law_frames_advance(clock: Clock, i: int, j: int)
    requires
        0 <= i <= j,
    ensures
        clock.last_frame_no <= clock.frame_at(i) <= clock.frame_at(j),
        clock.frame_at(j) <= max(clock.last_frame_no as int, clock.max_frame_no as int),
{
}

/// Padding puts one word on each frame before the given one: a scheduled erasure goes on
/// the frame before the one that it is scheduled for, and nothing but padding on the
/// others. What has been sent is no longer scheduled.
pub proof fn law_padding_fills_each_frame(clock: Clock, frame_no: u64, i: int)
    requires
        clock.last_frame_no <= frame_no <= clock.max_frame_no,
        0 <= i < frame_no - clock.last_frame_no,
    ensures
        clock.padding(frame_no as int).len() == frame_no - clock.last_frame_no,
        clock.frame_at(i) == clock.last_frame_no + i,
        clock.padding(frame_no as int)[i] == Code::Control(ControlCommand::EraseDisplayMemory)
            || clock.padding(frame_no as int)[i] == Code::Word(PADDING),
        clock.padding(frame_no as int)[i] == Code::Control(ControlCommand::EraseDisplayMemory)
            <==> clock.erase_display_frame_no == Some((clock.frame_at(i) + 1) as u64),
        clock.padded(frame_no as int).last_frame_no == frame_no,
        clock.padded(frame_no as int).framerate == clock.framerate,
        clock.padded(frame_no as int).max_frame_no == clock.max_frame_no,
        clock.padded(frame_no as int).erase_display_frame_no
            == match clock.erase_display_frame_no {
            Some(erase) => if clock.last_frame_no < erase && erase <= frame_no {
                None
            } else {
                Some(erase)
            },
            None => None,
        },
{
}

/// Padding up to a frame that is already past sends nothing and changes nothing.
pub proof fn law_frames_that_are_past_are_not_filled(clock: Clock, frame_no: u64)
    requires
        frame_no <= clock.last_frame_no,
    ensures
        clock.padding(frame_no as int).len() == 0,
        clock.padded(frame_no as int) == clock,
{
}

/// Padding up to a frame and from there to a later one sends what padding up to the
/// later frame sends, and leaves the same clock. Where the one step can be taken, so can the
/// two, and a further step to the same frame sends nothing and changes nothing.
pub proof fn law_padding_in_two_steps(clock: Clock, first: u64, second: u64)
    requires
        first <= second <= clock.max_frame_no,
    ensures
        clock.slots(clock.padding(second as int)) == clock.slots(clock.padding(first as int))
            + clock.padded(first as int).slots(clock.padded(first as int).padding(second as int)),
        clock.padded(first as int).padded(second as int) == clock.padded(second as int),
        clock.fits(clock.padding(second as int).len() as int) ==> {
            &&& clock.fits(clock.padding(first as int).len() as int)
            &&& clock.padded(first as int).fits(
                clock.padded(first as int).padding(second as int).len() as int,
            )
        },
        clock.erase_display_frame_no != Some(0u64) ==> clock.padded(
            first as int,
        ).erase_display_frame_no != Some(0u64),
        clock.padded(second as int).padding(second as int).len() == 0,
        clock.padded(second as int).padded(second as int) == clock.padded(second as int),
{
    let mid = clock.padded(first as int);
    let head = clock.padding(first as int);
    let tail = mid.padding(second as int);
    assert(clock.padding(second as int) =~= head + tail);
    clock.lemma_slots_concat(head, tail);
    assert(mid.slots(tail) =~= clock.advance(head.len() as int).slots(tail));
}

} // verus!
