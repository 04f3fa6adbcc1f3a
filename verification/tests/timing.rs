//! When words are sent.

use tttocea608::clock::{CcBuffer, Clock, Framerate};
use tttocea608::code::{cc_data_bytes, Code, ControlCommand, PADDING};

const ERASE: Code = Code::Control(ControlCommand::EraseDisplayMemory);
const FILL: Code = Code::Word(PADDING);

fn thirty() -> Framerate {
    Framerate { numer: 30, denom: 1 }
}

fn clock(erase: Option<u64>, last: u64, max: u64) -> Clock {
    Clock {
        framerate: thirty(),
        erase_display_frame_no: erase,
        last_frame_no: last,
        max_frame_no: max,
    }
}

fn codes(out: &Vec<CcBuffer>) -> Vec<Code> {
    out.iter().map(|b| b.code).collect()
}

#[test]
fn frames_start_at_rounded_nanoseconds() {
    assert_eq!(thirty().frame_time(0), Some(0));
    assert_eq!(thirty().frame_time(1), Some(33_333_333));
    assert_eq!(thirty().frame_time(2), Some(66_666_667));
    assert_eq!(thirty().frame_time(3), Some(100_000_000));
    let ntsc = Framerate { numer: 30_000, denom: 1_001 };
    assert_eq!(ntsc.frame_time(1), Some(33_366_667));
    assert_eq!(ntsc.frame_time(30), Some(1_001_000_000));
}

#[test]
fn frames_past_the_range_of_nanoseconds_have_no_time() {
    assert_eq!(thirty().frame_time(18_446_744_073), Some(614_891_469_100_000_000));
    assert_eq!(thirty().frame_time(18_446_744_074), None);
}

#[test]
fn spans_hold_whole_frames() {
    assert_eq!(thirty().frames_in(0), Some(0));
    assert_eq!(thirty().frames_in(33_333_332), Some(0));
    assert_eq!(thirty().frames_in(33_333_333), Some(0));
    assert_eq!(thirty().frames_in(33_333_334), Some(1));
    assert_eq!(thirty().frames_in(1_000_000_000), Some(30));
    assert_eq!(Framerate { numer: 30_000, denom: 1_001 }.frames_in(1_000_000_000), Some(29));
    assert_eq!(thirty().frames_in(u64::MAX), None);
}

#[test]
fn slow_frames_may_not_fit() {
    let slow = Framerate { numer: 1, denom: i32::MAX };
    assert!(slow.frames_fit(0, 8));
    assert!(!slow.frames_fit(0, 9));
    assert!(!slow.frames_fit(9, 9));
    assert!(slow.frames_fit(18_446_744_074, u64::MAX));
    assert!(thirty().frames_fit(0, u64::MAX));
}

#[test]
fn words_go_on_one_frame_each() {
    let mut k = clock(None, 0, 10);
    let mut out: Vec<CcBuffer> = Vec::new();
    k.send_all(&mut out, &vec![Code::Word(1), Code::Word(2), Code::Word(3)]);
    assert_eq!(k, clock(None, 3, 10));
    assert_eq!(
        out,
        vec![
            CcBuffer { code: Code::Word(1), pts: Some(0), duration: Some(33_333_333) },
            CcBuffer { code: Code::Word(2), pts: Some(33_333_333), duration: Some(33_333_334) },
            CcBuffer { code: Code::Word(3), pts: Some(66_666_667), duration: Some(33_333_333) },
        ]
    );
}

#[test]
fn buffers_are_contiguous() {
    let mut k = clock(None, 5, 1000);
    k.framerate = Framerate { numer: 30_000, denom: 1_001 };
    let mut out: Vec<CcBuffer> = Vec::new();
    k.pad(&mut out, 500);
    assert_eq!(out.len(), 495);
    for i in 0..out.len() - 1 {
        assert_eq!(out[i].pts.unwrap() + out[i].duration.unwrap(), out[i + 1].pts.unwrap());
    }
}

#[test]
fn what_is_sent_next_follows() {
    let mut k = clock(None, 0, 7);
    let mut out: Vec<CcBuffer> = Vec::new();
    k.pad(&mut out, 7);
    k.max_frame_no = 9;
    k.cc_data(&mut out, Code::Word(5));
    assert_eq!(out[7].pts.unwrap(), out[6].pts.unwrap() + out[6].duration.unwrap());
}

#[test]
fn more_text_than_bandwidth_takes_no_time() {
    let mut k = clock(None, 0, 1);
    let mut out: Vec<CcBuffer> = Vec::new();
    k.send_all(&mut out, &vec![Code::Word(1), Code::Word(2), Code::Word(3)]);
    assert_eq!(k.last_frame_no, 1);
    assert_eq!(out[1].pts, Some(33_333_333));
    assert_eq!(out[1].duration, Some(0));
    assert_eq!(out[2].pts, Some(33_333_333));
    assert_eq!(out[2].duration, Some(0));
}

#[test]
fn clock_past_the_last_frame_stands_still() {
    let mut k = clock(None, 4, 2);
    let mut out: Vec<CcBuffer> = Vec::new();
    k.cc_data(&mut out, Code::Word(1));
    assert_eq!(k, clock(None, 4, 2));
    assert_eq!(out[0].duration, Some(0));
    k.pad(&mut out, 3);
    assert_eq!(out.len(), 1);
}

#[test]
fn padding_erases_on_the_frame_before() {
    let mut k = clock(Some(3), 0, 5);
    let mut out: Vec<CcBuffer> = Vec::new();
    k.pad(&mut out, 5);
    assert_eq!(codes(&out), vec![FILL, FILL, ERASE, FILL, FILL]);
    assert_eq!(k, clock(None, 5, 5));
}

#[test]
fn padding_in_two_steps_is_the_same() {
    let mut once = clock(Some(4), 1, 9);
    let mut twice = once;
    let mut a: Vec<CcBuffer> = Vec::new();
    let mut b: Vec<CcBuffer> = Vec::new();
    once.pad(&mut a, 8);
    twice.pad(&mut b, 3);
    twice.pad(&mut b, 8);
    assert_eq!(a, b);
    twice.pad(&mut b, 8);
    assert_eq!(a, b);
    assert_eq!(once, twice);
}

#[test]
fn later_and_past_erasures_stay_scheduled() {
    let mut k = clock(Some(9), 0, 5);
    let mut out: Vec<CcBuffer> = Vec::new();
    k.pad(&mut out, 5);
    assert_eq!(codes(&out), vec![FILL; 5]);
    assert_eq!(k.erase_display_frame_no, Some(9));
    let mut p = clock(Some(2), 3, 5);
    p.pad(&mut out, 5);
    assert_eq!(p.erase_display_frame_no, Some(2));
}

#[test]
fn due_erasure_goes_before_a_word() {
    let mut k = clock(Some(3), 2, 9);
    let mut out: Vec<CcBuffer> = Vec::new();
    k.cc_data(&mut out, Code::Word(7));
    assert_eq!(codes(&out), vec![ERASE, Code::Word(7)]);
    assert_eq!(k, clock(None, 4, 9));
    assert!(!k.check_erase_display(&mut out));
    assert_eq!(out.len(), 2);
}

#[test]
fn words_are_sent_high_byte_first() {
    assert_eq!(cc_data_bytes(0x942c), [0x94, 0x2c]);
    assert_eq!(cc_data_bytes(PADDING), [0x80, 0x80]);
}

#[test]
fn counting_ahead_tells_what_sending_does() {
    for (last, max, frame_no, count) in [
        (0, 10, 4, 3),
        (0, 10, 4, 6),
        (0, 10, 4, 9),
        (7, 10, 4, 2),
        (12, 10, 4, 2),
        (0, 0, 0, 0),
    ] {
        let start = clock(None, last, max);
        let (reached, crowded) = start.count_ahead(frame_no, count);
        let mut sending = start;
        let mut out: Vec<CcBuffer> = Vec::new();
        sending.pad(&mut out, frame_no);
        sending.send_all(&mut out, &vec![Code::Word(PADDING); count]);
        assert_eq!(sending.last_frame_no, reached);
        assert_eq!(out.iter().filter(|b| b.duration == Some(0)).count(), crowded);
    }
}
