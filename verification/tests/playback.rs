use gif_engine::clock::PlayClock;
use gif_engine::frame_buffer::FrameBuffer;
use gif_engine::painter::premultiply;
use gif_engine::types::Frame;

fn frame(tag: u8, delay: u64) -> Frame {
    Frame { buffer: vec![tag, tag, tag, 255], width: 1, height: 1, delay }
}

#[test]
fn next_wraps_around_after_full_cycle() {
    let mut buf = FrameBuffer::new(vec![frame(0, 10), frame(1, 20), frame(2, 30)]);
    // With N = 3 frames, call N + 1 = 4 times: the first and the last call
    // return the same frame.
    let first = frame_tag(buf.next());
    assert_eq!(first, 0);
    assert_eq!(frame_tag(buf.next()), 1);
    assert_eq!(frame_tag(buf.next()), 2);
    let wrapped = frame_tag(buf.next());
    assert_eq!(wrapped, first);
}

fn frame_tag(f: &Frame) -> u8 {
    f.buffer[0]
}

#[test]
fn override_delay_rewrites_every_delay() {
    let mut buf = FrameBuffer::new(vec![frame(0, 10), frame(1, 20), frame(2, 30)]);
    buf.override_delay(77);
    for _ in 0..3 {
        let f = buf.next();
        assert_eq!(f.delay, 77);
    }
    // Overriding again is idempotent and still uniform.
    buf.override_delay(77);
    for expected in [0u8, 1, 2] {
        let f = buf.next();
        assert_eq!(f.delay, 77);
        assert_eq!(f.buffer[0], expected);
    }
}

#[test]
fn len_and_is_empty_report_the_sequence() {
    let buf = FrameBuffer::new(vec![frame(0, 1)]);
    assert_eq!(buf.len(), 1);
    assert!(!buf.is_empty());
    let empty = FrameBuffer::new(Vec::new());
    assert_eq!(empty.len(), 0);
    assert!(empty.is_empty());
}

#[test]
fn clock_advances_without_drift() {
    let mut clock = PlayClock::new(1_000);
    assert!(!clock.is_due(1_099, 100));
    assert_eq!(clock.remaining(1_099, 100), 1);
    assert!(clock.is_due(1_100, 100));
    // The tick fires 5 ns late; the mark still moves by exactly the delay,
    // so the lateness does not accumulate.
    clock.advance(1_105, 100);
    assert!(!clock.is_due(1_199, 100));
    assert!(clock.is_due(1_200, 100));
    assert_eq!(clock.remaining(1_150, 100), 50);
}

#[test]
fn clock_resets_after_long_stall() {
    let mut clock = PlayClock::new(1_000);
    // A stall far past one whole delay resets the mark to now instead of
    // replaying a burst of overdue frames.
    assert!(clock.is_due(5_000, 100));
    clock.advance(5_000, 100);
    assert!(!clock.is_due(5_099, 100));
    assert!(clock.is_due(5_100, 100));
    assert_eq!(clock.remaining(5_000, 100), 100);
}

#[test]
fn clock_tolerates_zero_delay() {
    let mut clock = PlayClock::new(1_000);
    assert!(clock.is_due(1_000, 0));
    clock.advance(1_000, 0);
    assert_eq!(clock.remaining(1_000, 0), 0);
}

#[test]
fn premultiply_packs_argb_words() {
    let f = Frame {
        buffer: vec![
            255, 255, 255, 128, // half-transparent white
            0, 255, 0, 255, // opaque green
            10, 20, 30, 0, // fully transparent
        ],
        width: 3,
        height: 1,
        delay: 0,
    };
    let words = premultiply(&f);
    assert_eq!(words.len(), 3);
    assert_eq!(words[0], 0x8080_8080);
    assert_eq!(words[1], 0xFF00_FF00);
    assert_eq!(words[2], 0x0000_0000);
}
