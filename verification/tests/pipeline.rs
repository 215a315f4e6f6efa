use speech_stream::pipeline::{
    flush_due, goes_on_after, stream_timestamp, works_on, Delivery, StreamTimeCursor,
    ThreadState, Wake, WindowCarry, BYTE_RING_CAPACITY, FLUSH_THRESHOLD,
};
use speech_stream::ring::Sample;
use speech_stream::speech::{process, TimedText};
use speech_stream::util::format_timestamp_to_time;
use speech_stream::vad::{vad, VadState};

#[test]
fn flush_policy() {
    assert_eq!(BYTE_RING_CAPACITY, 1024 * 1024);
    assert_eq!(FLUSH_THRESHOLD, 128 * 1024);
    assert!(!flush_due(0, BYTE_RING_CAPACITY));
    assert!(!flush_due(FLUSH_THRESHOLD, BYTE_RING_CAPACITY));
    assert!(flush_due(FLUSH_THRESHOLD + 1, BYTE_RING_CAPACITY));
    assert!(flush_due(BYTE_RING_CAPACITY, BYTE_RING_CAPACITY));
    // A small ring is flushed when it is full.
    assert!(!flush_due(99, 100));
    assert!(flush_due(100, 100));
}

#[test]
fn signals() {
    assert!(goes_on_after(Delivery::Sent));
    assert!(goes_on_after(Delivery::Full));
    assert!(!goes_on_after(Delivery::Disconnected));
    assert!(works_on(Wake::Signal(ThreadState::Sync)));
    assert!(!works_on(Wake::Signal(ThreadState::End)));
    assert!(!works_on(Wake::Disconnected));
}

#[test]
fn cursor_counts_in_samples_and_answers_in_milliseconds() {
    let mut cursor = StreamTimeCursor::new();
    assert_eq!(cursor.offset_ms(), 0);
    cursor.advance(480);
    assert_eq!(cursor.offset_ms(), 30);
    cursor.advance(240000);
    assert_eq!(cursor.offset_ms(), 15_030);
    // Rounded to the nearest millisecond.
    cursor.advance(7);
    assert_eq!(cursor.offset_ms(), 15_030);
    cursor.advance(1);
    assert_eq!(cursor.offset_ms(), 15_031);
    cursor.advance(0);
    assert_eq!(cursor.offset_ms(), 15_031);
}

#[test]
fn cursor_never_moves_back() {
    let mut cursor = StreamTimeCursor::new();
    let mut last = cursor.offset_ms();
    for duration in [0u32, 1, 7, 8, 9, 15, 16, 480, 45_120, 240_000, u32::MAX] {
        assert!(cursor.has_room_for(duration));
        cursor.advance(duration);
        assert!(cursor.offset_ms() >= last);
        last = cursor.offset_ms();
    }
}

#[test]
fn cursor_room() {
    let mut cursor = StreamTimeCursor::new();
    for _ in 0..3 {
        cursor.advance(u32::MAX);
    }
    assert!(cursor.has_room_for(u32::MAX));
    assert_eq!(cursor.offset_ms(), ((3 * (u32::MAX as u64) + 8) / 16) as i64);
}

#[test]
fn stamps() {
    assert_eq!(stream_timestamp(15_000, 1_200), 16_200);
    assert_eq!(stream_timestamp(0, 0), 0);
}

#[test]
fn carry_joins_batches() {
    let mut carry = WindowCarry::new();
    assert_eq!(carry.len(), 0);

    let first: Vec<Sample> = (0..500).collect();
    let windows = carry.take_windows(first).unwrap();
    assert_eq!(windows, (0..480).collect::<Vec<Sample>>());
    assert_eq!(carry.len(), 20);

    // Too little for a window: everything is carried.
    let second: Vec<Sample> = (500..900).collect();
    assert_eq!(carry.take_windows(second), None);
    assert_eq!(carry.len(), 420);

    let third: Vec<Sample> = (900..1500).collect();
    let windows = carry.take_windows(third).unwrap();
    assert_eq!(windows, (480..1440).collect::<Vec<Sample>>());
    assert_eq!(carry.len(), 60);

    // Exactly the rest of a window.
    let fourth: Vec<Sample> = (1500..1920).collect();
    let windows = carry.take_windows(fourth).unwrap();
    assert_eq!(windows, (1440..1920).collect::<Vec<Sample>>());
    assert_eq!(carry.len(), 0);

    assert_eq!(carry.take_windows(Vec::new()), None);
    assert_eq!(carry.len(), 0);
}

#[test]
fn speech_then_pause_gives_one_line_at_the_start_of_the_stream() {
    let mut state = VadState::new();
    let mut segments = Vec::new();
    // Two seconds of speech and one of silence, in windows.
    for k in 0..101 {
        let p: f32 = if k < 67 { 0.9 } else { 0.02 };
        vad(&mut state, vec![0; 480], p.to_bits(), &mut segments);
    }
    assert_eq!(segments.len(), 1);

    let mut cursor = StreamTimeCursor::new();
    let mut printed = Vec::new();
    for segment in &segments {
        let offset = cursor.offset_ms();
        cursor.advance(segment.duration);
        // What a recogniser might return for the segment.
        let pieces = vec![TimedText { text: " hello there".to_string(), start: 0 }];
        for line in process(&pieces) {
            let at = format_timestamp_to_time(stream_timestamp(offset, line.start));
            printed.push(format!("[{}] {}", at, line.text));
        }
    }
    assert_eq!(printed, vec!["[00:00:000] hello there".to_string()]);
    assert_eq!(cursor.offset_ms(), 94 * 30);
}

#[test]
fn stamps_do_not_go_back_across_segments() {
    let mut cursor = StreamTimeCursor::new();
    let mut last = 0;
    for (duration, starts) in [(48_000u32, [0i64, 1_500, 3_000]), (240_000, [0, 7_000, 15_000])] {
        let offset = cursor.offset_ms();
        cursor.advance(duration);
        for start in starts {
            let at = stream_timestamp(offset, start);
            assert!(at >= last);
            last = at;
        }
    }
}
