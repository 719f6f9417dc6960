use keyboard_synth::stream::{
    next_chunk_len, pack_sample_word, scan_due, SampleStreamProducer, BUFFER_SIZE, MAX_CHUNK,
    SCAN_INTERVAL_MICROS,
};

#[test]
fn stream_constants() {
    assert_eq!(BUFFER_SIZE, 480);
    assert_eq!(SCAN_INTERVAL_MICROS, 250);
    assert_eq!(MAX_CHUNK, 64);
}

#[test]
fn buffers_alternate_in_lock_step_with_completions() {
    let mut producer = SampleStreamProducer::new();
    let mut expected_front = 0;
    for _ in 0..8 {
        let drained = producer.begin_transfer();
        assert_eq!(drained, expected_front);
        let filled = producer.fill_index();
        assert_eq!(filled, 1 - expected_front);
        producer.complete_transfer();
        // The buffer just filled becomes the next front, and the buffer
        // just drained is the next fill target: no skips, no repeats.
        expected_front = 1 - expected_front;
    }
}

#[test]
fn fresh_producer_buffers_are_silent() {
    let producer = SampleStreamProducer::new();
    for pos in 0..BUFFER_SIZE {
        assert_eq!(producer.front_word(pos), 0);
    }
}

#[test]
fn filled_words_surface_as_the_next_front() {
    let mut producer = SampleStreamProducer::new();
    producer.begin_transfer();
    // Fill the back buffer with a recognizable ramp while the front drains.
    for pos in 0..BUFFER_SIZE {
        producer.set_word(pos, pos as u32 + 7);
    }
    // The front buffer was never written: it still holds silence.
    for pos in 0..BUFFER_SIZE {
        assert_eq!(producer.front_word(pos), 0);
    }
    producer.complete_transfer();
    // After the swap, the words just filled are what drains next.
    for pos in 0..BUFFER_SIZE {
        assert_eq!(producer.front_word(pos), pos as u32 + 7);
    }
}

#[test]
fn drained_buffer_is_next_fill_target() {
    let mut producer = SampleStreamProducer::new();
    let drained_first = producer.begin_transfer();
    producer.complete_transfer();
    assert_eq!(producer.fill_index(), drained_first);
    let drained_second = producer.begin_transfer();
    assert_ne!(drained_second, drained_first);
    producer.complete_transfer();
    assert_eq!(producer.fill_index(), drained_second);
}

#[test]
fn sample_word_duplicates_sample_in_both_halves() {
    assert_eq!(pack_sample_word(0), 0x0000_0000);
    assert_eq!(pack_sample_word(1), 0x0001_0001);
    assert_eq!(pack_sample_word(0x1234), 0x1234_1234);
    assert_eq!(pack_sample_word(-1), 0xFFFF_FFFF);
    assert_eq!(pack_sample_word(i16::MIN), 0x8000_8000);
    assert_eq!(pack_sample_word(i16::MAX), 0x7FFF_7FFF);
}

#[test]
fn scan_is_due_exactly_at_the_interval() {
    assert!(!scan_due(0));
    assert!(!scan_due(SCAN_INTERVAL_MICROS - 1));
    assert!(scan_due(SCAN_INTERVAL_MICROS));
    assert!(scan_due(SCAN_INTERVAL_MICROS + 1));
    assert!(scan_due(u64::MAX));
}

#[test]
fn chunks_tile_a_buffer_exactly() {
    assert_eq!(next_chunk_len(0), 0);
    assert_eq!(next_chunk_len(1), 1);
    assert_eq!(next_chunk_len(63), 63);
    assert_eq!(next_chunk_len(64), 64);
    assert_eq!(next_chunk_len(100), 64);
    // Walking a whole buffer consumes it in full chunks.
    let mut remaining = BUFFER_SIZE;
    let mut steps = 0;
    while remaining > 0 {
        let chunk = next_chunk_len(remaining);
        assert!(chunk > 0 && chunk <= MAX_CHUNK);
        remaining -= chunk;
        steps += 1;
    }
    assert_eq!(steps, (BUFFER_SIZE + MAX_CHUNK - 1) / MAX_CHUNK);
}
