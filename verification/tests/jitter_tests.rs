use voice_chat::jitter::JitterBuffer;
use voice_chat::jitter::JITTER_CAPACITY;
use voice_chat::jitter::JITTER_FRAMES;
use voice_chat::jitter::SILENCE;

#[test]
fn stream_jitter_buffer_holds_ten_frames() {
    assert_eq!(JITTER_FRAMES, 10);
    assert_eq!(JITTER_CAPACITY, 9600);
    let jb = JitterBuffer::new(JITTER_CAPACITY).unwrap();
    assert_eq!(jb.capacity(), 10 * 960);
}

#[test]
fn overflow_keeps_oldest_and_drops_newest() {
    let mut jb = JitterBuffer::new(4).unwrap();
    let queued = jb.push_all(&[1, 2, 3, 4, 5]);
    assert_eq!(queued, 4);
    assert_eq!(jb.len(), 4);
    assert_eq!(jb.pop(), Some(1));
    assert_eq!(jb.pop(), Some(2));
    assert_eq!(jb.pop(), Some(3));
    assert_eq!(jb.pop(), Some(4));
    assert_eq!(jb.pop(), None);
}

#[test]
fn overflow_one_at_a_time_matches_bulk() {
    let mut jb = JitterBuffer::new(4).unwrap();
    let accepted: Vec<bool> = [1u32, 2, 3, 4, 5].iter().map(|s| jb.push(*s)).collect();
    assert_eq!(accepted, vec![true, true, true, true, false]);
    let mut out = vec![99u32; 4];
    jb.play_into(&mut out);
    assert_eq!(out, vec![1, 2, 3, 4]);
}

#[test]
fn buffer_never_grows_past_capacity() {
    let mut jb = JitterBuffer::new(3).unwrap();
    for s in 0..100u32 {
        jb.push(s);
        assert!(jb.len() <= jb.capacity());
    }
    assert_eq!(jb.len(), 3);
    assert_eq!(jb.capacity(), 3);
    assert!(jb.is_full());
}

#[test]
fn partly_filled_buffer_takes_what_fits() {
    let mut jb = JitterBuffer::new(5).unwrap();
    assert_eq!(jb.push_all(&[10, 11, 12]), 3);
    assert_eq!(jb.push_all(&[20, 21, 22, 23]), 2);
    let mut out = vec![0u32; 5];
    jb.play_into(&mut out);
    assert_eq!(out, vec![10, 11, 12, 20, 21]);
}

#[test]
fn underrun_gives_silence_and_leaves_buffer_empty() {
    let mut jb = JitterBuffer::new(4).unwrap();
    assert!(jb.is_empty());
    assert_eq!(jb.pop_or_silence(), SILENCE);
    assert_eq!(jb.pop_or_silence(), 0);
    assert_eq!(jb.len(), 0);
    assert!(jb.is_empty());
}

#[test]
fn silence_is_zero_amplitude() {
    assert_eq!(f32::from_bits(SILENCE), 0.0f32);
    assert_eq!(0.0f32.to_bits(), SILENCE);
}

#[test]
fn samples_come_out_bit_for_bit() {
    let mut jb = JitterBuffer::new(8).unwrap();
    let samples = [0.5f32, -1.0, 0.25, 1.0, -0.000_1];
    for s in samples {
        assert!(jb.push(s.to_bits()));
    }
    for s in samples {
        assert_eq!(f32::from_bits(jb.pop_or_silence()), s);
    }
    assert_eq!(f32::from_bits(jb.pop_or_silence()), 0.0);
}

#[test]
fn playback_pads_with_silence_after_last_sample() {
    let mut jb = JitterBuffer::new(8).unwrap();
    jb.push_all(&[5, 6, 7]);
    let mut out = vec![42u32; 6];
    jb.play_into(&mut out);
    assert_eq!(out, vec![5, 6, 7, 0, 0, 0]);
    assert!(jb.is_empty());
}

#[test]
fn playback_takes_only_what_it_asks_for() {
    let mut jb = JitterBuffer::new(8).unwrap();
    jb.push_all(&[5, 6, 7, 8, 9]);
    let mut out = vec![0u32; 2];
    jb.play_into(&mut out);
    assert_eq!(out, vec![5, 6]);
    assert_eq!(jb.len(), 3);
    assert_eq!(jb.pop(), Some(7));
}

#[test]
fn playback_into_empty_output_changes_nothing() {
    let mut jb = JitterBuffer::new(2).unwrap();
    jb.push(1);
    let mut out: Vec<u32> = Vec::new();
    jb.play_into(&mut out);
    assert!(out.is_empty());
    assert_eq!(jb.len(), 1);
}

#[test]
fn order_survives_wrapping_around_the_ring() {
    let mut jb = JitterBuffer::new(4).unwrap();
    let mut next_in = 0u32;
    let mut next_out = 0u32;
    for _ in 0..50 {
        for _ in 0..3 {
            assert!(jb.push(next_in));
            next_in += 1;
        }
        for _ in 0..3 {
            assert_eq!(jb.pop(), Some(next_out));
            next_out += 1;
        }
    }
    assert!(jb.is_empty());
}

#[test]
fn room_returns_after_pop() {
    let mut jb = JitterBuffer::new(2).unwrap();
    assert!(jb.push(1));
    assert!(jb.push(2));
    assert!(!jb.push(3));
    assert_eq!(jb.pop(), Some(1));
    assert!(!jb.is_full());
    assert!(jb.push(4));
    assert_eq!(jb.pop(), Some(2));
    assert_eq!(jb.pop(), Some(4));
}

#[test]
fn no_buffer_of_zero_capacity() {
    assert!(JitterBuffer::new(0).is_none());
}

#[test]
fn new_buffer_is_empty_with_requested_capacity() {
    let jb = JitterBuffer::new(9600).unwrap();
    assert_eq!(jb.capacity(), 9600);
    assert_eq!(jb.len(), 0);
    assert!(jb.is_empty());
    assert!(!jb.is_full());
}

#[test]
fn push_all_of_nothing_queues_nothing() {
    let mut jb = JitterBuffer::new(2).unwrap();
    assert_eq!(jb.push_all(&[]), 0);
    assert!(jb.is_empty());
}

#[test]
fn no_buffer_without_a_ring() {
    assert!(JitterBuffer::from_ring(None).is_none());
}
