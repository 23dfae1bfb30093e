use voice_chat::codec::message_from_encoding;
use voice_chat::codec::queue_decoded;
use voice_chat::codec::Discard;
use voice_chat::jitter::JitterBuffer;
use voice_chat::wire::parse_datagram;

#[test]
fn encoded_bytes_become_a_wire_message() {
    let mut packet = [0u8; 400];
    packet[0] = 0xaa;
    packet[1] = 0xbb;
    packet[2] = 0xcc;
    let message = message_from_encoding(&packet, Some(3)).unwrap();
    assert_eq!(&message[..], &[3u8, 0, 0xaa, 0xbb, 0xcc][..]);
}

#[test]
fn whole_packet_buffer_can_be_sent() {
    let packet = [0x11u8; 400];
    let message = message_from_encoding(&packet, Some(400)).unwrap();
    assert_eq!(message.len(), 402);
    assert_eq!(parse_datagram(&message).unwrap(), packet.to_vec());
}

#[test]
fn empty_encoding_is_a_header_only_message() {
    let packet = [0x11u8; 400];
    let message = message_from_encoding(&packet, Some(0)).unwrap();
    assert_eq!(&message[..], &[0u8, 0][..]);
}

#[test]
fn failed_encoding_is_discarded() {
    let packet = [0u8; 400];
    assert_eq!(message_from_encoding(&packet, None), Err(Discard::CodecFailed));
}

#[test]
fn encoding_longer_than_its_buffer_is_discarded() {
    let packet = [0u8; 10];
    assert_eq!(message_from_encoding(&packet, Some(11)), Err(Discard::LengthOutOfRange));
    assert_eq!(message_from_encoding(&packet, Some(usize::MAX)), Err(Discard::LengthOutOfRange));
}

#[test]
fn encoding_over_the_payload_limit_is_discarded() {
    let packet = [0u8; 1000];
    assert_eq!(message_from_encoding(&packet, Some(401)), Err(Discard::TooLarge));
    assert!(message_from_encoding(&packet, Some(400)).is_ok());
}

#[test]
fn decoded_samples_are_queued_in_order() {
    let mut jitter = JitterBuffer::new(16).unwrap();
    let pcm = [1u32, 2, 3, 4, 5, 6, 7, 8];
    assert_eq!(queue_decoded(&mut jitter, &pcm, Some(5)), Ok(5));
    assert_eq!(jitter.len(), 5);
    let mut out = vec![0u32; 6];
    jitter.play_into(&mut out);
    assert_eq!(out, vec![1, 2, 3, 4, 5, 0]);
}

#[test]
fn decoded_samples_beyond_capacity_are_dropped() {
    let mut jitter = JitterBuffer::new(4).unwrap();
    jitter.push(100);
    let pcm = [1u32, 2, 3, 4, 5];
    assert_eq!(queue_decoded(&mut jitter, &pcm, Some(5)), Ok(3));
    let mut out = vec![0u32; 4];
    jitter.play_into(&mut out);
    assert_eq!(out, vec![100, 1, 2, 3]);
}

#[test]
fn failed_decoding_leaves_jitter_buffer_unchanged() {
    let mut jitter = JitterBuffer::new(4).unwrap();
    jitter.push_all(&[7, 8]);
    let pcm = [1u32, 2, 3];
    assert_eq!(queue_decoded(&mut jitter, &pcm, None), Err(Discard::CodecFailed));
    assert_eq!(jitter.len(), 2);
    assert_eq!(jitter.pop(), Some(7));
    assert_eq!(jitter.pop(), Some(8));
    assert_eq!(jitter.pop(), None);
}

#[test]
fn decoding_longer_than_its_buffer_is_discarded() {
    let mut jitter = JitterBuffer::new(4).unwrap();
    let pcm = [1u32, 2, 3];
    assert_eq!(queue_decoded(&mut jitter, &pcm, Some(4)), Err(Discard::LengthOutOfRange));
    assert!(jitter.is_empty());
}

#[test]
fn decoding_of_no_samples_queues_nothing() {
    let mut jitter = JitterBuffer::new(4).unwrap();
    let pcm = [1u32, 2, 3];
    assert_eq!(queue_decoded(&mut jitter, &pcm, Some(0)), Ok(0));
    assert!(jitter.is_empty());
}
