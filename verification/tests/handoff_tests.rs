use async_channel::bounded;
use bytes::Bytes;
use voice_chat::codec::message_from_encoding;
use voice_chat::codec::queue_decoded;
use voice_chat::codec::Discard;
use voice_chat::frame::FrameAssembler;
use voice_chat::handoff::deliver_datagram;
use voice_chat::handoff::submit_encoded;
use voice_chat::handoff::Offer;
use voice_chat::handoff::QUEUE_DEPTH;
use voice_chat::jitter::JitterBuffer;
use voice_chat::session::Event;
use voice_chat::session::Session;
use voice_chat::wire::WireError;

#[test]
fn queue_depth_is_1024() {
    assert_eq!(QUEUE_DEPTH, 1024);
}

#[test]
fn submitted_message_reaches_the_outbound_queue() {
    let (tx, rx) = bounded::<Bytes>(4);
    let packet = [9u8, 8, 7, 6];
    assert_eq!(submit_encoded(&packet, Some(3), &tx), Ok(Offer::Queued));
    let message = rx.try_recv().unwrap();
    assert_eq!(&message[..], &[3u8, 0, 9, 8, 7][..]);
    assert!(rx.try_recv().is_err());
}

#[test]
fn full_outbound_queue_drops_the_newest_message() {
    let (tx, rx) = bounded::<Bytes>(1);
    assert_eq!(submit_encoded(&[1u8], Some(1), &tx), Ok(Offer::Queued));
    assert_eq!(submit_encoded(&[2u8], Some(1), &tx), Ok(Offer::DroppedFull));
    assert_eq!(&rx.try_recv().unwrap()[..], &[1u8, 0, 1][..]);
    assert!(rx.try_recv().is_err());
    assert_eq!(submit_encoded(&[3u8], Some(1), &tx), Ok(Offer::Queued));
    assert_eq!(&rx.try_recv().unwrap()[..], &[1u8, 0, 3][..]);
}

#[test]
fn closed_outbound_queue_drops_the_message() {
    let (tx, rx) = bounded::<Bytes>(1);
    drop(rx);
    assert_eq!(submit_encoded(&[1u8], Some(1), &tx), Ok(Offer::DroppedClosed));
}

#[test]
fn failed_encoding_offers_nothing() {
    let (tx, rx) = bounded::<Bytes>(4);
    assert_eq!(submit_encoded(&[1u8, 2], None, &tx), Err(Discard::CodecFailed));
    assert_eq!(submit_encoded(&[1u8, 2], Some(3), &tx), Err(Discard::LengthOutOfRange));
    assert_eq!(submit_encoded(&[0u8; 500], Some(401), &tx), Err(Discard::TooLarge));
    assert!(rx.is_empty());
}

#[test]
fn delivered_payload_reaches_the_inbound_queue() {
    let (tx, rx) = bounded::<Vec<u8>>(4);
    assert_eq!(deliver_datagram(&[2, 0, 7, 8, 9], &tx), Ok(Offer::Queued));
    assert_eq!(rx.try_recv().unwrap(), vec![7u8, 8]);
    assert!(rx.is_empty());
}

#[test]
fn malformed_datagram_offers_nothing() {
    let (tx, rx) = bounded::<Vec<u8>>(4);
    assert_eq!(deliver_datagram(&[], &tx), Err(WireError::TooShort));
    assert_eq!(deliver_datagram(&[1], &tx), Err(WireError::TooShort));
    assert_eq!(deliver_datagram(&[5, 0, 1, 2], &tx), Err(WireError::Truncated));
    assert_eq!(deliver_datagram(&[0u8; 403], &tx), Err(WireError::TooLarge));
    assert!(rx.is_empty());
}

#[test]
fn full_inbound_queue_drops_the_newest_payload() {
    let (tx, rx) = bounded::<Vec<u8>>(1);
    assert_eq!(deliver_datagram(&[1, 0, 7], &tx), Ok(Offer::Queued));
    assert_eq!(deliver_datagram(&[1, 0, 8], &tx), Ok(Offer::DroppedFull));
    assert_eq!(rx.try_recv().unwrap(), vec![7u8]);
    drop(rx);
    assert_eq!(deliver_datagram(&[1, 0, 9], &tx), Ok(Offer::DroppedClosed));
}

// A stand-in for the codec: every sample becomes the low byte of its word.
fn toy_encode(frame: &[u32], packet: &mut [u8]) -> Option<usize> {
    if frame.len() > packet.len() {
        return None;
    }
    for (slot, sample) in packet.iter_mut().zip(frame) {
        *slot = *sample as u8;
    }
    Some(frame.len())
}

fn toy_decode(payload: &[u8], pcm: &mut [u32]) -> Option<usize> {
    if payload.len() > pcm.len() {
        return None;
    }
    for (slot, byte) in pcm.iter_mut().zip(payload) {
        *slot = *byte as u32;
    }
    Some(payload.len())
}

#[test]
fn frames_of_a_connected_peer_are_heard_by_a_listening_peer() {
    // Peer A listens; peer B is configured with A's address.
    let mut a = Session::new(None);
    a.step(Event::Bound);
    a.step(Event::Discovered(String::from("203.0.113.7:40000")));
    let mut b = Session::new(a.public_addr().cloned());
    b.step(Event::Bound);
    b.step(Event::Discovered(String::from("198.51.100.9:40000")));
    b.step(Event::PeerConnected);
    assert!(b.may_transmit());
    assert!(!a.may_transmit());

    let (b_out_tx, b_out_rx) = bounded::<Bytes>(QUEUE_DEPTH);
    let (a_out_tx, a_out_rx) = bounded::<Bytes>(QUEUE_DEPTH);
    let (a_in_tx, a_in_rx) = bounded::<Vec<u8>>(QUEUE_DEPTH);

    // Both peers capture two frames and a bit.
    let captured: Vec<u32> = (0..250u32).map(|i| i % 200).collect();
    for (frame_len, tx) in [(100usize, &b_out_tx), (100usize, &a_out_tx)] {
        let mut assembler = FrameAssembler::with_frame_len(frame_len).unwrap();
        for frame in assembler.push_chunk(&captured) {
            let mut packet = [0u8; 400];
            let encoded = toy_encode(&frame, &mut packet);
            assert_eq!(submit_encoded(&packet, encoded, tx), Ok(Offer::Queued));
        }
        assert_eq!(assembler.pending_len(), 50);
    }

    // The send tasks: B writes its messages to the wire, A drops its own.
    let mut wire: Vec<Vec<u8>> = Vec::new();
    while let Ok(message) = b_out_rx.try_recv() {
        if b.may_transmit() {
            wire.push(message.to_vec());
        }
    }
    let mut sent_by_a = 0;
    while let Ok(_message) = a_out_rx.try_recv() {
        if a.may_transmit() {
            sent_by_a += 1;
        }
    }
    assert_eq!(sent_by_a, 0);
    assert_eq!(wire.len(), 2);

    // A's receive task and decode task.
    for datagram in &wire {
        assert_eq!(deliver_datagram(datagram, &a_in_tx), Ok(Offer::Queued));
    }
    let mut jitter = JitterBuffer::new(1000).unwrap();
    let mut pcm = vec![0u32; 960];
    while let Ok(payload) = a_in_rx.try_recv() {
        let decoded = toy_decode(&payload, &mut pcm);
        assert_eq!(queue_decoded(&mut jitter, &pcm, decoded), Ok(100));
    }

    // A's playback hears B's two frames and then silence.
    let mut out = vec![77u32; 210];
    jitter.play_into(&mut out);
    assert_eq!(&out[..200], &captured[..200]);
    assert_eq!(&out[200..], &[0u32; 10][..]);
}

#[test]
fn message_from_encoding_and_submit_agree() {
    let (tx, rx) = bounded::<Bytes>(1);
    let packet = [4u8, 5, 6, 7, 8];
    let direct = message_from_encoding(&packet, Some(4)).unwrap();
    assert_eq!(submit_encoded(&packet, Some(4), &tx), Ok(Offer::Queued));
    assert_eq!(rx.try_recv().unwrap(), direct);
}
