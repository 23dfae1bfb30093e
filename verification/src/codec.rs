//! What becomes of the codec's output on either side of the link.
//!
//! The codec is not part of this crate. The caller runs it and reports what
//! it returned: the number of bytes or samples it produced, or nothing when
//! it failed. A failed frame or payload is discarded, never retried, and
//! leaves no trace downstream.

use crate::jitter::after_offer;
use crate::jitter::JitterBuffer;
use crate::wire::contents;
use crate::wire::frame_payload;
use crate::wire::lemma_frame_then_parse;
use crate::wire::parse_result;
use crate::wire::wire_message;
use crate::wire::WireError;
use crate::wire::MAX_PACKET_SIZE;
use bytes::Bytes;
use vstd::prelude::*;
use vstd::slice::slice_subrange;

verus! {

/// Why the output of the codec was discarded.
#[derive(Clone, Copy, Debug, PartialEq, Eq, Structural)]
pub enum Discard {
    /// The codec reported a failure.
    CodecFailed,
    /// The codec claims to have produced more than its output buffer holds.
    LengthOutOfRange,
    /// The encoded payload is larger than a wire message may carry.
    TooLarge,
}

/// Why the output of the codec is discarded, if it is: `produced` is what the
/// codec returned, `room` the length of the buffer it wrote to, and `limit`
/// the most that may be passed on.
pub open spec fn discard_reason(produced: Option<usize>, room: nat, limit: nat) -> Option<Discard> {
    match produced {
        None => Some(Discard::CodecFailed),
        Some(n) => if n > room {
            Some(Discard::LengthOutOfRange)
        } else if n > limit {
            Some(Discard::TooLarge)
        } else {
            None
        },
    }
}

/// Turns the outcome of encoding one frame into the wire message to send.
/// `packet` is the buffer the encoder wrote to and `encoded` the number of
/// bytes it reported.
pub fn message_from_encoding(packet: &[u8], encoded: Option<usize>) -> (r: Result<Bytes, Discard>)
    ensures
        match discard_reason(encoded, packet@.len(), MAX_PACKET_SIZE as nat) {
            Some(reason) => r == Err::<Bytes, Discard>(reason),
            None => r is Ok && contents(r->Ok_0) == wire_message(
                packet@.take(encoded->Some_0 as int),
            ),
        },
{
    match encoded {
        None => Err(Discard::CodecFailed),
        Some(len) => {
            if len > packet.len() {
                Err(Discard::LengthOutOfRange)
            } else if len > MAX_PACKET_SIZE {
                Err(Discard::TooLarge)
            } else {
                let payload = slice_subrange(packet, 0, len);
                assert(payload@ == packet@.take(len as int));
                match frame_payload(payload) {
                    Ok(message) => Ok(message),
                    Err(_) => Err(Discard::TooLarge),
                }
            }
        },
    }
}

/// Queues the outcome of decoding one payload for playback. `pcm` is the
/// buffer the decoder wrote to and `decoded` the number of samples it
/// reported. On success every decoded sample is offered to the jitter buffer
/// in order, and the number that were queued is returned; on failure the
/// jitter buffer is left as it was.
pub fn queue_decoded(jitter: &mut JitterBuffer, pcm: &[u32], decoded: Option<usize>) -> (r: Result<
    usize,
    Discard,
>)
    ensures
        final(jitter).spec_capacity() == old(jitter).spec_capacity(),
        match discard_reason(decoded, pcm@.len(), pcm@.len()) {
            Some(reason) => r == Err::<usize, Discard>(reason) && final(jitter)@ == old(jitter)@,
            None => r is Ok && final(jitter)@ == after_offer(
                old(jitter)@,
                old(jitter).spec_capacity(),
                pcm@.take(decoded->Some_0 as int),
            ) && r->Ok_0 == final(jitter)@.len() - old(jitter)@.len(),
        },
{
    match decoded {
        None => Err(Discard::CodecFailed),
        Some(count) => {
            if count > pcm.len() {
                Err(Discard::LengthOutOfRange)
            } else {
                let samples = slice_subrange(pcm, 0, count);
                assert(samples@ == pcm@.take(count as int));
                Ok(jitter.push_all(samples))
            }
        },
    }
}

/// What the encoder produced on one side is what the decoder is given on the
/// other: the message made from an encoding parses back to the encoded bytes.
pub proof fn lemma_encoding_survives_the_wire(packet: Seq<u8>, encoded: usize)
    requires
        discard_reason(Some(encoded), packet.len(), MAX_PACKET_SIZE as nat) is None,
    ensures
        parse_result(wire_message(packet.take(encoded as int))) == Ok::<Seq<u8>, WireError>(
            packet.take(encoded as int),
        ),
{
    lemma_frame_then_parse(packet.take(encoded as int));
}

} // verus!
