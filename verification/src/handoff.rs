//! The hand-off queues between the real-time side and the network side.
//!
//! Both queues are bounded. The side that fills a queue never waits for it:
//! an item that finds the queue full is dropped, and live audio goes on with
//! the next one.

use crate::codec::discard_reason;
use crate::codec::message_from_encoding;
use crate::codec::Discard;
use crate::wire::parse_datagram;
use crate::wire::parse_result;
use crate::wire::WireError;
use crate::wire::MAX_PACKET_SIZE;
use async_channel::Sender;
use async_channel::TrySendError;
use bytes::Bytes;
use vstd::prelude::*;

verus! {

/// The number of items that each hand-off queue holds at most.
pub const QUEUE_DEPTH: usize = 1024;

#[verifier::external_type_specification]
#[verifier::external_body]
#[verifier::reject_recursive_types(T)]
pub struct ExSender<T>(Sender<T>);

/// What became of an item that was offered to a queue.
#[derive(Clone, Copy, Debug, PartialEq, Eq, Structural)]
pub enum Offer {
    /// The queue took the item.
    Queued,
    /// The queue was full; the item is gone.
    DroppedFull,
    /// The other end of the queue is gone, and so is the item.
    DroppedClosed,
}

/// `Sender::try_send`: offers the item without waiting. Whether the queue
/// takes it depends on what the other end has done, so nothing is promised
/// of the result.
#[verifier::external_body]
fn try_offer<T>(queue: &Sender<T>, item: T) -> (offer: Offer) {
    match queue.try_send(item) {
        Ok(()) => Offer::Queued,
        Err(TrySendError::Full(_)) => Offer::DroppedFull,
        Err(TrySendError::Closed(_)) => Offer::DroppedClosed,
    }
}

/// The last step of capture: frames what the encoder produced and offers the
/// message to the outbound queue. A frame that the encoder failed on is
/// discarded and nothing is offered.
pub fn submit_encoded(packet: &[u8], encoded: Option<usize>, outbound: &Sender<Bytes>) -> (r:
    Result<Offer, Discard>)
    ensures
        match discard_reason(encoded, packet@.len(), MAX_PACKET_SIZE as nat) {
            Some(reason) => r == Err::<Offer, Discard>(reason),
            None => r is Ok,
        },
{
    match message_from_encoding(packet, encoded) {
        Ok(message) => Ok(try_offer(outbound, message)),
        Err(reason) => Err(reason),
    }
}

/// The receive path for one datagram: recovers the payload and offers it to
/// the inbound queue. A datagram that does not parse is dropped and nothing
/// is offered.
pub fn deliver_datagram(datagram: &[u8], inbound: &Sender<Vec<u8>>) -> (r: Result<Offer, WireError>)
    ensures
        match parse_result(datagram@) {
            Err(e) => r == Err::<Offer, WireError>(e),
            Ok(_) => r is Ok,
        },
{
    match parse_datagram(datagram) {
        Ok(payload) => Ok(try_offer(inbound, payload)),
        Err(e) => Err(e),
    }
}

} // verus!
