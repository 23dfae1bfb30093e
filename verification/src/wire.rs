//! The wire message: a two-byte little-endian length followed by that many
//! payload bytes, one message per datagram.

use bytes::BufMut;
use bytes::Bytes;
use bytes::BytesMut;
use vstd::prelude::*;
use vstd::slice::slice_subrange;

verus! {

/// Largest payload, in bytes, that a wire message may carry.
pub const MAX_PACKET_SIZE: usize = 400;

/// Size of the length header, in bytes.
pub const HEADER_LEN: usize = 2;

/// Largest datagram that carries a valid wire message.
pub const MAX_DATAGRAM_SIZE: usize = MAX_PACKET_SIZE + HEADER_LEN;

/// Why a payload was not framed or a datagram was not accepted.
#[derive(Clone, Copy, Debug, PartialEq, Eq, Structural)]
pub enum WireError {
    /// The datagram is shorter than the length header.
    TooShort,
    /// The payload, or the datagram, is larger than the maximum.
    TooLarge,
    /// The header declares more payload bytes than the datagram holds.
    Truncated,
}

/// The two header bytes for a payload of `len` bytes, least significant first.
pub open spec fn length_prefix(len: nat) -> Seq<u8> {
    seq![(len % 256) as u8, ((len / 256) % 256) as u8]
}

/// The wire message that carries `payload`.
pub open spec fn wire_message(payload: Seq<u8>) -> Seq<u8> {
    length_prefix(payload.len()) + payload
}

/// The payload length that the header of `datagram` declares.
pub open spec fn declared_length(datagram: Seq<u8>) -> nat
    recommends
        datagram.len() >= HEADER_LEN,
{
    (datagram[0] as nat) + 256 * (datagram[1] as nat)
}

/// What receiving `datagram` yields: its payload, or the reason it is dropped.
/// Bytes after the declared payload are ignored.
pub open spec fn parse_result(datagram: Seq<u8>) -> Result<Seq<u8>, WireError> {
    if datagram.len() < HEADER_LEN {
        Err(WireError::TooShort)
    } else if datagram.len() > MAX_DATAGRAM_SIZE {
        Err(WireError::TooLarge)
    } else if declared_length(datagram) + HEADER_LEN > datagram.len() {
        Err(WireError::Truncated)
    } else {
        Ok(datagram.subrange(HEADER_LEN as int, HEADER_LEN + declared_length(datagram)))
    }
}

#[verifier::external_type_specification]
#[verifier::external_body]
pub struct ExBytesMut(BytesMut);

#[verifier::external_type_specification]
#[verifier::external_body]
pub struct ExBytes(Bytes);

/// The bytes written so far into a growable buffer.
pub uninterp spec fn written(buf: BytesMut) -> Seq<u8>;

/// The bytes that a frozen buffer holds.
pub uninterp spec fn contents(msg: Bytes) -> Seq<u8>;

/// `BytesMut::with_capacity`: a buffer with nothing written to it. The
/// capacity only sizes the first allocation, which cannot be larger than
/// `isize::MAX` bytes.
#[verifier::external_body]
fn buffer_with_capacity(capacity: usize) -> (buf: BytesMut)
    requires
        capacity <= isize::MAX,
    ensures
        written(buf) == Seq::<u8>::empty(),
{
    BytesMut::with_capacity(capacity)
}

/// `BufMut::put_u16_le` on a `BytesMut`: appends the two bytes of `n`, least
/// significant first, growing the buffer as needed. A buffer cannot grow
/// past `isize::MAX` bytes.
#[verifier::external_body]
fn put_length(buf: &mut BytesMut, n: u16)
    requires
        written(*old(buf)).len() + 2 <= isize::MAX,
    ensures
        written(*final(buf)) == written(*old(buf)) + length_prefix(n as nat),
{
    buf.put_u16_le(n)
}

/// `BytesMut::extend_from_slice`: appends `bytes`, growing the buffer as
/// needed. A buffer cannot grow past `isize::MAX` bytes.
#[verifier::external_body]
fn put_bytes(buf: &mut BytesMut, bytes: &[u8])
    requires
        written(*old(buf)).len() + bytes@.len() <= isize::MAX,
    ensures
        written(*final(buf)) == written(*old(buf)) + bytes@,
{
    buf.extend_from_slice(bytes)
}

/// `BytesMut::freeze`: the same bytes, now immutable.
#[verifier::external_body]
fn freeze(buf: BytesMut) -> (msg: Bytes)
    ensures
        contents(msg) == written(buf),
{
    buf.freeze()
}

/// Frames `payload` as one wire message.
pub fn frame_payload(payload: &[u8]) -> (r: Result<Bytes, WireError>)
    ensures
        payload@.len() > MAX_PACKET_SIZE ==> r == Err::<Bytes, WireError>(WireError::TooLarge),
        payload@.len() <= MAX_PACKET_SIZE ==> r is Ok && contents(r->Ok_0) == wire_message(
            payload@,
        ),
{
    let len = payload.len();
    if len > MAX_PACKET_SIZE {
        return Err(WireError::TooLarge);
    }
    let mut buf = buffer_with_capacity(len + HEADER_LEN);
    put_length(&mut buf, len as u16);
    put_bytes(&mut buf, payload);
    Ok(freeze(buf))
}

/// Recovers the payload of a received datagram, or says why the datagram is
/// dropped.
pub fn parse_datagram(datagram: &[u8]) -> (r: Result<Vec<u8>, WireError>)
    ensures
        match parse_result(datagram@) {
            Ok(payload) => r is Ok && r->Ok_0@ == payload,
            Err(e) => r == Err::<Vec<u8>, WireError>(e),
        },
{
    let n = datagram.len();
    if n < HEADER_LEN {
        return Err(WireError::TooShort);
    }
    if n > MAX_DATAGRAM_SIZE {
        return Err(WireError::TooLarge);
    }
    let declared: usize = datagram[0] as usize + 256 * (datagram[1] as usize);
    if declared + HEADER_LEN > n {
        return Err(WireError::Truncated);
    }
    let body = slice_subrange(datagram, HEADER_LEN, HEADER_LEN + declared);
    Ok(vstd::slice::slice_to_vec(body))
}

/// Framing a payload and then parsing the message gives the payload back, for
/// every payload that fits.
pub proof fn lemma_frame_then_parse(payload: Seq<u8>)
    requires
        payload.len() <= MAX_PACKET_SIZE,
    ensures
        parse_result(wire_message(payload)) == Ok::<Seq<u8>, WireError>(payload),
        declared_length(wire_message(payload)) == payload.len(),
{
    let msg = wire_message(payload);
    assert(msg.len() == payload.len() + 2);
    assert(msg[0] == (payload.len() % 256) as u8);
    assert(msg[1] == ((payload.len() / 256) % 256) as u8);
    assert(msg.subrange(2, 2 + payload.len() as int) =~= payload);
}

/// A datagram whose header declares more bytes than arrived is rejected
/// whole: no part of it is passed on.
pub proof fn lemma_truncated_is_rejected(datagram: Seq<u8>)
    requires
        datagram.len() >= HEADER_LEN,
        declared_length(datagram) > datagram.len() - HEADER_LEN,
    ensures
        parse_result(datagram) is Err,
{
}

/// A payload that is passed on is exactly as long as the header declares,
/// and never longer than the maximum.
pub proof fn lemma_parsed_payload_fits(datagram: Seq<u8>)
    requires
        parse_result(datagram) is Ok,
    ensures
        parse_result(datagram)->Ok_0.len() == declared_length(datagram),
        parse_result(datagram)->Ok_0.len() <= MAX_PACKET_SIZE,
{
}

/// Different payloads never share a wire message.
pub proof fn lemma_framing_is_injective(a: Seq<u8>, b: Seq<u8>)
    requires
        a.len() <= MAX_PACKET_SIZE,
        b.len() <= MAX_PACKET_SIZE,
        wire_message(a) == wire_message(b),
    ensures
        a == b,
{
    lemma_frame_then_parse(a);
    lemma_frame_then_parse(b);
}

} // verus!
