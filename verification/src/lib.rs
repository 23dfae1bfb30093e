//! The verified core of a two-party live voice link: frame assembly on the
//! capture side, length-prefixed datagram framing, the startup and mode
//! decisions of the transport session, and the bounded jitter buffer that
//! feeds playback.
//!
//! Samples travel through this crate as 32-bit words. A word is the bit
//! pattern of one single-precision sample; the crate stores and orders words
//! and never computes with them. The all-zero word is silence.

pub mod codec;
pub mod frame;
pub mod handoff;
pub mod jitter;
pub mod sample;
pub mod session;
pub mod wire;
