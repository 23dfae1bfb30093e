//! Integer capture samples on a common scale.
//!
//! Capture devices deliver samples as signed or unsigned 16-bit integers (or
//! already in the unit range). An integer sample is first brought to the
//! signed 16-bit scale, where it reads as a fixed-point fraction: the
//! amplitude is the scaled value divided by `FULL_SCALE`, so the lowest
//! sample of either format is exactly minus one and the highest is one step
//! below plus one. The division itself is left to the caller.

use vstd::prelude::*;

verus! {

/// The scaled value that stands for an amplitude of one.
pub const FULL_SCALE: i32 = 32768;

/// One integer sample as a capture device delivers it.
#[derive(Clone, Copy, Debug, PartialEq, Eq, Structural)]
pub enum RawSample {
    /// A signed sample; zero is silence.
    I16(i16),
    /// An unsigned sample; the midpoint of the range is silence.
    U16(u16),
}

/// The lowest sample of the same format as `raw`.
pub open spec fn lowest(raw: RawSample) -> RawSample {
    match raw {
        RawSample::I16(_) => RawSample::I16(i16::MIN),
        RawSample::U16(_) => RawSample::U16(u16::MIN),
    }
}

/// The highest sample of the same format as `raw`.
pub open spec fn highest(raw: RawSample) -> RawSample {
    match raw {
        RawSample::I16(_) => RawSample::I16(i16::MAX),
        RawSample::U16(_) => RawSample::U16(u16::MAX),
    }
}

/// The sample as it stands in its own format's range.
pub open spec fn raw_value(raw: RawSample) -> int {
    match raw {
        RawSample::I16(s) => s as int,
        RawSample::U16(s) => s as int,
    }
}

/// The sample on the signed 16-bit scale: its amplitude times `FULL_SCALE`.
pub open spec fn scaled(raw: RawSample) -> int {
    match raw {
        RawSample::I16(s) => s as int,
        RawSample::U16(s) => s as int - FULL_SCALE,
    }
}

impl RawSample {
    /// Brings the sample to the signed 16-bit scale.
    pub fn to_scaled(self) -> (v: i16)
        ensures
            v == scaled(self),
    {
        match self {
            RawSample::I16(s) => s,
            RawSample::U16(s) => (s as i32 - FULL_SCALE) as i16,
        }
    }
}

/// Every format spans the same range after scaling: the lowest sample of a
/// format stands for an amplitude of exactly minus one, the highest for one
/// step below plus one, and every other sample lies between the two.
pub proof fn lemma_scale_spans_unit_range(raw: RawSample)
    ensures
        scaled(lowest(raw)) == -FULL_SCALE,
        scaled(highest(raw)) == FULL_SCALE - 1,
        -FULL_SCALE <= scaled(raw) <= FULL_SCALE - 1,
{
}

/// Scaling keeps the order of samples of one format and the distance between
/// them.
pub proof fn lemma_scale_keeps_order(a: RawSample, b: RawSample)
    requires
        lowest(a) == lowest(b),
    ensures
        scaled(a) - scaled(b) == raw_value(a) - raw_value(b),
        scaled(a) <= scaled(b) <==> raw_value(a) <= raw_value(b),
{
}

} // verus!
