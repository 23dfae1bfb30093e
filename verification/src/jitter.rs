//! The jitter buffer: a bounded first-in, first-out store of samples between
//! the decode path, which fills it, and playback, which drains it.
//!
//! When the buffer is full the newest sample is the one that is dropped: what
//! is already buffered is owed to playback first. When it is empty, playback
//! gets silence.

use crate::frame::FRAME_SAMPLES;
use ringbuf::HeapRb;
use ringbuf::Rb;
use vstd::prelude::*;

verus! {

/// The word that stands for a sample of zero amplitude.
pub const SILENCE: u32 = 0;

/// Frames of audio that the jitter buffer of a voice stream holds at most:
/// about 200 ms.
pub const JITTER_FRAMES: usize = 10;

/// Samples that the jitter buffer of a voice stream holds at most.
pub const JITTER_CAPACITY: usize = JITTER_FRAMES * FRAME_SAMPLES;

/// A heap-allocated ring of samples from the `ringbuf` crate.
#[verifier::external_body]
pub struct SampleRing {
    ring: HeapRb<u32>,
}

/// The samples that a ring holds, oldest first.
pub uninterp spec fn ring_samples(ring: SampleRing) -> Seq<u32>;

/// The number of samples that a ring was made to hold.
pub uninterp spec fn ring_capacity(ring: SampleRing) -> nat;

/// `HeapRb::try_new`: an empty ring for `capacity` samples, or nothing when
/// the memory for it cannot be had.
#[verifier::external_body]
fn ring_try_new(capacity: usize) -> (made: Option<SampleRing>)
    requires
        capacity > 0,
    ensures
        made matches Some(ring) ==> ring_samples(ring) == Seq::<u32>::empty() && ring_capacity(ring)
            == capacity,
{
    match HeapRb::try_new(capacity) {
        Ok(ring) => Some(SampleRing { ring }),
        Err(_) => None,
    }
}

/// `Rb::push` on a heap ring: puts the sample behind the newest one when
/// there is room, and otherwise leaves the ring as it was.
#[verifier::external_body]
fn ring_push(ring: &mut SampleRing, sample: u32) -> (accepted: bool)
    ensures
        ring_capacity(*final(ring)) == ring_capacity(*old(ring)),
        accepted == (ring_samples(*old(ring)).len() < ring_capacity(*old(ring))),
        accepted ==> ring_samples(*final(ring)) == ring_samples(*old(ring)).push(sample),
        !accepted ==> ring_samples(*final(ring)) == ring_samples(*old(ring)),
    no_unwind
{
    ring.ring.push(sample).is_ok()
}

/// `Rb::pop` on a heap ring: takes the oldest sample out, or gives nothing
/// when the ring is empty.
#[verifier::external_body]
fn ring_pop(ring: &mut SampleRing) -> (popped: Option<u32>)
    ensures
        ring_capacity(*final(ring)) == ring_capacity(*old(ring)),
        ring_samples(*old(ring)).len() == 0 ==> popped is None && ring_samples(*final(ring))
            == ring_samples(*old(ring)),
        ring_samples(*old(ring)).len() > 0 ==> popped == Some(ring_samples(*old(ring))[0])
            && ring_samples(*final(ring)) == ring_samples(*old(ring)).drop_first(),
    no_unwind
{
    ring.ring.pop()
}

/// `Rb::len` on a heap ring: the number of samples held.
#[verifier::external_body]
fn ring_len(ring: &SampleRing) -> (n: usize)
    ensures
        n == ring_samples(*ring).len(),
{
    ring.ring.len()
}

/// `Rb::capacity` on a heap ring: the number of samples it was made to hold.
#[verifier::external_body]
fn ring_cap(ring: &SampleRing) -> (n: usize)
    ensures
        n == ring_capacity(*ring),
{
    ring.ring.capacity()
}

/// What a buffer holds after `samples` are offered to it one by one: the
/// samples already held stay, and of the new ones the oldest that still fit.
pub open spec fn after_offer(held: Seq<u32>, capacity: nat, samples: Seq<u32>) -> Seq<u32> {
    if held.len() + samples.len() <= capacity {
        held + samples
    } else {
        (held + samples).take(capacity as int)
    }
}

/// What playback hears when it asks for `n` samples: the held samples, oldest
/// first, and silence from where they run out.
pub open spec fn played(held: Seq<u32>, n: nat) -> Seq<u32> {
    Seq::new(
        n,
        |i: int|
            if i < held.len() {
                held[i]
            } else {
                SILENCE
            },
    )
}

/// What a buffer holds after playback took `n` samples from it.
pub open spec fn after_play(held: Seq<u32>, n: nat) -> Seq<u32> {
    if n <= held.len() {
        held.skip(n as int)
    } else {
        Seq::empty()
    }
}

/// A bounded queue of samples. Its view is the samples it holds, oldest first.
pub struct JitterBuffer {
    ring: SampleRing,
}

impl View for JitterBuffer {
    type V = Seq<u32>;

    closed spec fn view(&self) -> Seq<u32> {
        ring_samples(self.ring)
    }
}

impl JitterBuffer {
    /// The most samples the buffer ever holds.
    pub closed spec fn spec_capacity(&self) -> nat {
        ring_capacity(self.ring)
    }

    #[verifier::type_invariant]
    spec fn inv(&self) -> bool {
        &&& ring_capacity(self.ring) > 0
        &&& ring_capacity(self.ring) <= usize::MAX
        &&& ring_samples(self.ring).len() <= ring_capacity(self.ring)
    }

    /// An empty buffer for `capacity` samples. There is none for a capacity of
    /// zero, nor when the memory cannot be had.
    pub fn new(capacity: usize) -> (r: Option<JitterBuffer>)
        ensures
            capacity == 0 ==> r is None,
            r matches Some(jb) ==> jb@ == Seq::<u32>::empty() && jb.spec_capacity() == capacity,
    {
        if capacity == 0 {
            return None;
        }
        Self::from_ring(ring_try_new(capacity))
    }

    /// The buffer that stands on a ring: it holds what the ring holds and has
    /// the ring's capacity. There is none without a ring, nor on a ring that
    /// has no room or claims to hold more than it has room for.
    pub fn from_ring(made: Option<SampleRing>) -> (r: Option<JitterBuffer>)
        ensures
            match made {
                Some(ring) => if 0 < ring_capacity(ring) && ring_samples(ring).len()
                    <= ring_capacity(ring) {
                    r is Some && r->Some_0@ == ring_samples(ring) && r->Some_0.spec_capacity()
                        == ring_capacity(ring)
                } else {
                    r is None
                },
                None => r is None,
            },
    {
        match made {
            Some(ring) => {
                let held = ring_len(&ring);
                let room = ring_cap(&ring);
                if 0 < room && held <= room {
                    Some(JitterBuffer { ring })
                } else {
                    None
                }
            },
            None => None,
        }
    }

    /// The most samples the buffer ever holds.
    pub fn capacity(&self) -> (n: usize)
        ensures
            n == self.spec_capacity(),
            n > 0,
    {
        proof {
            use_type_invariant(self);
        }
        ring_cap(&self.ring)
    }

    /// The number of samples waiting for playback.
    pub fn len(&self) -> (n: usize)
        ensures
            n == self@.len(),
            n <= self.spec_capacity(),
    {
        proof {
            use_type_invariant(self);
        }
        ring_len(&self.ring)
    }

    /// Queues one sample behind those already waiting. A full buffer stays as
    /// it is and the sample is dropped.
    pub fn push(&mut self, sample: u32) -> (accepted: bool)
        ensures
            final(self).spec_capacity() == old(self).spec_capacity(),
            accepted == (old(self)@.len() < old(self).spec_capacity()),
            accepted ==> final(self)@ == old(self)@.push(sample),
            !accepted ==> final(self)@ == old(self)@,
            final(self)@ == after_offer(old(self)@, old(self).spec_capacity(), seq![sample]),
    {
        proof {
            use_type_invariant(&*self);
        }
        ring_push(&mut self.ring, sample)
    }

    /// Takes the oldest waiting sample, if there is one.
    pub fn pop(&mut self) -> (popped: Option<u32>)
        ensures
            final(self).spec_capacity() == old(self).spec_capacity(),
            old(self)@.len() == 0 ==> popped is None && final(self)@ == old(self)@,
            old(self)@.len() > 0 ==> popped == Some(old(self)@[0]) && final(self)@ == old(
                self,
            )@.drop_first(),
    {
        proof {
            use_type_invariant(&*self);
        }
        ring_pop(&mut self.ring)
    }
    /// Whether nothing is waiting for playback.
    pub fn is_empty(&self) -> (b: bool)
        ensures
            b == (self@.len() == 0),
    {
        ring_len(&self.ring) == 0
    }

    /// Whether the next sample offered would be dropped.
    pub fn is_full(&self) -> (b: bool)
        ensures
            b == (self@.len() == self.spec_capacity()),
    {
        proof {
            use_type_invariant(self);
        }
        ring_len(&self.ring) == ring_cap(&self.ring)
    }

    /// Takes the oldest waiting sample, or gives silence when none waits. The
    /// call never waits for the producer.
    pub fn pop_or_silence(&mut self) -> (sample: u32)
        ensures
            final(self).spec_capacity() == old(self).spec_capacity(),
            sample == played(old(self)@, 1)[0],
            old(self)@.len() == 0 ==> sample == SILENCE,
            final(self)@ == after_play(old(self)@, 1),
    {
        match self.pop() {
            Some(sample) => sample,
            None => SILENCE,
        }
    }

    /// Offers every sample of `samples` in order and returns how many were
    /// queued. Samples that find the buffer full are dropped.
    pub fn push_all(&mut self, samples: &[u32]) -> (queued: usize)
        ensures
            final(self).spec_capacity() == old(self).spec_capacity(),
            final(self)@ == after_offer(old(self)@, old(self).spec_capacity(), samples@),
            queued == final(self)@.len() - old(self)@.len(),
    {
        proof {
            use_type_invariant(&*self);
        }
        let ghost held = self@;
        let ghost cap = self.spec_capacity();
        let mut queued: usize = 0;
        let mut i: usize = 0;
        while i < samples.len()
            invariant
                i <= samples.len(),
                held.len() <= cap,
                self.spec_capacity() == cap,
                self@ == after_offer(held, cap, samples@.take(i as int)),
                queued == self@.len() - held.len(),
                queued <= i,
            decreases samples.len() - i,
        {
            let ghost before = self@;
            let accepted = self.push(samples[i]);
            proof {
                let seen = samples@.take(i as int);
                let next = samples@.take(i + 1);
                assert(next == seen.push(samples@[i as int]));
                if accepted {
                    assert(held + next == (held + seen).push(samples@[i as int]));
                } else {
                    assert((held + next).take(cap as int) == (held + seen).take(cap as int));
                }
            }
            if accepted {
                queued = queued + 1;
            }
            i = i + 1;
        }
        proof {
            assert(samples@.take(samples@.len() as int) == samples@);
        }
        queued
    }

    /// Overwrites every slot of `out` for playback: the oldest waiting samples
    /// in order, then silence for the slots that are left.
    pub fn play_into(&mut self, out: &mut Vec<u32>)
        ensures
            final(self).spec_capacity() == old(self).spec_capacity(),
            final(out)@ == played(old(self)@, old(out)@.len()),
            final(self)@ == after_play(old(self)@, old(out)@.len()),
    {
        let ghost held = self@;
        let n = out.len();
        let mut i: usize = 0;
        while i < n
            invariant
                i <= n,
                out@.len() == n,
                self.spec_capacity() == old(self).spec_capacity(),
                self@ == after_play(held, i as nat),
                forall|k: int| 0 <= k < i ==> out@[k] == played(held, n as nat)[k],
            decreases n - i,
        {
            let sample = self.pop_or_silence();
            out.set(i, sample);
            i = i + 1;
            proof {
                assert(self@ == after_play(held, i as nat));
            }
        }
        proof {
            assert(out@ == played(held, n as nat));
        }
    }
}

/// What a buffer holds after `samples` were offered one at a time, each one
/// queued when there was room and dropped when there was none.
pub open spec fn offered_in_turn(held: Seq<u32>, capacity: nat, samples: Seq<u32>) -> Seq<u32>
    decreases samples.len(),
{
    if samples.len() == 0 {
        held
    } else {
        after_offer(offered_in_turn(held, capacity, samples.drop_last()), capacity, seq![samples.last()])
    }
}

/// Overflow drops the newest samples and nothing else: whatever is offered,
/// the buffer never holds more than its capacity, what it held stays in
/// front, and behind it stand the oldest of the offered samples that fit.
pub proof fn lemma_overflow_drops_newest(held: Seq<u32>, capacity: nat, samples: Seq<u32>)
    requires
        held.len() <= capacity,
    ensures
        after_offer(held, capacity, samples).len() <= capacity,
        after_offer(held, capacity, samples).len() == if held.len() + samples.len() <= capacity {
            held.len() + samples.len()
        } else {
            capacity
        },
        after_offer(held, capacity, samples).take(held.len() as int) == held,
        after_offer(held, capacity, samples).skip(held.len() as int) == samples.take(
            after_offer(held, capacity, samples).len() - held.len(),
        ),
{
    let kept = after_offer(held, capacity, samples);
    assert(kept.take(held.len() as int) == held);
    assert(kept.skip(held.len() as int) == samples.take(kept.len() - held.len()));
}

/// Offering samples one at a time leaves the same buffer as offering them
/// together.
pub proof fn lemma_offer_in_turn(held: Seq<u32>, capacity: nat, samples: Seq<u32>)
    requires
        held.len() <= capacity,
    ensures
        offered_in_turn(held, capacity, samples) == after_offer(held, capacity, samples),
    decreases samples.len(),
{
    if samples.len() > 0 {
        let init = samples.drop_last();
        lemma_offer_in_turn(held, capacity, init);
        let before = after_offer(held, capacity, init);
        assert(held + samples == (held + init).push(samples.last()));
        if held.len() + samples.len() <= capacity {
            assert(before + seq![samples.last()] == held + samples);
        } else if held.len() + init.len() <= capacity {
            assert((before + seq![samples.last()]).take(capacity as int) == (held + samples).take(
                capacity as int,
            ));
        } else {
            assert((before + seq![samples.last()]).take(capacity as int) == before);
            assert((held + samples).take(capacity as int) == before);
        }
    }
}

/// Underrun is silence: an empty buffer plays nothing but silence, for as
/// long as it is asked, and stays empty.
pub proof fn lemma_underrun_is_silence(n: nat)
    ensures
        played(Seq::empty(), n) == Seq::new(n, |i: int| SILENCE),
        after_play(Seq::empty(), n) == Seq::<u32>::empty(),
{
    assert(played(Seq::empty(), n) == Seq::new(n, |i: int| SILENCE));
    assert(Seq::<u32>::empty().skip(0) == Seq::<u32>::empty());
}

/// Playback loses nothing and invents nothing: the samples played before the
/// silence, followed by what the buffer still holds, are what it held.
pub proof fn lemma_play_conserves(held: Seq<u32>, n: nat)
    ensures
        played(held, n).len() == n,
        n <= held.len() ==> played(held, n) + after_play(held, n) == held,
        n > held.len() ==> played(held, n).take(held.len() as int) == held && after_play(held, n)
            == Seq::<u32>::empty(),
        forall|i: int| held.len() <= i < n ==> played(held, n)[i] == SILENCE,
{
    if n <= held.len() {
        assert(played(held, n) + after_play(held, n) == held);
    } else {
        assert(played(held, n).take(held.len() as int) == held);
    }
}

} // verus!
