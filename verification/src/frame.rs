//! Frame assembly: capture delivers samples in chunks of any length, and the
//! encoder takes frames of one fixed length. The assembler keeps the samples
//! of the frame that is being filled and hands each frame on the moment its
//! last sample arrives.

use vstd::arithmetic::div_mod::lemma_fundamental_div_mod;
use vstd::arithmetic::div_mod::lemma_fundamental_div_mod_converse;
use vstd::arithmetic::div_mod::lemma_mod_pos_bound;
use vstd::prelude::*;

verus! {

/// Samples per second of the voice stream.
pub const SAMPLE_RATE: u32 = 48_000;

/// Channels of the voice stream.
pub const CHANNELS: usize = 1;

/// Duration of one frame in milliseconds.
pub const FRAME_MS: u32 = 20;

/// Samples in one frame at the stream's rate and frame duration.
pub const FRAME_SAMPLES: usize = 960;

/// The number of samples of one channel in `frame_ms` milliseconds at
/// `sample_rate` samples per second.
pub open spec fn spec_frame_length(sample_rate: u32, frame_ms: u32) -> nat {
    ((sample_rate as nat) * (frame_ms as nat)) / 1000
}

/// Computes the frame length for a rate and a frame duration.
pub fn frame_length(sample_rate: u32, frame_ms: u32) -> (n: u64)
    ensures
        n == spec_frame_length(sample_rate, frame_ms),
{
    assert((sample_rate as nat) * (frame_ms as nat) <= 0xffff_ffff * 0xffff_ffff) by (nonlinear_arith)
        requires
            sample_rate <= 0xffff_ffff,
            frame_ms <= 0xffff_ffff,
    ;
    (sample_rate as u64 * frame_ms as u64) / 1000
}

/// The stream's own frame length follows from its rate and frame duration.
pub proof fn lemma_stream_frame_length()
    ensures
        spec_frame_length(SAMPLE_RATE, FRAME_MS) == FRAME_SAMPLES,
{
}

/// The complete frames that `samples` cut into, in order, when every frame
/// has `frame_len` samples.
pub open spec fn frames_of(samples: Seq<u32>, frame_len: nat) -> Seq<Seq<u32>>
    recommends
        frame_len > 0,
{
    Seq::new(
        samples.len() / frame_len,
        |k: int| samples.subrange(k * frame_len, (k + 1) * frame_len),
    )
}

/// The samples of `samples` behind its last complete frame.
pub open spec fn remainder_of(samples: Seq<u32>, frame_len: nat) -> Seq<u32>
    recommends
        frame_len > 0,
{
    samples.skip(((samples.len() / frame_len) * frame_len) as int)
}

/// The frame, if any, that is handed on when `sample` arrives while
/// `pending` is being filled.
pub open spec fn step_frame(pending: Seq<u32>, frame_len: nat, sample: u32) -> Option<Seq<u32>> {
    if pending.len() + 1 == frame_len {
        Some(pending.push(sample))
    } else {
        None
    }
}

/// The samples being filled after `sample` arrived.
pub open spec fn step_pending(pending: Seq<u32>, frame_len: nat, sample: u32) -> Seq<u32> {
    if pending.len() + 1 == frame_len {
        Seq::empty()
    } else {
        pending.push(sample)
    }
}

/// The samples being filled after `samples` arrived one at a time.
pub open spec fn run_pending(pending: Seq<u32>, frame_len: nat, samples: Seq<u32>) -> Seq<u32>
    decreases samples.len(),
{
    if samples.len() == 0 {
        pending
    } else {
        step_pending(run_pending(pending, frame_len, samples.drop_last()), frame_len, samples.last())
    }
}

/// The frames handed on, oldest first, while `samples` arrived one at a time.
pub open spec fn run_frames(pending: Seq<u32>, frame_len: nat, samples: Seq<u32>) -> Seq<Seq<u32>>
    decreases samples.len(),
{
    if samples.len() == 0 {
        Seq::empty()
    } else {
        let earlier = run_frames(pending, frame_len, samples.drop_last());
        let filling = run_pending(pending, frame_len, samples.drop_last());
        match step_frame(filling, frame_len, samples.last()) {
            Some(frame) => earlier.push(frame),
            None => earlier,
        }
    }
}

/// The samples of a sequence of frames, one frame after the other.
pub open spec fn frame_views(frames: Seq<Vec<u32>>) -> Seq<Seq<u32>> {
    Seq::new(frames.len(), |k: int| frames[k]@)
}

/// Collects capture samples into frames. Its view is the samples of the frame
/// that is being filled.
pub struct FrameAssembler {
    pending: Vec<u32>,
    frame_len: usize,
}

impl View for FrameAssembler {
    type V = Seq<u32>;

    closed spec fn view(&self) -> Seq<u32> {
        self.pending@
    }
}

impl FrameAssembler {
    /// The number of samples in every frame that is handed on.
    pub closed spec fn spec_frame_len(&self) -> nat {
        self.frame_len as nat
    }

    #[verifier::type_invariant]
    spec fn inv(&self) -> bool {
        &&& self.frame_len > 0
        &&& self.pending@.len() < self.frame_len
    }

    /// An empty assembler for frames of `FRAME_SAMPLES` samples.
    pub fn new() -> (a: FrameAssembler)
        ensures
            a@ == Seq::<u32>::empty(),
            a.spec_frame_len() == FRAME_SAMPLES,
    {
        FrameAssembler { pending: Vec::new(), frame_len: FRAME_SAMPLES }
    }

    /// An empty assembler for frames of `frame_len` samples. There is none
    /// for frames of no samples.
    pub fn with_frame_len(frame_len: usize) -> (r: Option<FrameAssembler>)
        ensures
            frame_len == 0 ==> r is None,
            frame_len > 0 ==> r is Some && r->Some_0@ == Seq::<u32>::empty()
                && r->Some_0.spec_frame_len() == frame_len,
    {
        if frame_len == 0 {
            None
        } else {
            Some(FrameAssembler { pending: Vec::new(), frame_len })
        }
    }

    /// The number of samples in every frame that is handed on.
    pub fn frame_len(&self) -> (n: usize)
        ensures
            n == self.spec_frame_len(),
            n > 0,
    {
        proof {
            use_type_invariant(self);
        }
        self.frame_len
    }

    /// The number of samples collected since the last frame was handed on.
    pub fn pending_len(&self) -> (n: usize)
        ensures
            n == self@.len(),
            n < self.spec_frame_len(),
    {
        proof {
            use_type_invariant(self);
        }
        self.pending.len()
    }

    /// Takes one sample. When it completes a frame, the frame is handed on
    /// and the assembler starts the next one empty; otherwise the sample is
    /// kept and nothing is handed on.
    pub fn push(&mut self, sample: u32) -> (handed: Option<Vec<u32>>)
        ensures
            final(self).spec_frame_len() == old(self).spec_frame_len(),
            handed is Some <==> old(self)@.len() + 1 == old(self).spec_frame_len(),
            handed matches Some(frame) ==> frame@ == old(self)@.push(sample) && final(self)@
                == Seq::<u32>::empty(),
            handed is None ==> final(self)@ == old(self)@.push(sample),
            final(self)@ == step_pending(old(self)@, old(self).spec_frame_len(), sample),
            match handed {
                Some(frame) => Some(frame@),
                None => None,
            } == step_frame(old(self)@, old(self).spec_frame_len(), sample),
    {
        proof {
            use_type_invariant(&*self);
        }
        let mut filling: Vec<u32> = Vec::new();
        core::mem::swap(&mut filling, &mut self.pending);
        filling.push(sample);
        if filling.len() == self.frame_len {
            Some(filling)
        } else {
            core::mem::swap(&mut filling, &mut self.pending);
            None
        }
    }

    /// Takes a chunk of samples in order and returns the frames that it
    /// completed, oldest first.
    pub fn push_chunk(&mut self, chunk: &[u32]) -> (frames: Vec<Vec<u32>>)
        ensures
            final(self).spec_frame_len() == old(self).spec_frame_len(),
            frame_views(frames@) == frames_of(old(self)@ + chunk@, old(self).spec_frame_len()),
            final(self)@ == remainder_of(old(self)@ + chunk@, old(self).spec_frame_len()),
    {
        proof {
            use_type_invariant(&*self);
        }
        let ghost len = self.spec_frame_len() as int;
        let ghost all = self@ + chunk@;
        let ghost held = self@.len() as int;
        let mut frames: Vec<Vec<u32>> = Vec::new();
        let mut i: usize = 0;
        assert(frames@.len() * len == 0) by (nonlinear_arith)
            requires
                frames@.len() == 0,
        ;
        while i < chunk.len()
            invariant
                i <= chunk.len(),
                len > 0,
                self.spec_frame_len() == len,
                0 <= held,
                all.len() == held + chunk@.len(),
                forall|k: int| 0 <= k < chunk@.len() ==> all[held + k] == chunk@[k],
                self@.len() < len,
                frames@.len() * len + self@.len() == held + i,
                self@ == all.subrange(frames@.len() * len, held + i),
                forall|k: int|
                    0 <= k < frames@.len() ==> #[trigger] frames@[k]@ == all.subrange(
                        k * len,
                        k * len + len,
                    ),
            decreases chunk.len() - i,
        {
            let ghost before = self@;
            let ghost done = frames@.len() as int;
            let handed = self.push(chunk[i]);
            proof {
                assert(0 <= done * len) by (nonlinear_arith)
                    requires
                        0 <= done,
                        0 < len,
                ;
                assert(before.push(chunk@[i as int]) == all.subrange(done * len, held + i + 1));
                assert((done + 1) * len == done * len + len) by (nonlinear_arith);
            }
            match handed {
                Some(frame) => {
                    frames.push(frame);
                    proof {
                        assert(self@ == all.subrange((done + 1) * len, held + i + 1));
                    }
                },
                None => {},
            }
            i = i + 1;
        }
        proof {
            let done = frames@.len() as int;
            assert(all.len() == done * len + self@.len());
            lemma_fundamental_div_mod_converse(all.len() as int, len, done, self@.len() as int);
            assert forall|k: int| 0 <= k < done implies #[trigger] frame_views(frames@)[k]
                == frames_of(all, len as nat)[k] by {
                assert((k + 1) * len == k * len + len) by (nonlinear_arith);
            }
            assert(frame_views(frames@) == frames_of(all, len as nat));
            assert(self@ == remainder_of(all, len as nat));
        }
        frames
    }
}

/// Taking samples one at a time cuts the stream at every multiple of the
/// frame length and nowhere else: the frames handed on are exactly the
/// complete frames of everything collected so far, and what is still being
/// filled is what lies behind the last of them.
pub proof fn lemma_frames_cut_at_frame_length(pending: Seq<u32>, frame_len: nat, samples: Seq<u32>)
    requires
        frame_len > 0,
        pending.len() < frame_len,
    ensures
        run_frames(pending, frame_len, samples) == frames_of(pending + samples, frame_len),
        run_pending(pending, frame_len, samples) == remainder_of(pending + samples, frame_len),
        run_pending(pending, frame_len, samples).len() == (pending.len() + samples.len())
            % frame_len,
    decreases samples.len(),
{
    let all = pending + samples;
    let n = all.len() as int;
    let l = frame_len as int;
    if samples.len() == 0 {
        assert(all == pending);
        assert(n == 0 * l + n) by (nonlinear_arith);
        lemma_fundamental_div_mod_converse(n, l, 0, n);
        assert(frames_of(all, frame_len) == Seq::<Seq<u32>>::empty());
        assert(remainder_of(all, frame_len) == pending);
    } else {
        let init = samples.drop_last();
        let prev = pending + init;
        lemma_frames_cut_at_frame_length(pending, frame_len, init);
        assert(prev == all.drop_last());
        let m = prev.len() as int;
        let q = m / l;
        let r = m % l;
        lemma_fundamental_div_mod(m, l);
        lemma_mod_pos_bound(m, l);
        assert(m == q * l + r) by (nonlinear_arith)
            requires
                m == l * q + r,
        ;
        assert(0 <= q * l) by (nonlinear_arith)
            requires
                q * l == m - r,
                r <= m,
        ;
        let filling = run_pending(pending, frame_len, init);
        assert(filling == prev.skip(q * l));
        assert forall|k: int| 0 <= k < q implies #[trigger] prev.subrange(k * l, (k + 1) * l)
            == all.subrange(k * l, (k + 1) * l) by {
            assert(0 <= k * l && k * l <= (k + 1) * l && (k + 1) * l <= q * l) by (nonlinear_arith)
                requires
                    0 <= k < q,
                    0 < l,
            ;
        }
        if r + 1 == l {
            assert(n == (q + 1) * l + 0) by (nonlinear_arith)
                requires
                    n == q * l + r + 1,
                    r + 1 == l,
            ;
            lemma_fundamental_div_mod_converse(n, l, q + 1, 0);
            let frame = filling.push(samples.last());
            assert(frame == all.subrange(q * l, (q + 1) * l));
            assert(frames_of(prev, frame_len).push(frame) == frames_of(all, frame_len));
            assert(remainder_of(all, frame_len) == Seq::<u32>::empty());
        } else {
            lemma_fundamental_div_mod_converse(n, l, q, r + 1);
            assert(frames_of(prev, frame_len) == frames_of(all, frame_len));
            assert(filling.push(samples.last()) == all.skip(q * l));
        }
    }
}

/// Counted from the last frame handed on, one sample short of a frame hands
/// nothing on, and the sample that completes the frame hands on exactly that
/// frame.
pub proof fn lemma_handoff_boundary(frame_len: nat, samples: Seq<u32>)
    requires
        frame_len > 0,
        samples.len() <= frame_len,
    ensures
        samples.len() < frame_len ==> run_frames(Seq::empty(), frame_len, samples)
            == Seq::<Seq<u32>>::empty() && run_pending(Seq::empty(), frame_len, samples)
            == samples,
        samples.len() == frame_len ==> run_frames(Seq::empty(), frame_len, samples)
            == seq![samples] && run_pending(Seq::empty(), frame_len, samples)
            == Seq::<u32>::empty(),
{
    let l = frame_len as int;
    let n = samples.len() as int;
    lemma_frames_cut_at_frame_length(Seq::empty(), frame_len, samples);
    assert(Seq::<u32>::empty() + samples == samples);
    if n < l {
        assert(n == 0 * l + n) by (nonlinear_arith);
        lemma_fundamental_div_mod_converse(n, l, 0, n);
        assert(frames_of(samples, frame_len) == Seq::<Seq<u32>>::empty());
        assert(remainder_of(samples, frame_len) == samples);
    } else {
        assert(n == 1 * l + 0 && 0 * l == 0 && (0 + 1) * l == l) by (nonlinear_arith)
            requires
                n == l,
        ;
        lemma_fundamental_div_mod_converse(n, l, 1, 0);
        assert(samples.subrange(0 * l, (0 + 1) * l) == samples);
        assert(frames_of(samples, frame_len) == seq![samples]);
        assert(remainder_of(samples, frame_len) == Seq::<u32>::empty());
    }
}

} // verus!
