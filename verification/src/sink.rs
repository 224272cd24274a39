//! The audio sink: a bounded sample queue that decouples the mixing producer
//! from a real-time consumer.  The producer appends one tick's worth of
//! samples at a time and must hold off while the queue is above its
//! high-water mark; the consumer drains at its own cadence and receives
//! silence, never an error, when the queue runs dry.

use vstd::prelude::*;
use vstd::arithmetic::div_mod::lemma_fundamental_div_mod_converse;
use std::collections::VecDeque;

verus! {

/// A consumer of mixed sample chunks.
pub trait PushSamples {
    /// The samples this sink has accepted so far, in order.
    spec fn pushed(&self) -> Seq<i16>;

    /// Delivers `buf` to the sink.  An implementation may wait for room, but
    /// it delivers the whole chunk, in order, appended to what came before.
    fn push_samples(&mut self, buf: &[i16])
        ensures
            final(self).pushed() == old(self).pushed() + buf@,
    ;
}

/// A sink that records every sample pushed to it: the in-memory stand-in for
/// an audio device, and the way a caller observes what playback produced.
pub struct CaptureSink {
    pub samples: Vec<i16>,
}

impl CaptureSink {
    pub fn new() -> (s: Self)
        ensures
            s.pushed() == Seq::<i16>::empty(),
    {
        CaptureSink { samples: Vec::new() }
    }
}

impl PushSamples for CaptureSink {
    open spec fn pushed(&self) -> Seq<i16> {
        self.samples@
    }

    fn push_samples(&mut self, buf: &[i16]) {
        let mut k: usize = 0;
        while k < buf.len()
            invariant
                k <= buf@.len(),
                self.samples@ == old(self).samples@ + buf@.subrange(0, k as int),
            decreases buf@.len() - k,
        {
            self.samples.push(buf[k]);
            k = k + 1;
        }
        proof {
            assert(buf@.subrange(0, buf@.len() as int) == buf@);
        }
    }
}

/// Samples queued above this count make the producer hold off.
pub const HIGH_WATER: usize = 1000;

/// The bounded, ordered queue of mixed samples between the producer and the
/// real-time consumer.  The bound is a high-water mark enforced on the
/// producer side, not a hard capacity: a chunk is accepted whole whenever the
/// queue is at or below the mark.
pub struct SampleQueue {
    data: VecDeque<i16>,
}

impl View for SampleQueue {
    type V = Seq<i16>;

    closed spec fn view(&self) -> Seq<i16> {
        self.data@
    }
}

impl SampleQueue {
    pub fn new() -> (q: Self)
        ensures
            q@ == Seq::<i16>::empty(),
    {
        SampleQueue { data: VecDeque::new() }
    }

    pub fn len(&self) -> (n: usize)
        ensures
            n == self@.len(),
    {
        self.data.len()
    }

    /// The producer's push: accepts and appends the whole chunk if and only
    /// if the queue is not above the high-water mark.  A refused chunk leaves
    /// the queue untouched; the caller waits and retries — this is the sole
    /// backpressure mechanism, and pushing while at or below the mark never
    /// has to wait.
    pub fn try_push(&mut self, chunk: &[i16]) -> (accepted: bool)
        ensures
            accepted == (old(self)@.len() <= HIGH_WATER),
            accepted ==> final(self)@ == old(self)@ + chunk@,
            !accepted ==> final(self)@ == old(self)@,
    {
        if self.data.len() > HIGH_WATER {
            return false;
        }
        let mut k: usize = 0;
        while k < chunk.len()
            invariant
                k <= chunk@.len(),
                self.data@ == old(self).data@ + chunk@.subrange(0, k as int),
            decreases chunk@.len() - k,
        {
            self.data.push_back(chunk[k]);
            k = k + 1;
        }
        proof {
            assert(chunk@.subrange(0, chunk@.len() as int) == chunk@);
        }
        true
    }

    /// The consumer's drain: pops one queued sample per requested frame, in
    /// order, and emits silence (zero) for every frame the queue cannot meet
    /// — it never waits and never fails.
    pub fn drain(&mut self, frames: usize) -> (out: Vec<i16>)
        ensures
            out@.len() == frames,
            forall|j: int|
                0 <= j < frames ==> out@[j] == (if j < old(self)@.len() {
                    old(self)@[j]
                } else {
                    0i16
                }),
            final(self)@ == (if frames <= old(self)@.len() {
                old(self)@.skip(frames as int)
            } else {
                Seq::<i16>::empty()
            }),
    {
        let mut out: Vec<i16> = Vec::new();
        let mut k: usize = 0;
        while k < frames
            invariant
                k <= frames,
                out@.len() == k,
                forall|j: int|
                    0 <= j < k ==> out@[j] == (if j < old(self)@.len() {
                        old(self)@[j]
                    } else {
                        0i16
                    }),
                self@ == (if k <= old(self)@.len() {
                    old(self)@.skip(k as int)
                } else {
                    Seq::<i16>::empty()
                }),
            decreases frames - k,
        {
            match self.data.pop_front() {
                Some(v) => {
                    out.push(v);
                },
                None => {
                    out.push(0);
                },
            }
            k = k + 1;
            proof {
                if k <= old(self)@.len() {
                    assert(self@ =~= old(self)@.skip(k as int));
                } else {
                    assert(self@ =~= Seq::<i16>::empty());
                }
            }
        }
        out
    }
}

/// Replicates a mono sample stream across `channels` interleaved output
/// channels: frame `j` of the result carries `samples[j]` in every slot.
pub fn fan_out(samples: &Vec<i16>, channels: usize) -> (out: Vec<i16>)
    requires
        channels >= 1,
        samples@.len() * channels <= usize::MAX,
    ensures
        out@.len() == samples@.len() * channels,
        forall|i: int| 0 <= i < out@.len() ==> out@[i] == samples@[i / channels as int],
{
    let mut out: Vec<i16> = Vec::new();
    let mut k: usize = 0;
    while k < samples.len()
        invariant
            k <= samples@.len(),
            channels >= 1,
            samples@.len() * channels <= usize::MAX,
            out@.len() == k * channels,
            forall|i: int| 0 <= i < out@.len() ==> out@[i] == samples@[i / channels as int],
        decreases samples@.len() - k,
    {
        proof {
            assert((k + 1) * channels <= samples@.len() * channels && k * channels + channels == (k
                + 1) * channels) by (nonlinear_arith)
                requires
                    k < samples@.len(),
                    channels >= 1,
            ;
        }
        let v = samples[k];
        let mut c: usize = 0;
        while c < channels
            invariant
                c <= channels,
                k < samples@.len(),
                v == samples@[k as int],
                k * channels + channels <= usize::MAX,
                out@.len() == k * channels + c,
                forall|i: int|
                    0 <= i < k * channels ==> out@[i] == samples@[i / channels as int],
                forall|i: int| k * channels <= i < out@.len() ==> out@[i] == v,
            decreases channels - c,
        {
            out.push(v);
            c = c + 1;
        }
        proof {
            assert forall|i: int| k * channels <= i < out@.len() implies out@[i] == samples@[i / (channels as int)] by {
                lemma_fundamental_div_mod_converse(i, channels as int, k as int, i - k * (channels as int));
            }
        }
        k = k + 1;
    }
    out
}

} // verus!
